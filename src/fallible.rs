//! Allocation that reports failure instead of aborting, through `fallible_collections`.
use vstd::prelude::*;

use fallible_collections::{FallibleBox, FallibleVec};
use std::collections::TryReserveError;

verus! {

/// Relies on `FallibleVec::try_push` of fallible_collections: it reserves room for one more
/// element (which leaves the contents alone, and is where it can fail) and then pushes.
#[verifier::external_body]
pub(crate) fn try_push<T>(v: &mut Vec<T>, item: T) -> (r: Result<(), TryReserveError>)
    ensures
        r is Ok ==> final(v)@ == old(v)@.push(item),
        r is Err ==> final(v)@ == old(v)@,
{
    FallibleVec::try_push(v, item)
}

/// Relies on `FallibleVec::try_extend_from_slice` of fallible_collections: it reserves room for
/// the slice (which leaves the contents alone, and is where it can fail) and then appends it.
#[verifier::external_body]
pub(crate) fn try_extend_from_slice(v: &mut Vec<u8>, s: &[u8]) -> (r: Result<(), TryReserveError>)
    ensures
        r is Ok ==> final(v)@ == old(v)@ + s@,
        r is Err ==> final(v)@ == old(v)@,
{
    FallibleVec::try_extend_from_slice(v, s)
}

/// Relies on `FallibleBox::try_new` of fallible_collections: on success the box holds the value.
#[verifier::external_body]
pub(crate) fn try_box<T>(t: T) -> (r: Result<Box<T>, TryReserveError>)
    ensures
        r matches Ok(b) ==> *b == t,
{
    <Box<T> as FallibleBox<T>>::try_new(t)
}

} // verus!
