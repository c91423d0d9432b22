//! Primitive identifiers: node, subject, service and transfer IDs, and priorities.
use vstd::prelude::*;

verus! {

/// Largest node ID (7 bits)
pub const NODE_ID_MAX: u8 = 127;

/// Largest subject ID (13 bits)
pub const SUBJECT_ID_MAX: u16 = 8191;

/// Largest service ID (9 bits)
pub const SERVICE_ID_MAX: u16 = 511;

/// Largest transfer ID (5 bits)
pub const TRANSFER_ID_MAX: u8 = 31;

/// The identifier of a node on the bus, in range 0..=127
#[derive(Debug, Clone, Copy, PartialEq, Eq, Structural)]
pub struct NodeId {
    pub(crate) value: u8,
}

impl NodeId {
    #[verifier::type_invariant]
    pub(crate) open spec fn inv(self) -> bool {
        self.value <= NODE_ID_MAX
    }

    /// The integer value of this node ID
    pub open(crate) spec fn spec_value(self) -> u8 {
        self.value
    }

    /// Creates a node ID, returning `None` if the value is greater than 127
    pub fn try_from(value: u8) -> (r: Option<NodeId>)
        ensures
            r is Some <==> value <= NODE_ID_MAX,
            r matches Some(id) ==> id.spec_value() == value,
    {
        if value <= NODE_ID_MAX {
            Some(NodeId { value })
        } else {
            None
        }
    }

    /// Creates a node ID from the low 7 bits of a value
    pub fn from_truncating(value: u8) -> (r: NodeId)
        ensures
            r.spec_value() == value & 0x7f,
            r.spec_value() == value % 128,
    {
        assert(value & 0x7f <= 127 && value & 0x7f == value % 128) by (bit_vector);
        NodeId { value: value & 0x7f }
    }

    /// Returns the integer value of this node ID
    pub fn to_u8(self) -> (r: u8)
        ensures
            r == self.spec_value(),
            r <= NODE_ID_MAX,
    {
        proof {
            use_type_invariant(&self);
        }
        self.value
    }

    /// True if this node ID is one of the two highest values (126 and 127), which are reserved
    /// for diagnostic and debugging tools
    pub open(crate) spec fn spec_is_diagnostic_reserved(self) -> bool {
        self.value >= 126
    }

    /// Returns true if this node ID is reserved for diagnostic and debugging tools
    pub fn is_diagnostic_reserved(self) -> (r: bool)
        ensures
            r == self.spec_is_diagnostic_reserved(),
    {
        self.value >= 126
    }
}

/// A message subject ID, in range 0..=8191
#[derive(Debug, Clone, Copy, PartialEq, Eq, Structural)]
pub struct SubjectId {
    pub(crate) value: u16,
}

impl SubjectId {
    #[verifier::type_invariant]
    pub(crate) open spec fn inv(self) -> bool {
        self.value <= SUBJECT_ID_MAX
    }

    /// The integer value of this subject ID
    pub open(crate) spec fn spec_value(self) -> u16 {
        self.value
    }

    /// Creates a subject ID, returning `None` if the value is greater than 8191
    pub fn try_from(value: u16) -> (r: Option<SubjectId>)
        ensures
            r is Some <==> value <= SUBJECT_ID_MAX,
            r matches Some(id) ==> id.spec_value() == value,
    {
        if value <= SUBJECT_ID_MAX {
            Some(SubjectId { value })
        } else {
            None
        }
    }

    /// Returns the integer value of this subject ID
    pub fn to_u16(self) -> (r: u16)
        ensures
            r == self.spec_value(),
            r <= SUBJECT_ID_MAX,
    {
        proof {
            use_type_invariant(&self);
        }
        self.value
    }
}

/// A service ID, in range 0..=511
#[derive(Debug, Clone, Copy, PartialEq, Eq, Structural)]
pub struct ServiceId {
    pub(crate) value: u16,
}

impl ServiceId {
    #[verifier::type_invariant]
    pub(crate) open spec fn inv(self) -> bool {
        self.value <= SERVICE_ID_MAX
    }

    /// The integer value of this service ID
    pub open(crate) spec fn spec_value(self) -> u16 {
        self.value
    }

    /// Creates a service ID, returning `None` if the value is greater than 511
    pub fn try_from(value: u16) -> (r: Option<ServiceId>)
        ensures
            r is Some <==> value <= SERVICE_ID_MAX,
            r matches Some(id) ==> id.spec_value() == value,
    {
        if value <= SERVICE_ID_MAX {
            Some(ServiceId { value })
        } else {
            None
        }
    }

    /// Returns the integer value of this service ID
    pub fn to_u16(self) -> (r: u16)
        ensures
            r == self.spec_value(),
            r <= SERVICE_ID_MAX,
    {
        proof {
            use_type_invariant(&self);
        }
        self.value
    }
}

/// A transfer ID, a counter in range 0..=31 that wraps around
#[derive(Debug, Clone, Copy, PartialEq, Eq, Structural)]
pub struct TransferId {
    pub(crate) value: u8,
}

impl TransferId {
    #[verifier::type_invariant]
    pub(crate) open spec fn inv(self) -> bool {
        self.value <= TRANSFER_ID_MAX
    }

    /// The integer value of this transfer ID
    pub open(crate) spec fn spec_value(self) -> u8 {
        self.value
    }

    /// Returns transfer ID 0
    pub fn default_id() -> (r: TransferId)
        ensures
            r.spec_value() == 0,
    {
        TransferId { value: 0 }
    }

    /// Creates a transfer ID, returning `None` if the value is greater than 31
    pub fn try_from(value: u8) -> (r: Option<TransferId>)
        ensures
            r is Some <==> value <= TRANSFER_ID_MAX,
            r matches Some(id) ==> id.spec_value() == value,
    {
        if value <= TRANSFER_ID_MAX {
            Some(TransferId { value })
        } else {
            None
        }
    }

    /// Creates a transfer ID from the low 5 bits of a value
    pub fn from_truncating(value: u8) -> (r: TransferId)
        ensures
            r.spec_value() == value & 0x1f,
            r.spec_value() == value % 32,
    {
        assert(value & 0x1f <= 31 && value & 0x1f == value % 32) by (bit_vector);
        TransferId { value: value & 0x1f }
    }

    /// Returns the integer value of this transfer ID
    pub fn to_u8(self) -> (r: u8)
        ensures
            r == self.spec_value(),
            r <= TRANSFER_ID_MAX,
    {
        proof {
            use_type_invariant(&self);
        }
        self.value
    }

    /// Returns the following transfer ID, wrapping from 31 to 0
    pub fn increment(self) -> (r: TransferId)
        ensures
            r.spec_value() == (self.spec_value() + 1) % 32,
    {
        proof {
            use_type_invariant(&self);
        }
        if self.value == TRANSFER_ID_MAX {
            TransferId { value: 0 }
        } else {
            TransferId { value: self.value + 1 }
        }
    }
}

/// Transfer priority, from `Exceptional` (0, the highest) to `Optional` (7, the lowest)
#[derive(Debug, Clone, Copy, PartialEq, Eq, Structural)]
pub enum Priority {
    Exceptional,
    Immediate,
    Fast,
    High,
    Nominal,
    Low,
    Slow,
    Optional,
}

impl Priority {
    /// The 3-bit value of this priority
    pub open spec fn spec_value(self) -> u8 {
        match self {
            Priority::Exceptional => 0,
            Priority::Immediate => 1,
            Priority::Fast => 2,
            Priority::High => 3,
            Priority::Nominal => 4,
            Priority::Low => 5,
            Priority::Slow => 6,
            Priority::Optional => 7,
        }
    }

    /// Returns the 3-bit value of this priority
    pub fn to_u8(self) -> (r: u8)
        ensures
            r == self.spec_value(),
            r <= 7,
    {
        match self {
            Priority::Exceptional => 0,
            Priority::Immediate => 1,
            Priority::Fast => 2,
            Priority::High => 3,
            Priority::Nominal => 4,
            Priority::Low => 5,
            Priority::Slow => 6,
            Priority::Optional => 7,
        }
    }

    /// Converts a value into a priority, returning `None` if the value is greater than 7
    pub fn try_from(value: u8) -> (r: Option<Priority>)
        ensures
            r is Some <==> value <= 7,
            r matches Some(p) ==> p.spec_value() == value,
    {
        match value {
            0 => Some(Priority::Exceptional),
            1 => Some(Priority::Immediate),
            2 => Some(Priority::Fast),
            3 => Some(Priority::High),
            4 => Some(Priority::Nominal),
            5 => Some(Priority::Low),
            6 => Some(Priority::Slow),
            7 => Some(Priority::Optional),
            _ => None,
        }
    }
}

} // verus!
