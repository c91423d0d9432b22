//! A UAVCAN/CAN v1 transport core: CAN identifier layout, transfer framing, reassembly of
//! incoming frames into transfers, fragmentation of outgoing transfers, and a node that
//! multiplexes publishers, requesters and subscribers onto one transmitter and receiver.

pub mod bounded_map;
mod buildup;
pub mod can_id;
pub mod crc;
mod fallible;
pub mod filter;
pub mod frame;
pub mod header;
pub mod ids;
pub mod node;
pub mod publish;
pub mod round_trip;
pub mod rx;
pub mod tail;
pub mod time;
pub mod tx;
