//! The identifiers that interfaces and wires exchange.
use vstd::prelude::*;

verus! {

/// The integer that identifies messages, procedures, calls and wires.
pub type IpfiInteger = u32;

/// A call index. This is its own type to avoid confusion.
///
/// Call indices count how many times a wire has called one particular procedure.
#[derive(PartialEq, Eq, Structural, Hash, Clone, Copy, Debug)]
pub struct CallIndex(pub IpfiInteger);

/// A procedure index. This is its own type to avoid confusion.
#[derive(PartialEq, Eq, Structural, Hash, Clone, Copy, Debug)]
pub struct ProcedureIndex(pub IpfiInteger);

impl ProcedureIndex {
    /// Creates a new procedure index as given.
    pub fn new(idx: IpfiInteger) -> (index: Self)
        ensures
            index.0 == idx,
    {
        Self(idx)
    }
}

/// An identifier for a wire.
#[derive(PartialEq, Eq, Structural, Hash, Clone, Copy, Debug)]
pub struct WireId(pub IpfiInteger);

/// The status each call/response message holds about how it is terminating its series of
/// messages. `Chunk` marks the end of one discrete value in a series that goes on, which lets
/// the receiver deserialise each of the values on its own.
#[derive(PartialEq, Eq, Structural, Clone, Copy, Debug)]
pub enum Terminator {
    /// This is the last message of its series.
    Complete,
    /// This message ends a chunk, and further chunks follow.
    Chunk,
    /// More of the same chunk follows.
    Partial,
}

} // verus!
