//! The ways in which operations on interfaces and wires can fail.
use crate::types::IpfiInteger;
use vstd::prelude::*;

verus! {

/// Why bytes could not be read from or written to the other side.
#[derive(PartialEq, Eq, Structural, Clone, Copy, Debug)]
pub enum IoErrorKind {
    /// The input ended in the middle of a message.
    UnexpectedEof,
    /// Any other failure of the underlying transport.
    Other,
}

/// An error on an interface or a wire.
#[derive(PartialEq, Eq, Structural, Clone, Copy, Debug)]
pub enum Error {
    /// A value could not be serialised.
    Encode,
    /// A value could not be deserialised.
    Decode,
    /// The message has already been marked as completed (no further data may be sent to it).
    AlreadyCompleted { index: IpfiInteger },
    /// The message does not currently exist (but it may in future).
    OutOfBounds { index: IpfiInteger },
    /// There is no response buffer for a procedure call that has not been started.
    NoResponseBuffer { index: IpfiInteger, call_idx: IpfiInteger },
    /// A zero-length payload was given to an operation that does not terminate its call, but would
    /// be interpreted as doing so.
    ZeroLengthInNonTerminating,
    /// The underlying transport failed.
    IoError(IoErrorKind),
    /// No procedure has been registered with the given index.
    NoSuchProcedure { index: IpfiInteger },
    /// No message buffer exists for the arguments of a procedure call.
    NoCallBuffer { index: IpfiInteger },
    /// The arguments of a procedure call are still incomplete.
    CallBufferIncomplete { index: IpfiInteger },
    /// The arguments of a procedure call have been poisoned.
    CallBufferPoisoned { index: IpfiInteger },
    /// The length marker for accumulated arguments could not be written.
    WriteLenMarkerFailed,
    /// The wire has been terminated, and operations can no longer be performed on it.
    WireTerminated,
    /// A module-style wire, which can only respond to calls, was asked to make one.
    CallFromModule,
    /// An index was read that does not fit into the local integer type.
    IdxTooBig,
    /// A non-compliant terminator `01` was read (valid values are `00`, `10`, and `11`).
    InvalidTerminator,
    /// A creation or completion lock was found to be poisoned.
    LockPoisoned { index: IpfiInteger },
}

} // verus!
