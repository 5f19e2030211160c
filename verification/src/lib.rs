//! Interplanetary Function Interface: remote procedure calls over anything that carries bytes.
//!
//! An [`Interface`] accumulates messages byte by byte, and knows which procedures can be called. A
//! [`Wire`] frames procedure calls and their responses onto a queue of outgoing bytes, and
//! interprets the bytes that come back. Everything in this crate is a plain state machine: it never
//! blocks, never performs I/O and never spawns a thread. Where an operation would have to wait, it
//! reports [`Progress::Pending`], and whoever drives it tries again later. Where a procedure has to
//! be executed, it is handed out as a [`PendingCall`].
//!
//! The view of an interface is an `InterfaceState`, and that of a wire is a `WireState`. What every
//! operation does is stated over those, and what holds of all of them together is stated in
//! `interface_laws`, `wire_laws`, `filling_laws`, `format_laws`, `procedure_args_laws` and
//! `sharing_laws`. What each of them changes, and what it leaves alone, is stated in
//! `interface_effects` and `wire_effects`, and how they relate to each other and to what is there
//! before and after them in `interface_operations`, `wire_operations`, `component_operations` and
//! `ordered_operations`.
#![allow(unused_imports)]

pub mod buffer_wire;
pub mod collections;
pub mod complete_lock;
pub mod component_operations;
pub mod error;
pub mod filling_laws;
pub mod format_laws;
pub mod incoming;
pub mod integer;
pub mod interface;
pub mod interface_effects;
pub mod interface_laws;
pub mod interface_operations;
pub mod message;
pub mod ordered;
pub mod ordered_operations;
pub mod pack;
pub mod procedure_args;
pub mod procedure_args_laws;
pub mod reader;
pub mod roi_queue;
pub mod sharing_laws;
pub mod types;
pub mod wire;
pub mod wire_effects;
pub mod wire_laws;
pub mod wire_operations;
pub mod wire_utils;

pub use buffer_wire::{packet_bytes_wanted, BufferWire};
pub use complete_lock::{CompleteLock, CompleteLockState};
pub use error::{Error, IoErrorKind};
pub use incoming::bytes_wanted;
pub use interface::{
    ArgumentFormat, ChunkReceiver, Interface, PendingCall, Procedure, ProcedureKind, Progress,
};
pub use pack::{Pack, Packed, Unpack};
pub use procedure_args::{ProcedureArgs, Tuple};
pub use reader::Reader;
pub use roi_queue::RoiQueue;
pub use types::{CallIndex, IpfiInteger, ProcedureIndex, Terminator, WireId};
pub use wire::{signal_termination, CallHandle, ChunkReceiverHandle, Reception, Wire};
