//! What the operations on ordered interfaces, and on the wires to them, do, told by what is there
//! before and after them.
use crate::buffer_wire::{packet, packet_bytes_wanted, receive, wanted, BufferWire};
use crate::error::Error;
use crate::interface::{ArgumentFormat, Procedure, ProcedureKind, Progress};
use crate::ordered::{Interface, OrderedState};
use crate::pack::{framed, Unpack};
use crate::types::IpfiInteger;
use vstd::prelude::*;

verus! {

/// A new interface has nothing on it, and tells how many messages there are and whether there are
/// identifiers left for wires.
pub proof fn law_ordered_questions(
    new: Interface,
    default: Interface,
    interface: Interface,
    count: usize,
    available: bool,
)
    ensures
        call_ensures(Interface::new, (), new) ==> new@ == OrderedState::initial(),
        call_ensures(<Interface as Default>::default, (), default) ==> default@
            == OrderedState::initial(),
        call_ensures(Interface::message_count, (&interface,), count) ==> count
            == interface@.messages.len(),
        call_ensures(Interface::has_id, (&interface,), available) ==> (available
            <==> interface@.next_wire_id < IpfiInteger::MAX),
{
}

/// Wires are numbered one by one.
pub proof fn law_ordered_get_id()
    ensures
        forall|interface: &mut Interface, id: IpfiInteger| #[trigger]
            call_ensures(Interface::get_id, (interface,), id) && (*interface)@.next_wire_id
                < IpfiInteger::MAX ==> {
                let before = (*interface)@;
                let after = final(interface)@;
                &&& id == before.next_wire_id
                &&& after.next_wire_id == id + 1
                &&& after == (OrderedState { next_wire_id: after.next_wire_id, ..before })
            },
{
}

/// A procedure is registered under its index. Nothing else changes.
pub proof fn law_ordered_add_procedure(idx: IpfiInteger, args_len: u32, other: IpfiInteger)
    ensures
        forall|interface: &mut Interface| #[trigger]
            call_ensures(Interface::add_procedure, (interface, idx, args_len), ()) ==> {
                let before = (*interface)@;
                let after = final(interface)@;
                &&& after == (OrderedState { procedures: after.procedures, ..before })
                &&& after.procedures.contains_key(idx)
                &&& after.procedures[idx] == (Procedure {
                    kind: ProcedureKind::Standard,
                    format: ArgumentFormat::Tuple(args_len),
                })
                &&& other != idx ==> (after.procedures.contains_key(other)
                    <==> before.procedures.contains_key(other)) && after.procedures[other]
                    == before.procedures[other]
            },
{
}

/// A procedure can be called if and only if it is registered, and the message with its arguments is
/// complete.
pub proof fn law_ordered_call_procedure(
    interface: Interface,
    procedure: IpfiInteger,
    buffer: IpfiInteger,
    result: Result<Vec<u8>, Error>,
)
    requires
        call_ensures(Interface::call_procedure, (&interface, procedure, buffer), result),
    ensures
        ({
            let state = interface@;
            let known = state.procedures.contains_key(procedure);
            let there = buffer < state.messages.len();
            let message = state.messages[buffer as int];
            &&& result == Err::<Vec<u8>, Error>(Error::NoSuchProcedure { index: procedure })
                <==> !known
            &&& result == Err::<Vec<u8>, Error>(Error::NoCallBuffer { index: buffer }) <==> known
                && !there
            &&& result == Err::<Vec<u8>, Error>(Error::CallBufferIncomplete { index: buffer })
                <==> known && there && !(message.lock is Complete)
            &&& known && there && message.lock is Complete ==> match state.procedures[
            procedure].format {
                ArgumentFormat::Raw => result matches Ok(bytes) && bytes@ == message.bytes,
                ArgumentFormat::Tuple(len) => {
                    &&& result matches Ok(bytes) ==> bytes@ == framed(len, message.bytes)
                    &&& result matches Err(error) ==> error == Error::Encode && len == 0
                },
            }
        }),
{
}

/// Messages are created one by one. The message that accumulates the arguments of a call is always
/// the same one.
pub proof fn law_ordered_creation(
    procedure: IpfiInteger,
    call: IpfiInteger,
    wire: IpfiInteger,
)
    ensures
        forall|interface: &mut Interface, idx: IpfiInteger| #[trigger]
            call_ensures(Interface::push, (interface,), idx) ==> {
                let before = (*interface)@;
                let after = final(interface)@;
                &&& idx == before.messages.len()
                &&& after == before.pushed()
                &&& after.messages.len() == before.messages.len() + 1
            },
        forall|interface: &mut Interface, idx: IpfiInteger| #[trigger]
            call_ensures(Interface::get_call_buffer, (interface, procedure, call, wire), idx) ==> {
                let key = (procedure, call, wire);
                let before = (*interface)@;
                let after = final(interface)@;
                &&& after == before.with_call_buffer(key)
                &&& after.call_buffers.contains_key(key)
                &&& after.call_buffers[key] == idx
                &&& before.call_buffers.contains_key(key) ==> before.call_buffers[key] == idx
                    && after == before
            },
{
}

/// Nothing can be written to a message before those in front of it exist, or once it is complete,
/// and nothing changes then. Otherwise, bytes are put at its end, in order, and terminating it, or
/// sending a negative number, completes it.
pub proof fn law_ordered_writing(datum: i8, data: &[u8], idx: IpfiInteger)
    ensures
        forall|interface: &mut Interface, result: Result<bool, Error>| #[trigger]
            call_ensures(Interface::send, (interface, datum, idx), result) ==> {
                let before = (*interface)@;
                let after = final(interface)@;
                let complete = idx < before.messages.len()
                    && before.messages[idx as int].lock is Complete;
                &&& result == Err::<bool, Error>(Error::OutOfBounds { index: idx }) <==> idx
                    > before.messages.len()
                &&& result == Err::<bool, Error>(Error::AlreadyCompleted { index: idx })
                    <==> complete
                &&& result is Err <==> idx > before.messages.len() || complete
                &&& result is Err ==> after == before
                &&& result == Ok::<bool, Error>(true) ==> datum >= 0 && after == before.appended(
                    idx,
                    seq![datum as u8],
                )
                &&& result == Ok::<bool, Error>(false) ==> datum < 0 && after == before.completed(
                    idx,
                )
            },
        forall|interface: &mut Interface, result: Result<(), Error>| #[trigger]
            call_ensures(Interface::send_many, (interface, data, idx), result) ==> {
                let before = (*interface)@;
                let after = final(interface)@;
                let complete = idx < before.messages.len()
                    && before.messages[idx as int].lock is Complete;
                &&& result == Err::<(), Error>(Error::OutOfBounds { index: idx }) <==> idx
                    > before.messages.len()
                &&& result == Err::<(), Error>(Error::AlreadyCompleted { index: idx }) <==> complete
                &&& result is Err <==> idx > before.messages.len() || complete
                &&& result is Err ==> after == before
                &&& result is Ok ==> after == before.appended(idx, data@)
            },
        forall|interface: &mut Interface, result: Result<(), Error>| #[trigger]
            call_ensures(Interface::terminate_message, (interface, idx), result) ==> {
                let before = (*interface)@;
                let after = final(interface)@;
                let complete = idx < before.messages.len()
                    && before.messages[idx as int].lock is Complete;
                &&& result == Err::<(), Error>(Error::OutOfBounds { index: idx }) <==> idx
                    > before.messages.len()
                &&& result == Err::<(), Error>(Error::AlreadyCompleted { index: idx }) <==> complete
                &&& result is Err <==> idx > before.messages.len() || complete
                &&& result is Err ==> after == before
                &&& result is Ok ==> after == before.completed(idx)
            },
{
}

/// A message is read if and only if it exists and its lock is not incomplete. What is read is all
/// of it, and it stays.
pub proof fn law_ordered_reading<T: Unpack>(idx: IpfiInteger)
    ensures
        forall|interface: &mut Interface, progress: Progress<Vec<u8>>| #[trigger]
            call_ensures(Interface::get_raw, (interface, idx), progress) ==> {
                let before = (*interface)@;
                let there = idx < before.messages.len();
                let message = before.messages[idx as int];
                &&& final(interface)@ == before.awaited(idx)
                &&& progress is Pending <==> !there || message.lock is Incomplete
                &&& progress matches Progress::Ready(bytes) ==> bytes@ == message.bytes
                &&& there ==> final(interface)@ == before
            },
        forall|interface: &mut Interface, progress: Progress<Result<T, Error>>| #[trigger]
            call_ensures(Interface::get::<T>, (interface, idx), progress) ==> {
                let before = (*interface)@;
                let there = idx < before.messages.len();
                let message = before.messages[idx as int];
                &&& final(interface)@ == before.awaited(idx)
                &&& progress is Pending <==> !there || message.lock is Incomplete
                &&& progress matches Progress::Ready(Ok(value)) ==> T::unpacked(message.bytes)
                    == Some(value@)
                &&& progress matches Progress::Ready(Err(error)) ==> error == Error::Decode
                    && T::unpacked(message.bytes) is None
                &&& there ==> final(interface)@ == before
            },
{
}

/// A wire has the input and the output that it was made with.
pub proof fn law_buffer_wires(
    input: Vec<u8>,
    output: Vec<u8>,
    wire: BufferWire,
    written: Option<Vec<u8>>,
)
    ensures
        call_ensures(BufferWire::new, (input, output), wire) ==> wire@.input == Some(input@)
            && wire@.output == Some(output@),
        call_ensures(BufferWire::new_read_only, (input,), wire) ==> wire@.input == Some(input@)
            && wire@.output is None,
        call_ensures(BufferWire::new_write_only, (output,), wire) ==> wire@.input is None
            && wire@.output == Some(output@),
        call_ensures(BufferWire::into_output, (wire,), written) ==> {
            &&& written is None <==> wire@.output is None
            &&& written matches Some(bytes) ==> wire@.output == Some(bytes@)
        },
{
}

/// What is sent over a wire is written to the end of its output, if it has one, and ending a
/// message is sending nothing of it.
pub proof fn law_buffer_wire_sending(bytes: &[u8], idx: IpfiInteger)
    ensures
        forall|wire: &mut BufferWire, result: Result<(), Error>| #[trigger]
            call_ensures(BufferWire::send_bytes, (wire, bytes, idx), result) ==> {
                let before = (*wire)@;
                let after = final(wire)@;
                &&& result is Ok
                &&& after.input == before.input
                &&& before.output is None <==> after.output is None
                &&& before.output matches Some(output) ==> after.output == Some(
                    output + packet(idx, bytes@),
                )
            },
        forall|wire: &mut BufferWire, result: Result<(), Error>| #[trigger]
            call_ensures(BufferWire::end_message, (wire, idx), result) ==> {
                let before = (*wire)@;
                let after = final(wire)@;
                &&& result is Ok
                &&& after.input == before.input
                &&& before.output is None <==> after.output is None
                &&& before.output matches Some(output) ==> after.output == Some(
                    output + packet(idx, Seq::empty()),
                )
            },
{
}

/// One packet is received at a time, and nothing behind it is touched. Without an input, nothing
/// happens. How many more bytes a packet takes is told by those that are there.
pub proof fn law_buffer_wire_receiving(prefix: &[u8], count: usize)
    ensures
        forall|wire: &mut BufferWire, interface: &mut Interface, result: Result<(), Error>|
            #[trigger]
            call_ensures(BufferWire::receive_one, (wire, interface), result) ==> {
                let before = (*wire)@;
                let after = final(wire)@;
                &&& after.output == before.output
                &&& before.input is None ==> {
                    &&& result is Ok
                    &&& after == before
                    &&& final(interface)@ == (*interface)@
                }
                &&& before.input matches Some(input) ==> {
                    let received = receive((*interface)@, input);
                    &&& final(interface)@ == received.0
                    &&& after.input == Some(received.1)
                    &&& result == received.2
                }
            },
        call_ensures(packet_bytes_wanted, (prefix,), count) ==> count == wanted(prefix@),
{
}

} // verus!
