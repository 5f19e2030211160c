//! What always holds of wires.
use crate::error::Error;
use crate::incoming::{law_parse_encode, parse, Parsed};
use crate::interface::{CallState, InterfaceState, Progress};
use crate::interface_laws::{
    law_message_round_trip, law_pop_recycles, law_push_fresh, law_writing_is_local,
};
use crate::message::BufferState;
use crate::reader::unexpected_eof;
use crate::roi_queue::{law_issued_until_relinquished, law_relinquish_frees};
use crate::types::{IpfiInteger, Terminator};
use crate::wire::{
    enumerates, fills, flushes, handle, handle_call, handle_response, joined, receives, releases,
    terminates, Handling, Reception, ReceptionState, WireState,
};
use crate::wire_utils::{Frame, Packet};
use vstd::prelude::*;

verus! {

/// Once a wire has been terminated, all operations on it fail, and change nothing.
pub proof fn law_terminated_refuses(
    wire: WireState,
    interface: InterfaceState,
    input: Seq<u8>,
    wire_after: WireState,
    interface_after: InterfaceState,
    rest: Seq<u8>,
    received: Result<Reception, Error>,
    queued: WireState,
    flushed: Result<(), Error>,
)
    requires
        wire.terminated,
    ensures
        wire.refusal() == Some(Error::WireTerminated),
        receives(wire, interface, input, wire_after, interface_after, rest, received)
            || fills(wire, interface, input, wire_after, interface_after, rest, received) ==> {
            &&& received == Err::<Reception, Error>(Error::WireTerminated)
            &&& wire_after == wire
            &&& interface_after == interface
            &&& rest == input
        },
        flushes(wire, queued, wire_after, input, rest, flushed) ==> {
            &&& flushed == Err::<(), Error>(Error::WireTerminated)
            &&& wire_after == wire
            &&& rest == input
        },
{
}

/// No message brings a terminated wire back, and none but a termination terminates one.
pub proof fn law_messages_do_not_terminate(
    wire: WireState,
    interface: InterfaceState,
    packet: Option<Packet>,
)
    ensures
        handle(wire, interface, packet).wire.terminated == wire.terminated,
        handle(wire, interface, packet).wire.id == wire.id,
        handle(wire, interface, packet).wire.module_style == wire.module_style,
        handle(wire, interface, packet).wire.queue == wire.queue,
        handle(wire, interface, packet).wire.idle == wire.idle,
        handle(wire, interface, packet).wire.counters == wire.counters,
        handle(wire, interface, packet).wire.holders == wire.holders,
{
}

/// A wire for modules makes no calls, and does not look at responses: their first byte is skipped.
pub proof fn law_modules_only_respond(wire: WireState, frame: Frame)
    requires
        wire.module_style,
    ensures
        wire.refusal() is Some,
        ({
            let parsed = parse(Packet::Response(frame).encode(), wire.module_style);
            &&& parsed.result == Ok::<Option<Packet>, Error>(None)
            &&& parsed.rest == frame.encode()
        }),
{
    assert(Packet::Response(frame).encode().skip(1) =~= frame.encode());
}

/// The other side never gets to have more calls ongoing than it is allowed to. A call that would
/// be one too many changes nothing at all.
pub proof fn law_ongoing_is_limited(wire: WireState, interface: InterfaceState, frame: Frame)
    requires
        wire.ongoing.finite(),
        wire.ongoing.len() <= wire.max_ongoing,
    ensures
        handle_call(wire, interface, frame).wire.ongoing.finite(),
        handle_call(wire, interface, frame).wire.ongoing.len() <= wire.max_ongoing,
        wire.ongoing.len() == wire.max_ongoing && !wire.ongoing.contains(
            (frame.procedure, frame.call),
        ) ==> handle_call(wire, interface, frame) == (Handling {
            wire,
            interface,
            result: Ok(ReceptionState::Message(false)),
        }),
{
    let key = (frame.procedure, frame.call);
    if wire.ongoing.contains(key) {
        assert(wire.ongoing.insert(key) =~= wire.ongoing);
    }
}

/// The first call of a procedure has index zero, and each call of it has the next index, whatever
/// is called in between.
pub proof fn law_call_indices_count_up(
    wire: WireState,
    procedure: IpfiInteger,
    other: IpfiInteger,
    args: Seq<u8>,
    interface: InterfaceState,
)
    requires
        wire.callable(procedure),
        wire.callable(other),
        other != procedure,
    ensures
        !wire.counters.contains_key(procedure) ==> wire.next_call(procedure) == 0,
        wire.called(procedure, args, interface).counters[procedure] == wire.next_call(procedure),
        wire.called(procedure, args, interface).callable(procedure) ==> wire.called(
            procedure,
            args,
            interface,
        ).next_call(procedure) == wire.next_call(procedure) + 1,
        wire.call_begun(procedure, args, interface).callable(procedure) ==> wire.call_begun(
            procedure,
            args,
            interface,
        ).next_call(procedure) == wire.next_call(procedure) + 1,
        wire.called(other, args, interface).next_call(procedure) == wire.next_call(procedure),
        wire.call_begun(other, args, interface).next_call(procedure) == wire.next_call(procedure),
{
}

/// A response reaches the message that was set aside for it locally, and nothing else on the
/// interface: no other message, and none of the calls.
pub proof fn law_responses_are_confined(
    wire: WireState,
    interface: InterfaceState,
    frame: Frame,
    other: IpfiInteger,
)
    requires
        !(wire.responses.contains_key((frame.procedure, frame.call)) && other
            == wire.responses[(frame.procedure, frame.call)]),
    ensures
        ({
            let after = handle_response(wire, interface, frame).interface;
            &&& after.messages.contains_key(other) == interface.messages.contains_key(other)
            &&& interface.messages.contains_key(other) ==> after.messages[other]
                == interface.messages[other]
            &&& after.call_buffers == interface.call_buffers
            &&& after.procedures == interface.procedures
            &&& after.creation_locks == interface.creation_locks
        }),
{
}

/// The arguments of a call reach the message that accumulates them, and no other.
pub proof fn law_arguments_are_confined(
    wire: WireState,
    interface: InterfaceState,
    frame: Frame,
    other: IpfiInteger,
)
    requires
        interface.messages.contains_key(other),
        other != interface.call_buffer((frame.procedure, frame.call, wire.id)),
    ensures
        ({
            let after = handle_call(wire, interface, frame).interface;
            &&& after.messages.contains_key(other)
            &&& after.messages[other] == interface.messages[other]
            &&& after.procedures == interface.procedures
        }),
{
    let call = (frame.procedure, frame.call, wire.id);
    let buffer = interface.call_buffer(call);
    let prepared = interface.with_call_buffer(call);
    assert(prepared.messages.contains_key(other) && prepared.messages[other]
        == interface.messages[other]);
    if prepared.refusal(buffer) is None && frame.ends() {
        let ended = prepared.appended(buffer, frame.payload).terminated(buffer);
        assert(ended.messages.contains_key(other) && ended.messages[other]
            == interface.messages[other]);
        assert(ended.call_buffers == prepared.call_buffers);
        assert(prepared.call_buffers.contains_key(call));
    }
}

/// What one side flushes, the other reads as the same messages, in the same order.
pub proof fn law_flushed_is_read(
    packet: Packet,
    queue: Seq<Seq<u8>>,
    more: Seq<u8>,
    module_style: bool,
)
    requires
        packet.encodable(),
        packet is Response ==> !module_style,
        queue.len() > 0,
        queue[0] == packet.encode(),
    ensures
        parse(joined(queue) + more, module_style) == (Parsed {
            result: Ok::<Option<Packet>, Error>(Some(packet)),
            rest: joined(queue.skip(1)) + more,
        }),
{
    let rest = joined(queue.skip(1)) + more;
    assert(joined(queue) + more =~= packet.encode() + rest);
    law_parse_encode(packet, rest, module_style);
}

/// A message at the back of a queue is flushed behind all the others.
proof fn lemma_joined_push(queue: Seq<Seq<u8>>, bytes: Seq<u8>)
    ensures
        joined(queue.push(bytes)) == joined(queue) + bytes,
    decreases queue.len(),
{
    let longer = queue.push(bytes);
    if queue.len() == 0 {
        assert(longer.skip(1) =~= Seq::<Seq<u8>>::empty());
        assert(joined(longer.skip(1)) =~= Seq::<u8>::empty());
        assert(joined(longer) =~= joined(queue) + bytes);
    } else {
        assert(longer.skip(1) =~= queue.skip(1).push(bytes));
        lemma_joined_push(queue.skip(1), bytes);
        assert(joined(longer) =~= joined(queue) + bytes);
    }
}

/// Once everything in front of a message has been read, that message is read next, and nothing of
/// what follows.
proof fn lemma_last_is_read(
    queue: Seq<Seq<u8>>,
    packet: Packet,
    more: Seq<u8>,
    module_style: bool,
)
    requires
        packet.encodable(),
        packet is Response ==> !module_style,
    ensures
        ({
            let longer = queue.push(packet.encode());
            let back = longer.skip(queue.len() as int);
            &&& joined(longer) == joined(queue) + joined(back)
            &&& parse(joined(back) + more, module_style) == (Parsed {
                result: Ok::<Option<Packet>, Error>(Some(packet)),
                rest: more,
            })
        }),
{
    let longer = queue.push(packet.encode());
    let back = longer.skip(queue.len() as int);
    assert(back =~= Seq::<Seq<u8>>::empty().push(packet.encode()));
    lemma_joined_push(queue, packet.encode());
    lemma_joined_push(Seq::empty(), packet.encode());
    assert(joined(back) =~= packet.encode());
    law_flushed_is_read(packet, back, more, module_style);
    assert(back.skip(1) =~= Seq::<Seq<u8>>::empty());
    assert(joined(back.skip(1)) + more =~= more);
}

/// A complete call of a registered procedure, of which nothing has arrived before, is handed out
/// to be executed with exactly the arguments that were sent.
pub proof fn law_call_is_handed_out(wire: WireState, interface: InterfaceState, frame: Frame)
    requires
        interface.well_formed(),
        !interface.message_ids.exhausted(),
        interface.procedures.contains_key(frame.procedure),
        !interface.call_buffers.contains_key((frame.procedure, frame.call, wire.id)),
        wire.ongoing.contains((frame.procedure, frame.call)) || wire.ongoing.len()
            < wire.max_ongoing,
        frame.ends(),
    ensures
        handle_call(wire, interface, frame).result == Ok::<ReceptionState, Error>(
            ReceptionState::Call(
                CallState {
                    procedure_idx: frame.procedure,
                    call_idx: frame.call,
                    args_buf_idx: interface.message_ids.upcoming(),
                    procedure: interface.procedures[frame.procedure],
                    args: frame.payload,
                },
            ),
        ),
        handle_call(wire, interface, frame).wire == (WireState {
            ongoing: wire.ongoing.insert((frame.procedure, frame.call)),
            ..wire
        }),
{
    let call = (frame.procedure, frame.call, wire.id);
    let buffer = interface.message_ids.upcoming();
    law_push_fresh(interface);
    let prepared = interface.with_call_buffer(call);
    let message = BufferState::fresh(interface.next_serial);
    assert(prepared.messages[buffer] == message);
    assert(message.appended(frame.payload).chunks =~= seq![frame.payload]) by {
        assert(Seq::<u8>::empty() + frame.payload =~= frame.payload);
    }
    let ended = prepared.appended(buffer, frame.payload).terminated(buffer);
    assert(ended.call_buffers.contains_key(call) && ended.call_buffers[call] == buffer);
    assert(ended.messages[buffer].lock is Complete);
}

/// The complete response to a call is what whoever waits for it gets, in a single chunk.
pub proof fn law_response_is_delivered(
    wire: WireState,
    interface: InterfaceState,
    procedure: IpfiInteger,
    args: Seq<u8>,
    output: Seq<u8>,
)
    requires
        interface.well_formed(),
        !interface.message_ids.exhausted(),
        wire.callable(procedure),
    ensures
        ({
            let frame = Frame {
                procedure,
                call: wire.next_call(procedure),
                terminator: Terminator::Complete,
                payload: output,
            };
            let response_idx = interface.message_ids.upcoming();
            let handling = handle_response(
                wire.called(procedure, args, interface),
                interface.pushed(),
                frame,
            );
            &&& handling.result == Ok::<ReceptionState, Error>(ReceptionState::Message(true))
            &&& handling.interface.message_progress(response_idx) == Progress::Ready(
                Ok::<(), Error>(()),
            )
            &&& handling.interface.messages[response_idx].chunks == seq![output]
            &&& !handling.interface.stranded(response_idx)
        }),
{
    law_message_round_trip(interface, output);
}

/// A message without any bytes, whose terminator says nothing, ends its call or response just as
/// one that is marked as complete does.
pub proof fn law_empty_message_ends(
    wire: WireState,
    interface: InterfaceState,
    procedure: IpfiInteger,
    call: IpfiInteger,
)
    ensures
        ({
            let empty = Frame {
                procedure,
                call,
                terminator: Terminator::Partial,
                payload: Seq::empty(),
            };
            let complete = Frame { terminator: Terminator::Complete, ..empty };
            &&& handle_call(wire, interface, empty) == handle_call(wire, interface, complete)
            &&& handle_response(wire, interface, empty) == handle_response(
                wire,
                interface,
                complete,
            )
        }),
{
}

/// The parts of a response that is sent piecemeal are put one after the other into the same chunk.
/// None of them may be empty, as that would end the response.
pub proof fn law_partial_response(wire: WireState, interface: InterfaceState, frame: Frame)
    requires
        wire.responses.contains_key((frame.procedure, frame.call)),
        interface.refusal(wire.responses[(frame.procedure, frame.call)]) is None,
        frame.terminator is Partial,
        frame.payload.len() > 0,
    ensures
        ({
            let response_idx = wire.responses[(frame.procedure, frame.call)];
            let chunks = interface.messages[response_idx].chunks;
            let handling = handle_response(wire, interface, frame);
            &&& handling.result == Ok::<ReceptionState, Error>(ReceptionState::Message(false))
            &&& handling.wire == wire
            &&& handling.interface.refusal(response_idx) is None
            &&& handling.interface.messages[response_idx].chunks == chunks.drop_last().push(
                chunks.last() + frame.payload,
            )
        }),
{
}

/// The chunks of a response that is sent in several of them are put one after the other: each is
/// appended to the chunk that was begun last, and begins another.
pub proof fn law_chunked_response(wire: WireState, interface: InterfaceState, frame: Frame)
    requires
        wire.responses.contains_key((frame.procedure, frame.call)),
        interface.refusal(wire.responses[(frame.procedure, frame.call)]) is None,
        interface.messages[wire.responses[(frame.procedure, frame.call)]].sender is Absent,
        interface.messages[wire.responses[(frame.procedure, frame.call)]].chunks.len() > 0,
        frame.terminator is Chunk,
    ensures
        ({
            let response_idx = wire.responses[(frame.procedure, frame.call)];
            let chunks = interface.messages[response_idx].chunks;
            let handling = handle_response(wire, interface, frame);
            &&& handling.result == Ok::<ReceptionState, Error>(ReceptionState::Message(false))
            &&& handling.wire == wire
            &&& handling.interface.refusal(response_idx) is None
            &&& handling.interface.messages[response_idx].chunks == chunks.drop_last().push(
                chunks.last() + frame.payload,
            ).push(Seq::empty())
        }),
{
}

/// If somebody receives the chunks of a response, each chunk reaches them as soon as its last part
/// has arrived.
pub proof fn law_chunk_reaches_receiver(wire: WireState, interface: InterfaceState, frame: Frame)
    requires
        wire.responses.contains_key((frame.procedure, frame.call)),
        interface.refusal(wire.responses[(frame.procedure, frame.call)]) is None,
        interface.listening(
            interface.messages[wire.responses[(frame.procedure, frame.call)]].sender,
        ),
        interface.messages[wire.responses[(frame.procedure, frame.call)]].chunks.len() > 0,
        frame.ends() || frame.terminator is Chunk,
    ensures
        ({
            let message = interface.messages[wire.responses[(frame.procedure, frame.call)]];
            let stream = message.sender->Attached_0;
            let after = handle_response(wire, interface, frame).interface.streams[stream];
            &&& after.queue == interface.streams[stream].queue.push(
                message.chunks.last() + frame.payload,
            )
            &&& frame.terminator is Chunk ==> after.open == interface.streams[stream].open
            &&& frame.ends() ==> !after.open && after.lock is Complete
        }),
{
}

/// When the input ends where a message should begin, or in the middle of one, the wire is
/// terminated.
pub proof fn law_end_of_stream_terminates(
    wire: WireState,
    interface: InterfaceState,
    input: Seq<u8>,
    wire_after: WireState,
    interface_after: InterfaceState,
    rest: Seq<u8>,
    result: Result<Reception, Error>,
)
    requires
        !wire.terminated,
        fills(wire, interface, input, wire_after, interface_after, rest, result),
        parse(input, wire.module_style).result == Err::<Option<Packet>, Error>(unexpected_eof()),
    ensures
        result == Err::<Reception, Error>(unexpected_eof()),
        terminates(wire, interface, wire_after, interface_after),
        wire_after.terminated,
{
}

/// Messages of an unknown type are skipped, and change nothing.
pub proof fn law_unknown_is_ignored(
    wire: WireState,
    interface: InterfaceState,
    ty: u8,
    more: Seq<u8>,
)
    requires
        ty > 3,
    ensures
        parse(seq![ty] + more, wire.module_style) == (Parsed {
            result: Ok::<Option<Packet>, Error>(None),
            rest: more,
        }),
        handle(wire, interface, None) == (Handling {
            wire,
            interface,
            result: Ok(ReceptionState::Message(false)),
        }),
{
    assert((seq![ty] + more).skip(1) =~= more);
}

/// The whole way of a call: what the caller flushes is, once everything that was queued before it
/// has been read, read by the other side as a call with the same arguments. Whatever the procedure
/// returns is, once it has been flushed, and everything that was queued before it has been read,
/// what the caller's handle gets. Both sides may have been busy with other things in the meantime,
/// as long as nobody has touched the response.
pub proof fn law_call_round_trip(
    caller: WireState,
    caller_interface: InterfaceState,
    callee: WireState,
    callee_interface: InterfaceState,
    waiting: WireState,
    waiting_interface: InterfaceState,
    procedure: IpfiInteger,
    args: Seq<u8>,
    output: Seq<u8>,
    more: Seq<u8>,
)
    requires
        caller.refusal() is None,
        caller.callable(procedure),
        caller_interface.well_formed(),
        !caller_interface.message_ids.exhausted(),
        callee_interface.well_formed(),
        !callee_interface.message_ids.exhausted(),
        callee_interface.procedures.contains_key(procedure),
        !callee_interface.call_buffers.contains_key(
            (procedure, caller.next_call(procedure), callee.id),
        ),
        callee.ongoing.len() < callee.max_ongoing,
        args.len() <= usize::MAX,
        output.len() <= usize::MAX,
        // The caller still waits for the response
        ({
            let response_idx = caller_interface.message_ids.upcoming();
            &&& !waiting.module_style
            &&& waiting.responses.contains_pair(
                (procedure, caller.next_call(procedure)),
                response_idx,
            )
            &&& waiting_interface.messages.contains_pair(
                response_idx,
                caller_interface.pushed().messages[response_idx],
            )
        }),
    ensures
        ({
            let called = caller.called(procedure, args, caller_interface);
            let response_idx = caller_interface.message_ids.upcoming();
            let sent = joined(called.queue.skip(caller.queue.len() as int));
            let request = parse(sent + more, callee.module_style);
            let executed = handle(callee, callee_interface, request.result->Ok_0);
            let call = executed.result->Ok_0->Call_0;
            let responded = executed.wire.responded(
                call.procedure_idx,
                call.call_idx,
                output,
                Terminator::Complete,
            );
            let returned = joined(responded.queue.skip(callee.queue.len() as int));
            let response = parse(returned + more, waiting.module_style);
            let delivered = handle(waiting, waiting_interface, response.result->Ok_0);
            // The request is flushed behind what was queued before, and arrives in one piece
            &&& joined(called.queue) == joined(caller.queue) + sent
            &&& request.result is Ok
            &&& request.rest == more
            // It is a call of the procedure with those arguments
            &&& executed.result is Ok
            &&& executed.result->Ok_0 is Call
            &&& call.procedure_idx == procedure
            &&& call.call_idx == caller.next_call(procedure)
            &&& call.args == args
            &&& call.procedure == callee_interface.procedures[procedure]
            // The response is flushed behind what was queued before, and arrives in one piece
            &&& joined(responded.queue) == joined(callee.queue) + returned
            &&& response.result is Ok
            &&& response.rest == more
            // The handle is ready, and yields the output
            &&& delivered.result == Ok::<ReceptionState, Error>(ReceptionState::Message(true))
            &&& delivered.interface.message_progress(response_idx) == Progress::Ready(
                Ok::<(), Error>(()),
            )
            &&& delivered.interface.messages[response_idx].chunks == seq![output]
        }),
{
    let call = caller.next_call(procedure);
    let called = caller.called(procedure, args, caller_interface);
    let response_idx = caller_interface.message_ids.upcoming();
    let request = Frame { procedure, call, terminator: Terminator::Complete, payload: args };
    let response = Frame { procedure, call, terminator: Terminator::Complete, payload: output };
    assert(called.queue == caller.queue.push(Packet::Call(request).encode()));
    lemma_last_is_read(caller.queue, Packet::Call(request), more, callee.module_style);
    law_call_is_handed_out(callee, callee_interface, request);
    let executed = handle_call(callee, callee_interface, request);
    let responded = executed.wire.responded(procedure, call, output, Terminator::Complete);
    assert(responded.queue == callee.queue.push(Packet::Response(response).encode()));
    lemma_last_is_read(callee.queue, Packet::Response(response), more, waiting.module_style);
    law_push_fresh(caller_interface);
    let message = BufferState::fresh(caller_interface.next_serial);
    assert(waiting_interface.messages[response_idx] == message);
    assert(message.appended(output).chunks =~= seq![output]) by {
        assert(Seq::<u8>::empty() + output =~= output);
    }
}

/// What is made of the parts of the arguments of a call, one after the other, none of which is
/// marked as the last.
pub open spec fn handle_parts(
    wire: WireState,
    interface: InterfaceState,
    procedure: IpfiInteger,
    call: IpfiInteger,
    parts: Seq<Seq<u8>>,
) -> Handling
    decreases parts.len(),
{
    if parts.len() == 0 {
        Handling { wire, interface, result: Ok(ReceptionState::Message(false)) }
    } else {
        let before = handle_parts(wire, interface, procedure, call, parts.drop_last());
        let part = Frame {
            procedure,
            call,
            terminator: Terminator::Partial,
            payload: parts.last(),
        };
        handle_call(before.wire, before.interface, part)
    }
}

/// It makes no difference to a procedure whether its arguments arrive all at once or piecemeal, in
/// however many parts, and whether the message that ends them carries some of them or is empty.
/// None of the parts before may be empty, as that would end them.
pub proof fn law_piecemeal_arguments(
    wire: WireState,
    interface: InterfaceState,
    procedure: IpfiInteger,
    call: IpfiInteger,
    parts: Seq<Seq<u8>>,
    end: Frame,
)
    requires
        interface.well_formed(),
        !interface.message_ids.exhausted(),
        interface.procedures.contains_key(procedure),
        !interface.call_buffers.contains_key((procedure, call, wire.id)),
        wire.ongoing.len() < wire.max_ongoing,
        forall|i: int| 0 <= i < parts.len() ==> #[trigger] parts[i].len() > 0,
        end.procedure == procedure,
        end.call == call,
        end.ends(),
    ensures
        ({
            let whole = Frame {
                procedure,
                call,
                terminator: Terminator::Complete,
                payload: joined(parts) + end.payload,
            };
            let accumulated = handle_parts(wire, interface, procedure, call, parts);
            let ended = handle_call(accumulated.wire, accumulated.interface, end);
            &&& accumulated.result == Ok::<ReceptionState, Error>(ReceptionState::Message(false))
            &&& ended.result == handle_call(wire, interface, whole).result
            &&& ended.wire == handle_call(wire, interface, whole).wire
        }),
{
    let whole = Frame {
        procedure,
        call,
        terminator: Terminator::Complete,
        payload: joined(parts) + end.payload,
    };
    law_call_is_handed_out(wire, interface, whole);
    if parts.len() == 0 {
        law_call_is_handed_out(wire, interface, end);
        assert(joined(parts) + end.payload =~= end.payload);
    } else {
        lemma_parts_accumulate(wire, interface, procedure, call, parts);
        let key = (procedure, call, wire.id);
        let buffer = interface.message_ids.upcoming();
        let accumulated = handle_parts(wire, interface, procedure, call, parts);
        let ended = handle_call(accumulated.wire, accumulated.interface, end);
        assert(ended.wire =~= accumulated.wire);
        let filled = accumulated.interface.appended(buffer, end.payload);
        let terminated = filled.terminated(buffer);
        assert(terminated.messages[buffer].chunks[0] =~= joined(parts) + end.payload);
        assert(terminated.messages[buffer].lock is Complete);
        assert(terminated.call_buffers.contains_key(key) && terminated.call_buffers[key] == buffer);
    }
}

/// The parts of the arguments of a call are put one after the other into the same message.
proof fn lemma_parts_accumulate(
    wire: WireState,
    interface: InterfaceState,
    procedure: IpfiInteger,
    call: IpfiInteger,
    parts: Seq<Seq<u8>>,
)
    requires
        interface.well_formed(),
        !interface.message_ids.exhausted(),
        !interface.call_buffers.contains_key((procedure, call, wire.id)),
        wire.ongoing.len() < wire.max_ongoing,
        parts.len() > 0,
        forall|i: int| 0 <= i < parts.len() ==> #[trigger] parts[i].len() > 0,
    ensures
        ({
            let after = handle_parts(wire, interface, procedure, call, parts);
            let buffer = interface.message_ids.upcoming();
            &&& after.result == Ok::<ReceptionState, Error>(ReceptionState::Message(false))
            &&& after.wire == (WireState {
                ongoing: wire.ongoing.insert((procedure, call)),
                ..wire
            })
            &&& after.interface.call_buffers == interface.call_buffers.insert(
                (procedure, call, wire.id),
                buffer,
            )
            &&& after.interface.procedures == interface.procedures
            &&& after.interface.messages.contains_pair(
                buffer,
                (BufferState {
                    chunks: seq![joined(parts)],
                    ..BufferState::fresh(interface.next_serial)
                }),
            )
        }),
    decreases parts.len(),
{
    let earlier = parts.drop_last();
    let last = parts.last();
    assert(last == parts[parts.len() - 1]);
    assert(parts =~= earlier.push(last));
    lemma_joined_push(earlier, last);
    let fresh = BufferState::fresh(interface.next_serial);
    let before = handle_parts(wire, interface, procedure, call, earlier);
    let after = handle_parts(wire, interface, procedure, call, parts);
    if earlier.len() == 0 {
        law_push_fresh(interface);
        assert(joined(earlier) + last =~= last);
        assert(Seq::<u8>::empty() + last =~= last);
        assert(fresh.appended(last).chunks =~= seq![joined(parts)]);
    } else {
        assert forall|i: int| 0 <= i < earlier.len() implies #[trigger] earlier[i].len() > 0 by {
            assert(earlier[i] == parts[i]);
        }
        lemma_parts_accumulate(wire, interface, procedure, call, earlier);
        let message = BufferState { chunks: seq![joined(earlier)], ..fresh };
        assert(message.appended(last).chunks =~= seq![joined(parts)]);
        assert(after.wire =~= before.wire);
    }
}

/// Forgetting calls deletes no message but those that accumulate their arguments.
pub(crate) proof fn lemma_dropping_calls_keeps(
    interface: InterfaceState,
    calls: Seq<(IpfiInteger, IpfiInteger)>,
    wire: IpfiInteger,
    id: IpfiInteger,
)
    requires
        interface.messages.contains_key(id),
        forall|call: (IpfiInteger, IpfiInteger, IpfiInteger)| #[trigger]
            interface.call_buffers.contains_key(call) ==> interface.call_buffers[call] != id,
    ensures
        interface.calls_dropped(calls, wire).messages.contains_key(id),
        interface.calls_dropped(calls, wire).messages[id] == interface.messages[id],
        forall|call: (IpfiInteger, IpfiInteger, IpfiInteger)| #[trigger]
            interface.calls_dropped(calls, wire).call_buffers.contains_key(call)
                ==> interface.calls_dropped(calls, wire).call_buffers[call] != id,
    decreases calls.len(),
{
    if calls.len() > 0 {
        lemma_dropping_calls_keeps(interface, calls.drop_last(), wire, id);
        let before = interface.calls_dropped(calls.drop_last(), wire);
        let last = (calls.last().0, calls.last().1, wire);
        if before.call_buffers.contains_key(last) {
            assert(before.call_buffers[last] != id);
        }
    }
}

/// When a wire is terminated, none of the calls that were ongoing on it is left on the interface,
/// nor are any arguments that were accumulated for them.
pub proof fn law_termination_drops_calls(
    wire: WireState,
    interface: InterfaceState,
    wire_after: WireState,
    interface_after: InterfaceState,
    call: (IpfiInteger, IpfiInteger),
)
    requires
        terminates(wire, interface, wire_after, interface_after),
        wire.ongoing.contains(call),
    ensures
        !interface_after.call_buffers.contains_key((call.0, call.1, wire.id)),
        interface.call_buffers.contains_key((call.0, call.1, wire.id))
            ==> !interface_after.messages.contains_key(
            interface.call_buffers[(call.0, call.1, wire.id)],
        ),
{
    let order = choose|order: Seq<(IpfiInteger, IpfiInteger)>| #[trigger]
        enumerates(order, wire.ongoing) && interface_after == interface.calls_dropped(
            order,
            wire.id,
        ).handles_poisoned(wire.idle);
    assert(order.to_set().contains(call));
    lemma_calls_are_dropped(interface, order, wire.id, call);
}

/// A call that is forgotten is not there anymore, and neither are its arguments. Nothing is created
/// or assigned anew by forgetting calls.
proof fn lemma_calls_are_dropped(
    interface: InterfaceState,
    calls: Seq<(IpfiInteger, IpfiInteger)>,
    wire: IpfiInteger,
    call: (IpfiInteger, IpfiInteger),
)
    ensures
        ({
            let key = (call.0, call.1, wire);
            let after = interface.calls_dropped(calls, wire);
            &&& calls.contains(call) ==> !after.call_buffers.contains_key(key)
            &&& after.call_buffers.contains_key(key) ==> interface.call_buffers.contains_key(key)
                && after.call_buffers[key] == interface.call_buffers[key]
            &&& interface.call_buffers.contains_key(key) && calls.contains(call)
                ==> !after.messages.contains_key(interface.call_buffers[key])
            &&& interface.call_buffers.contains_key(key) && !calls.contains(call)
                ==> after.call_buffers.contains_key(key)
            &&& forall|id: IpfiInteger| #[trigger]
                after.messages.contains_key(id) ==> interface.messages.contains_key(id)
        }),
    decreases calls.len(),
{
    if calls.len() > 0 {
        let before = calls.drop_last();
        lemma_calls_are_dropped(interface, before, wire, call);
        if calls.contains(call) && calls.last() != call {
            let i = choose|i: int| 0 <= i < calls.len() && calls[i] == call;
            assert(before[i] == call);
        }
        if before.contains(call) {
            let i = choose|i: int| 0 <= i < before.len() && before[i] == call;
            assert(calls[i] == call);
        }
        assert(calls.contains(calls.last()));
        let state = interface.calls_dropped(before, wire);
        let last = (calls.last().0, calls.last().1, wire);
        let after = interface.calls_dropped(calls, wire);
        assert(after == state.call_dropped(last));
        assert forall|id: IpfiInteger| #[trigger]
            after.messages.contains_key(id) implies state.messages.contains_key(id) by {}
    }
}

/// Whatever arrives on a wire leaves the interface well-formed, until there are no identifiers left
/// for messages.
pub proof fn law_receiving_keeps_well_formed(
    wire: WireState,
    interface: InterfaceState,
    packet: Option<Packet>,
)
    requires
        interface.well_formed(),
        !interface.message_ids.exhausted(),
    ensures
        handle(wire, interface, packet).interface.well_formed(),
{
    match packet {
        Some(Packet::Call(frame)) => {
            let call = (frame.procedure, frame.call, wire.id);
            let prepared = interface.with_call_buffer(call);
            let buffer = interface.call_buffer(call);
            if !interface.call_buffers.contains_key(call) {
                law_push_fresh(interface);
            }
            assert(prepared.well_formed());
            if prepared.refusal(buffer) is None {
                lemma_written_well_formed(prepared, buffer, frame.payload);
                let ended = prepared.appended(buffer, frame.payload).terminated(buffer);
                assert(prepared.call_buffers.contains_key(call));
                assert(ended.with_call_buffer(call) == ended);
            }
        },
        Some(Packet::Response(frame)) => {
            let key = (frame.procedure, frame.call);
            if wire.responses.contains_key(key) && interface.refusal(
                wire.responses[key],
            ) is None {
                lemma_written_well_formed(interface, wire.responses[key], frame.payload);
            }
        },
        _ => {},
    }
}

/// Writing to a message, and ending it or one of its chunks, keeps an interface well-formed.
proof fn lemma_written_well_formed(interface: InterfaceState, id: IpfiInteger, data: Seq<u8>)
    requires
        interface.well_formed(),
        interface.refusal(id) is None,
    ensures
        interface.appended(id, data).well_formed(),
        interface.appended(id, data).terminated(id).well_formed(),
        interface.appended(id, data).chunk_terminated(id).well_formed(),
{
    let other: IpfiInteger = if id == 0 {
        1
    } else {
        0
    };
    law_writing_is_local(interface, id, data, 0, other);
    law_writing_is_local(interface.appended(id, data), id, data, 0, other);
}

/// Terminating a wire leaves the interface well-formed.
pub proof fn law_termination_keeps_well_formed(
    wire: WireState,
    interface: InterfaceState,
    wire_after: WireState,
    interface_after: InterfaceState,
)
    requires
        interface.well_formed(),
        terminates(wire, interface, wire_after, interface_after),
    ensures
        interface_after.well_formed(),
{
    let order = choose|order: Seq<(IpfiInteger, IpfiInteger)>| #[trigger]
        enumerates(order, wire.ongoing) && interface_after == interface.calls_dropped(
            order,
            wire.id,
        ).handles_poisoned(wire.idle);
    lemma_dropping_calls_well_formed(interface, order, wire.id);
    let dropped = interface.calls_dropped(order, wire.id);
    assert forall|id: IpfiInteger| #[trigger]
        interface_after.messages.contains_key(id) implies interface_after.messages[id].well_formed()
    by {
        assert(dropped.messages.contains_key(id));
    }
    assert forall|id: IpfiInteger| #[trigger]
        interface_after.messages.contains_key(id) <==> interface_after.message_ids.in_use(id) by {
        assert(dropped.messages.contains_key(id) <==> dropped.message_ids.in_use(id));
    }
}

/// Forgetting calls keeps an interface well-formed.
proof fn lemma_dropping_calls_well_formed(
    interface: InterfaceState,
    calls: Seq<(IpfiInteger, IpfiInteger)>,
    wire: IpfiInteger,
)
    requires
        interface.well_formed(),
    ensures
        interface.calls_dropped(calls, wire).well_formed(),
    decreases calls.len(),
{
    if calls.len() > 0 {
        lemma_dropping_calls_well_formed(interface, calls.drop_last(), wire);
        let before = interface.calls_dropped(calls.drop_last(), wire);
        let last = (calls.last().0, calls.last().1, wire);
        if before.call_buffers.contains_key(last) {
            let forgotten = InterfaceState {
                call_buffers: before.call_buffers.remove(last),
                ..before
            };
            if before.messages.contains_key(before.call_buffers[last]) {
                law_pop_recycles(forgotten, before.call_buffers[last]);
            }
        }
    }
}

/// A handle on a response that has been taken is never mistaken for one on a message that was
/// created later, even if that has the same identifier, until the serial numbers run out.
pub proof fn law_handles_are_not_mixed_up(wire: WireState, interface: InterfaceState)
    requires
        interface.serials_fresh(),
        forall|id: IpfiInteger| #[trigger]
            wire.idle.contains_key(id) ==> wire.idle[id] < interface.next_serial,
    ensures
        ({
            let id = interface.message_ids.upcoming();
            let pushed = interface.pushed();
            &&& !wire.idle.contains_pair(id, pushed.messages[id].serial)
            &&& pushed.handles_poisoned(wire.idle).messages[id] == pushed.messages[id]
        }),
{
    let id = interface.message_ids.upcoming();
    if wire.idle.contains_key(id) {
        assert(wire.idle[id] < interface.next_serial);
    }
}

/// The identifier of a wire is not given to another as long as somebody holds the wire, even if
/// others who did have let go of it: whichever identifiers are given out and taken back after that,
/// it is not among those that are given out.
pub proof fn law_held_identifier_is_kept(
    wire: WireState,
    interface: InterfaceState,
    wire_after: WireState,
    interface_after: InterfaceState,
    steps: Seq<Option<IpfiInteger>>,
)
    requires
        wire.holders > 1,
        releases(wire, interface, wire_after, interface_after),
        interface.wire_ids.sound(),
        interface.wire_ids.in_use(wire.id),
        interface_after.wire_ids.proper(steps),
        !steps.contains(Some(wire.id)),
    ensures
        wire_after.holders > 0,
        interface_after.wire_ids == interface.wire_ids,
        ({
            let later = interface_after.wire_ids.after(steps);
            &&& later.in_use(wire.id)
            &&& !later.exhausted() ==> later.upcoming() != wire.id
        }),
{
    let terminated = choose|after: InterfaceState| #[trigger]
        terminates(wire, interface, wire.shut(), after) && interface_after == after;
    lemma_termination_keeps_wire_ids(wire, interface, wire.shut(), terminated);
    law_issued_until_relinquished(interface_after.wire_ids, steps, wire.id);
}

/// The last one who lets go of a wire gives its identifier back, and no other.
pub proof fn law_last_holder_gives_back(
    wire: WireState,
    interface: InterfaceState,
    wire_after: WireState,
    interface_after: InterfaceState,
)
    requires
        wire.holders == 1,
        releases(wire, interface, wire_after, interface_after),
        interface.wire_ids.sound(),
        interface.wire_ids.in_use(wire.id),
    ensures
        wire_after.terminated,
        wire_after.holders == 0,
        interface_after.wire_ids.sound(),
        forall|id: IpfiInteger| #[trigger]
            interface_after.wire_ids.in_use(id) <==> interface.wire_ids.in_use(id) && id != wire.id,
{
    let terminated = choose|after: InterfaceState| #[trigger]
        terminates(wire, interface, wire.shut(), after) && interface_after == (InterfaceState {
            wire_ids: after.wire_ids.relinquished(wire.id),
            ..after
        });
    lemma_termination_keeps_wire_ids(wire, interface, wire.shut(), terminated);
    law_relinquish_frees(interface.wire_ids, wire.id);
}

/// Terminating a wire has nothing to do with the identifiers of wires.
proof fn lemma_termination_keeps_wire_ids(
    wire: WireState,
    interface: InterfaceState,
    wire_after: WireState,
    interface_after: InterfaceState,
)
    requires
        terminates(wire, interface, wire_after, interface_after),
    ensures
        interface_after.wire_ids == interface.wire_ids,
{
    let order = choose|order: Seq<(IpfiInteger, IpfiInteger)>| #[trigger]
        enumerates(order, wire.ongoing) && interface_after == interface.calls_dropped(
            order,
            wire.id,
        ).handles_poisoned(wire.idle);
    lemma_dropping_calls_keeps_wire_ids(interface, order, wire.id);
}

/// Forgetting calls has nothing to do with the identifiers of wires.
proof fn lemma_dropping_calls_keeps_wire_ids(
    interface: InterfaceState,
    calls: Seq<(IpfiInteger, IpfiInteger)>,
    wire: IpfiInteger,
)
    ensures
        interface.calls_dropped(calls, wire).wire_ids == interface.wire_ids,
    decreases calls.len(),
{
    if calls.len() > 0 {
        lemma_dropping_calls_keeps_wire_ids(interface, calls.drop_last(), wire);
    }
}

/// Whoever reads a termination, no matter what follows it, is terminated by it. It makes no
/// difference whether it was signalled directly or over a wire, behind all the messages that were
/// queued there before.
pub proof fn law_termination_is_received(
    wire: WireState,
    interface: InterfaceState,
    more: Seq<u8>,
    wire_after: WireState,
    interface_after: InterfaceState,
    rest: Seq<u8>,
    result: Result<Reception, Error>,
    sender: WireState,
)
    requires
        !wire.terminated,
        receives(
            wire,
            interface,
            Packet::Termination.encode() + more,
            wire_after,
            interface_after,
            rest,
            result,
        ),
    ensures
        result == Ok::<Reception, Error>(Reception::Terminated),
        rest == more,
        wire_after.terminated,
        terminates(wire, interface, wire_after, interface_after),
        joined(sender.queued(Packet::Termination).queue) == joined(sender.queue)
            + Packet::Termination.encode(),
{
    law_parse_encode(Packet::Termination, more, wire.module_style);
    lemma_joined_push(sender.queue, Packet::Termination.encode());
}

/// Every call that was answered completely, be it by an empty message, makes room for another one,
/// and no other call does.
pub proof fn law_answered_calls_make_room(
    wire: WireState,
    procedure: IpfiInteger,
    call: IpfiInteger,
    message: Seq<u8>,
)
    requires
        wire.ongoing.finite(),
        wire.ongoing.contains((procedure, call)),
    ensures
        wire.responded(procedure, call, message, Terminator::Complete).ongoing.len()
            == wire.ongoing.len() - 1,
        wire.responded(procedure, call, Seq::empty(), Terminator::Partial).ongoing.len()
            == wire.ongoing.len() - 1,
        wire.responded(procedure, call, message, Terminator::Chunk).ongoing == wire.ongoing,
        message.len() > 0 ==> wire.responded(
            procedure,
            call,
            message,
            Terminator::Partial,
        ).ongoing == wire.ongoing,
{
}

} // verus!
