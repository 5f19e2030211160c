//! What each operation on a wire changes, and what it leaves alone.
use crate::complete_lock::CompleteLockState;
use crate::error::Error;
use crate::incoming::{law_parse_encode, parse, Parsed};
use crate::interface::InterfaceState;
use crate::message::{BufferState, ChunkSender};
use crate::types::{IpfiInteger, Terminator};
use crate::wire::{
    enumerates, flushes, handle, handle_call, handle_response, joined, releases, terminates,
    Reception, ReceptionState, WireState,
};
use crate::wire_utils::{Frame, Packet};
use vstd::prelude::*;

verus! {

broadcast use crate::message::group_view_lemmas;

/// Nothing has happened over a new wire, and whoever made it is the only one who holds it.
pub proof fn law_new_wire_is_idle(
    id: IpfiInteger,
    module_style: bool,
    procedure: IpfiInteger,
    key: (IpfiInteger, IpfiInteger),
)
    ensures
        ({
            let wire = WireState::initial(id, module_style);
            &&& wire.id == id
            &&& wire.module_style == module_style
            &&& wire.queue.len() == 0
            &&& !wire.counters.contains_key(procedure)
            &&& !wire.responses.contains_key(key)
            &&& !wire.ongoing.contains(key)
            &&& wire.ongoing.len() == 0
            &&& wire.max_ongoing == 10
            &&& !wire.idle.contains_key(procedure)
            &&& !wire.terminated
            &&& wire.holders == 1
        }),
{
}

/// Calls can be made over a wire if and only if it has not been terminated and is not one for
/// modules.
pub proof fn law_calling_is_refused(wire: WireState)
    ensures
        wire.refusal() is None <==> !wire.terminated && !wire.module_style,
        wire.refusal() == Some(Error::WireTerminated) <==> wire.terminated,
        wire.refusal() == Some(Error::CallFromModule) <==> !wire.terminated && wire.module_style,
{
}

/// The calls of a procedure are numbered from zero, until the largest index has been given out.
pub proof fn law_next_call_effect(wire: WireState, procedure: IpfiInteger)
    ensures
        !wire.counters.contains_key(procedure) ==> wire.callable(procedure) && wire.next_call(
            procedure,
        ) == 0,
        wire.counters.contains_key(procedure) ==> (wire.callable(procedure)
            <==> wire.counters[procedure] < IpfiInteger::MAX),
        wire.counters.contains_key(procedure) && wire.callable(procedure) ==> wire.next_call(
            procedure,
        ) == wire.counters[procedure] + 1,
{
}

/// Queueing a message puts it behind all the others, where it reads as what it is. Nothing else
/// changes.
pub proof fn law_queueing_effect(
    wire: WireState,
    packet: Packet,
    more: Seq<u8>,
    module_style: bool,
)
    requires
        packet.encodable(),
        packet is Response ==> !module_style,
    ensures
        ({
            let after = wire.queued(packet);
            &&& after == (WireState { queue: after.queue, ..wire })
            &&& after.queue.len() == wire.queue.len() + 1
            &&& after.queue.drop_last() == wire.queue
            &&& parse(after.queue.last() + more, module_style) == (Parsed {
                result: Ok::<Option<Packet>, Error>(Some(packet)),
                rest: more,
            })
        }),
{
    law_parse_encode(packet, more, module_style);
    assert(wire.queued(packet).queue.drop_last() =~= wire.queue);
}

/// Opening a call counts it, and sets the given message aside for the response to it. Nothing else
/// changes.
pub proof fn law_opening_effect(
    wire: WireState,
    procedure: IpfiInteger,
    response_idx: IpfiInteger,
    other: IpfiInteger,
    key: (IpfiInteger, IpfiInteger),
)
    ensures
        ({
            let after = wire.call_opened(procedure, response_idx);
            let call = wire.next_call(procedure);
            &&& after == (WireState {
                counters: after.counters,
                responses: after.responses,
                ..wire
            })
            &&& after.counters.contains_key(procedure)
            &&& after.counters[procedure] == call
            &&& other != procedure ==> (after.counters.contains_key(other)
                <==> wire.counters.contains_key(other)) && after.counters[other]
                == wire.counters[other]
            &&& after.responses.contains_key((procedure, call))
            &&& after.responses[(procedure, call)] == response_idx
            &&& key != (procedure, call) ==> (after.responses.contains_key(key)
                <==> wire.responses.contains_key(key)) && after.responses[key]
                == wire.responses[key]
        }),
{
}

/// Handles come and go one by one. Nothing else changes.
pub proof fn law_handle_effect(
    wire: WireState,
    response_idx: IpfiInteger,
    serial: u64,
    other: IpfiInteger,
)
    ensures
        ({
            let with = wire.with_handle(response_idx, serial);
            let without = wire.without_handle(response_idx);
            &&& with == (WireState { idle: with.idle, ..wire })
            &&& with.idle.contains_key(response_idx)
            &&& with.idle[response_idx] == serial
            &&& without == (WireState { idle: without.idle, ..wire })
            &&& !without.idle.contains_key(response_idx)
            &&& other != response_idx ==> {
                &&& with.idle.contains_key(other) <==> wire.idle.contains_key(other)
                &&& with.idle[other] == wire.idle[other]
                &&& without.idle.contains_key(other) <==> wire.idle.contains_key(other)
                &&& without.idle[other] == wire.idle[other]
            }
        }),
{
}

/// Calling a procedure with all of its arguments opens a call and puts one message behind all the
/// others: it reads as the whole of a call of that procedure, with the next index and those
/// arguments. There is a handle on the message for the response from then on.
pub proof fn law_calling_effect(
    wire: WireState,
    procedure: IpfiInteger,
    args: Seq<u8>,
    interface: InterfaceState,
    more: Seq<u8>,
    module_style: bool,
)
    requires
        args.len() <= usize::MAX,
    ensures
        ({
            let after = wire.called(procedure, args, interface);
            let response_idx = interface.message_ids.upcoming();
            let opened = wire.call_opened(procedure, response_idx);
            &&& after == (WireState {
                counters: opened.counters,
                responses: opened.responses,
                queue: after.queue,
                idle: wire.idle.insert(response_idx, interface.next_serial),
                ..wire
            })
            &&& after.queue.len() == wire.queue.len() + 1
            &&& after.queue.drop_last() == wire.queue
            &&& parse(after.queue.last() + more, module_style) == (Parsed {
                result: Ok::<Option<Packet>, Error>(
                    Some(
                        Packet::Call(
                            Frame {
                                procedure,
                                call: wire.next_call(procedure),
                                terminator: Terminator::Complete,
                                payload: args,
                            },
                        ),
                    ),
                ),
                rest: more,
            })
        }),
{
    let after = wire.called(procedure, args, interface);
    let frame = Frame {
        procedure,
        call: wire.next_call(procedure),
        terminator: Terminator::Complete,
        payload: args,
    };
    law_parse_encode(Packet::Call(frame), more, module_style);
    assert(after.queue.last() == Packet::Call(frame).encode());
    assert(after.queue.drop_last() =~= wire.queue);
}

/// Starting a call with some of its arguments opens it and puts one message behind all the others:
/// it reads as a part of a call of that procedure, with the next index and those arguments.
pub proof fn law_starting_effect(
    wire: WireState,
    procedure: IpfiInteger,
    args: Seq<u8>,
    interface: InterfaceState,
    more: Seq<u8>,
    module_style: bool,
)
    requires
        args.len() <= usize::MAX,
    ensures
        ({
            let after = wire.call_begun(procedure, args, interface);
            let opened = wire.call_opened(procedure, interface.message_ids.upcoming());
            &&& after == (WireState {
                counters: opened.counters,
                responses: opened.responses,
                queue: after.queue,
                ..wire
            })
            &&& after.queue.len() == wire.queue.len() + 1
            &&& after.queue.drop_last() == wire.queue
            &&& parse(after.queue.last() + more, module_style) == (Parsed {
                result: Ok::<Option<Packet>, Error>(
                    Some(
                        Packet::Call(
                            Frame {
                                procedure,
                                call: wire.next_call(procedure),
                                terminator: Terminator::Partial,
                                payload: args,
                            },
                        ),
                    ),
                ),
                rest: more,
            })
        }),
{
    let after = wire.call_begun(procedure, args, interface);
    let frame = Frame {
        procedure,
        call: wire.next_call(procedure),
        terminator: Terminator::Partial,
        payload: args,
    };
    law_parse_encode(Packet::Call(frame), more, module_style);
    assert(after.queue.last() == Packet::Call(frame).encode());
    assert(after.queue.drop_last() =~= wire.queue);
}

/// Continuing a call puts one message behind all the others: it reads as a part of the call of
/// that procedure with that index, and has those bytes. Nothing else changes.
pub proof fn law_continuing_effect(
    wire: WireState,
    procedure: IpfiInteger,
    call: IpfiInteger,
    args: Seq<u8>,
    more: Seq<u8>,
    module_style: bool,
)
    requires
        args.len() <= usize::MAX,
    ensures
        ({
            let after = wire.call_continued(procedure, call, args);
            &&& after == (WireState { queue: after.queue, ..wire })
            &&& after.queue.len() == wire.queue.len() + 1
            &&& after.queue.drop_last() == wire.queue
            &&& parse(after.queue.last() + more, module_style) == (Parsed {
                result: Ok::<Option<Packet>, Error>(
                    Some(
                        Packet::Call(
                            Frame {
                                procedure,
                                call,
                                terminator: Terminator::Partial,
                                payload: args,
                            },
                        ),
                    ),
                ),
                rest: more,
            })
        }),
{
    let frame = Frame { procedure, call, terminator: Terminator::Partial, payload: args };
    law_parse_encode(Packet::Call(frame), more, module_style);
    let after = wire.call_continued(procedure, call, args);
    assert(after.queue.drop_last() =~= wire.queue);
}

/// Ending a call puts one message behind all the others: it reads as the end of the call of that
/// procedure with that index, and is empty. Nothing else changes.
pub proof fn law_ending_effect(
    wire: WireState,
    procedure: IpfiInteger,
    call: IpfiInteger,
    more: Seq<u8>,
    module_style: bool,
)
    ensures
        ({
            let after = wire.call_ended(procedure, call);
            &&& after == (WireState { queue: after.queue, ..wire })
            &&& after.queue.len() == wire.queue.len() + 1
            &&& after.queue.drop_last() == wire.queue
            &&& parse(after.queue.last() + more, module_style) == (Parsed {
                result: Ok::<Option<Packet>, Error>(
                    Some(
                        Packet::Call(
                            Frame {
                                procedure,
                                call,
                                terminator: Terminator::Complete,
                                payload: Seq::empty(),
                            },
                        ),
                    ),
                ),
                rest: more,
            })
        }),
{
    let frame = Frame {
        procedure,
        call,
        terminator: Terminator::Complete,
        payload: Seq::empty(),
    };
    law_parse_encode(Packet::Call(frame), more, module_style);
    let after = wire.call_ended(procedure, call);
    assert(after.queue.drop_last() =~= wire.queue);
}

/// Responding to a call puts one message behind all the others: on the caller's side it reads as a
/// response to the call of that procedure with that index, and has those bytes and that terminator,
/// whichever it is. The call is not ongoing any more if and only if that was the last of the
/// response. Nothing else changes.
pub proof fn law_responding_effect(
    wire: WireState,
    procedure: IpfiInteger,
    call: IpfiInteger,
    message: Seq<u8>,
    terminator: Terminator,
    more: Seq<u8>,
    other: (IpfiInteger, IpfiInteger),
)
    requires
        message.len() <= usize::MAX,
    ensures
        ({
            let after = wire.responded(procedure, call, message, terminator);
            let last = terminator is Complete || (terminator is Partial && message.len() == 0);
            &&& after == (WireState { queue: after.queue, ongoing: after.ongoing, ..wire })
            &&& after.queue.len() == wire.queue.len() + 1
            &&& after.queue.drop_last() == wire.queue
            &&& parse(after.queue.last() + more, false) == (Parsed {
                result: Ok::<Option<Packet>, Error>(
                    Some(
                        Packet::Response(Frame { procedure, call, terminator, payload: message }),
                    ),
                ),
                rest: more,
            })
            &&& after.ongoing.contains(other) <==> wire.ongoing.contains(other) && !(last && other
                == (procedure, call))
        }),
{
    let frame = Frame { procedure, call, terminator, payload: message };
    law_parse_encode(Packet::Response(frame), more, false);
    let after = wire.responded(procedure, call, message, terminator);
    assert(after.queue.drop_last() =~= wire.queue);
}

/// The queue is sent in order, with nothing in between.
pub proof fn law_joined_in_order(left: Seq<Seq<u8>>, right: Seq<Seq<u8>>, bytes: Seq<u8>)
    ensures
        joined(Seq::empty()) == Seq::<u8>::empty(),
        joined(seq![bytes]) == bytes,
        joined(left + right) == joined(left) + joined(right),
    decreases left.len(),
{
    let one = seq![bytes];
    assert(one.skip(1) =~= Seq::<Seq<u8>>::empty());
    assert(joined(one.skip(1)) =~= Seq::<u8>::empty());
    assert(joined(one) =~= bytes);
    if left.len() == 0 {
        assert(left + right =~= right);
        assert(joined(left + right) =~= joined(left) + joined(right));
    } else {
        law_joined_in_order(left.skip(1), right, bytes);
        assert((left + right).skip(1) =~= left.skip(1) + right);
        assert(joined(left + right) =~= joined(left) + joined(right));
    }
}

/// Flushing a wire that has not been terminated writes everything that was queued behind what had
/// been written before, and leaves nothing in the queue. Nothing else changes.
pub proof fn law_flushing_effect(
    wire: WireState,
    packet: Packet,
    wire_after: WireState,
    written: Seq<u8>,
    written_after: Seq<u8>,
    result: Result<(), Error>,
)
    requires
        !wire.terminated,
    ensures
        flushes(wire, wire, wire_after, written, written_after, result) ==> {
            &&& result is Ok
            &&& written_after == written + joined(wire.queue)
            &&& wire_after.queue.len() == 0
            &&& wire_after == (WireState { queue: wire_after.queue, ..wire })
        },
        flushes(wire, wire.queued(packet), wire_after, written, written_after, result) ==> {
            &&& result is Ok
            &&& written_after == written + joined(wire.queue) + packet.encode()
            &&& wire_after.queue.len() == 0
            &&& wire_after == (WireState { queue: wire_after.queue, ..wire })
        },
{
    law_joined_in_order(wire.queue, seq![packet.encode()], packet.encode());
    assert(wire.queued(packet).queue =~= wire.queue + seq![packet.encode()]);
    assert(written + (joined(wire.queue) + packet.encode()) =~= written + joined(wire.queue)
        + packet.encode());
}

/// A message is handled by what it is: calls and responses go where they belong, and nothing but
/// those changes anything. What came of the end of input and of a termination says so.
pub proof fn law_handling_effect(wire: WireState, interface: InterfaceState, frame: Frame)
    ensures
        handle(wire, interface, Some(Packet::Call(frame))) == handle_call(wire, interface, frame),
        handle(wire, interface, Some(Packet::Response(frame))) == handle_response(
            wire,
            interface,
            frame,
        ),
        handle(wire, interface, None).wire == wire,
        handle(wire, interface, None).interface == interface,
        handle(wire, interface, None).result == Ok::<ReceptionState, Error>(
            ReceptionState::Message(false),
        ),
        handle(wire, interface, Some(Packet::EndOfInput)).wire == wire,
        handle(wire, interface, Some(Packet::EndOfInput)).interface == interface,
        handle(wire, interface, Some(Packet::EndOfInput)).result == Ok::<ReceptionState, Error>(
            ReceptionState::EndOfInput,
        ),
        handle(wire, interface, Some(Packet::Termination)).wire == wire,
        handle(wire, interface, Some(Packet::Termination)).interface == interface,
        handle(wire, interface, Some(Packet::Termination)).result == Ok::<ReceptionState, Error>(
            ReceptionState::Terminated,
        ),
{
}

/// Arguments for a call that is not ongoing are ignored if and only if as many calls are ongoing as
/// may be.
pub proof fn law_excess_call_effect(wire: WireState, interface: InterfaceState, frame: Frame)
    ensures
        ({
            let key = (frame.procedure, frame.call);
            let handling = handle_call(wire, interface, frame);
            let excess = !wire.ongoing.contains(key) && wire.ongoing.len() >= wire.max_ongoing;
            &&& excess ==> {
                &&& handling.wire == wire
                &&& handling.interface == interface
                &&& handling.result == Ok::<ReceptionState, Error>(ReceptionState::Message(false))
            }
            &&& excess <==> !handling.wire.ongoing.contains(key)
        }),
{
}

/// Arguments for a call that is accepted make it ongoing, and are put behind those that have
/// arrived before. The last of them ends the message that they are in, and the call is executed.
/// They are refused if and only if that message is gone, or complete.
pub proof fn law_arguments_are_handled(
    wire: WireState,
    interface: InterfaceState,
    frame: Frame,
    other: (IpfiInteger, IpfiInteger),
)
    requires
        wire.ongoing.contains((frame.procedure, frame.call)) || wire.ongoing.len()
            < wire.max_ongoing,
    ensures
        ({
            let key = (frame.procedure, frame.call);
            let call = (frame.procedure, frame.call, wire.id);
            let handling = handle_call(wire, interface, frame);
            let prepared = interface.with_call_buffer(call);
            let buffer = prepared.call_buffers[call];
            let filled = prepared.appended(buffer, frame.payload);
            let ended = filled.terminated(buffer);
            let last = frame.terminator is Complete || (frame.terminator is Partial
                && frame.payload.len() == 0);
            &&& handling.wire == (WireState { ongoing: handling.wire.ongoing, ..wire })
            &&& handling.wire.ongoing.contains(other) <==> wire.ongoing.contains(other) || other
                == key
            &&& !prepared.messages.contains_key(buffer) ==> handling.interface == prepared
                && handling.result == Err::<ReceptionState, Error>(
                Error::OutOfBounds { index: buffer },
            )
            &&& prepared.messages.contains_key(buffer) && prepared.messages[buffer].lock is Complete
                ==> handling.interface == prepared && handling.result == Err::<
                ReceptionState,
                Error,
            >(Error::AlreadyCompleted { index: buffer })
            &&& prepared.messages.contains_key(buffer) && !(
            prepared.messages[buffer].lock is Complete) ==> {
                &&& !last ==> handling.interface == filled && handling.result == Ok::<
                    ReceptionState,
                    Error,
                >(ReceptionState::Message(false))
                &&& last ==> handling.interface == ended.call_started(call)
                &&& last ==> match ended.call_result(call) {
                    Ok(started) => handling.result == Ok::<ReceptionState, Error>(
                        ReceptionState::Call(started),
                    ),
                    Err(error) => handling.result == Err::<ReceptionState, Error>(error),
                }
            }
        }),
{
}

/// A response to a call that none is expected for is refused, and so is one whose message is gone,
/// or complete. Nothing changes in any of these cases. Otherwise, the response is put behind what
/// has arrived of it before. The end of a chunk ends a chunk of the message, and the last of the
/// response ends the message: no more is expected for the call.
pub proof fn law_responses_are_handled(
    wire: WireState,
    interface: InterfaceState,
    frame: Frame,
    other: (IpfiInteger, IpfiInteger),
)
    ensures
        ({
            let key = (frame.procedure, frame.call);
            let handling = handle_response(wire, interface, frame);
            let expected = wire.responses.contains_key(key);
            let buffer = wire.responses[key];
            let held = interface.messages.contains_key(buffer);
            let complete = interface.messages[buffer].lock is Complete;
            let filled = interface.appended(buffer, frame.payload);
            let last = frame.terminator is Complete || (frame.terminator is Partial
                && frame.payload.len() == 0);
            &&& !expected || !held || complete ==> handling.wire == wire && handling.interface
                == interface
            &&& !expected ==> handling.result == Err::<ReceptionState, Error>(
                Error::NoResponseBuffer { index: frame.procedure, call_idx: frame.call },
            )
            &&& expected && !held ==> handling.result == Err::<ReceptionState, Error>(
                Error::OutOfBounds { index: buffer },
            )
            &&& expected && held && complete ==> handling.result == Err::<ReceptionState, Error>(
                Error::AlreadyCompleted { index: buffer },
            )
            &&& expected && held && !complete ==> {
                &&& handling.result == Ok::<ReceptionState, Error>(ReceptionState::Message(last))
                &&& handling.wire == (WireState { responses: handling.wire.responses, ..wire })
                &&& handling.wire.responses.contains_key(other) <==> wire.responses.contains_key(
                    other,
                ) && !(last && other == key)
                &&& !(last && other == key) ==> handling.wire.responses[other]
                    == wire.responses[other]
                &&& last ==> handling.interface == filled.terminated(buffer)
                &&& frame.terminator is Chunk ==> handling.interface == filled.chunk_terminated(
                    buffer,
                )
                &&& frame.terminator is Partial && frame.payload.len() > 0 ==> handling.interface
                    == filled
            }
        }),
{
}

/// What came of a message is told as it is.
pub proof fn law_reception_is_told(reception: Reception)
    ensures
        reception matches Reception::Message(last) ==> reception@ == ReceptionState::Message(last),
        reception matches Reception::Call(call) ==> reception@ == ReceptionState::Call(call@),
        reception is EndOfInput <==> reception@ is EndOfInput,
        reception is Terminated <==> reception@ is Terminated,
        reception is Message <==> reception@ is Message,
        reception is Call <==> reception@ is Call,
{
}

/// Poisoning handles poisons the locks of the messages that they are on, but for those that are
/// complete, and of no others. Messages that have come to have the identifier of one that a handle
/// was on since are left alone. Nothing else changes.
pub proof fn law_poisoning_handles_effect(
    interface: InterfaceState,
    idle: Map<IpfiInteger, u64>,
    id: IpfiInteger,
)
    ensures
        ({
            let after = interface.handles_poisoned(idle);
            let message = interface.messages[id];
            let meant = idle.contains_key(id) && idle[id] == message.serial;
            &&& after == (InterfaceState { messages: after.messages, ..interface })
            &&& after.messages.dom() == interface.messages.dom()
            &&& interface.messages.contains_key(id) ==> after.messages[id] == (if meant && !(
            message.lock is Complete) {
                BufferState { lock: CompleteLockState::Poisoned, ..message }
            } else {
                message
            })
        }),
{
    assert(interface.handles_poisoned(idle).messages.dom() =~= interface.messages.dom());
}

/// What forgetting several calls of one wire leaves: every other call, and every message that did
/// not hold the arguments of one of them.
proof fn lemma_calls_dropped_keeps(
    interface: InterfaceState,
    calls: Seq<(IpfiInteger, IpfiInteger)>,
    wire: IpfiInteger,
    key: (IpfiInteger, IpfiInteger, IpfiInteger),
    id: IpfiInteger,
    stream: u64,
)
    ensures
        ({
            let after = interface.calls_dropped(calls, wire);
            let forgotten = key.2 == wire && calls.contains((key.0, key.1));
            &&& after.call_buffers.contains_key(key) <==> interface.call_buffers.contains_key(key)
                && !forgotten
            &&& !forgotten ==> after.call_buffers[key] == interface.call_buffers[key]
            &&& after.procedures == interface.procedures
            &&& after.creation_locks == interface.creation_locks
            &&& after.wire_ids == interface.wire_ids
            &&& after.next_serial == interface.next_serial
            &&& after.message_ids.counter == interface.message_ids.counter
            &&& after.messages.contains_key(id) ==> interface.messages.contains_key(id)
                && after.messages[id] == interface.messages[id]
            &&& interface.messages.contains_key(id) && (forall|call: (IpfiInteger, IpfiInteger)|
                #[trigger]
                calls.contains(call) && interface.call_buffers.contains_key((call.0, call.1, wire))
                    ==> interface.call_buffers[(call.0, call.1, wire)] != id)
                ==> after.messages.contains_key(id)
            &&& interface.call_buffers.contains_key(key) && forgotten && id
                == interface.call_buffers[key] ==> !after.messages.contains_key(id)
            &&& after.streams.contains_key(stream) <==> interface.streams.contains_key(stream)
            &&& after.streams[stream].queue == interface.streams[stream].queue
            &&& (forall|call: (IpfiInteger, IpfiInteger)| #[trigger]
                calls.contains(call) && interface.call_buffers.contains_key((call.0, call.1, wire))
                    ==> interface.messages[interface.call_buffers[(call.0, call.1, wire)]].sender
                    != ChunkSender::Attached(stream)) ==> after.streams[stream]
                == interface.streams[stream]
        }),
    decreases calls.len(),
{
    if calls.len() > 0 {
        let earlier = calls.drop_last();
        let last = calls.last();
        let dropped = (last.0, last.1, wire);
        lemma_calls_dropped_keeps(interface, earlier, wire, key, id, stream);
        lemma_calls_dropped_keeps(interface, earlier, wire, dropped, id, stream);
        assert forall|call: (IpfiInteger, IpfiInteger)| #[trigger]
            calls.contains(call) <==> earlier.contains(call) || call == last by {
            if calls.contains(call) {
                let i = choose|i: int| 0 <= i < calls.len() && calls[i] == call;
                if i < earlier.len() {
                    assert(earlier[i] == call);
                }
            }
            if earlier.contains(call) {
                let i = choose|i: int| 0 <= i < earlier.len() && earlier[i] == call;
                assert(calls[i] == call);
            }
            assert(calls[calls.len() - 1] == last);
        }
        let before = interface.calls_dropped(earlier, wire);
        assert(interface.calls_dropped(calls, wire) == before.call_dropped(dropped));
        assert(calls.contains(last));
        assert forall|call: (IpfiInteger, IpfiInteger)| #[trigger]
            earlier.contains(call) implies calls.contains(call) by {}
        assert(calls.contains((key.0, key.1)) <==> earlier.contains((key.0, key.1)) || (
        key.0, key.1) == last);
        if before.call_buffers.contains_key(dropped) {
            let buffer = interface.call_buffers[dropped];
            assert(before.call_buffers[dropped] == buffer);
            lemma_calls_dropped_keeps(interface, earlier, wire, dropped, buffer, stream);
        }
    }
}

/// Terminating a wire marks it as terminated, and changes nothing else about it. On the interface,
/// its ongoing calls are forgotten along with their arguments, and handles on responses are
/// poisoned. Everything else is left alone: the calls of other wires, every other message, all
/// chunks that have been sent to somebody, and every stream that arguments do not go to.
pub proof fn law_terminating_effect(
    wire: WireState,
    interface: InterfaceState,
    wire_after: WireState,
    interface_after: InterfaceState,
    key: (IpfiInteger, IpfiInteger, IpfiInteger),
    id: IpfiInteger,
    stream: u64,
)
    requires
        terminates(wire, interface, wire_after, interface_after),
    ensures
        wire_after == (WireState { terminated: true, ..wire }),
        ({
            let forgotten = key.2 == wire.id && wire.ongoing.contains((key.0, key.1));
            let message = interface.messages[id];
            let meant = wire.idle.contains_key(id) && wire.idle[id] == message.serial;
            let after = interface_after;
            &&& after.call_buffers.contains_key(key) <==> interface.call_buffers.contains_key(key)
                && !forgotten
            &&& !forgotten ==> after.call_buffers[key] == interface.call_buffers[key]
            &&& after.procedures == interface.procedures
            &&& after.creation_locks == interface.creation_locks
            &&& after.wire_ids == interface.wire_ids
            &&& after.next_serial == interface.next_serial
            &&& after.message_ids.counter == interface.message_ids.counter
            &&& interface.call_buffers.contains_key(key) && forgotten && id
                == interface.call_buffers[key] ==> !after.messages.contains_key(id)
            &&& interface.messages.contains_key(id) && (forall|call: (IpfiInteger, IpfiInteger)|
                #[trigger]
                wire.ongoing.contains(call) && interface.call_buffers.contains_key(
                    (call.0, call.1, wire.id),
                ) ==> interface.call_buffers[(call.0, call.1, wire.id)] != id)
                ==> after.messages.contains_key(id)
            &&& after.messages.contains_key(id) ==> interface.messages.contains_key(id)
                && after.messages[id] == (if meant && !(message.lock is Complete) {
                BufferState { lock: CompleteLockState::Poisoned, ..message }
            } else {
                message
            })
            &&& after.streams.contains_key(stream) <==> interface.streams.contains_key(stream)
            &&& after.streams[stream].queue == interface.streams[stream].queue
            &&& (forall|call: (IpfiInteger, IpfiInteger)| #[trigger]
                wire.ongoing.contains(call) && interface.call_buffers.contains_key(
                    (call.0, call.1, wire.id),
                ) ==> interface.messages[interface.call_buffers[(
                    call.0,
                    call.1,
                    wire.id,
                )]].sender != ChunkSender::Attached(stream)) ==> after.streams[stream]
                == interface.streams[stream]
        }),
{
    let order = choose|order: Seq<(IpfiInteger, IpfiInteger)>| #[trigger]
        enumerates(order, wire.ongoing) && interface_after == interface.calls_dropped(
            order,
            wire.id,
        ).handles_poisoned(wire.idle);
    lemma_calls_dropped_keeps(interface, order, wire.id, key, id, stream);
    assert forall|call: (IpfiInteger, IpfiInteger)| #[trigger]
        order.contains(call) <==> wire.ongoing.contains(call) by {
        assert(order.to_set().contains(call) <==> order.contains(call));
    }
}

/// Letting go of a wire terminates it, and there is one fewer who holds it. Its identifier can be
/// given to another wire if and only if that was the last one.
pub proof fn law_releasing_effect(
    wire: WireState,
    interface: InterfaceState,
    wire_after: WireState,
    interface_after: InterfaceState,
)
    requires
        wire.holders > 0,
        releases(wire, interface, wire_after, interface_after),
    ensures
        wire_after == (WireState {
            terminated: true,
            holders: (wire.holders - 1) as u64,
            ..wire
        }),
        interface_after.wire_ids == (if wire_after.holders == 0 {
            interface.wire_ids.relinquished(wire.id)
        } else {
            interface.wire_ids
        }),
        terminates(
            wire,
            interface,
            WireState { terminated: true, ..wire },
            InterfaceState { wire_ids: interface.wire_ids, ..interface_after },
        ),
{
    let after = choose|after: InterfaceState| #[trigger]
        terminates(wire, interface, wire.shut(), after) && interface_after == (
        if wire.holders == 1 {
            InterfaceState { wire_ids: after.wire_ids.relinquished(wire.id), ..after }
        } else {
            after
        });
    law_terminating_effect(wire, interface, wire.shut(), after, (0, 0, 0), 0, 0);
    assert((InterfaceState { wire_ids: interface.wire_ids, ..interface_after }) =~= after);
    assert(wire.shut() =~= (WireState { terminated: true, ..wire }));
}

} // verus!
