//! What always holds of reading what the other side has sent.
use crate::complete_lock::CompleteLockState;
use crate::error::{Error, IoErrorKind};
use crate::incoming::{law_parse_consumes, law_parse_encode, parse};
use crate::interface::{CallState, InterfaceState, Progress};
use crate::message::BufferState;
use crate::types::{IpfiInteger, Terminator};
use crate::wire::{
    fill_until, fills, flushes, handle, handle_response, joined, receives, terminates, Filling,
    Handling, Reception, ReceptionState, WireState,
};
use crate::wire_effects::law_joined_in_order;
use crate::wire_laws::{
    handle_parts, law_call_is_handed_out, law_messages_do_not_terminate, law_piecemeal_arguments,
};
use crate::wire_utils::{Frame, Packet};
use vstd::prelude::*;

verus! {

/// Filling a wire is receiving messages until one of them needs attention. After a plain message it
/// goes on with what is left. Anything else is returned as it was received, at once, and whatever
/// is behind it is left alone: above all, no completed call is passed over, whether or not the wire
/// is one for modules. If the input ends too early, the wire is terminated.
pub proof fn law_filling_is_receiving(
    wire: WireState,
    interface: InterfaceState,
    input: Seq<u8>,
    received_wire: WireState,
    received_interface: InterfaceState,
    received_rest: Seq<u8>,
    received: Result<Reception, Error>,
    wire_after: WireState,
    interface_after: InterfaceState,
    rest: Seq<u8>,
    result: Result<Reception, Error>,
)
    requires
        !wire.terminated,
        receives(
            wire,
            interface,
            input,
            received_wire,
            received_interface,
            received_rest,
            received,
        ),
        fills(wire, interface, input, wire_after, interface_after, rest, result),
    ensures
        match received {
            Ok(Reception::Message(_)) => fills(
                received_wire,
                received_interface,
                received_rest,
                wire_after,
                interface_after,
                rest,
                result,
            ),
            Ok(Reception::Call(call)) => {
                &&& result matches Ok(Reception::Call(returned)) && returned@ == call@
                &&& wire_after == received_wire
                &&& interface_after == received_interface
                &&& rest == received_rest
            },
            Ok(Reception::EndOfInput) => {
                &&& result == Ok::<Reception, Error>(Reception::EndOfInput)
                &&& wire_after == received_wire
                &&& interface_after == received_interface
                &&& rest == received_rest
            },
            Ok(Reception::Terminated) => {
                &&& result == Ok::<Reception, Error>(Reception::Terminated)
                &&& terminates(wire, interface, wire_after, interface_after)
                &&& rest == received_rest
            },
            Err(error) => {
                &&& result == Err::<Reception, Error>(error)
                &&& rest == received_rest
                &&& error == Error::IoError(IoErrorKind::UnexpectedEof) ==> terminates(
                    received_wire,
                    received_interface,
                    wire_after,
                    interface_after,
                )
                &&& error != Error::IoError(IoErrorKind::UnexpectedEof) ==> wire_after
                    == received_wire && interface_after == received_interface
            },
        },
{
    let parsed = parse(input, wire.module_style);
    if parsed.result is Ok {
        let packet = parsed.result->Ok_0;
        let handling = handle(wire, interface, packet);
        if input.len() > 0 {
            law_parse_consumes(input, wire.module_style);
        }
        if let Some(Packet::Call(frame)) = packet {
            assert(handling.wire.terminated == wire.terminated);
        }
    }
}

/// The bytes of some messages.
pub open spec fn encoded(packets: Seq<Packet>) -> Seq<Seq<u8>> {
    Seq::new(packets.len(), |i: int| packets[i].encode())
}

/// What is made of some messages, one after the other.
pub open spec fn handle_all(
    wire: WireState,
    interface: InterfaceState,
    packets: Seq<Packet>,
) -> Handling
    decreases packets.len(),
{
    if packets.len() == 0 {
        Handling { wire, interface, result: Ok(ReceptionState::Message(false)) }
    } else {
        let before = handle_all(wire, interface, packets.drop_last());
        handle(before.wire, before.interface, Some(packets.last()))
    }
}

/// Whether each of some messages can be read, and none of them needs attention.
pub open spec fn plain(wire: WireState, interface: InterfaceState, packets: Seq<Packet>) -> bool
    decreases packets.len(),
{
    packets.len() > 0 ==> {
        let handled = handle_all(wire, interface, packets);
        &&& plain(wire, interface, packets.drop_last())
        &&& packets.last().encodable()
        &&& packets.last() is Response ==> !wire.module_style
        &&& handled.result is Ok
        &&& handled.result->Ok_0 is Message
    }
}

/// The first message in some input is handled first. Filling goes on behind it if it is a plain
/// one, and ends there otherwise.
proof fn lemma_first_is_handled(
    wire: WireState,
    interface: InterfaceState,
    packet: Packet,
    more: Seq<u8>,
)
    requires
        packet.encodable(),
        packet is Response ==> !wire.module_style,
    ensures
        ({
            let handling = handle(wire, interface, Some(packet));
            let filling = fill_until(wire, interface, packet.encode() + more);
            if handling.result is Ok && handling.result->Ok_0 is Message {
                filling == fill_until(handling.wire, handling.interface, more)
            } else {
                filling == Filling { handling, rest: more }
            }
        }),
{
    law_parse_encode(packet, more, wire.module_style);
    reveal_with_fuel(fill_until, 1);
}

/// Plain messages are handled in order, and filling goes on behind them.
pub proof fn law_plain_messages_are_filled(
    wire: WireState,
    interface: InterfaceState,
    packets: Seq<Packet>,
    more: Seq<u8>,
)
    requires
        plain(wire, interface, packets),
    ensures
        ({
            let handled = handle_all(wire, interface, packets);
            &&& fill_until(wire, interface, joined(encoded(packets)) + more) == fill_until(
                handled.wire,
                handled.interface,
                more,
            )
            &&& handled.wire.module_style == wire.module_style
            &&& handled.wire.terminated == wire.terminated
        }),
    decreases packets.len(),
{
    if packets.len() == 0 {
        assert(encoded(packets) =~= Seq::<Seq<u8>>::empty());
        law_joined_in_order(Seq::empty(), Seq::empty(), more);
        assert(joined(encoded(packets)) + more =~= more);
    } else {
        let earlier = packets.drop_last();
        let last = packets.last();
        let behind = last.encode() + more;
        law_plain_messages_are_filled(wire, interface, earlier, behind);
        assert(encoded(packets) =~= encoded(earlier) + seq![last.encode()]);
        law_joined_in_order(encoded(earlier), seq![last.encode()], last.encode());
        assert(joined(encoded(packets)) + more =~= joined(encoded(earlier)) + behind);
        let before = handle_all(wire, interface, earlier);
        assert(handle_all(wire, interface, packets) == handle(
            before.wire,
            before.interface,
            Some(last),
        ));
        law_messages_do_not_terminate(before.wire, before.interface, Some(last));
        lemma_first_is_handled(before.wire, before.interface, last, more);
    }
}

/// Filling over what the other side has flushed returns what came of the first message that is not
/// a plain one, and leaves everything behind that message where it is.
pub proof fn law_first_that_needs_attention(
    wire: WireState,
    interface: InterfaceState,
    packets: Seq<Packet>,
    next: Packet,
    more: Seq<u8>,
)
    requires
        plain(wire, interface, packets),
        next.encodable(),
        next is Response ==> !wire.module_style,
        ({
            let handled = handle_all(wire, interface, packets);
            let handling = handle(handled.wire, handled.interface, Some(next));
            !(handling.result is Ok && handling.result->Ok_0 is Message)
        }),
    ensures
        ({
            let handled = handle_all(wire, interface, packets);
            fill_until(wire, interface, joined(encoded(packets.push(next))) + more) == (Filling {
                handling: handle(handled.wire, handled.interface, Some(next)),
                rest: more,
            })
        }),
{
    let behind = next.encode() + more;
    let handled = handle_all(wire, interface, packets);
    law_plain_messages_are_filled(wire, interface, packets, behind);
    assert(encoded(packets.push(next)) =~= encoded(packets) + seq![next.encode()]);
    law_joined_in_order(encoded(packets), seq![next.encode()], next.encode());
    assert(joined(encoded(packets.push(next))) + more =~= joined(encoded(packets)) + behind);
    lemma_first_is_handled(handled.wire, handled.interface, next, more);
}

/// After further parts of the arguments of a call have been sent, one after the other.
pub open spec fn continued_with(
    wire: WireState,
    procedure: IpfiInteger,
    call: IpfiInteger,
    parts: Seq<Seq<u8>>,
) -> WireState
    decreases parts.len(),
{
    if parts.len() == 0 {
        wire
    } else {
        continued_with(wire, procedure, call, parts.drop_last()).call_continued(
            procedure,
            call,
            parts.last(),
        )
    }
}

/// The messages that the parts of the arguments of a call are sent in.
spec fn part_packets(
    procedure: IpfiInteger,
    call: IpfiInteger,
    parts: Seq<Seq<u8>>,
) -> Seq<Packet> {
    Seq::new(
        parts.len(),
        |i: int|
            Packet::Call(
                Frame { procedure, call, terminator: Terminator::Partial, payload: parts[i] },
            ),
    )
}

/// Each part of the arguments of a call is queued behind those before it, and nothing but the queue
/// changes.
proof fn lemma_continued_queue(
    wire: WireState,
    procedure: IpfiInteger,
    call: IpfiInteger,
    parts: Seq<Seq<u8>>,
)
    ensures
        continued_with(wire, procedure, call, parts) == (WireState {
            queue: wire.queue + encoded(part_packets(procedure, call, parts)),
            ..wire
        }),
    decreases parts.len(),
{
    let packets = part_packets(procedure, call, parts);
    if parts.len() == 0 {
        assert(wire.queue + encoded(packets) =~= wire.queue);
    } else {
        let earlier = parts.drop_last();
        lemma_continued_queue(wire, procedure, call, earlier);
        let fewer = part_packets(procedure, call, earlier);
        assert((wire.queue + encoded(fewer)).push(packets.last().encode()) =~= wire.queue
            + encoded(packets));
        assert(packets.last() == Packet::Call(
            Frame { procedure, call, terminator: Terminator::Partial, payload: parts.last() },
        ));
    }
}

/// Handling the parts of the arguments of a call is handling the messages that they are sent in.
proof fn lemma_handle_parts(
    wire: WireState,
    interface: InterfaceState,
    procedure: IpfiInteger,
    call: IpfiInteger,
    parts: Seq<Seq<u8>>,
)
    ensures
        handle_all(wire, interface, part_packets(procedure, call, parts)) == handle_parts(
            wire,
            interface,
            procedure,
            call,
            parts,
        ),
    decreases parts.len(),
{
    if parts.len() > 0 {
        lemma_handle_parts(wire, interface, procedure, call, parts.drop_last());
        assert(part_packets(procedure, call, parts).drop_last() =~= part_packets(
            procedure,
            call,
            parts.drop_last(),
        ));
    }
}

/// The whole way of a call whose arguments are sent piecemeal: it is started with some bytes,
/// continued with more, any number of times, and ended. Once that has been flushed, and everything
/// that was queued before it has been read, the other side is handed one call of the same
/// procedure, with the same call index, and with all the parts, one after the other, as its
/// arguments. Nothing behind it has been read.
pub proof fn law_piecemeal_round_trip(
    caller: WireState,
    caller_interface: InterfaceState,
    callee: WireState,
    callee_interface: InterfaceState,
    procedure: IpfiInteger,
    first: Seq<u8>,
    others: Seq<Seq<u8>>,
    more: Seq<u8>,
)
    requires
        caller.callable(procedure),
        callee_interface.well_formed(),
        !callee_interface.message_ids.exhausted(),
        callee_interface.procedures.contains_key(procedure),
        !callee_interface.call_buffers.contains_key(
            (procedure, caller.next_call(procedure), callee.id),
        ),
        callee.ongoing.len() < callee.max_ongoing,
        0 < first.len() <= usize::MAX,
        forall|i: int| 0 <= i < others.len() ==> 0 < (#[trigger] others[i]).len() <= usize::MAX,
    ensures
        ({
            let call = caller.next_call(procedure);
            let begun = caller.call_begun(procedure, first, caller_interface);
            let ended = continued_with(begun, procedure, call, others).call_ended(procedure, call);
            let sent = joined(ended.queue.skip(caller.queue.len() as int));
            let filling = fill_until(callee, callee_interface, sent + more);
            &&& joined(ended.queue) == joined(caller.queue) + sent
            &&& ended.responses.contains_key((procedure, call))
            &&& ended.responses[(procedure, call)] == caller_interface.message_ids.upcoming()
            &&& filling.rest == more
            &&& filling.handling.result == Ok::<ReceptionState, Error>(
                ReceptionState::Call(
                    CallState {
                        procedure_idx: procedure,
                        call_idx: call,
                        args_buf_idx: callee_interface.message_ids.upcoming(),
                        procedure: callee_interface.procedures[procedure],
                        args: first + joined(others),
                    },
                ),
            )
            &&& filling.handling.wire == (WireState {
                ongoing: callee.ongoing.insert((procedure, call)),
                ..callee
            })
        }),
{
    let call = caller.next_call(procedure);
    let parts = seq![first] + others;
    let packets = part_packets(procedure, call, parts);
    let end = Frame {
        procedure,
        call,
        terminator: Terminator::Complete,
        payload: Seq::<u8>::empty(),
    };
    let next = Packet::Call(end);
    let begun = caller.call_begun(procedure, first, caller_interface);
    let ended = continued_with(begun, procedure, call, others).call_ended(procedure, call);
    // What is queued
    lemma_continued_queue(begun, procedure, call, others);
    let all = encoded(packets.push(next));
    assert(packets[0] == Packet::Call(
        Frame { procedure, call, terminator: Terminator::Partial, payload: first },
    ));
    assert(ended.queue =~= caller.queue + all);
    assert(ended.queue.skip(caller.queue.len() as int) =~= all);
    law_joined_in_order(caller.queue, all, first);
    // What the other side makes of it
    assert(joined(parts) == first + joined(others)) by {
        law_joined_in_order(seq![first], others, first);
    }
    assert forall|i: int| 0 <= i < parts.len() implies 0 < (#[trigger] parts[i]).len()
        <= usize::MAX by {
        if i > 0 {
            assert(parts[i] == others[i - 1]);
        }
    }
    lemma_parts_are_plain(callee, callee_interface, procedure, call, parts);
    law_piecemeal_arguments(callee, callee_interface, procedure, call, parts, end);
    lemma_handle_parts(callee, callee_interface, procedure, call, parts);
    let whole = Frame { payload: joined(parts) + end.payload, ..end };
    assert(joined(parts) + end.payload =~= joined(parts));
    law_call_is_handed_out(callee, callee_interface, whole);
    law_first_that_needs_attention(callee, callee_interface, packets, next, more);
}

/// None of the parts of the arguments of a call needs attention.
proof fn lemma_parts_are_plain(
    wire: WireState,
    interface: InterfaceState,
    procedure: IpfiInteger,
    call: IpfiInteger,
    parts: Seq<Seq<u8>>,
)
    requires
        interface.well_formed(),
        !interface.message_ids.exhausted(),
        interface.procedures.contains_key(procedure),
        !interface.call_buffers.contains_key((procedure, call, wire.id)),
        wire.ongoing.len() < wire.max_ongoing,
        forall|i: int| 0 <= i < parts.len() ==> 0 < (#[trigger] parts[i]).len() <= usize::MAX,
    ensures
        plain(wire, interface, part_packets(procedure, call, parts)),
    decreases parts.len(),
{
    if parts.len() > 0 {
        let packets = part_packets(procedure, call, parts);
        let earlier = parts.drop_last();
        let end = Frame {
            procedure,
            call,
            terminator: Terminator::Complete,
            payload: Seq::<u8>::empty(),
        };
        assert forall|i: int| 0 <= i < earlier.len() implies 0 < (#[trigger] earlier[i]).len()
            <= usize::MAX by {
            assert(earlier[i] == parts[i]);
        }
        lemma_parts_are_plain(wire, interface, procedure, call, earlier);
        assert(packets.drop_last() =~= part_packets(procedure, call, earlier));
        assert(parts.last() == parts[parts.len() - 1]);
        lemma_handle_parts(wire, interface, procedure, call, parts);
        law_piecemeal_arguments(wire, interface, procedure, call, parts, end);
    }
}

/// After several chunks of the response to a call have been sent, one after the other.
pub open spec fn yielded(
    wire: WireState,
    procedure: IpfiInteger,
    call: IpfiInteger,
    chunks: Seq<Seq<u8>>,
) -> WireState
    decreases chunks.len(),
{
    if chunks.len() == 0 {
        wire
    } else {
        yielded(wire, procedure, call, chunks.drop_last()).responded(
            procedure,
            call,
            chunks.last(),
            Terminator::Chunk,
        )
    }
}

/// The messages that the chunks of the response to a call are sent in.
spec fn chunk_packets(
    procedure: IpfiInteger,
    call: IpfiInteger,
    chunks: Seq<Seq<u8>>,
) -> Seq<Packet> {
    Seq::new(
        chunks.len(),
        |i: int|
            Packet::Response(
                Frame { procedure, call, terminator: Terminator::Chunk, payload: chunks[i] },
            ),
    )
}

/// Each chunk of the response to a call is queued behind those before it, and nothing but the queue
/// changes.
proof fn lemma_yielded_queue(
    wire: WireState,
    procedure: IpfiInteger,
    call: IpfiInteger,
    chunks: Seq<Seq<u8>>,
)
    ensures
        yielded(wire, procedure, call, chunks) == (WireState {
            queue: wire.queue + encoded(chunk_packets(procedure, call, chunks)),
            ..wire
        }),
    decreases chunks.len(),
{
    let packets = chunk_packets(procedure, call, chunks);
    if chunks.len() == 0 {
        assert(wire.queue + encoded(packets) =~= wire.queue);
    } else {
        let earlier = chunks.drop_last();
        lemma_yielded_queue(wire, procedure, call, earlier);
        let fewer = chunk_packets(procedure, call, earlier);
        assert((wire.queue + encoded(fewer)).push(packets.last().encode()) =~= wire.queue
            + encoded(packets));
        assert(packets.last() == Packet::Response(
            Frame { procedure, call, terminator: Terminator::Chunk, payload: chunks.last() },
        ));
    }
}

/// Chunks of a response are put, one after the other, into the message that was set aside for it.
proof fn lemma_chunks_accumulate(
    wire: WireState,
    interface: InterfaceState,
    procedure: IpfiInteger,
    call: IpfiInteger,
    id: IpfiInteger,
    chunks: Seq<Seq<u8>>,
)
    requires
        wire.responses.contains_pair((procedure, call), id),
        interface.messages.contains_key(id),
        interface.messages[id].chunks == seq![Seq::<u8>::empty()],
        interface.messages[id].sender is Absent,
        !(interface.messages[id].lock is Complete),
    ensures
        ({
            let handled = handle_all(wire, interface, chunk_packets(procedure, call, chunks));
            &&& handled.result == Ok::<ReceptionState, Error>(ReceptionState::Message(false))
            &&& handled.wire == wire
            &&& handled.interface == (InterfaceState {
                messages: interface.messages.insert(
                    id,
                    BufferState { chunks: chunks.push(Seq::empty()), ..interface.messages[id] },
                ),
                ..interface
            })
        }),
    decreases chunks.len(),
{
    let packets = chunk_packets(procedure, call, chunks);
    let message = interface.messages[id];
    if chunks.len() == 0 {
        assert(chunks.push(Seq::empty()) =~= seq![Seq::<u8>::empty()]);
        let expected = interface.messages.insert(
            id,
            BufferState { chunks: chunks.push(Seq::empty()), ..message },
        );
        assert(expected =~= interface.messages);
    } else {
        let earlier = chunks.drop_last();
        let last = chunks.last();
        lemma_chunks_accumulate(wire, interface, procedure, call, id, earlier);
        assert(packets.drop_last() =~= chunk_packets(procedure, call, earlier));
        let before = handle_all(wire, interface, packets.drop_last());
        let frame = Frame { procedure, call, terminator: Terminator::Chunk, payload: last };
        assert(packets.last() == Packet::Response(frame));
        let after = handle_response(before.wire, before.interface, frame);
        let held = before.interface.messages[id];
        assert(held.chunks.last() + last =~= last);
        assert(held.appended(last).chunks =~= chunks);
        assert(after.interface.messages =~= interface.messages.insert(
            id,
            BufferState { chunks: chunks.push(Seq::empty()), ..message },
        ));
    }
}

/// None of the chunks of a response needs attention.
proof fn lemma_chunks_are_plain(
    wire: WireState,
    interface: InterfaceState,
    procedure: IpfiInteger,
    call: IpfiInteger,
    id: IpfiInteger,
    chunks: Seq<Seq<u8>>,
)
    requires
        !wire.module_style,
        wire.responses.contains_pair((procedure, call), id),
        interface.messages.contains_key(id),
        interface.messages[id].chunks == seq![Seq::<u8>::empty()],
        interface.messages[id].sender is Absent,
        !(interface.messages[id].lock is Complete),
        forall|i: int| 0 <= i < chunks.len() ==> (#[trigger] chunks[i]).len() <= usize::MAX,
    ensures
        plain(wire, interface, chunk_packets(procedure, call, chunks)),
    decreases chunks.len(),
{
    if chunks.len() > 0 {
        let packets = chunk_packets(procedure, call, chunks);
        let earlier = chunks.drop_last();
        assert forall|i: int| 0 <= i < earlier.len() implies (#[trigger] earlier[i]).len()
            <= usize::MAX by {
            assert(earlier[i] == chunks[i]);
        }
        lemma_chunks_are_plain(wire, interface, procedure, call, id, earlier);
        lemma_chunks_accumulate(wire, interface, procedure, call, id, chunks);
        assert(packets.drop_last() =~= chunk_packets(procedure, call, earlier));
        assert(chunks.last() == chunks[chunks.len() - 1]);
    }
}

/// The whole way of a response that is streamed: once the chunks that were yielded for a call have
/// been flushed, and everything that was queued before them has been read, they are, in order, the
/// chunks of the message that was set aside for that call. Whoever waits for it sees that it is
/// complete, and no more is expected for the call. Nothing else changes: no message that was set
/// aside for another call, and nothing else on the interface. Reading goes on behind the response.
pub proof fn law_streamed_round_trip(
    callee: WireState,
    waiting: WireState,
    waiting_interface: InterfaceState,
    procedure: IpfiInteger,
    call: IpfiInteger,
    id: IpfiInteger,
    chunks: Seq<Seq<u8>>,
    last: Seq<u8>,
    more: Seq<u8>,
)
    requires
        !waiting.module_style,
        waiting.responses.contains_pair((procedure, call), id),
        waiting_interface.messages.contains_key(id),
        waiting_interface.messages[id].chunks == seq![Seq::<u8>::empty()],
        waiting_interface.messages[id].sender is Absent,
        !(waiting_interface.messages[id].lock is Complete),
        last.len() <= usize::MAX,
        forall|i: int| 0 <= i < chunks.len() ==> (#[trigger] chunks[i]).len() <= usize::MAX,
    ensures
        ({
            let ended = yielded(callee, procedure, call, chunks).responded(
                procedure,
                call,
                last,
                Terminator::Complete,
            );
            let sent = joined(ended.queue.skip(callee.queue.len() as int));
            let after = WireState {
                responses: waiting.responses.remove((procedure, call)),
                ..waiting
            };
            let after_interface = InterfaceState {
                messages: waiting_interface.messages.insert(
                    id,
                    BufferState {
                        chunks: chunks.push(last),
                        lock: CompleteLockState::Complete,
                        ..waiting_interface.messages[id]
                    },
                ),
                ..waiting_interface
            };
            &&& joined(ended.queue) == joined(callee.queue) + sent
            &&& ended.ongoing == callee.ongoing.remove((procedure, call))
            &&& fill_until(waiting, waiting_interface, sent + more) == fill_until(
                after,
                after_interface,
                more,
            )
            &&& after_interface.message_progress(id) == Progress::Ready(Ok::<(), Error>(()))
        }),
{
    let packets = chunk_packets(procedure, call, chunks);
    let end = Frame { procedure, call, terminator: Terminator::Complete, payload: last };
    let next = Packet::Response(end);
    let all = packets.push(next);
    let ended = yielded(callee, procedure, call, chunks).responded(
        procedure,
        call,
        last,
        Terminator::Complete,
    );
    // What is queued
    lemma_yielded_queue(callee, procedure, call, chunks);
    assert(ended.queue =~= callee.queue + encoded(all));
    assert(ended.queue.skip(callee.queue.len() as int) =~= encoded(all));
    law_joined_in_order(callee.queue, encoded(all), last);
    // What the other side makes of it
    assert(all.drop_last() =~= packets);
    lemma_chunks_accumulate(waiting, waiting_interface, procedure, call, id, chunks);
    let before = handle_all(waiting, waiting_interface, packets);
    let handled = handle_all(waiting, waiting_interface, all);
    let held = before.interface.messages[id];
    assert(held.chunks.last() + last =~= last);
    assert(held.appended(last).chunks =~= chunks.push(last));
    assert(handled.interface.messages =~= waiting_interface.messages.insert(
        id,
        BufferState {
            chunks: chunks.push(last),
            lock: CompleteLockState::Complete,
            ..waiting_interface.messages[id]
        },
    ));
    lemma_chunks_are_plain(waiting, waiting_interface, procedure, call, id, chunks);
    law_plain_messages_are_filled(waiting, waiting_interface, all, more);
}

/// What one side has flushed, the other fills from: whatever was queued is read in order, up to the
/// first message that needs attention, which is returned.
pub proof fn law_flushed_is_filled(
    sender: WireState,
    sender_after: WireState,
    written: Seq<u8>,
    flushed: Result<(), Error>,
    wire: WireState,
    interface: InterfaceState,
    packets: Seq<Packet>,
    next: Packet,
    more: Seq<Packet>,
    wire_after: WireState,
    interface_after: InterfaceState,
    rest: Seq<u8>,
    result: Result<Reception, Error>,
)
    requires
        !sender.terminated,
        !wire.terminated,
        sender.queue == encoded(packets.push(next) + more),
        flushes(sender, sender, sender_after, Seq::empty(), written, flushed),
        fills(wire, interface, written, wire_after, interface_after, rest, result),
        plain(wire, interface, packets),
        next.encodable(),
        next is Response ==> !wire.module_style,
        ({
            let handled = handle_all(wire, interface, packets);
            let handling = handle(handled.wire, handled.interface, Some(next));
            handling.result is Ok && handling.result->Ok_0 is Call
        }),
    ensures
        ({
            let handled = handle_all(wire, interface, packets);
            let handling = handle(handled.wire, handled.interface, Some(next));
            &&& result matches Ok(reception) && handling.result == Ok::<ReceptionState, Error>(
                reception@,
            )
            &&& wire_after == handling.wire
            &&& interface_after == handling.interface
            &&& rest == joined(encoded(more))
        }),
{
    let behind = joined(encoded(more));
    law_first_that_needs_attention(wire, interface, packets, next, behind);
    assert(encoded(packets.push(next) + more) =~= encoded(packets.push(next)) + encoded(more));
    law_joined_in_order(encoded(packets.push(next)), encoded(more), behind);
    assert(Seq::<u8>::empty() + joined(sender.queue) =~= joined(sender.queue));
}

} // verus!
