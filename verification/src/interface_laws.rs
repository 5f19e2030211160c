//! What always holds of interfaces.
use crate::complete_lock::CompleteLockState;
use crate::error::Error;
use crate::interface::{CallState, InterfaceState, Procedure, Progress, ReceiverState};
use crate::message::{BufferState, ChunkSender};
use crate::roi_queue::{law_identifiers_unique, law_relinquish_frees};
use crate::types::IpfiInteger;
use vstd::prelude::*;

verus! {

impl InterfaceState {
    /// The messages that exist are those whose identifiers are in use, and each of them has at
    /// least one chunk.
    pub open spec fn well_formed(self) -> bool {
        &&& self.message_ids.sound()
        &&& forall|id: IpfiInteger| #[trigger]
            self.messages.contains_key(id) <==> self.message_ids.in_use(id)
        &&& forall|id: IpfiInteger| #[trigger]
            self.messages.contains_key(id) ==> self.messages[id].well_formed()
    }

    /// Every serial number that is in use was issued before the next one.
    pub open spec fn serials_fresh(self) -> bool {
        forall|id: IpfiInteger| #[trigger]
            self.messages.contains_key(id) ==> self.messages[id].serial < self.next_serial
    }
}

/// A new interface is well-formed.
pub proof fn law_initial_well_formed()
    ensures
        InterfaceState::initial().well_formed(),
        InterfaceState::initial().serials_fresh(),
{
}

/// No two messages ever have completion locks with the same serial number, until the serial numbers
/// run out.
pub proof fn law_serials_are_unique(state: InterfaceState)
    requires
        state.serials_fresh(),
        state.next_serial < u64::MAX,
    ensures
        state.pushed().serials_fresh(),
        forall|id: IpfiInteger|
            state.messages.contains_key(id) && id != state.message_ids.upcoming()
                ==> #[trigger] state.pushed().messages[id].serial
                != state.pushed().messages[state.message_ids.upcoming()].serial,
{
    let next = state.pushed();
    let new = state.message_ids.upcoming();
    assert forall|id: IpfiInteger| #[trigger]
        next.messages.contains_key(id) implies next.messages[id].serial < next.next_serial by {
        if id != new {
            assert(state.messages.contains_key(id));
        }
    }
    assert forall|id: IpfiInteger|
        state.messages.contains_key(id) && id != new implies #[trigger] next.messages[id].serial
        != next.messages[new].serial by {
        assert(state.messages[id].serial < state.next_serial);
    }
}

/// Nothing but the creation of messages and streams issues serial numbers, and none is ever issued
/// anew to a message that exists.
pub proof fn law_serials_stay_fresh(
    state: InterfaceState,
    id: IpfiInteger,
    data: Seq<u8>,
    serial: u64,
)
    requires
        state.serials_fresh(),
        state.messages.contains_key(id),
        state.next_serial < u64::MAX,
    ensures
        state.popped(id).serials_fresh(),
        state.appended(id, data).serials_fresh(),
        state.completed(id).serials_fresh(),
        state.terminated(id).serials_fresh(),
        state.chunk_terminated(id).serials_fresh(),
        state.poisoned(id, serial).serials_fresh(),
        state.creation_awaited(id).serials_fresh(),
        state.creation_resumed(id).serials_fresh(),
        state.streaming(id).serials_fresh(),
{
    assert(state.messages[id].serial < state.next_serial);
    assert forall|other: IpfiInteger| #[trigger]
        state.streaming(id).messages.contains_key(
            other,
        ) implies state.streaming(id).messages[other].serial < state.streaming(
        id,
    ).next_serial by {
        assert(state.messages.contains_key(other));
    }
}

/// A new message gets an identifier that no other message has, and creating it changes no other
/// message, until there are no identifiers left.
pub proof fn law_push_fresh(state: InterfaceState)
    requires
        state.well_formed(),
        !state.message_ids.exhausted(),
    ensures
        !state.messages.contains_key(state.message_ids.upcoming()),
        state.pushed().messages == state.messages.insert(
            state.message_ids.upcoming(),
            BufferState::fresh(state.next_serial),
        ),
        state.pushed().streams == state.streams,
        state.pushed().well_formed(),
{
    law_identifiers_unique(state.message_ids);
    let id = state.message_ids.upcoming();
    assert(state.messages.contains_key(id) <==> state.message_ids.in_use(id));
    let next = state.pushed();
    assert forall|other: IpfiInteger| #[trigger]
        next.messages.contains_key(other) <==> next.message_ids.in_use(other) by {
        assert(state.messages.contains_key(other) <==> state.message_ids.in_use(other));
    }
    assert forall|other: IpfiInteger| #[trigger]
        next.messages.contains_key(other) implies next.messages[other].well_formed() by {
        if other != id {
            assert(state.messages.contains_key(other));
        }
    }
}

/// Deleting a message changes no other message, and makes its identifier available again.
pub proof fn law_pop_recycles(state: InterfaceState, id: IpfiInteger)
    requires
        state.well_formed(),
        state.messages.contains_key(id),
    ensures
        state.popped(id).well_formed(),
        state.popped(id).messages == state.messages.remove(id),
        !state.popped(id).message_ids.in_use(id),
        state.message_ids.free.len() == 0 ==> state.popped(id).message_ids.upcoming() == id,
{
    assert(state.message_ids.in_use(id));
    law_relinquish_frees(state.message_ids, id);
    let next = state.popped(id);
    assert forall|other: IpfiInteger| #[trigger]
        next.messages.contains_key(other) <==> next.message_ids.in_use(other) by {
        assert(state.messages.contains_key(other) <==> state.message_ids.in_use(other));
    }
    assert forall|other: IpfiInteger| #[trigger]
        next.messages.contains_key(other) implies next.messages[other].well_formed() by {
        assert(state.messages.contains_key(other));
    }
}

/// Whatever happens to a message that accepts data leaves the interface well-formed, and all other
/// messages as they are.
pub proof fn law_writing_is_local(
    state: InterfaceState,
    id: IpfiInteger,
    data: Seq<u8>,
    serial: u64,
    other: IpfiInteger,
)
    requires
        state.well_formed(),
        state.refusal(id) is None,
        other != id,
    ensures
        state.appended(id, data).well_formed(),
        state.completed(id).well_formed(),
        state.terminated(id).well_formed(),
        state.chunk_terminated(id).well_formed(),
        state.poisoned(id, serial).well_formed(),
        state.messages.contains_key(other) ==> {
            &&& state.appended(id, data).messages.contains_key(other)
            &&& state.appended(id, data).messages[other] == state.messages[other]
            &&& state.completed(id).messages.contains_key(other)
            &&& state.completed(id).messages[other] == state.messages[other]
            &&& state.terminated(id).messages.contains_key(other)
            &&& state.terminated(id).messages[other] == state.messages[other]
            &&& state.chunk_terminated(id).messages.contains_key(other)
            &&& state.chunk_terminated(id).messages[other] == state.messages[other]
            &&& state.poisoned(id, serial).messages.contains_key(other)
            &&& state.poisoned(id, serial).messages[other] == state.messages[other]
        },
{
    let message = state.messages[id];
    assert(message.well_formed());
    lemma_replaced_well_formed(state, id, message.appended(data));
    lemma_replaced_well_formed(state, id, message.completed());
    lemma_replaced_well_formed(state, id, message.chunk_started());
    lemma_replaced_well_formed(state, id, message.chunk_taken());
    lemma_replaced_well_formed(state, id, message.poisoned());
    lemma_replaced_well_formed(
        state,
        id,
        message.completed().sending_to(ChunkSender::Released),
    );
    if state.listening(message.sender) {
        let sent = state.completed(id).sent(message.sender->Attached_0, message.chunks.last());
        assert(sent.well_formed());
        law_pop_recycles(sent, id);
    }
}

/// Replacing a message by one with at least one chunk keeps an interface well-formed.
proof fn lemma_replaced_well_formed(
    state: InterfaceState,
    id: IpfiInteger,
    buffer: BufferState,
)
    requires
        state.well_formed(),
        state.messages.contains_key(id),
        buffer.well_formed(),
    ensures
        state.with_message(id, buffer).well_formed(),
{
    let next = state.with_message(id, buffer);
    assert forall|other: IpfiInteger| #[trigger]
        next.messages.contains_key(other) <==> next.message_ids.in_use(other) by {
        assert(state.messages.contains_key(other) <==> state.message_ids.in_use(other));
    }
    assert forall|other: IpfiInteger| #[trigger]
        next.messages.contains_key(other) implies next.messages[other].well_formed() by {
        assert(state.messages.contains_key(other));
    }
}

/// Everything else that can happen on an interface leaves it well-formed, too: waiting for a
/// message, streaming its chunks, receiving them, and handing out identifiers for wires.
pub proof fn law_waiting_keeps_well_formed(
    state: InterfaceState,
    id: IpfiInteger,
    receiver: ReceiverState,
    procedure: Procedure,
)
    requires
        state.well_formed(),
    ensures
        state.creation_awaited(id).well_formed(),
        state.creation_resumed(id).well_formed(),
        state.messages.contains_key(id) ==> state.streaming(id).well_formed(),
        state.received(receiver).well_formed(),
        state.with_procedure(id, procedure).well_formed(),
        (InterfaceState {
            streams: state.streams.remove(receiver.stream),
            ..state
        }).well_formed(),
        (InterfaceState { wire_ids: state.wire_ids.advanced(), ..state }).well_formed(),
        (InterfaceState { wire_ids: state.wire_ids.relinquished(id), ..state }).well_formed(),
{
    if state.messages.contains_key(id) {
        let message = state.messages[id].sending_to(ChunkSender::Attached(state.next_serial));
        lemma_replaced_well_formed(state, id, message);
    }
}

/// Accumulating the arguments of procedure calls, executing them, and forgetting them leaves an
/// interface well-formed.
pub proof fn law_calls_keep_well_formed(
    state: InterfaceState,
    call: (IpfiInteger, IpfiInteger, IpfiInteger),
    executed: CallState,
    failed: bool,
)
    requires
        state.well_formed(),
        !state.message_ids.exhausted(),
    ensures
        state.with_call_buffer(call).well_formed(),
        state.call_started(call).well_formed(),
        state.call_dropped(call).well_formed(),
        state.call_finished(executed, failed).well_formed(),
{
    law_push_fresh(state);
    lemma_popped_well_formed(state, executed.args_buf_idx);
    if state.call_buffers.contains_key(call) {
        let forgotten = InterfaceState { call_buffers: state.call_buffers.remove(call), ..state };
        lemma_popped_well_formed(forgotten, state.call_buffers[call]);
    }
}

/// Deleting a message, whether or not it exists, keeps an interface well-formed.
proof fn lemma_popped_well_formed(state: InterfaceState, id: IpfiInteger)
    requires
        state.well_formed(),
    ensures
        state.popped(id).well_formed(),
{
    if state.messages.contains_key(id) {
        law_pop_recycles(state, id);
    }
}

/// What is read from a message is exactly what was written to it, in the order in which it was
/// written: two writes and a termination make the message ready, with both of them at its end.
pub proof fn law_read_what_was_written(
    state: InterfaceState,
    id: IpfiInteger,
    first: Seq<u8>,
    second: Seq<u8>,
)
    requires
        state.well_formed(),
        state.refusal(id) is None,
        state.messages[id].sender is Absent,
    ensures
        ({
            let written = state.appended(id, first).appended(id, second);
            let chunks = state.messages[id].chunks;
            &&& written == state.appended(id, first + second)
            &&& state.appended(id, first).refusal(id) is None
            &&& written.refusal(id) is None
            &&& written.terminated(id).message_progress(id) == Progress::Ready(
                Ok::<(), Error>(()),
            )
            &&& written.terminated(id).messages[id].chunks == chunks.drop_last().push(
                chunks.last() + first + second,
            )
        }),
{
    let message = state.messages[id];
    assert(message.well_formed());
    assert(message.appended(first).chunks.drop_last() =~= message.chunks.drop_last());
    assert(message.chunks.last() + first + second =~= message.chunks.last() + (first + second));
    assert(message.appended(first).appended(second) =~= message.appended(first + second));
    assert(state.appended(id, first).appended(id, second).messages =~= state.appended(
        id,
        first + second,
    ).messages);
}

/// What a fresh message says after some bytes have been written to it, and it has been terminated,
/// is those bytes, in a single chunk, even if there are none.
pub proof fn law_message_round_trip(state: InterfaceState, data: Seq<u8>)
    requires
        state.well_formed(),
        !state.message_ids.exhausted(),
    ensures
        ({
            let id = state.message_ids.upcoming();
            let sent = state.pushed().appended(id, data).terminated(id);
            &&& state.pushed().refusal(id) is None
            &&& state.pushed().appended(id, data).refusal(id) is None
            &&& sent.message_progress(id) == Progress::Ready(Ok::<(), Error>(()))
            &&& sent.messages[id].chunks == seq![data]
        }),
{
    let id = state.message_ids.upcoming();
    law_push_fresh(state);
    let pushed = state.pushed();
    let fresh = BufferState::fresh(state.next_serial);
    assert(fresh.appended(data).chunks =~= seq![data]) by {
        assert(Seq::<u8>::empty() + data =~= data);
    }
}

/// Once a message has been completed, nothing can be written to it, nor can it be terminated
/// again, and poisoning it has no effect.
pub proof fn law_completed_is_final(state: InterfaceState, id: IpfiInteger, serial: u64)
    requires
        state.messages.contains_key(id),
    ensures
        state.completed(id).refusal(id) == Some(Error::AlreadyCompleted { index: id }),
        state.completed(id).poisoned(id, serial) == state.completed(id),
        state.completed(id).message_progress(id) == Progress::Ready(Ok::<(), Error>(())),
{
    let done = state.completed(id);
    assert(done.poisoned(id, serial).messages =~= done.messages);
}

/// A poisoned message fails whoever waits for it, still accepts data, and is healed by being
/// completed.
pub proof fn law_poison_is_healed(state: InterfaceState, id: IpfiInteger, data: Seq<u8>)
    requires
        state.messages.contains_key(id),
        state.messages[id].lock is Incomplete,
    ensures
        ({
            let poisoned = state.poisoned(id, state.messages[id].serial);
            &&& poisoned.message_progress(id) == Progress::Ready(
                Err::<(), Error>(Error::LockPoisoned { index: id }),
            )
            &&& poisoned.refusal(id) is None
            &&& poisoned.appended(id, data).messages[id].chunks == state.appended(
                id,
                data,
            ).messages[id].chunks
            &&& poisoned.completed(id) == state.completed(id)
        }),
{
    let poisoned = state.poisoned(id, state.messages[id].serial);
    assert(poisoned.completed(id).messages =~= state.completed(id).messages);
}

/// Poisoning reaches the message that the serial number belongs to, and no other.
pub proof fn law_poison_is_local(
    state: InterfaceState,
    id: IpfiInteger,
    serial: u64,
    other: IpfiInteger,
)
    requires
        state.messages.contains_key(other),
        other != id || state.messages[other].serial != serial,
    ensures
        state.poisoned(id, serial).messages.contains_key(other),
        state.poisoned(id, serial).messages[other] == state.messages[other],
{
}

/// Whoever waits for a message that does not exist yet has to wait until it is created, and does
/// not have to wait for that any longer. Until they have seen it, nobody who comes later takes the
/// creation lock away from them, and once they have, nothing is left of it.
pub proof fn law_waiter_sees_creation(state: InterfaceState, id: IpfiInteger)
    requires
        !state.messages.contains_key(id),
        !state.creation_locks.contains_key(id),
        state.message_ids.upcoming() == id,
    ensures
        state.creation_progress(id) is Pending,
        state.creation_awaited(id).creation_progress(id) is Pending,
        state.creation_awaited(id).resumption_progress(id) is Pending,
        state.creation_awaited(id).creation_resumed(id) == state.creation_awaited(id),
        !state.creation_awaited(id).stranded(id),
        state.creation_awaited(id).pushed().creation_progress(id) == Progress::Ready(
            Ok::<(), Error>(()),
        ),
        !state.creation_awaited(id).pushed().stranded(id),
        state.creation_awaited(id).pushed().creation_awaited(id) == state.creation_awaited(
            id,
        ).pushed(),
        state.creation_awaited(id).pushed().resumption_progress(id) == Progress::Ready(
            Ok::<(), Error>(()),
        ),
        state.creation_awaited(id).pushed().creation_resumed(id) == state.pushed(),
{
    assert(state.creation_awaited(id).pushed().creation_resumed(id) =~= state.pushed());
}

/// The arguments of a procedure call are always accumulated in the same message.
pub proof fn law_call_buffers_reused(
    state: InterfaceState,
    call: (IpfiInteger, IpfiInteger, IpfiInteger),
)
    ensures
        state.with_call_buffer(call).call_buffer(call) == state.call_buffer(call),
        state.with_call_buffer(call).with_call_buffer(call) == state.with_call_buffer(call),
{
}

/// The arguments of a procedure call that has not been seen before are accumulated in a new
/// message, which no other call uses.
pub proof fn law_call_buffers_distinct(
    state: InterfaceState,
    call: (IpfiInteger, IpfiInteger, IpfiInteger),
    other: (IpfiInteger, IpfiInteger, IpfiInteger),
)
    requires
        state.well_formed(),
        !state.message_ids.exhausted(),
        !state.call_buffers.contains_key(call),
        state.call_buffers.contains_key(other),
        state.messages.contains_key(state.call_buffers[other]),
    ensures
        state.call_buffer(call) != state.call_buffer(other),
        state.with_call_buffer(call).call_buffer(call) != state.with_call_buffer(call).call_buffer(
            other,
        ),
        state.with_call_buffer(call).messages.contains_key(state.call_buffer(call)),
        state.with_call_buffer(call).messages.contains_key(state.call_buffer(other)),
{
    law_push_fresh(state);
}

/// If somebody receives the chunks of a message, every chunk that is terminated goes to them, in
/// order, and none of it stays in the message.
pub proof fn law_chunks_are_streamed(state: InterfaceState, id: IpfiInteger)
    requires
        state.well_formed(),
        state.refusal(id) is None,
        state.listening(state.messages[id].sender),
    ensures
        ({
            let message = state.messages[id];
            let stream = message.sender->Attached_0;
            let after = state.chunk_terminated(id);
            &&& after.streams[stream] == state.streams[stream].sent(message.chunks.last())
            &&& after.messages[id].chunks == message.chunks.drop_last().push(Seq::empty())
            &&& after.messages[id].sender == message.sender
            &&& after.refusal(id) is None
        }),
{
}

/// Terminating a message whose chunks somebody receives sends them the last of it, ends their
/// stream, and deletes the message.
pub proof fn law_termination_ends_stream(state: InterfaceState, id: IpfiInteger)
    requires
        state.well_formed(),
        state.refusal(id) is None,
        state.listening(state.messages[id].sender),
    ensures
        ({
            let message = state.messages[id];
            let stream = message.sender->Attached_0;
            let after = state.terminated(id);
            &&& !after.messages.contains_key(id)
            &&& !after.message_ids.in_use(id)
            &&& after.streams[stream] == state.streams[stream].sent(
                message.chunks.last(),
            ).orphaned(CompleteLockState::Complete)
        }),
{
    let message = state.messages[id];
    let sent = state.completed(id).sent(message.sender->Attached_0, message.chunks.last());
    lemma_replaced_well_formed(state, id, message.completed());
    law_pop_recycles(sent, id);
}

/// What is received from a stream is what was sent to it, in the order in which it was sent: the
/// oldest chunk first, and nothing of what remains is lost. Once the message has been completed,
/// the end of the stream is reported after the last chunk.
pub proof fn law_received_in_order(state: InterfaceState, receiver: ReceiverState)
    requires
        state.streams.contains_key(receiver.stream),
    ensures
        ({
            let queue = state.streams[receiver.stream].queue;
            &&& queue.len() > 0 ==> state.receive_progress(receiver) == Progress::Ready(
                Ok::<Option<Seq<u8>>, Error>(Some(queue[0])),
            )
            &&& queue.len() > 0 ==> state.received(receiver).streams[receiver.stream].queue
                == queue.skip(1)
            &&& queue.len() == 0 && !state.streams[receiver.stream].open && !(state.receiver_lock(
                receiver,
            ) is Poisoned) ==> state.receive_progress(receiver) == Progress::Ready(
                Ok::<Option<Seq<u8>>, Error>(None),
            )
            &&& queue.len() == 0 && state.receiver_lock(receiver) is Poisoned
                ==> state.receive_progress(receiver) == Progress::Ready(
                Err::<Option<Seq<u8>>, Error>(Error::LockPoisoned { index: receiver.message_id }),
            )
        }),
{
}

/// After a receiver has been dropped, chunks stay in the message, which is not deleted when it is
/// terminated.
pub proof fn law_dropped_receiver_buffers(state: InterfaceState, id: IpfiInteger)
    requires
        state.well_formed(),
        state.refusal(id) is None,
        state.messages[id].sender is Attached,
        !state.listening(state.messages[id].sender),
    ensures
        state.chunk_terminated(id).messages[id].chunks == state.messages[id].chunks.push(
            Seq::empty(),
        ),
        state.terminated(id).messages.contains_key(id),
        state.terminated(id).messages[id].chunks == state.messages[id].chunks,
        state.terminated(id).messages[id].sender is Released,
        state.terminated(id).message_progress(id) == Progress::Ready(Ok::<(), Error>(())),
{
}

/// An interface never gives two wires the same identifier at the same time, until there are none
/// left.
pub proof fn law_wire_ids_unique(state: InterfaceState)
    requires
        state.wire_ids.sound(),
        !state.wire_ids.exhausted(),
    ensures
        !state.wire_ids.in_use(state.wire_ids.upcoming()),
        state.wire_ids.advanced().in_use(state.wire_ids.upcoming()),
        state.wire_ids.advanced().sound(),
{
    law_identifiers_unique(state.wire_ids);
}

/// Executing a procedure call gives it exactly the arguments that were accumulated for it, and uses
/// them up: neither they nor the call can be found afterwards.
pub proof fn law_call_uses_up_arguments(
    state: InterfaceState,
    call: (IpfiInteger, IpfiInteger, IpfiInteger),
)
    requires
        state.well_formed(),
        state.procedures.contains_key(call.0),
        state.call_buffers.contains_key(call),
        state.messages.contains_key(state.call_buffers[call]),
        state.messages[state.call_buffers[call]].lock is Complete,
    ensures
        ({
            let buffer = state.call_buffers[call];
            &&& state.call_result(call) matches Ok(executed) && executed.args
                == state.messages[buffer].chunks[0] && executed.args_buf_idx == buffer
                && executed.procedure == state.procedures[call.0]
            &&& !state.call_started(call).call_buffers.contains_key(call)
            &&& !state.call_started(call).call_finished(
                state.call_result(call)->Ok_0,
                false,
            ).messages.contains_key(buffer)
        }),
{
}

} // verus!
