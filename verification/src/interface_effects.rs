//! What each operation on an interface changes, and what it leaves alone.
use crate::complete_lock::CompleteLockState;
use crate::error::Error;
use crate::interface::{
    deserialised, serial_after, ArgumentFormat, CallState, InterfaceState, PendingCall, Procedure,
    ProcedureKind, Progress, ReceiverState,
};
use crate::message::{BufferState, ChunkSender, StreamState};
use crate::pack::{framed, Unpack};
use crate::types::IpfiInteger;
use vstd::prelude::*;

verus! {

broadcast use crate::message::group_view_lemmas;

/// A new interface has nothing on it, and hands out identifiers from the start.
pub proof fn law_new_interface_is_empty(
    id: IpfiInteger,
    call: (IpfiInteger, IpfiInteger, IpfiInteger),
    stream: u64,
)
    ensures
        !InterfaceState::initial().messages.contains_key(id),
        !InterfaceState::initial().creation_locks.contains_key(id),
        !InterfaceState::initial().procedures.contains_key(id),
        !InterfaceState::initial().call_buffers.contains_key(call),
        !InterfaceState::initial().streams.contains_key(stream),
        InterfaceState::initial().message_ids.free.len() == 0,
        InterfaceState::initial().message_ids.counter == 0,
        InterfaceState::initial().wire_ids.free.len() == 0,
        InterfaceState::initial().wire_ids.counter == 0,
        InterfaceState::initial().next_serial == 0,
{
}

/// Serial numbers count up, and start over once there are no more of them.
pub proof fn law_serials_count_up(serial: u64)
    ensures
        serial < u64::MAX ==> serial_after(serial) == serial + 1,
        serial == u64::MAX ==> serial_after(serial) == 0,
{
}

/// Creating a message creates one empty, incomplete message under an identifier that was waiting
/// to be reused, or else under a new one. Whoever waits for it to be created sees that it was.
/// Whoever received the chunks of a message that it replaces gets no more of them. Nothing else
/// changes.
pub proof fn law_push_effect(state: InterfaceState, other: IpfiInteger, stream: u64)
    ensures
        ({
            let after = state.pushed();
            let id = if state.message_ids.free.len() > 0 {
                state.message_ids.free[0]
            } else {
                state.message_ids.counter
            };
            let replaced = state.messages[id];
            &&& id == state.message_ids.upcoming()
            &&& after.messages.dom() == state.messages.dom().insert(id)
            &&& after.messages[id].chunks.len() == 1
            &&& after.messages[id].chunks[0].len() == 0
            &&& after.messages[id].lock is Incomplete
            &&& after.messages[id].sender is Absent
            &&& after.messages[id].serial == state.next_serial
            &&& other != id ==> after.messages[other] == state.messages[other]
            &&& state.message_ids.free.len() > 0 ==> after.message_ids.counter
                == state.message_ids.counter && seq![id] + after.message_ids.free
                == state.message_ids.free
            &&& state.message_ids.free.len() == 0 ==> after.message_ids.free.len() == 0 && (
            after.message_ids.counter == id + 1 || id == IpfiInteger::MAX
                && after.message_ids.counter == 0)
            &&& after.next_serial == state.next_serial + 1 || state.next_serial == u64::MAX
                && after.next_serial == 0
            &&& after.creation_locks.dom() == state.creation_locks.dom()
            &&& state.creation_locks.contains_key(id) ==> after.creation_locks[id] is Complete
            &&& other != id ==> after.creation_locks[other] == state.creation_locks[other]
            &&& after.streams.dom() == state.streams.dom()
            &&& state.streams.contains_key(stream) ==> after.streams[stream] == (
            if state.messages.contains_key(id) && replaced.sender == ChunkSender::Attached(stream) {
                StreamState {
                    queue: state.streams[stream].queue,
                    open: false,
                    lock: replaced.lock,
                }
            } else {
                state.streams[stream]
            })
            &&& after.procedures == state.procedures
            &&& after.call_buffers == state.call_buffers
            &&& after.wire_ids == state.wire_ids
        }),
{
    let after = state.pushed();
    let id = state.message_ids.upcoming();
    assert(after.messages.dom() =~= state.messages.dom().insert(id));
    assert(after.creation_locks.dom() =~= state.creation_locks.dom());
    assert(after.streams.dom() =~= state.streams.dom());
    if state.message_ids.free.len() > 0 {
        assert(seq![id] + after.message_ids.free =~= state.message_ids.free);
    }
}

/// Deleting a message that exists makes its identifier the last of those that wait to be reused.
/// Whoever received its chunks gets no more of them. Nothing else changes, and deleting a message
/// that does not exist changes nothing at all.
pub proof fn law_pop_effect(
    state: InterfaceState,
    id: IpfiInteger,
    other: IpfiInteger,
    stream: u64,
)
    ensures
        !state.messages.contains_key(id) ==> state.popped(id) == state,
        state.messages.contains_key(id) ==> {
            let after = state.popped(id);
            let message = state.messages[id];
            &&& after.messages.dom() == state.messages.dom().remove(id)
            &&& other != id ==> after.messages[other] == state.messages[other]
            &&& after.message_ids.counter == state.message_ids.counter
            &&& after.message_ids.free.len() == state.message_ids.free.len() + 1
            &&& after.message_ids.free.drop_last() == state.message_ids.free
            &&& after.message_ids.free.last() == id
            &&& after.streams.dom() == state.streams.dom()
            &&& state.streams.contains_key(stream) ==> after.streams[stream] == (
            if message.sender == ChunkSender::Attached(stream) {
                StreamState {
                    queue: state.streams[stream].queue,
                    open: false,
                    lock: message.lock,
                }
            } else {
                state.streams[stream]
            })
            &&& after.creation_locks == state.creation_locks
            &&& after.procedures == state.procedures
            &&& after.call_buffers == state.call_buffers
            &&& after.wire_ids == state.wire_ids
            &&& after.next_serial == state.next_serial
        },
{
    if state.messages.contains_key(id) {
        let after = state.popped(id);
        assert(after.messages.dom() =~= state.messages.dom().remove(id));
        assert(after.message_ids.free.drop_last() =~= state.message_ids.free);
        assert(after.streams.dom() =~= state.streams.dom());
    }
}

/// A message can be written to if and only if it exists and has not been completed.
pub proof fn law_refusal_effect(state: InterfaceState, id: IpfiInteger)
    ensures
        state.refusal(id) is None <==> state.messages.contains_key(id) && !(
        state.messages[id].lock is Complete),
        !state.messages.contains_key(id) <==> state.refusal(id) == Some(
            Error::OutOfBounds { index: id },
        ),
        state.messages.contains_key(id) && state.messages[id].lock is Complete
            <==> state.refusal(id) == Some(Error::AlreadyCompleted { index: id }),
{
}

/// Writing to a message puts the bytes at the end of its last chunk. Nothing else changes.
pub proof fn law_append_effect(
    state: InterfaceState,
    id: IpfiInteger,
    data: Seq<u8>,
    other: IpfiInteger,
)
    requires
        state.messages.contains_key(id),
        state.messages[id].chunks.len() > 0,
    ensures
        ({
            let after = state.appended(id, data);
            let chunks = after.messages[id].chunks;
            &&& after == (InterfaceState { messages: after.messages, ..state })
            &&& after.messages.dom() == state.messages.dom()
            &&& other != id ==> after.messages[other] == state.messages[other]
            &&& chunks.len() == state.messages[id].chunks.len()
            &&& chunks.drop_last() == state.messages[id].chunks.drop_last()
            &&& chunks.last() == state.messages[id].chunks.last() + data
            &&& after.messages[id].lock == state.messages[id].lock
            &&& after.messages[id].serial == state.messages[id].serial
            &&& after.messages[id].sender == state.messages[id].sender
        }),
{
    let after = state.appended(id, data);
    assert(after.messages.dom() =~= state.messages.dom());
    assert(after.messages[id].chunks.drop_last() =~= state.messages[id].chunks.drop_last());
}

/// Completing a message marks it as complete. Nothing else changes.
pub proof fn law_complete_effect(state: InterfaceState, id: IpfiInteger, other: IpfiInteger)
    requires
        state.messages.contains_key(id),
    ensures
        ({
            let after = state.completed(id);
            &&& after == (InterfaceState { messages: after.messages, ..state })
            &&& after.messages.dom() == state.messages.dom()
            &&& other != id ==> after.messages[other] == state.messages[other]
            &&& after.messages[id] == (BufferState {
                lock: CompleteLockState::Complete,
                ..state.messages[id]
            })
        }),
{
    assert(state.completed(id).messages.dom() =~= state.messages.dom());
}

/// Terminating a message that nobody receives the chunks of marks it as complete, and nothing else
/// changes but that there will be no stream for it any more if there was one.
pub proof fn law_terminate_effect(state: InterfaceState, id: IpfiInteger, other: IpfiInteger)
    requires
        state.messages.contains_key(id),
        forall|stream: u64| #[trigger]
            state.streams.contains_key(stream) ==> state.messages[id].sender
                != ChunkSender::Attached(stream),
    ensures
        ({
            let after = state.terminated(id);
            let message = state.messages[id];
            &&& after == (InterfaceState { messages: after.messages, ..state })
            &&& after.messages.dom() == state.messages.dom()
            &&& other != id ==> after.messages[other] == state.messages[other]
            &&& after.messages[id].lock is Complete
            &&& after.messages[id].chunks == message.chunks
            &&& after.messages[id].serial == message.serial
            &&& after.messages[id].sender is Absent <==> message.sender is Absent
            &&& after.messages[id].sender is Released <==> !(message.sender is Absent)
        }),
{
    assert(state.terminated(id).messages.dom() =~= state.messages.dom());
}

/// Terminating a message that somebody receives the chunks of sends them the last one, and deletes
/// the message. Nothing else changes.
pub proof fn law_terminate_streamed_effect(
    state: InterfaceState,
    id: IpfiInteger,
    stream: u64,
    other: IpfiInteger,
    other_stream: u64,
)
    requires
        state.messages.contains_key(id),
        state.messages[id].sender == ChunkSender::Attached(stream),
        state.streams.contains_key(stream),
    ensures
        ({
            let after = state.terminated(id);
            &&& after == (InterfaceState {
                messages: after.messages,
                message_ids: after.message_ids,
                streams: after.streams,
                ..state
            })
            &&& after.messages.dom() == state.messages.dom().remove(id)
            &&& other != id ==> after.messages[other] == state.messages[other]
            &&& after.message_ids.counter == state.message_ids.counter
            &&& after.message_ids.free == state.message_ids.free.push(id)
            &&& after.streams.dom() == state.streams.dom()
            &&& other_stream != stream ==> after.streams[other_stream]
                == state.streams[other_stream]
            &&& after.streams[stream].queue == state.streams[stream].queue.push(
                state.messages[id].chunks.last(),
            )
            &&& !after.streams[stream].open
            &&& after.streams[stream].lock is Complete
        }),
{
    let after = state.terminated(id);
    assert(after.messages.dom() =~= state.messages.dom().remove(id));
    assert(after.streams.dom() =~= state.streams.dom());
}

/// Terminating a chunk of a message that nobody receives the chunks of starts an empty one behind
/// those that are there. Nothing else changes.
pub proof fn law_terminate_chunk_effect(state: InterfaceState, id: IpfiInteger, other: IpfiInteger)
    requires
        state.messages.contains_key(id),
        state.messages[id].chunks.len() > 0,
        forall|stream: u64| #[trigger]
            state.streams.contains_key(stream) ==> state.messages[id].sender
                != ChunkSender::Attached(stream),
    ensures
        ({
            let after = state.chunk_terminated(id);
            &&& after == (InterfaceState { messages: after.messages, ..state })
            &&& after.messages.dom() == state.messages.dom()
            &&& other != id ==> after.messages[other] == state.messages[other]
            &&& after.messages[id] == (BufferState {
                chunks: state.messages[id].chunks.push(Seq::empty()),
                ..state.messages[id]
            })
        }),
{
    assert(state.chunk_terminated(id).messages.dom() =~= state.messages.dom());
}

/// Terminating a chunk of a message that somebody receives the chunks of sends it to them, and
/// leaves an empty one in its place. Nothing else changes.
pub proof fn law_terminate_streamed_chunk_effect(
    state: InterfaceState,
    id: IpfiInteger,
    stream: u64,
    other: IpfiInteger,
    other_stream: u64,
)
    requires
        state.messages.contains_key(id),
        state.messages[id].chunks.len() > 0,
        state.messages[id].sender == ChunkSender::Attached(stream),
        state.streams.contains_key(stream),
    ensures
        ({
            let after = state.chunk_terminated(id);
            let chunks = state.messages[id].chunks;
            &&& after == (InterfaceState {
                messages: after.messages,
                streams: after.streams,
                ..state
            })
            &&& after.messages.dom() == state.messages.dom()
            &&& other != id ==> after.messages[other] == state.messages[other]
            &&& after.messages[id] == (BufferState {
                chunks: chunks.update(chunks.len() - 1, Seq::empty()),
                ..state.messages[id]
            })
            &&& after.streams.dom() == state.streams.dom()
            &&& other_stream != stream ==> after.streams[other_stream]
                == state.streams[other_stream]
            &&& after.streams[stream] == (StreamState {
                queue: state.streams[stream].queue.push(chunks.last()),
                ..state.streams[stream]
            })
        }),
{
    let after = state.chunk_terminated(id);
    let chunks = state.messages[id].chunks;
    assert(after.messages.dom() =~= state.messages.dom());
    assert(after.streams.dom() =~= state.streams.dom());
    assert(after.messages[id].chunks =~= chunks.update(chunks.len() - 1, Seq::empty()));
}

/// Poisoning the lock of a message that is not complete poisons it, as long as the message is the
/// one whose lock was meant. Nothing else changes, and otherwise nothing changes at all.
pub proof fn law_poison_effect(
    state: InterfaceState,
    id: IpfiInteger,
    serial: u64,
    other: IpfiInteger,
)
    ensures
        ({
            let after = state.poisoned(id, serial);
            let meant = state.messages.contains_key(id) && state.messages[id].serial == serial;
            &&& after == (InterfaceState { messages: after.messages, ..state })
            &&& after.messages.dom() == state.messages.dom()
            &&& other != id ==> after.messages[other] == state.messages[other]
            &&& !meant || state.messages[id].lock is Complete ==> after.messages[id]
                == state.messages[id]
            &&& meant && !(state.messages[id].lock is Complete) ==> after.messages[id] == (
            BufferState { lock: CompleteLockState::Poisoned, ..state.messages[id] })
        }),
{
    assert(state.poisoned(id, serial).messages.dom() =~= state.messages.dom());
}

/// Waiting for a message that exists depends on its completion lock alone: it is over without an
/// error if and only if the lock is complete, over with an error if and only if the lock is
/// poisoned, and not over if and only if the lock is incomplete, whatever the message holds.
pub proof fn law_waiting_follows_lock(state: InterfaceState, id: IpfiInteger)
    requires
        state.messages.contains_key(id),
    ensures
        state.message_progress(id) == Progress::Ready(Ok::<(), Error>(()))
            <==> state.messages[id].lock is Complete,
        state.message_progress(id) is Pending <==> state.messages[id].lock is Incomplete,
        state.message_progress(id) == Progress::Ready(
            Err::<(), Error>(Error::LockPoisoned { index: id }),
        ) <==> state.messages[id].lock is Poisoned,
        state.creation_progress(id) == Progress::Ready(Ok::<(), Error>(())),
        state.creation_awaited(id) == state,
        !state.stranded(id),
{
}

/// Waiting for a message that does not exist depends on its creation lock alone, and is the same
/// as waiting for it to be created: there is nothing to see before that. Whoever waits leaves a
/// lock behind, and only a lock that was completed is removed.
pub proof fn law_waiting_for_creation(state: InterfaceState, id: IpfiInteger, other: IpfiInteger)
    requires
        !state.messages.contains_key(id),
    ensures
        ({
            let locked = state.creation_locks.contains_key(id);
            let lock = state.creation_locks[id];
            let after = state.creation_awaited(id);
            &&& state.stranded(id) <==> locked && lock is Complete
            &&& state.creation_progress(id) is Pending <==> !locked || lock is Incomplete
            &&& state.creation_progress(id) == Progress::Ready(Ok::<(), Error>(()))
                <==> state.stranded(id)
            &&& state.creation_progress(id) == Progress::Ready(
                Err::<(), Error>(Error::LockPoisoned { index: id }),
            ) <==> locked && lock is Poisoned
            &&& !state.stranded(id) ==> state.message_progress(id) == state.creation_progress(id)
            &&& after == (InterfaceState { creation_locks: after.creation_locks, ..state })
            &&& other != id ==> (after.creation_locks.contains_key(other)
                <==> state.creation_locks.contains_key(other))
            &&& other != id ==> after.creation_locks[other] == state.creation_locks[other]
            &&& state.stranded(id) <==> !after.creation_locks.contains_key(id)
            &&& !locked ==> after.creation_locks[id] is Incomplete
            &&& locked && !(lock is Complete) ==> after.creation_locks[id] == lock
            &&& after.creation_progress(id) is Pending <==> state.creation_progress(id) is Pending
                || state.stranded(id)
        }),
{
}

/// Whoever is already waiting for a message to be created goes on waiting if and only if its
/// creation lock is there and incomplete. A completed lock is removed once it has been seen, and
/// nothing else changes.
pub proof fn law_resuming_effect(state: InterfaceState, id: IpfiInteger, other: IpfiInteger)
    ensures
        ({
            let locked = state.creation_locks.contains_key(id);
            let lock = state.creation_locks[id];
            let after = state.creation_resumed(id);
            &&& state.resumption_progress(id) is Pending <==> locked && lock is Incomplete
            &&& state.resumption_progress(id) == Progress::Ready(
                Err::<(), Error>(Error::LockPoisoned { index: id }),
            ) <==> locked && lock is Poisoned
            &&& state.resumption_progress(id) == Progress::Ready(Ok::<(), Error>(())) <==> (locked
                ==> lock is Complete)
            &&& after == (InterfaceState { creation_locks: after.creation_locks, ..state })
            &&& after.creation_locks.contains_key(id) <==> locked && !(lock is Complete)
            &&& other != id ==> (after.creation_locks.contains_key(other)
                <==> state.creation_locks.contains_key(other))
            &&& locked && !(lock is Complete) || other != id ==> after.creation_locks[other]
                == state.creation_locks[other]
        }),
{
}

/// Neither writing to a message nor terminating a chunk of it ends anybody's waiting for it, and
/// neither does whatever happens to another message. Completing it does.
pub proof fn law_only_completion_ends_waiting(
    state: InterfaceState,
    id: IpfiInteger,
    data: Seq<u8>,
    other: IpfiInteger,
)
    requires
        state.messages.contains_key(id),
        state.message_progress(id) is Pending,
    ensures
        state.appended(id, data).message_progress(id) is Pending,
        state.chunk_terminated(id).message_progress(id) is Pending,
        state.streaming(id).message_progress(id) is Pending,
        state.completed(id).message_progress(id) == Progress::Ready(Ok::<(), Error>(())),
        state.messages.contains_key(other) && other != id ==> {
            &&& state.appended(other, data).message_progress(id) is Pending
            &&& state.chunk_terminated(other).message_progress(id) is Pending
            &&& state.terminated(other).message_progress(id) is Pending
            &&& state.completed(other).message_progress(id) is Pending
            &&& state.popped(other).message_progress(id) is Pending
        },
{
}

/// Nothing that can still happen to a completed message without deleting it makes anybody wait for
/// it again.
pub proof fn law_completion_stays_visible(state: InterfaceState, id: IpfiInteger, serial: u64)
    requires
        state.messages.contains_key(id),
        state.message_progress(id) == Progress::Ready(Ok::<(), Error>(())),
    ensures
        state.refusal(id) == Some(Error::AlreadyCompleted { index: id }),
        state.poisoned(id, serial) == state,
        state.creation_awaited(id) == state,
{
    assert(state.poisoned(id, serial) =~= state);
}

/// The arguments of a call are accumulated in one message: the one that was created when they were
/// first asked for.
pub proof fn law_call_buffer_effect(
    state: InterfaceState,
    call: (IpfiInteger, IpfiInteger, IpfiInteger),
    other: (IpfiInteger, IpfiInteger, IpfiInteger),
)
    ensures
        ({
            let after = state.with_call_buffer(call);
            &&& state.call_buffers.contains_key(call) ==> after == state && state.call_buffer(call)
                == state.call_buffers[call]
            &&& !state.call_buffers.contains_key(call) ==> {
                &&& state.call_buffer(call) == state.message_ids.upcoming()
                &&& after == (InterfaceState {
                    call_buffers: after.call_buffers,
                    ..state.pushed()
                })
                &&& after.call_buffers.dom() == state.call_buffers.dom().insert(call)
                &&& after.call_buffers[call] == state.message_ids.upcoming()
            }
            &&& other != call ==> (after.call_buffers.contains_key(other)
                <==> state.call_buffers.contains_key(other)) && after.call_buffers[other]
                == state.call_buffers[other]
            &&& after.call_buffer(call) == state.call_buffer(call)
            &&& after.with_call_buffer(call) == after
        }),
{
    let after = state.with_call_buffer(call);
    if !state.call_buffers.contains_key(call) {
        assert(after.call_buffers.dom() =~= state.call_buffers.dom().insert(call));
    }
}

/// Forgetting a call deletes the message with its arguments, and nothing but that. Forgetting one
/// that nothing was accumulated for changes nothing.
pub proof fn law_call_dropped_effect(
    state: InterfaceState,
    call: (IpfiInteger, IpfiInteger, IpfiInteger),
    other: (IpfiInteger, IpfiInteger, IpfiInteger),
)
    ensures
        !state.call_buffers.contains_key(call) ==> state.call_dropped(call) == state,
        state.call_buffers.contains_key(call) ==> {
            let after = state.call_dropped(call);
            let popped = state.popped(state.call_buffers[call]);
            &&& after.call_buffers.dom() == state.call_buffers.dom().remove(call)
            &&& other != call ==> after.call_buffers[other] == state.call_buffers[other]
            &&& after == (InterfaceState { call_buffers: after.call_buffers, ..popped })
            &&& !after.messages.contains_key(state.call_buffers[call])
        },
{
    if state.call_buffers.contains_key(call) {
        let after = state.call_dropped(call);
        let popped = state.popped(state.call_buffers[call]);
        assert(after.call_buffers.dom() =~= state.call_buffers.dom().remove(call));
        assert(after =~= (InterfaceState { call_buffers: after.call_buffers, ..popped }));
    }
}

/// Forgetting several calls is forgetting one after the other.
pub proof fn law_calls_dropped_effect(
    state: InterfaceState,
    calls: Seq<(IpfiInteger, IpfiInteger)>,
    call: (IpfiInteger, IpfiInteger),
    wire: IpfiInteger,
)
    ensures
        state.calls_dropped(Seq::empty(), wire) == state,
        state.calls_dropped(calls.push(call), wire) == state.calls_dropped(
            calls,
            wire,
        ).call_dropped((call.0, call.1, wire)),
{
    assert(calls.push(call).drop_last() =~= calls);
}

/// Registering a procedure makes it the one with its index. Nothing else changes.
pub proof fn law_procedure_effect(
    state: InterfaceState,
    idx: IpfiInteger,
    procedure: Procedure,
    other: IpfiInteger,
)
    ensures
        ({
            let after = state.with_procedure(idx, procedure);
            &&& after == (InterfaceState { procedures: after.procedures, ..state })
            &&& after.procedures.dom() == state.procedures.dom().insert(idx)
            &&& after.procedures[idx] == procedure
            &&& other != idx ==> after.procedures[other] == state.procedures[other]
        }),
{
    let after = state.with_procedure(idx, procedure);
    assert(after.procedures.dom() =~= state.procedures.dom().insert(idx));
}

/// Starting a call takes the message with its arguments away from it, so that nothing more can be
/// accumulated there. The message stays.
pub proof fn law_call_started_effect(
    state: InterfaceState,
    call: (IpfiInteger, IpfiInteger, IpfiInteger),
    other: (IpfiInteger, IpfiInteger, IpfiInteger),
)
    ensures
        ({
            let after = state.call_started(call);
            let prepared = state.with_call_buffer(call);
            &&& after == (InterfaceState { call_buffers: after.call_buffers, ..prepared })
            &&& !after.call_buffers.contains_key(call)
            &&& other != call ==> (after.call_buffers.contains_key(other)
                <==> state.call_buffers.contains_key(other)) && after.call_buffers[other]
                == state.call_buffers[other]
            &&& state.call_buffers.contains_key(call) ==> after.messages == state.messages
        }),
{
}

/// A call can be executed if and only if there is a procedure with its index and the message with
/// its arguments is complete. It then is a call of that procedure, with the first chunk of that
/// message as its arguments.
pub proof fn law_call_result_effect(
    state: InterfaceState,
    call: (IpfiInteger, IpfiInteger, IpfiInteger),
)
    requires
        state.call_buffers.contains_key(call),
    ensures
        ({
            let buffer = state.call_buffers[call];
            let known = state.procedures.contains_key(call.0);
            let held = state.messages.contains_key(buffer);
            let lock = state.messages[buffer].lock;
            let result = state.call_result(call);
            &&& result is Ok <==> known && held && lock is Complete
            &&& result matches Ok(started) ==> {
                &&& started.procedure_idx == call.0
                &&& started.call_idx == call.1
                &&& started.args_buf_idx == buffer
                &&& started.procedure == state.procedures[call.0]
                &&& started.args == state.messages[buffer].chunks[0]
            }
            &&& result == Err::<CallState, Error>(Error::NoSuchProcedure { index: call.0 })
                <==> !known
            &&& result == Err::<CallState, Error>(Error::NoCallBuffer { index: buffer }) <==> known
                && !held
            &&& result == Err::<CallState, Error>(Error::CallBufferIncomplete { index: buffer })
                <==> known && held && lock is Incomplete
            &&& result == Err::<CallState, Error>(Error::CallBufferPoisoned { index: buffer })
                <==> known && held && lock is Poisoned
        }),
{
}

/// A call that no arguments were accumulated for cannot be executed: the message that is created
/// for them is not complete.
pub proof fn law_call_without_buffer(
    state: InterfaceState,
    call: (IpfiInteger, IpfiInteger, IpfiInteger),
)
    requires
        !state.call_buffers.contains_key(call),
    ensures
        state.call_result(call) == Err::<CallState, Error>(
            if state.procedures.contains_key(call.0) {
                Error::CallBufferIncomplete { index: state.message_ids.upcoming() }
            } else {
                Error::NoSuchProcedure { index: call.0 }
            },
        ),
{
}

/// Once a call has been executed, the message with its arguments is deleted, unless the procedure
/// was a streaming one and failed: then nothing changes.
pub proof fn law_call_finished_effect(state: InterfaceState, call: CallState, failed: bool)
    ensures
        failed && call.procedure.kind == ProcedureKind::Streaming ==> state.call_finished(
            call,
            failed,
        ) == state,
        !failed || call.procedure.kind == ProcedureKind::Standard ==> state.call_finished(
            call,
            failed,
        ) == state.popped(call.args_buf_idx),
{
}

/// What is handed out of a call says what the call is.
pub proof fn law_pending_call_is_told(call: PendingCall)
    ensures
        call@.procedure_idx == call.procedure_idx.0,
        call@.call_idx == call.call_idx.0,
        call@.args_buf_idx == call.args_buf_idx,
        call@.procedure == call.procedure,
        call@.args == call.args@,
{
}

/// Raw procedures get their arguments as they are, and others get them behind a length marker:
/// that of their number of arguments, whatever the bytes are.
pub proof fn law_arguments_effect(call: CallState, len: u32)
    ensures
        call.procedure.format == ArgumentFormat::Raw ==> call.arguments() == call.args,
        call.procedure.format == ArgumentFormat::Tuple(len) ==> call.arguments() == framed(
            len,
            call.args,
        ),
{
}

/// Attaching a stream to a message makes a new, empty, one that its chunks go to from then on. The
/// one that they went to before gets no more of them. Nothing else changes.
pub proof fn law_streaming_effect(
    state: InterfaceState,
    id: IpfiInteger,
    other: IpfiInteger,
    stream: u64,
)
    requires
        state.messages.contains_key(id),
    ensures
        ({
            let after = state.streaming(id);
            let new = state.next_serial;
            &&& after == (InterfaceState {
                messages: after.messages,
                streams: after.streams,
                next_serial: after.next_serial,
                ..state
            })
            &&& after.messages.dom() == state.messages.dom()
            &&& other != id ==> after.messages[other] == state.messages[other]
            &&& after.messages[id] == (BufferState {
                sender: ChunkSender::Attached(new),
                ..state.messages[id]
            })
            &&& after.streams.dom() == state.streams.dom().insert(new)
            &&& after.streams[new].queue.len() == 0
            &&& after.streams[new].open
            &&& after.streams[new].lock is Incomplete
            &&& stream != new && state.streams.contains_key(stream) ==> after.streams[stream] == (
            if state.messages[id].sender == ChunkSender::Attached(stream) {
                StreamState { open: false, ..state.streams[stream] }
            } else {
                state.streams[stream]
            })
            &&& after.next_serial == state.next_serial + 1 || state.next_serial == u64::MAX
                && after.next_serial == 0
        }),
{
    let after = state.streaming(id);
    assert(after.messages.dom() =~= state.messages.dom());
    assert(after.streams.dom() =~= state.streams.dom().insert(state.next_serial));
}

/// A receiver gets the chunks of its stream, the oldest first, for as long as there are any. After
/// that, it gets an error if and only if the lock that it keeps an eye on is poisoned, and has to
/// wait if and only if more chunks may follow. Nothing changes but that the chunk is gone.
pub proof fn law_receiving_effect(state: InterfaceState, receiver: ReceiverState, other: u64)
    ensures
        ({
            let there = state.streams.contains_key(receiver.stream);
            let stream = state.streams[receiver.stream];
            let message = state.messages[receiver.message_id];
            let alive = state.messages.contains_key(receiver.message_id) && message.serial
                == receiver.serial;
            let poisoned = if alive {
                message.lock is Poisoned
            } else {
                stream.lock is Poisoned
            };
            let progress = state.receive_progress(receiver);
            let after = state.received(receiver);
            &&& there && stream.queue.len() > 0 ==> {
                &&& progress == Progress::Ready(Ok::<Option<Seq<u8>>, Error>(Some(stream.queue[0])))
                &&& after.streams.dom() == state.streams.dom()
                &&& seq![stream.queue[0]] + after.streams[receiver.stream].queue == stream.queue
                &&& after.streams[receiver.stream].open == stream.open
                &&& after.streams[receiver.stream].lock == stream.lock
            }
            &&& !there || stream.queue.len() == 0 ==> {
                &&& after == state
                &&& progress is Pending <==> there && stream.open && !poisoned
                &&& progress == Progress::Ready(Ok::<Option<Seq<u8>>, Error>(None)) <==> !there
                    || !stream.open && !poisoned
                &&& progress == Progress::Ready(
                    Err::<Option<Seq<u8>>, Error>(
                        Error::LockPoisoned { index: receiver.message_id },
                    ),
                ) <==> there && poisoned
            }
            &&& after == (InterfaceState { streams: after.streams, ..state })
            &&& other != receiver.stream ==> after.streams[other] == state.streams[other]
        }),
{
    let stream = state.streams[receiver.stream];
    let after = state.received(receiver);
    assert(after.streams.dom() =~= state.streams.dom());
    if state.streams.contains_key(receiver.stream) && stream.queue.len() > 0 {
        assert(seq![stream.queue[0]] + after.streams[receiver.stream].queue =~= stream.queue);
    }
}

/// A list of values stands for a list of chunks if and only if each stands for the one at its
/// place and none is left over.
pub proof fn law_deserialised_in_order<T: Unpack>(
    chunks: Seq<Seq<u8>>,
    values: Seq<T>,
    chunk: Seq<u8>,
    value: T,
)
    ensures
        deserialised(Seq::<Seq<u8>>::empty(), Seq::<T>::empty()),
        deserialised(chunks, values) ==> chunks.len() == values.len(),
        chunks.len() == values.len() ==> (deserialised(chunks.push(chunk), values.push(value))
            <==> deserialised(chunks, values) && T::unpacked(chunk) == Some(value@)),
{
    let longer = chunks.push(chunk);
    let more = values.push(value);
    if chunks.len() == values.len() {
        if deserialised(longer, more) {
            assert(T::unpacked(longer[chunks.len() as int]) == Some(more[chunks.len() as int]@));
            assert forall|i: int| 0 <= i < chunks.len() implies #[trigger] T::unpacked(chunks[i])
                == Some(values[i]@) by {
                assert(T::unpacked(longer[i]) == Some(more[i]@));
            }
        }
        if deserialised(chunks, values) && T::unpacked(chunk) == Some(value@) {
            assert forall|i: int| 0 <= i < longer.len() implies #[trigger] T::unpacked(longer[i])
                == Some(more[i]@) by {
                if i < chunks.len() {
                    assert(T::unpacked(chunks[i]) == Some(values[i]@));
                }
            }
        }
    }
}

/// Replacing a message replaces that message, and sending a chunk to a stream puts it behind those
/// that are there. Nothing else changes.
pub proof fn law_replacing_effect(
    state: InterfaceState,
    id: IpfiInteger,
    buffer: BufferState,
    stream: u64,
    chunk: Seq<u8>,
    sender: ChunkSender,
)
    ensures
        state.with_message(id, buffer) == (InterfaceState {
            messages: state.messages.insert(id, buffer),
            ..state
        }),
        state.streams.contains_key(stream) ==> state.sent(stream, chunk) == (InterfaceState {
            streams: state.streams.insert(
                stream,
                StreamState {
                    queue: state.streams[stream].queue.push(chunk),
                    open: state.streams[stream].open,
                    lock: state.streams[stream].lock,
                },
            ),
            ..state
        }),
        state.listening(ChunkSender::Attached(stream)) <==> state.streams.contains_key(stream),
        !state.listening(ChunkSender::Absent),
        !state.listening(ChunkSender::Released),
{
}

} // verus!
