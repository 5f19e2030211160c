//! What the operations on interfaces do, told by what is there before and after them.
use crate::complete_lock::CompleteLockState;
use crate::error::Error;
use crate::interface::{
    ArgumentFormat, ChunkReceiver, Interface, InterfaceState, PendingCall, Procedure,
    ProcedureKind, Progress,
};
use crate::interface_laws::law_push_fresh;
use crate::message::bytes_of;
use crate::pack::Unpack;
use crate::roi_queue::{law_identifiers_unique, law_relinquish_frees};
use crate::types::{CallIndex, IpfiInteger, ProcedureIndex, WireId};
use vstd::prelude::*;

verus! {

broadcast use crate::message::group_view_lemmas;

/// A new interface has nothing on it.
pub proof fn law_new(interface: Interface, other: Interface)
    ensures
        call_ensures(Interface::new, (), interface) ==> interface@ == InterfaceState::initial(),
        call_ensures(<Interface as Default>::default, (), other) ==> other@
            == InterfaceState::initial(),
{
}

/// The identifier that a wire gets is one that no other wire has, and from then on it has it.
/// Nothing else changes.
pub proof fn law_get_id()
    ensures
        forall|interface: &mut Interface, id: WireId| #[trigger]
            call_ensures(Interface::get_id, (interface,), id) ==> {
                let before = (*interface)@;
                let after = final(interface)@;
                &&& after == (InterfaceState { wire_ids: after.wire_ids, ..before })
                &&& after.wire_ids == before.wire_ids.advanced()
                &&& id.0 == before.wire_ids.upcoming()
                &&& before.wire_ids.sound() && !before.wire_ids.exhausted() ==> {
                    &&& !before.wire_ids.in_use(id.0)
                    &&& after.wire_ids.in_use(id.0)
                }
            },
{
    assert forall|interface: &mut Interface, id: WireId| #[trigger]
        call_ensures(Interface::get_id, (interface,), id) && (
        *interface)@.wire_ids.sound() && !(*interface)@.wire_ids.exhausted() implies {
        &&& !(*interface)@.wire_ids.in_use(id.0)
        &&& final(interface)@.wire_ids.in_use(id.0)
    } by {
        law_identifiers_unique((*interface)@.wire_ids);
    }
}

/// The identifier of a wire that is given back is free again. Nothing else changes.
pub proof fn law_relinquish_id(id: WireId)
    ensures
        forall|interface: &mut Interface| #[trigger]
            call_ensures(Interface::relinquish_id, (interface, id), ()) ==> {
                let before = (*interface)@;
                let after = final(interface)@;
                &&& after == (InterfaceState { wire_ids: after.wire_ids, ..before })
                &&& after.wire_ids == before.wire_ids.relinquished(id.0)
                &&& before.wire_ids.sound() && before.wire_ids.in_use(id.0)
                    ==> !after.wire_ids.in_use(id.0)
            },
{
    assert forall|interface: &mut Interface| #[trigger]
        call_ensures(Interface::relinquish_id, (interface, id), ()) && (
        *interface)@.wire_ids.sound() && (*interface)@.wire_ids.in_use(
            id.0,
        ) implies !final(interface)@.wire_ids.in_use(id.0) by {
        law_relinquish_frees((*interface)@.wire_ids, id.0);
    }
}

/// A message that is created is a new one, and its identifier is returned.
pub proof fn law_push()
    ensures
        forall|interface: &mut Interface, id: IpfiInteger| #[trigger]
            call_ensures(Interface::push, (interface,), id) ==> {
                let before = (*interface)@;
                let after = final(interface)@;
                &&& after == before.pushed()
                &&& id == before.message_ids.upcoming()
                &&& after.messages.contains_key(id)
                &&& after.messages[id].chunks == seq![Seq::<u8>::empty()]
                &&& after.messages[id].lock is Incomplete
                &&& before.well_formed() && !before.message_ids.exhausted()
                    ==> !before.messages.contains_key(id)
            },
{
    assert forall|interface: &mut Interface, id: IpfiInteger| #[trigger]
        call_ensures(Interface::push, (interface,), id) && (*interface)@.well_formed() && !(
        *interface)@.message_ids.exhausted() implies !(*interface)@.messages.contains_key(id) by {
        law_push_fresh((*interface)@);
    }
}

/// A procedure is registered under its index, and with what it is: one that returns at once or
/// streams, and gets its arguments as a tuple or raw.
pub proof fn law_add_procedures(idx: IpfiInteger, args_len: u32)
    ensures
        forall|interface: &mut Interface| #[trigger]
            call_ensures(Interface::add_procedure, (interface, idx, args_len), ())
                ==> final(interface)@ == (*interface)@.with_procedure(
                idx,
                Procedure {
                    kind: ProcedureKind::Standard,
                    format: ArgumentFormat::Tuple(args_len),
                },
            ),
        forall|interface: &mut Interface| #[trigger]
            call_ensures(Interface::add_sequence_procedure, (interface, idx, args_len), ())
                ==> final(interface)@ == (*interface)@.with_procedure(
                idx,
                Procedure {
                    kind: ProcedureKind::Streaming,
                    format: ArgumentFormat::Tuple(args_len),
                },
            ),
        forall|interface: &mut Interface| #[trigger]
            call_ensures(Interface::add_raw_procedure, (interface, idx), ())
                ==> final(interface)@ == (*interface)@.with_procedure(
                idx,
                Procedure { kind: ProcedureKind::Standard, format: ArgumentFormat::Raw },
            ),
        forall|interface: &mut Interface| #[trigger]
            call_ensures(Interface::add_raw_streaming_procedure, (interface, idx), ())
                ==> final(interface)@ == (*interface)@.with_procedure(
                idx,
                Procedure { kind: ProcedureKind::Streaming, format: ArgumentFormat::Raw },
            ),
{
}

/// The message that accumulates the arguments of a call is always the same one, and is there for
/// that call of that procedure over that wire only.
pub proof fn law_get_call_buffer(procedure: ProcedureIndex, call: CallIndex, wire: WireId)
    ensures
        forall|interface: &mut Interface, id: IpfiInteger| #[trigger]
            call_ensures(Interface::get_call_buffer, (interface, procedure, call, wire), id) ==> {
                let key = (procedure.0, call.0, wire.0);
                let before = (*interface)@;
                let after = final(interface)@;
                &&& after == before.with_call_buffer(key)
                &&& after.call_buffers.contains_key(key)
                &&& after.call_buffers[key] == id
                &&& before.call_buffers.contains_key(key) ==> before.call_buffers[key] == id
                    && after == before
            },
{
}

/// Forgetting a call forgets that call of that procedure over that wire.
pub proof fn law_drop_call(procedure: ProcedureIndex, call: CallIndex, wire: WireId)
    ensures
        forall|interface: &mut Interface| #[trigger]
            call_ensures(
                Interface::drop_associated_call_message,
                (interface, procedure, call, wire),
                (),
            ) ==> {
                let key = (procedure.0, call.0, wire.0);
                let after = final(interface)@;
                &&& after == (*interface)@.call_dropped(key)
                &&& !after.call_buffers.contains_key(key)
            },
{
}

/// A call is handed out if and only if its procedure is registered and its arguments are complete.
/// What is handed out is a call of that procedure, with that index, and with the bytes that were
/// accumulated for it.
pub proof fn law_call_procedure(procedure: ProcedureIndex, call: CallIndex, wire: WireId)
    ensures
        forall|interface: &mut Interface, result: Result<PendingCall, Error>| #[trigger]
            call_ensures(Interface::call_procedure, (interface, procedure, call, wire), result)
                ==> {
                let key = (procedure.0, call.0, wire.0);
                let before = (*interface)@;
                let after = final(interface)@;
                let buffer = before.call_buffers[key];
                let known = before.procedures.contains_key(procedure.0);
                &&& after == before.call_started(key)
                &&& !after.call_buffers.contains_key(key)
                &&& !known <==> result == Err::<PendingCall, Error>(
                    Error::NoSuchProcedure { index: procedure.0 },
                )
                &&& before.call_buffers.contains_key(key) ==> {
                    &&& result is Ok <==> known && before.messages.contains_key(buffer)
                        && before.messages[buffer].lock is Complete
                    &&& result matches Ok(pending) ==> {
                        &&& pending.procedure_idx == procedure
                        &&& pending.call_idx == call
                        &&& pending.args_buf_idx == buffer
                        &&& pending.procedure == before.procedures[procedure.0]
                        &&& pending.args@ == before.messages[buffer].chunks[0]
                    }
                    &&& known && !before.messages.contains_key(buffer) ==> result == Err::<
                        PendingCall,
                        Error,
                    >(Error::NoCallBuffer { index: buffer })
                    &&& known && before.messages.contains_key(buffer)
                        && before.messages[buffer].lock is Incomplete ==> result == Err::<
                        PendingCall,
                        Error,
                    >(Error::CallBufferIncomplete { index: buffer })
                    &&& known && before.messages.contains_key(buffer)
                        && before.messages[buffer].lock is Poisoned ==> result == Err::<
                        PendingCall,
                        Error,
                    >(Error::CallBufferPoisoned { index: buffer })
                }
                &&& !before.call_buffers.contains_key(key) ==> result is Err
            },
{
}

/// What comes of a call is handed on as it is. The arguments are deleted, unless the procedure is a
/// streaming one and failed.
pub proof fn law_finish_call(call: PendingCall, output: Result<Option<Vec<u8>>, Error>)
    ensures
        forall|interface: &mut Interface, result: Result<Option<Vec<u8>>, Error>| #[trigger]
            call_ensures(Interface::finish_call, (interface, call, output), result) ==> {
                let kept = output is Err && call.procedure.kind == ProcedureKind::Streaming;
                &&& result == output
                &&& kept ==> final(interface)@ == (*interface)@
                &&& !kept ==> final(interface)@ == (*interface)@.popped(call.args_buf_idx)
                &&& !kept ==> !final(interface)@.messages.contains_key(call.args_buf_idx)
            },
{
}

/// Nothing can be written to a message that does not exist, or is complete, and nothing changes
/// then. Otherwise, a byte is put at the end of the message, and a negative number completes it.
pub proof fn law_send(datum: i8, id: IpfiInteger)
    ensures
        forall|interface: &mut Interface, result: Result<bool, Error>| #[trigger]
            call_ensures(Interface::send, (interface, datum, id), result) ==> {
                let before = (*interface)@;
                let after = final(interface)@;
                let held = before.messages.contains_key(id);
                let complete = before.messages[id].lock is Complete;
                &&& result is Err <==> !held || complete
                &&& result is Err ==> after == before
                &&& !held ==> result == Err::<bool, Error>(Error::OutOfBounds { index: id })
                &&& held && complete ==> result == Err::<bool, Error>(
                    Error::AlreadyCompleted { index: id },
                )
                &&& result == Ok::<bool, Error>(true) ==> datum >= 0 && after == before.appended(
                    id,
                    seq![datum as u8],
                )
                &&& result == Ok::<bool, Error>(false) ==> datum < 0 && after == before.completed(
                    id,
                )
            },
{
}

/// Nothing can be written to a message that does not exist, or is complete, and nothing changes
/// then. Otherwise, all the bytes are put at the end of the message, in order.
pub proof fn law_send_many(data: &[u8], id: IpfiInteger)
    ensures
        forall|interface: &mut Interface, result: Result<(), Error>| #[trigger]
            call_ensures(Interface::send_many, (interface, data, id), result) ==> {
                let before = (*interface)@;
                let after = final(interface)@;
                let held = before.messages.contains_key(id);
                let complete = before.messages[id].lock is Complete;
                &&& result is Err <==> !held || complete
                &&& result is Err ==> after == before
                &&& !held ==> result == Err::<(), Error>(Error::OutOfBounds { index: id })
                &&& held && complete ==> result == Err::<(), Error>(
                    Error::AlreadyCompleted { index: id },
                )
                &&& result is Ok ==> after == before.appended(id, data@)
            },
{
}

/// It makes no difference whether a byte is sent on its own or among many.
pub proof fn law_sending_one_by_one(datum: i8, data: &[u8], id: IpfiInteger)
    requires
        datum >= 0,
        data@ == seq![datum as u8],
    ensures
        forall|
            one: &mut Interface,
            many: &mut Interface,
            one_result: Result<bool, Error>,
            many_result: Result<(), Error>,
        |
            #![trigger call_ensures(Interface::send, (one, datum, id), one_result),
                call_ensures(Interface::send_many, (many, data, id), many_result)]
            call_ensures(Interface::send, (one, datum, id), one_result) && call_ensures(
                Interface::send_many,
                (many, data, id),
                many_result,
            ) && (*one)@ == (*many)@ ==> final(one)@ == final(many)@ && (one_result is Ok
                <==> many_result is Ok),
{
}

/// A message that does not exist, or is complete, cannot be terminated, and neither can its chunks.
/// Otherwise, terminating it completes it, and terminating a chunk does not.
pub proof fn law_terminate(id: IpfiInteger)
    ensures
        forall|interface: &mut Interface, result: Result<(), Error>| #[trigger]
            call_ensures(Interface::terminate_message, (interface, id), result) ==> {
                let before = (*interface)@;
                let after = final(interface)@;
                let held = before.messages.contains_key(id);
                let complete = before.messages[id].lock is Complete;
                &&& result is Err <==> !held || complete
                &&& result is Err ==> after == before
                &&& !held ==> result == Err::<(), Error>(Error::OutOfBounds { index: id })
                &&& held && complete ==> result == Err::<(), Error>(
                    Error::AlreadyCompleted { index: id },
                )
                &&& result is Ok ==> after == before.terminated(id)
                &&& result is Ok && after.messages.contains_key(id)
                    ==> after.messages[id].lock is Complete
            },
        forall|interface: &mut Interface, result: Result<(), Error>| #[trigger]
            call_ensures(Interface::terminate_chunk, (interface, id), result) ==> {
                let before = (*interface)@;
                let after = final(interface)@;
                let held = before.messages.contains_key(id);
                let complete = before.messages[id].lock is Complete;
                &&& result is Err <==> !held || complete
                &&& result is Err ==> after == before
                &&& !held ==> result == Err::<(), Error>(Error::OutOfBounds { index: id })
                &&& held && complete ==> result == Err::<(), Error>(
                    Error::AlreadyCompleted { index: id },
                )
                &&& result is Ok ==> after == before.chunk_terminated(id)
                &&& after.messages.contains_key(id) == held
                &&& after.messages[id].lock == before.messages[id].lock
            },
{
}

/// Poisoning the lock of a message poisons that lock, if it is the one that was meant.
pub proof fn law_poison(id: IpfiInteger, serial: u64)
    ensures
        forall|interface: &mut Interface| #[trigger]
            call_ensures(Interface::poison_message, (interface, id, serial), ()) ==> {
                let before = (*interface)@;
                let after = final(interface)@;
                &&& after == before.poisoned(id, serial)
                &&& before.messages.contains_key(id) && before.messages[id].serial == serial && !(
                before.messages[id].lock is Complete) ==> after.messages[id].lock is Poisoned
            },
{
}

/// Whether a message exists, and the state of its lock, can be asked without changing anything.
pub proof fn law_questions(id: IpfiInteger)
    ensures
        forall|interface: &mut Interface, stranded: bool| #[trigger]
            call_ensures(Interface::is_stranded, (interface, id), stranded) ==> {
                let before = (*interface)@;
                &&& final(interface)@ == before
                &&& stranded <==> !before.messages.contains_key(id)
                    && before.creation_locks.contains_key(id)
                    && before.creation_locks[id] is Complete
            },
        forall|interface: &mut Interface, state: Option<CompleteLockState>| #[trigger]
            call_ensures(Interface::get_complete_lock, (interface, id), state) ==> {
                let before = (*interface)@;
                &&& final(interface)@ == before
                &&& state is Some <==> before.messages.contains_key(id)
                &&& state matches Some(lock) ==> lock == before.messages[id].lock
            },
        forall|interface: &mut Interface, serial: Option<u64>| #[trigger]
            call_ensures(Interface::get_lock_serial, (interface, id), serial) ==> {
                let before = (*interface)@;
                &&& final(interface)@ == before
                &&& serial is Some <==> before.messages.contains_key(id)
                &&& serial matches Some(serial) ==> serial == before.messages[id].serial
            },
{
}

/// Waiting for a message that exists is over, without an error, if and only if its lock is
/// complete, and with one if and only if its lock is poisoned. It goes on if and only if its lock
/// is incomplete, however many bytes or chunks the message holds.
pub proof fn law_wait_for_message(id: IpfiInteger)
    ensures
        forall|interface: &mut Interface, progress: Progress<Result<(), Error>>| #[trigger]
            call_ensures(Interface::wait_for_message, (interface, id), progress) ==> {
                let before = (*interface)@;
                let lock = before.messages[id].lock;
                &&& final(interface)@ == before.creation_awaited(id)
                &&& before.messages.contains_key(id) ==> {
                    &&& final(interface)@ == before
                    &&& progress is Pending <==> lock is Incomplete
                    &&& progress == Progress::Ready(Ok::<(), Error>(())) <==> lock is Complete
                    &&& progress == Progress::Ready(
                        Err::<(), Error>(Error::LockPoisoned { index: id }),
                    ) <==> lock is Poisoned
                }
                &&& !before.messages.contains_key(id) && !before.stranded(id) ==> {
                    &&& progress == before.creation_progress(id)
                    &&& progress is Pending <==> !before.creation_locks.contains_key(id)
                        || before.creation_locks[id] is Incomplete
                }
            },
        forall|interface: &mut Interface| !(*interface)@.stranded(id) ==> #[trigger] call_requires(
            Interface::wait_for_message,
            (interface, id),
        ),
{
}

/// Waiting for a message to be created is over, without an error, if it exists. Otherwise, its
/// creation lock decides.
pub proof fn law_wait_for_creation(id: IpfiInteger)
    ensures
        forall|interface: &mut Interface, progress: Progress<Result<(), Error>>| #[trigger]
            call_ensures(Interface::wait_for_message_creation, (interface, id), progress) ==> {
                let before = (*interface)@;
                let after = final(interface)@;
                let locked = before.creation_locks.contains_key(id);
                let lock = before.creation_locks[id];
                &&& after == before.creation_awaited(id)
                &&& before.messages.contains_key(id) ==> after == before && progress
                    == Progress::Ready(Ok::<(), Error>(()))
                &&& !before.messages.contains_key(id) ==> {
                    &&& progress is Pending <==> !locked || lock is Incomplete
                    &&& progress == Progress::Ready(Ok::<(), Error>(())) <==> locked
                        && lock is Complete
                    &&& progress == Progress::Ready(
                        Err::<(), Error>(Error::LockPoisoned { index: id }),
                    ) <==> locked && lock is Poisoned
                    &&& progress is Pending ==> after.creation_locks.contains_key(id)
                        && after.creation_locks[id] is Incomplete
                }
            },
        forall|interface: &mut Interface, progress: Progress<Result<(), Error>>| #[trigger]
            call_ensures(Interface::resume_message_creation, (interface, id), progress) ==> {
                let before = (*interface)@;
                let after = final(interface)@;
                let locked = before.creation_locks.contains_key(id);
                let lock = before.creation_locks[id];
                &&& after == before.creation_resumed(id)
                &&& progress is Pending <==> locked && lock is Incomplete
                &&& progress == Progress::Ready(
                    Err::<(), Error>(Error::LockPoisoned { index: id }),
                ) <==> locked && lock is Poisoned
                &&& progress == Progress::Ready(Ok::<(), Error>(())) <==> (locked
                    ==> lock is Complete)
            },
{
}

/// A message is read if and only if waiting for it is over, and is deleted by that. What is read is
/// all of its chunks, in order.
pub proof fn law_get_raw(id: IpfiInteger)
    ensures
        forall|interface: &mut Interface, progress: Progress<Result<Vec<Vec<u8>>, Error>>|
            #[trigger]
            call_ensures(Interface::get_raw, (interface, id), progress) ==> {
                let before = (*interface)@;
                let after = final(interface)@;
                let lock = before.messages[id].lock;
                &&& before.messages.contains_key(id) ==> {
                    &&& progress is Pending <==> lock is Incomplete
                    &&& progress == Progress::Ready(
                        Err::<Vec<Vec<u8>>, Error>(Error::LockPoisoned { index: id }),
                    ) <==> lock is Poisoned
                    &&& !(lock is Complete) ==> after == before
                    &&& lock is Complete ==> {
                        &&& progress matches Progress::Ready(Ok(chunks)) && bytes_of(chunks@)
                            == before.messages[id].chunks
                        &&& after == before.popped(id)
                        &&& !after.messages.contains_key(id)
                    }
                }
                &&& !before.messages.contains_key(id) && !before.stranded(id) ==> {
                    &&& after == before.creation_awaited(id)
                    &&& !(progress matches Progress::Ready(Ok(_)))
                    &&& progress is Pending <==> before.creation_progress(id) is Pending
                }
            },
{
}

/// The value in a message is read if and only if waiting for the message is over, and the message
/// is deleted by that, even if no such value is in it. It is what the first chunk says.
pub proof fn law_get<T: Unpack>(id: IpfiInteger)
    ensures
        forall|interface: &mut Interface, progress: Progress<Result<T, Error>>| #[trigger]
            call_ensures(Interface::get::<T>, (interface, id), progress) ==> {
                let before = (*interface)@;
                let after = final(interface)@;
                let lock = before.messages[id].lock;
                let said = T::unpacked(before.messages[id].chunks[0]);
                &&& before.messages.contains_key(id) ==> {
                    &&& progress is Pending <==> lock is Incomplete
                    &&& lock is Poisoned ==> progress == Progress::Ready(
                        Err::<T, Error>(Error::LockPoisoned { index: id }),
                    )
                    &&& !(lock is Complete) ==> after == before
                    &&& lock is Complete ==> {
                        &&& after == before.popped(id)
                        &&& progress matches Progress::Ready(Ok(value)) ==> said == Some(value@)
                        &&& progress == Progress::Ready(Err::<T, Error>(Error::Decode))
                            <==> said is None
                        &&& progress matches Progress::Ready(Err(error)) ==> error == Error::Decode
                    }
                }
                &&& !before.messages.contains_key(id) && !before.stranded(id) ==> {
                    &&& after == before.creation_awaited(id)
                    &&& !(progress matches Progress::Ready(Ok(_)))
                    &&& progress is Pending <==> before.creation_progress(id) is Pending
                }
            },
{
}

/// The values in a message are read if and only if waiting for the message is over and nobody has
/// ever received its chunks. Each of them is what the chunk at its place says.
pub proof fn law_get_chunks<T: Unpack>(id: IpfiInteger)
    ensures
        forall|interface: &mut Interface, progress: Progress<Result<Option<Vec<T>>, Error>>|
            #[trigger]
            call_ensures(Interface::get_chunks::<T>, (interface, id), progress) ==> {
                let before = (*interface)@;
                let after = final(interface)@;
                let lock = before.messages[id].lock;
                let chunks = before.messages[id].chunks;
                &&& before.messages.contains_key(id) ==> {
                    &&& progress is Pending <==> lock is Incomplete
                    &&& lock is Poisoned ==> progress == Progress::Ready(
                        Err::<Option<Vec<T>>, Error>(Error::LockPoisoned { index: id }),
                    )
                    &&& !(lock is Complete) ==> after == before
                    &&& lock is Complete && before.messages[id].sender is Absent ==> {
                        &&& after == before.popped(id)
                        &&& progress matches Progress::Ready(Ok(values)) ==> {
                            &&& values is Some
                            &&& values->Some_0@.len() == chunks.len()
                            &&& forall|i: int|
                                0 <= i < chunks.len() ==> #[trigger] T::unpacked(chunks[i]) == Some(
                                    values->Some_0@[i]@,
                                )
                        }
                        &&& progress matches Progress::Ready(Err(error)) ==> error == Error::Decode
                            && exists|i: int|
                            0 <= i < chunks.len() && #[trigger] T::unpacked(chunks[i]) is None
                    }
                    &&& lock is Complete && !(before.messages[id].sender is Absent) ==> after
                        == before && progress == Progress::Ready(
                        Ok::<Option<Vec<T>>, Error>(None),
                    )
                }
                &&& !before.messages.contains_key(id) && !before.stranded(id) ==> {
                    &&& after == before.creation_awaited(id)
                    &&& !(progress matches Progress::Ready(Ok(_)))
                    &&& progress is Pending <==> before.creation_progress(id) is Pending
                }
            },
{
}

/// Whether a message has more than one chunk, and whether its chunks have ever been received, can
/// be told if and only if waiting for the message is over.
pub proof fn law_is_chunked(id: IpfiInteger)
    ensures
        forall|interface: &mut Interface, progress: Progress<Result<bool, Error>>| #[trigger]
            call_ensures(Interface::is_chunked, (interface, id), progress) ==> {
                let before = (*interface)@;
                let lock = before.messages[id].lock;
                &&& final(interface)@ == before.creation_awaited(id)
                &&& before.messages.contains_key(id) ==> {
                    &&& progress is Pending <==> lock is Incomplete
                    &&& lock is Complete ==> progress == Progress::Ready(
                        Ok::<bool, Error>(before.messages[id].chunks.len() > 1),
                    )
                    &&& lock is Poisoned ==> progress == Progress::Ready(
                        Err::<bool, Error>(Error::LockPoisoned { index: id }),
                    )
                }
                &&& !before.messages.contains_key(id) && !before.stranded(id) ==> {
                    &&& !(progress matches Progress::Ready(Ok(_)))
                    &&& progress is Pending <==> before.creation_progress(id) is Pending
                }
            },
        forall|interface: &mut Interface, progress: Progress<Result<bool, Error>>| #[trigger]
            call_ensures(Interface::has_stream, (interface, id), progress) ==> {
                let before = (*interface)@;
                let lock = before.messages[id].lock;
                &&& final(interface)@ == before.creation_awaited(id)
                &&& before.messages.contains_key(id) ==> {
                    &&& progress is Pending <==> lock is Incomplete
                    &&& lock is Complete ==> progress == Progress::Ready(
                        Ok::<bool, Error>(!(before.messages[id].sender is Absent)),
                    )
                    &&& lock is Poisoned ==> progress == Progress::Ready(
                        Err::<bool, Error>(Error::LockPoisoned { index: id }),
                    )
                }
                &&& !before.messages.contains_key(id) && !before.stranded(id) ==> {
                    &&& !(progress matches Progress::Ready(Ok(_)))
                    &&& progress is Pending <==> before.creation_progress(id) is Pending
                }
            },
{
}

/// The chunks of a message can be received as soon as it exists. What is handed out receives the
/// chunks of that message, and of no other.
pub proof fn law_get_chunk_stream(id: IpfiInteger)
    ensures
        forall|interface: &mut Interface, progress: Progress<Result<ChunkReceiver, Error>>|
            #[trigger]
            call_ensures(Interface::get_chunk_stream, (interface, id), progress) ==> {
                let before = (*interface)@;
                let after = final(interface)@;
                &&& before.messages.contains_key(id) ==> {
                    &&& after == before.streaming(id)
                    &&& progress matches Progress::Ready(Ok(receiver)) && receiver@.message_id == id
                        && receiver@.serial == before.messages[id].serial && receiver@.stream
                        == before.next_serial && receiver@.timeout_millis == 10
                }
                &&& !before.messages.contains_key(id) && !before.stranded(id) ==> {
                    &&& after == before.creation_awaited(id)
                    &&& !(progress matches Progress::Ready(Ok(_)))
                    &&& progress is Pending <==> before.creation_progress(id) is Pending
                    &&& progress matches Progress::Ready(Err(error)) ==> error
                        == Error::LockPoisoned { index: id }
                }
            },
{
}

/// A receiver is handed the oldest chunk of its stream. If there is none, it is told whether there
/// will be any, and nothing changes.
pub proof fn law_recv_raw(receiver: &ChunkReceiver)
    ensures
        forall|interface: &mut Interface, progress: Progress<Result<Option<Vec<u8>>, Error>>|
            #[trigger]
            call_ensures(Interface::recv_raw, (interface, receiver), progress) ==> {
                let before = (*interface)@;
                let after = final(interface)@;
                let there = before.streams.contains_key(receiver@.stream);
                let stream = before.streams[receiver@.stream];
                let poisoned = before.receiver_lock(receiver@) is Poisoned;
                &&& after == before.received(receiver@)
                &&& there && stream.queue.len() > 0 ==> (progress matches Progress::Ready(
                    Ok(Some(chunk)),
                ) && chunk@ == stream.queue[0])
                &&& !there || stream.queue.len() == 0 ==> {
                    &&& after == before
                    &&& progress is Pending <==> there && stream.open && !poisoned
                    &&& progress == Progress::Ready(Ok::<Option<Vec<u8>>, Error>(None)) <==> !there
                        || !stream.open && !poisoned
                    &&& progress == Progress::Ready(
                        Err::<Option<Vec<u8>>, Error>(
                            Error::LockPoisoned { index: receiver@.message_id },
                        ),
                    ) <==> there && poisoned
                }
            },
{
}

/// A receiver is handed what the oldest chunk of its stream says, or told that it says nothing of
/// the kind.
pub proof fn law_recv<T: Unpack>(receiver: &ChunkReceiver)
    ensures
        forall|
            interface: &mut Interface,
            progress: Progress<Result<Option<Result<T, Error>>, Error>>,
        |
            #[trigger]
            call_ensures(Interface::recv::<T>, (interface, receiver), progress) ==> {
                let before = (*interface)@;
                let after = final(interface)@;
                let there = before.streams.contains_key(receiver@.stream);
                let stream = before.streams[receiver@.stream];
                let said = T::unpacked(stream.queue[0]);
                let poisoned = before.receiver_lock(receiver@) is Poisoned;
                &&& after == before.received(receiver@)
                &&& there && stream.queue.len() > 0 ==> {
                    &&& progress matches Progress::Ready(Ok(Some(_)))
                    &&& progress matches Progress::Ready(Ok(Some(Ok(value)))) ==> said == Some(
                        value@,
                    )
                    &&& progress matches Progress::Ready(Ok(Some(Err(error)))) ==> said is None
                        && error == Error::Decode
                }
                &&& !there || stream.queue.len() == 0 ==> {
                    &&& after == before
                    &&& progress is Pending <==> there && stream.open && !poisoned
                    &&& progress == Progress::Ready(Ok::<Option<Result<T, Error>>, Error>(None))
                        <==> !there || !stream.open && !poisoned
                    &&& progress == Progress::Ready(
                        Err::<Option<Result<T, Error>>, Error>(
                            Error::LockPoisoned { index: receiver@.message_id },
                        ),
                    ) <==> there && poisoned
                }
            },
{
}

/// Dropping a receiver removes its stream. Nothing else changes.
pub proof fn law_drop_receiver(receiver: ChunkReceiver, other: u64)
    ensures
        forall|interface: &mut Interface| #[trigger]
            call_ensures(Interface::drop_receiver, (interface, receiver), ()) ==> {
                let before = (*interface)@;
                let after = final(interface)@;
                &&& after == (InterfaceState { streams: after.streams, ..before })
                &&& !after.streams.contains_key(receiver@.stream)
                &&& other != receiver@.stream ==> (after.streams.contains_key(other)
                    <==> before.streams.contains_key(other)) && after.streams[other]
                    == before.streams[other]
            },
{
}

/// Setting how long a receiver waits changes that, and nothing else about it.
pub proof fn law_receiver_settings(
    receiver: ChunkReceiver,
    millis: usize,
    set: ChunkReceiver,
    told: usize,
    id: IpfiInteger,
)
    ensures
        call_ensures(ChunkReceiver::termination_timeout_millis, (receiver, millis), set) ==> {
            &&& set@.timeout_millis == millis
            &&& set@.stream == receiver@.stream
            &&& set@.message_id == receiver@.message_id
            &&& set@.serial == receiver@.serial
        },
        call_ensures(ChunkReceiver::timeout_millis, (&receiver,), told) ==> told
            == receiver@.timeout_millis,
        call_ensures(ChunkReceiver::message_id, (&receiver,), id) ==> id == receiver@.message_id,
{
}

/// The arguments of a raw procedure are the bytes that were accumulated. Those of others come
/// behind the marker for how many there are, and can only fail to be prepared if there are none.
pub proof fn law_arguments(call: PendingCall, result: Result<Vec<u8>, Error>)
    requires
        call_ensures(PendingCall::arguments, (&call,), result),
    ensures
        call.procedure.format == ArgumentFormat::Raw ==> (result matches Ok(bytes) && bytes@
            == call.args@),
        call.procedure.format matches ArgumentFormat::Tuple(len) ==> {
            &&& result matches Ok(bytes) ==> bytes@ == crate::pack::framed(len, call.args@)
            &&& result matches Err(error) ==> error == Error::Encode && len == 0
        },
{
}

} // verus!
