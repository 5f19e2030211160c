//! Interfaces: where messages are accumulated, and procedures are registered.
use crate::collections::{
    call_buffers_of, index_get, index_insert, index_remove, locks_of, map_contains_key, map_get,
    map_insert, map_remove, messages_of, new_call_buffer_map, new_lock_map, new_message_map,
    new_procedure_map, procedures_of, FxMap, IntMap,
};
use crate::complete_lock::{CompleteLock, CompleteLockState};
use crate::error::Error;
use crate::message::{
    bytes_of, views, BufferState, ChunkSender, ChunkStream, MessageBuffer, StreamState,
};
use crate::pack::{frame_args, framed, Unpack};
use crate::roi_queue::{RoiQueue, RoiState};
use crate::types::{CallIndex, IpfiInteger, ProcedureIndex, WireId};
use std::collections::HashMap;
use vstd::prelude::*;

verus! {

broadcast use {crate::message::group_view_lemmas, vstd::std_specs::hash::group_hash_axioms};

/// How far an operation has come that may have to wait for something to happen first.
#[derive(PartialEq, Eq, Debug)]
pub enum Progress<T> {
    /// The operation cannot be finished yet, and should be tried again once something has
    /// changed.
    Pending,
    /// The operation is finished.
    Ready(T),
}

/// How a procedure produces its output.
#[derive(PartialEq, Eq, Structural, Debug, Clone, Copy)]
pub enum ProcedureKind {
    /// A procedure that resolves immediately, returning all its output at once.
    Standard,
    /// A procedure that streams its output gradually, which includes procedures that return all
    /// their output at once, just after a delay.
    Streaming,
}

/// How a procedure expects its arguments.
#[derive(PartialEq, Eq, Structural, Debug, Clone, Copy)]
pub enum ArgumentFormat {
    /// As the bytes that have been accumulated.
    Raw,
    /// As a tuple with this many elements, which need a length marker in front of them.
    Tuple(u32),
}

/// A procedure registered on an interface.
#[derive(PartialEq, Eq, Structural, Debug, Clone, Copy)]
pub struct Procedure {
    pub kind: ProcedureKind,
    pub format: ArgumentFormat,
}

/// A procedure call that is ready to be executed.
#[verifier::ext_equal]
pub struct CallState {
    pub procedure_idx: IpfiInteger,
    pub call_idx: IpfiInteger,
    pub args_buf_idx: IpfiInteger,
    pub procedure: Procedure,
    pub args: Seq<u8>,
}

/// A procedure call whose arguments are complete, to be executed by whoever holds the procedure's
/// code. Once it has been, the interface has to be told with [`Interface::finish_call`].
#[derive(PartialEq, Eq, Debug)]
pub struct PendingCall {
    pub procedure_idx: ProcedureIndex,
    pub call_idx: CallIndex,
    /// The message that holds the arguments, until the call is finished.
    pub args_buf_idx: IpfiInteger,
    /// What was registered for the procedure.
    pub procedure: Procedure,
    /// The bytes that were accumulated for the arguments.
    pub args: Vec<u8>,
}

impl View for PendingCall {
    type V = CallState;

    open spec fn view(&self) -> CallState {
        CallState {
            procedure_idx: self.procedure_idx.0,
            call_idx: self.call_idx.0,
            args_buf_idx: self.args_buf_idx,
            procedure: self.procedure,
            args: self.args@,
        }
    }
}

impl CallState {
    /// The bytes from which the procedure deserialises its arguments.
    pub open spec fn arguments(self) -> Seq<u8> {
        match self.procedure.format {
            ArgumentFormat::Raw => self.args,
            ArgumentFormat::Tuple(len) => framed(len, self.args),
        }
    }
}

impl PendingCall {
    /// Gets the bytes from which the procedure deserialises its arguments: those that have been
    /// accumulated, behind a length marker if they make up a tuple. This can only fail for
    /// procedures without arguments, and has to be treated as a failure of the procedure if it
    /// does.
    pub fn arguments(&self) -> (result: Result<Vec<u8>, Error>)
        ensures
            match result {
                Ok(bytes) => bytes@ == self@.arguments(),
                Err(error) => error == Error::Encode && self.procedure.format
                    == ArgumentFormat::Tuple(0),
            },
    {
        match self.procedure.format {
            ArgumentFormat::Raw => {
                let mut bytes: Vec<u8> = Vec::new();
                bytes.extend_from_slice(self.args.as_slice());
                assert(bytes@ =~= self.args@);
                Ok(bytes)
            },
            ArgumentFormat::Tuple(len) => frame_args(len, self.args.as_slice()),
        }
    }
}

/// What a [`ChunkReceiver`] receives, and how.
pub struct ReceiverState {
    pub stream: u64,
    pub message_id: IpfiInteger,
    pub serial: u64,
    pub timeout_millis: usize,
}

/// A wrapper that allows receiving message chunks in real-time. Be mindful that, once one of
/// these is created, all chunks that arrive for the message it tracks will be immediately sent to
/// it, thereby preventing any calls to `.get()` on the [`Interface`] from accessing non-empty
/// data.
pub struct ChunkReceiver {
    /// The stream of chunks on the interface.
    stream: u64,
    /// The message identifier this chunk receiver tracks.
    message_id: IpfiInteger,
    /// The serial number of the completion lock on the message, which allows checking for
    /// poisons.
    serial: u64,
    /// How long to wait between attempts to receive something.
    timeout_millis: usize,
}

impl View for ChunkReceiver {
    type V = ReceiverState;

    closed spec fn view(&self) -> ReceiverState {
        ReceiverState {
            stream: self.stream,
            message_id: self.message_id,
            serial: self.serial,
            timeout_millis: self.timeout_millis,
        }
    }
}

impl ChunkReceiver {
    /// Sets the maximum number of milliseconds that this receiver could potentially wait for
    /// before it checks whether the message has been poisoned. The default value is 10
    /// milliseconds.
    pub fn termination_timeout_millis(self, millis: usize) -> (receiver: Self)
        ensures
            receiver@ == (ReceiverState { timeout_millis: millis, ..self@ }),
    {
        let mut receiver = self;
        receiver.timeout_millis = millis;
        receiver
    }

    /// Gets the identifier of the message this receiver tracks.
    pub fn message_id(&self) -> (message_id: IpfiInteger)
        ensures
            message_id == self@.message_id,
    {
        self.message_id
    }

    /// Gets the number of milliseconds to wait between attempts to receive something.
    pub fn timeout_millis(&self) -> (millis: usize)
        ensures
            millis == self@.timeout_millis,
    {
        self.timeout_millis
    }
}

/// Whether each of the values is what the chunk at its place says.
pub open spec fn deserialised<T: Unpack>(chunks: Seq<Seq<u8>>, values: Seq<T>) -> bool {
    &&& values.len() == chunks.len()
    &&& forall|i: int|
        0 <= i < chunks.len() ==> #[trigger] T::unpacked(chunks[i]) == Some(values[i]@)
}

/// Deserialises each of the given chunks.
fn deserialise_all<T: Unpack>(chunks: &[Vec<u8>]) -> (result: Result<Vec<T>, Error>)
    ensures
        match result {
            Ok(values) => deserialised(bytes_of(chunks@), values@),
            Err(error) => error == Error::Decode && exists|i: int|
                0 <= i < bytes_of(chunks@).len() && #[trigger] T::unpacked(
                    bytes_of(chunks@)[i],
                ) is None,
        },
{
    let mut values: Vec<T> = Vec::new();
    while values.len() < chunks.len()
        invariant
            values@.len() <= chunks@.len(),
            deserialised(bytes_of(chunks@).take(values@.len() as int), values@),
        decreases chunks@.len() - values@.len(),
    {
        let ghost before = values@;
        match T::unpack(chunks[values.len()].as_slice()) {
            Ok(value) => {
                values.push(value);
                proof {
                    let taken = bytes_of(chunks@).take(values@.len() as int);
                    assert forall|i: int| 0 <= i < taken.len() implies #[trigger] T::unpacked(
                        taken[i],
                    ) == Some(values@[i]@) by {
                        if i < before.len() {
                            assert(taken[i] == bytes_of(chunks@).take(before.len() as int)[i]);
                        }
                    }
                }
            },
            Err(error) => {
                assert(T::unpacked(bytes_of(chunks@)[values@.len() as int]) is None);
                return Err(error);
            },
        }
    }
    assert(bytes_of(chunks@).take(values@.len() as int) =~= bytes_of(chunks@));
    Ok(values)
}

/// Everything that an interface knows.
#[verifier::ext_equal]
pub struct InterfaceState {
    /// The messages that exist, by their identifiers.
    pub messages: Map<IpfiInteger, BufferState>,
    /// The identifiers for messages.
    pub message_ids: RoiState,
    /// Whether messages that somebody is waiting for have been created.
    pub creation_locks: Map<IpfiInteger, CompleteLockState>,
    /// The procedures that can be called, by their indices.
    pub procedures: Map<IpfiInteger, Procedure>,
    /// The messages in which arguments are accumulated, by procedure index, call index and wire.
    pub call_buffers: Map<(IpfiInteger, IpfiInteger, IpfiInteger), IpfiInteger>,
    /// The identifiers for wires.
    pub wire_ids: RoiState,
    /// The streams that somebody receives chunks from.
    pub streams: Map<u64, StreamState>,
    /// The serial number of whatever needs one next.
    pub next_serial: u64,
}

/// The serial number after another.
pub open spec fn serial_after(serial: u64) -> u64 {
    if serial == u64::MAX {
        0
    } else {
        (serial + 1) as u64
    }
}

impl InterfaceState {
    /// An interface without any messages, procedures or wires.
    pub open spec fn initial() -> InterfaceState {
        InterfaceState {
            messages: Map::empty(),
            message_ids: RoiState::initial(),
            creation_locks: Map::empty(),
            procedures: Map::empty(),
            call_buffers: Map::empty(),
            wire_ids: RoiState::initial(),
            streams: Map::empty(),
            next_serial: 0,
        }
    }

    /// With a message replaced by another.
    pub open spec fn with_message(self, id: IpfiInteger, buffer: BufferState) -> InterfaceState {
        InterfaceState { messages: self.messages.insert(id, buffer), ..self }
    }

    /// Whether chunks that are sent to the given sender reach anybody.
    pub open spec fn listening(self, sender: ChunkSender) -> bool {
        sender is Attached && self.streams.contains_key(sender->Attached_0)
    }

    /// The streams after a message has been deleted: the one it was sending to, if any, ends.
    pub open spec fn streams_without(self, id: IpfiInteger) -> Map<u64, StreamState> {
        let sender = self.messages[id].sender;
        if self.messages.contains_key(id) && self.listening(sender) {
            self.streams.insert(
                sender->Attached_0,
                self.streams[sender->Attached_0].orphaned(self.messages[id].lock),
            )
        } else {
            self.streams
        }
    }

    /// After a message has been deleted and its identifier relinquished, if it existed.
    pub open spec fn popped(self, id: IpfiInteger) -> InterfaceState {
        if self.messages.contains_key(id) {
            InterfaceState {
                messages: self.messages.remove(id),
                message_ids: self.message_ids.relinquished(id),
                streams: self.streams_without(id),
                ..self
            }
        } else {
            self
        }
    }

    /// After an empty message has been created, with the next identifier.
    pub open spec fn pushed(self) -> InterfaceState {
        let id = self.message_ids.upcoming();
        InterfaceState {
            messages: self.messages.insert(id, BufferState::fresh(self.next_serial)),
            message_ids: self.message_ids.advanced(),
            creation_locks: if self.creation_locks.contains_key(id) {
                self.creation_locks.insert(id, CompleteLockState::Complete)
            } else {
                self.creation_locks
            },
            streams: self.streams_without(id),
            next_serial: serial_after(self.next_serial),
            ..self
        }
    }

    /// The message that accumulates the arguments of the given procedure call: either the one
    /// that already does, or the one that is created next.
    pub open spec fn call_buffer(
        self,
        call: (IpfiInteger, IpfiInteger, IpfiInteger),
    ) -> IpfiInteger {
        if self.call_buffers.contains_key(call) {
            self.call_buffers[call]
        } else {
            self.message_ids.upcoming()
        }
    }

    /// With a message that accumulates the arguments of the given procedure call.
    pub open spec fn with_call_buffer(
        self,
        call: (IpfiInteger, IpfiInteger, IpfiInteger),
    ) -> InterfaceState {
        if self.call_buffers.contains_key(call) {
            self
        } else {
            InterfaceState {
                call_buffers: self.call_buffers.insert(call, self.message_ids.upcoming()),
                ..self.pushed()
            }
        }
    }

    /// After a procedure call has been forgotten, along with its arguments.
    pub open spec fn call_dropped(
        self,
        call: (IpfiInteger, IpfiInteger, IpfiInteger),
    ) -> InterfaceState {
        if self.call_buffers.contains_key(call) {
            (InterfaceState { call_buffers: self.call_buffers.remove(call), ..self }).popped(
                self.call_buffers[call],
            )
        } else {
            self
        }
    }

    /// After several procedure calls of one wire have been forgotten, one by one.
    pub open spec fn calls_dropped(
        self,
        calls: Seq<(IpfiInteger, IpfiInteger)>,
        wire: IpfiInteger,
    ) -> InterfaceState
        decreases calls.len(),
    {
        if calls.len() == 0 {
            self
        } else {
            let call = calls.last();
            self.calls_dropped(calls.drop_last(), wire).call_dropped((call.0, call.1, wire))
        }
    }

    /// With a procedure registered.
    pub open spec fn with_procedure(
        self,
        idx: IpfiInteger,
        procedure: Procedure,
    ) -> InterfaceState {
        InterfaceState { procedures: self.procedures.insert(idx, procedure), ..self }
    }

    /// After the arguments of a procedure call have been handed over: no more can be accumulated
    /// for it.
    pub open spec fn call_started(
        self,
        call: (IpfiInteger, IpfiInteger, IpfiInteger),
    ) -> InterfaceState {
        InterfaceState {
            call_buffers: self.call_buffers.remove(call),
            ..self.with_call_buffer(call)
        }
    }

    /// The procedure call, or why it cannot be executed.
    pub open spec fn call_result(
        self,
        call: (IpfiInteger, IpfiInteger, IpfiInteger),
    ) -> Result<CallState, Error> {
        let buffer = self.call_buffer(call);
        let messages = self.with_call_buffer(call).messages;
        if !self.procedures.contains_key(call.0) {
            Err(Error::NoSuchProcedure { index: call.0 })
        } else if !messages.contains_key(buffer) {
            Err(Error::NoCallBuffer { index: buffer })
        } else {
            match messages[buffer].lock {
                CompleteLockState::Complete => Ok(
                    CallState {
                        procedure_idx: call.0,
                        call_idx: call.1,
                        args_buf_idx: buffer,
                        procedure: self.procedures[call.0],
                        args: messages[buffer].chunks[0],
                    },
                ),
                CompleteLockState::Incomplete => Err(Error::CallBufferIncomplete { index: buffer }),
                CompleteLockState::Poisoned => Err(Error::CallBufferPoisoned { index: buffer }),
            }
        }
    }

    /// After a procedure call has been executed: its arguments are deleted, unless it was a
    /// streaming procedure that failed.
    pub open spec fn call_finished(self, call: CallState, failed: bool) -> InterfaceState {
        if call.procedure.kind is Streaming && failed {
            self
        } else {
            self.popped(call.args_buf_idx)
        }
    }

    /// Why nothing can be written to a message, if that is so.
    pub open spec fn refusal(self, id: IpfiInteger) -> Option<Error> {
        if !self.messages.contains_key(id) {
            Some(Error::OutOfBounds { index: id })
        } else if self.messages[id].lock is Complete {
            Some(Error::AlreadyCompleted { index: id })
        } else {
            None
        }
    }

    /// After bytes have been appended to a message.
    pub open spec fn appended(self, id: IpfiInteger, data: Seq<u8>) -> InterfaceState {
        self.with_message(id, self.messages[id].appended(data))
    }

    /// After a message has been marked as completed, without sending anything to a stream.
    pub open spec fn completed(self, id: IpfiInteger) -> InterfaceState {
        self.with_message(id, self.messages[id].completed())
    }

    /// After a chunk has been sent to a stream.
    pub open spec fn sent(self, stream: u64, chunk: Seq<u8>) -> InterfaceState {
        InterfaceState {
            streams: self.streams.insert(stream, self.streams[stream].sent(chunk)),
            ..self
        }
    }

    /// After a message has been terminated. If somebody receives its chunks, the last one is sent
    /// to them and the message is deleted.
    pub open spec fn terminated(self, id: IpfiInteger) -> InterfaceState {
        let message = self.messages[id];
        if self.listening(message.sender) {
            self.completed(id).sent(message.sender->Attached_0, message.chunks.last()).popped(id)
        } else if message.sender is Absent {
            self.completed(id)
        } else {
            self.with_message(id, message.completed().sending_to(ChunkSender::Released))
        }
    }

    /// After a chunk of a message has been terminated. If somebody receives its chunks, it is sent
    /// to them and taken out of the message.
    pub open spec fn chunk_terminated(self, id: IpfiInteger) -> InterfaceState {
        let message = self.messages[id];
        if self.listening(message.sender) {
            self.with_message(id, message.chunk_taken()).sent(
                message.sender->Attached_0,
                message.chunks.last(),
            )
        } else {
            self.with_message(id, message.chunk_started())
        }
    }

    /// After a completion lock has been poisoned, if the message still exists.
    pub open spec fn poisoned(self, id: IpfiInteger, serial: u64) -> InterfaceState {
        if self.messages.contains_key(id) && self.messages[id].serial == serial {
            self.with_message(id, self.messages[id].poisoned())
        } else {
            self
        }
    }

    /// Whether a message was created for somebody who was waiting for it, but deleted again before
    /// they could see it.
    pub open spec fn stranded(self, id: IpfiInteger) -> bool {
        &&& !self.messages.contains_key(id)
        &&& self.creation_locks.contains_key(id)
        &&& self.creation_locks[id] is Complete
    }

    /// Whether a message has been created.
    pub open spec fn creation_progress(self, id: IpfiInteger) -> Progress<Result<(), Error>> {
        if self.messages.contains_key(id) {
            Progress::Ready(Ok(()))
        } else if !self.creation_locks.contains_key(id) {
            Progress::Pending
        } else {
            match self.creation_locks[id] {
                CompleteLockState::Incomplete => Progress::Pending,
                CompleteLockState::Complete => Progress::Ready(Ok(())),
                CompleteLockState::Poisoned => Progress::Ready(
                    Err(Error::LockPoisoned { index: id }),
                ),
            }
        }
    }

    /// After somebody has asked for a message to be created. If it does not exist, there is a
    /// creation lock for it until those who wait for it have seen that it does. If it exists,
    /// nobody has to wait, and the lock is left for those who have.
    pub open spec fn creation_awaited(self, id: IpfiInteger) -> InterfaceState {
        if self.messages.contains_key(id) {
            self
        } else {
            InterfaceState {
                creation_locks: match self.creation_progress(id) {
                    Progress::Ready(Ok(_)) => self.creation_locks.remove(id),
                    Progress::Ready(Err(_)) => self.creation_locks,
                    Progress::Pending => self.creation_locks.insert(
                        id,
                        CompleteLockState::Incomplete,
                    ),
                },
                ..self
            }
        }
    }

    /// Whether somebody who waits for a message to be created has to wait any longer. A lock that
    /// is gone was completed, and removed by another of them.
    pub open spec fn resumption_progress(self, id: IpfiInteger) -> Progress<Result<(), Error>> {
        if !self.creation_locks.contains_key(id) {
            Progress::Ready(Ok(()))
        } else {
            match self.creation_locks[id] {
                CompleteLockState::Incomplete => Progress::Pending,
                CompleteLockState::Complete => Progress::Ready(Ok(())),
                CompleteLockState::Poisoned => Progress::Ready(
                    Err(Error::LockPoisoned { index: id }),
                ),
            }
        }
    }

    /// After somebody who waits for a message to be created has asked whether it was: the first of
    /// them who sees that removes the creation lock.
    pub open spec fn creation_resumed(self, id: IpfiInteger) -> InterfaceState {
        InterfaceState {
            creation_locks: match self.resumption_progress(id) {
                Progress::Ready(Ok(_)) => self.creation_locks.remove(id),
                _ => self.creation_locks,
            },
            ..self
        }
    }

    /// Whether a message has been created and completed.
    pub open spec fn message_progress(self, id: IpfiInteger) -> Progress<Result<(), Error>> {
        match self.creation_progress(id) {
            Progress::Ready(Ok(_)) => match self.messages[id].lock {
                CompleteLockState::Incomplete => Progress::Pending,
                CompleteLockState::Complete => Progress::Ready(Ok(())),
                CompleteLockState::Poisoned => Progress::Ready(
                    Err(Error::LockPoisoned { index: id }),
                ),
            },
            progress => progress,
        }
    }

    /// After a stream has been attached to a message. The one that was there before ends.
    pub open spec fn streaming(self, id: IpfiInteger) -> InterfaceState {
        let sender = self.messages[id].sender;
        let stream = self.next_serial;
        let streams = if self.listening(sender) {
            self.streams.insert(
                sender->Attached_0,
                self.streams[sender->Attached_0].closed(),
            )
        } else {
            self.streams
        };
        InterfaceState {
            messages: self.messages.insert(
                id,
                self.messages[id].sending_to(ChunkSender::Attached(stream)),
            ),
            streams: streams.insert(stream, StreamState::fresh()),
            next_serial: serial_after(self.next_serial),
            ..self
        }
    }

    /// The completion lock that a receiver keeps an eye on: that of the message it tracks, or what
    /// was left of it when the message was deleted.
    pub open spec fn receiver_lock(self, receiver: ReceiverState) -> CompleteLockState {
        let id = receiver.message_id;
        if self.messages.contains_key(id) && self.messages[id].serial == receiver.serial {
            self.messages[id].lock
        } else {
            self.streams[receiver.stream].lock
        }
    }

    /// The next chunk that a receiver gets. Chunks that are there are always received. Otherwise,
    /// a poisoned lock is an error, and the end of the stream is the end of the message.
    pub open spec fn receive_progress(
        self,
        receiver: ReceiverState,
    ) -> Progress<Result<Option<Seq<u8>>, Error>> {
        if !self.streams.contains_key(receiver.stream) {
            Progress::Ready(Ok(None))
        } else if self.streams[receiver.stream].queue.len() > 0 {
            Progress::Ready(Ok(Some(self.streams[receiver.stream].queue[0])))
        } else if self.receiver_lock(receiver) is Poisoned {
            Progress::Ready(Err(Error::LockPoisoned { index: receiver.message_id }))
        } else if self.streams[receiver.stream].open {
            Progress::Pending
        } else {
            Progress::Ready(Ok(None))
        }
    }

    /// After a receiver has asked for the next chunk.
    pub open spec fn received(self, receiver: ReceiverState) -> InterfaceState {
        if self.streams.contains_key(receiver.stream) && self.streams[receiver.stream].queue.len()
            > 0 {
            InterfaceState {
                streams: self.streams.insert(
                    receiver.stream,
                    self.streams[receiver.stream].received(),
                ),
                ..self
            }
        } else {
            self
        }
    }
}

/// An inter-process communication (IPC) interface based on the arbitrary reception of bytes.
///
/// This is formed in a message-based interface, with messages identified by integers. Each time a
/// new value is sent into the interface, it will be added to the provided message, allowing data
/// from multiple sources to be simultaneously accumulated. Once `-1` is sent, the message will be
/// marked as completed, and future attempts to write to it will fail.
///
/// # Chunks
///
/// Usually, a message will consist of only one value, however, sometimes, especially in the case
/// of a procedure that yields multiple independent values, a single message will consist of
/// multiple discrete packets, all of which should be deserialised independently. Senders to an
/// interface can explicitly terminate an individual chunk, before starting a new one. As a
/// result, accessing the raw bytes of a message will yield a list of chunks.
///
/// Sometimes, one may wish to access chunks in real-time, as they are terminated individually,
/// and this can be done through `.get_chunk_stream()`. However, if this method is called, then,
/// every time a chunk is terminated, it will unquestioningly be sent to the receiver, rather than
/// being saved in the message. Only `.get_chunks()` is wise to this.
pub struct Interface {
    /// The messages received over the interface. When a message is read, its entry is removed and
    /// its identifier recycled.
    messages: IntMap<MessageBuffer>,
    /// A queue that produces unique message identifiers while allowing us to recycle old ones.
    message_id_queue: RoiQueue,
    /// A record of locks used to wait on the existence of a certain message.
    creation_locks: IntMap<CompleteLock>,
    /// The procedures that those communicating with this program may execute.
    procedures: IntMap<Procedure>,
    /// A map of `(procedure_idx, call_idx, wire_id)` to the message that accumulates arguments.
    call_to_buffer_map: FxMap<(IpfiInteger, IpfiInteger, IpfiInteger)>,
    /// A queue that produces unique identifiers for the wires that connect to this interface.
    wire_id_queue: RoiQueue,
    /// The streams that somebody receives chunks from.
    streams: HashMap<u64, ChunkStream>,
    /// The serial number of whatever needs one next.
    next_serial: u64,
}

impl View for Interface {
    type V = InterfaceState;

    closed spec fn view(&self) -> InterfaceState {
        InterfaceState {
            messages: views(messages_of(self.messages)),
            message_ids: self.message_id_queue@,
            creation_locks: views(locks_of(self.creation_locks)),
            procedures: procedures_of(self.procedures),
            call_buffers: call_buffers_of(self.call_to_buffer_map),
            wire_ids: self.wire_id_queue@,
            streams: views(self.streams@),
            next_serial: self.next_serial,
        }
    }
}

impl Default for Interface {
    fn default() -> (interface: Self)
        ensures
            interface@ == InterfaceState::initial(),
    {
        let interface = Self {
            messages: new_message_map(),
            message_id_queue: RoiQueue::new(),
            creation_locks: new_lock_map(),
            procedures: new_procedure_map(),
            call_to_buffer_map: new_call_buffer_map(),
            wire_id_queue: RoiQueue::new(),
            streams: HashMap::new(),
            next_serial: 0,
        };
        assert(interface@ =~= InterfaceState::initial());
        interface
    }
}

impl Interface {
    /// Initializes a new interface to be used for connecting to as many other programs as
    /// necessary through wires, or through manual communication management.
    pub fn new() -> (interface: Self)
        ensures
            interface@ == InterfaceState::initial(),
    {
        Self::default()
    }

    /// Gets an ID for a wire or other communication primitive that will depend on this interface.
    /// Any IPC primitive that will call procedures should acquire one of these for itself to make
    /// sure its procedure calls do not overlap with those of other wires.
    pub fn get_id(&mut self) -> (id: WireId)
        ensures
            id.0 == old(self)@.wire_ids.upcoming(),
            final(self)@ == (InterfaceState {
                wire_ids: old(self)@.wire_ids.advanced(),
                ..old(self)@
            }),
    {
        WireId(self.wire_id_queue.get())
    }

    /// Marks the given wire identifier as relinquished. This will return it into the queue and
    /// recirculate it to the next new wire that requests an identifier.
    pub fn relinquish_id(&mut self, id: WireId)
        ensures
            final(self)@ == (InterfaceState {
                wire_ids: old(self)@.wire_ids.relinquished(id.0),
                ..old(self)@
            }),
    {
        self.wire_id_queue.relinquish(id.0);
    }

    /// The next serial number.
    fn take_serial(&mut self) -> (serial: u64)
        ensures
            serial == old(self)@.next_serial,
            final(self)@ == (InterfaceState {
                next_serial: serial_after(old(self)@.next_serial),
                ..old(self)@
            }),
    {
        let serial: u64 = self.next_serial;
        self.next_serial = serial.wrapping_add(1);
        serial
    }

    /// Deletes the sending end of the stream that a message was attached to, as the message itself
    /// is being deleted.
    fn drop_sender(&mut self, sender: ChunkSender, lock: CompleteLockState)
        ensures
            final(self)@ == (InterfaceState {
                streams: if old(self)@.listening(sender) {
                    old(self)@.streams.insert(
                        sender->Attached_0,
                        old(self)@.streams[sender->Attached_0].orphaned(lock),
                    )
                } else {
                    old(self)@.streams
                },
                ..old(self)@
            }),
    {
        match sender {
            ChunkSender::Attached(stream_id) => {
                match self.streams.remove(&stream_id) {
                    Some(stream) => {
                        let mut stream = stream;
                        stream.orphan(lock);
                        self.streams.insert(stream_id, stream);
                    },
                    None => {},
                }
            },
            _ => {},
        }
    }

    /// Deletes the given message buffer and relinquishes its unique identifier back into the
    /// queue for reuse.
    fn pop(&mut self, id: IpfiInteger) -> (popped: Option<MessageBuffer>)
        ensures
            final(self)@ == old(self)@.popped(id),
            match popped {
                Some(buffer) => old(self)@.messages.contains_key(id) && buffer@
                    == old(self)@.messages[id],
                None => !old(self)@.messages.contains_key(id),
            },
    {
        match map_remove(&mut self.messages, id) {
            Some(buffer) => {
                self.message_id_queue.relinquish(id);
                self.drop_sender(buffer.sender(), buffer.lock_state());
                Some(buffer)
            },
            None => None,
        }
    }

    /// Allocates space for a new message buffer, creating a new completion lock. This will also
    /// mark a relevant creation lock as completed if one exists.
    pub fn push(&mut self) -> (id: IpfiInteger)
        ensures
            id == old(self)@.message_ids.upcoming(),
            final(self)@ == old(self)@.pushed(),
    {
        let new_id: IpfiInteger = self.message_id_queue.get();
        let serial: u64 = self.take_serial();
        match map_insert(&mut self.messages, new_id, MessageBuffer::new(serial)) {
            Some(buffer) => {
                self.drop_sender(buffer.sender(), buffer.lock_state());
            },
            None => {},
        }
        // If anyone was waiting for this buffer to exist, it now does!
        match map_remove(&mut self.creation_locks, new_id) {
            Some(lock) => {
                let mut lock = lock;
                lock.mark_complete();
                map_insert(&mut self.creation_locks, new_id, lock);
            },
            None => {},
        }
        assert(self@ =~= old(self)@.pushed());
        new_id
    }

    /// Drops the message associated with accumulating arguments for the given procedure call. This
    /// could be called for both procedures that are still accumulating arguments and for those
    /// that are done accumulating.
    pub fn drop_associated_call_message(
        &mut self,
        procedure_idx: ProcedureIndex,
        call_idx: CallIndex,
        wire_id: WireId,
    )
        ensures
            final(self)@ == old(self)@.call_dropped((procedure_idx.0, call_idx.0, wire_id.0)),
    {
        let key = (procedure_idx.0, call_idx.0, wire_id.0);
        match index_remove(&mut self.call_to_buffer_map, key) {
            Some(message_id) => {
                // This will deal with recycling the ID appropriately
                self.pop(message_id);
            },
            None => {},
        }
    }

    /// Registers a procedure that takes a tuple with the given number of elements, and that
    /// returns all its output at once.
    pub fn add_procedure(&mut self, idx: IpfiInteger, args_len: u32)
        ensures
            final(self)@ == old(self)@.with_procedure(
                idx,
                (Procedure {
                    kind: ProcedureKind::Standard,
                    format: ArgumentFormat::Tuple(args_len),
                }),
            ),
    {
        let procedure = Procedure {
            kind: ProcedureKind::Standard,
            format: ArgumentFormat::Tuple(args_len),
        };
        map_insert(&mut self.procedures, idx, procedure);
    }

    /// Registers a procedure that takes a tuple with the given number of elements, and that will
    /// yield something that can eventually be interpreted as a list of values: each yield will be
    /// interpreted as a separate *chunk*.
    pub fn add_sequence_procedure(&mut self, idx: IpfiInteger, args_len: u32)
        ensures
            final(self)@ == old(self)@.with_procedure(
                idx,
                (Procedure {
                    kind: ProcedureKind::Streaming,
                    format: ArgumentFormat::Tuple(args_len),
                }),
            ),
    {
        let procedure = Procedure {
            kind: ProcedureKind::Streaming,
            format: ArgumentFormat::Tuple(args_len),
        };
        map_insert(&mut self.procedures, idx, procedure);
    }

    /// Same as `.add_procedure()`, but for procedures that work directly with raw bytes.
    pub fn add_raw_procedure(&mut self, idx: IpfiInteger)
        ensures
            final(self)@ == old(self)@.with_procedure(
                idx,
                (Procedure { kind: ProcedureKind::Standard, format: ArgumentFormat::Raw }),
            ),
    {
        let procedure = Procedure { kind: ProcedureKind::Standard, format: ArgumentFormat::Raw };
        map_insert(&mut self.procedures, idx, procedure);
    }

    /// Same as `.add_raw_procedure()`, but for *streaming* procedures, which, rather than
    /// returning their output all in one go, will yield chunks of it gradually.
    pub fn add_raw_streaming_procedure(&mut self, idx: IpfiInteger)
        ensures
            final(self)@ == old(self)@.with_procedure(
                idx,
                (Procedure { kind: ProcedureKind::Streaming, format: ArgumentFormat::Raw }),
            ),
    {
        let procedure = Procedure { kind: ProcedureKind::Streaming, format: ArgumentFormat::Raw };
        map_insert(&mut self.procedures, idx, procedure);
    }

    /// Gets the index of a local message buffer to be used to store the given call of the given
    /// procedure from the given wire. This allows arguments to be accumulated piecemeal before the
    /// actual procedure call.
    ///
    /// This will create a buffer for this call if one doesn't already exist.
    pub fn get_call_buffer(
        &mut self,
        procedure_idx: ProcedureIndex,
        call_idx: CallIndex,
        wire_id: WireId,
    ) -> (buf_idx: IpfiInteger)
        ensures
            buf_idx == old(self)@.call_buffer((procedure_idx.0, call_idx.0, wire_id.0)),
            final(self)@ == old(self)@.with_call_buffer((procedure_idx.0, call_idx.0, wire_id.0)),
    {
        let key = (procedure_idx.0, call_idx.0, wire_id.0);
        match index_get(&self.call_to_buffer_map, key) {
            Some(buf_idx) => buf_idx,
            None => {
                let new_idx: IpfiInteger = self.push();
                index_insert(&mut self.call_to_buffer_map, key, new_idx);
                new_idx
            },
        }
    }

    /// Prepares to call the procedure with the given index. This will get its argument information
    /// from the message buffer of the given call, which it expects to be completed. This method
    /// will not wait for a completion (or creation) of that buffer.
    ///
    /// The call that this returns has to be executed by whoever holds the procedure's code, and
    /// what comes of that has to be reported with `.finish_call()`.
    pub fn call_procedure(
        &mut self,
        procedure_idx: ProcedureIndex,
        call_idx: CallIndex,
        wire_id: WireId,
    ) -> (result: Result<PendingCall, Error>)
        ensures
            final(self)@ == old(self)@.call_started((procedure_idx.0, call_idx.0, wire_id.0)),
            ({
                let expected = old(self)@.call_result((procedure_idx.0, call_idx.0, wire_id.0));
                match result {
                    Ok(call) => expected == Ok::<CallState, Error>(call@),
                    Err(error) => expected == Err::<CallState, Error>(error),
                }
            }),
    {
        // Get the buffer where the arguments are supposed to be, and then delete that mapping to
        // free up some space
        let args_buf_idx: IpfiInteger = self.get_call_buffer(procedure_idx, call_idx, wire_id);
        let key = (procedure_idx.0, call_idx.0, wire_id.0);
        index_remove(&mut self.call_to_buffer_map, key);
        assert(self@ =~= old(self)@.call_started(key));

        let procedure = match map_get(&self.procedures, procedure_idx.0) {
            Some(procedure) => procedure,
            None => return Err(Error::NoSuchProcedure { index: procedure_idx.0 }),
        };
        let message = match map_remove(&mut self.messages, args_buf_idx) {
            Some(message) => message,
            None => return Err(Error::NoCallBuffer { index: args_buf_idx }),
        };
        let state = message.lock_state();
        // Procedure calls are never chunked
        let args: Vec<u8> = message.first_chunk();
        map_insert(&mut self.messages, args_buf_idx, message);
        assert(self@ =~= old(self)@.call_started(key));
        match state {
            CompleteLockState::Complete => Ok(
                PendingCall { procedure_idx, call_idx, args_buf_idx, procedure, args },
            ),
            CompleteLockState::Incomplete => Err(
                Error::CallBufferIncomplete { index: args_buf_idx },
            ),
            CompleteLockState::Poisoned => Err(Error::CallBufferPoisoned { index: args_buf_idx }),
        }
    }

    /// Reports what came of the given procedure call: the raw serialized byte vector that it
    /// produced, nothing if it is a streaming procedure (which yields its output elsewhere), or
    /// the error that it failed with. This hands back what it is given, once the message that held
    /// the arguments has been relinquished.
    pub fn finish_call(&mut self, call: PendingCall, output: Result<Option<Vec<u8>>, Error>) -> (
        result: Result<Option<Vec<u8>>, Error>)
        ensures
            result == output,
            final(self)@ == old(self)@.call_finished(call@, output is Err),
    {
        if call.procedure.kind == ProcedureKind::Streaming && output.is_err() {
            return output;
        }
        self.pop(call.args_buf_idx);
        output
    }

    /// Sends the given element through to the interface, adding it to the byte array of the
    /// message with the given identifier. If `-1` is provided, the message will be marked as
    /// completed. This will return an error if the message was already completed, or
    /// out-of-bounds, or otherwise `Ok(true)` if the message buffer is still open, or `Ok(false)`
    /// if this call caused it to complete.
    ///
    /// Notably, this will still append to a poisoned message buffer (because a poisoned completion
    /// lock merely indicates that it is unlikely that the message will ever be completed, it
    /// doesn't hurt to try). If this call would complete a poisoned buffer, its state will be
    /// changed to completed.
    pub fn send(&mut self, datum: i8, message_id: IpfiInteger) -> (result: Result<bool, Error>)
        ensures
            match old(self)@.refusal(message_id) {
                Some(error) => result == Err::<bool, Error>(error) && final(self)@ == old(self)@,
                None => if datum < 0 {
                    result == Ok::<bool, Error>(false) && final(self)@ == old(self)@.completed(
                        message_id,
                    )
                } else {
                    result == Ok::<bool, Error>(true) && final(self)@ == old(self)@.appended(
                        message_id,
                        seq![datum as u8],
                    )
                },
            },
    {
        let mut message = match map_remove(&mut self.messages, message_id) {
            Some(message) => message,
            None => return Err(Error::OutOfBounds { index: message_id }),
        };
        // Only fail on completions, we'll allow poisons
        let result = if message.is_complete() {
            Err(Error::AlreadyCompleted { index: message_id })
        } else if datum < 0 {
            message.mark_complete();
            Ok(false)
        } else {
            message.push(datum as u8);
            Ok(true)
        };
        map_insert(&mut self.messages, message_id, message);
        result
    }

    /// Sends many bytes through to the interface. When you have many bytes instead of just one at
    /// a time, this method should be preferred. Note that this method will not allow the
    /// termination of a message or chunk, and that should be handled separately.
    ///
    /// Like `.send()`, this will ignore poisoned message buffers.
    pub fn send_many(&mut self, data: &[u8], message_id: IpfiInteger) -> (result: Result<
        (),
        Error,
    >)
        ensures
            match old(self)@.refusal(message_id) {
                Some(error) => result == Err::<(), Error>(error) && final(self)@ == old(self)@,
                None => result == Ok::<(), Error>(()) && final(self)@ == old(self)@.appended(
                    message_id,
                    data@,
                ),
            },
    {
        let mut message = match map_remove(&mut self.messages, message_id) {
            Some(message) => message,
            None => return Err(Error::OutOfBounds { index: message_id }),
        };
        let result = if message.is_complete() {
            Err(Error::AlreadyCompleted { index: message_id })
        } else {
            message.extend(data);
            Ok(())
        };
        map_insert(&mut self.messages, message_id, message);
        result
    }

    /// Sends a chunk to the stream with the given identifier, which hands it back if nobody
    /// receives from that stream anymore.
    fn send_chunk(&mut self, stream_id: u64, chunk: Vec<u8>) -> (returned: Option<Vec<u8>>)
        ensures
            if old(self)@.streams.contains_key(stream_id) {
                returned is None && final(self)@ == old(self)@.sent(stream_id, chunk@)
            } else {
                returned == Some(chunk) && final(self)@ == old(self)@
            },
    {
        match self.streams.remove(&stream_id) {
            Some(stream) => {
                let mut stream = stream;
                stream.send(chunk);
                self.streams.insert(stream_id, stream);
                None
            },
            None => Some(chunk),
        }
    }

    /// Explicitly terminates the message with the given index. This will return an error if the
    /// message has already been terminated or if it was out-of-bounds. This will not change
    /// anything about the chunk layout of the message, and, for the final chunk, this should be
    /// called *instead of* terminating the chunk, otherwise an additional, empty chunk will be
    /// created. If there is a chunk receiver registered, this will send the final chunk through
    /// it.
    ///
    /// For messages with real-time chunk receivers registered, this will drop the only sender,
    /// thus ending the channel, and it will pop the message, allowing the index to be reused.
    ///
    /// If this terminates a message with a poisoned completion lock, it will change the lock's
    /// state from poisoned to completed.
    pub fn terminate_message(&mut self, message_id: IpfiInteger) -> (result: Result<(), Error>)
        ensures
            match old(self)@.refusal(message_id) {
                Some(error) => result == Err::<(), Error>(error) && final(self)@ == old(self)@,
                None => result == Ok::<(), Error>(()) && final(self)@ == old(self)@.terminated(
                    message_id,
                ),
            },
    {
        let mut message = match map_remove(&mut self.messages, message_id) {
            Some(message) => message,
            None => return Err(Error::OutOfBounds { index: message_id }),
        };
        if message.is_complete() {
            map_insert(&mut self.messages, message_id, message);
            return Err(Error::AlreadyCompleted { index: message_id });
        }
        message.mark_complete();
        match message.sender() {
            ChunkSender::Absent => {
                map_insert(&mut self.messages, message_id, message);
            },
            ChunkSender::Attached(stream_id) if self.streams.contains_key(&stream_id) => {
                let chunk: Vec<u8> = message.take_chunk();
                self.send_chunk(stream_id, chunk);
                // Drop the entire message for identifier recycling (no-one is going to `.get()` it
                // afterward)
                map_insert(&mut self.messages, message_id, message);
                self.pop(message_id);
                assert(self@ =~= old(self)@.terminated(message_id));
            },
            _ => {
                // The receiver has been dropped, so the chunk stays where it is, as does the
                // information that there once was a sender
                message.set_sender(ChunkSender::Released);
                map_insert(&mut self.messages, message_id, message);
            },
        }
        Ok(())
    }

    /// Terminates the current chunk in the given message buffer, creating a new chunk to accept
    /// further data. This should not be called to terminate the final chunk, you should use
    /// `.terminate_message()` for that to properly seal the buffer. If there is a real-time chunk
    /// receiver registered for this message buffer, this method will take the terminated chunk and
    /// send it directly to that receiver, thereby removing it from the message buffer.
    ///
    /// This will fail if the message itself has been terminated, but will succeed if the message
    /// has a poisoned completion lock.
    pub fn terminate_chunk(&mut self, message_id: IpfiInteger) -> (result: Result<(), Error>)
        ensures
            match old(self)@.refusal(message_id) {
                Some(error) => result == Err::<(), Error>(error) && final(self)@ == old(self)@,
                None => result == Ok::<(), Error>(()) && final(self)@
                    == old(self)@.chunk_terminated(message_id),
            },
    {
        let mut message = match map_remove(&mut self.messages, message_id) {
            Some(message) => message,
            None => return Err(Error::OutOfBounds { index: message_id }),
        };
        if message.is_complete() {
            map_insert(&mut self.messages, message_id, message);
            return Err(Error::AlreadyCompleted { index: message_id });
        }
        match message.sender() {
            ChunkSender::Attached(stream_id) if self.streams.contains_key(&stream_id) => {
                let chunk: Vec<u8> = message.take_chunk();
                self.send_chunk(stream_id, chunk);
            },
            _ => {
                message.start_chunk();
            },
        }
        map_insert(&mut self.messages, message_id, message);
        assert(self@ =~= old(self)@.chunk_terminated(message_id));
        Ok(())
    }

    /// Poisons the completion lock with the given serial number, if it belongs to the given
    /// message: if the message has been deleted, even if another has taken its place, then nobody
    /// is interested in that lock anymore.
    pub fn poison_message(&mut self, message_id: IpfiInteger, serial: u64)
        ensures
            final(self)@ == old(self)@.poisoned(message_id, serial),
    {
        match map_remove(&mut self.messages, message_id) {
            Some(message) => {
                let mut message = message;
                if message.serial() == serial {
                    message.poison();
                }
                map_insert(&mut self.messages, message_id, message);
            },
            None => {},
        }
    }

    /// Tells whether the given message was created for somebody who was waiting for it, but
    /// deleted again before they could see it. Whoever waits for it then waits in vain.
    pub fn is_stranded(&mut self, message_id: IpfiInteger) -> (stranded: bool)
        ensures
            stranded == old(self)@.stranded(message_id),
            final(self)@ == old(self)@,
    {
        if map_contains_key(&self.messages, message_id) {
            return false;
        }
        match map_remove(&mut self.creation_locks, message_id) {
            Some(lock) => {
                let completed = lock.completed();
                map_insert(&mut self.creation_locks, message_id, lock);
                completed
            },
            None => false,
        }
    }

    /// Waits until the given message has been created. This will be ready as soon as it has been,
    /// without regard for whether or not it has been completed.
    ///
    /// If this finds a poisoned creation lock, it will fail. However, if the message buffer exists
    /// already, this will succeed *even if* there is a poisoned creation lock.
    ///
    /// Whoever has to wait has to go on with `.resume_message_creation()`, as has whoever has to
    /// wait for the creation of a message in any of the methods below, before they try those again.
    pub fn wait_for_message_creation(&mut self, message_id: IpfiInteger) -> (progress: Progress<
        Result<(), Error>,
    >)
        ensures
            progress == old(self)@.creation_progress(message_id),
            final(self)@ == old(self)@.creation_awaited(message_id),
    {
        // If the message is already present, there is nothing to wait for
        if map_contains_key(&self.messages, message_id) {
            return Progress::Ready(Ok(()));
        }
        let lock = match map_remove(&mut self.creation_locks, message_id) {
            Some(lock) => lock,
            // This is the only time at which we create a new creation lock
            None => CompleteLock::new(),
        };
        let state = lock.wait_for_completion();
        if state == Some(CompleteLockState::Complete) {
            // That lock stays deleted, to free up some space
            assert(self@ =~= old(self)@.creation_awaited(message_id));
            return Progress::Ready(Ok(()));
        }
        map_insert(&mut self.creation_locks, message_id, lock);
        assert(self@ =~= old(self)@.creation_awaited(message_id));
        match state {
            None => Progress::Pending,
            Some(_) => Progress::Ready(Err(Error::LockPoisoned { index: message_id })),
        }
    }

    /// Goes on waiting until the given message has been created, for somebody who had to wait for
    /// that. This will be ready as soon as the creation lock that they wait on has been completed,
    /// and will delete that lock to free up some space.
    ///
    /// If this finds a poisoned creation lock, it will fail.
    pub fn resume_message_creation(&mut self, message_id: IpfiInteger) -> (progress: Progress<
        Result<(), Error>,
    >)
        ensures
            progress == old(self)@.resumption_progress(message_id),
            final(self)@ == old(self)@.creation_resumed(message_id),
    {
        let lock = match map_remove(&mut self.creation_locks, message_id) {
            Some(lock) => lock,
            // Somebody else who waited for the same message has been here before
            None => return Progress::Ready(Ok(())),
        };
        match lock.wait_for_completion() {
            Some(CompleteLockState::Complete) => Progress::Ready(Ok(())),
            state => {
                map_insert(&mut self.creation_locks, message_id, lock);
                assert(self@ =~= old(self)@.creation_resumed(message_id));
                match state {
                    None => Progress::Pending,
                    Some(_) => Progress::Ready(Err(Error::LockPoisoned { index: message_id })),
                }
            },
        }
    }

    /// Waits until the given message has been created and completed.
    ///
    /// If this finds any of the underlying completion locks to be poisoned, it will fail.
    pub fn wait_for_message(&mut self, message_id: IpfiInteger) -> (progress: Progress<
        Result<(), Error>,
    >)
        requires
            !old(self)@.stranded(message_id),
        ensures
            progress == old(self)@.message_progress(message_id),
            final(self)@ == old(self)@.creation_awaited(message_id),
    {
        match self.wait_for_message_creation(message_id) {
            Progress::Ready(Ok(_)) => match self.get_complete_lock(message_id) {
                Some(CompleteLockState::Complete) => Progress::Ready(Ok(())),
                Some(CompleteLockState::Poisoned) => Progress::Ready(
                    Err(Error::LockPoisoned { index: message_id }),
                ),
                _ => Progress::Pending,
            },
            progress => progress,
        }
    }

    /// Gets the current state of the given message's completion lock, if it exists. The lock itself
    /// stays with the message.
    pub fn get_complete_lock(&mut self, message_id: IpfiInteger) -> (state: Option<
        CompleteLockState,
    >)
        ensures
            final(self)@ == old(self)@,
            state == (if old(self)@.messages.contains_key(message_id) {
                Some(old(self)@.messages[message_id].lock)
            } else {
                None
            }),
    {
        match map_remove(&mut self.messages, message_id) {
            Some(message) => {
                let state = message.lock_state();
                map_insert(&mut self.messages, message_id, message);
                Some(state)
            },
            None => None,
        }
    }

    /// Gets the serial number of the given message's completion lock, if it exists.
    pub fn get_lock_serial(&mut self, message_id: IpfiInteger) -> (serial: Option<u64>)
        ensures
            final(self)@ == old(self)@,
            serial == (if old(self)@.messages.contains_key(message_id) {
                Some(old(self)@.messages[message_id].serial)
            } else {
                None
            }),
    {
        match map_remove(&mut self.messages, message_id) {
            Some(message) => {
                let serial: u64 = message.serial();
                map_insert(&mut self.messages, message_id, message);
                Some(serial)
            },
            None => None,
        }
    }

    /// Same as `.get()`, but gets all of the chunks in which the message was sent, which, for the
    /// vast majority of messages, will be only one.
    ///
    /// This has to wait until the message with the given identifier has been created and
    /// completed.
    ///
    /// Note that this method will extract the underlying message from the given buffer index,
    /// leaving it available for future messages or procedure call metadata. This means that
    /// requesting the same message index may yield completely different data.
    pub fn get_raw(&mut self, message_id: IpfiInteger) -> (progress: Progress<
        Result<Vec<Vec<u8>>, Error>,
    >)
        requires
            !old(self)@.stranded(message_id),
        ensures
            match old(self)@.message_progress(message_id) {
                Progress::Pending => progress is Pending && final(self)@
                    == old(self)@.creation_awaited(message_id),
                Progress::Ready(Err(error)) => progress == Progress::Ready(
                    Err::<Vec<Vec<u8>>, Error>(error),
                ) && final(self)@ == old(self)@.creation_awaited(message_id),
                Progress::Ready(Ok(_)) => {
                    &&& final(self)@ == old(self)@.creation_awaited(message_id).popped(message_id)
                    &&& progress matches Progress::Ready(Ok(chunks)) && bytes_of(chunks@)
                        == old(self)@.messages[message_id].chunks
                },
            },
    {
        match self.wait_for_message(message_id) {
            Progress::Pending => Progress::Pending,
            Progress::Ready(Err(error)) => Progress::Ready(Err(error)),
            Progress::Ready(Ok(_)) => match self.pop(message_id) {
                // This will also prepare the message identifier for reuse
                Some(message) => Progress::Ready(Ok(message.into_chunks())),
                None => Progress::Pending,
            },
        }
    }

    /// Gets an object of the given type from the given message buffer index of the interface. This
    /// has to wait for the given message buffer to be (1) created and (2) marked as complete.
    ///
    /// For messages with multiple chunks, this will only pay attention to the first chunk. For
    /// chunked messages, you should prefer `.get_chunks()`, which will deserialise as many chunks
    /// as are available. To determine whether or not a message has been chunked, you can use
    /// `.is_chunked()`.
    ///
    /// Note that this method will extract the underlying message from the given buffer index,
    /// leaving it available for future messages or procedure call metadata, even if what was in it
    /// cannot be deserialised.
    pub fn get<T: Unpack>(&mut self, message_id: IpfiInteger) -> (progress: Progress<
        Result<T, Error>,
    >)
        requires
            !old(self)@.stranded(message_id),
        ensures
            match old(self)@.message_progress(message_id) {
                Progress::Pending => progress is Pending && final(self)@
                    == old(self)@.creation_awaited(message_id),
                Progress::Ready(Err(error)) => progress == Progress::Ready(
                    Err::<T, Error>(error),
                ) && final(self)@ == old(self)@.creation_awaited(message_id),
                Progress::Ready(Ok(_)) => {
                    &&& final(self)@ == old(self)@.creation_awaited(message_id).popped(message_id)
                    &&& match progress {
                        Progress::Ready(Ok(value)) => T::unpacked(
                            old(self)@.messages[message_id].chunks[0],
                        ) == Some(value@),
                        Progress::Ready(Err(error)) => error == Error::Decode && T::unpacked(
                            old(self)@.messages[message_id].chunks[0],
                        ) is None,
                        Progress::Pending => false,
                    }
                },
            },
    {
        match self.wait_for_message(message_id) {
            Progress::Pending => Progress::Pending,
            Progress::Ready(Err(error)) => Progress::Ready(Err(error)),
            Progress::Ready(Ok(_)) => match self.pop(message_id) {
                // There will always be at least one chunk
                Some(message) => Progress::Ready(T::unpack(message.first_chunk().as_slice())),
                None => Progress::Pending,
            },
        }
    }

    /// Same as `.get()`, except this is designed to be used for procedures that are known to
    /// stream their output in discrete chunks. There are two broad types of streaming procedures:
    /// those that stream bytes gradually that eventually become part of a greater whole (all
    /// deserialised at once), and those that stream discrete objects that should all be
    /// deserialised independently. This function is for the latter type.
    ///
    /// Note that, if used on any other type of message, this will still work, it will just produce
    /// a vector of length 1 (as there was only one chunk involved).
    ///
    /// Bear in mind that, if `.get_chunk_stream()` has been previously called on this message,
    /// then this will produce no data (as the chunks will have been streamed to the receiver in
    /// real-time). In that case, `None` will be returned for clarity.
    pub fn get_chunks<T: Unpack>(&mut self, message_id: IpfiInteger) -> (progress: Progress<
        Result<Option<Vec<T>>, Error>,
    >)
        requires
            !old(self)@.stranded(message_id),
        ensures
            match old(self)@.message_progress(message_id) {
                Progress::Pending => progress is Pending && final(self)@
                    == old(self)@.creation_awaited(message_id),
                Progress::Ready(Err(error)) => progress == Progress::Ready(
                    Err::<Option<Vec<T>>, Error>(error),
                ) && final(self)@ == old(self)@.creation_awaited(message_id),
                Progress::Ready(Ok(_)) => if old(self)@.messages[message_id].sender is Absent {
                    &&& final(self)@ == old(self)@.creation_awaited(message_id).popped(message_id)
                    &&& match progress {
                        Progress::Ready(Ok(Some(values))) => deserialised(
                            old(self)@.messages[message_id].chunks,
                            values@,
                        ),
                        Progress::Ready(Err(error)) => error == Error::Decode && exists|i: int|
                            0 <= i < old(self)@.messages[message_id].chunks.len()
                                && #[trigger] T::unpacked(
                                old(self)@.messages[message_id].chunks[i],
                            ) is None,
                        _ => false,
                    }
                } else {
                    &&& final(self)@ == old(self)@.creation_awaited(message_id)
                    &&& progress == Progress::Ready(Ok::<Option<Vec<T>>, Error>(None))
                },
            },
    {
        // Wait for the message and check if it has a sender attached: if so, this method would
        // yield no useful information because everything is streamed in real-time
        match self.has_stream(message_id) {
            Progress::Pending => return Progress::Pending,
            Progress::Ready(Err(error)) => return Progress::Ready(Err(error)),
            Progress::Ready(Ok(true)) => return Progress::Ready(Ok(None)),
            Progress::Ready(Ok(false)) => {},
        }
        // We've already waited on the message, so we can safely directly pop it out
        let chunks = match self.pop(message_id) {
            Some(message) => message.into_chunks(),
            None => return Progress::Pending,
        };
        match deserialise_all(chunks.as_slice()) {
            Ok(values) => Progress::Ready(Ok(Some(values))),
            Err(error) => Progress::Ready(Err(error)),
        }
    }

    /// Returns whether or not the given message is chunked. This has to wait until the message has
    /// been completed. Note that whether or not a message is chunked is purely determined by
    /// whether or not the sender terminates a chunk explicitly (thereby creating a second chunk,
    /// etc.).
    pub fn is_chunked(&mut self, message_id: IpfiInteger) -> (progress: Progress<
        Result<bool, Error>,
    >)
        requires
            !old(self)@.stranded(message_id),
        ensures
            final(self)@ == old(self)@.creation_awaited(message_id),
            progress == (match old(self)@.message_progress(message_id) {
                Progress::Pending => Progress::Pending,
                Progress::Ready(Err(error)) => Progress::Ready(Err::<bool, Error>(error)),
                Progress::Ready(Ok(_)) => Progress::Ready(
                    Ok(old(self)@.messages[message_id].chunks.len() > 1),
                ),
            }),
    {
        match self.wait_for_message(message_id) {
            Progress::Pending => Progress::Pending,
            Progress::Ready(Err(error)) => Progress::Ready(Err(error)),
            Progress::Ready(Ok(_)) => match map_remove(&mut self.messages, message_id) {
                Some(message) => {
                    let chunked = message.is_chunked();
                    map_insert(&mut self.messages, message_id, message);
                    Progress::Ready(Ok(chunked))
                },
                None => Progress::Pending,
            },
        }
    }

    /// Returns whether or not the given message has a real-time chunk receiver registered on it.
    /// If so, this likely indicates that the message buffer will be incomplete and should not be
    /// fetched directly. This has to wait until the given message has been completed.
    pub fn has_stream(&mut self, message_id: IpfiInteger) -> (progress: Progress<
        Result<bool, Error>,
    >)
        requires
            !old(self)@.stranded(message_id),
        ensures
            final(self)@ == old(self)@.creation_awaited(message_id),
            progress == (match old(self)@.message_progress(message_id) {
                Progress::Pending => Progress::Pending,
                Progress::Ready(Err(error)) => Progress::Ready(Err::<bool, Error>(error)),
                Progress::Ready(Ok(_)) => Progress::Ready(
                    Ok(!(old(self)@.messages[message_id].sender is Absent)),
                ),
            }),
    {
        match self.wait_for_message(message_id) {
            Progress::Pending => Progress::Pending,
            Progress::Ready(Err(error)) => Progress::Ready(Err(error)),
            Progress::Ready(Ok(_)) => match map_remove(&mut self.messages, message_id) {
                Some(message) => {
                    let streaming = message.sender() != ChunkSender::Absent;
                    map_insert(&mut self.messages, message_id, message);
                    Progress::Ready(Ok(streaming))
                },
                None => Progress::Pending,
            },
        }
    }

    /// Creates a sender/receiver pair that can be used to accessing the chunks in a message in
    /// real-time. Once this method is called, any future `.get_chunks()` calls are guaranteed to
    /// return `None`, as they cannot provide useful information. Essentially, once this is called,
    /// all bytes are piped out to the created receiver, rather than being saved.
    ///
    /// If the provided message buffer does not yet exist, this has to wait for it to before
    /// creating the sender/receiver pair.
    pub fn get_chunk_stream(&mut self, message_id: IpfiInteger) -> (progress: Progress<
        Result<ChunkReceiver, Error>,
    >)
        requires
            !old(self)@.stranded(message_id),
        ensures
            match old(self)@.creation_progress(message_id) {
                Progress::Pending => progress is Pending && final(self)@
                    == old(self)@.creation_awaited(message_id),
                Progress::Ready(Err(error)) => progress == Progress::Ready(
                    Err::<ChunkReceiver, Error>(error),
                ) && final(self)@ == old(self)@.creation_awaited(message_id),
                Progress::Ready(Ok(_)) => {
                    &&& final(self)@ == old(self)@.creation_awaited(message_id).streaming(
                        message_id,
                    )
                    &&& progress matches Progress::Ready(Ok(receiver)) && receiver@ == (
                    ReceiverState {
                        stream: old(self)@.next_serial,
                        message_id,
                        serial: old(self)@.messages[message_id].serial,
                        timeout_millis: 10,
                    })
                },
            },
    {
        match self.wait_for_message_creation(message_id) {
            Progress::Pending => Progress::Pending,
            Progress::Ready(Err(error)) => Progress::Ready(Err(error)),
            Progress::Ready(Ok(_)) => {
                let mut message = match map_remove(&mut self.messages, message_id) {
                    Some(message) => message,
                    None => return Progress::Pending,
                };
                match message.sender() {
                    ChunkSender::Attached(previous_id) => {
                        match self.streams.remove(&previous_id) {
                            Some(previous) => {
                                let mut previous = previous;
                                previous.close();
                                self.streams.insert(previous_id, previous);
                            },
                            None => {},
                        }
                    },
                    _ => {},
                }
                let stream: u64 = self.take_serial();
                let serial: u64 = message.serial();
                self.streams.insert(stream, ChunkStream::new());
                message.set_sender(ChunkSender::Attached(stream));
                map_insert(&mut self.messages, message_id, message);
                assert(self@ =~= old(self)@.creation_awaited(message_id).streaming(message_id));
                Progress::Ready(
                    Ok(ChunkReceiver { stream, message_id, serial, timeout_millis: 10 }),
                )
            },
        }
    }

    /// Waits to receive the raw bytes of the next chunk, or the end of the message.
    ///
    /// If this finds that the underlying message's completion lock has been poisoned (which would
    /// typically happen if the wire had been terminated), and there is no chunk left, then it will
    /// return an error. Note that this does not necessarily mean that it cannot be polled again: if
    /// the message is later completed, any poisons would be removed and this would calmly return
    /// `Ok(None)`.
    pub fn recv_raw(&mut self, receiver: &ChunkReceiver) -> (progress: Progress<
        Result<Option<Vec<u8>>, Error>,
    >)
        ensures
            final(self)@ == old(self)@.received(receiver@),
            match old(self)@.receive_progress(receiver@) {
                Progress::Pending => progress is Pending,
                Progress::Ready(Err(error)) => progress == Progress::Ready(
                    Err::<Option<Vec<u8>>, Error>(error),
                ),
                Progress::Ready(Ok(None)) => progress == Progress::Ready(
                    Ok::<Option<Vec<u8>>, Error>(None),
                ),
                Progress::Ready(Ok(Some(bytes))) => progress matches Progress::Ready(
                    Ok(Some(chunk)),
                ) && chunk@ == bytes,
            },
    {
        let mut stream = match self.streams.remove(&receiver.stream) {
            Some(stream) => stream,
            None => return Progress::Ready(Ok(None)),
        };
        let received = stream.receive();
        let open = stream.is_open();
        let mut lock = stream.lock();
        self.streams.insert(receiver.stream, stream);
        match received {
            Some(chunk) => return Progress::Ready(Ok(Some(chunk))),
            None => {},
        }
        if self.get_lock_serial(receiver.message_id) == Some(receiver.serial) {
            match self.get_complete_lock(receiver.message_id) {
                Some(current) => {
                    lock = current;
                },
                None => {},
            }
        }
        if lock == CompleteLockState::Poisoned {
            Progress::Ready(Err(Error::LockPoisoned { index: receiver.message_id }))
        } else if open {
            Progress::Pending
        } else {
            Progress::Ready(Ok(None))
        }
    }

    /// Waits to receive the next chunk, deserialising it into the given type. Generally, all chunks
    /// will be deserialised into the same type, however it is perfectly possible, if there is a
    /// known type layout, to deserialise one chunk as one type and a different one as another.
    ///
    /// The convoluted return type of this function indicates the following:
    ///     1. There could be a poisoned lock involved when we poll, so there might be an error with
    ///        polling,
    ///     2. But if there isn't, the sender might have been dropped (i.e. message is complete),
    ///     3. Even if there is a chunk, we might fail to deserialise it,
    ///     4. If all that works, you get `T`.
    pub fn recv<T: Unpack>(&mut self, receiver: &ChunkReceiver) -> (progress: Progress<
        Result<Option<Result<T, Error>>, Error>,
    >)
        ensures
            final(self)@ == old(self)@.received(receiver@),
            match old(self)@.receive_progress(receiver@) {
                Progress::Pending => progress is Pending,
                Progress::Ready(Err(error)) => progress == Progress::Ready(
                    Err::<Option<Result<T, Error>>, Error>(error),
                ),
                Progress::Ready(Ok(None)) => progress == Progress::Ready(
                    Ok::<Option<Result<T, Error>>, Error>(None),
                ),
                Progress::Ready(Ok(Some(bytes))) => progress matches Progress::Ready(
                    Ok(Some(decoded)),
                ) && match decoded {
                    Ok(value) => T::unpacked(bytes) == Some(value@),
                    Err(error) => error == Error::Decode && T::unpacked(bytes) is None,
                },
            },
    {
        match self.recv_raw(receiver) {
            Progress::Pending => Progress::Pending,
            Progress::Ready(Err(error)) => Progress::Ready(Err(error)),
            Progress::Ready(Ok(None)) => Progress::Ready(Ok(None)),
            Progress::Ready(Ok(Some(bytes))) => Progress::Ready(
                Ok(Some(T::unpack(bytes.as_slice()))),
            ),
        }
    }

    /// Drops a receiver, after which the chunks of the message it tracked stay in the message.
    pub fn drop_receiver(&mut self, receiver: ChunkReceiver)
        ensures
            final(self)@ == (InterfaceState {
                streams: old(self)@.streams.remove(receiver@.stream),
                ..old(self)@
            }),
    {
        self.streams.remove(&receiver.stream);
    }
}

} // verus!
