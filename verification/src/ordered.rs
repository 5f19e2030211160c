//! Interfaces whose messages are numbered in the order in which they are created.
//!
//! These never delete a message, and create messages implicitly: whoever writes to the message
//! that is next in line creates it by doing so.
use crate::collections::{
    call_buffers_of, index_get, index_insert, locks_of, map_contains_key, map_get, map_insert,
    map_remove, new_call_buffer_map, new_lock_map, new_procedure_map, procedures_of, FxMap, IntMap,
};
use crate::complete_lock::{CompleteLock, CompleteLockState};
use crate::error::Error;
use crate::interface::{ArgumentFormat, Procedure, ProcedureKind, Progress};
use crate::message::views;
use crate::pack::{frame_args, framed, Unpack};
use crate::types::IpfiInteger;
use vstd::prelude::*;

verus! {

broadcast use crate::message::group_view_lemmas;

/// A message of an ordered interface, as its bytes and whether it is complete.
#[verifier::ext_equal]
pub struct OrderedMessage {
    pub bytes: Seq<u8>,
    pub lock: CompleteLockState,
}

impl OrderedMessage {
    /// A message that nothing has been written to yet.
    pub open spec fn fresh() -> OrderedMessage {
        OrderedMessage { bytes: Seq::empty(), lock: CompleteLockState::Incomplete }
    }

    /// The message with some more bytes at its end.
    pub open spec fn appended(self, data: Seq<u8>) -> OrderedMessage {
        OrderedMessage { bytes: self.bytes + data, ..self }
    }

    /// The message after it has been completed.
    pub open spec fn completed(self) -> OrderedMessage {
        OrderedMessage { lock: CompleteLockState::Complete, ..self }
    }
}

/// Everything that an ordered interface knows.
#[verifier::ext_equal]
pub struct OrderedState {
    /// The messages that exist, in the order in which they were created.
    pub messages: Seq<OrderedMessage>,
    /// Whether messages that somebody is waiting for have been created.
    pub creation_locks: Map<IpfiInteger, CompleteLockState>,
    /// The procedures that can be called, by their indices.
    pub procedures: Map<IpfiInteger, Procedure>,
    /// The messages in which arguments are accumulated, by procedure index, call index and wire.
    pub call_buffers: Map<(IpfiInteger, IpfiInteger, IpfiInteger), IpfiInteger>,
    /// The identifier of the next wire.
    pub next_wire_id: IpfiInteger,
}

impl OrderedState {
    /// An interface without any messages, procedures or wires.
    pub open spec fn initial() -> OrderedState {
        OrderedState {
            messages: Seq::empty(),
            creation_locks: Map::empty(),
            procedures: Map::empty(),
            call_buffers: Map::empty(),
            next_wire_id: 0,
        }
    }

    /// After an empty message has been created.
    pub open spec fn pushed(self) -> OrderedState {
        let idx = self.messages.len() as IpfiInteger;
        OrderedState {
            messages: self.messages.push(OrderedMessage::fresh()),
            creation_locks: if self.creation_locks.contains_key(idx) {
                self.creation_locks.insert(idx, CompleteLockState::Complete)
            } else {
                self.creation_locks
            },
            ..self
        }
    }

    /// After the given message has been created, if it is next in line.
    pub open spec fn reached(self, idx: IpfiInteger) -> OrderedState {
        if idx == self.messages.len() {
            self.pushed()
        } else {
            self
        }
    }

    /// Why nothing can be written to a message, if that is so: there have to be more messages
    /// before it, or it is complete.
    pub open spec fn refusal(self, idx: IpfiInteger) -> Option<Error> {
        if idx > self.messages.len() {
            Some(Error::OutOfBounds { index: idx })
        } else if idx < self.messages.len() && self.messages[idx as int].lock is Complete {
            Some(Error::AlreadyCompleted { index: idx })
        } else {
            None
        }
    }

    /// After bytes have been appended to a message.
    pub open spec fn appended(self, idx: IpfiInteger, data: Seq<u8>) -> OrderedState {
        let reached = self.reached(idx);
        OrderedState {
            messages: reached.messages.update(
                idx as int,
                reached.messages[idx as int].appended(data),
            ),
            ..reached
        }
    }

    /// After a message has been completed.
    pub open spec fn completed(self, idx: IpfiInteger) -> OrderedState {
        let reached = self.reached(idx);
        OrderedState {
            messages: reached.messages.update(
                idx as int,
                reached.messages[idx as int].completed(),
            ),
            ..reached
        }
    }

    /// The message that accumulates the arguments of the given procedure call: either the one
    /// that already does, or the one that is created next.
    pub open spec fn call_buffer(
        self,
        call: (IpfiInteger, IpfiInteger, IpfiInteger),
    ) -> IpfiInteger {
        if self.call_buffers.contains_key(call) {
            self.call_buffers[call]
        } else {
            self.messages.len() as IpfiInteger
        }
    }

    /// With a message that accumulates the arguments of the given procedure call.
    pub open spec fn with_call_buffer(
        self,
        call: (IpfiInteger, IpfiInteger, IpfiInteger),
    ) -> OrderedState {
        if self.call_buffers.contains_key(call) {
            self
        } else {
            OrderedState {
                call_buffers: self.call_buffers.insert(
                    call,
                    self.messages.len() as IpfiInteger,
                ),
                ..self.pushed()
            }
        }
    }

    /// Whether a message can be read: it has to exist, and to be complete.
    pub open spec fn readable(self, idx: IpfiInteger) -> bool {
        idx < self.messages.len() && !(self.messages[idx as int].lock is Incomplete)
    }

    /// After somebody has asked for a message: there is a creation lock for it if it does not
    /// exist.
    pub open spec fn awaited(self, idx: IpfiInteger) -> OrderedState {
        if idx >= self.messages.len() && !self.creation_locks.contains_key(idx) {
            OrderedState {
                creation_locks: self.creation_locks.insert(idx, CompleteLockState::Incomplete),
                ..self
            }
        } else {
            self
        }
    }
}

/// A message of an ordered interface.
struct Entry {
    bytes: Vec<u8>,
    lock: CompleteLock,
}

impl View for Entry {
    type V = OrderedMessage;

    closed spec fn view(&self) -> OrderedMessage {
        OrderedMessage { bytes: self.bytes@, lock: self.lock@ }
    }
}

/// An interface on which messages are written in the order of their indices.
///
/// Each time a new value is sent into the interface, it will be added to the provided message,
/// allowing data from multiple sources to be simultaneously accumulated. Once `-1` is sent, the
/// message will be marked as completed, and future attempts to write to it will fail. Once a
/// message is accumulated, it will be stored until the interface is dropped.
pub struct Interface {
    /// The messages received over the interface.
    messages: Vec<Entry>,
    /// A record of locks used to wait on the existence of a certain message index.
    creation_locks: IntMap<CompleteLock>,
    /// The procedures registered on this interface.
    procedures: IntMap<Procedure>,
    /// A map of `(procedure_idx, call_idx, wire_id)` to the message that accumulates arguments.
    call_to_buffer_map: FxMap<(IpfiInteger, IpfiInteger, IpfiInteger)>,
    /// The identifier that will be used for the next wire that connects to this interface.
    next_wire_id: IpfiInteger,
}

impl View for Interface {
    type V = OrderedState;

    closed spec fn view(&self) -> OrderedState {
        OrderedState {
            messages: Seq::new(self.messages@.len(), |i: int| self.messages@[i]@),
            creation_locks: views(locks_of(self.creation_locks)),
            procedures: procedures_of(self.procedures),
            call_buffers: call_buffers_of(self.call_to_buffer_map),
            next_wire_id: self.next_wire_id,
        }
    }
}

impl Default for Interface {
    fn default() -> (interface: Self)
        ensures
            interface@ == OrderedState::initial(),
    {
        let interface = Self {
            messages: Vec::new(),
            creation_locks: new_lock_map(),
            procedures: new_procedure_map(),
            call_to_buffer_map: new_call_buffer_map(),
            next_wire_id: 0,
        };
        assert(interface@ =~= OrderedState::initial());
        interface
    }
}

impl Interface {
    /// Initializes a new interface.
    pub fn new() -> (interface: Self)
        ensures
            interface@ == OrderedState::initial(),
    {
        Self::default()
    }

    /// Counts the messages.
    pub fn message_count(&self) -> (count: usize)
        ensures
            count == self@.messages.len(),
    {
        self.messages.len()
    }

    /// Gets an ID for a wire that will depend on this interface, to make sure its procedure calls
    /// do not overlap with those of other wires.
    pub fn get_id(&mut self) -> (id: IpfiInteger)
        requires
            old(self)@.next_wire_id < IpfiInteger::MAX,
        ensures
            id == old(self)@.next_wire_id,
            final(self)@ == (OrderedState {
                next_wire_id: (old(self)@.next_wire_id + 1) as IpfiInteger,
                ..old(self)@
            }),
    {
        let id: IpfiInteger = self.next_wire_id;
        self.next_wire_id = id + 1;
        id
    }

    /// Tells whether there is an identifier left for one more wire.
    pub fn has_id(&self) -> (available: bool)
        ensures
            available == (self@.next_wire_id < IpfiInteger::MAX),
    {
        self.next_wire_id < IpfiInteger::MAX
    }

    /// Registers a procedure that takes a tuple with the given number of elements.
    pub fn add_procedure(&mut self, idx: IpfiInteger, args_len: u32)
        ensures
            final(self)@ == (OrderedState {
                procedures: old(self)@.procedures.insert(
                    idx,
                    Procedure {
                        kind: ProcedureKind::Standard,
                        format: ArgumentFormat::Tuple(args_len),
                    },
                ),
                ..old(self)@
            }),
    {
        let procedure = Procedure {
            kind: ProcedureKind::Standard,
            format: ArgumentFormat::Tuple(args_len),
        };
        map_insert(&mut self.procedures, idx, procedure);
    }

    /// Prepares to call the procedure with the given index, with the arguments in the given
    /// message, which it expects to be completed. This will not wait for a completion (or creation)
    /// of that message.
    ///
    /// What this returns are the bytes from which the procedure deserialises its arguments. This
    /// can only fail to prepare them for procedures without any.
    pub fn call_procedure(&self, procedure_idx: IpfiInteger, args_buf_idx: IpfiInteger) -> (result:
        Result<Vec<u8>, Error>)
        ensures
            if !self@.procedures.contains_key(procedure_idx) {
                result == Err::<Vec<u8>, Error>(Error::NoSuchProcedure { index: procedure_idx })
            } else if args_buf_idx >= self@.messages.len() {
                result == Err::<Vec<u8>, Error>(Error::NoCallBuffer { index: args_buf_idx })
            } else if !(self@.messages[args_buf_idx as int].lock is Complete) {
                result == Err::<Vec<u8>, Error>(
                    Error::CallBufferIncomplete { index: args_buf_idx },
                )
            } else {
                match self@.procedures[procedure_idx].format {
                    ArgumentFormat::Raw => result matches Ok(bytes) && bytes@
                        == self@.messages[args_buf_idx as int].bytes,
                    ArgumentFormat::Tuple(len) => match result {
                        Ok(bytes) => bytes@ == framed(
                            len,
                            self@.messages[args_buf_idx as int].bytes,
                        ),
                        Err(error) => error == Error::Encode && len == 0,
                    },
                }
            },
    {
        let procedure = match map_get(&self.procedures, procedure_idx) {
            Some(procedure) => procedure,
            None => return Err(Error::NoSuchProcedure { index: procedure_idx }),
        };
        if args_buf_idx as usize >= self.messages.len() {
            return Err(Error::NoCallBuffer { index: args_buf_idx });
        }
        let message = &self.messages[args_buf_idx as usize];
        if !message.lock.completed() {
            return Err(Error::CallBufferIncomplete { index: args_buf_idx });
        }
        match procedure.format {
            ArgumentFormat::Raw => {
                let mut bytes: Vec<u8> = Vec::new();
                bytes.extend_from_slice(message.bytes.as_slice());
                assert(bytes@ =~= message.bytes@);
                Ok(bytes)
            },
            ArgumentFormat::Tuple(len) => frame_args(len, message.bytes.as_slice()),
        }
    }

    /// Gets the index of a local message buffer to be used to store the given call of the given
    /// procedure from the given wire. This will create a buffer for this call if one doesn't
    /// already exist.
    pub fn get_call_buffer(
        &mut self,
        procedure_idx: IpfiInteger,
        call_idx: IpfiInteger,
        wire_id: IpfiInteger,
    ) -> (buf_idx: IpfiInteger)
        requires
            old(self)@.messages.len() <= IpfiInteger::MAX
                || old(self)@.call_buffers.contains_key((procedure_idx, call_idx, wire_id)),
        ensures
            buf_idx == old(self)@.call_buffer((procedure_idx, call_idx, wire_id)),
            final(self)@ == old(self)@.with_call_buffer((procedure_idx, call_idx, wire_id)),
    {
        let key = (procedure_idx, call_idx, wire_id);
        match index_get(&self.call_to_buffer_map, key) {
            Some(buf_idx) => buf_idx,
            None => {
                let new_idx: IpfiInteger = self.push();
                index_insert(&mut self.call_to_buffer_map, key, new_idx);
                new_idx
            },
        }
    }

    /// Allocates space for a new message buffer, creating a new completion lock. This will also
    /// mark a relevant creation lock as completed if one exists.
    pub fn push(&mut self) -> (idx: IpfiInteger)
        requires
            old(self)@.messages.len() <= IpfiInteger::MAX,
        ensures
            idx == old(self)@.messages.len(),
            final(self)@ == old(self)@.pushed(),
    {
        let new_idx: IpfiInteger = self.messages.len() as IpfiInteger;
        self.messages.push(Entry { bytes: Vec::new(), lock: CompleteLock::new() });
        // If anyone was waiting for this buffer to exist, it now does!
        match map_remove(&mut self.creation_locks, new_idx) {
            Some(lock) => {
                let mut lock = lock;
                lock.mark_complete();
                map_insert(&mut self.creation_locks, new_idx, lock);
            },
            None => {},
        }
        assert(self@ =~= old(self)@.pushed());
        new_idx
    }

    /// Makes sure that the given message can be written to, creating it if it is next in line.
    fn reach(&mut self, message_idx: IpfiInteger) -> (result: Result<(), Error>)
        ensures
            match old(self)@.refusal(message_idx) {
                Some(error) => result == Err::<(), Error>(error) && final(self)@ == old(self)@,
                None => {
                    &&& result == Ok::<(), Error>(())
                    &&& final(self)@ == old(self)@.reached(message_idx)
                    &&& message_idx < final(self)@.messages.len()
                },
            },
    {
        let count: usize = self.messages.len();
        if message_idx as usize > count {
            // Need more messages before this one, dump it
            return Err(Error::OutOfBounds { index: message_idx });
        }
        if message_idx as usize == count {
            // Next in line, we need to allocate a new entry
            self.push();
            return Ok(());
        }
        if self.messages[message_idx as usize].lock.completed() {
            return Err(Error::AlreadyCompleted { index: message_idx });
        }
        Ok(())
    }

    /// Appends bytes to a message that exists.
    fn append(&mut self, message_idx: IpfiInteger, data: &[u8])
        requires
            message_idx < old(self)@.messages.len(),
        ensures
            final(self)@ == old(self)@.appended(message_idx, data@),
    {
        let ghost before = self.messages@[message_idx as int].bytes@;
        self.messages[message_idx as usize].bytes.extend_from_slice(data);
        assert(self.messages@[message_idx as int].bytes@ =~= before + data@);
        assert(self@ =~= old(self)@.appended(message_idx, data@));
    }

    /// Completes a message that exists.
    fn complete(&mut self, message_idx: IpfiInteger)
        requires
            message_idx < old(self)@.messages.len(),
        ensures
            final(self)@ == old(self)@.completed(message_idx),
    {
        self.messages[message_idx as usize].lock.mark_complete();
        assert(self@ =~= old(self)@.completed(message_idx));
    }

    /// Sends the given element through to the interface, adding it to the byte array of the message
    /// with the given identifier. If `-1` is provided, the message will be marked as completed.
    /// This will return an error if the message was already completed, or out-of-bounds, or
    /// otherwise `Ok(true)` if the message buffer is still open, or `Ok(false)` if this call caused
    /// it to complete.
    ///
    /// The reason this fails gracefully for an out-of-bounds message is so other programs, which
    /// may not have been involved in deciding how many message buffers should be in this interface,
    /// can make mistakes without blowing up the program they're sending data.
    pub fn send(&mut self, datum: i8, message_idx: IpfiInteger) -> (result: Result<bool, Error>)
        ensures
            match old(self)@.refusal(message_idx) {
                Some(error) => result == Err::<bool, Error>(error) && final(self)@ == old(self)@,
                None => if datum < 0 {
                    result == Ok::<bool, Error>(false) && final(self)@ == old(self)@.completed(
                        message_idx,
                    )
                } else {
                    result == Ok::<bool, Error>(true) && final(self)@ == old(self)@.appended(
                        message_idx,
                        seq![datum as u8],
                    )
                },
            },
    {
        self.reach(message_idx)?;
        if datum < 0 {
            self.complete(message_idx);
            Ok(false)
        } else {
            let data: [u8; 1] = [datum as u8];
            assert(data@ =~= seq![datum as u8]);
            self.append(message_idx, data.as_slice());
            Ok(true)
        }
    }

    /// Sends many bytes through to the interface. When you have many bytes instead of just one at a
    /// time, this method should be preferred. Note that this method will not allow the termination
    /// of a message, and that should be handled separately.
    pub fn send_many(&mut self, data: &[u8], message_idx: IpfiInteger) -> (result: Result<
        (),
        Error,
    >)
        ensures
            match old(self)@.refusal(message_idx) {
                Some(error) => result == Err::<(), Error>(error) && final(self)@ == old(self)@,
                None => result == Ok::<(), Error>(()) && final(self)@ == old(self)@.appended(
                    message_idx,
                    data@,
                ),
            },
    {
        self.reach(message_idx)?;
        self.append(message_idx, data);
        Ok(())
    }

    /// Explicitly terminates the message with the given index. This will return an error if the
    /// message has already been terminated or if it was out-of-bounds. A message that is next in
    /// line can be terminated, too, and is zero-sized then.
    pub fn terminate_message(&mut self, message_idx: IpfiInteger) -> (result: Result<(), Error>)
        ensures
            match old(self)@.refusal(message_idx) {
                Some(error) => result == Err::<(), Error>(error) && final(self)@ == old(self)@,
                None => result == Ok::<(), Error>(()) && final(self)@ == old(self)@.completed(
                    message_idx,
                ),
            },
    {
        self.reach(message_idx)?;
        self.complete(message_idx);
        Ok(())
    }

    /// Gets an object of the given type from the given message. This has to wait for the given
    /// message to be (1) created and (2) marked as complete.
    pub fn get<T: Unpack>(&mut self, message_idx: IpfiInteger) -> (progress: Progress<
        Result<T, Error>,
    >)
        ensures
            final(self)@ == old(self)@.awaited(message_idx),
            if old(self)@.readable(message_idx) {
                match progress {
                    Progress::Ready(Ok(value)) => T::unpacked(
                        old(self)@.messages[message_idx as int].bytes,
                    ) == Some(value@),
                    Progress::Ready(Err(error)) => error == Error::Decode && T::unpacked(
                        old(self)@.messages[message_idx as int].bytes,
                    ) is None,
                    Progress::Pending => false,
                }
            } else {
                progress is Pending
            },
    {
        match self.get_raw(message_idx) {
            Progress::Ready(bytes) => Progress::Ready(T::unpack(bytes.as_slice())),
            Progress::Pending => Progress::Pending,
        }
    }

    /// Same as `.get()`, but gets the raw byte array instead. Note that this will copy the
    /// underlying bytes.
    pub fn get_raw(&mut self, message_idx: IpfiInteger) -> (progress: Progress<Vec<u8>>)
        ensures
            final(self)@ == old(self)@.awaited(message_idx),
            if old(self)@.readable(message_idx) {
                progress matches Progress::Ready(bytes) && bytes@
                    == old(self)@.messages[message_idx as int].bytes
            } else {
                progress is Pending
            },
    {
        if message_idx as usize >= self.messages.len() {
            if !map_contains_key(&self.creation_locks, message_idx) {
                map_insert(&mut self.creation_locks, message_idx, CompleteLock::new());
            }
            return Progress::Pending;
        }
        let message = &self.messages[message_idx as usize];
        if message.lock.wait_for_completion().is_none() {
            return Progress::Pending;
        }
        let mut bytes: Vec<u8> = Vec::new();
        bytes.extend_from_slice(message.bytes.as_slice());
        assert(bytes@ =~= message.bytes@);
        Progress::Ready(bytes)
    }
}

/// What is read from a message is exactly what was written to it, in the order in which it was
/// written.
pub proof fn law_ordered_round_trip(
    state: OrderedState,
    first: Seq<u8>,
    second: Seq<u8>,
)
    requires
        state.messages.len() <= IpfiInteger::MAX,
    ensures
        ({
            let idx = state.messages.len() as IpfiInteger;
            let written = state.appended(idx, first).appended(idx, second).completed(idx);
            &&& state.refusal(idx) is None
            &&& state.appended(idx, first).refusal(idx) is None
            &&& state.appended(idx, first).appended(idx, second).refusal(idx) is None
            &&& written.readable(idx)
            &&& written.messages[idx as int].bytes == first + second
            &&& written.refusal(idx) == Some(Error::AlreadyCompleted { index: idx })
        }),
{
    let idx = state.messages.len() as IpfiInteger;
    assert(Seq::<u8>::empty() + first =~= first);
}

/// Writing to a message changes no other message, and creates at most the one that is next in line.
pub proof fn law_ordered_writing_is_local(
    state: OrderedState,
    idx: IpfiInteger,
    data: Seq<u8>,
    other: int,
)
    requires
        state.refusal(idx) is None,
        0 <= other < state.messages.len(),
        other != idx,
    ensures
        state.appended(idx, data).messages[other] == state.messages[other],
        state.completed(idx).messages[other] == state.messages[other],
        state.appended(idx, data).messages.len() == (if idx == state.messages.len() {
            state.messages.len() + 1
        } else {
            state.messages.len()
        }),
        state.completed(idx).messages.len() == state.appended(idx, data).messages.len(),
{
}

/// Different calls accumulate their arguments in different messages, and each of them always in the
/// same one.
pub proof fn law_ordered_call_buffers(
    state: OrderedState,
    call: (IpfiInteger, IpfiInteger, IpfiInteger),
    other: (IpfiInteger, IpfiInteger, IpfiInteger),
)
    requires
        state.messages.len() < IpfiInteger::MAX,
        !state.call_buffers.contains_key(call),
        !state.call_buffers.contains_key(other),
        call != other,
    ensures
        ({
            let first = state.with_call_buffer(call);
            let both = first.with_call_buffer(other);
            &&& first.call_buffer(other) != state.call_buffer(call)
            &&& both.call_buffer(call) == state.call_buffer(call)
            &&& both.call_buffer(other) == first.call_buffer(other)
        }),
{
}

/// A new interface has nothing on it. A new message is empty and incomplete.
pub proof fn law_ordered_starts_empty(
    idx: IpfiInteger,
    call: (IpfiInteger, IpfiInteger, IpfiInteger),
)
    ensures
        OrderedState::initial().messages.len() == 0,
        !OrderedState::initial().creation_locks.contains_key(idx),
        !OrderedState::initial().procedures.contains_key(idx),
        !OrderedState::initial().call_buffers.contains_key(call),
        OrderedState::initial().next_wire_id == 0,
        OrderedMessage::fresh().bytes.len() == 0,
        OrderedMessage::fresh().lock is Incomplete,
{
}

/// Creating a message puts one that is empty and incomplete behind all the others. Whoever waits
/// for it to be created sees that it was. Nothing else changes.
pub proof fn law_ordered_push_effect(state: OrderedState, other: IpfiInteger)
    requires
        state.messages.len() <= IpfiInteger::MAX,
    ensures
        ({
            let after = state.pushed();
            let idx = state.messages.len() as IpfiInteger;
            &&& after == (OrderedState {
                messages: after.messages,
                creation_locks: after.creation_locks,
                ..state
            })
            &&& after.messages.len() == state.messages.len() + 1
            &&& after.messages.drop_last() == state.messages
            &&& after.messages.last().bytes.len() == 0
            &&& after.messages.last().lock is Incomplete
            &&& after.creation_locks.dom() == state.creation_locks.dom()
            &&& state.creation_locks.contains_key(idx) ==> after.creation_locks[idx] is Complete
            &&& other != idx ==> after.creation_locks[other] == state.creation_locks[other]
        }),
{
    let after = state.pushed();
    assert(after.messages.drop_last() =~= state.messages);
    assert(after.creation_locks.dom() =~= state.creation_locks.dom());
}

/// A message can be written to if and only if it exists and has not been completed, or is next in
/// line.
pub proof fn law_ordered_refusal(state: OrderedState, idx: IpfiInteger)
    ensures
        state.refusal(idx) == Some(Error::OutOfBounds { index: idx }) <==> idx
            > state.messages.len(),
        state.refusal(idx) == Some(Error::AlreadyCompleted { index: idx }) <==> idx
            < state.messages.len() && state.messages[idx as int].lock is Complete,
        state.refusal(idx) is None <==> idx == state.messages.len() || (idx < state.messages.len()
            && !(state.messages[idx as int].lock is Complete)),
{
}

/// Writing to a message puts the bytes behind those that it has, and completing it marks it as
/// complete. Nothing else changes but that the message is created first if it is next in line.
pub proof fn law_ordered_writing_effect(
    state: OrderedState,
    idx: IpfiInteger,
    data: Seq<u8>,
    other: int,
)
    requires
        state.refusal(idx) is None,
    ensures
        ({
            let reached = if idx == state.messages.len() {
                state.pushed()
            } else {
                state
            };
            let before = reached.messages[idx as int];
            let written = state.appended(idx, data);
            let completed = state.completed(idx);
            &&& written == (OrderedState { messages: written.messages, ..reached })
            &&& written.messages.len() == reached.messages.len()
            &&& written.messages[idx as int].bytes == before.bytes + data
            &&& written.messages[idx as int].lock == before.lock
            &&& completed == (OrderedState { messages: completed.messages, ..reached })
            &&& completed.messages.len() == reached.messages.len()
            &&& completed.messages[idx as int].bytes == before.bytes
            &&& completed.messages[idx as int].lock is Complete
            &&& 0 <= other < reached.messages.len() && other != idx ==> {
                &&& written.messages[other] == reached.messages[other]
                &&& completed.messages[other] == reached.messages[other]
            }
        }),
{
}

/// A message can be read if and only if it exists and its lock is not incomplete, whatever it
/// holds. Hence writing to a message never makes it readable, and completing it always does.
pub proof fn law_ordered_readable(state: OrderedState, idx: IpfiInteger, data: Seq<u8>)
    ensures
        idx >= state.messages.len() ==> !state.readable(idx),
        idx < state.messages.len() ==> (state.readable(idx) <==> !(
        state.messages[idx as int].lock is Incomplete)),
        state.refusal(idx) is None ==> state.completed(idx).readable(idx),
        state.refusal(idx) is None ==> (state.appended(idx, data).readable(idx) <==> state.readable(
            idx,
        )),
{
}

/// Asking for a message that does not exist leaves an incomplete creation lock behind, unless there
/// is one already. Nothing else changes, and asking for one that exists changes nothing at all.
pub proof fn law_ordered_awaiting_effect(
    state: OrderedState,
    idx: IpfiInteger,
    other: IpfiInteger,
)
    ensures
        ({
            let after = state.awaited(idx);
            let locked = state.creation_locks.contains_key(idx);
            &&& idx < state.messages.len() || locked ==> after == state
            &&& idx >= state.messages.len() && !locked ==> {
                &&& after == (OrderedState { creation_locks: after.creation_locks, ..state })
                &&& after.creation_locks.dom() == state.creation_locks.dom().insert(idx)
                &&& after.creation_locks[idx] is Incomplete
                &&& other != idx ==> after.creation_locks[other] == state.creation_locks[other]
            }
        }),
{
    let after = state.awaited(idx);
    if idx >= state.messages.len() && !state.creation_locks.contains_key(idx) {
        assert(after.creation_locks.dom() =~= state.creation_locks.dom().insert(idx));
    }
}

/// The arguments of a call are accumulated in one message: the one that was created when they were
/// first asked for. Asking again changes nothing.
pub proof fn law_ordered_call_buffer_effect(
    state: OrderedState,
    call: (IpfiInteger, IpfiInteger, IpfiInteger),
    other: (IpfiInteger, IpfiInteger, IpfiInteger),
)
    ensures
        ({
            let after = state.with_call_buffer(call);
            let known = state.call_buffers.contains_key(call);
            &&& known ==> after == state && state.call_buffer(call) == state.call_buffers[call]
            &&& !known && state.messages.len() <= IpfiInteger::MAX ==> {
                &&& state.call_buffer(call) == state.messages.len()
                &&& after == (OrderedState { call_buffers: after.call_buffers, ..state.pushed() })
                &&& after.call_buffers[call] == state.messages.len()
            }
            &&& after.call_buffers.contains_key(call)
            &&& after.call_buffer(call) == state.call_buffer(call)
            &&& after.with_call_buffer(call) == after
            &&& other != call ==> {
                &&& after.call_buffers.contains_key(other) <==> state.call_buffers.contains_key(
                    other,
                )
                &&& after.call_buffers[other] == state.call_buffers[other]
            }
        }),
{
}

} // verus!
