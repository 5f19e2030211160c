//! Wires: connections over which procedures are called, and calls are answered.
use crate::collections::{
    calls_of, counters_of, index_get, index_insert, index_remove, map_entries, map_get, map_insert,
    map_remove, new_call_set, new_counter_map, new_packet_queue, new_response_map, new_serial_map,
    packets_of, queue_pop, queue_push, responses_of, serials_of, set_contains, set_insert,
    set_items, set_len, set_remove, CallSet, FxMap, IntMap,
};
use crate::error::{Error, IoErrorKind};
use crate::incoming::{law_parse_consumes, parse, read_message, Received, ReceivedFrame};
use crate::interface::{
    deserialised, CallState, ChunkReceiver, Interface, InterfaceState, PendingCall, Progress,
    ReceiverState,
};
use crate::message::bytes_of;
use crate::pack::{Pack, Unpack};
use crate::procedure_args::ProcedureArgs;
use crate::reader::{unexpected_eof, Reader};
use crate::types::{CallIndex, IpfiInteger, ProcedureIndex, Terminator, WireId};
use crate::wire_utils::{Frame, Message, Packet};
use crossbeam_queue::SegQueue;
use vstd::prelude::*;

verus! {

broadcast use crate::message::group_view_lemmas;

/// The maximum number of procedures that the other side may have ongoing, unless it is set to
/// something else.
pub const DEFAULT_MAX_ONGOING_PROCEDURES: IpfiInteger = 10;

/// Everything that a wire knows.
#[verifier::ext_equal]
pub struct WireState {
    /// The identifier of the wire.
    pub id: IpfiInteger,
    /// Whether the wire only responds to calls.
    pub module_style: bool,
    /// The messages that are to be sent, oldest first.
    pub queue: Seq<Seq<u8>>,
    /// The index of the last call that was made of each remote procedure.
    pub counters: Map<IpfiInteger, IpfiInteger>,
    /// The local messages for the responses to calls, by procedure and call index.
    pub responses: Map<(IpfiInteger, IpfiInteger), IpfiInteger>,
    /// The calls that the other side has started, and that have not been answered completely.
    pub ongoing: Set<(IpfiInteger, IpfiInteger)>,
    /// How many of those there may be.
    pub max_ongoing: IpfiInteger,
    /// The serial numbers of the completion locks of responses that somebody has a handle on.
    pub idle: Map<IpfiInteger, u64>,
    /// Whether the wire has been terminated.
    pub terminated: bool,
    /// How many hold the wire.
    pub holders: u64,
}

impl WireState {
    /// A wire over which nothing has happened yet.
    pub open spec fn initial(id: IpfiInteger, module_style: bool) -> WireState {
        WireState {
            id,
            module_style,
            queue: Seq::empty(),
            counters: Map::empty(),
            responses: Map::empty(),
            ongoing: Set::empty(),
            max_ongoing: DEFAULT_MAX_ONGOING_PROCEDURES,
            idle: Map::empty(),
            terminated: false,
            holders: 1,
        }
    }

    /// Why calls cannot be made over this wire, if that is so.
    pub open spec fn refusal(self) -> Option<Error> {
        if self.terminated {
            Some(Error::WireTerminated)
        } else if self.module_style {
            Some(Error::CallFromModule)
        } else {
            None
        }
    }

    /// With one more message to be sent.
    pub open spec fn queued(self, packet: Packet) -> WireState {
        WireState { queue: self.queue.push(packet.encode()), ..self }
    }

    /// Whether there is an index left for one more call of the given procedure.
    pub open spec fn callable(self, procedure: IpfiInteger) -> bool {
        self.counters.contains_key(procedure) ==> self.counters[procedure] < IpfiInteger::MAX
    }

    /// The index of the next call of the given procedure.
    pub open spec fn next_call(self, procedure: IpfiInteger) -> IpfiInteger {
        if self.counters.contains_key(procedure) {
            (self.counters[procedure] + 1) as IpfiInteger
        } else {
            0
        }
    }

    /// After the next call of the given procedure has been prepared, to be answered in the given
    /// message.
    pub open spec fn call_opened(
        self,
        procedure: IpfiInteger,
        response_idx: IpfiInteger,
    ) -> WireState {
        let call = self.next_call(procedure);
        WireState {
            counters: self.counters.insert(procedure, call),
            responses: self.responses.insert((procedure, call), response_idx),
            ..self
        }
    }

    /// With a handle on the given response.
    pub open spec fn with_handle(self, response_idx: IpfiInteger, serial: u64) -> WireState {
        WireState { idle: self.idle.insert(response_idx, serial), ..self }
    }

    /// Without a handle on the given response.
    pub open spec fn without_handle(self, response_idx: IpfiInteger) -> WireState {
        WireState { idle: self.idle.remove(response_idx), ..self }
    }

    /// After a procedure has been called with all of its arguments at once.
    pub open spec fn called(
        self,
        procedure: IpfiInteger,
        args: Seq<u8>,
        interface: InterfaceState,
    ) -> WireState {
        let response_idx = interface.message_ids.upcoming();
        self.call_opened(procedure, response_idx).queued(
            Packet::Call(
                Frame {
                    procedure,
                    call: self.next_call(procedure),
                    terminator: Terminator::Complete,
                    payload: args,
                },
            ),
        ).with_handle(response_idx, interface.next_serial)
    }

    /// After a procedure has been called with the first part of its arguments.
    pub open spec fn call_begun(
        self,
        procedure: IpfiInteger,
        args: Seq<u8>,
        interface: InterfaceState,
    ) -> WireState {
        self.call_opened(procedure, interface.message_ids.upcoming()).call_continued(
            procedure,
            self.next_call(procedure),
            args,
        )
    }

    /// After another part of the arguments of a call has been sent.
    pub open spec fn call_continued(
        self,
        procedure: IpfiInteger,
        call: IpfiInteger,
        args: Seq<u8>,
    ) -> WireState {
        self.queued(
            Packet::Call(
                Frame { procedure, call, terminator: Terminator::Partial, payload: args },
            ),
        )
    }

    /// After a call has been marked as complete.
    pub open spec fn call_ended(self, procedure: IpfiInteger, call: IpfiInteger) -> WireState {
        self.queued(
            Packet::Call(
                Frame {
                    procedure,
                    call,
                    terminator: Terminator::Complete,
                    payload: Seq::empty(),
                },
            ),
        )
    }

    /// After some (or all) of the response to a call has been sent. The last of it ends the call.
    pub open spec fn responded(
        self,
        procedure: IpfiInteger,
        call: IpfiInteger,
        message: Seq<u8>,
        terminator: Terminator,
    ) -> WireState {
        let frame = Frame { procedure, call, terminator, payload: message };
        let sent = self.queued(Packet::Response(frame));
        if frame.ends() {
            WireState { ongoing: self.ongoing.remove((procedure, call)), ..sent }
        } else {
            sent
        }
    }

    /// After the wire has been marked as terminated.
    pub open spec fn shut(self) -> WireState {
        WireState { terminated: true, ..self }
    }
}

/// Messages in the order in which they were queued, as one sequence of bytes.
pub open spec fn joined(queue: Seq<Seq<u8>>) -> Seq<u8>
    decreases queue.len(),
{
    if queue.len() == 0 {
        Seq::empty()
    } else {
        queue[0] + joined(queue.skip(1))
    }
}

impl InterfaceState {
    /// After the completion locks of responses that somebody has a handle on have been poisoned.
    /// Locks of messages that have been deleted since are of no interest.
    pub open spec fn handles_poisoned(self, idle: Map<IpfiInteger, u64>) -> InterfaceState {
        InterfaceState {
            messages: Map::new(
                |id: IpfiInteger| self.messages.contains_key(id),
                |id: IpfiInteger|
                    if idle.contains_pair(id, self.messages[id].serial) {
                        self.messages[id].poisoned()
                    } else {
                        self.messages[id]
                    },
            ),
            ..self
        }
    }

    /// After the completion locks in a list have been poisoned.
    spec fn list_poisoned(self, handles: Seq<(IpfiInteger, u64)>) -> InterfaceState {
        InterfaceState {
            messages: Map::new(
                |id: IpfiInteger| self.messages.contains_key(id),
                |id: IpfiInteger|
                    if handles.contains((id, self.messages[id].serial)) {
                        self.messages[id].poisoned()
                    } else {
                        self.messages[id]
                    },
            ),
            ..self
        }
    }
}

/// Whether a list holds exactly the items of a set, each of them once.
pub open spec fn enumerates(
    list: Seq<(IpfiInteger, IpfiInteger)>,
    items: Set<(IpfiInteger, IpfiInteger)>,
) -> bool {
    list.no_duplicates() && list.to_set() == items
}

/// What marking a wire as terminated does: the arguments of all ongoing calls are dropped, in
/// whatever order, and all handles on responses are poisoned.
pub open spec fn terminates(
    wire: WireState,
    interface: InterfaceState,
    wire_after: WireState,
    interface_after: InterfaceState,
) -> bool {
    &&& wire_after == wire.shut()
    &&& exists|order: Seq<(IpfiInteger, IpfiInteger)>| #[trigger]
        enumerates(order, wire.ongoing) && interface_after == interface.calls_dropped(
            order,
            wire.id,
        ).handles_poisoned(wire.idle)
}

/// What came of a message that was received.
#[verifier::ext_equal]
pub enum ReceptionState {
    Message(bool),
    EndOfInput,
    Terminated,
    Call(CallState),
}

/// What came of a message that was received.
#[derive(PartialEq, Eq, Debug)]
pub enum Reception {
    /// A message was read, and whether it was the last of its series.
    Message(bool),
    /// There was a manual end of input message.
    EndOfInput,
    /// The other side has terminated the wire.
    Terminated,
    /// The arguments of a procedure call are complete, and it has to be executed. What comes of
    /// that has to be reported with [`Wire::finish_call`].
    Call(PendingCall),
}

impl View for Reception {
    type V = ReceptionState;

    open spec fn view(&self) -> ReceptionState {
        match *self {
            Reception::Message(last) => ReceptionState::Message(last),
            Reception::EndOfInput => ReceptionState::EndOfInput,
            Reception::Terminated => ReceptionState::Terminated,
            Reception::Call(call) => ReceptionState::Call(call@),
        }
    }
}

/// What a wire and its interface make of a message.
#[verifier::ext_equal]
pub struct Handling {
    pub wire: WireState,
    pub interface: InterfaceState,
    pub result: Result<ReceptionState, Error>,
}

/// What is made of arguments for a call. Calls beyond the limit are ignored. Otherwise, the
/// arguments are appended to those that have already arrived, and once they are complete, the
/// procedure is called. An unmarked message without any bytes completes them, too.
pub open spec fn handle_call(wire: WireState, interface: InterfaceState, frame: Frame) -> Handling {
    let key = (frame.procedure, frame.call);
    let call = (frame.procedure, frame.call, wire.id);
    if !wire.ongoing.contains(key) && wire.ongoing.len() >= wire.max_ongoing {
        Handling { wire, interface, result: Ok(ReceptionState::Message(false)) }
    } else {
        let registered = WireState { ongoing: wire.ongoing.insert(key), ..wire };
        let prepared = interface.with_call_buffer(call);
        let buffer = interface.call_buffer(call);
        match prepared.refusal(buffer) {
            Some(error) => Handling { wire: registered, interface: prepared, result: Err(error) },
            None => {
                let filled = prepared.appended(buffer, frame.payload);
                if frame.ends() {
                    let ended = filled.terminated(buffer);
                    Handling {
                        wire: registered,
                        interface: ended.call_started(call),
                        result: match ended.call_result(call) {
                            Ok(call) => Ok(ReceptionState::Call(call)),
                            Err(error) => Err(error),
                        },
                    }
                } else {
                    Handling {
                        wire: registered,
                        interface: filled,
                        result: Ok(ReceptionState::Message(false)),
                    }
                }
            },
        }
    }
}

/// What is made of a response. It is appended to the message that was set aside for it, and to no
/// other. The last of it completes that message, and an unmarked message without any bytes is the
/// last of it, too.
pub open spec fn handle_response(
    wire: WireState,
    interface: InterfaceState,
    frame: Frame,
) -> Handling {
    let key = (frame.procedure, frame.call);
    if !wire.responses.contains_key(key) {
        Handling {
            wire,
            interface,
            result: Err(Error::NoResponseBuffer { index: frame.procedure, call_idx: frame.call }),
        }
    } else {
        let buffer = wire.responses[key];
        match interface.refusal(buffer) {
            Some(error) => Handling { wire, interface, result: Err(error) },
            None => {
                let filled = interface.appended(buffer, frame.payload);
                if frame.ends() {
                    Handling {
                        wire: WireState { responses: wire.responses.remove(key), ..wire },
                        interface: filled.terminated(buffer),
                        result: Ok(ReceptionState::Message(true)),
                    }
                } else if frame.terminator is Chunk {
                    Handling {
                        wire,
                        interface: filled.chunk_terminated(buffer),
                        result: Ok(ReceptionState::Message(false)),
                    }
                } else {
                    Handling {
                        wire,
                        interface: filled,
                        result: Ok(ReceptionState::Message(false)),
                    }
                }
            },
        }
    }
}

/// What is made of a message. What a termination does is stated by [`terminates`].
pub open spec fn handle(
    wire: WireState,
    interface: InterfaceState,
    packet: Option<Packet>,
) -> Handling {
    match packet {
        None => Handling { wire, interface, result: Ok(ReceptionState::Message(false)) },
        Some(Packet::Call(frame)) => handle_call(wire, interface, frame),
        Some(Packet::Response(frame)) => handle_response(wire, interface, frame),
        Some(Packet::EndOfInput) => Handling {
            wire,
            interface,
            result: Ok(ReceptionState::EndOfInput),
        },
        Some(Packet::Termination) => Handling {
            wire,
            interface,
            result: Ok(ReceptionState::Terminated),
        },
    }
}

/// What a wire and its interface make of some input, and what is left of it.
#[verifier::ext_equal]
pub struct Filling {
    pub handling: Handling,
    pub rest: Seq<u8>,
}

/// What is made of all the messages in some input up to the first one that needs attention: one
/// that ends the input, one that terminates the wire, one that completes a call, or one that
/// fails. What a termination does is stated by [`terminates`].
pub open spec fn fill_until(
    wire: WireState,
    interface: InterfaceState,
    input: Seq<u8>,
) -> Filling
    decreases input.len(),
{
    let parsed = parse(input, wire.module_style);
    match parsed.result {
        Err(error) => Filling {
            handling: Handling { wire, interface, result: Err(error) },
            rest: parsed.rest,
        },
        Ok(packet) => {
            let handling = handle(wire, interface, packet);
            proof {
                if input.len() > 0 {
                    law_parse_consumes(input, wire.module_style);
                }
            }
            if handling.result is Ok && handling.result->Ok_0 is Message {
                fill_until(handling.wire, handling.interface, parsed.rest)
            } else {
                Filling { handling, rest: parsed.rest }
            }
        },
    }
}

/// A handle for waiting on the return values of remote procedure calls.
#[must_use]
pub struct CallHandle {
    /// The message index to wait for.
    response_idx: IpfiInteger,
}

impl View for CallHandle {
    type V = IpfiInteger;

    closed spec fn view(&self) -> IpfiInteger {
        self.response_idx
    }
}

/// A mechanism to interact ergonomically with an interface over anything that carries bytes.
///
/// This wire sets up an internal message queue of data needing to be sent, so messages are never
/// interleaved. Reading messages from the other side of the wire will hand out the procedure calls
/// that are needed to satisfy their requests.
///
/// # Termination
///
/// There can be many wires to one interface. However, fundamentally a wire represents a connection
/// between the local program and some remote program, which means that, when the remote program
/// terminates, continuing to use the wire is invalid. As such, wires maintain an internal flag that
/// notes whether or not the other side has terminated them yet, and, if this flag is found to be
/// set, all operations on the wire will fail.
///
/// # Procedure calls
///
/// Procedure calls are managed through a system of procedure indices, which the programmer
/// controls, and *call indices*, which are essentially counters maintained by each wire that mark
/// how many times it has executed a certain procedure. On the remote side, messages received on
/// the same wire from the same call index of a certain procedure index will be grouped together
/// and interpreted as one set of arguments when a message is sent that marks the call as complete.
///
/// When arguments are transmitted as bytes, it is the caller's responsibility to perform the
/// serialization manually, **ignoring the length prefix**, which will be added on the remote when
/// the call is marked as complete. This allows sending not just one argument at a time, but even
/// fractions of single arguments.
///
/// You should be aware that sending zero bytes for arguments is interpreted by the remote as a
/// termination order: the message buffer it uses to receive the arguments for that particular
/// procedure call is closed, and the procedure is called. The same holds of responses. For that
/// reason, the methods that send partial arguments refuse to send zero bytes.
pub struct Wire {
    /// The unique identifier the attached interface has assigned to this wire.
    id: WireId,
    /// Whether this wire only responds to calls. Response messages are ignored if so.
    module_style: bool,
    /// The messages that are to be sent.
    queue: SegQueue<Vec<u8>>,
    /// A map that keeps track of how many times each remote procedure has been called.
    remote_call_counter: IntMap<IpfiInteger>,
    /// A map of procedure and call indices (respectively) to local response buffer indices.
    ///
    /// This ensures that response messages are mapped *locally* to response buffer indices, which
    /// means we can be sure that a remote cannot access and control arbitrary message buffers.
    response_idx_map: FxMap<(IpfiInteger, IpfiInteger)>,
    /// A set of procedure and call indices (respectively) that are accumulating arguments, or whose
    /// response has not been completely sent.
    ongoing_procedures: CallSet,
    /// The maximum number of procedures that the other side of this wire is allowed to accumulate
    /// arguments for or execute simultaneously.
    max_ongoing_procedures: IpfiInteger,
    /// A map of response indices in the attached interface to the serial numbers of their
    /// completion locks, for call handles that have not been waited upon. These are poisoned when
    /// the wire is terminated.
    idle_call_handles: IntMap<u64>,
    /// A flag for whether or not this wire has been terminated. Once it has been, *all* further
    /// operations will fail.
    terminated: bool,
    /// How many hold this wire. Its identifier is theirs until the last of them lets go of it.
    holders: u64,
}

impl View for Wire {
    type V = WireState;

    closed spec fn view(&self) -> WireState {
        WireState {
            id: self.id.0,
            module_style: self.module_style,
            queue: bytes_of(packets_of(self.queue)),
            counters: counters_of(self.remote_call_counter),
            responses: responses_of(self.response_idx_map),
            ongoing: calls_of(self.ongoing_procedures),
            max_ongoing: self.max_ongoing_procedures,
            idle: serials_of(self.idle_call_handles),
            terminated: self.terminated,
            holders: self.holders,
        }
    }
}

impl Wire {
    /// A wire over which nothing has happened yet.
    fn create(id: WireId, module_style: bool) -> (wire: Self)
        ensures
            wire@ == WireState::initial(id.0, module_style),
    {
        let wire = Self {
            id,
            module_style,
            queue: new_packet_queue(),
            remote_call_counter: new_counter_map(),
            response_idx_map: new_response_map(),
            ongoing_procedures: new_call_set(),
            max_ongoing_procedures: DEFAULT_MAX_ONGOING_PROCEDURES,
            idle_call_handles: new_serial_map(),
            terminated: false,
            holders: 1,
        };
        assert(wire@ =~= WireState::initial(id.0, module_style));
        wire
    }

    /// Creates a new wire to work with the given interface.
    ///
    /// This implicitly allows this wire to call functions on the remote, and to receive their
    /// responses. Programs that exist to have their procedures called by others should prefer
    /// [`Wire::new_module`].
    pub fn new(interface: &mut Interface) -> (wire: Self)
        ensures
            wire@ == WireState::initial(old(interface)@.wire_ids.upcoming(), false),
            final(interface)@ == (InterfaceState {
                wire_ids: old(interface)@.wire_ids.advanced(),
                ..old(interface)@
            }),
    {
        let id = interface.get_id();
        Self::create(id, false)
    }

    /// Creates a new wire to work with the given interface. This is the same as `.new()`, except
    /// it disables support for response messages. If you intend for this wire to be used by the
    /// remote to call local functions, but not the other way around, you should use this method.
    pub fn new_module(interface: &mut Interface) -> (wire: Self)
        ensures
            wire@ == WireState::initial(old(interface)@.wire_ids.upcoming(), true),
            final(interface)@ == (InterfaceState {
                wire_ids: old(interface)@.wire_ids.advanced(),
                ..old(interface)@
            }),
    {
        let id = interface.get_id();
        Self::create(id, true)
    }

    /// Sets the maximum number of ongoing procedures that the other end of this wire may invoke.
    /// "Ongoing procedures" refer to two things: procedures that are still accumulating arguments,
    /// and procedures that haven't finished executing yet. Any past that are rejected.
    ///
    /// The default for this is 10.
    pub fn max_ongoing_procedures(self, value: IpfiInteger) -> (wire: Self)
        ensures
            wire@ == (WireState { max_ongoing: value, ..self@ }),
    {
        let mut wire = self;
        wire.limit_ongoing_procedures(value);
        wire
    }

    /// Same as `.max_ongoing_procedures()`, but for a wire that stays where it is.
    pub fn limit_ongoing_procedures(&mut self, value: IpfiInteger)
        ensures
            final(self)@ == (WireState { max_ongoing: value, ..old(self)@ }),
    {
        self.max_ongoing_procedures = value;
    }

    /// Asks the wire whether or not it has been terminated.
    pub fn is_terminated(&self) -> (terminated: bool)
        ensures
            terminated == self@.terminated,
    {
        self.terminated
    }

    /// Gets the identifier of the wire.
    pub fn id(&self) -> (id: WireId)
        ensures
            id.0 == self@.id,
    {
        self.id
    }

    /// Tells whether the wire only responds to calls.
    pub fn is_module_style(&self) -> (module_style: bool)
        ensures
            module_style == self@.module_style,
    {
        self.module_style
    }

    /// Tells whether there is an index left for one more call of the given procedure.
    pub fn can_call(&self, procedure_idx: ProcedureIndex) -> (possible: bool)
        ensures
            possible == self@.callable(procedure_idx.0),
    {
        match map_get(&self.remote_call_counter, procedure_idx.0) {
            Some(last_call_idx) => last_call_idx < IpfiInteger::MAX,
            None => true,
        }
    }

    /// Queues a message.
    fn enqueue(&mut self, message: Message<'_>)
        ensures
            final(self)@ == old(self)@.queued(message@),
    {
        queue_push(&mut self.queue, message.to_bytes());
    }

    /// Creates a new entry in the remote call counter, and sets a message aside on the interface
    /// for the response.
    fn open_call(&mut self, interface: &mut Interface, procedure_idx: ProcedureIndex) -> (opened: (
        CallIndex,
        IpfiInteger,
    ))
        requires
            old(self)@.callable(procedure_idx.0),
        ensures
            opened.0.0 == old(self)@.next_call(procedure_idx.0),
            opened.1 == old(interface)@.message_ids.upcoming(),
            final(interface)@ == old(interface)@.pushed(),
            final(self)@ == old(self)@.call_opened(procedure_idx.0, opened.1),
    {
        let call_idx: IpfiInteger = match map_get(&self.remote_call_counter, procedure_idx.0) {
            Some(last_call_idx) => last_call_idx + 1,
            None => 0,
        };
        map_insert(&mut self.remote_call_counter, procedure_idx.0, call_idx);
        // Allocate a new message buffer on the interface that we'll receive the response into
        let response_idx: IpfiInteger = interface.push();
        // Add that to the remote index map so we can retrieve it for later continuation and
        // termination of this call
        index_insert(&mut self.response_idx_map, (procedure_idx.0, call_idx), response_idx);
        (CallIndex(call_idx), response_idx)
    }

    /// Registers a handle on the given response, so that it is poisoned on termination.
    fn open_handle(&mut self, interface: &mut Interface, response_idx: IpfiInteger) -> (handle:
        CallHandle)
        requires
            old(interface)@.messages.contains_key(response_idx),
        ensures
            handle@ == response_idx,
            final(interface)@ == old(interface)@,
            final(self)@ == old(self)@.with_handle(
                response_idx,
                old(interface)@.messages[response_idx].serial,
            ),
    {
        match interface.get_lock_serial(response_idx) {
            Some(serial) => {
                map_insert(&mut self.idle_call_handles, response_idx, serial);
            },
            None => {},
        }
        CallHandle { response_idx }
    }

    /// Calls the procedure with the given remote procedure index. This will return a handle you
    /// can use to wait for the return value of the procedure.
    ///
    /// Generally, this should be preferred as a high-level method, although several lower-level
    /// methods are available for sending one argument at a time, or similar piecemeal use-cases.
    pub fn call<A: ProcedureArgs>(
        &mut self,
        interface: &mut Interface,
        procedure_idx: ProcedureIndex,
        args: A,
    ) -> (result: Result<CallHandle, Error>)
        requires
            old(self)@.refusal() is None ==> old(self)@.callable(procedure_idx.0),
        ensures
            match old(self)@.refusal() {
                Some(error) => {
                    &&& result == Err::<CallHandle, Error>(error)
                    &&& final(self)@ == old(self)@
                    &&& final(interface)@ == old(interface)@
                },
                None => match result {
                    Ok(handle) => {
                        &&& handle@ == old(interface)@.message_ids.upcoming()
                        &&& final(self)@ == old(self)@.called(
                            procedure_idx.0,
                            args.flattened(),
                            old(interface)@,
                        )
                        &&& final(interface)@ == old(interface)@.pushed()
                    },
                    Err(error) => {
                        &&& error == Error::Encode
                        &&& args.fallible()
                        &&& final(self)@ == old(self)@
                        &&& final(interface)@ == old(interface)@
                    },
                },
            },
    {
        if self.is_terminated() {
            return Err(Error::WireTerminated);
        } else if self.module_style {
            return Err(Error::CallFromModule);
        }
        let args = args.into_bytes()?;
        self.call_with_bytes(interface, procedure_idx, args.as_slice())
    }

    /// Calls the procedure with the given remote procedure index. This will prepare the local
    /// interface for a response also. This function will transmit the given arguments assuming that
    /// they are not all the arguments, and it will leave the remote buffer that stores these
    /// arguments open.
    ///
    /// This will return the call index for this execution, for later reference in continuing or
    /// finishing the call.
    pub fn start_call_with_partial_args<A: ProcedureArgs>(
        &mut self,
        interface: &mut Interface,
        procedure_idx: ProcedureIndex,
        args: A,
    ) -> (result: Result<CallIndex, Error>)
        requires
            old(self)@.refusal() is None && args.flattened().len() > 0 ==> old(self)@.callable(
                procedure_idx.0,
            ),
        ensures
            match old(self)@.refusal() {
                Some(error) => {
                    &&& result == Err::<CallIndex, Error>(error)
                    &&& final(self)@ == old(self)@
                    &&& final(interface)@ == old(interface)@
                },
                None => match result {
                    Ok(call_idx) => {
                        &&& args.flattened().len() > 0
                        &&& call_idx.0 == old(self)@.next_call(procedure_idx.0)
                        &&& final(self)@ == old(self)@.call_begun(
                            procedure_idx.0,
                            args.flattened(),
                            old(interface)@,
                        )
                        &&& final(interface)@ == old(interface)@.pushed()
                    },
                    Err(error) => {
                        &&& (error == Error::Encode && args.fallible()) || (error
                            == Error::ZeroLengthInNonTerminating && args.flattened().len() == 0)
                        &&& final(self)@ == old(self)@
                        &&& final(interface)@ == old(interface)@
                    },
                },
            },
    {
        if self.is_terminated() {
            return Err(Error::WireTerminated);
        } else if self.module_style {
            return Err(Error::CallFromModule);
        }
        let args = args.into_bytes()?;
        self.start_call_with_partial_bytes(interface, procedure_idx, args.as_slice())
    }

    /// Same as `.start_call_with_partial_args()`, but this works directly with bytes, allowing you
    /// to send strange things like two-thirds of an argument.
    pub fn start_call_with_partial_bytes(
        &mut self,
        interface: &mut Interface,
        procedure_idx: ProcedureIndex,
        args: &[u8],
    ) -> (result: Result<CallIndex, Error>)
        requires
            old(self)@.refusal() is None && args@.len() > 0 ==> old(self)@.callable(
                procedure_idx.0,
            ),
        ensures
            match old(self)@.refusal() {
                Some(error) => {
                    &&& result == Err::<CallIndex, Error>(error)
                    &&& final(self)@ == old(self)@
                    &&& final(interface)@ == old(interface)@
                },
                None => if args@.len() == 0 {
                    &&& result == Err::<CallIndex, Error>(Error::ZeroLengthInNonTerminating)
                    &&& final(self)@ == old(self)@
                    &&& final(interface)@ == old(interface)@
                } else {
                    &&& result == Ok::<CallIndex, Error>(
                        CallIndex(old(self)@.next_call(procedure_idx.0)),
                    )
                    &&& final(self)@ == old(self)@.call_begun(
                        procedure_idx.0,
                        args@,
                        old(interface)@,
                    )
                    &&& final(interface)@ == old(interface)@.pushed()
                },
            },
    {
        if self.is_terminated() {
            return Err(Error::WireTerminated);
        } else if self.module_style {
            return Err(Error::CallFromModule);
        }
        if args.len() == 0 {
            return Err(Error::ZeroLengthInNonTerminating);
        }
        let (call_idx, _) = self.open_call(interface, procedure_idx);
        match self.continue_given_call_with_bytes(procedure_idx, call_idx, args) {
            Ok(_) => Ok(call_idx),
            Err(error) => Err(error),
        }
    }

    /// Same as `.call()`, but this works directly with bytes. You must be careful to provide the
    /// full byte serialization here (without the length marker).
    pub fn call_with_bytes(
        &mut self,
        interface: &mut Interface,
        procedure_idx: ProcedureIndex,
        args: &[u8],
    ) -> (result: Result<CallHandle, Error>)
        requires
            old(self)@.refusal() is None ==> old(self)@.callable(procedure_idx.0),
        ensures
            match old(self)@.refusal() {
                Some(error) => {
                    &&& result == Err::<CallHandle, Error>(error)
                    &&& final(self)@ == old(self)@
                    &&& final(interface)@ == old(interface)@
                },
                None => {
                    &&& result matches Ok(handle) && handle@
                        == old(interface)@.message_ids.upcoming()
                    &&& final(self)@ == old(self)@.called(procedure_idx.0, args@, old(interface)@)
                    &&& final(interface)@ == old(interface)@.pushed()
                },
            },
    {
        if self.is_terminated() {
            return Err(Error::WireTerminated);
        } else if self.module_style {
            return Err(Error::CallFromModule);
        }
        // We allow zero-length payloads here (for functions with no arguments in particular)
        let (call_idx, response_idx) = self.open_call(interface, procedure_idx);
        // We can terminate in one go here
        self.enqueue(
            Message::Call { procedure_idx, call_idx, terminator: Terminator::Complete, args },
        );
        Ok(self.open_handle(interface, response_idx))
    }

    /// Continues the procedure call with the given remote procedure index and call index by
    /// sending the given arguments. This will not terminate the message, and will leave it open for
    /// calling.
    pub fn continue_given_call_with_args<A: ProcedureArgs>(
        &mut self,
        procedure_idx: ProcedureIndex,
        call_idx: CallIndex,
        args: A,
    ) -> (result: Result<(), Error>)
        ensures
            match old(self)@.refusal() {
                Some(error) => result == Err::<(), Error>(error) && final(self)@ == old(self)@,
                None => match result {
                    Ok(_) => {
                        &&& args.flattened().len() > 0
                        &&& final(self)@ == old(self)@.call_continued(
                            procedure_idx.0,
                            call_idx.0,
                            args.flattened(),
                        )
                    },
                    Err(error) => {
                        &&& (error == Error::Encode && args.fallible()) || (error
                            == Error::ZeroLengthInNonTerminating && args.flattened().len() == 0)
                        &&& final(self)@ == old(self)@
                    },
                },
            },
    {
        if self.is_terminated() {
            return Err(Error::WireTerminated);
        } else if self.module_style {
            return Err(Error::CallFromModule);
        }
        let args = args.into_bytes()?;
        self.continue_given_call_with_bytes(procedure_idx, call_idx, args.as_slice())
    }

    /// Same as `.continue_given_call_with_args()`, but this works directly with bytes.
    pub fn continue_given_call_with_bytes(
        &mut self,
        procedure_idx: ProcedureIndex,
        call_idx: CallIndex,
        args: &[u8],
    ) -> (result: Result<(), Error>)
        ensures
            match old(self)@.refusal() {
                Some(error) => result == Err::<(), Error>(error) && final(self)@ == old(self)@,
                None => if args@.len() == 0 {
                    result == Err::<(), Error>(Error::ZeroLengthInNonTerminating) && final(self)@
                        == old(self)@
                } else {
                    result == Ok::<(), Error>(()) && final(self)@ == old(self)@.call_continued(
                        procedure_idx.0,
                        call_idx.0,
                        args@,
                    )
                },
            },
    {
        if self.is_terminated() {
            return Err(Error::WireTerminated);
        } else if self.module_style {
            return Err(Error::CallFromModule);
        }
        if args.len() == 0 {
            return Err(Error::ZeroLengthInNonTerminating);
        }
        self.enqueue(
            Message::Call { procedure_idx, call_idx, terminator: Terminator::Partial, args },
        );
        Ok(())
    }

    /// Terminates the given call by sending a zero-length argument payload.
    ///
    /// This will return a handle the caller can use to wait on the return value of the remote
    /// procedure. The message that was set aside for the response must not have been taken from
    /// the interface.
    pub fn end_given_call(
        &mut self,
        interface: &mut Interface,
        procedure_idx: ProcedureIndex,
        call_idx: CallIndex,
    ) -> (result: Result<CallHandle, Error>)
        requires
            old(self)@.refusal() is None && old(self)@.responses.contains_key(
                (procedure_idx.0, call_idx.0),
            ) ==> old(interface)@.messages.contains_key(
                old(self)@.responses[(procedure_idx.0, call_idx.0)],
            ),
        ensures
            final(interface)@ == old(interface)@,
            match old(self)@.refusal() {
                Some(error) => {
                    &&& result == Err::<CallHandle, Error>(error)
                    &&& final(self)@ == old(self)@
                },
                None => {
                    let ended = old(self)@.call_ended(procedure_idx.0, call_idx.0);
                    let response_idx = old(self)@.responses[(procedure_idx.0, call_idx.0)];
                    if old(self)@.responses.contains_key((procedure_idx.0, call_idx.0)) {
                        &&& result matches Ok(handle) && handle@ == response_idx
                        &&& final(self)@ == ended.with_handle(
                            response_idx,
                            old(interface)@.messages[response_idx].serial,
                        )
                    } else {
                        &&& result == Err::<CallHandle, Error>(
                            Error::NoResponseBuffer {
                                index: procedure_idx.0,
                                call_idx: call_idx.0,
                            },
                        )
                        &&& final(self)@ == ended
                    }
                },
            },
    {
        if self.is_terminated() {
            return Err(Error::WireTerminated);
        } else if self.module_style {
            return Err(Error::CallFromModule);
        }
        let args: [u8; 0] = [];
        assert(args@ =~= Seq::<u8>::empty());
        self.enqueue(
            Message::Call {
                procedure_idx,
                call_idx,
                terminator: Terminator::Complete,
                args: args.as_slice(),
            },
        );
        match self.get_response_idx(procedure_idx, call_idx) {
            Ok(response_idx) => Ok(self.open_handle(interface, response_idx)),
            Err(error) => Err(error),
        }
    }

    /// Tells whether the message that was set aside for the response to the given call has been
    /// taken from the interface, in which case the call cannot be ended.
    pub fn is_response_taken(
        &self,
        interface: &mut Interface,
        procedure_idx: ProcedureIndex,
        call_idx: CallIndex,
    ) -> (taken: bool)
        ensures
            final(interface)@ == old(interface)@,
            taken == (self@.responses.contains_key((procedure_idx.0, call_idx.0))
                && !old(interface)@.messages.contains_key(
                self@.responses[(procedure_idx.0, call_idx.0)],
            )),
    {
        match index_get(&self.response_idx_map, (procedure_idx.0, call_idx.0)) {
            Some(response_idx) => interface.get_lock_serial(response_idx).is_none(),
            None => false,
        }
    }

    /// Gets the local response buffer index for the given procedure and call indices. If no such
    /// buffer has been allocated, this will return an error.
    pub fn get_response_idx(&self, procedure_idx: ProcedureIndex, call_idx: CallIndex) -> (result:
        Result<IpfiInteger, Error>)
        ensures
            result == (if self@.terminated {
                Err(Error::WireTerminated)
            } else if self@.responses.contains_key((procedure_idx.0, call_idx.0)) {
                Ok(self@.responses[(procedure_idx.0, call_idx.0)])
            } else {
                Err(
                    Error::NoResponseBuffer { index: procedure_idx.0, call_idx: call_idx.0 },
                )
            }),
    {
        if self.is_terminated() {
            return Err(Error::WireTerminated);
        }
        match index_get(&self.response_idx_map, (procedure_idx.0, call_idx.0)) {
            Some(response_idx) => Ok(response_idx),
            None => Err(
                Error::NoResponseBuffer { index: procedure_idx.0, call_idx: call_idx.0 },
            ),
        }
    }

    /// Writes a manual end-of-input signal to the output, which, when flushed, will cause any
    /// `.fill()` calls in the remote program to return. This does not signal the termination of
    /// the wire, or even that there will not be any input in future.
    pub fn signal_end_of_input(&mut self) -> (result: Result<(), Error>)
        ensures
            if old(self)@.terminated {
                result == Err::<(), Error>(Error::WireTerminated) && final(self)@ == old(self)@
            } else {
                result == Ok::<(), Error>(()) && final(self)@ == old(self)@.queued(
                    Packet::EndOfInput,
                )
            },
    {
        if self.is_terminated() {
            return Err(Error::WireTerminated);
        }
        self.enqueue(Message::EndOfInput);
        Ok(())
    }

    /// Writes a termination signal to the output, which will permanently neuter this connection.
    /// This will **not** mark this wire as terminated internally, but it will lead to the
    /// termination of the other side's wire.
    pub fn signal_termination(&mut self)
        ensures
            final(self)@ == old(self)@.queued(Packet::Termination),
    {
        self.enqueue(Message::Termination);
    }

    /// Sets the internal termination flag, causing all subsequent operations to fail. This will
    /// also cause all ongoing streaming procedures to have their next yield fail. In other words,
    /// this will single-handedly terminate all active work on this wire. This will also drop all
    /// message buffers that were being used to accumulate arguments for procedure calls.
    ///
    /// Additionally, this will poison the completion locks of all responses to procedure calls
    /// made over this wire that have not yet been gotten.
    pub fn mark_terminated(&mut self, interface: &mut Interface)
        ensures
            terminates(old(self)@, old(interface)@, final(self)@, final(interface)@),
    {
        self.terminated = true;
        // Drop all message buffers that were being used to accumulate arguments for procedure
        // calls (effectively cancelling calls that were getting ready to start, but which hadn't
        // yet)
        let ongoing = set_items(&self.ongoing_procedures);
        let mut dropped: usize = 0;
        while dropped < ongoing.len()
            invariant
                dropped <= ongoing@.len(),
                self@ == old(self)@.shut(),
                interface@ == old(interface)@.calls_dropped(
                    ongoing@.take(dropped as int),
                    self@.id,
                ),
            decreases ongoing@.len() - dropped,
        {
            let call = ongoing[dropped];
            interface.drop_associated_call_message(
                ProcedureIndex(call.0),
                CallIndex(call.1),
                self.id,
            );
            dropped = dropped + 1;
            assert(ongoing@.take(dropped as int).drop_last() =~= ongoing@.take(dropped - 1));
        }
        assert(ongoing@.take(dropped as int) =~= ongoing@);
        assert(enumerates(ongoing@, old(self)@.ongoing));
        self.poison_idle_call_handles(interface);
    }

    /// Poisons the completion locks of any call handles that haven't been waited on yet. Note that
    /// any of these that have actually completed will not really be poisoned.
    fn poison_idle_call_handles(&self, interface: &mut Interface)
        ensures
            final(interface)@ == old(interface)@.handles_poisoned(self@.idle),
    {
        let handles = map_entries(&self.idle_call_handles);
        let mut poisoned: usize = 0;
        proof {
            lemma_list_poisoned_empty(interface@, handles@.take(0));
        }
        while poisoned < handles.len()
            invariant
                poisoned <= handles@.len(),
                interface@ == old(interface)@.list_poisoned(handles@.take(poisoned as int)),
            decreases handles@.len() - poisoned,
        {
            let handle = handles[poisoned];
            proof {
                lemma_list_poisoned_step(old(interface)@, handles@, poisoned as int);
            }
            interface.poison_message(handle.0, handle.1);
            poisoned = poisoned + 1;
        }
        proof {
            assert(handles@.take(poisoned as int) =~= handles@);
            lemma_list_poisoned_all(interface@, old(interface)@, handles@, self@.idle);
        }
    }

    /// Takes in some (or all) of the arguments of a call that the other side has made.
    fn receive_call(&mut self, interface: &mut Interface, frame: ReceivedFrame) -> (result: Result<
        Reception,
        Error,
    >)
        ensures
            handles_as(
                handle_call(old(self)@, old(interface)@, frame@),
                final(self)@,
                final(interface)@,
                result,
            ),
    {
        let procedure_idx = frame.procedure_idx;
        let call_idx = frame.call_idx;
        let key = (procedure_idx.0, call_idx.0);
        // If this is a new call and it would break the limit of ongoing procedures, don't let it
        // through
        if !set_contains(&self.ongoing_procedures, key) && set_len(&self.ongoing_procedures)
            >= self.max_ongoing_procedures as usize {
            return Ok(Reception::Message(false));
        }
        // We need to know where to put argument information
        let call_buf_idx: IpfiInteger = interface.get_call_buffer(
            procedure_idx,
            call_idx,
            self.id,
        );
        // Make sure this is registered as an ongoing procedure call (even if it immediately
        // finishes, there might be an error that could have been deliberately caused)
        set_insert(&mut self.ongoing_procedures, key);
        // And now put it there, accumulating across many messages as necessary
        interface.send_many(frame.payload.as_slice(), call_buf_idx)?;
        if !frame.ends() {
            // Chunks are not a thing for arguments (they're not needed, we know from the procedure
            // definition how to serialise/deserialise)
            return Ok(Reception::Message(false));
        }
        // This message was the last in its series, so we should call the procedure, assuming we
        // have all the arguments we need
        interface.terminate_message(call_buf_idx)?;
        match interface.call_procedure(procedure_idx, call_idx, self.id) {
            Ok(call) => Ok(Reception::Call(call)),
            Err(error) => Err(error),
        }
    }

    /// Takes in some (or all) of the response to a call that this side has made.
    fn receive_response(&mut self, interface: &mut Interface, frame: ReceivedFrame) -> (result:
        Result<Reception, Error>)
        requires
            !old(self)@.terminated,
        ensures
            handles_as(
                handle_response(old(self)@, old(interface)@, frame@),
                final(self)@,
                final(interface)@,
                result,
            ),
    {
        // Get the local message buffer index that we said we'd put the response into
        let response_idx: IpfiInteger = self.get_response_idx(
            frame.procedure_idx,
            frame.call_idx,
        )?;
        interface.send_many(frame.payload.as_slice(), response_idx)?;
        if frame.ends() {
            // We don't terminate the final chunk (that would create an extra empty chunk)
            interface.terminate_message(response_idx)?;
            // If that succeeded, the user should be ready to fetch that, and the index will be
            // reused after they have, so we should remove it from this map
            index_remove(
                &mut self.response_idx_map,
                (frame.procedure_idx.0, frame.call_idx.0),
            );
            return Ok(Reception::Message(true));
        }
        if frame.terminator == Terminator::Chunk {
            // Chunk terminations don't count as message terminations
            interface.terminate_chunk(response_idx)?;
        }
        Ok(Reception::Message(false))
    }

    /// Receives a single message from the given reader, sending it into the interface as
    /// appropriate. This contains the core logic that handles messages, partial procedure calls,
    /// etc.
    ///
    /// If a procedure call is completed in this read, it is handed out to be executed.
    pub fn receive_one(&mut self, interface: &mut Interface, reader: &mut Reader) -> (result:
        Result<Reception, Error>)
        ensures
            receives(
                old(self)@,
                old(interface)@,
                old(reader)@,
                final(self)@,
                final(interface)@,
                final(reader)@,
                result,
            ),
    {
        if self.is_terminated() {
            return Err(Error::WireTerminated);
        }
        match read_message(reader, self.module_style) {
            Err(error) => Err(error),
            Ok(Received::Call(frame)) => self.receive_call(interface, frame),
            Ok(Received::Response(frame)) => self.receive_response(interface, frame),
            Ok(Received::EndOfInput) => Ok(Reception::EndOfInput),
            Ok(Received::Termination) => {
                // This will lead all other operations to fail, potentially in the middle of their
                // work
                self.mark_terminated(interface);
                Ok(Reception::Terminated)
            },
            Ok(Received::Ignored) => Ok(Reception::Message(false)),
        }
    }

    /// Reports what came of a procedure call that was handed out by this wire: the raw serialized
    /// byte vector that it produced, nothing if it is a streaming procedure (whose output goes
    /// through `.yield_response()`), or the error that it failed with, which fails the wire.
    pub fn finish_call(
        &mut self,
        interface: &mut Interface,
        call: PendingCall,
        output: Result<Option<Vec<u8>>, Error>,
    ) -> (result: Result<Reception, Error>)
        ensures
            final(interface)@ == old(interface)@.call_finished(call@, output is Err),
            match output {
                Err(error) => {
                    &&& result == Err::<Reception, Error>(error)
                    &&& final(self)@ == old(self)@
                },
                Ok(output) => {
                    &&& result == Ok::<Reception, Error>(Reception::Message(true))
                    &&& final(self)@ == (match output {
                        Some(bytes) => old(self)@.responded(
                            call@.procedure_idx,
                            call@.call_idx,
                            bytes@,
                            Terminator::Complete,
                        ),
                        None => old(self)@,
                    })
                },
            },
    {
        let procedure_idx = call.procedure_idx;
        let call_idx = call.call_idx;
        match interface.finish_call(call, output) {
            Err(error) => Err(error),
            Ok(output) => {
                // We can only send a response immediately if this isn't a streaming procedure
                match output {
                    Some(bytes) => {
                        self.respond(
                            procedure_idx,
                            call_idx,
                            bytes.as_slice(),
                            Terminator::Complete,
                        );
                    },
                    None => {},
                }
                // Regardless, we did read a call termination message
                Ok(Reception::Message(true))
            },
        }
    }

    /// Queues some (or all) of the response to a call.
    fn respond(
        &mut self,
        procedure_idx: ProcedureIndex,
        call_idx: CallIndex,
        message: &[u8],
        terminator: Terminator,
    )
        ensures
            final(self)@ == old(self)@.responded(
                procedure_idx.0,
                call_idx.0,
                message@,
                terminator,
            ),
    {
        self.enqueue(Message::Response { procedure_idx, call_idx, terminator, message });
        // If this call is complete, remove it from the list of ongoing procedures
        if terminator.ends_series(message.len()) {
            set_remove(&mut self.ongoing_procedures, (procedure_idx.0, call_idx.0));
        }
    }

    /// Sends some (or all) of the output of a streaming procedure that was called over this wire.
    /// If the wire has been terminated in the meantime, the procedure is informed of that, so it
    /// can stop.
    ///
    /// The other side takes zero bytes for the end of the response, unless they are a chunk.
    pub fn yield_response(
        &mut self,
        procedure_idx: ProcedureIndex,
        call_idx: CallIndex,
        message: &[u8],
        terminator: Terminator,
    ) -> (result: Result<(), Error>)
        ensures
            if old(self)@.terminated {
                result == Err::<(), Error>(Error::WireTerminated) && final(self)@ == old(self)@
            } else {
                result == Ok::<(), Error>(()) && final(self)@ == old(self)@.responded(
                    procedure_idx.0,
                    call_idx.0,
                    message@,
                    terminator,
                )
            },
    {
        if self.is_terminated() {
            return Err(Error::WireTerminated);
        }
        self.respond(procedure_idx, call_idx, message, terminator);
        Ok(())
    }

    /// Sends one of the values of a procedure that streams a sequence of them, each of which is a
    /// chunk of its own.
    pub fn yield_value<T: Pack>(
        &mut self,
        procedure_idx: ProcedureIndex,
        call_idx: CallIndex,
        value: &T,
        is_final: bool,
    ) -> (result: Result<(), Error>)
        ensures
            match result {
                Ok(_) => !old(self)@.terminated && final(self)@ == old(self)@.responded(
                    procedure_idx.0,
                    call_idx.0,
                    value.packed(),
                    if is_final {
                        Terminator::Complete
                    } else {
                        Terminator::Chunk
                    },
                ),
                Err(error) => {
                    &&& final(self)@ == old(self)@
                    &&& (error == Error::Encode && value.fallible()) || (error
                        == Error::WireTerminated && old(self)@.terminated)
                },
            },
    {
        let bytes = value.pack()?;
        let terminator = if is_final {
            Terminator::Complete
        } else {
            Terminator::Chunk
        };
        self.yield_response(procedure_idx, call_idx, bytes.as_slice(), terminator)
    }

    /// An ergonomic equivalent of `.receive_one()` that receives messages until either an error
    /// occurs, or until the remote program sends a manual end-of-input signal, or until a procedure
    /// has to be called (after which this should be called again).
    ///
    /// This will treat an unexpected end of the input as the termination of the wire. Note that
    /// such errors will still be returned, after the termination flag has been set.
    pub fn fill(&mut self, interface: &mut Interface, reader: &mut Reader) -> (result: Result<
        Reception,
        Error,
    >)
        ensures
            fills(
                old(self)@,
                old(interface)@,
                old(reader)@,
                final(self)@,
                final(interface)@,
                final(reader)@,
                result,
            ),
    {
        if self.is_terminated() {
            return Err(Error::WireTerminated);
        }
        loop
            invariant
                !old(self)@.terminated,
                !self@.terminated,
                fill_until(old(self)@, old(interface)@, old(reader)@) == fill_until(
                    self@,
                    interface@,
                    reader@,
                ),
            decreases reader@.len(),
        {
            let ghost (wire_before, interface_before, input) = (self@, interface@, reader@);
            proof {
                if input.len() > 0 {
                    law_parse_consumes(input, wire_before.module_style);
                }
            }
            let received = self.receive_one(interface, reader);
            match self.fill_step(interface, received) {
                None => {},
                Some(result) => return result,
            }
        }
    }

    /// Decides how `.fill()` goes on after it has tried to receive one message: messages that need
    /// no attention are passed over, and an unexpected end of the input is treated as the
    /// termination of the wire. Anything else ends it.
    pub fn fill_step(&mut self, interface: &mut Interface, received: Result<Reception, Error>) -> (
        result: Option<Result<Reception, Error>>)
        ensures
            match received {
                Ok(Reception::Message(_)) => {
                    &&& result is None
                    &&& final(self)@ == old(self)@
                    &&& final(interface)@ == old(interface)@
                },
                Err(Error::IoError(IoErrorKind::UnexpectedEof)) => {
                    &&& result == Some(received)
                    &&& terminates(old(self)@, old(interface)@, final(self)@, final(interface)@)
                },
                _ => {
                    &&& result == Some(received)
                    &&& final(self)@ == old(self)@
                    &&& final(interface)@ == old(interface)@
                },
            },
    {
        match received {
            // Some other message, keep reading
            Ok(Reception::Message(_)) => None,
            // If we run into an unexpected EOF at any time, the other side has almost certainly
            // terminated
            Err(Error::IoError(IoErrorKind::UnexpectedEof)) => {
                self.mark_terminated(interface);
                Some(Err(Error::IoError(IoErrorKind::UnexpectedEof)))
            },
            // Any unexpected errors should be propagated
            received => Some(received),
        }
    }

    /// Takes the oldest of the messages that are to be sent.
    pub fn pop_packet(&mut self) -> (packet: Option<Vec<u8>>)
        ensures
            match packet {
                Some(bytes) => {
                    &&& old(self)@.queue.len() > 0
                    &&& bytes@ == old(self)@.queue[0]
                    &&& final(self)@ == (WireState {
                        queue: old(self)@.queue.skip(1),
                        ..old(self)@
                    })
                },
                None => old(self)@.queue.len() == 0 && final(self)@ == old(self)@,
            },
    {
        queue_pop(&mut self.queue)
    }

    /// Writes all messages currently in the internal write queue to the given output.
    ///
    /// This is named `.flush_partial()` to make clear that this is usually not sufficient, and that
    /// an end-of-input message needs to be sent first! To combine these two calls, use
    /// `.flush_end()`.
    pub fn flush_partial(&mut self, writer: &mut Vec<u8>) -> (result: Result<(), Error>)
        ensures
            flushes(old(self)@, old(self)@, final(self)@, old(writer)@, final(writer)@, result),
    {
        if self.is_terminated() {
            return Err(Error::WireTerminated);
        }
        // This will remove the written messages from the queue
        loop
            invariant
                writer@ + joined(self@.queue) == old(writer)@ + joined(old(self)@.queue),
                self@ == (WireState { queue: self@.queue, ..old(self)@ }),
            ensures
                self@.queue.len() == 0,
            decreases self@.queue.len(),
        {
            let ghost (written, queue) = (writer@, self@.queue);
            match self.pop_packet() {
                Some(packet) => {
                    let mut packet = packet;
                    writer.append(&mut packet);
                    assert(writer@ + joined(self@.queue) =~= written + joined(queue));
                },
                None => break,
            }
        }
        assert(self@.queue =~= Seq::empty());
        assert(writer@ =~= writer@ + joined(self@.queue));
        Ok(())
    }

    /// Flushes everything that has been written to this wire, along with an end-of-input message.
    /// This does *not* terminate the wire, it merely states that we've written everything we can
    /// for now.
    pub fn flush_end(&mut self, writer: &mut Vec<u8>) -> (result: Result<(), Error>)
        ensures
            flushes(
                old(self)@,
                old(self)@.queued(Packet::EndOfInput),
                final(self)@,
                old(writer)@,
                final(writer)@,
                result,
            ),
    {
        match self.signal_end_of_input() {
            Ok(_) => self.flush_partial(writer),
            Err(error) => Err(error),
        }
    }

    /// Flushes everything that has been written to this wire, along with a termination signal,
    /// which tells the remote that your program is now terminating, and that this wire has been
    /// rendered invalid. If your program may send further data later, you should use
    /// `.flush_end()` instead.
    ///
    /// **IMPORTANT:** Never call this while waiting for a response, such as to a function call!
    pub fn flush_terminate(&mut self, writer: &mut Vec<u8>) -> (result: Result<(), Error>)
        ensures
            flushes(
                old(self)@,
                old(self)@.queued(Packet::Termination),
                final(self)@,
                old(writer)@,
                final(writer)@,
                result,
            ),
    {
        if self.is_terminated() {
            return Err(Error::WireTerminated);
        }
        self.signal_termination();
        self.flush_partial(writer)
    }

    /// Gets how many hold this wire.
    pub fn holders(&self) -> (holders: u64)
        ensures
            holders == self@.holders,
    {
        self.holders
    }

    /// What has to happen when the wire is cloned: there is one more who holds it.
    pub fn share(&mut self)
        requires
            0 < old(self)@.holders < u64::MAX,
        ensures
            final(self)@ == (WireState {
                holders: (old(self)@.holders + 1) as u64,
                ..old(self)@
            }),
    {
        self.holders = self.holders + 1;
    }

    /// What has to happen when somebody who holds the wire drops it: the wire is marked as
    /// terminated, with all the consequences thereof, and once nobody holds it anymore, its
    /// identifier is relinquished so it can be reused on the interface.
    pub fn release(&mut self, interface: &mut Interface)
        requires
            old(self)@.holders > 0,
        ensures
            releases(old(self)@, old(interface)@, final(self)@, final(interface)@),
    {
        self.mark_terminated(interface);
        let ghost after = interface@;
        assert(terminates(old(self)@, old(interface)@, old(self)@.shut(), after));
        self.holders = self.holders - 1;
        // The identifier goes last, and only if nobody is left who could use it
        if self.holders == 0 {
            interface.relinquish_id(self.id);
        }
        assert(self@ =~= (WireState {
            holders: (old(self)@.holders - 1) as u64,
            ..old(self)@.shut()
        }));
    }
}

/// What letting go of a wire does: it is terminated, and its identifier is relinquished by the last
/// one who held it.
pub open spec fn releases(
    wire: WireState,
    interface: InterfaceState,
    wire_after: WireState,
    interface_after: InterfaceState,
) -> bool {
    &&& wire_after == (WireState { holders: (wire.holders - 1) as u64, ..wire.shut() })
    &&& exists|after: InterfaceState| #[trigger]
        terminates(wire, interface, wire.shut(), after) && interface_after == (
        if wire.holders == 1 {
            InterfaceState { wire_ids: after.wire_ids.relinquished(wire.id), ..after }
        } else {
            after
        })
}

/// What receiving everything up to the first message that needs attention does.
pub open spec fn fills(
    wire: WireState,
    interface: InterfaceState,
    input: Seq<u8>,
    wire_after: WireState,
    interface_after: InterfaceState,
    rest: Seq<u8>,
    result: Result<Reception, Error>,
) -> bool {
    let filling = fill_until(wire, interface, input);
    if wire.terminated {
        &&& result == Err::<Reception, Error>(Error::WireTerminated)
        &&& wire_after == wire
        &&& interface_after == interface
        &&& rest == input
    } else {
        &&& rest == filling.rest
        &&& match result {
            Ok(reception) => filling.handling.result == Ok::<ReceptionState, Error>(reception@),
            Err(error) => filling.handling.result == Err::<ReceptionState, Error>(error),
        }
        &&& if filling.handling.result == Ok::<ReceptionState, Error>(ReceptionState::Terminated)
            || filling.handling.result == Err::<ReceptionState, Error>(unexpected_eof()) {
            terminates(
                filling.handling.wire,
                filling.handling.interface,
                wire_after,
                interface_after,
            )
        } else {
            &&& wire_after == filling.handling.wire
            &&& interface_after == filling.handling.interface
        }
    }
}

/// What sending all messages that a wire has queued does.
pub open spec fn flushes(
    wire: WireState,
    queued: WireState,
    wire_after: WireState,
    written: Seq<u8>,
    written_after: Seq<u8>,
    result: Result<(), Error>,
) -> bool {
    if wire.terminated {
        &&& result == Err::<(), Error>(Error::WireTerminated)
        &&& wire_after == wire
        &&& written_after == written
    } else {
        &&& result == Ok::<(), Error>(())
        &&& wire_after == (WireState { queue: Seq::empty(), ..queued })
        &&& written_after == written + joined(queued.queue)
    }
}

impl CallHandle {
    /// Waits for the procedure call to complete and returns the result.
    ///
    /// **Termination behaviour:** if the wire terminates before that, the completion lock on the
    /// message this waits for will be explicitly poisoned, causing this call to fail with
    /// [`Error::LockPoisoned`].
    pub fn wait<T: Unpack>(&self, wire: &mut Wire, interface: &mut Interface) -> (progress:
        Progress<Result<T, Error>>)
        requires
            !old(interface)@.stranded(self@),
        ensures
            match old(interface)@.message_progress(self@) {
                Progress::Pending => {
                    &&& progress is Pending
                    &&& final(interface)@ == old(interface)@.creation_awaited(self@)
                    &&& final(wire)@ == old(wire)@
                },
                Progress::Ready(Err(error)) => {
                    &&& progress == Progress::Ready(Err::<T, Error>(error))
                    &&& final(interface)@ == old(interface)@.creation_awaited(self@)
                    &&& final(wire)@ == old(wire)@
                },
                Progress::Ready(Ok(_)) => {
                    &&& final(interface)@ == old(interface)@.creation_awaited(self@).popped(self@)
                    &&& match progress {
                        Progress::Ready(Ok(value)) => T::unpacked(
                            old(interface)@.messages[self@].chunks[0],
                        ) == Some(value@) && final(wire)@ == old(wire)@.without_handle(self@),
                        Progress::Ready(Err(error)) => error == Error::Decode && T::unpacked(
                            old(interface)@.messages[self@].chunks[0],
                        ) is None && final(wire)@ == old(wire)@,
                        Progress::Pending => false,
                    }
                },
            },
    {
        let progress = interface.get::<T>(self.response_idx);
        match progress {
            Progress::Ready(Ok(_)) => {
                map_remove(&mut wire.idle_call_handles, self.response_idx);
            },
            _ => {},
        }
        progress
    }

    /// Same as `.wait()`, but this will use chunk-based deserialisation, and is intended for use
    /// with procedures that send sequences of discrete values gradually over the wire. For more
    /// information, see [`Interface::get_chunks`].
    pub fn wait_chunks<T: Unpack>(&self, wire: &mut Wire, interface: &mut Interface) -> (progress:
        Progress<Result<Option<Vec<T>>, Error>>)
        requires
            !old(interface)@.stranded(self@),
        ensures
            match old(interface)@.message_progress(self@) {
                Progress::Pending => {
                    &&& progress is Pending
                    &&& final(interface)@ == old(interface)@.creation_awaited(self@)
                    &&& final(wire)@ == old(wire)@
                },
                Progress::Ready(Err(error)) => {
                    &&& progress == Progress::Ready(Err::<Option<Vec<T>>, Error>(error))
                    &&& final(interface)@ == old(interface)@.creation_awaited(self@)
                    &&& final(wire)@ == old(wire)@
                },
                Progress::Ready(Ok(_)) => if old(interface)@.messages[self@].sender is Absent {
                    &&& final(interface)@ == old(interface)@.creation_awaited(self@).popped(self@)
                    &&& match progress {
                        Progress::Ready(Ok(Some(values))) => deserialised(
                            old(interface)@.messages[self@].chunks,
                            values@,
                        ) && final(wire)@ == old(wire)@.without_handle(self@),
                        Progress::Ready(Err(error)) => error == Error::Decode && (exists|i: int|
                            0 <= i < old(interface)@.messages[self@].chunks.len()
                                && #[trigger] T::unpacked(
                                old(interface)@.messages[self@].chunks[i],
                            ) is None) && final(wire)@ == old(wire)@,
                        _ => false,
                    }
                } else {
                    &&& final(interface)@ == old(interface)@.creation_awaited(self@)
                    &&& progress == Progress::Ready(Ok::<Option<Vec<T>>, Error>(None))
                    &&& final(wire)@ == old(wire)@.without_handle(self@)
                },
            },
    {
        let progress = interface.get_chunks::<T>(self.response_idx);
        match progress {
            Progress::Ready(Ok(_)) => {
                map_remove(&mut wire.idle_call_handles, self.response_idx);
            },
            _ => {},
        }
        progress
    }

    /// Same as `.wait()`, but this works directly with bytes. This will return the chunks in the
    /// message (to learn more about chunks, see [`Interface`]).
    pub fn wait_bytes(&self, wire: &mut Wire, interface: &mut Interface) -> (progress: Progress<
        Result<Vec<Vec<u8>>, Error>,
    >)
        requires
            !old(interface)@.stranded(self@),
        ensures
            match old(interface)@.message_progress(self@) {
                Progress::Pending => {
                    &&& progress is Pending
                    &&& final(interface)@ == old(interface)@.creation_awaited(self@)
                    &&& final(wire)@ == old(wire)@
                },
                Progress::Ready(Err(error)) => {
                    &&& progress == Progress::Ready(Err::<Vec<Vec<u8>>, Error>(error))
                    &&& final(interface)@ == old(interface)@.creation_awaited(self@)
                    &&& final(wire)@ == old(wire)@
                },
                Progress::Ready(Ok(_)) => {
                    &&& progress matches Progress::Ready(Ok(chunks)) && bytes_of(chunks@)
                        == old(interface)@.messages[self@].chunks
                    &&& final(interface)@ == old(interface)@.creation_awaited(self@).popped(self@)
                    &&& final(wire)@ == old(wire)@.without_handle(self@)
                },
            },
    {
        let progress = interface.get_raw(self.response_idx);
        match progress {
            Progress::Ready(Ok(_)) => {
                map_remove(&mut wire.idle_call_handles, self.response_idx);
            },
            _ => {},
        }
        progress
    }

    /// Creates a [`ChunkReceiverHandle`] for incrementally receiving each chunk as it arrives. This
    /// can be used for accessing data in a semi-realtime way while still abstracting over the issue
    /// of partial chunks.
    ///
    /// **Termination behaviour:** if the wire terminates while a receiver is still held, any
    /// remaining values will be yielded, before an error is returned that the lock was poisoned.
    pub fn wait_chunk_stream(&self, interface: &mut Interface) -> (progress: Progress<
        Result<ChunkReceiverHandle, Error>,
    >)
        requires
            !old(interface)@.stranded(self@),
        ensures
            match old(interface)@.creation_progress(self@) {
                Progress::Pending => progress is Pending && final(interface)@
                    == old(interface)@.creation_awaited(self@),
                Progress::Ready(Err(error)) => progress == Progress::Ready(
                    Err::<ChunkReceiverHandle, Error>(error),
                ) && final(interface)@ == old(interface)@.creation_awaited(self@),
                Progress::Ready(Ok(_)) => {
                    &&& final(interface)@ == old(interface)@.creation_awaited(self@).streaming(
                        self@,
                    )
                    &&& progress matches Progress::Ready(Ok(handle)) && handle@ == (
                    ReceiverState {
                        stream: old(interface)@.next_serial,
                        message_id: self@,
                        serial: old(interface)@.messages[self@].serial,
                        timeout_millis: 10,
                    })
                },
            },
    {
        match interface.get_chunk_stream(self.response_idx) {
            Progress::Pending => Progress::Pending,
            Progress::Ready(Err(error)) => Progress::Ready(Err(error)),
            Progress::Ready(Ok(rx)) => Progress::Ready(Ok(ChunkReceiverHandle { rx })),
        }
    }

    /// Gets the index of the message this handle waits for.
    pub fn response_idx(&self) -> (response_idx: IpfiInteger)
        ensures
            response_idx == self@,
    {
        self.response_idx
    }

    /// Turns this call handle into the response index that can be used directly with the
    /// [`Interface`]. This allows using lower-level methods on the interface that aren't accessible
    /// on the call handle, but you generally won't need these.
    ///
    /// **Warning:** calling this will remove the underlying response index from a list the [`Wire`]
    /// maintains of response buffers that haven't been accessed yet, so there will be no automatic
    /// poisoning of this response buffer anymore!
    pub fn into_response_idx(self, wire: &mut Wire) -> (response_idx: IpfiInteger)
        ensures
            response_idx == self@,
            final(wire)@ == old(wire)@.without_handle(self@),
    {
        map_remove(&mut wire.idle_call_handles, self.response_idx);
        self.response_idx
    }
}

/// A thin wrapper over [`ChunkReceiver`] produced by a [`CallHandle`]. This works with the [`Wire`]
/// internally to coordinate when the receiver finishes so the wire knows that it doesn't need to
/// poison the message's complete lock.
pub struct ChunkReceiverHandle {
    /// The underlying receiver, which tracks the response.
    rx: ChunkReceiver,
}

impl View for ChunkReceiverHandle {
    type V = ReceiverState;

    closed spec fn view(&self) -> ReceiverState {
        self.rx@
    }
}

impl ChunkReceiverHandle {
    /// See [`ChunkReceiver::termination_timeout_millis`].
    pub fn termination_timeout_millis(self, millis: usize) -> (handle: Self)
        ensures
            handle@ == (ReceiverState { timeout_millis: millis, ..self@ }),
    {
        Self { rx: self.rx.termination_timeout_millis(millis) }
    }

    /// See [`Interface::recv_raw`].
    pub fn recv_raw(&self, wire: &mut Wire, interface: &mut Interface) -> (progress: Progress<
        Result<Option<Vec<u8>>, Error>,
    >)
        ensures
            final(interface)@ == old(interface)@.received(self@),
            final(wire)@ == (if old(interface)@.receive_progress(self@) == Progress::Ready(
                Ok::<Option<Seq<u8>>, Error>(None),
            ) {
                old(wire)@.without_handle(self@.message_id)
            } else {
                old(wire)@
            }),
            match old(interface)@.receive_progress(self@) {
                Progress::Pending => progress is Pending,
                Progress::Ready(Err(error)) => progress == Progress::Ready(
                    Err::<Option<Vec<u8>>, Error>(error),
                ),
                Progress::Ready(Ok(None)) => progress == Progress::Ready(
                    Ok::<Option<Vec<u8>>, Error>(None),
                ),
                Progress::Ready(Ok(Some(bytes))) => progress matches Progress::Ready(
                    Ok(Some(chunk)),
                ) && chunk@ == bytes,
            },
    {
        let progress = interface.recv_raw(&self.rx);
        match progress {
            // If the receiver finished smoothly, strike this from the list of handles to poison
            Progress::Ready(Ok(None)) => {
                map_remove(&mut wire.idle_call_handles, self.rx.message_id());
            },
            _ => {},
        }
        progress
    }

    /// See [`Interface::recv`].
    pub fn recv<T: Unpack>(&self, wire: &mut Wire, interface: &mut Interface) -> (progress:
        Progress<Result<Option<Result<T, Error>>, Error>>)
        ensures
            final(interface)@ == old(interface)@.received(self@),
            final(wire)@ == (if old(interface)@.receive_progress(self@) == Progress::Ready(
                Ok::<Option<Seq<u8>>, Error>(None),
            ) {
                old(wire)@.without_handle(self@.message_id)
            } else {
                old(wire)@
            }),
            match old(interface)@.receive_progress(self@) {
                Progress::Pending => progress is Pending,
                Progress::Ready(Err(error)) => progress == Progress::Ready(
                    Err::<Option<Result<T, Error>>, Error>(error),
                ),
                Progress::Ready(Ok(None)) => progress == Progress::Ready(
                    Ok::<Option<Result<T, Error>>, Error>(None),
                ),
                Progress::Ready(Ok(Some(bytes))) => progress matches Progress::Ready(
                    Ok(Some(decoded)),
                ) && match decoded {
                    Ok(value) => T::unpacked(bytes) == Some(value@),
                    Err(error) => error == Error::Decode && T::unpacked(bytes) is None,
                },
            },
    {
        let progress = interface.recv::<T>(&self.rx);
        match progress {
            // If the receiver finished smoothly, strike this from the list of handles to poison
            Progress::Ready(Ok(None)) => {
                map_remove(&mut wire.idle_call_handles, self.rx.message_id());
            },
            _ => {},
        }
        progress
    }

    /// Gets the number of milliseconds to wait between attempts to receive something.
    pub fn timeout_millis(&self) -> (millis: usize)
        ensures
            millis == self@.timeout_millis,
    {
        self.rx.timeout_millis()
    }

    /// Drops the receiver, after which the chunks of the response stay where they are.
    pub fn release(self, interface: &mut Interface)
        ensures
            final(interface)@ == (InterfaceState {
                streams: old(interface)@.streams.remove(self@.stream),
                ..old(interface)@
            }),
    {
        interface.drop_receiver(self.rx);
    }
}

/// Whether what was made of a message is what should have been.
pub open spec fn handles_as(
    handling: Handling,
    wire: WireState,
    interface: InterfaceState,
    result: Result<Reception, Error>,
) -> bool {
    &&& wire == handling.wire
    &&& interface == handling.interface
    &&& match result {
        Ok(reception) => handling.result == Ok::<ReceptionState, Error>(reception@),
        Err(error) => handling.result == Err::<ReceptionState, Error>(error),
    }
}

/// What receiving one message does.
pub open spec fn receives(
    wire: WireState,
    interface: InterfaceState,
    input: Seq<u8>,
    wire_after: WireState,
    interface_after: InterfaceState,
    rest: Seq<u8>,
    result: Result<Reception, Error>,
) -> bool {
    let parsed = parse(input, wire.module_style);
    if wire.terminated {
        &&& result == Err::<Reception, Error>(Error::WireTerminated)
        &&& wire_after == wire
        &&& interface_after == interface
        &&& rest == input
    } else {
        &&& rest == parsed.rest
        &&& match parsed.result {
            Err(error) => {
                &&& result == Err::<Reception, Error>(error)
                &&& wire_after == wire
                &&& interface_after == interface
            },
            Ok(Some(Packet::Termination)) => {
                &&& result == Ok::<Reception, Error>(Reception::Terminated)
                &&& terminates(wire, interface, wire_after, interface_after)
            },
            Ok(packet) => handles_as(
                handle(wire, interface, packet),
                wire_after,
                interface_after,
                result,
            ),
        }
    }
}

/// Poisoning nothing changes nothing.
proof fn lemma_list_poisoned_empty(
    interface: InterfaceState,
    handles: Seq<(IpfiInteger, u64)>,
)
    requires
        handles.len() == 0,
    ensures
        interface.list_poisoned(handles) == interface,
{
    assert(interface.list_poisoned(handles).messages =~= interface.messages);
}

/// Poisoning the locks of a list one after the other is poisoning all of them.
proof fn lemma_list_poisoned_step(
    interface: InterfaceState,
    handles: Seq<(IpfiInteger, u64)>,
    done: int,
)
    requires
        0 <= done < handles.len(),
    ensures
        interface.list_poisoned(handles.take(done)).poisoned(handles[done].0, handles[done].1)
            == interface.list_poisoned(handles.take(done + 1)),
{
    let fewer = handles.take(done);
    let more = handles.take(done + 1);
    let before = interface.list_poisoned(fewer);
    let after = interface.list_poisoned(more);
    assert forall|handle: (IpfiInteger, u64)| #[trigger]
        more.contains(handle) <==> (fewer.contains(handle) || handle == handles[done]) by {
        if more.contains(handle) {
            let i = choose|i: int| 0 <= i < more.len() && more[i] == handle;
            if i < done {
                assert(fewer[i] == handle);
            }
        }
        if fewer.contains(handle) {
            let i = choose|i: int| 0 <= i < fewer.len() && fewer[i] == handle;
            assert(more[i] == handle);
        }
        assert(more[done] == handles[done]);
    }
    assert(before.poisoned(handles[done].0, handles[done].1).messages =~= after.messages);
}

/// Poisoning the locks of a list that holds what a map does is poisoning those in the map.
proof fn lemma_list_poisoned_all(
    poisoned: InterfaceState,
    interface: InterfaceState,
    handles: Seq<(IpfiInteger, u64)>,
    idle: Map<IpfiInteger, u64>,
)
    requires
        poisoned == interface.list_poisoned(handles),
        forall|id: IpfiInteger, serial: u64| #[trigger]
            handles.contains((id, serial)) <==> idle.contains_pair(id, serial),
    ensures
        poisoned == interface.handles_poisoned(idle),
{
    assert(poisoned.messages =~= interface.handles_poisoned(idle).messages);
}

/// Signals the termination of this program to any others that may be holding wires to it, by
/// writing to the end of the given output.
///
/// Generally, it is a good idea to call this function in the cleanup of your program, including if
/// any errors occur.
pub fn signal_termination(writer: &mut Vec<u8>) -> (result: Result<(), Error>)
    ensures
        result == Ok::<(), Error>(()),
        final(writer)@ == old(writer)@ + Packet::Termination.encode(),
{
    let mut bytes: Vec<u8> = Message::Termination.to_bytes();
    writer.append(&mut bytes);
    Ok(())
}

} // verus!
