//! What the operations on wires do, told by what is there before and after them.
use crate::error::{Error, IoErrorKind};
use crate::filling_laws::law_filling_is_receiving;
use crate::incoming::{parse, Parsed};
use crate::interface::{Interface, InterfaceState, PendingCall, ProcedureKind, Progress};
use crate::message::bytes_of;
use crate::pack::{Pack, Unpack};
use crate::procedure_args::ProcedureArgs;
use crate::reader::Reader;
use crate::types::{CallIndex, IpfiInteger, ProcedureIndex, Terminator, WireId};
use crate::wire::{
    handle, joined, signal_termination, terminates, CallHandle, ChunkReceiverHandle, Reception,
    ReceptionState, Wire, WireState,
};
use crate::wire_effects::{
    law_calling_effect, law_continuing_effect, law_ending_effect, law_flushing_effect,
    law_queueing_effect, law_releasing_effect, law_responding_effect, law_starting_effect,
};
use crate::wire_utils::{Frame, Packet};
use vstd::prelude::*;

verus! {

broadcast use crate::message::group_view_lemmas;

/// The message at the back of a queue, behind all those that were there before, is the given one.
pub open spec fn appends(before: WireState, after: WireState, packet: Packet) -> bool {
    &&& after.queue.len() == before.queue.len() + 1
    &&& after.queue.drop_last() == before.queue
    &&& parse(after.queue.last(), false) == (Parsed {
        result: Ok::<Option<Packet>, Error>(Some(packet)),
        rest: Seq::empty(),
    })
}

/// A new wire has an identifier from its interface, and nothing has happened over it. It is one for
/// modules if and only if that was asked for.
pub proof fn law_new_wires()
    ensures
        forall|interface: &mut Interface, wire: Wire| #[trigger]
            call_ensures(Wire::new, (interface,), wire) ==> {
                let before = (*interface)@;
                let after = final(interface)@;
                &&& wire@ == WireState::initial(before.wire_ids.upcoming(), false)
                &&& after == (InterfaceState { wire_ids: after.wire_ids, ..before })
                &&& after.wire_ids == before.wire_ids.advanced()
            },
        forall|interface: &mut Interface, wire: Wire| #[trigger]
            call_ensures(Wire::new_module, (interface,), wire) ==> {
                let before = (*interface)@;
                let after = final(interface)@;
                &&& wire@ == WireState::initial(before.wire_ids.upcoming(), true)
                &&& after == (InterfaceState { wire_ids: after.wire_ids, ..before })
                &&& after.wire_ids == before.wire_ids.advanced()
            },
{
}

/// How many calls may be ongoing is set without changing anything else.
pub proof fn law_limits(wire: Wire, value: IpfiInteger, limited: Wire)
    ensures
        call_ensures(Wire::max_ongoing_procedures, (wire, value), limited) ==> {
            &&& limited@.max_ongoing == value
            &&& limited@ == (WireState { max_ongoing: value, ..wire@ })
        },
        forall|wire: &mut Wire| #[trigger]
            call_ensures(Wire::limit_ongoing_procedures, (wire, value), ()) ==> final(wire)@ == (
            WireState { max_ongoing: value, ..(*wire)@ }),
{
}

/// What a wire is can be asked.
pub proof fn law_wire_questions(
    wire: Wire,
    procedure: ProcedureIndex,
    id: WireId,
    answer: bool,
    holders: u64,
)
    ensures
        call_ensures(Wire::is_terminated, (&wire,), answer) ==> answer == wire@.terminated,
        call_ensures(Wire::is_module_style, (&wire,), answer) ==> answer == wire@.module_style,
        call_ensures(Wire::id, (&wire,), id) ==> id.0 == wire@.id,
        call_ensures(Wire::holders, (&wire,), holders) ==> holders == wire@.holders,
        call_ensures(Wire::can_call, (&wire, procedure), answer) ==> (answer
            <==> !wire@.counters.contains_key(procedure.0) || wire@.counters[procedure.0]
            < IpfiInteger::MAX),
{
}

/// Calling a procedure with bytes is refused if and only if the wire is terminated or for modules,
/// and changes nothing then. Otherwise, the whole of a call of that procedure, with the next index
/// and those bytes, is queued, and the handle is on a new message.
pub proof fn law_call_with_bytes(procedure: ProcedureIndex, args: &[u8])
    ensures
        forall|wire: &mut Wire, interface: &mut Interface, result: Result<CallHandle, Error>|
            #[trigger]
            call_ensures(Wire::call_with_bytes, (wire, interface, procedure, args), result) ==> {
                let before = (*wire)@;
                let after = final(wire)@;
                &&& before.terminated <==> (result matches Err(error) && error
                    == Error::WireTerminated)
                &&& !before.terminated && before.module_style <==> (result matches Err(error)
                    && error == Error::CallFromModule)
                &&& result is Err ==> after == before && final(interface)@ == (*interface)@
                &&& result matches Ok(handle) ==> {
                    &&& handle@ == (*interface)@.message_ids.upcoming()
                    &&& final(interface)@ == (*interface)@.pushed()
                    &&& after == before.called(procedure.0, args@, (*interface)@)
                    &&& appends(
                        before,
                        after,
                        Packet::Call(
                            Frame {
                                procedure: procedure.0,
                                call: before.next_call(procedure.0),
                                terminator: Terminator::Complete,
                                payload: args@,
                            },
                        ),
                    )
                }
                &&& result is Ok <==> !before.terminated && !before.module_style
            },
{
    assert forall|wire: &mut Wire, interface: &mut Interface, result: Result<CallHandle, Error>|
        #[trigger]
        call_ensures(
            Wire::call_with_bytes,
            (wire, interface, procedure, args),
            result,
        ) && result is Ok implies appends(
        (*wire)@,
        final(wire)@,
        Packet::Call(
            Frame {
                procedure: procedure.0,
                call: (*wire)@.next_call(procedure.0),
                terminator: Terminator::Complete,
                payload: args@,
            },
        ),
    ) by {
        let nothing = Seq::<u8>::empty();
        assert(args@.len() == args.len());
        law_calling_effect((*wire)@, procedure.0, args@, (*interface)@, nothing, false);
        assert(final(wire)@.queue.last() + nothing =~= final(wire)@.queue.last());
    }
}

/// Calling a procedure with values is calling it with the bytes that those are serialised as. It
/// can only fail beyond that if a serialiser does.
pub proof fn law_call<A: ProcedureArgs>(procedure: ProcedureIndex, args: A, bytes: &[u8])
    requires
        bytes@ == args.flattened(),
    ensures
        forall|
            wire: &mut Wire,
            interface: &mut Interface,
            result: Result<CallHandle, Error>,
            other: &mut Wire,
            other_interface: &mut Interface,
            other_result: Result<CallHandle, Error>,
        |
            #![trigger call_ensures(Wire::call::<A>, (wire, interface, procedure, args), result),
                call_ensures(Wire::call_with_bytes, (other, other_interface, procedure, bytes),
                    other_result)]
            call_ensures(Wire::call::<A>, (wire, interface, procedure, args), result)
                && call_ensures(
                Wire::call_with_bytes,
                (other, other_interface, procedure, bytes),
                other_result,
            ) && (*wire)@ == (*other)@ && (*interface)@ == (*other_interface)@ ==> {
                &&& result matches Ok(handle) ==> {
                    &&& other_result matches Ok(other_handle) && handle@ == other_handle@
                    &&& final(wire)@ == final(other)@
                    &&& final(interface)@ == final(other_interface)@
                }
                &&& other_result matches Err(error) ==> result == Err::<CallHandle, Error>(error)
                &&& result matches Err(error) ==> {
                    &&& final(wire)@ == (*wire)@
                    &&& final(interface)@ == (*interface)@
                    &&& other_result == Err::<CallHandle, Error>(error) || (error == Error::Encode
                        && args.fallible())
                }
            },
{
}

/// Starting a call with bytes is refused if and only if the wire is terminated or for modules, or
/// there are none, and changes nothing then. Otherwise, a part of a call of that procedure, with
/// the next index and those bytes, is queued, and that index is returned.
pub proof fn law_start_call_with_partial_bytes(procedure: ProcedureIndex, args: &[u8])
    ensures
        forall|wire: &mut Wire, interface: &mut Interface, result: Result<CallIndex, Error>|
            #[trigger]
            call_ensures(
                Wire::start_call_with_partial_bytes,
                (wire, interface, procedure, args),
                result,
            ) ==> {
                let before = (*wire)@;
                let after = final(wire)@;
                &&& result == Err::<CallIndex, Error>(Error::WireTerminated) <==> before.terminated
                &&& result == Err::<CallIndex, Error>(Error::CallFromModule) <==> !before.terminated
                    && before.module_style
                &&& result == Err::<CallIndex, Error>(Error::ZeroLengthInNonTerminating)
                    <==> !before.terminated && !before.module_style && args@.len() == 0
                &&& result is Ok <==> !before.terminated && !before.module_style && args@.len() > 0
                &&& result is Err ==> after == before && final(interface)@ == (*interface)@
                &&& result matches Ok(call) ==> {
                    &&& call.0 == before.next_call(procedure.0)
                    &&& final(interface)@ == (*interface)@.pushed()
                    &&& after == before.call_begun(procedure.0, args@, (*interface)@)
                    &&& after.responses.contains_pair(
                        (procedure.0, call.0),
                        (*interface)@.message_ids.upcoming(),
                    )
                    &&& appends(
                        before,
                        after,
                        Packet::Call(
                            Frame {
                                procedure: procedure.0,
                                call: call.0,
                                terminator: Terminator::Partial,
                                payload: args@,
                            },
                        ),
                    )
                }
            },
{
    assert forall|wire: &mut Wire, interface: &mut Interface, result: Result<CallIndex, Error>|
        #[trigger]
        call_ensures(
            Wire::start_call_with_partial_bytes,
            (wire, interface, procedure, args),
            result,
        ) && result is Ok implies appends(
        (*wire)@,
        final(wire)@,
        Packet::Call(
            Frame {
                procedure: procedure.0,
                call: result->Ok_0.0,
                terminator: Terminator::Partial,
                payload: args@,
            },
        ),
    ) by {
        let nothing = Seq::<u8>::empty();
        assert(args@.len() == args.len());
        law_starting_effect((*wire)@, procedure.0, args@, (*interface)@, nothing, false);
        assert(final(wire)@.queue.last() + nothing =~= final(wire)@.queue.last());
    }
}

/// Starting a call with values is starting it with the bytes that those are serialised as.
pub proof fn law_start_call_with_partial_args<A: ProcedureArgs>(
    procedure: ProcedureIndex,
    args: A,
    bytes: &[u8],
)
    requires
        bytes@ == args.flattened(),
    ensures
        forall|
            wire: &mut Wire,
            interface: &mut Interface,
            result: Result<CallIndex, Error>,
            other: &mut Wire,
            other_interface: &mut Interface,
            other_result: Result<CallIndex, Error>,
        |
            #![trigger call_ensures(Wire::start_call_with_partial_args::<A>,
                    (wire, interface, procedure, args), result),
                call_ensures(Wire::start_call_with_partial_bytes,
                    (other, other_interface, procedure, bytes), other_result)]
            call_ensures(
                Wire::start_call_with_partial_args::<A>,
                (wire, interface, procedure, args),
                result,
            ) && call_ensures(
                Wire::start_call_with_partial_bytes,
                (other, other_interface, procedure, bytes),
                other_result,
            ) && (*wire)@ == (*other)@ && (*interface)@ == (*other_interface)@ ==> {
                &&& result is Ok ==> {
                    &&& result == other_result
                    &&& final(wire)@ == final(other)@
                    &&& final(interface)@ == final(other_interface)@
                }
                &&& other_result is Err ==> result is Err
                &&& result matches Err(error) ==> {
                    &&& final(wire)@ == (*wire)@
                    &&& final(interface)@ == (*interface)@
                    &&& result == other_result || (error == Error::Encode && args.fallible())
                }
            },
{
}

/// Continuing a call with bytes is refused if and only if the wire is terminated or for modules, or
/// there are none, and changes nothing then. Otherwise, a part of that call of that procedure, with
/// those bytes, is queued, and nothing else changes.
pub proof fn law_continue_given_call_with_bytes(
    procedure: ProcedureIndex,
    call: CallIndex,
    args: &[u8],
)
    ensures
        forall|wire: &mut Wire, result: Result<(), Error>| #[trigger]
            call_ensures(
                Wire::continue_given_call_with_bytes,
                (wire, procedure, call, args),
                result,
            ) ==> {
                let before = (*wire)@;
                let after = final(wire)@;
                &&& result == Err::<(), Error>(Error::WireTerminated) <==> before.terminated
                &&& result == Err::<(), Error>(Error::CallFromModule) <==> !before.terminated
                    && before.module_style
                &&& result == Err::<(), Error>(Error::ZeroLengthInNonTerminating)
                    <==> !before.terminated && !before.module_style && args@.len() == 0
                &&& result is Ok <==> !before.terminated && !before.module_style && args@.len() > 0
                &&& result is Err ==> after == before
                &&& after == (WireState { queue: after.queue, ..before })
                &&& result is Ok ==> appends(
                    before,
                    after,
                    Packet::Call(
                        Frame {
                            procedure: procedure.0,
                            call: call.0,
                            terminator: Terminator::Partial,
                            payload: args@,
                        },
                    ),
                )
            },
{
    assert forall|wire: &mut Wire, result: Result<(), Error>| #[trigger]
        call_ensures(
            Wire::continue_given_call_with_bytes,
            (wire, procedure, call, args),
            result,
        ) && result is Ok implies appends(
        (*wire)@,
        final(wire)@,
        Packet::Call(
            Frame {
                procedure: procedure.0,
                call: call.0,
                terminator: Terminator::Partial,
                payload: args@,
            },
        ),
    ) by {
        let nothing = Seq::<u8>::empty();
        assert(args@.len() == args.len());
        law_continuing_effect((*wire)@, procedure.0, call.0, args@, nothing, false);
        assert(final(wire)@.queue.last() + nothing =~= final(wire)@.queue.last());
    }
}

/// Continuing a call with values is continuing it with the bytes that those are serialised as.
pub proof fn law_continue_given_call_with_args<A: ProcedureArgs>(
    procedure: ProcedureIndex,
    call: CallIndex,
    args: A,
    bytes: &[u8],
)
    requires
        bytes@ == args.flattened(),
    ensures
        forall|
            wire: &mut Wire,
            result: Result<(), Error>,
            other: &mut Wire,
            other_result: Result<(), Error>,
        |
            #![trigger call_ensures(Wire::continue_given_call_with_args::<A>,
                    (wire, procedure, call, args), result),
                call_ensures(Wire::continue_given_call_with_bytes,
                    (other, procedure, call, bytes), other_result)]
            call_ensures(
                Wire::continue_given_call_with_args::<A>,
                (wire, procedure, call, args),
                result,
            ) && call_ensures(
                Wire::continue_given_call_with_bytes,
                (other, procedure, call, bytes),
                other_result,
            ) && (*wire)@ == (*other)@ ==> {
                &&& result is Ok ==> other_result is Ok && final(wire)@ == final(other)@
                &&& other_result is Err ==> result is Err
                &&& result matches Err(error) ==> final(wire)@ == (*wire)@ && (result
                    == other_result || (error == Error::Encode && args.fallible()))
            },
{
}

/// Ending a call is refused if and only if the wire is terminated or for modules, and changes
/// nothing then. Otherwise, an empty message that ends that call of that procedure is queued, and
/// there is a handle on the message for its response, if the call was ever started.
pub proof fn law_end_given_call(procedure: ProcedureIndex, call: CallIndex)
    ensures
        forall|wire: &mut Wire, interface: &mut Interface, result: Result<CallHandle, Error>|
            #[trigger]
            call_ensures(Wire::end_given_call, (wire, interface, procedure, call), result) ==> {
                let before = (*wire)@;
                let after = final(wire)@;
                let key = (procedure.0, call.0);
                let refused = before.terminated || before.module_style;
                let known = before.responses.contains_key(key);
                &&& final(interface)@ == (*interface)@
                &&& before.terminated ==> (result matches Err(error) && error
                    == Error::WireTerminated)
                &&& !before.terminated && before.module_style ==> (result matches Err(error)
                    && error == Error::CallFromModule)
                &&& refused ==> after == before
                &&& result is Ok <==> !refused && known
                &&& !refused && !known ==> {
                    &&& result matches Err(error) && error == Error::NoResponseBuffer {
                        index: procedure.0,
                        call_idx: call.0,
                    }
                    &&& after.idle == before.idle
                }
                &&& result matches Ok(handle) ==> {
                    &&& handle@ == before.responses[key]
                    &&& after.idle == before.idle.insert(
                        handle@,
                        (*interface)@.messages[handle@].serial,
                    )
                }
                &&& after == (WireState { queue: after.queue, idle: after.idle, ..before })
                &&& !refused ==> appends(
                    before,
                    after,
                    Packet::Call(
                        Frame {
                            procedure: procedure.0,
                            call: call.0,
                            terminator: Terminator::Complete,
                            payload: Seq::empty(),
                        },
                    ),
                )
            },
{
    assert forall|wire: &mut Wire, interface: &mut Interface, result: Result<CallHandle, Error>|
        #[trigger]
        call_ensures(
            Wire::end_given_call,
            (wire, interface, procedure, call),
            result,
        ) && !(*wire)@.terminated && !(*wire)@.module_style implies appends(
        (*wire)@,
        final(wire)@,
        Packet::Call(
            Frame {
                procedure: procedure.0,
                call: call.0,
                terminator: Terminator::Complete,
                payload: Seq::empty(),
            },
        ),
    ) by {
        let nothing = Seq::<u8>::empty();
        law_ending_effect((*wire)@, procedure.0, call.0, nothing, false);
        assert(final(wire)@.queue.last() + nothing =~= final(wire)@.queue.last());
    }
}

/// Whether and where there will be a response to a call can be asked without changing anything.
pub proof fn law_response_questions(
    wire: &Wire,
    procedure: ProcedureIndex,
    call: CallIndex,
    found: Result<IpfiInteger, Error>,
)
    ensures
        call_ensures(Wire::get_response_idx, (wire, procedure, call), found) ==> {
            let key = (procedure.0, call.0);
            &&& found == Err::<IpfiInteger, Error>(Error::WireTerminated) <==> wire@.terminated
            &&& found is Ok <==> !wire@.terminated && wire@.responses.contains_key(key)
            &&& found matches Ok(id) ==> id == wire@.responses[key]
            &&& !wire@.terminated && !wire@.responses.contains_key(key) ==> found == Err::<
                IpfiInteger,
                Error,
            >(Error::NoResponseBuffer { index: procedure.0, call_idx: call.0 })
        },
        forall|interface: &mut Interface, taken: bool| #[trigger]
            call_ensures(Wire::is_response_taken, (wire, interface, procedure, call), taken) ==> {
                let key = (procedure.0, call.0);
                &&& final(interface)@ == (*interface)@
                &&& taken <==> wire@.responses.contains_key(key) && !(
                *interface)@.messages.contains_key(wire@.responses[key])
            },
{
}

/// The end of input and the termination of a wire are signalled behind everything else. Nothing
/// else changes. The end of input is only refused if the wire is terminated.
pub proof fn law_signals()
    ensures
        forall|wire: &mut Wire, result: Result<(), Error>| #[trigger]
            call_ensures(Wire::signal_end_of_input, (wire,), result) ==> {
                let before = (*wire)@;
                let after = final(wire)@;
                &&& result is Ok <==> !before.terminated
                &&& result is Err ==> result == Err::<(), Error>(Error::WireTerminated) && after
                    == before
                &&& result is Ok ==> appends(before, after, Packet::EndOfInput)
                &&& after == (WireState { queue: after.queue, ..before })
            },
        forall|wire: &mut Wire| #[trigger]
            call_ensures(Wire::signal_termination, (wire,), ()) ==> {
                let before = (*wire)@;
                let after = final(wire)@;
                &&& appends(before, after, Packet::Termination)
                &&& after == (WireState { queue: after.queue, ..before })
            },
        forall|writer: &mut Vec<u8>, result: Result<(), Error>| #[trigger]
            call_ensures(signal_termination, (writer,), result) ==> {
                &&& result is Ok
                &&& final(writer)@ == (*writer)@.push(0)
            },
{
    let nothing = Seq::<u8>::empty();
    assert forall|wire: &mut Wire, result: Result<(), Error>| #[trigger]
        call_ensures(Wire::signal_end_of_input, (wire,), result) && result is Ok implies appends(
        (*wire)@,
        final(wire)@,
        Packet::EndOfInput,
    ) by {
        law_queueing_effect((*wire)@, Packet::EndOfInput, nothing, false);
        assert(final(wire)@.queue.last() + nothing =~= final(wire)@.queue.last());
    }
    assert forall|wire: &mut Wire| #[trigger]
        call_ensures(Wire::signal_termination, (wire,), ()) implies appends(
        (*wire)@,
        final(wire)@,
        Packet::Termination,
    ) by {
        law_queueing_effect((*wire)@, Packet::Termination, nothing, false);
        assert(final(wire)@.queue.last() + nothing =~= final(wire)@.queue.last());
    }
    assert forall|writer: &mut Vec<u8>, result: Result<(), Error>| #[trigger]
        call_ensures(signal_termination, (writer,), result) implies final(writer)@ == (
    *writer)@.push(0) by {
        assert(final(writer)@ =~= (*writer)@.push(0));
    }
}

/// A wire that is marked as terminated is.
pub proof fn law_mark_terminated()
    ensures
        forall|wire: &mut Wire, interface: &mut Interface| #[trigger]
            call_ensures(Wire::mark_terminated, (wire, interface), ()) ==> {
                &&& terminates((*wire)@, (*interface)@, final(wire)@, final(interface)@)
                &&& final(wire)@ == (WireState { terminated: true, ..(*wire)@ })
            },
{
}

/// Receiving one message from a wire that is terminated is refused, and changes nothing. Otherwise,
/// the message at the start of the input is read and handled, and nothing behind it is touched.
pub proof fn law_receive_one()
    ensures
        forall|
            wire: &mut Wire,
            interface: &mut Interface,
            reader: &mut Reader,
            result: Result<Reception, Error>,
        |
            #[trigger]
            call_ensures(Wire::receive_one, (wire, interface, reader), result) ==> {
                let before = (*wire)@;
                let after = final(wire)@;
                let parsed = parse((*reader)@, before.module_style);
                let handling = handle(before, (*interface)@, parsed.result->Ok_0);
                &&& before.terminated ==> {
                    &&& result == Err::<Reception, Error>(Error::WireTerminated)
                    &&& after == before
                    &&& final(interface)@ == (*interface)@
                    &&& final(reader)@ == (*reader)@
                }
                &&& !before.terminated ==> final(reader)@ == parsed.rest
                &&& !before.terminated ==> match parsed.result {
                    Err(error) => {
                        &&& result == Err::<Reception, Error>(error)
                        &&& after == before
                        &&& final(interface)@ == (*interface)@
                    },
                    Ok(Some(Packet::Termination)) => {
                        &&& result == Ok::<Reception, Error>(Reception::Terminated)
                        &&& terminates(before, (*interface)@, after, final(interface)@)
                    },
                    Ok(_) => {
                        &&& after == handling.wire
                        &&& final(interface)@ == handling.interface
                        &&& result matches Ok(reception) ==> handling.result == Ok::<
                            ReceptionState,
                            Error,
                        >(reception@)
                        &&& result matches Err(error) ==> handling.result == Err::<
                            ReceptionState,
                            Error,
                        >(error)
                    },
                }
            },
{
}

/// What a procedure returns is the whole of the response to that call of that procedure, and is
/// queued as such. A procedure that returns nothing at once responds with nothing for now, and
/// neither does one that fails.
pub proof fn law_finish_wire_call(call: PendingCall, output: Result<Option<Vec<u8>>, Error>)
    ensures
        forall|wire: &mut Wire, interface: &mut Interface, result: Result<Reception, Error>|
            #[trigger]
            call_ensures(Wire::finish_call, (wire, interface, call, output), result) ==> {
                let before = (*wire)@;
                let after = final(wire)@;
                let kept = output is Err && call.procedure.kind == ProcedureKind::Streaming;
                &&& kept ==> final(interface)@ == (*interface)@
                &&& !kept ==> final(interface)@ == (*interface)@.popped(call.args_buf_idx)
                &&& output matches Err(error) ==> result == Err::<Reception, Error>(error) && after
                    == before
                &&& output is Ok ==> result == Ok::<Reception, Error>(Reception::Message(true))
                &&& output matches Ok(None) ==> after == before
                &&& output matches Ok(Some(bytes)) ==> {
                    &&& appends(
                        before,
                        after,
                        Packet::Response(
                            Frame {
                                procedure: call.procedure_idx.0,
                                call: call.call_idx.0,
                                terminator: Terminator::Complete,
                                payload: bytes@,
                            },
                        ),
                    )
                    &&& after == (WireState {
                        queue: after.queue,
                        ongoing: before.ongoing.remove((call.procedure_idx.0, call.call_idx.0)),
                        ..before
                    })
                }
            },
{
    assert forall|wire: &mut Wire, interface: &mut Interface, result: Result<Reception, Error>|
        #[trigger]
        call_ensures(
            Wire::finish_call,
            (wire, interface, call, output),
            result,
        ) && (output matches Ok(Some(_))) implies appends(
        (*wire)@,
        final(wire)@,
        Packet::Response(
            Frame {
                procedure: call.procedure_idx.0,
                call: call.call_idx.0,
                terminator: Terminator::Complete,
                payload: output->Ok_0->Some_0@,
            },
        ),
    ) by {
        let nothing = Seq::<u8>::empty();
        let bytes = output->Ok_0->Some_0@;
        assert(bytes.len() == output->Ok_0->Some_0.len());
        let (procedure, index) = (call.procedure_idx.0, call.call_idx.0);
        law_responding_effect(
            (*wire)@,
            procedure,
            index,
            bytes,
            Terminator::Complete,
            nothing,
            (0, 0),
        );
        assert(final(wire)@.queue.last() + nothing =~= final(wire)@.queue.last());
    }
}

/// Some of the response to a call is queued as a response to that call of that procedure, with
/// those bytes and that terminator, whichever it is. It ends the call if and only if it is the last
/// of the response. This is only refused if the wire is terminated.
pub proof fn law_yield_response(
    procedure: ProcedureIndex,
    call: CallIndex,
    message: &[u8],
    terminator: Terminator,
)
    ensures
        forall|wire: &mut Wire, result: Result<(), Error>| #[trigger]
            call_ensures(
                Wire::yield_response,
                (wire, procedure, call, message, terminator),
                result,
            ) ==> {
                let before = (*wire)@;
                let after = final(wire)@;
                let key = (procedure.0, call.0);
                let last = terminator is Complete || (terminator is Partial && message@.len() == 0);
                &&& result is Ok <==> !before.terminated
                &&& result is Err ==> result == Err::<(), Error>(Error::WireTerminated) && after
                    == before
                &&& after == (WireState { queue: after.queue, ongoing: after.ongoing, ..before })
                &&& result is Ok ==> {
                    &&& appends(
                        before,
                        after,
                        Packet::Response(
                            Frame {
                                procedure: procedure.0,
                                call: call.0,
                                terminator,
                                payload: message@,
                            },
                        ),
                    )
                    &&& last ==> after.ongoing == before.ongoing.remove(key)
                    &&& !last ==> after.ongoing == before.ongoing
                }
            },
{
    assert forall|wire: &mut Wire, result: Result<(), Error>| #[trigger]
        call_ensures(
            Wire::yield_response,
            (wire, procedure, call, message, terminator),
            result,
        ) && result is Ok implies appends(
        (*wire)@,
        final(wire)@,
        Packet::Response(
            Frame { procedure: procedure.0, call: call.0, terminator, payload: message@ },
        ),
    ) by {
        let nothing = Seq::<u8>::empty();
        assert(message@.len() == message.len());
        law_responding_effect(
            (*wire)@,
            procedure.0,
            call.0,
            message@,
            terminator,
            nothing,
            (0, 0),
        );
        assert(final(wire)@.queue.last() + nothing =~= final(wire)@.queue.last());
    }
}

/// Yielding a value is responding with the bytes that it is serialised as: with the whole rest of
/// the response if it is the final one, and with a chunk otherwise.
pub proof fn law_yield_value<T: Pack>(
    procedure: ProcedureIndex,
    call: CallIndex,
    value: &T,
    is_final: bool,
    bytes: &[u8],
    terminator: Terminator,
)
    requires
        bytes@ == value.packed(),
        is_final <==> terminator is Complete,
        !is_final <==> terminator is Chunk,
    ensures
        forall|
            wire: &mut Wire,
            result: Result<(), Error>,
            other: &mut Wire,
            other_result: Result<(), Error>,
        |
            #![trigger call_ensures(Wire::yield_value::<T>,
                    (wire, procedure, call, value, is_final), result),
                call_ensures(Wire::yield_response,
                    (other, procedure, call, bytes, terminator), other_result)]
            call_ensures(
                Wire::yield_value::<T>,
                (wire, procedure, call, value, is_final),
                result,
            ) && call_ensures(
                Wire::yield_response,
                (other, procedure, call, bytes, terminator),
                other_result,
            ) && (*wire)@ == (*other)@ ==> {
                &&& result is Ok ==> other_result is Ok && final(wire)@ == final(other)@
                &&& other_result is Err ==> result is Err
                &&& result matches Err(error) ==> final(wire)@ == (*wire)@ && (result
                    == other_result || (error == Error::Encode && value.fallible()))
            },
{
}

/// Filling a wire from some input is receiving messages from it, one by one, until one of them
/// needs attention: that one is returned, as it is, and nothing behind it is touched.
pub proof fn law_fill()
    ensures
        forall|
            wire: &mut Wire,
            interface: &mut Interface,
            reader: &mut Reader,
            result: Result<Reception, Error>,
            other: &mut Wire,
            other_interface: &mut Interface,
            other_reader: &mut Reader,
            received: Result<Reception, Error>,
        |
            #![trigger call_ensures(Wire::fill, (wire, interface, reader), result),
                call_ensures(Wire::receive_one, (other, other_interface, other_reader), received)]
            call_ensures(Wire::fill, (wire, interface, reader), result) && call_ensures(
                Wire::receive_one,
                (other, other_interface, other_reader),
                received,
            ) && (*wire)@ == (*other)@ && (*interface)@ == (*other_interface)@ && (*reader)@ == (
            *other_reader)@ && !(*wire)@.terminated ==> match received {
                Ok(Reception::Message(_)) => crate::wire::fills(
                    final(other)@,
                    final(other_interface)@,
                    final(other_reader)@,
                    final(wire)@,
                    final(interface)@,
                    final(reader)@,
                    result,
                ),
                Ok(Reception::Call(call)) => {
                    &&& result matches Ok(Reception::Call(returned)) && returned@ == call@
                    &&& final(wire)@ == final(other)@
                    &&& final(interface)@ == final(other_interface)@
                    &&& final(reader)@ == final(other_reader)@
                },
                Ok(Reception::EndOfInput) => {
                    &&& result == Ok::<Reception, Error>(Reception::EndOfInput)
                    &&& final(wire)@ == final(other)@
                    &&& final(interface)@ == final(other_interface)@
                    &&& final(reader)@ == final(other_reader)@
                },
                Ok(Reception::Terminated) => {
                    &&& result == Ok::<Reception, Error>(Reception::Terminated)
                    &&& terminates((*wire)@, (*interface)@, final(wire)@, final(interface)@)
                    &&& final(reader)@ == final(other_reader)@
                },
                Err(error) => {
                    &&& result == Err::<Reception, Error>(error)
                    &&& final(reader)@ == final(other_reader)@
                },
            },
        forall|
            wire: &mut Wire,
            interface: &mut Interface,
            reader: &mut Reader,
            result: Result<Reception, Error>,
        |
            #[trigger]
            call_ensures(Wire::fill, (wire, interface, reader), result) && (*wire)@.terminated ==> {
                &&& result == Err::<Reception, Error>(Error::WireTerminated)
                &&& final(wire)@ == (*wire)@
                &&& final(interface)@ == (*interface)@
                &&& final(reader)@ == (*reader)@
            },
{
    assert forall|
        wire: &mut Wire,
        interface: &mut Interface,
        reader: &mut Reader,
        result: Result<Reception, Error>,
        other: &mut Wire,
        other_interface: &mut Interface,
        other_reader: &mut Reader,
        received: Result<Reception, Error>,
    |
        #![trigger call_ensures(Wire::fill, (wire, interface, reader), result),
            call_ensures(Wire::receive_one, (other, other_interface, other_reader), received)]
        call_ensures(Wire::fill, (wire, interface, reader), result) && call_ensures(
            Wire::receive_one,
            (other, other_interface, other_reader),
            received,
        ) && (*wire)@ == (*other)@ && (*interface)@ == (*other_interface)@ && (*reader)@ == (
        *other_reader)@ && !(*wire)@.terminated implies match received {
        Ok(Reception::Message(_)) => crate::wire::fills(
            final(other)@,
            final(other_interface)@,
            final(other_reader)@,
            final(wire)@,
            final(interface)@,
            final(reader)@,
            result,
        ),
        Ok(Reception::Call(call)) => {
            &&& result matches Ok(Reception::Call(returned)) && returned@ == call@
            &&& final(wire)@ == final(other)@
            &&& final(interface)@ == final(other_interface)@
            &&& final(reader)@ == final(other_reader)@
        },
        Ok(Reception::EndOfInput) => {
            &&& result == Ok::<Reception, Error>(Reception::EndOfInput)
            &&& final(wire)@ == final(other)@
            &&& final(interface)@ == final(other_interface)@
            &&& final(reader)@ == final(other_reader)@
        },
        Ok(Reception::Terminated) => {
            &&& result == Ok::<Reception, Error>(Reception::Terminated)
            &&& terminates((*wire)@, (*interface)@, final(wire)@, final(interface)@)
            &&& final(reader)@ == final(other_reader)@
        },
        Err(error) => {
            &&& result == Err::<Reception, Error>(error)
            &&& final(reader)@ == final(other_reader)@
        },
    } by {
        law_filling_is_receiving(
            (*wire)@,
            (*interface)@,
            (*reader)@,
            final(other)@,
            final(other_interface)@,
            final(other_reader)@,
            received,
            final(wire)@,
            final(interface)@,
            final(reader)@,
            result,
        );
    }
}

/// Filling goes on after a plain message, and after nothing else. If the input has ended too early,
/// the wire is terminated, and nothing changes otherwise.
pub proof fn law_fill_step(received: Result<Reception, Error>)
    ensures
        forall|wire: &mut Wire, interface: &mut Interface, result: Option<Result<Reception, Error>>|
            #[trigger]
            call_ensures(Wire::fill_step, (wire, interface, received), result) ==> {
                let ended = received == Err::<Reception, Error>(
                    Error::IoError(IoErrorKind::UnexpectedEof),
                );
                &&& result is None <==> (received matches Ok(Reception::Message(_)))
                &&& result matches Some(returned) ==> returned == received
                &&& ended ==> terminates(
                    (*wire)@,
                    (*interface)@,
                    final(wire)@,
                    final(interface)@,
                )
                &&& !ended ==> final(wire)@ == (*wire)@ && final(interface)@ == (*interface)@
            },
{
}

/// Messages leave the queue in the order in which they were put there, each of them once.
pub proof fn law_pop_packet()
    ensures
        forall|wire: &mut Wire, packet: Option<Vec<u8>>| #[trigger]
            call_ensures(Wire::pop_packet, (wire,), packet) ==> {
                let before = (*wire)@;
                let after = final(wire)@;
                &&& packet is None <==> before.queue.len() == 0
                &&& packet is None ==> after == before
                &&& packet matches Some(bytes) ==> before.queue == seq![bytes@] + after.queue
                &&& after == (WireState { queue: after.queue, ..before })
            },
{
    assert forall|wire: &mut Wire, packet: Option<Vec<u8>>| #[trigger]
        call_ensures(Wire::pop_packet, (wire,), packet) && packet is Some implies (*wire)@.queue
        == seq![packet->Some_0@] + final(wire)@.queue by {
        assert((*wire)@.queue =~= seq![packet->Some_0@] + final(wire)@.queue);
    }
}

/// Flushing writes everything that is queued, in order, behind what had been written, and then the
/// end of input or the termination if that is what is to be signalled. It is only refused if the
/// wire is terminated, and changes nothing then.
pub proof fn law_flush()
    ensures
        forall|wire: &mut Wire, writer: &mut Vec<u8>, result: Result<(), Error>| #[trigger]
            call_ensures(Wire::flush_partial, (wire, writer), result) ==> {
                let before = (*wire)@;
                &&& result is Ok <==> !before.terminated
                &&& result is Err ==> {
                    &&& result == Err::<(), Error>(Error::WireTerminated)
                    &&& final(wire)@ == before
                    &&& final(writer)@ == (*writer)@
                }
                &&& result is Ok ==> {
                    &&& final(wire)@ == (WireState { queue: Seq::empty(), ..before })
                    &&& final(writer)@ == (*writer)@ + joined(before.queue)
                }
            },
        forall|wire: &mut Wire, writer: &mut Vec<u8>, result: Result<(), Error>| #[trigger]
            call_ensures(Wire::flush_end, (wire, writer), result) ==> {
                let before = (*wire)@;
                &&& result is Ok <==> !before.terminated
                &&& result is Err ==> {
                    &&& result == Err::<(), Error>(Error::WireTerminated)
                    &&& final(wire)@ == before
                    &&& final(writer)@ == (*writer)@
                }
                &&& result is Ok ==> {
                    &&& final(wire)@ == (WireState { queue: Seq::empty(), ..before })
                    &&& final(writer)@ == (*writer)@ + joined(before.queue) + seq![3u8]
                }
            },
        forall|wire: &mut Wire, writer: &mut Vec<u8>, result: Result<(), Error>| #[trigger]
            call_ensures(Wire::flush_terminate, (wire, writer), result) ==> {
                let before = (*wire)@;
                &&& result is Ok <==> !before.terminated
                &&& result is Err ==> {
                    &&& result == Err::<(), Error>(Error::WireTerminated)
                    &&& final(wire)@ == before
                    &&& final(writer)@ == (*writer)@
                }
                &&& result is Ok ==> {
                    &&& final(wire)@ == (WireState { queue: Seq::empty(), ..before })
                    &&& final(writer)@ == (*writer)@ + joined(before.queue) + seq![0u8]
                }
            },
{
    assert forall|wire: &mut Wire, writer: &mut Vec<u8>, result: Result<(), Error>| #[trigger]
        call_ensures(Wire::flush_end, (wire, writer), result) && result is Ok implies final(
        writer)@ == (*writer)@ + joined((*wire)@.queue) + seq![3u8] by {
        law_flushing_effect(
            (*wire)@,
            Packet::EndOfInput,
            final(wire)@,
            (*writer)@,
            final(writer)@,
            result,
        );
    }
    assert forall|wire: &mut Wire, writer: &mut Vec<u8>, result: Result<(), Error>| #[trigger]
        call_ensures(Wire::flush_terminate, (wire, writer), result) && result is Ok implies final(
        writer)@ == (*writer)@ + joined((*wire)@.queue) + seq![0u8] by {
        law_flushing_effect(
            (*wire)@,
            Packet::Termination,
            final(wire)@,
            (*writer)@,
            final(writer)@,
            result,
        );
    }
}

/// Whoever shares a wire makes one more who holds it, and whoever lets go of it makes one fewer and
/// terminates it. Its identifier is given back by the last of them.
pub proof fn law_share_and_release()
    ensures
        forall|wire: &mut Wire| #[trigger]
            call_ensures(Wire::share, (wire,), ()) && 0 < (*wire)@.holders < u64::MAX ==> {
                &&& final(wire)@.holders == (*wire)@.holders + 1
                &&& final(wire)@ == (WireState { holders: final(wire)@.holders, ..(*wire)@ })
            },
        forall|wire: &mut Wire, interface: &mut Interface| #[trigger]
            call_ensures(Wire::release, (wire, interface), ()) && (*wire)@.holders > 0 ==> {
                let before = (*wire)@;
                let after = final(wire)@;
                &&& after.holders == before.holders - 1
                &&& after == (WireState { terminated: true, holders: after.holders, ..before })
                &&& after.holders == 0 ==> final(interface)@.wire_ids == (
                *interface)@.wire_ids.relinquished(before.id)
                &&& after.holders > 0 ==> final(interface)@.wire_ids == (*interface)@.wire_ids
                &&& terminates(
                    before,
                    (*interface)@,
                    WireState { terminated: true, ..before },
                    InterfaceState { wire_ids: (*interface)@.wire_ids, ..final(interface)@ },
                )
            },
{
    assert forall|wire: &mut Wire, interface: &mut Interface| #[trigger]
        call_ensures(Wire::release, (wire, interface), ()) && (*wire)@.holders > 0 implies {
        &&& final(interface)@.wire_ids == (if final(wire)@.holders == 0 {
            (*interface)@.wire_ids.relinquished((*wire)@.id)
        } else {
            (*interface)@.wire_ids
        })
        &&& terminates(
            (*wire)@,
            (*interface)@,
            WireState { terminated: true, ..(*wire)@ },
            InterfaceState { wire_ids: (*interface)@.wire_ids, ..final(interface)@ },
        )
    } by {
        law_releasing_effect((*wire)@, (*interface)@, final(wire)@, final(interface)@);
    }
}

/// Waiting on a handle is reading the message for the response, as that value. The handle is struck
/// off the wire if and only if there was one to be read, and nothing else about the wire changes.
pub proof fn law_wait<T: Unpack>(handle: &CallHandle)
    ensures
        forall|
            wire: &mut Wire,
            interface: &mut Interface,
            progress: Progress<Result<T, Error>>,
            other: &mut Interface,
            read: Progress<Result<T, Error>>,
        |
            #![trigger call_ensures(CallHandle::wait::<T>, (handle, wire, interface), progress),
                call_ensures(Interface::get::<T>, (other, handle@), read)]
            call_ensures(CallHandle::wait::<T>, (handle, wire, interface), progress)
                && call_ensures(Interface::get::<T>, (other, handle@), read) && (*interface)@ == (
            *other)@ ==> {
                &&& final(interface)@ == final(other)@
                &&& progress is Pending <==> read is Pending
                &&& progress matches Progress::Ready(Ok(value)) ==> (read matches Progress::Ready(
                    Ok(same),
                ) && value@ == same@)
                &&& progress matches Progress::Ready(Err(error)) ==> read == Progress::Ready(
                    Err::<T, Error>(error),
                )
                &&& progress matches Progress::Ready(Ok(_)) ==> final(wire)@ == (
                *wire)@.without_handle(handle@)
                &&& !(progress matches Progress::Ready(Ok(_))) ==> final(wire)@ == (*wire)@
            },
{
}

/// Waiting on a handle for all chunks is reading all chunks of the message for the response. The
/// handle is struck off the wire if and only if that did not fail.
pub proof fn law_wait_chunks<T: Unpack>(handle: &CallHandle)
    ensures
        forall|
            wire: &mut Wire,
            interface: &mut Interface,
            progress: Progress<Result<Option<Vec<T>>, Error>>,
        |
            #[trigger]
            call_ensures(CallHandle::wait_chunks::<T>, (handle, wire, interface), progress) && (
            *interface)@.messages.contains_key(handle@) ==> {
                let before = (*interface)@;
                let after = final(interface)@;
                let message = before.messages[handle@];
                &&& progress is Pending <==> message.lock is Incomplete
                &&& message.lock is Poisoned ==> progress == Progress::Ready(
                    Err::<Option<Vec<T>>, Error>(Error::LockPoisoned { index: handle@ }),
                )
                &&& !(message.lock is Complete) ==> after == before
                &&& message.lock is Complete && !(message.sender is Absent) ==> after == before
                    && progress == Progress::Ready(Ok::<Option<Vec<T>>, Error>(None))
                &&& message.lock is Complete && message.sender is Absent ==> {
                    &&& after == before.popped(handle@)
                    &&& progress matches Progress::Ready(Ok(values)) ==> {
                        &&& values is Some
                        &&& values->Some_0@.len() == message.chunks.len()
                        &&& forall|i: int|
                            0 <= i < message.chunks.len() ==> #[trigger] T::unpacked(
                                message.chunks[i],
                            ) == Some(values->Some_0@[i]@)
                    }
                    &&& progress matches Progress::Ready(Err(error)) ==> error == Error::Decode
                        && exists|i: int|
                        0 <= i < message.chunks.len() && #[trigger] T::unpacked(
                            message.chunks[i],
                        ) is None
                }
                &&& progress matches Progress::Ready(Ok(_)) ==> final(wire)@ == (
                *wire)@.without_handle(handle@)
                &&& !(progress matches Progress::Ready(Ok(_))) ==> final(wire)@ == (*wire)@
            },
        forall|
            wire: &mut Wire,
            interface: &mut Interface,
            progress: Progress<Result<Option<Vec<T>>, Error>>,
        |
            #[trigger]
            call_ensures(CallHandle::wait_chunks::<T>, (handle, wire, interface), progress) && !(
            *interface)@.messages.contains_key(handle@) && !(*interface)@.stranded(handle@) ==> {
                &&& final(interface)@ == (*interface)@.creation_awaited(handle@)
                &&& final(wire)@ == (*wire)@
                &&& progress is Pending <==> (*interface)@.creation_progress(handle@) is Pending
                &&& !(progress matches Progress::Ready(Ok(_)))
            },
{
}

/// Waiting on a handle for bytes is reading all chunks of the message for the response as they are.
/// The handle is struck off the wire if and only if they were there.
pub proof fn law_wait_bytes(handle: &CallHandle)
    ensures
        forall|
            wire: &mut Wire,
            interface: &mut Interface,
            progress: Progress<Result<Vec<Vec<u8>>, Error>>,
            other: &mut Interface,
            read: Progress<Result<Vec<Vec<u8>>, Error>>,
        |
            #![trigger call_ensures(CallHandle::wait_bytes, (handle, wire, interface), progress),
                call_ensures(Interface::get_raw, (other, handle@), read)]
            call_ensures(CallHandle::wait_bytes, (handle, wire, interface), progress)
                && call_ensures(Interface::get_raw, (other, handle@), read) && (*interface)@ == (
            *other)@ ==> {
                &&& final(interface)@ == final(other)@
                &&& progress is Pending <==> read is Pending
                &&& progress matches Progress::Ready(Ok(chunks)) ==> (read matches Progress::Ready(
                    Ok(same),
                ) && bytes_of(chunks@) == bytes_of(same@))
                &&& progress matches Progress::Ready(Err(error)) ==> read == Progress::Ready(
                    Err::<Vec<Vec<u8>>, Error>(error),
                )
                &&& progress matches Progress::Ready(Ok(_)) ==> final(wire)@ == (
                *wire)@.without_handle(handle@)
                &&& !(progress matches Progress::Ready(Ok(_))) ==> final(wire)@ == (*wire)@
            },
{
}

/// Receiving the chunks of a response is receiving those of the message for it.
pub proof fn law_wait_chunk_stream(handle: &CallHandle)
    ensures
        forall|interface: &mut Interface, progress: Progress<Result<ChunkReceiverHandle, Error>>|
            #[trigger]
            call_ensures(CallHandle::wait_chunk_stream, (handle, interface), progress) ==> {
                let before = (*interface)@;
                let after = final(interface)@;
                &&& before.messages.contains_key(handle@) ==> {
                    &&& after == before.streaming(handle@)
                    &&& progress matches Progress::Ready(Ok(receiver)) && receiver@.message_id
                        == handle@ && receiver@.serial == before.messages[handle@].serial
                        && receiver@.stream == before.next_serial && receiver@.timeout_millis == 10
                }
                &&& !before.messages.contains_key(handle@) && !before.stranded(handle@) ==> {
                    &&& after == before.creation_awaited(handle@)
                    &&& progress is Pending <==> before.creation_progress(handle@) is Pending
                    &&& !(progress matches Progress::Ready(Ok(_)))
                }
            },
{
}

/// A handle knows the message it is on. Taking it apart strikes it off the wire.
pub proof fn law_handles(handle: CallHandle, id: IpfiInteger)
    ensures
        call_ensures(CallHandle::response_idx, (&handle,), id) ==> id == handle@,
        forall|wire: &mut Wire, taken: IpfiInteger| #[trigger]
            call_ensures(CallHandle::into_response_idx, (handle, wire), taken) ==> {
                &&& taken == handle@
                &&& final(wire)@ == (*wire)@.without_handle(handle@)
                &&& !final(wire)@.idle.contains_key(handle@)
            },
{
}

/// Receiving a chunk of a response is receiving one of the message for it. The handle is struck off
/// the wire if and only if there are no more of them.
pub proof fn law_receiver_handles<T: Unpack>(receiver: &ChunkReceiverHandle)
    ensures
        forall|
            wire: &mut Wire,
            interface: &mut Interface,
            progress: Progress<Result<Option<Vec<u8>>, Error>>,
        |
            #[trigger]
            call_ensures(
                ChunkReceiverHandle::recv_raw,
                (receiver, wire, interface),
                progress,
            ) ==> {
                let before = (*interface)@;
                let there = before.streams.contains_key(receiver@.stream);
                let stream = before.streams[receiver@.stream];
                let poisoned = before.receiver_lock(receiver@) is Poisoned;
                let ended = !there || (stream.queue.len() == 0 && !stream.open && !poisoned);
                &&& final(interface)@ == before.received(receiver@)
                &&& there && stream.queue.len() > 0 ==> (progress matches Progress::Ready(
                    Ok(Some(chunk)),
                ) && chunk@ == stream.queue[0])
                &&& progress == Progress::Ready(Ok::<Option<Vec<u8>>, Error>(None)) <==> ended
                &&& progress is Pending <==> there && stream.queue.len() == 0 && stream.open
                    && !poisoned
                &&& progress matches Progress::Ready(Err(error)) ==> error == Error::LockPoisoned {
                    index: receiver@.message_id,
                }
                &&& ended ==> final(wire)@ == (*wire)@.without_handle(receiver@.message_id)
                &&& !ended ==> final(wire)@ == (*wire)@
            },
        forall|
            wire: &mut Wire,
            interface: &mut Interface,
            progress: Progress<Result<Option<Result<T, Error>>, Error>>,
        |
            #[trigger]
            call_ensures(
                ChunkReceiverHandle::recv::<T>,
                (receiver, wire, interface),
                progress,
            ) ==> {
                let before = (*interface)@;
                let there = before.streams.contains_key(receiver@.stream);
                let stream = before.streams[receiver@.stream];
                let poisoned = before.receiver_lock(receiver@) is Poisoned;
                let ended = !there || (stream.queue.len() == 0 && !stream.open && !poisoned);
                let said = T::unpacked(stream.queue[0]);
                &&& final(interface)@ == before.received(receiver@)
                &&& there && stream.queue.len() > 0 ==> {
                    &&& progress matches Progress::Ready(Ok(Some(_)))
                    &&& progress matches Progress::Ready(Ok(Some(Ok(value)))) ==> said == Some(
                        value@,
                    )
                    &&& progress matches Progress::Ready(Ok(Some(Err(error)))) ==> said is None
                        && error == Error::Decode
                }
                &&& progress == Progress::Ready(Ok::<Option<Result<T, Error>>, Error>(None))
                    <==> ended
                &&& progress is Pending <==> there && stream.queue.len() == 0 && stream.open
                    && !poisoned
                &&& progress matches Progress::Ready(Err(error)) ==> error == Error::LockPoisoned {
                    index: receiver@.message_id,
                }
                &&& ended ==> final(wire)@ == (*wire)@.without_handle(receiver@.message_id)
                &&& !ended ==> final(wire)@ == (*wire)@
            },
{
}

/// Setting how long a receiver waits changes that, and nothing else about it. Releasing it removes
/// its stream.
pub proof fn law_receiver_handle_settings(
    receiver: ChunkReceiverHandle,
    millis: usize,
    set: ChunkReceiverHandle,
    told: usize,
    other: u64,
)
    ensures
        call_ensures(ChunkReceiverHandle::termination_timeout_millis, (receiver, millis), set) ==> {
            &&& set@.timeout_millis == millis
            &&& set@.stream == receiver@.stream
            &&& set@.message_id == receiver@.message_id
            &&& set@.serial == receiver@.serial
        },
        call_ensures(ChunkReceiverHandle::timeout_millis, (&receiver,), told) ==> told
            == receiver@.timeout_millis,
        forall|interface: &mut Interface| #[trigger]
            call_ensures(ChunkReceiverHandle::release, (receiver, interface), ()) ==> {
                let before = (*interface)@;
                let after = final(interface)@;
                &&& after == (InterfaceState { streams: after.streams, ..before })
                &&& !after.streams.contains_key(receiver@.stream)
                &&& other != receiver@.stream ==> (after.streams.contains_key(other)
                    <==> before.streams.contains_key(other)) && after.streams[other]
                    == before.streams[other]
            },
{
}

} // verus!
