//! What always holds of an interface and all the wires that are connected to it.
use crate::error::Error;
use crate::interface::{CallState, InterfaceState, Progress, ReceiverState};
use crate::interface_laws::{law_pop_recycles, law_push_fresh};
use crate::types::{IpfiInteger, Terminator};
use crate::wire::{
    enumerates, handle, handle_call, handle_response, releases, terminates, ReceptionState,
    WireState,
};
use crate::wire_laws::lemma_dropping_calls_keeps;
use crate::wire_utils::{Frame, Packet};
use vstd::prelude::*;

verus! {

/// What a message can be set aside for.
pub enum Slot {
    /// For the arguments of a call, by procedure index, call index and wire.
    Arguments((IpfiInteger, IpfiInteger, IpfiInteger)),
    /// For the response to a call over one of the wires, by procedure and call index.
    Response(int, (IpfiInteger, IpfiInteger)),
}

/// The message that is set aside for something, if there is one.
pub open spec fn set_aside(
    wires: Seq<WireState>,
    interface: InterfaceState,
    slot: Slot,
) -> Option<IpfiInteger> {
    match slot {
        Slot::Arguments(call) => if interface.call_buffers.contains_key(call) {
            Some(interface.call_buffers[call])
        } else {
            None
        },
        Slot::Response(i, call) => if 0 <= i < wires.len() && wires[i].responses.contains_key(
            call,
        ) {
            Some(wires[i].responses[call])
        } else {
            None
        },
    }
}

/// Whether somebody has a handle on a message as the response to a call over a wire.
pub open spec fn handled(wire: WireState, interface: InterfaceState, id: IpfiInteger) -> bool {
    &&& interface.messages.contains_key(id)
    &&& wire.idle.contains_pair(id, interface.messages[id].serial)
}

/// Whether an interface and its wires go together: every message that is set aside for something
/// exists, has not been completed, and is set aside for nothing else, and no message that somebody
/// has a handle on accumulates arguments.
pub open spec fn connected(wires: Seq<WireState>, interface: InterfaceState) -> bool {
    &&& interface.well_formed()
    &&& interface.serials_fresh()
    &&& forall|slot: Slot| #[trigger]
        set_aside(wires, interface, slot) matches Some(id) ==> interface.refusal(id) is None
    &&& forall|a: Slot, b: Slot|
        #![trigger set_aside(wires, interface, a), set_aside(wires, interface, b)]
        set_aside(wires, interface, a) is Some && set_aside(wires, interface, a) == set_aside(
            wires,
            interface,
            b,
        ) ==> a == b
    &&& forall|i: int, id: IpfiInteger|
        0 <= i < wires.len() && #[trigger] wires[i].idle.contains_key(id) ==> wires[i].idle[id]
            < interface.next_serial
    &&& forall|i: int, id: IpfiInteger, slot: Slot|
        #![trigger handled(wires[i], interface, id), set_aside(wires, interface, slot)]
        0 <= i < wires.len() && handled(wires[i], interface, id) && slot is Arguments
            ==> set_aside(wires, interface, slot) != Some(id)
}

/// Whether a message is set aside for nothing.
pub open spec fn unclaimed(
    wires: Seq<WireState>,
    interface: InterfaceState,
    id: IpfiInteger,
) -> bool {
    forall|slot: Slot| #[trigger] set_aside(wires, interface, slot) != Some(id)
}

/// Replacing a message that stays incomplete, or is set aside for nothing, keeps everything
/// together, as does whatever happens to streams, creation locks, procedures and identifiers of
/// wires.
proof fn lemma_replaced(
    wires: Seq<WireState>,
    before: InterfaceState,
    after: InterfaceState,
    id: IpfiInteger,
)
    requires
        connected(wires, before),
        before.messages.contains_key(id),
        after.messages == before.messages.insert(id, after.messages[id]),
        after.messages[id].serial == before.messages[id].serial,
        after.messages[id].well_formed(),
        after.messages[id].lock is Complete ==> before.messages[id].lock is Complete || unclaimed(
            wires,
            before,
            id,
        ),
        after.message_ids == before.message_ids,
        after.call_buffers == before.call_buffers,
        after.next_serial >= before.next_serial,
    ensures
        connected(wires, after),
{
    assert forall|slot: Slot| #[trigger]
        set_aside(wires, after, slot) == set_aside(wires, before, slot) by {}
    assert forall|other: IpfiInteger| #[trigger]
        after.messages.contains_key(other) <==> before.messages.contains_key(other) by {}
    assert forall|other: IpfiInteger| #[trigger]
        after.messages.contains_key(other) <==> after.message_ids.in_use(other) by {
        assert(before.messages.contains_key(other) <==> before.message_ids.in_use(other));
    }
    assert forall|other: IpfiInteger| #[trigger]
        after.messages.contains_key(other) implies after.messages[other].well_formed()
        && after.messages[other].serial < after.next_serial by {
        assert(before.messages.contains_key(other));
    }
    assert forall|slot: Slot| #[trigger]
        set_aside(wires, after, slot) matches Some(other) implies after.refusal(
        set_aside(wires, after, slot)->Some_0,
    ) is None by {
        assert(set_aside(wires, before, slot) == set_aside(wires, after, slot));
    }
    assert forall|i: int, other: IpfiInteger, slot: Slot|
        #![trigger handled(wires[i], after, other), set_aside(wires, after, slot)]
        0 <= i < wires.len() && handled(wires[i], after, other)
            && slot is Arguments implies set_aside(wires, after, slot) != Some(other) by {
        assert(handled(wires[i], before, other));
        assert(set_aside(wires, before, slot) == set_aside(wires, after, slot));
    }
}

/// Deleting a message that is set aside for nothing keeps everything together.
proof fn lemma_popped(wires: Seq<WireState>, interface: InterfaceState, id: IpfiInteger)
    requires
        connected(wires, interface),
        unclaimed(wires, interface, id),
    ensures
        connected(wires, interface.popped(id)),
{
    if interface.messages.contains_key(id) {
        law_pop_recycles(interface, id);
        let after = interface.popped(id);
        assert forall|slot: Slot| #[trigger]
            set_aside(wires, after, slot) == set_aside(wires, interface, slot) by {}
        assert forall|other: IpfiInteger| #[trigger]
            after.messages.contains_key(other) implies after.messages[other].serial
            < after.next_serial by {
            assert(interface.messages.contains_key(other));
        }
        assert forall|slot: Slot| #[trigger]
            set_aside(wires, after, slot) matches Some(other) implies after.refusal(
            set_aside(wires, after, slot)->Some_0,
        ) is None by {
            assert(set_aside(wires, interface, slot) == set_aside(wires, after, slot));
            assert(set_aside(wires, interface, slot) != Some(id));
        }
        assert forall|i: int, other: IpfiInteger, slot: Slot|
            #![trigger handled(wires[i], after, other), set_aside(wires, after, slot)]
            0 <= i < wires.len() && handled(wires[i], after, other)
                && slot is Arguments implies set_aside(wires, after, slot) != Some(other) by {
            assert(handled(wires[i], interface, other));
            assert(set_aside(wires, interface, slot) == set_aside(wires, after, slot));
        }
    }
}

/// Forgetting what some message is set aside for keeps everything together, and leaves that message
/// set aside for nothing. Handles may be dropped, too.
proof fn lemma_forgotten(
    wires: Seq<WireState>,
    interface: InterfaceState,
    fewer_wires: Seq<WireState>,
    fewer: InterfaceState,
    forgotten: Slot,
)
    requires
        connected(wires, interface),
        fewer == (InterfaceState { call_buffers: fewer.call_buffers, ..interface }),
        fewer_wires.len() == wires.len(),
        forall|i: int, id: IpfiInteger|
            0 <= i < wires.len() && #[trigger] fewer_wires[i].idle.contains_key(id)
                ==> wires[i].idle.contains_pair(id, fewer_wires[i].idle[id]),
        forall|slot: Slot| #[trigger]
            set_aside(fewer_wires, fewer, slot) == (if slot == forgotten {
                None
            } else {
                set_aside(wires, interface, slot)
            }),
    ensures
        connected(fewer_wires, fewer),
        set_aside(wires, interface, forgotten) matches Some(id) ==> unclaimed(
            fewer_wires,
            fewer,
            id,
        ),
{
    assert forall|slot: Slot| #[trigger]
        set_aside(fewer_wires, fewer, slot) matches Some(other) implies fewer.refusal(
        set_aside(fewer_wires, fewer, slot)->Some_0,
    ) is None by {
        assert(set_aside(wires, interface, slot) is Some);
    }
    assert forall|a: Slot, b: Slot|
        #![trigger set_aside(fewer_wires, fewer, a), set_aside(fewer_wires, fewer, b)]
        set_aside(fewer_wires, fewer, a) is Some && set_aside(fewer_wires, fewer, a) == set_aside(
            fewer_wires,
            fewer,
            b,
        ) implies a == b by {
        assert(set_aside(wires, interface, a) == set_aside(wires, interface, b));
    }
    assert forall|i: int, other: IpfiInteger, slot: Slot|
        #![trigger handled(fewer_wires[i], fewer, other), set_aside(fewer_wires, fewer, slot)]
        0 <= i < fewer_wires.len() && handled(fewer_wires[i], fewer, other)
            && slot is Arguments implies set_aside(fewer_wires, fewer, slot) != Some(other) by {
        assert(fewer_wires[i].idle.contains_key(other));
        assert(handled(wires[i], interface, other));
        assert(set_aside(wires, interface, slot) != Some(other));
    }
    assert forall|i: int, id: IpfiInteger|
        0 <= i < fewer_wires.len()
            && #[trigger] fewer_wires[i].idle.contains_key(id) implies fewer_wires[i].idle[id]
        < fewer.next_serial by {
        assert(wires[i].idle.contains_key(id));
    }
    if let Some(id) = set_aside(wires, interface, forgotten) {
        assert forall|slot: Slot| #[trigger] set_aside(fewer_wires, fewer, slot) != Some(id) by {
            if slot != forgotten {
                assert(set_aside(wires, interface, slot) != set_aside(wires, interface, forgotten));
            }
        }
    }
}

/// Creating a message keeps everything together, and it is set aside for nothing yet.
proof fn lemma_pushed(wires: Seq<WireState>, interface: InterfaceState)
    requires
        connected(wires, interface),
        !interface.message_ids.exhausted(),
        interface.next_serial < u64::MAX,
    ensures
        connected(wires, interface.pushed()),
        unclaimed(wires, interface.pushed(), interface.message_ids.upcoming()),
        interface.pushed().refusal(interface.message_ids.upcoming()) is None,
        forall|i: int|
            0 <= i < wires.len() ==> !#[trigger] handled(
                wires[i],
                interface.pushed(),
                interface.message_ids.upcoming(),
            ),
{
    let id = interface.message_ids.upcoming();
    let after = interface.pushed();
    law_push_fresh(interface);
    assert forall|slot: Slot| #[trigger]
        set_aside(wires, after, slot) == set_aside(wires, interface, slot) by {}
    assert forall|slot: Slot| #[trigger]
        set_aside(wires, after, slot) matches Some(other) implies after.refusal(
        set_aside(wires, after, slot)->Some_0,
    ) is None && set_aside(wires, after, slot) != Some(id) by {
        assert(set_aside(wires, interface, slot) is Some);
    }
    assert forall|other: IpfiInteger| #[trigger]
        after.messages.contains_key(other) implies after.messages[other].serial
        < after.next_serial by {
        if other != id {
            assert(interface.messages.contains_key(other));
        }
    }
    assert forall|i: int| 0 <= i < wires.len() implies !#[trigger] handled(
        wires[i],
        after,
        id,
    ) by {
        if wires[i].idle.contains_key(id) {
            assert(wires[i].idle[id] < interface.next_serial);
        }
    }
    assert forall|i: int, other: IpfiInteger, slot: Slot|
        #![trigger handled(wires[i], after, other), set_aside(wires, after, slot)]
        0 <= i < wires.len() && handled(wires[i], after, other)
            && slot is Arguments implies set_aside(wires, after, slot) != Some(other) by {
        assert(other != id);
        assert(handled(wires[i], interface, other));
        assert(set_aside(wires, interface, slot) == set_aside(wires, after, slot));
    }
}

/// Setting a message aside that is set aside for nothing keeps everything together, as long as
/// nobody has a handle on it if it is for arguments.
proof fn lemma_claimed(
    wires: Seq<WireState>,
    interface: InterfaceState,
    more_wires: Seq<WireState>,
    more: InterfaceState,
    slot: Slot,
    id: IpfiInteger,
)
    requires
        connected(wires, interface),
        interface.refusal(id) is None,
        unclaimed(wires, interface, id),
        more == (InterfaceState { call_buffers: more.call_buffers, ..interface }),
        more_wires.len() == wires.len(),
        forall|i: int| 0 <= i < wires.len() ==> #[trigger] more_wires[i].idle == wires[i].idle,
        forall|other: Slot| #[trigger]
            set_aside(more_wires, more, other) == (if other == slot {
                Some(id)
            } else {
                set_aside(wires, interface, other)
            }),
        slot is Arguments ==> forall|i: int|
            0 <= i < wires.len() ==> !#[trigger] handled(wires[i], interface, id),
    ensures
        connected(more_wires, more),
{
    assert forall|other: Slot| #[trigger]
        set_aside(more_wires, more, other) matches Some(_) implies more.refusal(
        set_aside(more_wires, more, other)->Some_0,
    ) is None by {
        if other != slot {
            assert(set_aside(wires, interface, other) is Some);
        }
    }
    assert forall|a: Slot, b: Slot|
        #![trigger set_aside(more_wires, more, a), set_aside(more_wires, more, b)]
        set_aside(more_wires, more, a) is Some && set_aside(more_wires, more, a) == set_aside(
            more_wires,
            more,
            b,
        ) implies a == b by {
        assert(set_aside(wires, interface, a) != Some(id));
        assert(set_aside(wires, interface, b) != Some(id));
    }
    assert forall|i: int, other: IpfiInteger|
        0 <= i < more_wires.len()
            && #[trigger] more_wires[i].idle.contains_key(other) implies more_wires[i].idle[other]
        < more.next_serial by {
        assert(wires[i].idle.contains_key(other));
    }
    assert forall|i: int, other: IpfiInteger, taken: Slot|
        #![trigger handled(more_wires[i], more, other), set_aside(more_wires, more, taken)]
        0 <= i < more_wires.len() && handled(more_wires[i], more, other)
            && taken is Arguments implies set_aside(more_wires, more, taken) != Some(other) by {
        assert(more_wires[i].idle == wires[i].idle);
        assert(handled(wires[i], interface, other));
        assert(set_aside(wires, interface, taken) != Some(other));
    }
}

/// A handle on a message that accumulates no arguments keeps everything together, as does whatever
/// happens to a wire apart from what is set aside for it.
proof fn lemma_rewired(
    wires: Seq<WireState>,
    interface: InterfaceState,
    i: int,
    wire: WireState,
    id: IpfiInteger,
)
    requires
        connected(wires, interface),
        0 <= i < wires.len(),
        wire.responses == wires[i].responses,
        forall|other: IpfiInteger| #[trigger]
            wire.idle.contains_key(other) ==> wires[i].idle.contains_pair(other, wire.idle[other])
                || (other == id && interface.messages.contains_key(id) && wire.idle[id]
                == interface.messages[id].serial),
        forall|slot: Slot|
            slot is Arguments ==> #[trigger] set_aside(wires, interface, slot) != Some(id)
                || !wire.idle.contains_key(id) || wires[i].idle.contains_pair(id, wire.idle[id]),
    ensures
        connected(wires.update(i, wire), interface),
{
    let after = wires.update(i, wire);
    assert forall|slot: Slot| #[trigger]
        set_aside(after, interface, slot) == set_aside(wires, interface, slot) by {}
    assert forall|j: int, other: IpfiInteger|
        0 <= j < after.len()
            && #[trigger] after[j].idle.contains_key(other) implies after[j].idle[other]
        < interface.next_serial by {
        if j == i {
            if wires[i].idle.contains_pair(other, wire.idle[other]) {
                assert(wires[i].idle.contains_key(other));
            } else {
                assert(interface.messages.contains_key(id));
            }
        } else {
            assert(wires[j].idle.contains_key(other));
        }
    }
    assert forall|j: int, other: IpfiInteger, slot: Slot|
        #![trigger handled(after[j], interface, other), set_aside(after, interface, slot)]
        0 <= j < after.len() && handled(after[j], interface, other)
            && slot is Arguments implies set_aside(after, interface, slot) != Some(other) by {
        assert(set_aside(wires, interface, slot) == set_aside(after, interface, slot));
        if j != i {
            assert(handled(wires[j], interface, other));
        } else {
            assert(wire.idle.contains_key(other));
            if wires[i].idle.contains_pair(other, wire.idle[other]) {
                assert(handled(wires[i], interface, other));
            }
        }
    }
}

/// A new interface has no wires, and goes together with them.
pub proof fn law_initial_connected()
    ensures
        connected(Seq::empty(), InterfaceState::initial()),
{
}

/// A new wire goes together with its interface, and with all the wires that were there before.
pub proof fn law_new_wire_is_connected(
    wires: Seq<WireState>,
    interface: InterfaceState,
    id: IpfiInteger,
    module_style: bool,
)
    requires
        connected(wires, interface),
    ensures
        connected(
            wires.push(WireState::initial(id, module_style)),
            (InterfaceState { wire_ids: interface.wire_ids.advanced(), ..interface }),
        ),
{
    let more = wires.push(WireState::initial(id, module_style));
    let after = InterfaceState { wire_ids: interface.wire_ids.advanced(), ..interface };
    assert(after.well_formed());
    assert forall|slot: Slot| #[trigger]
        set_aside(more, after, slot) == set_aside(wires, interface, slot) by {}
    assert forall|slot: Slot| #[trigger]
        set_aside(more, after, slot) matches Some(_) implies after.refusal(
        set_aside(more, after, slot)->Some_0,
    ) is None by {
        assert(set_aside(wires, interface, slot) is Some);
    }
    assert forall|i: int, other: IpfiInteger|
        0 <= i < more.len() && #[trigger] more[i].idle.contains_key(
            other,
        ) implies more[i].idle[other] < after.next_serial by {
        assert(wires[i].idle.contains_key(other));
    }
    assert forall|i: int, other: IpfiInteger, slot: Slot|
        #![trigger handled(more[i], after, other), set_aside(more, after, slot)]
        0 <= i < more.len() && handled(more[i], after, other)
            && slot is Arguments implies set_aside(more, after, slot) != Some(other) by {
        assert(handled(wires[i], interface, other));
        assert(set_aside(wires, interface, slot) == set_aside(more, after, slot));
    }
}

/// Making a call over one of the wires, be it all at once, which yields a handle on its response,
/// or piecemeal, keeps everything together, until there are no identifiers or serial numbers left.
pub proof fn law_calling_keeps_connected(
    wires: Seq<WireState>,
    interface: InterfaceState,
    i: int,
    procedure: IpfiInteger,
    args: Seq<u8>,
)
    requires
        connected(wires, interface),
        0 <= i < wires.len(),
        !interface.message_ids.exhausted(),
        interface.next_serial < u64::MAX,
    ensures
        connected(
            wires.update(i, wires[i].called(procedure, args, interface)),
            interface.pushed(),
        ),
        handled(
            wires[i].called(procedure, args, interface),
            interface.pushed(),
            interface.message_ids.upcoming(),
        ),
        connected(
            wires.update(i, wires[i].call_begun(procedure, args, interface)),
            interface.pushed(),
        ),
{
    let id = interface.message_ids.upcoming();
    let call = (procedure, wires[i].next_call(procedure));
    let slot = Slot::Response(i, call);
    let opened = wires[i].call_opened(procedure, id);
    lemma_pushed(wires, interface);
    law_push_fresh(interface);
    // Whatever the slot was used for before is forgotten, then it is used for the new message
    let closed = WireState { responses: wires[i].responses.remove(call), ..opened };
    let fewer = wires.update(i, closed);
    let pushed = interface.pushed();
    assert forall|other: Slot| #[trigger]
        set_aside(fewer, pushed, other) == (if other == slot {
            None
        } else {
            set_aside(wires, pushed, other)
        }) by {}
    lemma_forgotten(wires, pushed, fewer, pushed, slot);
    assert(unclaimed(fewer, pushed, id)) by {
        assert forall|other: Slot| #[trigger] set_aside(fewer, pushed, other) != Some(id) by {
            assert(set_aside(wires, pushed, other) != Some(id));
        }
    }
    let more = wires.update(i, opened);
    assert forall|other: Slot| #[trigger]
        set_aside(more, pushed, other) == (if other == slot {
            Some(id)
        } else {
            set_aside(fewer, pushed, other)
        }) by {}
    lemma_claimed(fewer, pushed, more, pushed, slot, id);
    let called = wires[i].called(procedure, args, interface);
    assert forall|other: Slot| other is Arguments implies #[trigger] set_aside(more, pushed, other)
        != Some(id) by {
        assert(set_aside(more, pushed, slot) == Some(id));
    }
    lemma_rewired(more, pushed, i, called, id);
    assert(more.update(i, called) =~= wires.update(i, called));
    let begun = wires[i].call_begun(procedure, args, interface);
    lemma_rewired(more, pushed, i, begun, id);
    assert(more.update(i, begun) =~= wires.update(i, begun));
}

/// Sending more of the arguments of a call, ending it, which yields a handle on its response, and
/// dropping a handle keep everything together.
pub proof fn law_continuing_keeps_connected(
    wires: Seq<WireState>,
    interface: InterfaceState,
    i: int,
    procedure: IpfiInteger,
    call: IpfiInteger,
    args: Seq<u8>,
    id: IpfiInteger,
)
    requires
        connected(wires, interface),
        0 <= i < wires.len(),
    ensures
        connected(
            wires.update(i, wires[i].call_continued(procedure, call, args)),
            interface,
        ),
        wires[i].responses.contains_key((procedure, call)) ==> {
            let response_idx = wires[i].responses[(procedure, call)];
            let ended = wires[i].call_ended(procedure, call).with_handle(
                response_idx,
                interface.messages[response_idx].serial,
            );
            &&& connected(wires.update(i, ended), interface)
            &&& handled(ended, interface, response_idx)
        },
        connected(wires.update(i, wires[i].without_handle(id)), interface),
{
    lemma_rewired(wires, interface, i, wires[i].call_continued(procedure, call, args), id);
    lemma_rewired(wires, interface, i, wires[i].without_handle(id), id);
    if wires[i].responses.contains_key((procedure, call)) {
        let response_idx = wires[i].responses[(procedure, call)];
        let slot = Slot::Response(i, (procedure, call));
        assert(set_aside(wires, interface, slot) == Some(response_idx));
        let ended = wires[i].call_ended(procedure, call).with_handle(
            response_idx,
            interface.messages[response_idx].serial,
        );
        lemma_rewired(wires, interface, i, ended, response_idx);
    }
}

/// Writing to a message that can be written to keeps everything together, and it can still be
/// written to.
proof fn lemma_written(
    wires: Seq<WireState>,
    interface: InterfaceState,
    id: IpfiInteger,
    data: Seq<u8>,
)
    requires
        connected(wires, interface),
        interface.refusal(id) is None,
    ensures
        connected(wires, interface.appended(id, data)),
        interface.appended(id, data).refusal(id) is None,
        connected(wires, interface.chunk_terminated(id)),
        unclaimed(wires, interface, id) ==> unclaimed(wires, interface.appended(id, data), id),
{
    assert(interface.messages[id].well_formed());
    lemma_replaced(wires, interface, interface.appended(id, data), id);
    lemma_replaced(wires, interface, interface.chunk_terminated(id), id);
    if unclaimed(wires, interface, id) {
        assert forall|slot: Slot| #[trigger]
            set_aside(wires, interface.appended(id, data), slot) != Some(id) by {
            assert(set_aside(wires, interface, slot) != Some(id));
        }
    }
}

/// Terminating a message that is set aside for nothing keeps everything together.
proof fn lemma_terminated(wires: Seq<WireState>, interface: InterfaceState, id: IpfiInteger)
    requires
        connected(wires, interface),
        interface.refusal(id) is None,
        unclaimed(wires, interface, id),
    ensures
        connected(wires, interface.terminated(id)),
{
    let message = interface.messages[id];
    assert(message.well_formed());
    if interface.listening(message.sender) {
        let sent = interface.completed(id).sent(message.sender->Attached_0, message.chunks.last());
        lemma_replaced(wires, interface, sent, id);
        assert forall|slot: Slot| #[trigger] set_aside(wires, sent, slot) != Some(id) by {
            assert(set_aside(wires, interface, slot) != Some(id));
        }
        lemma_popped(wires, sent, id);
    } else {
        lemma_replaced(wires, interface, interface.terminated(id), id);
    }
}

/// Arguments that arrive keep everything together.
proof fn lemma_call_received(
    wires: Seq<WireState>,
    interface: InterfaceState,
    i: int,
    frame: Frame,
)
    requires
        connected(wires, interface),
        0 <= i < wires.len(),
        !interface.message_ids.exhausted(),
        interface.next_serial < u64::MAX,
    ensures
        connected(
            wires.update(i, handle_call(wires[i], interface, frame).wire),
            handle_call(wires[i], interface, frame).interface,
        ),
{
    let handling = handle_call(wires[i], interface, frame);
    let call = (frame.procedure, frame.call, wires[i].id);
    let slot = Slot::Arguments(call);
    let id = interface.call_buffer(call);
    let prepared = interface.with_call_buffer(call);
    if handling.interface != interface {
        if !interface.call_buffers.contains_key(call) {
            lemma_pushed(wires, interface);
            let pushed = interface.pushed();
            assert forall|other: Slot| #[trigger]
                set_aside(wires, prepared, other) == (if other == slot {
                    Some(id)
                } else {
                    set_aside(wires, pushed, other)
                }) by {}
            lemma_claimed(wires, pushed, wires, prepared, slot, id);
        }
        assert(connected(wires, prepared));
        assert(set_aside(wires, prepared, slot) == Some(id));
        assert(prepared.refusal(id) is None);
        if frame.ends() {
            let forgotten = InterfaceState {
                call_buffers: prepared.call_buffers.remove(call),
                ..prepared
            };
            assert forall|other: Slot| #[trigger]
                set_aside(wires, forgotten, other) == (if other == slot {
                    None
                } else {
                    set_aside(wires, prepared, other)
                }) by {}
            lemma_forgotten(wires, prepared, wires, forgotten, slot);
            lemma_written(wires, forgotten, id, frame.payload);
            lemma_terminated(wires, forgotten.appended(id, frame.payload), id);
            let ended = prepared.appended(id, frame.payload).terminated(id);
            assert(ended.call_buffers.contains_key(call));
            assert(handling.interface =~= forgotten.appended(id, frame.payload).terminated(id));
        } else {
            lemma_written(wires, prepared, id, frame.payload);
        }
    }
    assert(connected(wires, handling.interface));
    lemma_rewired(wires, handling.interface, i, handling.wire, id);
}

/// A response that arrives keeps everything together.
proof fn lemma_response_received(
    wires: Seq<WireState>,
    interface: InterfaceState,
    i: int,
    frame: Frame,
)
    requires
        connected(wires, interface),
        0 <= i < wires.len(),
    ensures
        connected(
            wires.update(i, handle_response(wires[i], interface, frame).wire),
            handle_response(wires[i], interface, frame).interface,
        ),
{
    let handling = handle_response(wires[i], interface, frame);
    let call = (frame.procedure, frame.call);
    let slot = Slot::Response(i, call);
    assert(wires.update(i, wires[i]) =~= wires);
    if wires[i].responses.contains_key(call) {
        let id = wires[i].responses[call];
        assert(set_aside(wires, interface, slot) == Some(id));
        lemma_written(wires, interface, id, frame.payload);
        if frame.ends() {
            let fewer = wires.update(i, handling.wire);
            assert forall|other: Slot| #[trigger]
                set_aside(fewer, interface, other) == (if other == slot {
                    None
                } else {
                    set_aside(wires, interface, other)
                }) by {}
            lemma_forgotten(wires, interface, fewer, interface, slot);
            lemma_written(fewer, interface, id, frame.payload);
            lemma_terminated(fewer, interface.appended(id, frame.payload), id);
        } else if frame.terminator is Chunk {
            lemma_written(wires, interface.appended(id, frame.payload), id, frame.payload);
        }
    }
}

/// Whatever arrives over one of the wires keeps everything together, until there are no identifiers
/// or serial numbers left. The arguments of a call that is handed out have been completed.
pub proof fn law_receiving_keeps_connected(
    wires: Seq<WireState>,
    interface: InterfaceState,
    i: int,
    packet: Option<Packet>,
)
    requires
        connected(wires, interface),
        0 <= i < wires.len(),
        !interface.message_ids.exhausted(),
        interface.next_serial < u64::MAX,
    ensures
        connected(
            wires.update(i, handle(wires[i], interface, packet).wire),
            handle(wires[i], interface, packet).interface,
        ),
        handle(wires[i], interface, packet).result matches Ok(ReceptionState::Call(call))
            ==> handle(wires[i], interface, packet).interface.refusal(call.args_buf_idx) is Some,
{
    assert(wires.update(i, wires[i]) =~= wires);
    match packet {
        Some(Packet::Call(frame)) => lemma_call_received(wires, interface, i, frame),
        Some(Packet::Response(frame)) => lemma_response_received(wires, interface, i, frame),
        _ => {},
    }
}

/// Finishing a call that was handed out, whose arguments have therefore been completed, and sending
/// some (or all) of the response to it keep everything together.
pub proof fn law_answering_keeps_connected(
    wires: Seq<WireState>,
    interface: InterfaceState,
    i: int,
    call: CallState,
    failed: bool,
    message: Seq<u8>,
    terminator: Terminator,
)
    requires
        connected(wires, interface),
        0 <= i < wires.len(),
    ensures
        interface.refusal(call.args_buf_idx) is Some ==> connected(
            wires,
            interface.call_finished(call, failed),
        ),
        connected(
            wires.update(
                i,
                wires[i].responded(call.procedure_idx, call.call_idx, message, terminator),
            ),
            interface,
        ),
{
    if interface.refusal(call.args_buf_idx) is Some {
        lemma_refused_is_unclaimed(wires, interface, call.args_buf_idx);
        lemma_popped(wires, interface, call.args_buf_idx);
    }
    lemma_rewired(
        wires,
        interface,
        i,
        wires[i].responded(call.procedure_idx, call.call_idx, message, terminator),
        call.args_buf_idx,
    );
}

/// A message that cannot be written to is set aside for nothing.
proof fn lemma_refused_is_unclaimed(
    wires: Seq<WireState>,
    interface: InterfaceState,
    id: IpfiInteger,
)
    requires
        connected(wires, interface),
        interface.refusal(id) is Some,
    ensures
        unclaimed(wires, interface, id),
{
    assert forall|slot: Slot| #[trigger] set_aside(wires, interface, slot) != Some(id) by {
        assert(set_aside(wires, interface, slot) matches Some(other) ==> interface.refusal(
            other,
        ) is None);
    }
}

/// Waiting for a message, taking one that has been completed, and receiving its chunks keep
/// everything together.
pub proof fn law_waiting_keeps_connected(
    wires: Seq<WireState>,
    interface: InterfaceState,
    id: IpfiInteger,
    receiver: ReceiverState,
)
    requires
        connected(wires, interface),
        interface.next_serial < u64::MAX,
    ensures
        connected(wires, interface.creation_awaited(id)),
        connected(wires, interface.creation_resumed(id)),
        connected(wires, interface.received(receiver)),
        connected(
            wires,
            (InterfaceState {
                streams: interface.streams.remove(receiver.stream),
                ..interface
            }),
        ),
        interface.messages.contains_key(id) ==> connected(wires, interface.streaming(id)),
        interface.messages.contains_key(id) && interface.messages[id].lock is Complete
            ==> connected(wires, interface.popped(id)),
{
    lemma_untouched(wires, interface, interface.creation_awaited(id));
    lemma_untouched(wires, interface, interface.creation_resumed(id));
    lemma_untouched(wires, interface, interface.received(receiver));
    lemma_untouched(
        wires,
        interface,
        InterfaceState { streams: interface.streams.remove(receiver.stream), ..interface },
    );
    if interface.messages.contains_key(id) {
        assert(interface.messages[id].well_formed());
        lemma_replaced(wires, interface, interface.streaming(id), id);
        if interface.messages[id].lock is Complete {
            lemma_refused_is_unclaimed(wires, interface, id);
            lemma_popped(wires, interface, id);
        }
    }
}

/// Whatever happens to an interface apart from its messages keeps everything together.
proof fn lemma_untouched(
    wires: Seq<WireState>,
    before: InterfaceState,
    after: InterfaceState,
)
    requires
        connected(wires, before),
        after.messages == before.messages,
        after.message_ids == before.message_ids,
        after.call_buffers == before.call_buffers,
        after.next_serial == before.next_serial,
    ensures
        connected(wires, after),
{
    assert forall|slot: Slot| #[trigger]
        set_aside(wires, after, slot) == set_aside(wires, before, slot) by {}
    assert forall|slot: Slot| #[trigger]
        set_aside(wires, after, slot) matches Some(_) implies after.refusal(
        set_aside(wires, after, slot)->Some_0,
    ) is None by {
        assert(set_aside(wires, before, slot) is Some);
    }
    assert forall|i: int, other: IpfiInteger, slot: Slot|
        #![trigger handled(wires[i], after, other), set_aside(wires, after, slot)]
        0 <= i < wires.len() && handled(wires[i], after, other)
            && slot is Arguments implies set_aside(wires, after, slot) != Some(other) by {
        assert(handled(wires[i], before, other));
        assert(set_aside(wires, before, slot) == set_aside(wires, after, slot));
    }
}

/// Using the interface for messages that have nothing to do with calls keeps everything together,
/// until there are no identifiers or serial numbers left.
pub proof fn law_messages_keep_connected(
    wires: Seq<WireState>,
    interface: InterfaceState,
    id: IpfiInteger,
    data: Seq<u8>,
    serial: u64,
)
    requires
        connected(wires, interface),
    ensures
        !interface.message_ids.exhausted() && interface.next_serial < u64::MAX ==> {
            &&& connected(wires, interface.pushed())
            &&& unclaimed(wires, interface.pushed(), interface.message_ids.upcoming())
        },
        interface.refusal(id) is None && unclaimed(wires, interface, id) ==> {
            &&& connected(wires, interface.appended(id, data))
            &&& connected(wires, interface.completed(id))
            &&& connected(wires, interface.terminated(id))
            &&& connected(wires, interface.chunk_terminated(id))
        },
        connected(wires, interface.poisoned(id, serial)),
{
    if !interface.message_ids.exhausted() && interface.next_serial < u64::MAX {
        lemma_pushed(wires, interface);
    }
    if interface.refusal(id) is None && unclaimed(wires, interface, id) {
        assert(interface.messages[id].well_formed());
        lemma_written(wires, interface, id, data);
        lemma_terminated(wires, interface, id);
        lemma_replaced(wires, interface, interface.completed(id), id);
    }
    if interface.messages.contains_key(id) && interface.messages[id].serial == serial {
        assert(interface.messages[id].well_formed());
        lemma_replaced(wires, interface, interface.poisoned(id, serial), id);
    }
}

/// Forgetting calls keeps everything together.
proof fn lemma_calls_dropped(
    wires: Seq<WireState>,
    interface: InterfaceState,
    calls: Seq<(IpfiInteger, IpfiInteger)>,
    wire: IpfiInteger,
)
    requires
        connected(wires, interface),
    ensures
        connected(wires, interface.calls_dropped(calls, wire)),
    decreases calls.len(),
{
    if calls.len() > 0 {
        lemma_calls_dropped(wires, interface, calls.drop_last(), wire);
        let before = interface.calls_dropped(calls.drop_last(), wire);
        let call = (calls.last().0, calls.last().1, wire);
        if before.call_buffers.contains_key(call) {
            let slot = Slot::Arguments(call);
            let forgotten = InterfaceState {
                call_buffers: before.call_buffers.remove(call),
                ..before
            };
            assert forall|other: Slot| #[trigger]
                set_aside(wires, forgotten, other) == (if other == slot {
                    None
                } else {
                    set_aside(wires, before, other)
                }) by {}
            assert(set_aside(wires, before, slot) is Some);
            lemma_forgotten(wires, before, wires, forgotten, slot);
            lemma_popped(wires, forgotten, before.call_buffers[call]);
        }
    }
}

/// Terminating one of the wires, or letting go of it, keeps everything together.
pub proof fn law_termination_keeps_connected(
    wires: Seq<WireState>,
    interface: InterfaceState,
    i: int,
    wire_after: WireState,
    interface_after: InterfaceState,
)
    requires
        connected(wires, interface),
        0 <= i < wires.len(),
        terminates(wires[i], interface, wire_after, interface_after) || releases(
            wires[i],
            interface,
            wire_after,
            interface_after,
        ),
    ensures
        connected(wires.update(i, wire_after), interface_after),
{
    let wire = wires[i];
    let terminated = if terminates(wire, interface, wire_after, interface_after) {
        interface_after
    } else {
        choose|after: InterfaceState| #[trigger]
            terminates(wire, interface, wire.shut(), after) && interface_after == (
            if wire.holders == 1 {
                InterfaceState { wire_ids: after.wire_ids.relinquished(wire.id), ..after }
            } else {
                after
            })
    };
    assert(terminates(wire, interface, wire.shut(), terminated));
    let order = choose|order: Seq<(IpfiInteger, IpfiInteger)>| #[trigger]
        enumerates(order, wire.ongoing) && terminated == interface.calls_dropped(
            order,
            wire.id,
        ).handles_poisoned(wire.idle);
    lemma_calls_dropped(wires, interface, order, wire.id);
    lemma_handles_poisoned(wires, interface.calls_dropped(order, wire.id), wire.idle);
    lemma_untouched(wires, terminated, interface_after);
    lemma_rewired(wires, interface_after, i, wire_after, 0);
}

/// Poisoning handles keeps everything together.
proof fn lemma_handles_poisoned(
    wires: Seq<WireState>,
    interface: InterfaceState,
    idle: Map<IpfiInteger, u64>,
)
    requires
        connected(wires, interface),
    ensures
        connected(wires, interface.handles_poisoned(idle)),
{
    let after = interface.handles_poisoned(idle);
    assert forall|id: IpfiInteger| #[trigger]
        after.messages.contains_key(id) <==> after.message_ids.in_use(id) by {
        assert(interface.messages.contains_key(id) <==> interface.message_ids.in_use(id));
    }
    assert forall|id: IpfiInteger| #[trigger]
        after.messages.contains_key(id) implies after.messages[id].well_formed()
        && after.messages[id].serial == interface.messages[id].serial
        && after.messages[id].serial < after.next_serial by {
        assert(interface.messages.contains_key(id));
    }
    assert forall|slot: Slot| #[trigger]
        set_aside(wires, after, slot) == set_aside(wires, interface, slot) by {}
    assert forall|slot: Slot| #[trigger]
        set_aside(wires, after, slot) matches Some(_) implies after.refusal(
        set_aside(wires, after, slot)->Some_0,
    ) is None by {
        assert(set_aside(wires, interface, slot) is Some);
    }
    assert forall|i: int, other: IpfiInteger, slot: Slot|
        #![trigger handled(wires[i], after, other), set_aside(wires, after, slot)]
        0 <= i < wires.len() && handled(wires[i], after, other)
            && slot is Arguments implies set_aside(wires, after, slot) != Some(other) by {
        assert(after.messages.contains_key(other));
        assert(handled(wires[i], interface, other));
        assert(set_aside(wires, interface, slot) == set_aside(wires, after, slot));
    }
}

/// When a wire is terminated, whoever waits for a response that has not been completed is told, and
/// whoever waits for one that has been still gets it. Messages that nobody has a handle on, and
/// that accumulate no arguments, are not touched.
pub proof fn law_termination_releases_waiters(
    wires: Seq<WireState>,
    interface: InterfaceState,
    i: int,
    wire_after: WireState,
    interface_after: InterfaceState,
    id: IpfiInteger,
)
    requires
        connected(wires, interface),
        0 <= i < wires.len(),
        terminates(wires[i], interface, wire_after, interface_after),
    ensures
        wire_after.terminated,
        handled(wires[i], interface, id) && !(interface.messages[id].lock is Complete) ==> {
            &&& interface_after.messages.contains_key(id)
            &&& interface_after.message_progress(id) == Progress::Ready(
                Err::<(), Error>(Error::LockPoisoned { index: id }),
            )
        },
        handled(wires[i], interface, id) && interface.messages[id].lock is Complete ==> {
            &&& interface_after.messages.contains_key(id)
            &&& interface_after.messages[id] == interface.messages[id]
            &&& interface_after.message_progress(id) == Progress::Ready(Ok::<(), Error>(()))
        },
        interface.messages.contains_key(id) && !handled(wires[i], interface, id) && (forall|
            slot: Slot,
        |
            slot is Arguments ==> #[trigger] set_aside(wires, interface, slot) != Some(id)) ==> {
            &&& interface_after.messages.contains_key(id)
            &&& interface_after.messages[id] == interface.messages[id]
        },
{
    let wire = wires[i];
    let order = choose|order: Seq<(IpfiInteger, IpfiInteger)>| #[trigger]
        enumerates(order, wire.ongoing) && interface_after == interface.calls_dropped(
            order,
            wire.id,
        ).handles_poisoned(wire.idle);
    if interface.messages.contains_key(id) && (handled(wire, interface, id) || forall|slot: Slot|
        slot is Arguments ==> #[trigger] set_aside(wires, interface, slot) != Some(id)) {
        assert forall|call: (IpfiInteger, IpfiInteger, IpfiInteger)| #[trigger]
            interface.call_buffers.contains_key(call) implies interface.call_buffers[call]
            != id by {
            assert(set_aside(wires, interface, Slot::Arguments(call)) != Some(id));
        }
        lemma_dropping_calls_keeps(interface, order, wire.id, id);
    }
}

} // verus!
