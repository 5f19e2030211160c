//! Unique identifiers that are recycled.
use crate::collections::{identifiers_of, new_identifier_queue, queue_pop, queue_push};
use crate::types::IpfiInteger;
use crossbeam_queue::SegQueue;
use vstd::prelude::*;

verus! {

/// The identifiers of a [`RoiQueue`]: the lowest one that has not been in circulation yet, and
/// those that have been relinquished, oldest first.
#[verifier::ext_equal]
pub struct RoiState {
    pub counter: IpfiInteger,
    pub free: Seq<IpfiInteger>,
}

impl RoiState {
    /// The state before any identifier is issued.
    pub open spec fn initial() -> RoiState {
        RoiState { counter: 0, free: Seq::empty() }
    }

    /// The identifier that is issued next: the one that has been waiting the longest to be
    /// reused, or a new one.
    pub open spec fn upcoming(self) -> IpfiInteger {
        if self.free.len() > 0 {
            self.free[0]
        } else {
            self.counter
        }
    }

    /// The state after the next identifier is issued.
    pub open spec fn advanced(self) -> RoiState {
        if self.free.len() > 0 {
            RoiState { free: self.free.skip(1), ..self }
        } else if self.counter == IpfiInteger::MAX {
            RoiState { counter: 0, ..self }
        } else {
            RoiState { counter: (self.counter + 1) as IpfiInteger, ..self }
        }
    }

    /// The state after an identifier is relinquished.
    pub open spec fn relinquished(self, id: IpfiInteger) -> RoiState {
        RoiState { free: self.free.push(id), ..self }
    }

    /// Whether an identifier is in use: it has been issued, and not been relinquished since.
    pub open spec fn in_use(self, id: IpfiInteger) -> bool {
        id < self.counter && !self.free.contains(id)
    }

    /// Whether only identifiers that are not in use wait to be reused, and none of them twice.
    pub open spec fn sound(self) -> bool {
        &&& self.free.no_duplicates()
        &&& forall|i: int| 0 <= i < self.free.len() ==> #[trigger] self.free[i] < self.counter
    }

    /// The state after some identifiers have been issued, and some relinquished. Steps that issue
    /// one are `None`.
    pub open spec fn after(self, steps: Seq<Option<IpfiInteger>>) -> RoiState
        decreases steps.len(),
    {
        if steps.len() == 0 {
            self
        } else {
            let before = self.after(steps.drop_last());
            match steps.last() {
                None => before.advanced(),
                Some(id) => before.relinquished(id),
            }
        }
    }

    /// Whether none of some steps issues an identifier after the last one, or relinquishes one that
    /// is not in use.
    pub open spec fn proper(self, steps: Seq<Option<IpfiInteger>>) -> bool
        decreases steps.len(),
    {
        steps.len() > 0 ==> {
            let before = self.after(steps.drop_last());
            &&& self.proper(steps.drop_last())
            &&& match steps.last() {
                None => !before.exhausted(),
                Some(id) => before.in_use(id),
            }
        }
    }

    /// Whether the next identifier would be the last one that there is.
    pub open spec fn exhausted(self) -> bool {
        self.free.len() == 0 && self.counter == IpfiInteger::MAX
    }
}

/// A reuse-or-increment queue for unique identifiers. When polled for a new identifier, this
/// will first attempt to reuse any relinquished identifiers, before incrementing to create a new
/// identifier if no other could be found.
pub struct RoiQueue {
    /// One above the highest identifier that has been in circulation.
    counter: IpfiInteger,
    /// All the identifiers that have been relinquished (i.e. that are no longer in use). These
    /// will be recirculated automatically when a new identifier is requested.
    relinquished: SegQueue<IpfiInteger>,
}

impl View for RoiQueue {
    type V = RoiState;

    closed spec fn view(&self) -> RoiState {
        RoiState { counter: self.counter, free: identifiers_of(self.relinquished) }
    }
}

impl Default for RoiQueue {
    fn default() -> (queue: Self)
        ensures
            queue@ == RoiState::initial(),
    {
        Self { counter: 0, relinquished: new_identifier_queue() }
    }
}

impl RoiQueue {
    /// Initialises a new reuse-or-increment queue.
    pub fn new() -> (queue: Self)
        ensures
            queue@ == RoiState::initial(),
    {
        Self::default()
    }

    /// Gets a new unique identifier from this queue. As long as nothing has been relinquished
    /// that was not in use, and the identifiers have not run out, nobody else is using it.
    pub fn get(&mut self) -> (id: IpfiInteger)
        ensures
            id == old(self)@.upcoming(),
            final(self)@ == old(self)@.advanced(),
    {
        match queue_pop(&mut self.relinquished) {
            Some(id) => id,
            None => {
                let id: IpfiInteger = self.counter;
                self.counter = id.wrapping_add(1);
                id
            },
        }
    }

    /// Marks the given identifier as relinquished. After this method is called, the given
    /// identifier will almost certainly point to something else, and as such it should no longer
    /// be considered valid.
    ///
    /// This performs no checks that the identifier has actually been issued by this queue.
    pub fn relinquish(&mut self, id: IpfiInteger)
        ensures
            final(self)@ == old(self)@.relinquished(id),
    {
        queue_push(&mut self.relinquished, id);
    }
}

/// An identifier is never issued while it is in use, and from then on it is: identifiers are
/// unique until there are none left.
pub proof fn law_identifiers_unique(state: RoiState)
    requires
        state.sound(),
        !state.exhausted(),
    ensures
        !state.in_use(state.upcoming()),
        state.advanced().in_use(state.upcoming()),
        state.advanced().sound(),
        forall|id: IpfiInteger| #[trigger]
            state.advanced().in_use(id) <==> state.in_use(id) || id == state.upcoming(),
{
    let next = state.advanced();
    if state.free.len() > 0 {
        assert(state.free.contains(state.free[0]));
        assert(next.free =~= state.free.skip(1));
        assert forall|id: IpfiInteger| #[trigger] next.free.contains(id) <==> (state.free.contains(
            id,
        ) && id != state.free[0]) by {
            if next.free.contains(id) {
                let i = choose|i: int| 0 <= i < next.free.len() && next.free[i] == id;
                assert(state.free[i + 1] == id);
            }
            if state.free.contains(id) && id != state.free[0] {
                let i = choose|i: int| 0 <= i < state.free.len() && state.free[i] == id;
                assert(next.free[i - 1] == id);
            }
        }
        assert forall|i: int| 0 <= i < next.free.len() implies #[trigger] next.free[i]
            < next.counter by {
            assert(next.free[i] == state.free[i + 1]);
        }
    }
}

/// Relinquishing an identifier that is in use frees it, and no other.
pub proof fn law_relinquish_frees(state: RoiState, id: IpfiInteger)
    requires
        state.sound(),
        state.in_use(id),
    ensures
        state.relinquished(id).sound(),
        forall|other: IpfiInteger| #[trigger]
            state.relinquished(id).in_use(other) <==> state.in_use(other) && other != id,
{
    let next = state.relinquished(id);
    assert forall|other: IpfiInteger| #[trigger] next.free.contains(other) <==> (
    state.free.contains(other) || other == id) by {
        if state.free.contains(other) {
            let i = choose|i: int| 0 <= i < state.free.len() && state.free[i] == other;
            assert(next.free[i] == other);
        }
        if other == id {
            assert(next.free[state.free.len() as int] == id);
        }
    }
    assert(next.free.no_duplicates()) by {
        assert forall|i: int, j: int|
            0 <= i < next.free.len() && 0 <= j < next.free.len() && i
                != j implies next.free[i] != next.free[j] by {
            if i < state.free.len() {
                assert(state.free.contains(state.free[i]));
            }
            if j < state.free.len() {
                assert(state.free.contains(state.free[j]));
            }
        }
    }
}

/// An identifier stays with whoever got it until it is relinquished: whatever else is issued and
/// relinquished in the meantime, it is not issued again.
pub proof fn law_issued_until_relinquished(
    state: RoiState,
    steps: Seq<Option<IpfiInteger>>,
    id: IpfiInteger,
)
    requires
        state.sound(),
        state.in_use(id),
        state.proper(steps),
        !steps.contains(Some(id)),
    ensures
        state.after(steps).sound(),
        state.after(steps).in_use(id),
        !state.after(steps).exhausted() ==> state.after(steps).upcoming() != id,
    decreases steps.len(),
{
    if steps.len() > 0 {
        let earlier = steps.drop_last();
        if earlier.contains(Some(id)) {
            let i = choose|i: int| 0 <= i < earlier.len() && earlier[i] == Some(id);
            assert(steps[i] == Some(id));
        }
        law_issued_until_relinquished(state, earlier, id);
        let before = state.after(earlier);
        match steps.last() {
            None => law_identifiers_unique(before),
            Some(other) => {
                assert(steps.contains(steps.last()));
                law_relinquish_frees(before, other);
            },
        }
    }
    if !state.after(steps).exhausted() {
        law_identifiers_unique(state.after(steps));
    }
}

/// Relinquished identifiers are reused before any new one is issued, in the order in which they
/// were relinquished.
pub proof fn law_relinquished_first(state: RoiState, id: IpfiInteger)
    ensures
        state.free.len() == 0 ==> state.relinquished(id).upcoming() == id
            && state.relinquished(id).advanced() == state,
        state.free.len() > 0 ==> state.relinquished(id).upcoming() == state.upcoming(),
{
    if state.free.len() == 0 {
        assert(state.relinquished(id).advanced() =~= state);
    }
}

/// Identifiers come out in the order in which they were relinquished, whatever is relinquished in
/// between.
pub proof fn law_reused_in_order(state: RoiState, id: IpfiInteger, other: IpfiInteger)
    ensures
        state.relinquished(id).relinquished(other).free.len() == state.free.len() + 2,
        state.free.len() > 0 ==> state.relinquished(id).advanced()
            == state.advanced().relinquished(id),
        state.free.len() == 0 ==> state.relinquished(id).relinquished(other).advanced()
            == state.relinquished(other),
        state.relinquished(id).counter == state.counter,
        forall|i: int|
            0 <= i < state.free.len() ==> #[trigger] state.relinquished(id).free[i]
                == state.free[i],
        state.relinquished(id).free.last() == id,
{
    if state.free.len() > 0 {
        assert(state.free.push(id).skip(1) =~= state.free.skip(1).push(id));
    } else {
        assert(state.free.push(id).push(other).skip(1) =~= state.free.push(other));
    }
}

/// As long as nothing waits to be reused, identifiers count up, and start over once there are no
/// more of them.
pub proof fn law_identifiers_count_up(state: RoiState)
    ensures
        RoiState::initial().upcoming() == 0,
        !RoiState::initial().in_use(0),
        RoiState::initial().sound(),
        state.free.len() == 0 ==> {
            &&& state.advanced().free.len() == 0
            &&& state.upcoming() < IpfiInteger::MAX ==> state.advanced().upcoming()
                == state.upcoming() + 1
            &&& state.upcoming() == IpfiInteger::MAX ==> state.advanced().upcoming() == 0
        },
        state.free.len() > 0 ==> {
            &&& state.advanced().counter == state.counter
            &&& seq![state.upcoming()] + state.advanced().free == state.free
        },
{
    if state.free.len() > 0 {
        assert(seq![state.upcoming()] + state.advanced().free =~= state.free);
    }
}

} // verus!
