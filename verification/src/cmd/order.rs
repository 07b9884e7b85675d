//! Reordering the rotation: the whole list is replaced at once, and a
//! pending hand-off is re-aimed relative to the new order.

use vstd::prelude::*;
use crate::session::drivers::{rotation_next, rotation_prev, Drivers};
use crate::session::session_store::Store;
use crate::session::state::StateSpec;
use crate::session::{Session, State};

verus! {

pub struct Order<'a, S: Store> {
    pub store: &'a S,
}

impl<'a, S: Store> Order<'a, S> {
    pub fn new(store: &'a S) -> (r: Order<'a, S>) {
        Order { store }
    }

    /// The store this command works against.
    pub fn store(&self) -> (r: &'a S) {
        self.store
    }
}

/// After a reorder while a hand-off is pending: whoever preceded the old
/// expectation in the old order hands over, so the new expectation is that
/// member's successor in the new order.
pub fn propose_next(old_order: &Drivers, ordered: &Drivers, old_next: &str) -> (r: Option<
    String,
>)
    requires
        old_order@.len() >= 2,
        old_order@.contains(old_next@),
        forall|x: Seq<char>| old_order@.contains(x) ==> ordered@.contains(x),
        ordered@.len() == old_order@.len(),
    ensures
        match rotation_prev(old_order@, old_next@) {
            Some(p) => r.deep_view() == rotation_next(ordered@, p),
            None => false,
        },
{
    proof {
        crate::session::drivers::lemma_first_index(old_order@, old_next@);
        let fi = crate::session::drivers::first_index(old_order@, old_next@);
        let n = old_order@.len() as int;
        let p = (fi - 1 + n) % n;
        vstd::arithmetic::div_mod::lemma_mod_bound(fi - 1 + n, n);
        assert(old_order@.contains(old_order@[p]));
    }
    let previous = old_order.prev(old_next).unwrap();
    ordered.next(previous.as_str())
}

/// The reordered session: the new rotation replaces the old one wholesale,
/// and a pending hand-off is re-aimed at `next`; everything else stays.
pub fn reorder(session: Session, ordered: Drivers, next: Option<String>) -> (r: Session)
    ensures
        r@.drivers == ordered@,
        r@.branches == session@.branches,
        r@.settings == session@.settings,
        r@.state == (match session@.state {
            StateSpec::WaitingForNext { .. } => StateSpec::WaitingForNext {
                next: next.deep_view(),
            },
            st => st,
        }),
{
    let state = match session.state {
        State::WaitingForNext { .. } => State::WaitingForNext { next },
        st => st,
    };
    Session { drivers: ordered, state, ..session }
}

} // verus!
