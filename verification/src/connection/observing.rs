//! Who sees the packets of a connection's transports.

use super::ConnectionView;
use super::PeerConnection;
use crate::action::actions;
use crate::action::push_action;
use crate::action::Action;
use crate::action::ActionView;
use crate::registry::holds_id;
use vstd::prelude::*;

verus! {

/// The observers from index `k` on see a transport.
pub open spec fn observed_from(
    observers: Seq<u64>,
    transport: u64,
    k: int,
    acc: Seq<ActionView>,
) -> Seq<ActionView>
    decreases observers.len() - k,
{
    if k < 0 || k >= observers.len() {
        acc
    } else {
        observed_from(
            observers,
            transport,
            k + 1,
            acc.push(ActionView::Observe { transport, observer: observers[k] }),
        )
    }
}

/// All observers see a transport.
pub fn attach_registered_observers(observers: &Vec<u64>, transport: u64, list: &mut Vec<Action>)
    ensures
        actions(final(list)@) == observed_from(observers@, transport, 0, actions(old(list)@)),
{
    let ghost start = actions(list@);
    let mut k: usize = 0;
    while k < observers.len()
        invariant
            k <= observers@.len(),
            observed_from(observers@, transport, 0, start) == observed_from(
                observers@,
                transport,
                k as int,
                actions(list@),
            ),
        decreases observers@.len() - k,
    {
        push_action(list, Action::Observe { transport, observer: observers[k] });
        k += 1;
    }
}

/// An observer sees each of some transports.
pub open spec fn watching(observer: u64) -> spec_fn(u64) -> ActionView {
    |t: u64| ActionView::Observe { transport: t, observer }
}

/// Nobody observes a transport.
pub open spec fn unwatched() -> spec_fn(u64) -> ActionView {
    |t: u64| ActionView::ClearObservers { transport: t }
}

/// A transport has no bridge.
pub open spec fn unbridged() -> spec_fn(u64) -> ActionView {
    |t: u64| ActionView::ClearBridge { transport: t }
}

/// One action for each of some transports.
pub open spec fn each(
    acts: Seq<ActionView>,
    transports: Seq<u64>,
    f: spec_fn(u64) -> ActionView,
) -> Seq<ActionView> {
    acts + transports.map_values(f)
}

impl PeerConnection {
    /// Adds an observer of the packets of all transports, those that are there and those that
    /// will be made. One that is there already is not added again.
    pub fn add_observer(&mut self, observer: u64, list: &mut Vec<Action>)
        ensures
            old(self)@.observers.contains(observer) ==> final(self)@ == old(self)@ && actions(
                final(list)@,
            ) == actions(old(list)@),
            !old(self)@.observers.contains(observer) ==> final(self)@ == (ConnectionView {
                observers: old(self)@.observers.push(observer),
                ..old(self)@
            }) && actions(final(list)@) == each(
                actions(old(list)@),
                old(self)@.all_transports(),
                watching(observer),
            ),
            old(self)@.wf() ==> final(self)@.wf(),
    {
        if holds_id(&self.rtp_observers, observer) {
            return;
        }
        let ghost v0 = self@;
        let all = self.all_transports();
        self.rtp_observers.push(observer);
        assert(self@ =~= (ConnectionView { observers: v0.observers.push(observer), ..v0 }));
        let ghost start = actions(list@);
        let ghost want = all@.map_values(watching(observer));
        let mut k: usize = 0;
        while k < all.len()
            invariant
                k <= all@.len(),
                want == all@.map_values(watching(observer)),
                actions(list@) == start + want.take(k as int),
            decreases all@.len() - k,
        {
            push_action(list, Action::Observe { transport: all[k], observer });
            k += 1;
            assert(actions(list@) =~= start + want.take(k as int));
        }
        assert(want.take(k as int) =~= want);
    }

    /// Takes all observers from the transports that are there.
    pub fn clear_observers(&self, list: &mut Vec<Action>)
        ensures
            actions(final(list)@) == each(
                actions(old(list)@),
                self@.all_transports(),
                unwatched(),
            ),
    {
        let all = self.all_transports();
        let ghost start = actions(list@);
        let ghost want = all@.map_values(unwatched());
        let mut k: usize = 0;
        while k < all.len()
            invariant
                k <= all@.len(),
                want == all@.map_values(unwatched()),
                actions(list@) == start + want.take(k as int),
            decreases all@.len() - k,
        {
            push_action(list, Action::ClearObservers { transport: all[k] });
            k += 1;
            assert(actions(list@) =~= start + want.take(k as int));
        }
        assert(want.take(k as int) =~= want);
    }

    /// Takes the rewriting bridges from the transports that are there.
    pub fn clear_rtp_rewrite_bridge(&self, list: &mut Vec<Action>)
        ensures
            actions(final(list)@) == each(
                actions(old(list)@),
                self@.all_transports(),
                unbridged(),
            ),
    {
        let all = self.all_transports();
        let ghost start = actions(list@);
        let ghost want = all@.map_values(unbridged());
        let mut k: usize = 0;
        while k < all.len()
            invariant
                k <= all@.len(),
                want == all@.map_values(unbridged()),
                actions(list@) == start + want.take(k as int),
            decreases all@.len() - k,
        {
            push_action(list, Action::ClearBridge { transport: all[k] });
            k += 1;
            assert(actions(list@) =~= start + want.take(k as int));
        }
        assert(want.take(k as int) =~= want);
    }
}

/// The observers are added behind what was asked for, in order.
pub proof fn observed_keeps(observers: Seq<u64>, transport: u64, k: int, acc: Seq<ActionView>)
    requires
        0 <= k <= observers.len(),
    ensures
        ({
            let r = observed_from(observers, transport, k, acc);
            &&& r.len() == acc.len() + (observers.len() - k)
            &&& forall|j: int| 0 <= j < acc.len() ==> #[trigger] r[j] == acc[j]
            &&& forall|i: int|
                k <= i < observers.len() ==> r[acc.len() + (i - k)] == (ActionView::Observe {
                    transport,
                    observer: #[trigger] observers[i],
                })
        }),
    decreases observers.len() - k,
{
    if k < observers.len() {
        let next = acc.push(ActionView::Observe { transport, observer: observers[k] });
        observed_keeps(observers, transport, k + 1, next);
        let r = observed_from(observers, transport, k, acc);
        assert forall|j: int| 0 <= j < acc.len() implies #[trigger] r[j] == acc[j] by {
            assert(r[j] == next[j]);
        }
        assert(r[acc.len() as int] == next[acc.len() as int]);
    }
}

/// Whoever observes a connection sees every transport that it takes later, before any packet is
/// handed on: taking a transport first attaches each observer, in order.
pub proof fn observers_see_later_transports(
    v: ConnectionView,
    transport: u64,
    acts: Seq<ActionView>,
    i: int,
)
    requires
        0 <= i < v.observers.len(),
    ensures
        observed_from(v.observers, transport, 0, acts).len() == acts.len() + v.observers.len(),
        observed_from(v.observers, transport, 0, acts)[acts.len() + i] == (ActionView::Observe {
            transport,
            observer: v.observers[i],
        }),
{
    observed_keeps(v.observers, transport, 0, acts);
}

} // verus!
