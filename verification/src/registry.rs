//! The transports that single transceivers have of their own.

use crate::action::actions;
use crate::action::push_action;
use crate::action::Action;
use crate::action::ActionView;
use crate::search::first;
use crate::search::first_from;
use crate::search::kept;
use crate::search::kept_from;
use vstd::prelude::*;

verus! {

/// Entries of a transceiver.
pub open spec fn entry_of(id: u64) -> spec_fn((u64, u64)) -> bool {
    |e: (u64, u64)| e.0 == id
}

/// The transport that a transceiver has of its own.
pub open spec fn transport_of(m: Seq<(u64, u64)>, id: u64) -> Option<u64> {
    match first(m, entry_of(id)) {
        Some(i) => Some(m[i].1),
        None => None,
    }
}

/// The list with a transport for a transceiver.
pub open spec fn with_transport(m: Seq<(u64, u64)>, id: u64, transport: u64) -> Seq<(u64, u64)> {
    match first(m, entry_of(id)) {
        Some(i) => m.update(i, (id, transport)),
        None => m.push((id, transport)),
    }
}

fn find_entry(m: &Vec<(u64, u64)>, id: u64) -> (r: Option<usize>)
    ensures
        match r {
            Some(i) => i < m@.len() && first(m@, entry_of(id)) == Some(i as int),
            None => first(m@, entry_of(id)) is None,
        },
{
    let mut i: usize = 0;
    while i < m.len()
        invariant
            i <= m@.len(),
            first(m@, entry_of(id)) == first_from(m@, entry_of(id), i as int),
        decreases m@.len() - i,
    {
        if m[i].0 == id {
            return Some(i);
        }
        i += 1;
    }
    None
}

/// The transport that a transceiver has of its own.
pub fn find_transport(m: &Vec<(u64, u64)>, id: u64) -> (r: Option<u64>)
    ensures
        r == transport_of(m@, id),
{
    match find_entry(m, id) {
        Some(i) => Some(m[i].1),
        None => None,
    }
}

/// Sets the transport that a transceiver has of its own.
pub fn set_transport(m: &mut Vec<(u64, u64)>, id: u64, transport: u64)
    ensures
        final(m)@ == with_transport(old(m)@, id, transport),
{
    match find_entry(m, id) {
        Some(i) => {
            m.set(i, (id, transport));
        },
        None => {
            m.push((id, transport));
        },
    }
}

/// Entries of other transceivers than those in `ids`.
pub open spec fn entry_outside(ids: Seq<u64>) -> spec_fn((u64, u64)) -> bool {
    |e: (u64, u64)| !ids.contains(e.0)
}

/// Identifiers that are not in `ids`.
pub open spec fn id_outside(ids: Seq<u64>) -> spec_fn(u64) -> bool {
    |x: u64| !ids.contains(x)
}

/// The transports and the ICE transports of single transceivers, and the actions so far.
#[verifier::ext_equal]
pub struct Extra {
    pub media: Seq<(u64, u64)>,
    pub ice: Seq<u64>,
    pub acts: Seq<ActionView>,
}

/// `acc` with an action that silences each transport from index `k` on of a transceiver in `ids`.
pub open spec fn silenced_from(
    m: Seq<(u64, u64)>,
    ids: Seq<u64>,
    k: int,
    acc: Seq<ActionView>,
) -> Seq<ActionView>
    decreases m.len() - k,
{
    if k < 0 || k >= m.len() {
        acc
    } else if ids.contains(m[k].0) {
        silenced_from(m, ids, k + 1, acc.push(ActionView::ClearListeners { transport: m[k].1 }))
    } else {
        silenced_from(m, ids, k + 1, acc)
    }
}

/// `acc` with an action that stops each ICE transport from index `k` on of a transceiver in `ids`.
pub open spec fn stopped_from(
    ice: Seq<u64>,
    ids: Seq<u64>,
    k: int,
    acc: Seq<ActionView>,
) -> Seq<ActionView>
    decreases ice.len() - k,
{
    if k < 0 || k >= ice.len() {
        acc
    } else if ids.contains(ice[k]) {
        stopped_from(ice, ids, k + 1, acc.push(ActionView::StopIce { transceiver: ice[k] }))
    } else {
        stopped_from(ice, ids, k + 1, acc)
    }
}

/// What is left once the transports of the transceivers in `ids` are given up.
pub open spec fn dropped(x: Extra, ids: Seq<u64>) -> Extra {
    Extra {
        media: kept(x.media, entry_outside(ids)),
        ice: kept(x.ice, id_outside(ids)),
        acts: stopped_from(x.ice, ids, 0, silenced_from(x.media, ids, 0, x.acts)),
    }
}

/// Whether a list holds an identifier.
pub fn holds_id(ids: &Vec<u64>, id: u64) -> (r: bool)
    ensures
        r == ids@.contains(id),
{
    let mut i: usize = 0;
    while i < ids.len()
        invariant
            i <= ids@.len(),
            forall|j: int| 0 <= j < i ==> ids@[j] != id,
        decreases ids@.len() - i,
    {
        if ids[i] == id {
            return true;
        }
        i += 1;
    }
    false
}

/// Gives up the transports of transceivers.
pub fn drop_transports(
    media: &mut Vec<(u64, u64)>,
    ice: &mut Vec<u64>,
    ids: &Vec<u64>,
    list: &mut Vec<Action>,
)
    ensures
        (Extra { media: final(media)@, ice: final(ice)@, acts: actions(final(list)@) }) == dropped(
            (Extra { media: old(media)@, ice: old(ice)@, acts: actions(old(list)@) }),
            ids@,
        ),
{
    let ghost m0 = media@;
    let ghost i0 = ice@;
    let ghost a0 = actions(list@);
    let mut left: Vec<(u64, u64)> = Vec::new();
    let mut k: usize = 0;
    while k < media.len()
        invariant
            k <= media@.len(),
            media@ == m0,
            kept(m0, entry_outside(ids@)) == kept_from(
                m0,
                entry_outside(ids@),
                k as int,
                left@,
            ),
            silenced_from(m0, ids@, 0, a0) == silenced_from(m0, ids@, k as int, actions(list@)),
        decreases media@.len() - k,
    {
        if holds_id(ids, media[k].0) {
            push_action(list, Action::ClearListeners { transport: media[k].1 });
        } else {
            left.push(media[k]);
        }
        k += 1;
    }
    *media = left;
    let ghost a1 = actions(list@);
    let mut rest: Vec<u64> = Vec::new();
    let mut j: usize = 0;
    while j < ice.len()
        invariant
            j <= ice@.len(),
            ice@ == i0,
            kept(i0, id_outside(ids@)) == kept_from(i0, id_outside(ids@), j as int, rest@),
            stopped_from(i0, ids@, 0, a1) == stopped_from(i0, ids@, j as int, actions(list@)),
        decreases ice@.len() - j,
    {
        if holds_id(ids, ice[j]) {
            push_action(list, Action::StopIce { transceiver: ice[j] });
        } else {
            rest.push(ice[j]);
        }
        j += 1;
    }
    *ice = rest;
}

/// Giving up transports leaves none of the transceivers and all of the others.
pub proof fn dropped_transports_are_gone(x: Extra, ids: Seq<u64>, id: u64)
    ensures
        ids.contains(id) ==> transport_of(dropped(x, ids).media, id) is None && !dropped(
            x,
            ids,
        ).ice.contains(id),
        !ids.contains(id) ==> transport_of(dropped(x, ids).media, id) == transport_of(x.media, id),
        !ids.contains(id) ==> (dropped(x, ids).ice.contains(id) <==> x.ice.contains(id)),
{
    crate::search::kept_facts(x.media, entry_outside(ids));
    crate::search::kept_facts(x.ice, id_outside(ids));
    let m = dropped(x, ids).media;
    crate::search::first_from_facts(m, entry_of(id), 0);
    if ids.contains(id) {
        if let Some(i) = first(m, entry_of(id)) {
            assert(entry_outside(ids)(m[i]));
        }
        if dropped(x, ids).ice.contains(id) {
            assert(id_outside(ids)(id));
        }
    } else {
        assert forall|e: (u64, u64)| #[trigger] entry_of(id)(e) implies entry_outside(ids)(e) by {}
        crate::search::first_of_kept(x.media, entry_outside(ids), entry_of(id));
    }
    if !ids.contains(id) && x.ice.contains(id) {
        let i = choose|i: int| 0 <= i < x.ice.len() && x.ice[i] == id;
        assert(id_outside(ids)(x.ice[i]));
    }
}

/// A transport that is set is found again, and the transports of other transceivers stay.
pub proof fn set_transport_is_found(m: Seq<(u64, u64)>, id: u64, transport: u64, other: u64)
    requires
        other != id,
    ensures
        transport_of(with_transport(m, id, transport), id) == Some(transport),
        transport_of(with_transport(m, id, transport), other) == transport_of(m, other),
{
    let p = entry_of(id);
    let q = entry_of(other);
    let n = with_transport(m, id, transport);
    crate::search::first_from_facts(m, p, 0);
    crate::search::first_from_facts(n, p, 0);
    crate::search::first_from_facts(m, q, 0);
    crate::search::first_from_facts(n, q, 0);
    match first(m, p) {
        Some(i) => {
            assert(p(n[i]));
        },
        None => {
            assert(p(n[n.len() - 1]));
        },
    }
    assert(forall|i: int| 0 <= i < m.len() ==> q(m[i]) == q(#[trigger] n[i]));
    assert(forall|i: int| m.len() <= i < n.len() ==> !q(#[trigger] n[i]));
    match (first(m, q), first(n, q)) {
        (Some(a), Some(b)) => {
            assert(q(n[a]) && q(m[b]));
            assert(a == b);
            assert(n[a] == m[a]);
        },
        (Some(a), None) => {
            assert(q(n[a]));
        },
        (None, Some(b)) => {
            assert(q(m[b]));
        },
        (None, None) => {},
    }
}

proof fn silences_are_asked_for(
    m: Seq<(u64, u64)>,
    ids: Seq<u64>,
    k: int,
    acc: Seq<ActionView>,
    x: ActionView,
)
    requires
        0 <= k,
    ensures
        silenced_from(m, ids, k, acc).contains(x) <==> acc.contains(x) || exists|i: int|
            k <= i < m.len() && ids.contains((#[trigger] m[i]).0) && x
                == (ActionView::ClearListeners { transport: m[i].1 }),
    decreases m.len() - k,
{
    if k < m.len() {
        let y = ActionView::ClearListeners { transport: m[k].1 };
        let next = if ids.contains(m[k].0) {
            acc.push(y)
        } else {
            acc
        };
        silences_are_asked_for(m, ids, k + 1, next, x);
        pushed_is_held(acc, y, x);
        if exists|i: int|
            k <= i < m.len() && ids.contains((#[trigger] m[i]).0) && x
                == (ActionView::ClearListeners { transport: m[i].1 }) {
            let i = choose|i: int|
                k <= i < m.len() && ids.contains((#[trigger] m[i]).0) && x
                    == (ActionView::ClearListeners { transport: m[i].1 });
            assert(i == k || k + 1 <= i);
        }
    }
}

proof fn pushed_is_held(acc: Seq<ActionView>, y: ActionView, x: ActionView)
    ensures
        acc.push(y).contains(x) <==> acc.contains(x) || x == y,
{
    let n = acc.push(y);
    assert(n[acc.len() as int] == y);
    if acc.contains(x) {
        assert(n[acc.index_of(x)] == x);
    }
}

proof fn stops_are_asked_for(
    ice: Seq<u64>,
    ids: Seq<u64>,
    k: int,
    acc: Seq<ActionView>,
    x: ActionView,
)
    requires
        0 <= k,
    ensures
        stopped_from(ice, ids, k, acc).contains(x) <==> acc.contains(x) || exists|i: int|
            k <= i < ice.len() && ids.contains(#[trigger] ice[i]) && x == (ActionView::StopIce {
                transceiver: ice[i],
            }),
    decreases ice.len() - k,
{
    if k < ice.len() {
        let y = ActionView::StopIce { transceiver: ice[k] };
        let next = if ids.contains(ice[k]) {
            acc.push(y)
        } else {
            acc
        };
        stops_are_asked_for(ice, ids, k + 1, next, x);
        pushed_is_held(acc, y, x);
        if exists|i: int|
            k <= i < ice.len() && ids.contains(#[trigger] ice[i]) && x == (ActionView::StopIce {
                transceiver: ice[i],
            }) {
            let i = choose|i: int|
                k <= i < ice.len() && ids.contains(#[trigger] ice[i]) && x
                    == (ActionView::StopIce { transceiver: ice[i] });
            assert(i == k || k + 1 <= i);
        }
    }
}

/// Giving up the transports of some transceivers silences the transports and stops the ICE of
/// these, and asks for nothing else.
pub proof fn given_up_transports_stop(x: Extra, ids: Seq<u64>, transport: u64, id: u64)
    ensures
        !x.acts.contains(ActionView::ClearListeners { transport }) ==> (dropped(
            x,
            ids,
        ).acts.contains(ActionView::ClearListeners { transport }) <==> exists|i: int|
            0 <= i < x.media.len() && ids.contains((#[trigger] x.media[i]).0) && x.media[i].1
                == transport),
        !x.acts.contains(ActionView::StopIce { transceiver: id }) ==> (dropped(
            x,
            ids,
        ).acts.contains(ActionView::StopIce { transceiver: id }) <==> ids.contains(id)
            && x.ice.contains(id)),
{
    let a = silenced_from(x.media, ids, 0, x.acts);
    let c = ActionView::ClearListeners { transport };
    let s = ActionView::StopIce { transceiver: id };
    silences_are_asked_for(x.media, ids, 0, x.acts, c);
    silences_are_asked_for(x.media, ids, 0, x.acts, s);
    stops_are_asked_for(x.ice, ids, 0, a, c);
    stops_are_asked_for(x.ice, ids, 0, a, s);
    if ids.contains(id) && x.ice.contains(id) {
        let i = x.ice.index_of(id);
        assert(ids.contains(x.ice[i]));
    }
}

} // verus!
