//! What a local description, and a complete negotiation, change in the transceivers.

use crate::action::actions;
use crate::action::push_route;
use crate::action::with_route;
use crate::action::Action;
use crate::action::ActionView;
use crate::codec::extmap_of;
use crate::direction::transceiver_of;
use crate::direction::TransceiverDirection;
use crate::matching::kind_without_mid;
use crate::matching::matched;
use crate::matching::matched_rtp_media_sections;
use crate::matching::mid_is;
use crate::matching::pairs;
use crate::negotiate::extmap_step;
use crate::negotiate::payload_step;
use crate::negotiate::take_section;
use crate::negotiate::Step;
use crate::receiver::RouteView;
use crate::sdp::sections;
use crate::sdp::MediaKind;
use crate::sdp::MediaSection;
use crate::sdp::SectionView;
use crate::sdp::SessionDescription;
use crate::search::first;
use crate::search::first_from;
use crate::text::same_text;
use crate::transceiver::record_offered;
use crate::transceiver::transceivers;
use crate::transceiver::RtpTransceiver;
use crate::transceiver::TransceiverView;
use vstd::prelude::*;

verus! {

/// The transceivers and the actions so far.
#[verifier::ext_equal]
pub struct TsStep {
    pub ts: Seq<TransceiverView>,
    pub acts: Seq<ActionView>,
}

impl TsStep {
    /// The step with another transceiver at an index.
    pub open spec fn with(self, i: int, st: Step) -> TsStep {
        TsStep { ts: self.ts.update(i, st.t), acts: st.acts }
    }

    /// The transceiver at an index with the actions so far.
    pub open spec fn at(self, i: int) -> Step {
        Step { t: self.ts[i], acts: self.acts }
    }
}

/// All transceivers are in order.
pub open spec fn all_wf(ts: Seq<TransceiverView>) -> bool {
    forall|i: int| 0 <= i < ts.len() ==> (#[trigger] ts[i]).wf()
}

/// The first transceiver with a mid.
pub fn first_with_mid(ts: &Vec<RtpTransceiver>, mid: &str) -> (r: Option<usize>)
    ensures
        match r {
            Some(i) => i < ts@.len() && first(transceivers(ts@), mid_is(mid@)) == Some(i as int),
            None => first(transceivers(ts@), mid_is(mid@)) is None,
        },
{
    let ghost v = transceivers(ts@);
    let mut i: usize = 0;
    while i < ts.len()
        invariant
            i <= ts@.len(),
            v == transceivers(ts@),
            first(v, mid_is(mid@)) == first_from(v, mid_is(mid@), i as int),
        decreases ts@.len() - i,
    {
        assert(v[i as int] == ts@[i as int]@);
        let same = match ts[i].mid_ref() {
            Some(m) => same_text(m, mid),
            None => false,
        };
        if same {
            return Some(i);
        }
        i += 1;
    }
    None
}

/// The first transceiver of a kind without a mid.
pub fn first_without_mid(ts: &Vec<RtpTransceiver>, kind: MediaKind) -> (r: Option<usize>)
    ensures
        match r {
            Some(i) => i < ts@.len() && first(transceivers(ts@), kind_without_mid(kind)) == Some(
                i as int,
            ),
            None => first(transceivers(ts@), kind_without_mid(kind)) is None,
        },
{
    let ghost v = transceivers(ts@);
    let mut i: usize = 0;
    while i < ts.len()
        invariant
            i <= ts@.len(),
            v == transceivers(ts@),
            first(v, kind_without_mid(kind)) == first_from(v, kind_without_mid(kind), i as int),
        decreases ts@.len() - i,
    {
        assert(v[i as int] == ts@[i as int]@);
        if ts[i].kind() == kind && ts[i].mid_ref().is_none() {
            return Some(i);
        }
        i += 1;
    }
    None
}

/// A transceiver gets a mid.
pub open spec fn mid_step(st: Step, mid: Seq<char>) -> Step {
    Step {
        t: TransceiverView { mid: Some(mid), ..st.t },
        acts: with_route(
            st.acts,
            match st.t.transport {
                Some(x) => if st.t.listens() {
                    Some((x, RouteView::Mid(mid)))
                } else {
                    None
                },
                None => None,
            },
        ),
    }
}

/// Gives a transceiver a mid.
pub fn give_mid(t: &mut RtpTransceiver, mid: &str, list: &mut Vec<Action>)
    ensures
        (Step { t: final(t)@, acts: actions(final(list)@) }) == mid_step(
            (Step { t: old(t)@, acts: actions(old(list)@) }),
            mid@,
        ),
        old(t)@.wf() ==> final(t)@.wf(),
{
    let route = t.set_mid(mid.to_owned());
    push_route(list, route);
}

/// What a transceiver takes over of a section of a local re-offer.
pub open spec fn own_section_step(st: Step, s: SectionView) -> Step {
    extmap_step(payload_step(st, s, false), extmap_of(s))
}

/// What a section of a local offer changes: a section whose mid is not known gives it to the first
/// transceiver of its kind without one; a re-offer moreover sets codecs and header extensions.
pub open spec fn local_section_step(st: TsStep, s: SectionView, reoffer: bool) -> TsStep {
    match first(st.ts, mid_is(s.mid)) {
        Some(i) => if reoffer {
            st.with(i, own_section_step(st.at(i), s))
        } else {
            st
        },
        None => match first(st.ts, kind_without_mid(s.kind)) {
            Some(i) => {
                let a = st.with(i, mid_step(st.at(i), s.mid));
                if reoffer {
                    a.with(i, own_section_step(a.at(i), s))
                } else {
                    a
                }
            },
            None => st,
        },
    }
}

/// What the sections of a local offer from index `k` on change.
pub open spec fn local_offer_from(st: TsStep, m: Seq<SectionView>, k: int, reoffer: bool) -> TsStep
    decreases m.len() - k,
{
    if k < 0 || k >= m.len() {
        st
    } else {
        local_offer_from(local_section_step(st, m[k], reoffer), m, k + 1, reoffer)
    }
}

fn local_section(
    ts: &mut Vec<RtpTransceiver>,
    s: &MediaSection,
    reoffer: bool,
    list: &mut Vec<Action>,
)
    requires
        all_wf(transceivers(old(ts)@)),
    ensures
        (TsStep { ts: transceivers(final(ts)@), acts: actions(final(list)@) })
            == local_section_step(
            (TsStep { ts: transceivers(old(ts)@), acts: actions(old(list)@) }),
            s@,
            reoffer,
        ),
        all_wf(transceivers(final(ts)@)),
{
    let ghost st = TsStep { ts: transceivers(ts@), acts: actions(list@) };
    match first_with_mid(ts, s.mid.as_str()) {
        Some(i) => {
            if reoffer {
                assert(st.ts[i as int] == ts@[i as int]@);
                take_section(&mut ts[i], s, list);
                assert(transceivers(ts@) =~= st.with(
                    i as int,
                    own_section_step(st.at(i as int), s@),
                ).ts);
            }
        },
        None => {
            if let Some(i) = first_without_mid(ts, s.kind) {
                assert(st.ts[i as int] == ts@[i as int]@);
                give_mid(&mut ts[i], s.mid.as_str(), list);
                let ghost a = st.with(i as int, mid_step(st.at(i as int), s@.mid));
                assert(transceivers(ts@) =~= a.ts);
                if reoffer {
                    assert(a.ts[i as int] == ts@[i as int]@);
                    take_section(&mut ts[i], s, list);
                    assert(transceivers(ts@) =~= a.with(
                        i as int,
                        own_section_step(a.at(i as int), s@),
                    ).ts);
                }
            }
        },
    }
}

/// Applies a local offer to the transceivers.
pub fn apply_local_offer(
    ts: &mut Vec<RtpTransceiver>,
    desc: &SessionDescription,
    reoffer: bool,
    list: &mut Vec<Action>,
)
    requires
        all_wf(transceivers(old(ts)@)),
    ensures
        (TsStep { ts: transceivers(final(ts)@), acts: actions(final(list)@) })
            == local_offer_from(
            (TsStep { ts: transceivers(old(ts)@), acts: actions(old(list)@) }),
            desc@.media,
            0,
            reoffer,
        ),
        all_wf(transceivers(final(ts)@)),
{
    let ghost start = TsStep { ts: transceivers(ts@), acts: actions(list@) };
    let mut k: usize = 0;
    while k < desc.media_sections.len()
        invariant
            k <= desc.media_sections@.len(),
            all_wf(transceivers(ts@)),
            local_offer_from(start, desc@.media, 0, reoffer) == local_offer_from(
                (TsStep { ts: transceivers(ts@), acts: actions(list@) }),
                desc@.media,
                k as int,
                reoffer,
            ),
        decreases desc.media_sections@.len() - k,
    {
        assert(desc@.media[k as int] == desc.media_sections@[k as int]@);
        local_section(ts, &desc.media_sections[k], reoffer, list);
        k += 1;
    }
}

/// The transceivers once the directions of the offered sections from index `k` on are kept as the
/// ones that we want.
pub open spec fn recorded_from(ts: Seq<TransceiverView>, m: Seq<SectionView>, k: int) -> Seq<
    TransceiverView,
>
    decreases m.len() - k,
{
    if k < 0 || k >= m.len() {
        ts
    } else {
        match first(ts, mid_is(m[k].mid)) {
            Some(i) => recorded_from(
                ts.update(
                    i,
                    TransceiverView {
                        desired: record_offered(ts[i].desired, transceiver_of(m[k].direction)),
                        ..ts[i]
                    },
                ),
                m,
                k + 1,
            ),
            None => recorded_from(ts, m, k + 1),
        }
    }
}

/// Keeps the directions of an offer as the ones that we want.
pub fn record_offered_directions(ts: &mut Vec<RtpTransceiver>, desc: &SessionDescription)
    requires
        all_wf(transceivers(old(ts)@)),
    ensures
        transceivers(final(ts)@) == recorded_from(transceivers(old(ts)@), desc@.media, 0),
        all_wf(transceivers(final(ts)@)),
{
    let ghost start = transceivers(ts@);
    let mut k: usize = 0;
    while k < desc.media_sections.len()
        invariant
            k <= desc.media_sections@.len(),
            all_wf(transceivers(ts@)),
            recorded_from(start, desc@.media, 0) == recorded_from(
                transceivers(ts@),
                desc@.media,
                k as int,
            ),
        decreases desc.media_sections@.len() - k,
    {
        let s = &desc.media_sections[k];
        assert(desc@.media[k as int] == s@);
        let ghost v = transceivers(ts@);
        if let Some(i) = first_with_mid(ts, s.mid.as_str()) {
            assert(v[i as int] == ts@[i as int]@);
            ts[i].record_offered_direction(TransceiverDirection::from(s.direction));
            assert(transceivers(ts@) =~= v.update(
                i as int,
                TransceiverView {
                    desired: record_offered(v[i as int].desired, transceiver_of(s@.direction)),
                    ..v[i as int]
                },
            ));
        }
        k += 1;
    }
}

/// Pairs of a transceiver.
pub open spec fn of_transceiver(i: int) -> spec_fn((int, int)) -> bool {
    |p: (int, int)| p.0 == i
}

/// We send and the other side receives.
pub open spec fn may_send(ours: SectionView, theirs: SectionView) -> bool {
    ours.direction.spec_sends() && theirs.direction.spec_receives()
}

/// The transceivers once the pairs from index `k` on let them send or not.
pub open spec fn permitted_from(
    ts: Seq<TransceiverView>,
    ours: Seq<(int, int)>,
    theirs: Seq<(int, int)>,
    local: Seq<SectionView>,
    remote: Seq<SectionView>,
    k: int,
) -> Seq<TransceiverView>
    decreases theirs.len() - k,
{
    if k < 0 || k >= theirs.len() {
        ts
    } else {
        let i = theirs[k].0;
        match first(ours, of_transceiver(i)) {
            Some(j) => permitted_from(
                ts.update(
                    i,
                    ts[i].permitted(may_send(local[ours[j].1], remote[theirs[k].1])),
                ),
                ours,
                theirs,
                local,
                remote,
                k + 1,
            ),
            None => permitted_from(ts, ours, theirs, local, remote, k + 1),
        }
    }
}

/// The transceivers once a negotiation lets them send or not: a transceiver sends where both
/// descriptions have a section of it, ours sends and theirs receives.
pub open spec fn permitted(
    ts: Seq<TransceiverView>,
    local: Seq<SectionView>,
    remote: Seq<SectionView>,
) -> Seq<TransceiverView> {
    permitted_from(ts, matched(ts, local), matched(ts, remote), local, remote, 0)
}

fn find_pair(v: &Vec<(usize, usize)>, i: usize) -> (r: Option<usize>)
    ensures
        match r {
            Some(j) => j < v@.len() && first(pairs(v@), of_transceiver(i as int)) == Some(j as int),
            None => first(pairs(v@), of_transceiver(i as int)) is None,
        },
{
    let ghost p = pairs(v@);
    let mut j: usize = 0;
    while j < v.len()
        invariant
            j <= v@.len(),
            p == pairs(v@),
            first(p, of_transceiver(i as int)) == first_from(
                p,
                of_transceiver(i as int),
                j as int,
            ),
        decreases v@.len() - j,
    {
        assert(p[j as int] == (v@[j as int].0 as int, v@[j as int].1 as int));
        if v[j].0 == i {
            return Some(j);
        }
        j += 1;
    }
    None
}

/// Lets the transceivers send or not, as the negotiation says.
pub fn apply_send_directions(
    ts: &mut Vec<RtpTransceiver>,
    local: &SessionDescription,
    remote: &SessionDescription,
)
    requires
        all_wf(transceivers(old(ts)@)),
    ensures
        transceivers(final(ts)@) == permitted(transceivers(old(ts)@), local@.media, remote@.media),
        all_wf(transceivers(final(ts)@)),
{
    let ours = matched_rtp_media_sections(ts, local);
    let theirs = matched_rtp_media_sections(ts, remote);
    let ghost start = transceivers(ts@);
    let ghost o = pairs(ours@);
    let ghost t = pairs(theirs@);
    let mut k: usize = 0;
    while k < theirs.len()
        invariant
            k <= theirs@.len(),
            o == pairs(ours@),
            t == pairs(theirs@),
            all_wf(transceivers(ts@)),
            forall|i: int|
                0 <= i < theirs@.len() ==> (#[trigger] theirs@[i]).0 < ts@.len() && theirs@[i].1
                    < remote.media_sections@.len(),
            forall|i: int|
                0 <= i < ours@.len() ==> (#[trigger] ours@[i]).1 < local.media_sections@.len(),
            permitted_from(start, o, t, local@.media, remote@.media, 0) == permitted_from(
                transceivers(ts@),
                o,
                t,
                local@.media,
                remote@.media,
                k as int,
            ),
        decreases theirs@.len() - k,
    {
        let i: usize = theirs[k].0;
        assert(t[k as int] == (theirs@[k as int].0 as int, theirs@[k as int].1 as int));
        let ghost v = transceivers(ts@);
        if let Some(j) = find_pair(&ours, i) {
            assert(o[j as int] == (ours@[j as int].0 as int, ours@[j as int].1 as int));
            let a = &local.media_sections[ours[j].1];
            let b = &remote.media_sections[theirs[k].1];
            assert(local@.media[ours@[j as int].1 as int] == a@);
            assert(remote@.media[theirs@[k as int].1 as int] == b@);
            assert(v[i as int] == ts@[i as int]@);
            let permitted = a.direction.sends() && b.direction.receives();
            ts[i].set_send_permitted(permitted);
            assert(transceivers(ts@) =~= v.update(
                i as int,
                v[i as int].permitted(may_send(a@, b@)),
            ));
        }
        k += 1;
    }
}

proof fn permission_holds_from(
    ts: Seq<TransceiverView>,
    ours: Seq<(int, int)>,
    theirs: Seq<(int, int)>,
    local: Seq<SectionView>,
    remote: Seq<SectionView>,
    k: int,
    q: int,
)
    requires
        0 <= k <= q < theirs.len(),
        crate::matching::one_to_one(theirs),
        forall|i: int| 0 <= i < theirs.len() ==> 0 <= (#[trigger] theirs[i]).0 < ts.len(),
        first(ours, of_transceiver(theirs[q].0)) is Some,
    ensures
        permitted_from(ts, ours, theirs, local, remote, k).len() == ts.len(),
        permitted_from(ts, ours, theirs, local, remote, k)[theirs[q].0].send_permitted == may_send(
            local[ours[first(ours, of_transceiver(theirs[q].0))->0].1],
            remote[theirs[q].1],
        ),
    decreases theirs.len() - k,
{
    let i = theirs[k].0;
    let next = match first(ours, of_transceiver(i)) {
        Some(j) => ts.update(
            i,
            ts[i].permitted(may_send(local[ours[j].1], remote[theirs[k].1])),
        ),
        None => ts,
    };
    if k == q {
        permission_kept_from(next, ours, theirs, local, remote, k + 1, theirs[q].0);
    } else {
        permission_holds_from(next, ours, theirs, local, remote, k + 1, q);
    }
}

proof fn permission_kept_from(
    ts: Seq<TransceiverView>,
    ours: Seq<(int, int)>,
    theirs: Seq<(int, int)>,
    local: Seq<SectionView>,
    remote: Seq<SectionView>,
    k: int,
    x: int,
)
    requires
        0 <= k <= theirs.len(),
        0 <= x < ts.len(),
        forall|i: int| 0 <= i < theirs.len() ==> 0 <= (#[trigger] theirs[i]).0 < ts.len(),
        forall|i: int| k <= i < theirs.len() ==> (#[trigger] theirs[i]).0 != x,
    ensures
        permitted_from(ts, ours, theirs, local, remote, k).len() == ts.len(),
        permitted_from(ts, ours, theirs, local, remote, k)[x] == ts[x],
    decreases theirs.len() - k,
{
    if k < theirs.len() {
        let i = theirs[k].0;
        let next = match first(ours, of_transceiver(i)) {
            Some(j) => ts.update(
                i,
                ts[i].permitted(may_send(local[ours[j].1], remote[theirs[k].1])),
            ),
            None => ts,
        };
        permission_kept_from(next, ours, theirs, local, remote, k + 1, x);
    }
}

proof fn unmatched_is_kept_from(
    ts: Seq<TransceiverView>,
    ours: Seq<(int, int)>,
    theirs: Seq<(int, int)>,
    local: Seq<SectionView>,
    remote: Seq<SectionView>,
    k: int,
    x: int,
)
    requires
        0 <= k <= theirs.len(),
        0 <= x < ts.len(),
        forall|i: int| 0 <= i < theirs.len() ==> 0 <= (#[trigger] theirs[i]).0 < ts.len(),
        first(ours, of_transceiver(x)) is None || first(theirs, of_transceiver(x)) is None,
    ensures
        permitted_from(ts, ours, theirs, local, remote, k).len() == ts.len(),
        permitted_from(ts, ours, theirs, local, remote, k)[x] == ts[x],
    decreases theirs.len() - k,
{
    if k < theirs.len() {
        let i = theirs[k].0;
        crate::search::first_from_facts(theirs, of_transceiver(x), 0);
        let next = match first(ours, of_transceiver(i)) {
            Some(j) => ts.update(
                i,
                ts[i].permitted(may_send(local[ours[j].1], remote[theirs[k].1])),
            ),
            None => ts,
        };
        assert(next[x] == ts[x]) by {
            if i == x {
                assert(of_transceiver(x)(theirs[k]));
            }
        }
        unmatched_is_kept_from(next, ours, theirs, local, remote, k + 1, x);
    }
}

/// A negotiation leaves a transceiver as it is that one of the descriptions has no section of.
pub proof fn sending_stays_without_both_sections(
    ts: Seq<TransceiverView>,
    local: Seq<SectionView>,
    remote: Seq<SectionView>,
    x: int,
)
    requires
        0 <= x < ts.len(),
        first(matched(ts, local), of_transceiver(x)) is None || first(
            matched(ts, remote),
            of_transceiver(x),
        ) is None,
    ensures
        permitted(ts, local, remote).len() == ts.len(),
        permitted(ts, local, remote)[x] == ts[x],
{
    crate::matching::matching_is_one_to_one(ts, remote);
    unmatched_is_kept_from(ts, matched(ts, local), matched(ts, remote), local, remote, 0, x);
}

/// After a negotiation a transceiver that both descriptions have a section of may send exactly
/// where our section sends and theirs receives.
pub proof fn sending_follows_both_descriptions(
    ts: Seq<TransceiverView>,
    local: Seq<SectionView>,
    remote: Seq<SectionView>,
    q: int,
)
    requires
        0 <= q < matched(ts, remote).len(),
        first(matched(ts, local), of_transceiver(matched(ts, remote)[q].0)) is Some,
    ensures
        permitted(ts, local, remote)[matched(ts, remote)[q].0].send_permitted == may_send(
            local[matched(ts, local)[first(
                matched(ts, local),
                of_transceiver(matched(ts, remote)[q].0),
            )->0].1],
            remote[matched(ts, remote)[q].1],
        ),
{
    crate::matching::matching_is_one_to_one(ts, remote);
    permission_holds_from(ts, matched(ts, local), matched(ts, remote), local, remote, 0, q);
}

/// A negotiation lets us send where we said that we send and they said that they receive.
pub proof fn both_sides_have_to_agree(ours: SectionView, theirs: SectionView)
    ensures
        may_send(ours, theirs) <==> ours.direction.spec_sends()
            && theirs.direction.spec_receives(),
{
}

/// A section of a local offer with a mid that no transceiver has gives it to the first transceiver
/// of its kind without one; one with a known mid gives none.
pub proof fn offered_mids_are_given(st: TsStep, s: SectionView, reoffer: bool, i: int, j: int)
    requires
        0 <= i < st.ts.len(),
    ensures
        ({
            let f = local_section_step(st, s, reoffer).ts;
            let known = exists|x: int| 0 <= x < st.ts.len() && (#[trigger] st.ts[x]).mid == Some(
                s.mid,
            );
            &&& f.len() == st.ts.len()
            &&& !known && st.ts[i].kind == s.kind && st.ts[i].mid is None && (forall|x: int|
                0 <= x < i && (#[trigger] st.ts[x]).kind == s.kind ==> st.ts[x].mid is Some)
                ==> f[i].mid == Some(s.mid) && (0 <= j < st.ts.len() && j != i ==> f[j]
                == st.ts[j])
            &&& known && 0 <= j < st.ts.len() ==> f[j].mid == st.ts[j].mid
        }),
{
    crate::search::first_from_facts(st.ts, mid_is(s.mid), 0);
    crate::search::first_from_facts(st.ts, kind_without_mid(s.kind), 0);
    if exists|x: int| 0 <= x < st.ts.len() && (#[trigger] st.ts[x]).mid == Some(s.mid) {
        let x = choose|x: int| 0 <= x < st.ts.len() && (#[trigger] st.ts[x]).mid == Some(s.mid);
        assert(mid_is(s.mid)(st.ts[x]));
    } else {
        if let Some(x) = first(st.ts, mid_is(s.mid)) {
            assert(mid_is(s.mid)(st.ts[x]));
        }
        if st.ts[i].kind == s.kind && st.ts[i].mid is None {
            assert(kind_without_mid(s.kind)(st.ts[i]));
            if let Some(x) = first(st.ts, kind_without_mid(s.kind)) {
                assert(kind_without_mid(s.kind)(st.ts[x]));
            }
        }
    }
}

/// A section of our own offer gives the transceiver its codecs and extensions, and leaves what the
/// sender sends.
pub proof fn own_sections_keep_the_sender(st: Step, s: SectionView)
    ensures
        ({
            let x = own_section_step(st, s);
            &&& crate::codec::payload_map_of(s).dom() != Set::<u8>::empty() ==> x.t.payload_map
                == crate::codec::payload_map_of(s)
            &&& x.t.extmap == extmap_of(s)
            &&& st.t.sender matches Some(a) ==> (x.t.sender matches Some(b) && b.params == a.params
                && b.ssrc == a.ssrc && b.next_seq == a.next_seq)
            &&& x.t.direction == st.t.direction && x.t.mid == st.t.mid && x.t.desired
                == st.t.desired
        }),
{
}

/// A transceiver that gets a mid has it from then on, and asks the transport that it listens on for
/// the packets with that mid; one that does not listen asks for nothing.
pub proof fn named_transceivers_ask_for_their_mid(st: Step, mid: Seq<char>)
    ensures
        ({
            let x = mid_step(st, mid);
            &&& x.t.mid == Some(mid)
            &&& x.t.id == st.t.id && x.t.kind == st.t.kind && x.t.direction == st.t.direction
            &&& st.t.transport matches Some(t) ==> (st.t.receiver is Some
                && st.t.receiver->0.transport is Some ==> x.acts.contains(
                ActionView::Route { transport: t, route: RouteView::Mid(mid) },
            ))
            &&& st.t.transport is None || st.t.receiver is None || st.t.receiver->0.transport is None
                ==> x.acts == st.acts
        }),
{
    let x = mid_step(st, mid);
    if x.acts.len() > 0 {
        assert(x.acts.contains(x.acts.last()));
    }
}

} // verus!
