//! The identifiers of transceivers.

use super::fresh_connection;
use super::with_added;
use super::ConnectionView;
use super::PeerConnection;
use crate::action::ActionView;
use crate::address::IpAddress;
use crate::config::ConfigView;
use crate::connection::transports::attached_from;
use crate::connection::transports::attached_ids_from;
use crate::connection::transports::id_is;
use crate::connection::transports::listened_from;
use crate::connection::transports::wired_from;
use crate::describe::described;
use crate::describe::ensure_mid;
use crate::describe::ensure_mids_from;
use crate::describe::slot_step;
use crate::describe::slots_from;
use crate::describe::InputView;
use crate::describe::MidState;
use crate::describe::Slot;
use crate::describe::WriteContext;
use crate::describe::WriteState;
use crate::direction::TransceiverDirection;
use crate::local::local_offer_from;
use crate::local::local_section_step;
use crate::local::permitted;
use crate::local::permitted_from;
use crate::local::recorded_from;
use crate::local::TsStep;
use crate::matching::kind_is;
use crate::matching::kind_and_mid;
use crate::matching::kind_without_mid;
use crate::matching::matched;
use crate::matching::mid_is;
use crate::matching::none_used;
use crate::negotiate::answer_step;
use crate::negotiate::reinvite_step;
use crate::remote::answered;
use crate::remote::answered_from;
use crate::remote::live_ids;
use crate::remote::offer_section_step;
use crate::remote::offered;
use crate::remote::offered_from;
use crate::remote::orphans;
use crate::remote::orphans_from;
use crate::remote::reinvited;
use crate::remote::reinvited_from;
use crate::remote::transport_for;
use crate::remote::OfferState;
use crate::sdp::DescriptionView;
use crate::sdp::MediaKind;
use crate::sdp::SdpType;
use crate::sdp::SectionView;
use crate::search::first;
use crate::transceiver::TransceiverView;
use vstd::prelude::*;

verus! {

/// The identifiers of the transceivers are pairwise different and lie below the next one.
pub open spec fn ids_apart(ts: Seq<TransceiverView>, next: u64) -> bool {
    &&& forall|i: int, j: int|
        0 <= i < j < ts.len() ==> (#[trigger] ts[i]).id != (#[trigger] ts[j]).id
    &&& forall|i: int| 0 <= i < ts.len() ==> (#[trigger] ts[i]).id < next
}

/// The same transceivers, by their identifiers.
pub open spec fn same_ids(a: Seq<TransceiverView>, b: Seq<TransceiverView>) -> bool {
    &&& a.len() == b.len()
    &&& forall|i: int| 0 <= i < a.len() ==> (#[trigger] b[i]).id == a[i].id
}

impl PeerConnection {
    /// The identifier that the next transceiver gets.
    pub fn next_transceiver_id(&self) -> (r: u64)
        ensures
            r == self@.next_id,
    {
        self.next_id
    }

    /// Lets the identifiers of new transceivers go on from `next`, so that several connections can
    /// count together; a number that lies behind changes nothing.
    pub fn continue_ids_at(&mut self, next: u64)
        ensures
            final(self)@ == (ConnectionView {
                next_id: if next > old(self)@.next_id {
                    next
                } else {
                    old(self)@.next_id
                },
                ..old(self)@
            }),
            old(self)@.wf() ==> final(self)@.wf(),
            ids_apart(old(self)@.ts, old(self)@.next_id) ==> ids_apart(
                final(self)@.ts,
                final(self)@.next_id,
            ),
    {
        if next > self.next_id {
            self.next_id = next;
        }
    }
}

/// A new connection has its identifiers apart.
pub proof fn new_connections_have_ids_apart(c: ConfigView, fingerprint: Seq<char>)
    ensures
        ids_apart(fresh_connection(c, fingerprint).ts, fresh_connection(c, fingerprint).next_id),
{
}

/// Adding a transceiver keeps the identifiers apart, and those that were there.
pub proof fn adding_keeps_ids_apart(
    v: ConnectionView,
    kind: MediaKind,
    direction: TransceiverDirection,
    ssrc_step: u32,
    stream_id: Seq<char>,
    track_id: Seq<char>,
)
    requires
        ids_apart(v.ts, v.next_id),
        v.next_id < u64::MAX,
    ensures
        ({
            let w = with_added(v, kind, direction, ssrc_step, stream_id, track_id);
            &&& ids_apart(w.ts, w.next_id)
            &&& w.ts.len() == v.ts.len() + 1
            &&& w.ts.last().id == v.next_id
            &&& forall|i: int| 0 <= i < v.ts.len() ==> #[trigger] w.ts[i] == v.ts[i]
        }),
{
}

proof fn offer_from_keeps_ids(
    st: OfferState,
    m: Seq<SectionView>,
    k: int,
    c: ConfigView,
    primary: Option<u64>,
)
    requires
        0 <= k <= m.len(),
        st.used.len() == st.ts.len(),
        ids_apart(st.ts, st.next_id),
        st.next_id + (m.len() - k) <= u64::MAX,
    ensures
        ({
            let f = offered_from(st, m, k, c, primary);
            &&& ids_apart(f.ts, f.next_id)
            &&& f.next_id <= st.next_id + (m.len() - k)
            &&& f.ts.len() >= st.ts.len()
            &&& forall|i: int| 0 <= i < st.ts.len() ==> (#[trigger] f.ts[i]).id == st.ts[i].id
        }),
    decreases m.len() - k,
{
    if k < m.len() {
        let s = m[k];
        let next = offer_section_step(st, s, c, primary);
        crate::matching::free_facts(st.ts, st.used, kind_and_mid(s.kind, s.mid), 0);
        crate::matching::free_facts(st.ts, st.used, kind_without_mid(s.kind), 0);
        crate::matching::free_facts(st.ts, st.used, kind_is(s.kind), 0);
        assert(forall|i: int| 0 <= i < st.ts.len() ==> (#[trigger] next.ts[i]).id == st.ts[i].id);
        assert(next.ts.len() > st.ts.len() ==> next.ts[st.ts.len() as int].id == st.next_id);
        offer_from_keeps_ids(next, m, k + 1, c, primary);
        let f = offered_from(st, m, k, c, primary);
        assert forall|i: int| 0 <= i < st.ts.len() implies (#[trigger] f.ts[i]).id
            == st.ts[i].id by {
            assert(next.ts[i].id == st.ts[i].id);
        }
    }
}

/// An offer, whatever transceivers it makes, keeps the identifiers apart, and those that were
/// there, as long as the counter does not run out.
pub proof fn offers_keep_ids_apart(
    ts: Seq<TransceiverView>,
    next_id: u64,
    acts: Seq<ActionView>,
    m: Seq<SectionView>,
    c: ConfigView,
    primary: Option<u64>,
)
    requires
        ids_apart(ts, next_id),
        next_id + m.len() <= u64::MAX,
    ensures
        ({
            let f = offered(ts, next_id, acts, m, c, primary);
            &&& ids_apart(f.ts, f.next_id)
            &&& f.ts.len() >= ts.len()
            &&& forall|i: int| 0 <= i < ts.len() ==> (#[trigger] f.ts[i]).id == ts[i].id
        }),
{
    offer_from_keeps_ids(
        OfferState { ts, used: none_used(ts.len()), next_id, acts },
        m,
        0,
        c,
        primary,
    );
}

proof fn reinvite_from_keeps_ids(st: TsStep, p: Seq<(int, int)>, m: Seq<SectionView>, k: int)
    requires
        0 <= k <= p.len(),
        forall|i: int| 0 <= i < p.len() ==> 0 <= (#[trigger] p[i]).0 < st.ts.len(),
    ensures
        same_ids(st.ts, reinvited_from(st, p, m, k).ts),
    decreases p.len() - k,
{
    if k < p.len() {
        let i = p[k].0;
        let next = st.with(i, reinvite_step(st.at(i), m[p[k].1]));
        assert(same_ids(st.ts, next.ts));
        reinvite_from_keeps_ids(next, p, m, k + 1);
    }
}

proof fn answer_from_keeps_ids(
    st: TsStep,
    p: Seq<(int, int)>,
    m: Seq<SectionView>,
    media: Seq<(u64, u64)>,
    primary: Option<u64>,
    k: int,
)
    requires
        0 <= k <= p.len(),
        forall|i: int| 0 <= i < p.len() ==> 0 <= (#[trigger] p[i]).0 < st.ts.len(),
    ensures
        same_ids(st.ts, answered_from(st, p, m, media, primary, k).ts),
    decreases p.len() - k,
{
    if k < p.len() {
        let i = p[k].0;
        let next = st.with(
            i,
            answer_step(st.at(i), m[p[k].1], transport_for(media, primary, st.ts[i].id)),
        );
        assert(same_ids(st.ts, next.ts));
        answer_from_keeps_ids(next, p, m, media, primary, k + 1);
    }
}

proof fn permission_from_keeps_ids(
    ts: Seq<TransceiverView>,
    ours: Seq<(int, int)>,
    theirs: Seq<(int, int)>,
    local: Seq<SectionView>,
    remote: Seq<SectionView>,
    k: int,
)
    requires
        0 <= k <= theirs.len(),
        forall|i: int| 0 <= i < theirs.len() ==> 0 <= (#[trigger] theirs[i]).0 < ts.len(),
    ensures
        same_ids(ts, permitted_from(ts, ours, theirs, local, remote, k)),
    decreases theirs.len() - k,
{
    if k < theirs.len() {
        let i = theirs[k].0;
        let next = match first(ours, crate::local::of_transceiver(i)) {
            Some(j) => ts.update(
                i,
                ts[i].permitted(crate::local::may_send(local[ours[j].1], remote[theirs[k].1])),
            ),
            None => ts,
        };
        assert(same_ids(ts, next));
        permission_from_keeps_ids(next, ours, theirs, local, remote, k + 1);
    }
}

/// Letting transceivers send or not keeps their identifiers.
pub proof fn permission_keeps_ids(
    ts: Seq<TransceiverView>,
    local: Seq<SectionView>,
    remote: Seq<SectionView>,
)
    ensures
        same_ids(ts, permitted(ts, local, remote)),
{
    crate::matching::matching_is_one_to_one(ts, remote);
    permission_from_keeps_ids(ts, matched(ts, local), matched(ts, remote), local, remote, 0);
}

proof fn directing_keeps_ids(v: ConnectionView)
    ensures
        same_ids(v.ts, v.directed().ts),
        v.directed().next_id == v.next_id,
{
    if let (Some(l), Some(r)) = (v.local, v.remote) {
        permission_keeps_ids(v.ts, l.media, r.media);
    }
}

proof fn beginning_keeps_ids(
    v: ConnectionView,
    d: DescriptionView,
    hosts: Seq<(Seq<char>, IpAddress)>,
    acts: Seq<ActionView>,
)
    ensures
        same_ids(v.ts, v.remote_begun(d, hosts, acts).0.v.ts),
        v.remote_begun(d, hosts, acts).0.v.next_id == v.next_id,
{
    crate::matching::matching_is_one_to_one(v.ts, d.media);
    reinvite_from_keeps_ids(v.step(acts), matched(v.ts, d.media), d.media, 0);
    assert(same_ids(v.ts, reinvited(v.step(acts), d.media).ts));
}

/// A remote description keeps the identifiers apart, and those of the transceivers that were
/// there, as long as the counter does not run out.
pub proof fn remote_descriptions_keep_ids_apart(
    v: ConnectionView,
    d: DescriptionView,
    hosts: Seq<(Seq<char>, IpAddress)>,
    acts: Seq<ActionView>,
)
    requires
        ids_apart(v.ts, v.next_id),
        v.next_id + d.media.len() <= u64::MAX,
    ensures
        ({
            let w = v.remote_set(d, hosts, acts).v;
            &&& ids_apart(w.ts, w.next_id)
            &&& w.ts.len() >= v.ts.len()
            &&& forall|i: int| 0 <= i < v.ts.len() ==> (#[trigger] w.ts[i]).id == v.ts[i].id
        }),
{
    let a = v.remote_begun(d, hosts, acts);
    beginning_keeps_ids(v, d, hosts, acts);
    assert(ids_apart(a.0.v.ts, a.0.v.next_id));
    offers_keep_ids_apart(
        a.0.v.ts,
        a.0.v.next_id,
        a.0.acts,
        d.media,
        a.0.v.config,
        a.0.v.rtp,
    );
    crate::matching::matching_is_one_to_one(a.0.v.ts, d.media);
    answer_from_keeps_ids(
        a.0.v.step(a.0.acts),
        matched(a.0.v.ts, d.media),
        d.media,
        a.0.v.media,
        a.0.v.rtp,
        0,
    );
    assert(same_ids(
        a.0.v.ts,
        answered(a.0.v.step(a.0.acts), d.media, a.0.v.media, a.0.v.rtp).ts,
    ));
    let b = match a.1 {
        Ok(super::RemoteStartView::Start(_, _)) => a.0.v.remote_finished(d, a.0.acts).v,
        _ => a.0.v,
    };
    assert(forall|i: int| 0 <= i < v.ts.len() ==> (#[trigger] b.ts[i]).id == v.ts[i].id);
    assert(ids_apart(b.ts, b.next_id));
    directing_keeps_ids(b);
    let w = v.remote_set(d, hosts, acts).v;
    assert(same_ids(b.ts, w.ts));
    assert forall|i: int| 0 <= i < v.ts.len() implies (#[trigger] w.ts[i]).id == v.ts[i].id by {
        assert(b.ts[i].id == v.ts[i].id);
    }
}

proof fn local_offer_keeps_ids(st: TsStep, m: Seq<SectionView>, k: int, reoffer: bool)
    requires
        0 <= k <= m.len(),
    ensures
        same_ids(st.ts, local_offer_from(st, m, k, reoffer).ts),
    decreases m.len() - k,
{
    if k < m.len() {
        crate::search::first_from_facts(st.ts, mid_is(m[k].mid), 0);
        crate::search::first_from_facts(st.ts, kind_without_mid(m[k].kind), 0);
        let next = local_section_step(st, m[k], reoffer);
        assert(same_ids(st.ts, next.ts));
        local_offer_keeps_ids(next, m, k + 1, reoffer);
    }
}

proof fn recording_keeps_ids(ts: Seq<TransceiverView>, m: Seq<SectionView>, k: int)
    requires
        0 <= k <= m.len(),
    ensures
        same_ids(ts, recorded_from(ts, m, k)),
    decreases m.len() - k,
{
    if k < m.len() {
        crate::search::first_from_facts(ts, mid_is(m[k].mid), 0);
        match first(ts, mid_is(m[k].mid)) {
            Some(i) => {
                let next = ts.update(
                    i,
                    TransceiverView {
                        desired: crate::transceiver::record_offered(
                            ts[i].desired,
                            crate::direction::transceiver_of(m[k].direction),
                        ),
                        ..ts[i]
                    },
                );
                assert(same_ids(ts, next));
                recording_keeps_ids(next, m, k + 1);
            },
            None => {
                recording_keeps_ids(ts, m, k + 1);
            },
        }
    }
}

/// A local description keeps the transceivers by their identifiers.
pub proof fn local_descriptions_keep_ids(
    v: ConnectionView,
    d: DescriptionView,
    acts: Seq<ActionView>,
)
    ensures
        same_ids(v.ts, v.local_set(d, acts).0.v.ts),
        v.local_set(d, acts).0.v.next_id == v.next_id,
{
    local_offer_keeps_ids(v.step(acts), d.media, 0, v.local is Some);
    let a = local_offer_from(v.step(acts), d.media, 0, v.local is Some);
    recording_keeps_ids(a.ts, d.media, 0);
    if d.sdp_type != SdpType::Offer && d.sdp_type != SdpType::Rollback {
        if let Ok(s) = crate::signaling::local_transition(v.signaling, d.sdp_type) {
            directing_keeps_ids(ConnectionView { signaling: s, local: Some(d), ..v });
        }
    }
}

proof fn naming_keeps_ids(st: MidState, k: int)
    requires
        0 <= k <= st.ts.len(),
    ensures
        same_ids(st.ts, ensure_mids_from(st, k).ts),
    decreases st.ts.len() - k,
{
    if k < st.ts.len() {
        let next = ensure_mid(st, k);
        assert(same_ids(st.ts, next.ts));
        naming_keeps_ids(next, k + 1);
    }
}

proof fn slots_keep_ids(
    st: WriteState,
    slots: Seq<Slot>,
    x: WriteContext,
    ins: Seq<InputView>,
    k: int,
)
    requires
        0 <= k <= slots.len(),
        forall|i: int| 0 <= i < slots.len() ==> (#[trigger] slots[i]).index < st.ts.len(),
    ensures
        same_ids(st.ts, slots_from(st, slots, x, ins, k).ts),
    decreases slots.len() - k,
{
    if k < slots.len() {
        let next = slot_step(st, slots[k], x, ins[k]);
        assert(same_ids(st.ts, next.ts));
        slots_keep_ids(next, slots, x, ins, k + 1);
    }
}

/// Planning an offer and writing a description keep the transceivers by their identifiers.
pub proof fn descriptions_keep_ids(
    v: ConnectionView,
    st: WriteState,
    slots: Seq<Slot>,
    x: WriteContext,
    ins: Seq<InputView>,
    bundle: bool,
    acts: Seq<ActionView>,
)
    requires
        forall|i: int| 0 <= i < slots.len() ==> (#[trigger] slots[i]).index < st.ts.len(),
    ensures
        same_ids(v.ts, v.named(acts).ts),
        same_ids(st.ts, described(st, slots, x, ins, bundle).1.ts),
{
    naming_keeps_ids(MidState { ts: v.ts, next: v.next_mid, acts }, 0);
    slots_keep_ids(st, slots, x, ins, 0);
}

proof fn listening_keeps_ids(st: TsStep, m: Seq<(u64, u64)>, default: u64, k: int)
    requires
        0 <= k <= st.ts.len(),
    ensures
        same_ids(st.ts, listened_from(st, m, default, k).ts),
    decreases st.ts.len() - k,
{
    if k < st.ts.len() {
        let next = st.with(
            k,
            crate::negotiate::listen_step(
                st.at(k),
                crate::connection::transports::own_or(m, st.ts[k].id, default),
            ),
        );
        assert(same_ids(st.ts, next.ts));
        listening_keeps_ids(next, m, default, k + 1);
    }
}

proof fn wiring_keeps_ids(st: TsStep, transport: u64, k: int)
    requires
        0 <= k <= st.ts.len(),
    ensures
        same_ids(st.ts, wired_from(st, transport, k).ts),
    decreases st.ts.len() - k,
{
    if k < st.ts.len() {
        let next = st.with(k, crate::negotiate::wire_step(st.at(k), transport));
        assert(same_ids(st.ts, next.ts));
        wiring_keeps_ids(next, transport, k + 1);
    }
}

proof fn attaching_keeps_ids(st: TsStep, m: Seq<(u64, u64)>, default: u64, k: int)
    requires
        0 <= k <= st.ts.len(),
    ensures
        same_ids(st.ts, attached_from(st, m, default, k).ts),
    decreases st.ts.len() - k,
{
    if k < st.ts.len() {
        let next = st.with(
            k,
            crate::negotiate::attach_step(
                st.at(k),
                crate::connection::transports::own_or(m, st.ts[k].id, default),
            ),
        );
        assert(same_ids(st.ts, next.ts));
        attaching_keeps_ids(next, m, default, k + 1);
    }
}

proof fn attaching_some_keeps_ids(st: TsStep, ids: Seq<u64>, transport: u64, k: int)
    requires
        0 <= k <= ids.len(),
    ensures
        same_ids(st.ts, attached_ids_from(st, ids, transport, k).ts),
    decreases ids.len() - k,
{
    if k < ids.len() {
        crate::search::first_from_facts(st.ts, id_is(ids[k]), 0);
        let next = crate::connection::transports::attached_id(st, ids[k], transport);
        assert(same_ids(st.ts, next.ts));
        attaching_some_keeps_ids(next, ids, transport, k + 1);
    }
}

/// Moving transceivers to transports, in whichever way, keeps their identifiers.
pub proof fn transports_keep_ids(
    st: TsStep,
    m: Seq<(u64, u64)>,
    transport: u64,
    ids: Seq<u64>,
)
    ensures
        same_ids(st.ts, listened_from(st, m, transport, 0).ts),
        same_ids(st.ts, wired_from(st, transport, 0).ts),
        same_ids(st.ts, attached_from(st, m, transport, 0).ts),
        same_ids(st.ts, attached_ids_from(st, ids, transport, 0).ts),
{
    listening_keeps_ids(st, m, transport, 0);
    wiring_keeps_ids(st, transport, 0);
    attaching_keeps_ids(st, m, transport, 0);
    attaching_some_keeps_ids(st, ids, transport, 0);
}

/// Transceivers that are kept by their identifiers keep these apart.
pub proof fn same_ids_stay_apart(a: Seq<TransceiverView>, b: Seq<TransceiverView>, next: u64)
    requires
        ids_apart(a, next),
        same_ids(a, b),
    ensures
        ids_apart(b, next),
{
}

proof fn orphans_from_are(ts: Seq<TransceiverView>, live: Seq<u64>, k: int, acc: Seq<u64>, id: u64)
    requires
        0 <= k <= ts.len(),
    ensures
        orphans_from(ts, live, k, acc).contains(id) <==> acc.contains(id) || (exists|i: int|
            k <= i < ts.len() && (#[trigger] ts[i]).id == id && !live.contains(id)),
    decreases ts.len() - k,
{
    if k < ts.len() {
        let next = if live.contains(ts[k].id) {
            acc
        } else {
            acc.push(ts[k].id)
        };
        orphans_from_are(ts, live, k + 1, next, id);
        assert(next.contains(id) <==> acc.contains(id) || (ts[k].id == id && !live.contains(id)))
            by {
            if acc.contains(id) {
                let j = acc.index_of(id);
                assert(next[j] == id);
            }
            if ts[k].id == id && !live.contains(id) {
                assert(next[acc.len() as int] == id);
            }
            if next.contains(id) {
                let j = next.index_of(id);
                if j < acc.len() {
                    assert(acc[j] == id);
                }
            }
        }
    }
}

/// The transceivers that lose their transports are exactly those that no section of the
/// description is matched to.
pub proof fn orphans_are_unmatched(
    ts: Seq<TransceiverView>,
    next: u64,
    m: Seq<SectionView>,
    i: int,
)
    requires
        ids_apart(ts, next),
        0 <= i < ts.len(),
    ensures
        orphans(ts, m).contains(ts[i].id) <==> forall|j: int|
            0 <= j < matched(ts, m).len() ==> (#[trigger] matched(ts, m)[j]).0 != i,
{
    let p = matched(ts, m);
    let live = live_ids(ts, p);
    crate::matching::matching_is_one_to_one(ts, m);
    orphans_from_are(ts, live, 0, Seq::empty(), ts[i].id);
    if live.contains(ts[i].id) {
        let j = live.index_of(ts[i].id);
        assert(ts[p[j].0].id == ts[i].id);
        assert(p[j].0 == i);
    } else {
        assert forall|j: int| 0 <= j < p.len() implies (#[trigger] p[j]).0 != i by {
            assert(live[j] == ts[p[j].0].id);
        }
    }
}

/// Two senders that are reserved one after the other have different SSRCs.
pub proof fn reserved_ssrcs_differ(
    v: ConnectionView,
    one: (MediaKind, u32, Seq<char>, Seq<char>),
    other: (MediaKind, u32, Seq<char>, Seq<char>),
    direction: TransceiverDirection,
)
    requires
        direction.spec_sends(),
        one.1 != 0,
    ensures
        ({
            let a = with_added(v, one.0, direction, one.1, one.2, one.3);
            let b = with_added(a, other.0, direction, other.1, other.2, other.3);
            b.ts[v.ts.len() as int].sender_ssrc != b.ts[v.ts.len() as int + 1].sender_ssrc
        }),
{
}

} // verus!
