//! How media moves to transports.

use super::transports::address_of;
use super::transports::attached_from;
use super::transports::attached_id;
use super::transports::attached_ids_from;
use super::transports::entry_for;
use super::transports::id_is;
use super::transports::listened_from;
use super::transports::own_or;
use super::transports::own_rtcp_from;
use super::transports::pointed;
use super::transports::rtcp_receivers_from;
use super::transports::total_from;
use super::transports::wired_from;
use super::ConnectionView;
use crate::action::ActionView;
use crate::address::description_rtcp;
use crate::address::section_rtcp;
use crate::address::IpAddress;
use crate::address::SocketAddress;
use crate::config::TransportMode;
use crate::local::TsStep;
use crate::matching::kind_is;
use crate::matching::matched;
use crate::negotiate::attach_step;
use crate::negotiate::attached_media_moves;
use crate::negotiate::listen_step;
use crate::negotiate::wire_step;
use crate::registry::entry_of;
use crate::registry::transport_of;
use crate::rtp::targets_sender;
use crate::rtp::RtcpPacket;
use crate::remote::MediaSetup;
use crate::sdp::DescriptionView;
use crate::sdp::MediaKind;
use crate::search::first;
use crate::transceiver::TransceiverView;
use vstd::prelude::*;

verus! {

/// The sender and the receiver of a transceiver, where it has them, are on a transport.
pub open spec fn is_on(t: TransceiverView, transport: u64) -> bool {
    &&& t.sender matches Some(s) ==> s.transport == Some(transport)
    &&& t.receiver matches Some(r) ==> r.transport == Some(transport)
}

/// What a transceiver has of its own in a list, where the list has it once.
pub proof fn own_transport_comes_first(m: Seq<(u64, u64)>, id: u64, transport: u64, default: u64)
    ensures
        m.contains((id, transport)) && (forall|i: int|
            0 <= i < m.len() && (#[trigger] m[i]).0 == id ==> m[i].1 == transport) ==> own_or(
            m,
            id,
            default,
        ) == transport,
        (forall|i: int| 0 <= i < m.len() ==> (#[trigger] m[i]).0 != id) ==> own_or(m, id, default)
            == default,
{
    crate::search::first_from_facts(m, entry_of(id), 0);
    if m.contains((id, transport)) {
        let i = m.index_of((id, transport));
        assert(entry_of(id)(m[i]));
    }
}

proof fn attached_from_moves(st: TsStep, m: Seq<(u64, u64)>, default: u64, k: int, i: int)
    requires
        0 <= k <= st.ts.len(),
        0 <= i < st.ts.len(),
    ensures
        ({
            let f = attached_from(st, m, default, k).ts;
            &&& f.len() == st.ts.len()
            &&& i < k ==> f[i] == st.ts[i]
            &&& i >= k ==> is_on(f[i], own_or(m, st.ts[i].id, default)) && f[i].transport == Some(
                own_or(m, st.ts[i].id, default),
            )
        }),
    decreases st.ts.len() - k,
{
    if k < st.ts.len() {
        let transport = own_or(m, st.ts[k].id, default);
        attached_media_moves(st.at(k), transport);
        let next = st.with(k, attach_step(st.at(k), transport));
        attached_from_moves(next, m, default, k + 1, i);
    }
}

proof fn wired_from_moves(st: TsStep, transport: u64, k: int, i: int)
    requires
        0 <= k <= st.ts.len(),
        0 <= i < st.ts.len(),
    ensures
        ({
            let f = wired_from(st, transport, k).ts;
            &&& f.len() == st.ts.len()
            &&& i < k ==> f[i] == st.ts[i]
            &&& i >= k ==> is_on(f[i], transport)
            &&& i >= k && f[i].sender is Some && f[i].receiver is Some
                ==> f[i].receiver->0.feedback_ssrc == Some(f[i].sender->0.ssrc)
        }),
    decreases st.ts.len() - k,
{
    if k < st.ts.len() {
        let next = st.with(k, wire_step(st.at(k), transport));
        wired_from_moves(next, transport, k + 1, i);
    }
}

proof fn listened_from_moves(st: TsStep, m: Seq<(u64, u64)>, default: u64, k: int, i: int)
    requires
        0 <= k <= st.ts.len(),
        0 <= i < st.ts.len(),
    ensures
        ({
            let f = listened_from(st, m, default, k).ts;
            &&& f.len() == st.ts.len()
            &&& i < k ==> f[i] == st.ts[i]
            &&& i >= k ==> f[i].transport == Some(own_or(m, st.ts[i].id, default)) && (
            f[i].receiver matches Some(r) ==> r.transport == Some(
                own_or(m, st.ts[i].id, default),
            )) && f[i].sender == st.ts[i].sender
        }),
    decreases st.ts.len() - k,
{
    if k < st.ts.len() {
        let transport = own_or(m, st.ts[k].id, default);
        let next = st.with(k, listen_step(st.at(k), transport));
        listened_from_moves(next, m, default, k + 1, i);
    }
}

/// Taking a primary transport lets every receiver listen there, or on the transport that its
/// transceiver has of its own; securing one moves every sender and receiver there; attaching moves
/// every sender and receiver to its own transport or to the primary one.
pub proof fn media_follows_the_transport(
    st: TsStep,
    m: Seq<(u64, u64)>,
    transport: u64,
    i: int,
)
    requires
        0 <= i < st.ts.len(),
    ensures
        ({
            let own = own_or(m, st.ts[i].id, transport);
            let l = listened_from(st, m, transport, 0).ts[i];
            let w = wired_from(st, transport, 0).ts[i];
            let a = attached_from(st, m, transport, 0).ts[i];
            &&& l.receiver matches Some(r) ==> r.transport == Some(own)
            &&& l.transport == Some(own)
            &&& is_on(w, transport)
            &&& w.sender is Some && w.receiver is Some ==> w.receiver->0.feedback_ssrc == Some(
                w.sender->0.ssrc,
            )
            &&& is_on(a, own)
            &&& a.transport == Some(own)
        }),
{
    listened_from_moves(st, m, transport, 0, i);
    wired_from_moves(st, transport, 0, i);
    attached_from_moves(st, m, transport, 0, i);
}

proof fn attached_ids_move(st: TsStep, ids: Seq<u64>, transport: u64, k: int, i: int)
    requires
        0 <= k <= ids.len(),
        0 <= i < st.ts.len(),
        forall|a: int, b: int|
            0 <= a < b < st.ts.len() ==> (#[trigger] st.ts[a]).id != (#[trigger] st.ts[b]).id,
    ensures
        ({
            let f = attached_ids_from(st, ids, transport, k).ts;
            &&& f.len() == st.ts.len()
            &&& f[i].id == st.ts[i].id
            &&& (exists|j: int| k <= j < ids.len() && #[trigger] ids[j] == st.ts[i].id) || (is_on(
                st.ts[i],
                transport,
            ) && st.ts[i].transport == Some(transport)) ==> is_on(f[i], transport)
                && f[i].transport == Some(transport)
            &&& (forall|j: int| k <= j < ids.len() ==> #[trigger] ids[j] != st.ts[i].id) ==> f[i]
                == st.ts[i]
        }),
    decreases ids.len() - k,
{
    if k < ids.len() {
        let id = ids[k];
        crate::search::first_from_facts(st.ts, id_is(id), 0);
        let next = attached_id(st, id, transport);
        if let Some(j) = first(st.ts, id_is(id)) {
            assert(id_is(id)(st.ts[j]));
            attached_media_moves(st.at(j), transport);
            assert(next.ts[j].id == st.ts[j].id);
        }
        if st.ts[i].id == id {
            assert(id_is(id)(st.ts[i]));
        }
        attached_ids_move(next, ids, transport, k + 1, i);
    }
}

/// The transceivers of a group, and only they, move to the transport that they share.
pub proof fn groups_share_a_transport(
    st: TsStep,
    ids: Seq<u64>,
    transport: u64,
    next: u64,
    i: int,
)
    requires
        super::identity::ids_apart(st.ts, next),
        0 <= i < st.ts.len(),
    ensures
        ({
            let f = attached_ids_from(st, ids, transport, 0).ts[i];
            &&& ids.contains(st.ts[i].id) ==> is_on(f, transport) && f.transport == Some(transport)
            &&& !ids.contains(st.ts[i].id) ==> f == st.ts[i]
        }),
{
    attached_ids_move(st, ids, transport, 0, i);
    if ids.contains(st.ts[i].id) {
        let j = ids.index_of(st.ts[i].id);
        assert(ids[j] == st.ts[i].id);
    }
}

/// A transport that is pointed anew sends RTP to the address that is given, RTCP to its own or
/// along with it, and latches onto the stream that is expected.
pub proof fn pointed_transports_send_there(
    acts: Seq<ActionView>,
    transport: u64,
    remote: SocketAddress,
    rtcp: Option<SocketAddress>,
    ssrc: Option<u32>,
)
    ensures
        ({
            let r = pointed(acts, transport, remote, rtcp, ssrc);
            &&& r.len() == acts.len() + 2 + (if ssrc is Some {
                1nat
            } else {
                0nat
            })
            &&& r[acts.len() as int] == (ActionView::SetRemoteAddress {
                transport,
                address: remote,
            })
            &&& r[acts.len() as int + 1] == (ActionView::SetRtcpAddress {
                transport,
                address: rtcp,
            })
            &&& ssrc matches Some(n) ==> r.last() == (ActionView::ExpectSsrc { transport, ssrc: n })
            &&& r.take(acts.len() as int) == acts
        }),
{
    let r = pointed(acts, transport, remote, rtcp, ssrc);
    assert(r.take(acts.len() as int) =~= acts);
}

/// A setup of a direct transport moves its transceiver there: on the primary transport, or on one of
/// its own, which it keeps or gets. The transport sends RTCP where the setup says, and one that is
/// there already sends RTP to the address of the setup.
pub proof fn setups_move_their_transceivers(
    v: ConnectionView,
    s: MediaSetup,
    fresh: u64,
    acts: Seq<ActionView>,
    i: int,
)
    requires
        super::identity::ids_apart(v.ts, v.next_id),
        0 <= i < v.ts.len(),
        v.ts[i].id == s.transceiver,
    ensures
        ({
            let x = v.configured(s, fresh, acts);
            let m = v.media_transport(s.transceiver, Some(s), fresh);
            &&& s.primary ==> (v.rtp matches Some(t) ==> is_on(x.v.ts[i], t) && x.v.media
                == v.media)
            &&& s.primary && v.rtp is None ==> x.v == v && x.acts == acts
            &&& !s.primary ==> is_on(x.v.ts[i], m.transport) && transport_of(
                x.v.media,
                s.transceiver,
            ) == Some(m.transport)
            &&& m.remote == s.remote
            &&& transport_of(v.media, s.transceiver) matches Some(t) ==> m.transport == t
                && !m.created
            &&& transport_of(v.media, s.transceiver) is None ==> m.transport == fresh && m.created
            &&& forall|j: int| 0 <= j < v.ts.len() && j != i ==> #[trigger] x.v.ts[j] == v.ts[j]
            &&& s.primary ==> (v.rtp matches Some(t) ==> x.acts.contains(
                ActionView::SetRemoteAddress { transport: t, address: s.remote },
            ) && x.acts.contains(ActionView::SetRtcpAddress { transport: t, address: s.rtcp }))
            &&& !s.primary ==> x.acts.contains(
                ActionView::SetRtcpAddress { transport: m.transport, address: s.rtcp },
            ) && (!m.created ==> x.acts.contains(
                ActionView::SetRemoteAddress { transport: m.transport, address: s.remote },
            )) && (s.expected_ssrc matches Some(n) ==> x.acts.contains(
                ActionView::ExpectSsrc { transport: m.transport, ssrc: n },
            ))
        }),
{
    crate::search::first_from_facts(v.ts, id_is(s.transceiver), 0);
    assert(id_is(s.transceiver)(v.ts[i]));
    let j = first(v.ts, id_is(s.transceiver))->0;
    assert(id_is(s.transceiver)(v.ts[j]));
    assert(j == i);
    let own = own_or(v.media, s.transceiver, fresh);
    crate::registry::set_transport_is_found(
        v.media,
        s.transceiver,
        own,
        s.transceiver.wrapping_add(1),
    );
    if s.primary {
        if let Some(t) = v.rtp {
            let st = v.step(pointed(acts, t, s.remote, s.rtcp, s.expected_ssrc));
            attached_media_moves(st.at(i), t);
            let r = v.configured(s, fresh, acts).acts;
            assert(r[acts.len() as int] == st.acts[acts.len() as int]);
            assert(r[acts.len() as int + 1] == st.acts[acts.len() as int + 1]);
        }
    } else {
        let st = v.step(v.media_pointed(s.transceiver, Some(s), fresh, acts));
        attached_media_moves(st.at(i), own);
        let r = v.configured(s, fresh, acts).acts;
        let n = acts.len() as int;
        if transport_of(v.media, s.transceiver) is None {
            let b = acts.push(ActionView::SetRtcpAddress { transport: fresh, address: s.rtcp });
            let c = match s.expected_ssrc {
                Some(x) => b.push(ActionView::ExpectSsrc { transport: fresh, ssrc: x }),
                None => b,
            };
            super::observing::observed_keeps(v.observers, fresh, 0, c);
            assert(st.acts[n] == c[n]);
            if s.expected_ssrc is Some {
                assert(st.acts[n + 1] == c[n + 1]);
                assert(r[n + 1] == st.acts[n + 1]);
            }
        } else {
            assert(r[n + 1] == st.acts[n + 1]);
            if s.expected_ssrc is Some {
                assert(r[n + 2] == st.acts[n + 2]);
            }
        }
        assert(r[n] == st.acts[n]);
    }
}

/// A packet that no sender sends leaves on the transport of the first audio transceiver's sender;
/// without one there, on the primary transport.
pub proof fn raw_packets_leave_with_audio(v: ConnectionView, i: int)
    requires
        0 <= i < v.ts.len(),
        v.ts[i].kind == MediaKind::Audio,
        forall|j: int| 0 <= j < i ==> (#[trigger] v.ts[j]).kind != MediaKind::Audio,
    ensures
        v.ts[i].sender is Some && v.ts[i].sender->0.transport is Some ==> v.raw_transport()
            == v.ts[i].sender->0.transport,
        v.ts[i].sender is None || v.ts[i].sender->0.transport is None ==> v.raw_transport()
            == v.rtp,
{
    crate::search::first_from_facts(v.ts, kind_is(MediaKind::Audio), 0);
    assert(kind_is(MediaKind::Audio)(v.ts[i]));
}

/// The transports of a connection are the primary one and those of single transceivers.
pub proof fn all_transports_are_listed(v: ConnectionView, t: u64)
    ensures
        v.all_transports().contains(t) <==> v.rtp == Some(t) || exists|i: int|
            0 <= i < v.media.len() && (#[trigger] v.media[i]).1 == t,
        v.rtp is Some ==> v.all_transports()[0] == v.rtp->0,
        v.all_transports().len() == v.media.len() + (if v.rtp is Some {
            1nat
        } else {
            0nat
        }),
{
    let own = v.media.map_values(|e: (u64, u64)| e.1);
    let all = v.all_transports();
    let n: int = if v.rtp is Some {
        1
    } else {
        0
    };
    if v.rtp == Some(t) {
        assert(all[0] == t);
    }
    if exists|i: int| 0 <= i < v.media.len() && (#[trigger] v.media[i]).1 == t {
        let i = choose|i: int| 0 <= i < v.media.len() && (#[trigger] v.media[i]).1 == t;
        assert(all[n + i] == t);
    }
    if all.contains(t) && v.rtp != Some(t) {
        let j = all.index_of(t);
        assert(v.media[j - n].1 == t);
    }
}

proof fn own_rtcp_goes_on(
    v: ConnectionView,
    d: DescriptionView,
    p: Seq<(int, int)>,
    known: Seq<(u64, SocketAddress)>,
    hosts: Seq<(Seq<char>, IpAddress)>,
    k: int,
    acc: Seq<ActionView>,
    q: int,
    x: ActionView,
)
    requires
        0 <= k <= p.len(),
    ensures
        ({
            let r = own_rtcp_from(v, d, p, known, hosts, k, acc);
            &&& acc.contains(x) ==> r.contains(x)
            &&& k <= q < p.len() ==> (transport_of(v.media, v.ts[p[q].0].id) matches Some(t) ==> (
            address_of(known, t) matches Some(a) ==> r.contains(
                ActionView::SetRtcpAddress {
                    transport: t,
                    address: section_rtcp(d.media[p[q].1], a, hosts),
                },
            )))
        }),
    decreases p.len() - k,
{
    if k < p.len() {
        let next = match transport_of(v.media, v.ts[p[k].0].id) {
            Some(t) => match address_of(known, t) {
                Some(a) => acc.push(
                    ActionView::SetRtcpAddress {
                        transport: t,
                        address: section_rtcp(d.media[p[k].1], a, hosts),
                    },
                ),
                None => acc,
            },
            None => acc,
        };
        if acc.contains(x) {
            assert(next[acc.index_of(x)] == x);
        }
        own_rtcp_goes_on(v, d, p, known, hosts, k + 1, next, q, x);
        if q == k && next.len() > acc.len() {
            let y = next.last();
            assert(next[next.len() - 1] == y);
            assert(next.contains(y));
            own_rtcp_goes_on(v, d, p, known, hosts, k + 1, next, q, y);
        }
    }
}

/// RTCP goes where the remote description says: that of the primary transport as the section says
/// that speaks for it, that of a transport of its own as its section says, each given where RTP goes.
pub proof fn rtcp_goes_where_the_sections_say(
    v: ConnectionView,
    d: DescriptionView,
    known: Seq<(u64, SocketAddress)>,
    hosts: Seq<(Seq<char>, IpAddress)>,
    acts: Seq<ActionView>,
    t: u64,
    a: SocketAddress,
    q: int,
)
    requires
        v.remote == Some(d),
        known.contains((t, a)),
        forall|i: int| 0 <= i < known.len() && (#[trigger] known[i]).0 == t ==> known[i].1 == a,
    ensures
        v.rtp == Some(t) ==> v.rtcp_routed(known, hosts, acts).contains(
            ActionView::SetRtcpAddress { transport: t, address: description_rtcp(d, a, hosts) },
        ),
        ({
            let p = matched(v.ts, d.media);
            0 <= q < p.len() && transport_of(v.media, v.ts[p[q].0].id) == Some(t)
                ==> v.rtcp_routed(known, hosts, acts).contains(
                ActionView::SetRtcpAddress {
                    transport: t,
                    address: section_rtcp(d.media[p[q].1], a, hosts),
                },
            )
        }),
{
    crate::search::first_from_facts(known, entry_for(t), 0);
    let i = known.index_of((t, a));
    assert(entry_for(t)(known[i]));
    assert(address_of(known, t) == Some(a));
    let p = matched(v.ts, d.media);
    let first_set = match v.rtp {
        Some(x) => match address_of(known, x) {
            Some(y) => acts.push(
                ActionView::SetRtcpAddress {
                    transport: x,
                    address: description_rtcp(d, y, hosts),
                },
            ),
            None => acts,
        },
        None => acts,
    };
    let mark = ActionView::SetRtcpAddress { transport: t, address: description_rtcp(d, a, hosts) };
    if v.rtp == Some(t) {
        assert(first_set[acts.len() as int] == mark);
        assert(first_set.contains(mark));
    }
    own_rtcp_goes_on(v, d, p, known, hosts, 0, first_set, q, mark);
}

/// What a primary transport has to be: one that latches where a direct transport may, one that
/// demands SRTP but on plain RTP, and one with RTCP apart only where there is no ICE.
pub proof fn transports_are_made_as_configured(
    v: ConnectionView,
    remote: SocketAddress,
    hosts: Seq<(Seq<char>, IpAddress)>,
)
    ensures
        ({
            let t = v.transport_terms(remote, hosts);
            let mode = v.config.transport_mode;
            &&& t.latch <==> mode != TransportMode::WebRtc && v.config.enable_latching
            &&& t.srtp_required <==> mode != TransportMode::Rtp
            &&& t.allow_ssrc_change <==> v.config.enable_latching
            &&& mode == TransportMode::WebRtc ==> t.rtcp is None
            &&& mode != TransportMode::WebRtc ==> (v.remote matches Some(d) ==> t.rtcp
                == description_rtcp(d, remote, hosts))
        }),
{
}

/// Counts add up, whatever their order of arrival.
pub proof fn counts_add_up(counts: Seq<u64>, more: u64, k: int)
    requires
        0 <= k <= counts.len(),
    ensures
        total_from(counts.push(more), k) == total_from(counts, k) + more,
        total_from(Seq::empty(), 0) == 0,
    decreases counts.len() - k,
{
    if k < counts.len() {
        counts_add_up(counts, more, k + 1);
        assert(counts.push(more)[k] == counts[k]);
    } else {
        assert(counts.push(more)[k] == more);
        assert(total_from(counts.push(more), k + 1) == 0);
    }
}

/// An observer that is added sees every transport that is there, and nothing else is asked for;
/// observers and bridges are taken off every transport in the same way.
pub proof fn each_transport_is_asked(v: ConnectionView, acts: Seq<ActionView>, observer: u64, i: int)
    requires
        0 <= i < v.all_transports().len(),
    ensures
        ({
            let all = v.all_transports();
            let w = super::observing::each(acts, all, super::observing::watching(observer));
            let u = super::observing::each(acts, all, super::observing::unwatched());
            let b = super::observing::each(acts, all, super::observing::unbridged());
            let n = acts.len() as int;
            &&& w.len() == n + all.len() && u.len() == n + all.len() && b.len() == n + all.len()
            &&& w[n + i] == (ActionView::Observe { transport: all[i], observer })
            &&& u[n + i] == (ActionView::ClearObservers { transport: all[i] })
            &&& b[n + i] == (ActionView::ClearBridge { transport: all[i] })
        }),
{
}

proof fn receivers_are_found(
    ts: Seq<TransceiverView>,
    packet: RtcpPacket,
    k: int,
    acc: Seq<usize>,
    i: usize,
)
    requires
        0 <= k,
        ts.len() <= usize::MAX,
        forall|j: int| 0 <= j < acc.len() ==> #[trigger] acc[j] < k,
    ensures
        rtcp_receivers_from(ts, packet, k, acc).contains(i) <==> acc.contains(i) || (k <= i
            < ts.len() && ts[i as int].sender is Some && targets_sender(
            packet,
            ts[i as int].sender->0.ssrc,
        )),
    decreases ts.len() - k,
{
    if k < ts.len() {
        let next = acc.push(k as usize);
        assert(next.contains(i) <==> acc.contains(i) || i == k) by {
            assert(next[acc.len() as int] == k);
            if acc.contains(i) {
                assert(next[acc.index_of(i)] == i);
            }
        }
        let takes = ts[k].sender is Some && targets_sender(packet, ts[k].sender->0.ssrc);
        if takes {
            receivers_are_found(ts, packet, k + 1, next, i);
        } else {
            receivers_are_found(ts, packet, k + 1, acc, i);
        }
    }
}

/// RTCP is delivered to the transceivers with a sender that it concerns, and to no other.
pub proof fn rtcp_is_delivered_to_senders(ts: Seq<TransceiverView>, packet: RtcpPacket, i: usize)
    requires
        ts.len() <= usize::MAX,
    ensures
        rtcp_receivers_from(ts, packet, 0, Seq::empty()).contains(i) <==> i < ts.len()
            && ts[i as int].sender is Some && targets_sender(packet, ts[i as int].sender->0.ssrc),
{
    receivers_are_found(ts, packet, 0, Seq::empty(), i);
}

} // verus!
