//! How descriptions, tracks and transceivers are taken.

use super::attach_target;
use super::awaits_track;
use super::fresh_connection;
use super::offering::PlanView;
use super::start_of;
use super::track_plan;
use super::track_plan_of;
use super::with_added;
use super::ConnectionView;
use super::RemoteStartView;
use super::StartKind;
use crate::action::ActionView;
use crate::address::section_address;
use crate::address::IpAddress;
use crate::address::SocketAddress;
use crate::applied::is_offered;
use crate::codec::CodecView;
use crate::config::ConfigView;
use crate::config::TransportMode;
use crate::describe::WriteState;
use crate::direction::TransceiverDirection;
use crate::error::RtcErrorView;
use crate::matching::free_facts;
use crate::matching::kind_and_mid;
use crate::matching::kind_is;
use crate::matching::kind_without_mid;
use crate::matching::matched;
use crate::negotiate::has_terms;
use crate::negotiate::is_same_transceiver;
use crate::registry::transport_of;
use crate::remote::credentials_of;
use crate::remote::live_ids;
use crate::remote::media_differs;
use crate::remote::next_mid_from;
use crate::remote::offer_owner;
use crate::remote::orphans;
use crate::remote::orphans_from;
use crate::remote::reinvite_address;
use crate::remote::required_fingerprint;
use crate::remote::transport_for;
use crate::sdp::DescriptionView;
use crate::sdp::MediaKind;
use crate::sdp::SdpType;
use crate::sdp::SectionView;
use crate::search::first;
use crate::sender::is_fresh_sender;
use crate::sender::SenderPlan;
use crate::sender::SenderView;
use crate::state::IceConnectionState;
use crate::state::IceGatheringState;
use crate::state::PeerConnectionState;
use crate::state::SignalingState;
use crate::text::number;
use crate::transceiver::TransceiverView;
use vstd::prelude::*;

verus! {

/// A rollback, an offer with other media while an exchange is open, and a WebRTC description whose
/// fingerprint is refused change nothing; another fingerprint than that of the running transport
/// is refused.
pub proof fn remote_descriptions_are_refused(
    v: ConnectionView,
    d: DescriptionView,
    hosts: Seq<(Seq<char>, IpAddress)>,
    acts: Seq<ActionView>,
)
    ensures
        ({
            let x = v.remote_begun(d, hosts, acts);
            &&& d.sdp_type == SdpType::Rollback ==> x.1 == Err::<RemoteStartView, _>(
                RtcErrorView::NotImplemented("rollback"@),
            ) && x.0.v == v && x.0.acts == acts
            &&& d.sdp_type == SdpType::Offer && v.remote is Some && media_differs(v.remote->0, d)
                && v.signaling != SignalingState::Stable ==> x.1 is Err && x.0.v == v && x.0.acts
                == acts
            &&& required_fingerprint(v.config.transport_mode, d) is Err ==> x.1 is Err && x.0.v == v
                && x.0.acts == acts
            &&& required_fingerprint(v.config.transport_mode, d) matches Ok(f) ==> ((
            v.remote is None || media_differs(v.remote->0, d)) && v.dtls is Some
                && v.remote_fingerprint != f ==> x.1 is Err)
        }),
{
}

/// A remote description that is taken keeps the configuration, our own description and what was
/// handed out; its fingerprint is remembered, and the next mid is above those that it uses.
pub proof fn remote_descriptions_are_taken(
    v: ConnectionView,
    d: DescriptionView,
    hosts: Seq<(Seq<char>, IpAddress)>,
    acts: Seq<ActionView>,
    i: int,
    n: nat,
)
    requires
        v.remote_begun(d, hosts, acts).1 is Ok,
    ensures
        ({
            let x = v.remote_begun(d, hosts, acts);
            &&& x.0.v.config == v.config && x.0.v.local == v.local && x.0.v.next_ssrc == v.next_ssrc
                && x.0.v.next_id == v.next_id && x.0.v.channels == v.channels && x.0.v.rtp == v.rtp
                && x.0.v.peer == v.peer && x.0.v.ice == v.ice && x.0.v.fingerprint == v.fingerprint
            &&& d.sdp_type == SdpType::Offer ==> v.signaling == SignalingState::Stable
                && x.0.v.signaling == SignalingState::HaveRemoteOffer
            &&& d.sdp_type == SdpType::Answer ==> v.signaling == SignalingState::HaveLocalOffer
                && x.0.v.signaling == SignalingState::Stable
            &&& x.0.v.next_mid >= v.next_mid
            &&& 0 <= i < d.media.len() && number(d.media[i].mid, 65535) == Some(n) && n < 65535
                ==> x.0.v.next_mid > n
            &&& x.1 == Ok::<_, RtcErrorView>(RemoteStartView::Unchanged) <==> (v.remote is Some
                && !media_differs(v.remote->0, d))
            &&& x.1 matches Ok(RemoteStartView::Start(c, k)) ==> c == credentials_of(d)
                && required_fingerprint(v.config.transport_mode, d) == Ok::<_, RtcErrorView>(
                x.0.v.remote_fingerprint,
            )
        }),
{
    next_mid_passes(d.media, 0, v.next_mid, i);
}

proof fn next_mid_passes(m: Seq<SectionView>, k: int, next: u16, i: int)
    requires
        0 <= k,
    ensures
        next_mid_from(m, k, next) >= next,
        k <= i < m.len() ==> (number(m[i].mid, 65535) matches Some(n) ==> (n < 65535
            ==> next_mid_from(m, k, next) > n)),
    decreases m.len() - k,
{
    if k < m.len() {
        let after = match number(m[k].mid, 65535) {
            Some(n) => if n < 65535 && n + 1 > next {
                (n + 1) as u16
            } else {
                next
            },
            None => next,
        };
        next_mid_passes(m, k + 1, after, i);
    }
}

/// The next mid is the one that it was, or follows one that the sections use.
pub proof fn mids_are_passed_over_one_by_one(m: Seq<SectionView>, next: u16)
    ensures
        next_mid_from(m, 0, next) == next || exists|i: int|
            0 <= i < m.len() && number((#[trigger] m[i]).mid, 65535) == Some(
                (next_mid_from(m, 0, next) - 1) as nat,
            ),
{
    next_mid_comes_from(m, 0, next);
}

proof fn next_mid_comes_from(m: Seq<SectionView>, k: int, next: u16)
    requires
        0 <= k,
    ensures
        next_mid_from(m, k, next) == next || (next_mid_from(m, k, next) > 0 && exists|i: int|
            k <= i < m.len() && number((#[trigger] m[i]).mid, 65535) == Some(
                (next_mid_from(m, k, next) - 1) as nat,
            )),
    decreases m.len() - k,
{
    if k < m.len() {
        let after = match number(m[k].mid, 65535) {
            Some(n) => if n < 65535 && n + 1 > next {
                (n + 1) as u16
            } else {
                next
            },
            None => next,
        };
        next_mid_comes_from(m, k + 1, after);
        if next_mid_from(m, k, next) == after && after != next {
            assert(number(m[k].mid, 65535) == Some((after - 1) as nat));
        }
    }
}

/// ICE starts once both of its credentials are known; an SRTP transport starts to an address that
/// a section gives, and plain RTP starts nothing here.
pub proof fn transports_start_as_described(
    d: DescriptionView,
    hosts: Seq<(Seq<char>, IpAddress)>,
    i: int,
    a: SocketAddress,
)
    ensures
        start_of(TransportMode::WebRtc, d, hosts) == StartKind::Ice <==> credentials_of(
            d,
        ).ufrag is Some && credentials_of(d).pwd is Some,
        start_of(TransportMode::WebRtc, d, hosts) == StartKind::Ice || start_of(
            TransportMode::WebRtc,
            d,
            hosts,
        ) == StartKind::Nothing,
        start_of(TransportMode::Rtp, d, hosts) == StartKind::Nothing,
        0 <= i < d.media.len() && section_address(d, d.media[i], hosts, false) == Some(a) && (forall|
            j: int,
        |
            i < j < d.media.len() ==> section_address(d, #[trigger] d.media[j], hosts, false)
                is None) ==> start_of(TransportMode::Srtp, d, hosts) == StartKind::Direct(a),
{
    if 0 <= i < d.media.len() && section_address(d, d.media[i], hosts, false) == Some(a) && (forall|
        j: int,
    |
        i < j < d.media.len() ==> section_address(d, #[trigger] d.media[j], hosts, false) is None) {
        last_address_counts(d, hosts, 0, None, i, a);
    }
}

proof fn last_address_counts(
    d: DescriptionView,
    hosts: Seq<(Seq<char>, IpAddress)>,
    k: int,
    found: Option<SocketAddress>,
    i: int,
    a: SocketAddress,
)
    requires
        0 <= k,
        0 <= i < d.media.len(),
        section_address(d, d.media[i], hosts, false) == Some(a),
        forall|j: int|
            i < j < d.media.len() ==> section_address(d, #[trigger] d.media[j], hosts, false)
                is None,
        k > i ==> found == Some(a),
    ensures
        crate::remote::direct_address_from(d, hosts, k, found) == Some(a),
    decreases d.media.len() - k,
{
    if k < d.media.len() {
        let next = match section_address(d, d.media[k], hosts, false) {
            Some(x) => Some(x),
            None => found,
        };
        last_address_counts(d, hosts, k + 1, next, i, a);
    }
}

/// The end of a remote answer gives each transceiver the terms of the section that it is matched
/// to, and no other one changes; the description is the remote one from then on.
pub proof fn finished_answers_are_in_force(
    v: ConnectionView,
    d: DescriptionView,
    acts: Seq<ActionView>,
    q: int,
    x: int,
)
    requires
        d.sdp_type == SdpType::Answer || d.sdp_type == SdpType::Pranswer,
    ensures
        ({
            let p = matched(v.ts, d.media);
            let f = v.remote_finished(d, acts).v;
            &&& f.remote == Some(d)
            &&& f.ts.len() == v.ts.len()
            &&& 0 <= q < p.len() ==> is_same_transceiver(v.ts[p[q].0], f.ts[p[q].0]) && has_terms(
                f.ts[p[q].0],
                v.ts[p[q].0],
                d.media[p[q].1],
            )
            &&& 0 <= x < v.ts.len() && (forall|i: int| 0 <= i < p.len() ==> (#[trigger] p[i]).0
                != x) ==> f.ts[x] == v.ts[x]
            &&& f.next_id == v.next_id && f.local == v.local && f.media == v.media && f.rtp == v.rtp
        }),
{
    crate::applied::answers_reach_their_transceivers(
        v.step(acts),
        d.media,
        v.media,
        v.rtp,
        q,
        x,
    );
}

/// The end of a remote offer leaves no section without a transceiver of its kind and mid, which has
/// its direction.
pub proof fn finished_offers_are_in_force(
    v: ConnectionView,
    d: DescriptionView,
    acts: Seq<ActionView>,
    j: int,
)
    requires
        d.sdp_type == SdpType::Offer,
        0 <= j < d.media.len(),
    ensures
        ({
            let f = v.remote_finished(d, acts).v;
            &&& f.remote == Some(d)
            &&& exists|i: int| 0 <= i < f.ts.len() && is_offered(#[trigger] f.ts[i], d.media[j])
            &&& f.local == v.local && f.media == v.media && f.rtp == v.rtp && f.signaling
                == v.signaling
        }),
{
    crate::applied::offers_reach_transceivers(v.ts, v.next_id, acts, d.media, v.config, v.rtp, j);
    let f = v.remote_finished(d, acts).v;
    let a = crate::remote::offered(v.ts, v.next_id, acts, d.media, v.config, v.rtp);
    let i = choose|i: int| 0 <= i < a.ts.len() && is_offered(#[trigger] a.ts[i], d.media[j]);
    assert(is_offered(f.ts[i], d.media[j]));
}

/// An offered section goes to the first free transceiver of its kind with its mid; else the first
/// free one of its kind without a mid takes the mid over; a section without a mid goes to any of
/// its kind, and nothing else is taken for it.
pub proof fn offered_sections_find_their_transceiver(
    ts: Seq<TransceiverView>,
    used: Seq<bool>,
    s: SectionView,
    j: int,
)
    requires
        0 <= j < ts.len(),
        used.len() == ts.len(),
        !used[j],
        ts[j].kind == s.kind,
    ensures
        s.mid.len() > 0 && ts[j].mid == Some(s.mid) ==> (offer_owner(ts, used, s) matches Some(o)
            && !o.1 && o.0 <= j && ts[o.0].mid == Some(s.mid) && ts[o.0].kind == s.kind
            && !used[o.0]),
        ts[j].mid is None ==> (offer_owner(ts, used, s) matches Some(o) && ts[o.0].kind == s.kind
            && !used[o.0] && (ts[o.0].mid == Some(s.mid) || (ts[o.0].mid is None && o.1 && o.0
            <= j))),
        s.mid.len() == 0 ==> offer_owner(ts, used, s) is Some,
        offer_owner(ts, used, s) matches Some(o) ==> 0 <= o.0 < ts.len() && ts[o.0].kind == s.kind
            && !used[o.0] && (s.mid.len() > 0 ==> ts[o.0].mid is None || ts[o.0].mid == Some(
            s.mid,
        )) && (o.1 <==> ts[o.0].mid is None),
{
    free_facts(ts, used, kind_and_mid(s.kind, s.mid), 0);
    free_facts(ts, used, kind_without_mid(s.kind), 0);
    free_facts(ts, used, kind_is(s.kind), 0);
    assert(kind_is(s.kind)(ts[j]));
    assert(kind_without_mid(s.kind)(ts[j]) <==> ts[j].mid is None);
    assert(kind_and_mid(s.kind, s.mid)(ts[j]) <==> ts[j].mid == Some(s.mid));
    if let Some(o) = offer_owner(ts, used, s) {
        let t = ts[o.0];
        assert(kind_is(s.kind)(t) == (t.kind == s.kind));
        assert(kind_without_mid(s.kind)(t) == (t.kind == s.kind && t.mid is None));
        assert(kind_and_mid(s.kind, s.mid)(t) == (t.kind == s.kind && t.mid == Some(s.mid)));
    }
}

proof fn orphans_are_listed(ts: Seq<TransceiverView>, live: Seq<u64>, k: int, acc: Seq<u64>, id: u64)
    requires
        0 <= k,
    ensures
        orphans_from(ts, live, k, acc).contains(id) <==> acc.contains(id) || (!live.contains(id)
            && exists|i: int| k <= i < ts.len() && (#[trigger] ts[i]).id == id),
    decreases ts.len() - k,
{
    if k < ts.len() {
        let next = if live.contains(ts[k].id) {
            acc
        } else {
            acc.push(ts[k].id)
        };
        orphans_are_listed(ts, live, k + 1, next, id);
        assert(acc.push(ts[k].id).contains(id) <==> acc.contains(id) || id == ts[k].id) by {
            if acc.contains(id) {
                let j = acc.index_of(id);
                assert(acc.push(ts[k].id)[j] == id);
            }
            assert(acc.push(ts[k].id)[acc.len() as int] == ts[k].id);
        }
        if exists|i: int| k <= i < ts.len() && (#[trigger] ts[i]).id == id {
            let i = choose|i: int| k <= i < ts.len() && (#[trigger] ts[i]).id == id;
            if i > k {
                assert(k + 1 <= i < ts.len() && ts[i].id == id);
            }
        }
    }
}

/// A transceiver is left behind by a description exactly where no section is matched to one of its
/// identifier.
pub proof fn unmatched_transceivers_are_left_behind(
    ts: Seq<TransceiverView>,
    m: Seq<SectionView>,
    i: int,
)
    requires
        0 <= i < ts.len(),
    ensures
        orphans(ts, m).contains(ts[i].id) <==> forall|q: int|
            0 <= q < matched(ts, m).len() ==> ts[(#[trigger] matched(ts, m)[q]).0].id != ts[i].id,
{
    let p = matched(ts, m);
    let live = live_ids(ts, p);
    orphans_are_listed(ts, live, 0, Seq::empty(), ts[i].id);
    if live.contains(ts[i].id) {
        let q = live.index_of(ts[i].id);
        assert(ts[p[q].0].id == ts[i].id);
    } else {
        assert forall|q: int| 0 <= q < p.len() implies ts[(#[trigger] p[q]).0].id != ts[i].id by {
            assert(live[q] == ts[p[q].0].id);
        }
    }
}

/// A re-offer points a direct transport at once to the address of its first section: the primary
/// transport of SRTP, the direct connection of plain RTP. WebRTC leaves that to ICE.
pub proof fn reoffers_point_the_direct_transport(
    acts: Seq<ActionView>,
    d: DescriptionView,
    hosts: Seq<(Seq<char>, IpAddress)>,
    primary: Option<u64>,
    address: SocketAddress,
)
    requires
        d.media.len() > 0,
        section_address(d, d.media[0], hosts, false) == Some(address),
    ensures
        reinvite_address(acts, TransportMode::Rtp, d, hosts, primary) == acts.push(
            ActionView::CompleteDirect { address },
        ),
        primary matches Some(transport) ==> reinvite_address(
            acts,
            TransportMode::Srtp,
            d,
            hosts,
            primary,
        ) == acts.push(ActionView::SetRemoteAddress { transport, address }),
        reinvite_address(acts, TransportMode::WebRtc, d, hosts, primary) == acts,
{
}

/// A transceiver that the application adds comes last, under the next identifier. It wants the
/// direction that is given, has a receiver, no sender and no mid; one that is to send has the next
/// SSRC and the names reserved, which then are handed out to nobody else.
pub proof fn added_transceivers_are_reserved(
    v: ConnectionView,
    kind: MediaKind,
    direction: TransceiverDirection,
    ssrc_step: u32,
    stream_id: Seq<char>,
    track_id: Seq<char>,
)
    ensures
        ({
            let w = with_added(v, kind, direction, ssrc_step, stream_id, track_id);
            let t = w.ts.last();
            &&& w.ts.len() == v.ts.len() + 1
            &&& w.ts.drop_last() == v.ts
            &&& t.id == v.next_id && t.kind == kind && t.direction == direction && t.desired
                == direction
            &&& t.mid is None && t.sender is None
            &&& w.next_id == v.next_id.wrapping_add(1)
            &&& t.receiver matches Some(r) && r.kind == kind && r.ssrc == 0 && (r.nacks.len() > 0
                <==> v.config.nack_enabled(kind)) && r.shares_map && !r.track_event_sent
                && r.payload_map == Map::<u8, CodecView>::empty()
            &&& t.send_permitted
            &&& direction.spec_sends() ==> t.sender_ssrc == Some(v.next_ssrc) && t.sender_stream_id
                == Some(stream_id) && t.sender_track_id == Some(track_id) && w.next_ssrc
                == v.next_ssrc.wrapping_add(ssrc_step)
            &&& !direction.spec_sends() ==> t.sender_ssrc is None && t.sender_stream_id is None
                && t.sender_track_id is None && w.next_ssrc == v.next_ssrc
            &&& v.config.transport_mode == TransportMode::Rtp || kind == MediaKind::Application
                || kind == MediaKind::Image ==> t.transport is None
            &&& v.config.transport_mode != TransportMode::Rtp && (kind == MediaKind::Audio || kind
                == MediaKind::Video) ==> t.transport == v.rtp
            &&& w.config == v.config && w.signaling == v.signaling && w.local == v.local && w.remote
                == v.remote && w.media == v.media && w.channels == v.channels && w.next_mid
                == v.next_mid
        }),
{
    let w = with_added(v, kind, direction, ssrc_step, stream_id, track_id);
    assert(w.ts.drop_last() =~= v.ts);
}

/// The sender of a track has the SSRC, the names and the codec that are given and the configured
/// canonical name; it keeps as many packets as configured where its kind is recovered by NACK, else
/// none.
pub proof fn tracks_are_sent_as_configured(
    c: ConfigView,
    kind: MediaKind,
    ssrc: u32,
    track_id: Seq<char>,
    stream_id: Seq<char>,
    params: CodecView,
)
    ensures
        ({
            let p = track_plan(c, kind, ssrc, track_id, stream_id, params);
            &&& p.ssrc == ssrc && p.track_id == track_id && p.stream_id == stream_id && p.params
                == params && p.cname == c.cname
            &&& c.nack_enabled(kind) ==> p.nacks.len() == 1 && p.nacks[0] == c.nack_buffer_size
            &&& !c.nack_enabled(kind) ==> p.nacks.len() == 0
        }),
{
}

/// A new sender goes to the transport that its transceiver has of its own, else to the primary one;
/// plain RTP has none that is shared.
pub proof fn senders_start_on_their_transport(v: ConnectionView, id: u64, transport: u64)
    ensures
        transport_of(v.media, id) == Some(transport) ==> attach_target(v, id) == Some(transport),
        transport_of(v.media, id) is None && v.config.transport_mode != TransportMode::Rtp
            ==> attach_target(v, id) == v.rtp,
        transport_of(v.media, id) is None && v.config.transport_mode == TransportMode::Rtp
            ==> attach_target(v, id) is None,
{
}

/// A new connection is stable and has nothing: no description, no transceiver, no transport and no
/// channel. Its first SSRC is the configured one; only plain RTP has no fingerprint.
pub proof fn connections_start_with_nothing(c: ConfigView, fingerprint: Seq<char>)
    ensures
        ({
            let v = fresh_connection(c, fingerprint);
            &&& v.config == c && v.wf()
            &&& v.signaling == SignalingState::Stable && v.peer == PeerConnectionState::New && v.ice
                == IceConnectionState::New && v.gathering == IceGatheringState::New
            &&& v.local is None && v.remote is None && v.remote_fingerprint is None && v.role is None
                && v.reason is None
            &&& v.ts.len() == 0 && v.media.len() == 0 && v.media_ice.len() == 0 && v.channels.len()
                == 0 && v.observers.len() == 0
            &&& v.dtls is None && v.rtp is None && v.sctp is None
            &&& v.next_ssrc == c.ssrc_start && v.next_mid == 0 && v.next_id == 1
            &&& c.transport_mode == TransportMode::Rtp ==> v.fingerprint.len() == 0
            &&& c.transport_mode != TransportMode::Rtp ==> v.fingerprint == fingerprint
        }),
{
}

/// A local description that is taken is the local one from then on, moves the exchange on, and
/// leaves the remote one, the transports and the channels; a rollback and a description out of turn
/// are refused, and only an offer that is refused may have given mids out.
pub proof fn local_descriptions_are_taken(v: ConnectionView, d: DescriptionView, acts: Seq<ActionView>)
    ensures
        ({
            let x = v.local_set(d, acts);
            &&& x.1 is Ok ==> x.0.v.local == Some(d) && x.0.v.remote == v.remote
            &&& x.1 is Err ==> x.0.v.local == v.local && x.0.v.signaling == v.signaling
            &&& x.0.v.config == v.config && x.0.v.rtp == v.rtp && x.0.v.media == v.media
                && x.0.v.channels == v.channels && x.0.v.role == v.role && x.0.v.next_ssrc
                == v.next_ssrc
            &&& d.sdp_type == SdpType::Rollback ==> x.1 == Err::<(), _>(
                RtcErrorView::NotImplemented("rollback"@),
            ) && x.0.v == v && x.0.acts == acts
            &&& d.sdp_type == SdpType::Offer ==> (x.1 is Ok <==> v.signaling
                == SignalingState::Stable)
            &&& d.sdp_type == SdpType::Offer && x.1 is Ok ==> x.0.v.signaling
                == SignalingState::HaveLocalOffer
            &&& d.sdp_type == SdpType::Answer ==> (x.1 is Ok <==> v.signaling
                == SignalingState::HaveRemoteOffer)
            &&& d.sdp_type == SdpType::Answer && x.1 is Ok ==> x.0.v.signaling
                == SignalingState::Stable && x.0.acts == acts
            &&& d.sdp_type != SdpType::Offer && x.1 is Err ==> x.0.v == v && x.0.acts == acts
        }),
{
}

/// Writing a description changes transceivers, counters and gathering alone, and a direct
/// connection has gathered once a section but for fax was written.
pub proof fn descriptions_leave_the_rest(v: ConnectionView, plan: PlanView, w: WriteState, i: int)
    ensures
        ({
            let x = v.after_description(plan, w);
            &&& x.ts == w.ts && x.next_ssrc == w.next_ssrc && x.next_mid == w.next_mid
            &&& x.config == v.config && x.local == v.local && x.remote == v.remote && x.signaling
                == v.signaling && x.rtp == v.rtp && x.role == v.role && x.next_id == v.next_id
            &&& v.config.transport_mode == TransportMode::WebRtc ==> x.gathering == v.gathering
            &&& v.config.transport_mode != TransportMode::WebRtc && 0 <= i < plan.slots.len()
                && v.ts[plan.slots[i].index as int].kind != MediaKind::Image ==> x.gathering
                == IceGatheringState::Complete
            &&& (forall|j: int|
                0 <= j < plan.slots.len() ==> v.ts[(#[trigger] plan.slots[j]).index as int].kind
                    == MediaKind::Image) ==> x.gathering == v.gathering
        }),
{
    if 0 <= i < plan.slots.len() && v.ts[plan.slots[i].index as int].kind != MediaKind::Image
        && v.config.transport_mode != TransportMode::WebRtc {
        assert(v.gathers_directly(plan.slots));
    }
}

/// Before anything is described an offerer controls ICE, and not after.
pub proof fn first_offerers_control(v: ConnectionView)
    ensures
        v.controls() <==> v.local is None && v.remote is None,
{
}

/// A track takes the SSRC that its transceiver has reserved, else the next one.
pub proof fn tracks_take_reserved_streams(
    base: ConnectionView,
    i: int,
    kind: MediaKind,
    track_id: Seq<char>,
    stream_id: Seq<char>,
    params: CodecView,
    ssrc: u32,
)
    requires
        0 <= i < base.ts.len(),
    ensures
        base.ts[i].sender_ssrc == Some(ssrc) ==> track_plan_of(
            base,
            i,
            kind,
            track_id,
            stream_id,
            params,
        ).ssrc == ssrc,
        base.ts[i].sender_ssrc is None ==> track_plan_of(
            base,
            i,
            kind,
            track_id,
            stream_id,
            params,
        ).ssrc == base.next_ssrc,
        track_plan_of(base, i, kind, track_id, stream_id, params).track_id == track_id,
        track_plan_of(base, i, kind, track_id, stream_id, params).stream_id == stream_id,
        track_plan_of(base, i, kind, track_id, stream_id, params).params == params,
{
}

/// The streams of an answer are expected on the transport that the transceiver has of its own, else
/// on the primary one.
pub proof fn answers_are_expected_on_their_transport(
    m: Seq<(u64, u64)>,
    primary: Option<u64>,
    id: u64,
    transport: u64,
)
    ensures
        transport_of(m, id) == Some(transport) ==> transport_for(m, primary, id) == Some(transport),
        transport_of(m, id) is None ==> transport_for(m, primary, id) == primary,
{
}

/// A track waits for the first transceiver of its kind that was offered and has no sender.
pub proof fn tracks_wait_for_offered_transceivers(v: ConnectionView, kind: MediaKind, i: int)
    requires
        0 <= i < v.ts.len(),
        v.ts[i].kind == kind,
        v.ts[i].mid is Some,
        v.ts[i].sender is None,
        forall|j: int|
            0 <= j < i && (#[trigger] v.ts[j]).kind == kind ==> v.ts[j].mid is None
                || v.ts[j].sender is Some,
    ensures
        first(v.ts, awaits_track(kind)) == Some(i),
        first(v.ts.take(i), awaits_track(kind)) is None,
{
    let p = awaits_track(kind);
    crate::search::first_from_facts(v.ts, p, 0);
    assert(p(v.ts[i]));
    let a = first(v.ts, p)->0;
    assert(p(v.ts[a]));
    assert(a == i);
    let t = v.ts.take(i);
    crate::search::first_from_facts(t, p, 0);
    if let Some(b) = first(t, p) {
        assert(p(t[b]));
        assert(t[b] == v.ts[b]);
    }
}

/// A remote answer settles who sends: a transceiver of both descriptions sends exactly where our
/// section sends and theirs receives. A remote offer settles nothing yet.
pub proof fn answers_settle_who_sends(
    v: ConnectionView,
    d: DescriptionView,
    hosts: Seq<(Seq<char>, IpAddress)>,
    acts: Seq<ActionView>,
    l: DescriptionView,
    q: int,
    j: int,
)
    requires
        v.remote_begun(d, hosts, acts).1 matches Ok(RemoteStartView::Start(_, _)),
        v.local == Some(l),
    ensures
        ({
            let a = v.remote_begun(d, hosts, acts).0;
            let b = a.v.remote_finished(d, a.acts).v;
            let x = v.remote_set(d, hosts, acts).v;
            let theirs = matched(b.ts, d.media);
            let ours = matched(b.ts, l.media);
            &&& d.sdp_type == SdpType::Offer ==> x == b
            &&& d.sdp_type == SdpType::Answer && 0 <= q < theirs.len() && 0 <= j < ours.len()
                && ours[j].0 == theirs[q].0 ==> x.ts[theirs[q].0].send_permitted == (
            l.media[ours[j].1].direction.spec_sends()
                && d.media[theirs[q].1].direction.spec_receives())
        }),
{
    let a = v.remote_begun(d, hosts, acts).0;
    let b = a.v.remote_finished(d, a.acts).v;
    let theirs = matched(b.ts, d.media);
    let ours = matched(b.ts, l.media);
    assert(b.local == Some(l) && b.remote == Some(d));
    if d.sdp_type == SdpType::Answer && 0 <= q < theirs.len() && 0 <= j < ours.len() && ours[j].0
        == theirs[q].0 {
        let p = crate::local::of_transceiver(theirs[q].0);
        crate::search::first_from_facts(ours, p, 0);
        assert(p(ours[j]));
        let k = first(ours, p)->0;
        assert(p(ours[k]));
        crate::matching::matching_is_one_to_one(b.ts, l.media);
        assert(k == j) by {
            if k < j {
                assert(ours[k].0 != ours[j].0);
            }
        }
        crate::local::sending_follows_both_descriptions(b.ts, l.media, d.media, q);
    }
}

/// A sender that was just made may send, is on no transport and has sent nothing.
pub proof fn new_senders_have_sent_nothing(s: SenderView, p: SenderPlan)
    requires
        is_fresh_sender(s, p),
    ensures
        s.packets_sent == 0 && s.octets_sent == 0 && s.last_timestamp == 0,
        s.send_enabled && s.transport is None && s.sdes_mid is None,
        s.ssrc == p.ssrc && s.track_id == p.track_id && s.stream_id == p.stream_id && s.params
            == p.params,
        p.cname matches Some(c) ==> s.cname == c,
        p.cname is None ==> s.cname == "rustrtc-cname-"@ + crate::text::decimal(s.ssrc as nat),
        s.nacks.len() == p.nacks.len(),
        p.nacks.len() > 0 ==> s.nacks[0].buffer.order.len() == 0 && s.nacks[0].rtx_config is None
            && (p.nacks[0] > 0 ==> s.nacks[0].max_size == p.nacks[0]),
{
    if p.nacks.len() > 0 {
        assert(crate::sender::is_fresh_nack(s.nacks[0], p.nacks[0]));
    }
}

} // verus!
