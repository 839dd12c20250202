//! What the sections of an offer or answer say.

use super::offering::PlanView;
use super::ConnectionView;
use crate::action::ActionView;
use crate::config::AudioView;
use crate::config::SdpCompatibilityMode;
use crate::config::TransportMode;
use crate::describe::CandidateView;
use crate::describe::InputView;
use crate::describe::WriteState;
use crate::sdp::MediaKind;
use crate::sdp::SdpType;
use crate::text::decimal;
use crate::written::audio_rtpmap;
use crate::written::describes_video;
use crate::written::is_answered;
use crate::written::is_for_media;
use crate::written::sections_come_from_their_slots;
use crate::written::values;
use vstd::prelude::*;

verus! {

/// Every slot of a plan is that of a transceiver.
pub open spec fn in_range(v: ConnectionView, plan: PlanView) -> bool {
    forall|i: int| 0 <= i < plan.slots.len() ==> (#[trigger] plan.slots[i]).index < v.ts.len()
}

/// Where writing stands when section `k` of a description is written.
proof fn writing_of(
    v: ConnectionView,
    plan: PlanView,
    ins: Seq<InputView>,
    now: u64,
    local_ip: Option<Seq<char>>,
    acts: Seq<ActionView>,
    k: int,
) -> (at: WriteState)
    requires
        in_range(v, plan),
        0 <= k < plan.slots.len(),
    ensures
        ({
            let d = v.description_of(plan, ins, now, local_ip, acts).0;
            let x = v.writing(plan.sdp_type, local_ip);
            let step = crate::describe::slot_step(at, plan.slots[k], x, ins[k]);
            let s = step.media.last();
            let i = plan.slots[k].index as int;
            let a = v.ts[i];
            let b = at.ts[i];
            &&& d.media.len() == plan.slots.len()
            &&& at.ts.len() == v.ts.len()
            &&& d.media[k] == (crate::sdp::SectionView { mid: d.media[k].mid, ..s })
            &&& step.session.connection is Some ==> d.session.connection == step.session.connection
            &&& b.kind == a.kind
            &&& b.desired == a.desired
            &&& a.mid is Some ==> b.mid == a.mid
            &&& b.sender_ssrc == a.sender_ssrc
            &&& b.sender_stream_id == a.sender_stream_id
            &&& b.sender_track_id == a.sender_track_id
            &&& b.sender is None <==> a.sender is None
            &&& a.sender matches Some(y) ==> b.sender->0.ssrc == y.ssrc && b.sender->0.cname
                == y.cname && b.sender->0.stream_id == y.stream_id && b.sender->0.track_id
                == y.track_id
        }),
{
    let x = v.writing(plan.sdp_type, local_ip);
    sections_come_from_their_slots(v.blank(now, local_ip, acts), plan.slots, x, ins, 0, k)
}

/// A description says how we are reached. Where ICE runs, each section but a fax one has the
/// username fragment, the password and the candidates of its local transport. Without ICE it has
/// the port of the candidate for media and, in its own connection line or in that of the session,
/// its host.
pub proof fn descriptions_say_how_to_reach_us(
    v: ConnectionView,
    plan: PlanView,
    ins: Seq<InputView>,
    now: u64,
    local_ip: Option<Seq<char>>,
    acts: Seq<ActionView>,
    k: int,
    c: int,
)
    requires
        in_range(v, plan),
        0 <= k < plan.slots.len(),
    ensures
        ({
            let d = v.description_of(plan, ins, now, local_ip, acts).0;
            let s = d.media[k];
            let t = ins[k].transport;
            let mode = v.config.transport_mode;
            let fax = v.ts[plan.slots[k].index as int].kind == MediaKind::Image;
            &&& mode == TransportMode::WebRtc || (mode == TransportMode::Rtp
                && v.config.enable_ice_lite && !fax) ==> {
                &&& values(s.attributes, "ice-ufrag"@) == seq![Some(t.ufrag)]
                &&& values(s.attributes, "ice-pwd"@) == seq![Some(t.pwd)]
                &&& values(s.attributes, "candidate"@) == t.candidates.map_values(
                    |y: CandidateView| Some(y.line),
                )
                &&& values(s.attributes, "end-of-candidates"@).len() == (if t.complete {
                    1nat
                } else {
                    0nat
                })
            }
            &&& mode != TransportMode::WebRtc && !fax && is_for_media(t.candidates, c) ==> {
                &&& s.port == t.candidates[c].port
                &&& (match s.connection {
                    Some(l) => Some(l),
                    None => d.session.connection,
                }) == Some("IN IP4 "@ + t.candidates[c].ip)
            }
        }),
{
    let at = writing_of(v, plan, ins, now, local_ip, acts, k);
    let x = v.writing(plan.sdp_type, local_ip);
    let mode = v.config.transport_mode;
    let fax = v.ts[plan.slots[k].index as int].kind == MediaKind::Image;
    if mode == TransportMode::WebRtc || (mode == TransportMode::Rtp && v.config.enable_ice_lite
        && !fax) {
        crate::written::sections_say_how_to_reach_us(at, plan.slots[k], x, ins[k]);
    }
    if mode != TransportMode::WebRtc && !fax && is_for_media(ins[k].transport.candidates, c) {
        crate::written::direct_sections_say_where_we_are(at, plan.slots[k], x, ins[k], c);
    }
}

/// A description with DTLS states the fingerprint of our certificate and our role in every
/// section; one without states neither.
pub proof fn descriptions_say_who_we_are(
    v: ConnectionView,
    plan: PlanView,
    ins: Seq<InputView>,
    now: u64,
    local_ip: Option<Seq<char>>,
    acts: Seq<ActionView>,
    k: int,
)
    requires
        in_range(v, plan),
        0 <= k < plan.slots.len(),
    ensures
        ({
            let a = v.description_of(plan, ins, now, local_ip, acts).0.media[k].attributes;
            let web = v.config.transport_mode == TransportMode::WebRtc;
            &&& web ==> values(a, "fingerprint"@) == seq![Some("sha-256 "@ + v.fingerprint)]
            &&& web && plan.sdp_type == SdpType::Offer ==> values(a, "setup"@) == seq![
                Some("actpass"@),
            ]
            &&& web && plan.sdp_type == SdpType::Answer && v.role == Some(false) ==> values(
                a,
                "setup"@,
            ) == seq![Some("passive"@)]
            &&& web && plan.sdp_type == SdpType::Answer && v.role != Some(false) ==> values(
                a,
                "setup"@,
            ) == seq![Some("active"@)]
            &&& !web ==> values(a, "fingerprint"@).len() == 0 && values(a, "setup"@).len() == 0
        }),
{
    let at = writing_of(v, plan, ins, now, local_ip, acts, k);
    crate::written::sections_say_who_we_are(
        at,
        plan.slots[k],
        v.writing(plan.sdp_type, local_ip),
        ins[k],
    );
}

/// A section that sends names the stream of its transceiver's sender, or the one that is reserved;
/// a section that does not send names none.
pub proof fn descriptions_name_what_they_send(
    v: ConnectionView,
    plan: PlanView,
    ins: Seq<InputView>,
    now: u64,
    local_ip: Option<Seq<char>>,
    acts: Seq<ActionView>,
    k: int,
    cname: Seq<char>,
    stream_id: Seq<char>,
    track_id: Seq<char>,
    ssrc: u32,
)
    requires
        in_range(v, plan),
        0 <= k < plan.slots.len(),
        match v.ts[plan.slots[k].index as int].sender {
            Some(s) => s.ssrc == ssrc && s.cname == cname && s.stream_id == stream_id && s.track_id
                == track_id,
            None => v.ts[plan.slots[k].index as int].sender_ssrc == Some(ssrc)
                && v.ts[plan.slots[k].index as int].sender_stream_id == Some(stream_id)
                && v.ts[plan.slots[k].index as int].sender_track_id == Some(track_id) && cname == (
            match v.config.cname {
                Some(c) => c,
                None => ins[k].fresh.cname,
            }),
        },
    ensures
        ({
            let s = v.description_of(plan, ins, now, local_ip, acts).0.media[k];
            let web = v.config.transport_mode == TransportMode::WebRtc;
            let p = decimal(ssrc as nat);
            let names = stream_id + " "@ + track_id;
            let l = values(s.attributes, "ssrc"@);
            &&& !s.direction.spec_sends() ==> l.len() == 0 && values(s.attributes, "msid"@).len()
                == 0
            &&& s.direction.spec_sends() ==> {
                &&& l.len() > 0 && l[0] == Some(p + " cname:"@ + cname)
                &&& web ==> l.len() > 1 && l[1] == Some(p + " msid:"@ + names)
                &&& web ==> values(s.attributes, "msid"@) == seq![Some(names)]
            }
        }),
{
    let at = writing_of(v, plan, ins, now, local_ip, acts, k);
    crate::written::sections_name_what_they_send(
        at,
        plan.slots[k],
        v.writing(plan.sdp_type, local_ip),
        ins[k],
        cname,
        stream_id,
        track_id,
        ssrc,
    );
}

/// A description names the protocol of each section, and says where its RTCP goes.
pub proof fn descriptions_name_their_transport(
    v: ConnectionView,
    plan: PlanView,
    ins: Seq<InputView>,
    now: u64,
    local_ip: Option<Seq<char>>,
    acts: Seq<ActionView>,
    k: int,
)
    requires
        in_range(v, plan),
        0 <= k < plan.slots.len(),
    ensures
        ({
            let s = v.description_of(plan, ins, now, local_ip, acts).0.media[k];
            let kind = v.ts[plan.slots[k].index as int].kind;
            let media = kind == MediaKind::Audio || kind == MediaKind::Video;
            let mode = v.config.transport_mode;
            let muxes = v.config.rtcp_mux_policy is Require && v.config.sdp_compatibility
                != SdpCompatibilityMode::LegacySip && (plan.sdp_type != SdpType::Answer
                || plan.slots[k].muxed);
            &&& s.kind == kind
            &&& media && mode == TransportMode::Rtp ==> s.protocol == "RTP/AVP"@
            &&& media && mode == TransportMode::Srtp ==> s.protocol == "RTP/SAVP"@
            &&& media && mode == TransportMode::WebRtc ==> s.protocol == "UDP/TLS/RTP/SAVPF"@
            &&& kind == MediaKind::Application ==> s.protocol == "UDP/DTLS/SCTP"@
            &&& kind == MediaKind::Image ==> s.protocol == "udptl"@
            &&& media ==> values(s.attributes, "rtcp-mux"@).len() == (if muxes {
                1nat
            } else {
                0nat
            })
            &&& media ==> values(s.attributes, "rtcp"@) == (if mode == TransportMode::Rtp && !muxes
                && ins[k].transport.rtcp_port is Some {
                seq![Some(decimal(ins[k].transport.rtcp_port->0 as nat))]
            } else {
                seq![]
            })
        }),
{
    let at = writing_of(v, plan, ins, now, local_ip, acts, k);
    let x = v.writing(plan.sdp_type, local_ip);
    let kind = v.ts[plan.slots[k].index as int].kind;
    crate::describe::written_direction(at, plan.slots[k], x, ins[k]);
    crate::written::sections_name_their_protocol(at, plan.slots[k], x, ins[k]);
    if kind == MediaKind::Audio || kind == MediaKind::Video {
        crate::written::sections_say_where_rtcp_goes(at, plan.slots[k], x, ins[k]);
    }
}

/// A description describes our codecs: an audio section lists each of them in order, a video
/// section of an offer has the lines of each, and a data section names the SCTP port.
pub proof fn descriptions_describe_our_codecs(
    v: ConnectionView,
    plan: PlanView,
    ins: Seq<InputView>,
    now: u64,
    local_ip: Option<Seq<char>>,
    acts: Seq<ActionView>,
    k: int,
    i: int,
    j: int,
)
    requires
        in_range(v, plan),
        0 <= k < plan.slots.len(),
        plan.sdp_type == SdpType::Offer || v.local is None,
    ensures
        ({
            let s = v.description_of(plan, ins, now, local_ip, acts).0.media[k];
            let audio = v.config.audio_codecs();
            let video = v.config.video_codecs();
            &&& s.kind == MediaKind::Audio ==> s.formats == audio.map_values(
                |y: AudioView| decimal(y.payload_type as nat),
            ) && values(s.attributes, "rtpmap"@) == audio.map_values(
                |y: AudioView| Some(audio_rtpmap(y)),
            )
            &&& s.kind == MediaKind::Video && plan.sdp_type == SdpType::Offer && 0 <= i
                < video.len() ==> describes_video(s, video[i], j)
            &&& s.kind == MediaKind::Application ==> values(s.attributes, "sctp-port"@) == seq![
                Some(decimal(v.config.sctp_port() as nat)),
            ]
        }),
{
    let at = writing_of(v, plan, ins, now, local_ip, acts, k);
    let x = v.writing(plan.sdp_type, local_ip);
    let slot = plan.slots[k];
    let kind = v.ts[slot.index as int].kind;
    crate::describe::written_direction(at, slot, x, ins[k]);
    if kind == MediaKind::Audio {
        let c = crate::written::audio_sections_list_their_codecs(at, slot, x, ins[k]);
        assert(c == v.config.audio_codecs());
    }
    if kind == MediaKind::Video && plan.sdp_type == SdpType::Offer && 0 <= i
        < v.config.video_codecs().len() {
        crate::written::video_offers_describe_our_codecs(at, slot, x, ins[k], i, j);
    }
    if kind == MediaKind::Application {
        crate::written::data_sections_name_the_port(at, slot, x, ins[k]);
    }
}

/// The audio section that answers a re-offer has formats of the section that it answers, and no
/// others, in the order of the offer, and names under each what was offered under it.
pub proof fn reanswers_take_offered_formats(
    v: ConnectionView,
    plan: PlanView,
    ins: Seq<InputView>,
    now: u64,
    local_ip: Option<Seq<char>>,
    acts: Seq<ActionView>,
    k: int,
    m: int,
) -> (at: Seq<int>)
    requires
        in_range(v, plan),
        0 <= k < plan.slots.len(),
        plan.sdp_type == SdpType::Answer,
        v.local is Some,
        v.ts[plan.slots[k].index as int].kind == MediaKind::Audio,
        v.ts[plan.slots[k].index as int].mid is Some,
        v.remote is Some,
        0 <= m < v.remote->0.media.len(),
        is_answered(v.remote->0, v.ts[plan.slots[k].index as int].mid->0, m),
        crate::capability::audio_answer(v.remote->0.media[m], v.config.audio_codecs()).len() > 0,
    ensures
        ({
            let s = v.description_of(plan, ins, now, local_ip, acts).0.media[k];
            let o = v.remote->0.media[m];
            &&& at.len() == s.formats.len()
            &&& forall|i: int|
                0 <= i < at.len() ==> 0 <= #[trigger] at[i] < o.formats.len() && {
                    let n = crate::text::number(o.formats[at[i]], 255);
                    &&& n is Some
                    &&& s.formats[i] == decimal(n->0)
                    &&& crate::codec::payload_map_of(o).contains_key(n->0 as u8)
                }
            &&& forall|i: int, j: int| 0 <= i < j < at.len() ==> #[trigger] at[i] < #[trigger] at[j]
        }),
{
    let w = writing_of(v, plan, ins, now, local_ip, acts, k);
    let x = v.writing(plan.sdp_type, local_ip);
    let slot = plan.slots[k];
    let c = crate::written::audio_sections_list_their_codecs(w, slot, x, ins[k]);
    let ours = v.config.audio_codecs();
    let o = v.remote->0.media[m];
    crate::describe::written_mid(w, slot, x, ins[k]);
    let s = crate::describe::slot_step(w, slot, x, ins[k]).media.last();
    assert(s.mid == v.ts[slot.index as int].mid->0);
    assert(c == crate::capability::audio_answer(o, ours));
    let at = crate::capability::answers_take_offered_codecs(o, ours);
    assert forall|i: int| 0 <= i < at.len() implies 0 <= #[trigger] at[i] < o.formats.len() && {
        let n = crate::text::number(o.formats[at[i]], 255);
        &&& n is Some
        &&& s.formats[i] == decimal(n->0)
        &&& crate::codec::payload_map_of(o).contains_key(n->0 as u8)
    } by {
        assert(crate::capability::answers_format(o, ours, c[i], at[i]));
    }
    at
}

} // verus!
