//! How a local description is written.

use crate::action::actions;
use crate::action::Action;
use crate::action::ActionView;
use crate::address::has_bundle;
use crate::address::sdp_has_bundle;
use crate::apt::apt_map;
use crate::apt::extract_rtx_apt_map_from_attrs;
use crate::apt::primary_rtx;
use crate::apt::primary_rtx_payload_type;
use crate::apt::rtx_from;
use crate::apt::rtx_pt_for_primary;
use crate::apt::section_has_rtx;
use crate::capability::populate_media_capabilities;
use crate::capability::populated;
use crate::capability::SectionTerms;
use crate::config::ConfigView;
use crate::config::RtcConfiguration;
use crate::config::SdpCompatibilityMode;
use crate::config::TransportMode;
use crate::direction::attribute_of;
use crate::direction::transceiver_of;
use crate::direction::Direction;
use crate::direction::TransceiverDirection;
use crate::error::RtcError;
use crate::error::RtcErrorView;
use crate::error::RtcResult;
use crate::local::all_wf;
use crate::local::give_mid;
use crate::local::mid_step;
use crate::matching::find_by_kind;
use crate::matching::find_by_mid;
use crate::matching::free;
use crate::matching::kind_is;
use crate::matching::mid_is;
use crate::matching::none_used;
use crate::matching::unused;
use crate::negotiate::Step;
use crate::order::indices;
use crate::order::order_by_mid;
use crate::order::ordered;
use crate::rtx::RtxSenderConfig;
use crate::sdes::choose_crypto_terms;
use crate::sdes::crypto_line;
use crate::sdes::crypto_terms;
use crate::sdes::crypto_value;
use crate::sdp::attr;
use crate::sdp::attrs;
use crate::sdp::blank_origin;
use crate::sdp::description_opt;
use crate::sdp::drop_keys;
use crate::sdp::find_key;
use crate::sdp::find_section_with_mid;
use crate::sdp::flag;
use crate::sdp::fresh_section;
use crate::sdp::has_key;
use crate::sdp::keyed;
use crate::sdp::not_keyed;
use crate::sdp::push_attr;
use crate::sdp::push_flag;
use crate::sdp::sections;
use crate::sdp::with_mid;
use crate::sdp::without_keys;
use crate::sdp::Attribute;
use crate::sdp::AttributeView;
use crate::sdp::DescriptionView;
use crate::sdp::MediaKind;
use crate::sdp::MediaSection;
use crate::sdp::Origin;
use crate::sdp::OriginView;
use crate::sdp::SdpType;
use crate::sdp::SectionView;
use crate::sdp::SessionDescription;
use crate::sdp::SessionSection;
use crate::sdp::SessionView;
use crate::search::first;
use crate::search::first_from;
use crate::text::decimal;
use crate::text::decimal_text;
use crate::text::joined;
use crate::text::same_text_opt;
use crate::text::text_opt;
use crate::transceiver::transceivers;
use crate::transceiver::RtpTransceiver;
use crate::transceiver::TransceiverView;
use vstd::prelude::*;

verus! {

/// A local candidate.
#[derive(Debug)]
pub struct Candidate {
    /// The candidate as a candidate line writes it.
    pub line: String,
    /// The component: 1 for RTP.
    pub component: u16,
    /// The address as a connection line writes it.
    pub ip: String,
    pub port: u16,
    pub loopback: bool,
}

/// The model of a local candidate.
pub struct CandidateView {
    pub line: Seq<char>,
    pub component: u16,
    pub ip: Seq<char>,
    pub port: u16,
    pub loopback: bool,
}

impl View for Candidate {
    type V = CandidateView;

    open spec fn view(&self) -> CandidateView {
        CandidateView {
            line: self.line@,
            component: self.component,
            ip: self.ip@,
            port: self.port,
            loopback: self.loopback,
        }
    }
}

/// The model of a list of candidates.
pub open spec fn candidates(v: Seq<Candidate>) -> Seq<CandidateView> {
    v.map_values(|c: Candidate| c@)
}

/// What is known of the local transport of a section when it is written.
#[derive(Debug)]
pub struct LocalTransport {
    pub ufrag: String,
    pub pwd: String,
    pub candidates: Vec<Candidate>,
    /// Candidate gathering is complete.
    pub complete: bool,
    /// The port of a socket for RTCP, where there is one.
    pub rtcp_port: Option<u16>,
    /// The port of the fax transport.
    pub fax_port: u16,
}

/// The model of a local transport.
pub struct LocalTransportView {
    pub ufrag: Seq<char>,
    pub pwd: Seq<char>,
    pub candidates: Seq<CandidateView>,
    pub complete: bool,
    pub rtcp_port: Option<u16>,
    pub fax_port: u16,
}

impl View for LocalTransport {
    type V = LocalTransportView;

    open spec fn view(&self) -> LocalTransportView {
        LocalTransportView {
            ufrag: self.ufrag@,
            pwd: self.pwd@,
            candidates: candidates(self.candidates@),
            complete: self.complete,
            rtcp_port: self.rtcp_port,
            fax_port: self.fax_port,
        }
    }
}

/// What is random in a section.
#[derive(Debug)]
pub struct Fresh {
    pub cname: String,
    pub stream_id: String,
    pub track_id: String,
    /// The SDES key parameters.
    pub key_params: String,
}

/// The model of what is random in a section.
pub struct FreshView {
    pub cname: Seq<char>,
    pub stream_id: Seq<char>,
    pub track_id: Seq<char>,
    pub key_params: Seq<char>,
}

impl View for Fresh {
    type V = FreshView;

    open spec fn view(&self) -> FreshView {
        FreshView {
            cname: self.cname@,
            stream_id: self.stream_id@,
            track_id: self.track_id@,
            key_params: self.key_params@,
        }
    }
}

/// What is known of a section that is to be written.
#[derive(Debug)]
pub struct SectionInput {
    pub transport: LocalTransport,
    pub fresh: Fresh,
}

/// The model of what is known of a section.
pub struct InputView {
    pub transport: LocalTransportView,
    pub fresh: FreshView,
}

impl View for SectionInput {
    type V = InputView;

    open spec fn view(&self) -> InputView {
        InputView { transport: self.transport@, fresh: self.fresh@ }
    }
}

/// The model of what is known of the sections.
pub open spec fn inputs(v: Seq<SectionInput>) -> Seq<InputView> {
    v.map_values(|i: SectionInput| i@)
}

/// A section that is to be written.
#[derive(Clone, Copy, Debug)]
pub struct Slot {
    /// The transceiver.
    pub index: usize,
    /// The section that is answered shares a port between RTP and RTCP.
    pub muxed: bool,
    /// The direction of the section that is answered.
    pub offered: Option<TransceiverDirection>,
}

/// The sections that are to be written.
#[derive(Debug)]
pub struct DescriptionPlan {
    pub sdp_type: SdpType,
    pub slots: Vec<Slot>,
    /// All sections share a transport.
    pub bundle: bool,
}

/// The transceiver that answers an offered section: by mid, and for a section without a mid by
/// kind.
pub open spec fn answer_owner(
    ts: Seq<TransceiverView>,
    used: Seq<bool>,
    s: SectionView,
) -> Option<int> {
    if s.mid.len() > 0 {
        free(ts, used, mid_is(s.mid))
    } else {
        free(ts, used, kind_is(s.kind))
    }
}

/// The sections of an answer from index `k` on, or the mid that no transceiver answers.
pub open spec fn answer_slots_from(
    ts: Seq<TransceiverView>,
    m: Seq<SectionView>,
    k: int,
    used: Seq<bool>,
    acc: Seq<Slot>,
) -> Result<Seq<Slot>, RtcErrorView>
    decreases m.len() - k,
{
    if k < 0 || k >= m.len() {
        Ok(acc)
    } else {
        match answer_owner(ts, used, m[k]) {
            Some(i) => answer_slots_from(
                ts,
                m,
                k + 1,
                used.update(i, true),
                acc.push(
                    Slot {
                        index: i as usize,
                        muxed: has_key(m[k].attributes, "rtcp-mux"@),
                        offered: Some(transceiver_of(m[k].direction)),
                    },
                ),
            ),
            None => Err(
                RtcErrorView::Internal(
                    "No transceiver found for mid "@ + m[k].mid + " in answer generation"@,
                ),
            ),
        }
    }
}

/// The sections of an offer: the transceivers in the order of their mids.
pub open spec fn offer_slots(ts: Seq<TransceiverView>) -> Seq<Slot> {
    Seq::new(
        ordered(ts, ts.len() as int).len(),
        |i: int|
            Slot {
                index: ordered(ts, ts.len() as int)[i] as usize,
                muxed: false,
                offered: None,
            },
    )
}

/// Transceivers, the next mid and the actions so far.
#[verifier::ext_equal]
pub struct MidState {
    pub ts: Seq<TransceiverView>,
    pub next: u16,
    pub acts: Seq<ActionView>,
}

/// A transceiver without a mid gets the next one.
pub open spec fn ensure_mid(st: MidState, i: int) -> MidState {
    if st.ts[i].mid is Some {
        st
    } else {
        let x = mid_step(Step { t: st.ts[i], acts: st.acts }, decimal(st.next as nat));
        MidState {
            ts: st.ts.update(i, x.t),
            next: st.next.wrapping_add(1),
            acts: x.acts,
        }
    }
}

/// The transceivers from index `k` on get mids.
pub open spec fn ensure_mids_from(st: MidState, k: int) -> MidState
    decreases st.ts.len() - k,
{
    if k < 0 || k >= st.ts.len() {
        st
    } else {
        ensure_mids_from(ensure_mid(st, k), k + 1)
    }
}

/// Gives a transceiver without a mid the next one.
pub fn assign_mid(
    ts: &mut Vec<RtpTransceiver>,
    next: &mut u16,
    i: usize,
    list: &mut Vec<Action>,
)
    requires
        i < old(ts)@.len(),
        all_wf(transceivers(old(ts)@)),
    ensures
        final(ts)@.len() == old(ts)@.len(),
        all_wf(transceivers(final(ts)@)),
        (MidState {
            ts: transceivers(final(ts)@),
            next: *final(next),
            acts: actions(final(list)@),
        }) == ensure_mid(
            (MidState {
                ts: transceivers(old(ts)@),
                next: *old(next),
                acts: actions(old(list)@),
            }),
            i as int,
        ),
{
    let ghost st = MidState { ts: transceivers(ts@), next: *next, acts: actions(list@) };
    assert(st.ts[i as int] == ts@[i as int]@);
    if ts[i].mid_ref().is_none() {
        let mid = decimal_text(*next as u64);
        *next = next.wrapping_add(1);
        give_mid(&mut ts[i], mid.as_str(), list);
        assert(transceivers(ts@) =~= ensure_mid(st, i as int).ts);
    }
}

/// Gives all transceivers without a mid one.
pub fn assign_mids(ts: &mut Vec<RtpTransceiver>, next: &mut u16, list: &mut Vec<Action>)
    requires
        all_wf(transceivers(old(ts)@)),
    ensures
        final(ts)@.len() == old(ts)@.len(),
        all_wf(transceivers(final(ts)@)),
        (MidState {
            ts: transceivers(final(ts)@),
            next: *final(next),
            acts: actions(final(list)@),
        }) == ensure_mids_from(
            (MidState {
                ts: transceivers(old(ts)@),
                next: *old(next),
                acts: actions(old(list)@),
            }),
            0,
        ),
{
    let ghost start = MidState { ts: transceivers(ts@), next: *next, acts: actions(list@) };
    let n: usize = ts.len();
    let mut k: usize = 0;
    while k < n
        invariant
            k <= n,
            n == ts@.len(),
            all_wf(transceivers(ts@)),
            ensure_mids_from(start, 0) == ensure_mids_from(
                (MidState { ts: transceivers(ts@), next: *next, acts: actions(list@) }),
                k as int,
            ),
        decreases n - k,
    {
        assign_mid(ts, next, k, list);
        k += 1;
    }
}

/// The model of the sections of an answer.
pub open spec fn slots_result(r: RtcResult<Vec<Slot>>) -> Result<Seq<Slot>, RtcErrorView> {
    match r {
        Ok(v) => Ok(v@),
        Err(e) => Err(e@),
    }
}

/// Finds the transceivers that answer the offered sections.
pub fn plan_answer(ts: &Vec<RtpTransceiver>, remote: &SessionDescription) -> (r: RtcResult<
    Vec<Slot>,
>)
    ensures
        slots_result(r) == answer_slots_from(
            transceivers(ts@),
            remote@.media,
            0,
            none_used(ts@.len()),
            Seq::empty(),
        ),
        r matches Ok(v) ==> forall|i: int|
            0 <= i < v@.len() ==> (#[trigger] v@[i]).index < ts@.len(),
{
    let ghost t = transceivers(ts@);
    let ghost m = remote@.media;
    let mut used = unused(ts.len());
    let mut out: Vec<Slot> = Vec::new();
    let mut k: usize = 0;
    while k < remote.media_sections.len()
        invariant
            k <= remote.media_sections@.len(),
            t == transceivers(ts@),
            m == remote@.media,
            used@.len() == ts@.len(),
            forall|i: int| 0 <= i < out@.len() ==> (#[trigger] out@[i]).index < ts@.len(),
            answer_slots_from(t, m, 0, none_used(ts@.len()), Seq::empty()) == answer_slots_from(
                t,
                m,
                k as int,
                used@,
                out@,
            ),
        decreases remote.media_sections@.len() - k,
    {
        let s = &remote.media_sections[k];
        assert(m[k as int] == s@);
        let found = if s.mid.as_str().is_empty() {
            find_by_kind(ts, &used, s.kind)
        } else {
            find_by_mid(ts, &used, s.mid.as_str())
        };
        match found {
            Some(i) => {
                used.set(i, true);
                out.push(
                    Slot {
                        index: i,
                        muxed: s.has("rtcp-mux"),
                        offered: Some(TransceiverDirection::from(s.direction)),
                    },
                );
            },
            None => {
                return Err(
                    RtcError::Internal(
                        joined(
                            joined("No transceiver found for mid ", s.mid.as_str()).as_str(),
                            " in answer generation",
                        ),
                    ),
                );
            },
        }
        k += 1;
    }
    Ok(out)
}

/// Puts the transceivers in the order of an offer.
pub fn plan_offer(ts: &Vec<RtpTransceiver>) -> (r: Vec<Slot>)
    ensures
        r@ == offer_slots(transceivers(ts@)),
        forall|i: int| 0 <= i < r@.len() ==> (#[trigger] r@[i]).index < ts@.len(),
{
    let ghost t = transceivers(ts@);
    let order = order_by_mid(ts);
    let ghost o = ordered(t, t.len() as int);
    let mut out: Vec<Slot> = Vec::new();
    let mut i: usize = 0;
    while i < order.len()
        invariant
            i <= order@.len(),
            t == transceivers(ts@),
            o == ordered(t, t.len() as int),
            indices(order@) == o,
            forall|j: int| 0 <= j < order@.len() ==> (#[trigger] order@[j]) < ts@.len(),
            out@ == offer_slots(t).take(i as int),
            forall|j: int| 0 <= j < out@.len() ==> (#[trigger] out@[j]).index < ts@.len(),
        decreases order@.len() - i,
    {
        assert(o[i as int] == order@[i as int] as int);
        out.push(Slot { index: order[i], muxed: false, offered: None });
        i += 1;
        assert(offer_slots(t).take(i as int) =~= offer_slots(t).take(i - 1).push(
            offer_slots(t)[i - 1],
        ));
    }
    assert(out@ =~= offer_slots(t));
    out
}

/// The sections share a transport: an offer groups more than one section, an answer the sections
/// that were offered as a group; legacy peers never.
pub open spec fn will_bundle(
    c: ConfigView,
    sdp_type: SdpType,
    sections: int,
    remote: Option<DescriptionView>,
) -> bool {
    c.sdp_compatibility != SdpCompatibilityMode::LegacySip && (match sdp_type {
        SdpType::Offer => sections > 1,
        SdpType::Answer => remote matches Some(d) && has_bundle(d),
        _ => false,
    })
}

/// Decides whether the sections share a transport.
pub fn decide_bundle(
    config: &RtcConfiguration,
    sdp_type: SdpType,
    count: usize,
    remote: &Option<SessionDescription>,
) -> (r: bool)
    ensures
        r == will_bundle(config@, sdp_type, count as int, description_opt(*remote)),
{
    if config.sdp_compatibility == SdpCompatibilityMode::LegacySip {
        return false;
    }
    match sdp_type {
        SdpType::Offer => count > 1,
        SdpType::Answer => match remote {
            Some(d) => sdp_has_bundle(d),
            None => false,
        },
        _ => false,
    }
}

/// The direction of a section before it is known whether there is something to send: for an
/// answer what the offer leaves of what we want, else what we want.
pub open spec fn wanted_direction(slot: Slot, desired: TransceiverDirection) -> TransceiverDirection {
    match slot.offered {
        Some(o) => o.spec_answer_direction().spec_intersect(desired),
        None => desired,
    }
}

/// The other side sends in the section with a mid.
pub open spec fn expects_media(
    sdp_type: SdpType,
    remote: Option<DescriptionView>,
    mid: Seq<char>,
) -> bool {
    sdp_type == SdpType::Answer && (remote matches Some(d) && (match first(d.media, with_mid(mid)) {
        Some(i) => d.media[i].direction.spec_sends(),
        None => false,
    }))
}

/// The direction of a section: one that would send, with nothing to send, does not, but where the
/// other side sends too.
pub open spec fn section_direction(
    slot: Slot,
    t: TransceiverView,
    sdp_type: SdpType,
    remote: Option<DescriptionView>,
    mid: Seq<char>,
) -> TransceiverDirection {
    let d = wanted_direction(slot, t.desired);
    if d.spec_sends() && t.sender is None && t.sender_ssrc is None && t.kind
        != MediaKind::Application && t.kind != MediaKind::Image && !expects_media(
        sdp_type,
        remote,
        mid,
    ) {
        d.spec_without_sending()
    } else {
        d
    }
}

fn choose_direction(
    slot: Slot,
    t: &RtpTransceiver,
    sdp_type: SdpType,
    remote: &Option<SessionDescription>,
    mid: &str,
) -> (r: TransceiverDirection)
    ensures
        r == section_direction(slot, t@, sdp_type, description_opt(*remote), mid@),
{
    let desired = t.desired_direction();
    let d = match slot.offered {
        Some(o) => o.answer_direction().intersect(desired),
        None => desired,
    };
    let mut expected = false;
    if sdp_type == SdpType::Answer {
        if let Some(r) = remote {
            if let Some(i) = find_section_with_mid(&r.media_sections, mid) {
                assert(r@.media[i as int] == r.media_sections@[i as int]@);
                expected = r.media_sections[i].direction.sends();
            }
        }
    }
    if d.sends() && t.sender().is_none() && t.sender_ssrc().is_none() && t.kind()
        != MediaKind::Application && t.kind() != MediaKind::Image && !expected {
        d.without_sending()
    } else {
        d
    }
}

/// A connection line for an address.
pub open spec fn connection_line(ip: Seq<char>) -> Seq<char> {
    "IN IP4 "@ + ip
}

fn connection_text(ip: &str) -> (r: String)
    ensures
        r@ == connection_line(ip@),
{
    joined("IN IP4 ", ip)
}

/// `acc` with the candidate lines from index `k` on.
pub open spec fn candidate_lines(
    c: Seq<CandidateView>,
    k: int,
    acc: Seq<AttributeView>,
) -> Seq<AttributeView>
    decreases c.len() - k,
{
    if k < 0 || k >= c.len() {
        acc
    } else {
        candidate_lines(c, k + 1, acc.push(attr("candidate"@, c[k].line)))
    }
}

/// `acc` with the ICE lines of a transport.
pub open spec fn ice_lines(
    t: LocalTransportView,
    trickle: bool,
    acc: Seq<AttributeView>,
) -> Seq<AttributeView> {
    let a = acc.push(attr("ice-ufrag"@, t.ufrag)).push(attr("ice-pwd"@, t.pwd));
    let b = if trickle {
        a.push(attr("ice-options"@, "trickle"@))
    } else {
        a
    };
    let c = candidate_lines(t.candidates, 0, b);
    if t.complete {
        c.push(flag("end-of-candidates"@))
    } else {
        c
    }
}

fn push_ice(list: &mut Vec<Attribute>, t: &LocalTransport, trickle: bool)
    ensures
        attrs(final(list)@) == ice_lines(t@, trickle, attrs(old(list)@)),
{
    push_attr(list, "ice-ufrag", t.ufrag.clone());
    push_attr(list, "ice-pwd", t.pwd.clone());
    if trickle {
        push_attr(list, "ice-options", "trickle".to_owned());
    }
    let ghost start = attrs(list@);
    let ghost c = candidates(t.candidates@);
    let mut i: usize = 0;
    while i < t.candidates.len()
        invariant
            i <= t.candidates@.len(),
            c == candidates(t.candidates@),
            candidate_lines(c, 0, start) == candidate_lines(c, i as int, attrs(list@)),
        decreases t.candidates@.len() - i,
    {
        assert(c[i as int] == t.candidates@[i as int]@);
        push_attr(list, "candidate", t.candidates[i].line.clone());
        i += 1;
    }
    if t.complete {
        push_flag(list, "end-of-candidates");
    }
}

/// Candidates for RTP that other hosts can reach.
pub open spec fn reachable() -> spec_fn(CandidateView) -> bool {
    |c: CandidateView| c.component == 1 && !c.loopback
}

/// Candidates for RTP.
pub open spec fn for_rtp() -> spec_fn(CandidateView) -> bool {
    |c: CandidateView| c.component == 1
}

/// The candidate whose address a direct section is written with.
pub open spec fn chosen_candidate(c: Seq<CandidateView>) -> Option<int> {
    match first(c, reachable()) {
        Some(i) => Some(i),
        None => first(c, for_rtp()),
    }
}

fn choose_candidate(v: &Vec<Candidate>) -> (r: Option<usize>)
    ensures
        match r {
            Some(i) => i < v@.len() && chosen_candidate(candidates(v@)) == Some(i as int),
            None => chosen_candidate(candidates(v@)) is None,
        },
{
    let ghost c = candidates(v@);
    let mut i: usize = 0;
    while i < v.len()
        invariant
            i <= v@.len(),
            c == candidates(v@),
            first(c, reachable()) == first_from(c, reachable(), i as int),
        decreases v@.len() - i,
    {
        assert(c[i as int] == v@[i as int]@);
        if v[i].component == 1 && !v[i].loopback {
            return Some(i);
        }
        i += 1;
    }
    let mut j: usize = 0;
    while j < v.len()
        invariant
            j <= v@.len(),
            c == candidates(v@),
            first(c, reachable()) is None,
            first(c, for_rtp()) == first_from(c, for_rtp(), j as int),
        decreases v@.len() - j,
    {
        assert(c[j as int] == v@[j as int]@);
        if v[j].component == 1 {
            return Some(j);
        }
        j += 1;
    }
    None
}

/// A session level and a section.
#[verifier::ext_equal]
pub struct Draft {
    pub session: SessionView,
    pub section: SectionView,
}

/// The protocol of a section.
pub open spec fn protocol_of(mode: TransportMode, s: SectionView) -> Seq<char> {
    if s.kind == MediaKind::Image || s.kind == MediaKind::Application {
        s.protocol
    } else {
        match mode {
            TransportMode::Rtp => "RTP/AVP"@,
            TransportMode::Srtp => "RTP/SAVP"@,
            TransportMode::WebRtc => s.protocol,
        }
    }
}

/// The address that a fax section is written with.
pub open spec fn fax_ip(c: ConfigView, local_ip: Option<Seq<char>>) -> Seq<char> {
    match c.external_ip {
        Some(ip) => ip,
        None => match local_ip {
            Some(ip) => ip,
            None => "127.0.0.1"@,
        },
    }
}

/// A direct section takes the address of a candidate; the session level takes the first one, and
/// a section with another one says so.
pub open spec fn with_address(d: Draft, c: Seq<CandidateView>) -> Draft {
    match chosen_candidate(c) {
        Some(i) => {
            let line = connection_line(c[i].ip);
            let session = match d.session.connection {
                Some(_) => d.session,
                None => SessionView { connection: Some(line), ..d.session },
            };
            Draft {
                session,
                section: SectionView {
                    port: c[i].port,
                    connection: if session.connection == Some(line) {
                        d.section.connection
                    } else {
                        Some(line)
                    },
                    ..d.section
                },
            }
        },
        None => d,
    }
}

/// A plain-RTP section invites full ICE agents to check it.
pub open spec fn with_ice_lite(d: Draft, t: LocalTransportView) -> Draft {
    Draft {
        session: if has_key(d.session.attributes, "ice-lite"@) {
            d.session
        } else {
            SessionView {
                attributes: d.session.attributes.push(flag("ice-lite"@)),
                ..d.session
            }
        },
        section: SectionView { attributes: ice_lines(t, false, d.section.attributes), ..d.section },
    }
}

/// The transport lines of a section.
pub open spec fn with_transport_lines(
    d: Draft,
    c: ConfigView,
    t: LocalTransportView,
    local_ip: Option<Seq<char>>,
) -> Draft {
    if d.section.kind == MediaKind::Image && c.is_direct() {
        Draft {
            section: SectionView {
                port: t.fax_port,
                connection: Some(connection_line(fax_ip(c, local_ip))),
                ..d.section
            },
            ..d
        }
    } else if c.transport_mode == TransportMode::WebRtc {
        Draft {
            section: SectionView {
                connection: Some(connection_line("0.0.0.0"@)),
                attributes: ice_lines(t, true, d.section.attributes),
                ..d.section
            },
            ..d
        }
    } else {
        let a = with_address(d, t.candidates);
        if c.transport_mode == TransportMode::Rtp && c.enable_ice_lite {
            with_ice_lite(a, t)
        } else {
            a
        }
    }
}

/// The section has a socket of its own for RTCP.
pub open spec fn rtcp_port_of(c: ConfigView, kind: MediaKind, t: LocalTransportView) -> Option<u16> {
    if kind == MediaKind::Image || c.transport_mode == TransportMode::WebRtc {
        None
    } else {
        t.rtcp_port
    }
}

fn write_transport_lines(
    session: &mut SessionSection,
    section: &mut MediaSection,
    config: &RtcConfiguration,
    t: &LocalTransport,
    local_ip: &Option<String>,
)
    ensures
        (Draft { session: final(session)@, section: final(section)@ }) == with_transport_lines(
            (Draft { session: old(session)@, section: old(section)@ }),
            config@,
            t@,
            text_opt(*local_ip),
        ),
{
    let ghost d0 = Draft { session: session@, section: section@ };
    if section.kind == MediaKind::Image && config.is_direct() {
        section.port = t.fax_port;
        let ip = match &config.external_ip {
            Some(ip) => ip.clone(),
            None => match local_ip {
                Some(ip) => ip.clone(),
                None => "127.0.0.1".to_owned(),
            },
        };
        section.connection = Some(connection_text(ip.as_str()));
        return;
    }
    if config.transport_mode == TransportMode::WebRtc {
        section.connection = Some(connection_text("0.0.0.0"));
        push_ice(&mut section.attributes, t, true);
        return;
    }
    if let Some(i) = choose_candidate(&t.candidates) {
        assert(t@.candidates[i as int] == t.candidates@[i as int]@);
        section.port = t.candidates[i].port;
        let line = Some(connection_text(t.candidates[i].ip.as_str()));
        if session.connection.is_none() {
            session.connection = crate::text::clone_text_opt(&line);
        }
        if !same_text_opt(&session.connection, &line) {
            section.connection = line;
        }
    }
    assert((Draft { session: session@, section: section@ }) =~= with_address(d0, t@.candidates));
    if config.transport_mode == TransportMode::Rtp && config.enable_ice_lite {
        proof {
            crate::search::first_iff_any(
                session@.attributes,
                crate::sdp::keyed("ice-lite"@),
            );
        }
        if find_key(&session.attributes, "ice-lite").is_none() {
            push_flag(&mut session.attributes, "ice-lite");
        }
        push_ice(&mut section.attributes, t, false);
    }
}

/// The lines that name what we send in a section.
pub open spec fn sender_lines(
    a: Seq<AttributeView>,
    ssrc: u32,
    cname: Seq<char>,
    stream_id: Seq<char>,
    track_id: Seq<char>,
    mode: TransportMode,
    rtx: Option<u32>,
) -> Seq<AttributeView> {
    let web = mode == TransportMode::WebRtc;
    let names = stream_id + " "@ + track_id;
    let b = if web {
        a.push(attr("msid"@, names))
    } else {
        a
    };
    let c = match rtx {
        Some(x) => b.push(
            attr("ssrc-group"@, "FID "@ + decimal(ssrc as nat) + " "@ + decimal(x as nat)),
        ),
        None => b,
    };
    let d = stream_lines(c, ssrc, cname, names, web);
    match rtx {
        Some(x) => stream_lines(d, x, cname, names, web),
        None => d,
    }
}

/// The lines of one SSRC.
pub open spec fn stream_lines(
    a: Seq<AttributeView>,
    ssrc: u32,
    cname: Seq<char>,
    names: Seq<char>,
    web: bool,
) -> Seq<AttributeView> {
    let b = a.push(attr("ssrc"@, decimal(ssrc as nat) + " cname:"@ + cname));
    if web {
        b.push(attr("ssrc"@, decimal(ssrc as nat) + " msid:"@ + names))
    } else {
        b
    }
}

fn push_stream(list: &mut Vec<Attribute>, ssrc: u32, cname: &str, names: &str, web: bool)
    ensures
        attrs(final(list)@) == stream_lines(attrs(old(list)@), ssrc, cname@, names@, web),
{
    let id = decimal_text(ssrc as u64);
    push_attr(list, "ssrc", joined(joined(id.as_str(), " cname:").as_str(), cname));
    if web {
        push_attr(list, "ssrc", joined(joined(id.as_str(), " msid:").as_str(), names));
    }
}

/// Writes the lines that name what we send in a section.
pub fn attach_sender_attributes(
    section: &mut MediaSection,
    ssrc: u32,
    cname: &str,
    stream_id: &str,
    track_id: &str,
    mode: TransportMode,
    rtx_ssrc: Option<u32>,
)
    ensures
        final(section)@ == (SectionView {
            attributes: sender_lines(
                old(section)@.attributes,
                ssrc,
                cname@,
                stream_id@,
                track_id@,
                mode,
                rtx_ssrc,
            ),
            ..old(section)@
        }),
{
    let web = mode == TransportMode::WebRtc;
    let names = joined(joined(stream_id, " ").as_str(), track_id);
    if web {
        push_attr(&mut section.attributes, "msid", names.clone());
    }
    if let Some(x) = rtx_ssrc {
        push_attr(
            &mut section.attributes,
            "ssrc-group",
            joined(
                joined(joined("FID ", decimal_text(ssrc as u64).as_str()).as_str(), " ").as_str(),
                decimal_text(x as u64).as_str(),
            ),
        );
    }
    push_stream(&mut section.attributes, ssrc, cname, names.as_str(), web);
    if let Some(x) = rtx_ssrc {
        push_stream(&mut section.attributes, x, cname, names.as_str(), web);
    }
}

/// A transceiver and the next SSRC.
#[verifier::ext_equal]
pub struct RtxState {
    pub t: TransceiverView,
    pub next_ssrc: u32,
}

/// The section has retransmission that we send.
pub open spec fn sends_rtx(s: SectionView, direction: TransceiverDirection) -> bool {
    direction.spec_sends() && s.kind == MediaKind::Video && apt_map(s.attributes).dom()
        != Set::<u8>::empty()
}

/// The payload type of the retransmissions that we send: that of the codec of the sender, else
/// the first one of the section.
pub open spec fn rtx_type(s: SectionView, t: TransceiverView) -> Option<u8> {
    let own = match t.sender {
        Some(x) => rtx_from(apt_map(s.attributes), x.params.payload_type, 0),
        None => None,
    };
    match own {
        Some(pt) => Some(pt),
        None => primary_rtx(s),
    }
}

/// A transceiver that sends retransmissions gets a payload type and an SSRC for them, and its
/// sender sends them.
pub open spec fn rtx_step(st: RtxState, s: SectionView) -> RtxState {
    let pt = rtx_type(s, st.t);
    let ssrc = match st.t.sender_rtx_ssrc {
        Some(x) => x,
        None => st.next_ssrc,
    };
    RtxState {
        t: TransceiverView {
            sender_rtx_ssrc: Some(ssrc),
            sender_rtx_payload_type: match pt {
                Some(x) => Some(x),
                None => st.t.sender_rtx_payload_type,
            },
            sender: match (st.t.sender, pt) {
                (Some(x), Some(p)) => Some(
                    x.with_rtx(Some(RtxSenderConfig { rtx_ssrc: ssrc, rtx_payload_type: p })),
                ),
                _ => st.t.sender,
            },
            ..st.t
        },
        next_ssrc: match st.t.sender_rtx_ssrc {
            Some(_) => st.next_ssrc,
            None => st.next_ssrc.wrapping_add(1),
        },
    }
}

fn set_up_rtx(t: &mut RtpTransceiver, next_ssrc: &mut u32, section: &MediaSection) -> (r: u32)
    ensures
        (RtxState { t: final(t)@, next_ssrc: *final(next_ssrc) }) == rtx_step(
            (RtxState { t: old(t)@, next_ssrc: *old(next_ssrc) }),
            section@,
        ),
        final(t)@.sender_rtx_ssrc == Some(r),
        old(t)@.wf() ==> final(t)@.wf(),
{
    let ghost st = RtxState { t: t@, next_ssrc: *next_ssrc };
    let apt = extract_rtx_apt_map_from_attrs(&section.attributes);
    let own: Option<u8> = match t.sender() {
        Some(s) => {
            let p = s.params();
            rtx_pt_for_primary(&apt, p.payload_type)
        },
        None => None,
    };
    let pt: Option<u8> = if own.is_some() {
        own
    } else {
        primary_rtx_payload_type(section)
    };
    let ssrc: u32 = match t.sender_rtx_ssrc() {
        Some(x) => x,
        None => {
            let x: u32 = *next_ssrc;
            *next_ssrc = x.wrapping_add(1);
            x
        },
    };
    let kept = t.sender_rtx_payload_type();
    t.set_sender_rtx(
        Some(ssrc),
        if pt.is_some() {
            pt
        } else {
            kept
        },
    );
    if let Some(p) = pt {
        if let Some(s) = t.sender_mut() {
            s.set_rtx(Some(RtxSenderConfig { rtx_ssrc: ssrc, rtx_payload_type: p }));
        }
    }
    assert((RtxState { t: t@, next_ssrc: *next_ssrc }) =~= rtx_step(st, section@));
    ssrc
}

/// What the section says of our sender, or of the one that is reserved.
pub open spec fn with_sender_lines(
    s: SectionView,
    t: TransceiverView,
    direction: TransceiverDirection,
    c: ConfigView,
    f: FreshView,
    rtx: Option<u32>,
) -> SectionView {
    if !direction.spec_sends() {
        s
    } else {
        match t.sender {
            Some(x) => SectionView {
                attributes: sender_lines(
                    s.attributes,
                    x.ssrc,
                    x.cname,
                    x.stream_id,
                    x.track_id,
                    c.transport_mode,
                    rtx,
                ),
                ..s
            },
            None => match t.sender_ssrc {
                Some(ssrc) => SectionView {
                    attributes: sender_lines(
                        s.attributes,
                        ssrc,
                        match c.cname {
                            Some(x) => x,
                            None => f.cname,
                        },
                        match t.sender_stream_id {
                            Some(x) => x,
                            None => f.stream_id,
                        },
                        match t.sender_track_id {
                            Some(x) => x,
                            None => f.track_id,
                        },
                        c.transport_mode,
                        rtx,
                    ),
                    ..s
                },
                None => s,
            },
        }
    }
}

fn text_or(o: &Option<String>, f: &String) -> (r: String)
    ensures
        r@ == (match text_opt(*o) {
            Some(x) => x,
            None => f@,
        }),
{
    match o {
        Some(x) => x.clone(),
        None => f.clone(),
    }
}

fn write_sender_lines(
    section: &mut MediaSection,
    t: &RtpTransceiver,
    direction: TransceiverDirection,
    config: &RtcConfiguration,
    f: &Fresh,
    rtx: Option<u32>,
)
    ensures
        final(section)@ == with_sender_lines(old(section)@, t@, direction, config@, f@, rtx),
{
    if !direction.sends() {
        return;
    }
    match t.sender() {
        Some(s) => {
            attach_sender_attributes(
                section,
                s.ssrc(),
                s.cname(),
                s.stream_id(),
                s.track_id(),
                config.transport_mode,
                rtx,
            );
        },
        None => {
            if let Some(ssrc) = t.sender_ssrc() {
                let cname = text_or(&config.cname, &f.cname);
                let stream_id = text_or(&t.sender_stream_id(), &f.stream_id);
                let track_id = text_or(&t.sender_track_id(), &f.track_id);
                attach_sender_attributes(
                    section,
                    ssrc,
                    cname.as_str(),
                    stream_id.as_str(),
                    track_id.as_str(),
                    config.transport_mode,
                    rtx,
                );
            }
        },
    }
}

/// What a description is written from, beside the transceivers.
pub struct WriteContext {
    pub config: ConfigView,
    pub sdp_type: SdpType,
    pub has_local: bool,
    pub remote: Option<DescriptionView>,
    pub role: Option<bool>,
    pub fingerprint: Seq<char>,
    pub local_ip: Option<Seq<char>>,
}

/// A description while it is written.
#[verifier::ext_equal]
pub struct WriteState {
    pub session: SessionView,
    pub media: Seq<SectionView>,
    pub ts: Seq<TransceiverView>,
    pub next_ssrc: u32,
    pub next_mid: u16,
    pub acts: Seq<ActionView>,
}

/// The section of a slot before it names what we send: its direction, protocol and transport, its
/// codecs and, on plain RTP, the port of RTCP.
pub open spec fn plain_section(
    session: SessionView,
    slot: Slot,
    t: TransceiverView,
    x: WriteContext,
    input: LocalTransportView,
) -> Draft {
    let mid = t.mid->0;
    let direction = section_direction(slot, t, x.sdp_type, x.remote, mid);
    let s0 = fresh_section(t.kind, mid);
    let s1 = SectionView {
        direction: attribute_of(direction),
        protocol: protocol_of(x.config.transport_mode, s0),
        ..s0
    };
    let a = with_transport_lines(
        Draft { session, section: s1 },
        x.config,
        input,
        x.local_ip,
    );
    let b = populated(
        a.section,
        SectionTerms { sdp_type: x.sdp_type, has_local: x.has_local, dtls_role: x.role },
        x.remote,
        x.config,
        x.fingerprint,
    );
    let c = if x.sdp_type == SdpType::Answer && !slot.muxed {
        SectionView {
            attributes: without_keys(b.attributes, seq!["rtcp-mux"@, "rtcp-mux"@, "rtcp-mux"@]),
            ..b
        }
    } else {
        b
    };
    let port = rtcp_port_of(x.config, t.kind, input);
    let d = if x.config.transport_mode == TransportMode::Rtp && !has_key(
        c.attributes,
        "rtcp-mux"@,
    ) && port is Some {
        SectionView {
            attributes: c.attributes.push(attr("rtcp"@, decimal(port->0 as nat))),
            ..c
        }
    } else {
        c
    };
    Draft { session: a.session, section: d }
}

/// What one slot adds to a description.
pub open spec fn slot_step(
    st: WriteState,
    slot: Slot,
    x: WriteContext,
    input: InputView,
) -> WriteState {
    let i = slot.index as int;
    let m = ensure_mid(MidState { ts: st.ts, next: st.next_mid, acts: st.acts }, i);
    let t = m.ts[i];
    let direction = section_direction(slot, t, x.sdp_type, x.remote, t.mid->0);
    let d = plain_section(st.session, slot, t, x, input.transport);
    let r = if sends_rtx(d.section, direction) {
        rtx_step(RtxState { t, next_ssrc: st.next_ssrc }, d.section)
    } else {
        RtxState { t, next_ssrc: st.next_ssrc }
    };
    let e = with_sender_lines(
        d.section,
        r.t,
        direction,
        x.config,
        input.fresh,
        if sends_rtx(d.section, direction) {
            r.t.sender_rtx_ssrc
        } else {
            None
        },
    );
    let f = if x.config.transport_mode == TransportMode::Srtp {
        SectionView {
            attributes: e.attributes.push(
                attr(
                    "crypto"@,
                    crypto_value(crypto_terms(x.sdp_type, x.remote), input.fresh.key_params),
                ),
            ),
            ..e
        }
    } else {
        e
    };
    WriteState {
        session: d.session,
        media: st.media.push(f),
        ts: m.ts.update(i, r.t),
        next_ssrc: r.next_ssrc,
        next_mid: m.next,
        acts: m.acts,
    }
}

/// What the slots from index `k` on add to a description.
pub open spec fn slots_from(
    st: WriteState,
    slots: Seq<Slot>,
    x: WriteContext,
    ins: Seq<InputView>,
    k: int,
) -> WriteState
    decreases slots.len() - k,
{
    if k < 0 || k >= slots.len() {
        st
    } else {
        slots_from(slot_step(st, slots[k], x, ins[k]), slots, x, ins, k + 1)
    }
}

/// The context as the writer holds it.
pub struct Writer<'a> {
    pub config: &'a RtcConfiguration,
    pub sdp_type: SdpType,
    pub has_local: bool,
    pub remote: &'a Option<SessionDescription>,
    pub role: Option<bool>,
    pub fingerprint: &'a String,
    pub local_ip: &'a Option<String>,
}

impl<'a> View for Writer<'a> {
    type V = WriteContext;

    open spec fn view(&self) -> WriteContext {
        WriteContext {
            config: self.config@,
            sdp_type: self.sdp_type,
            has_local: self.has_local,
            remote: description_opt(*self.remote),
            role: self.role,
            fingerprint: self.fingerprint@,
            local_ip: text_opt(*self.local_ip),
        }
    }
}

fn write_plain_section(
    session: &mut SessionSection,
    slot: Slot,
    t: &RtpTransceiver,
    w: &Writer,
    input: &LocalTransport,
) -> (r: MediaSection)
    requires
        t@.mid is Some,
    ensures
        (Draft { session: final(session)@, section: r@ }) == plain_section(
            old(session)@,
            slot,
            t@,
            w@,
            input@,
        ),
{
    let ghost s0 = session@;
    let mid = match t.mid() {
        Some(m) => m,
        None => String::new(),
    };
    let direction = choose_direction(slot, t, w.sdp_type, w.remote, mid.as_str());
    let mut section = MediaSection::new(t.kind(), mid);
    section.direction = Direction::from(direction);
    if section.kind != MediaKind::Image && section.kind != MediaKind::Application {
        match w.config.transport_mode {
            TransportMode::Rtp => {
                section.protocol = "RTP/AVP".to_owned();
            },
            TransportMode::Srtp => {
                section.protocol = "RTP/SAVP".to_owned();
            },
            TransportMode::WebRtc => {},
        }
    }
    write_transport_lines(session, &mut section, w.config, input, w.local_ip);
    let terms = SectionTerms {
        sdp_type: w.sdp_type,
        has_local: w.has_local,
        dtls_role: w.role,
    };
    populate_media_capabilities(
        &mut section,
        &terms,
        w.remote,
        w.config,
        w.fingerprint.as_str(),
    );
    if w.sdp_type == SdpType::Answer && !slot.muxed {
        section.attributes = drop_keys(&section.attributes, "rtcp-mux", "rtcp-mux", "rtcp-mux");
    }
    if w.config.transport_mode == TransportMode::Rtp && !section.has("rtcp-mux") && t.kind()
        != MediaKind::Image {
        if let Some(port) = input.rtcp_port {
            push_attr(&mut section.attributes, "rtcp", decimal_text(port as u64));
        }
    }
    assert((Draft { session: session@, section: section@ }) =~= plain_section(
        s0,
        slot,
        t@,
        w@,
        input@,
    ));
    section
}

/// The description that is written so far and what is allocated for it.
pub struct DraftDescription {
    pub session: SessionSection,
    pub media: Vec<MediaSection>,
}

fn write_slot(
    out: &mut DraftDescription,
    ts: &mut Vec<RtpTransceiver>,
    next_ssrc: &mut u32,
    next_mid: &mut u16,
    slot: Slot,
    w: &Writer,
    input: &SectionInput,
    list: &mut Vec<Action>,
)
    requires
        slot.index < old(ts)@.len(),
        all_wf(transceivers(old(ts)@)),
    ensures
        final(ts)@.len() == old(ts)@.len(),
        all_wf(transceivers(final(ts)@)),
        (WriteState {
            session: final(out).session@,
            media: sections(final(out).media@),
            ts: transceivers(final(ts)@),
            next_ssrc: *final(next_ssrc),
            next_mid: *final(next_mid),
            acts: actions(final(list)@),
        }) == slot_step(
            (WriteState {
                session: old(out).session@,
                media: sections(old(out).media@),
                ts: transceivers(old(ts)@),
                next_ssrc: *old(next_ssrc),
                next_mid: *old(next_mid),
                acts: actions(old(list)@),
            }),
            slot,
            w@,
            input@,
        ),
{
    let ghost st = WriteState {
        session: out.session@,
        media: sections(out.media@),
        ts: transceivers(ts@),
        next_ssrc: *next_ssrc,
        next_mid: *next_mid,
        acts: actions(list@),
    };
    let ghost want = slot_step(st, slot, w@, input@);
    let i: usize = slot.index;
    assign_mid(ts, next_mid, i, list);
    let ghost m = ensure_mid(MidState { ts: st.ts, next: st.next_mid, acts: st.acts }, i as int);
    let ghost t = m.ts[i as int];
    assert(t == ts@[i as int]@);
    let mut section = write_plain_section(&mut out.session, slot, &ts[i], w, &input.transport);
    let mid = match ts[i].mid() {
        Some(x) => x,
        None => String::new(),
    };
    let direction = choose_direction(slot, &ts[i], w.sdp_type, w.remote, mid.as_str());
    let ghost d = plain_section(st.session, slot, t, w@, input.transport@);
    assert(section@ == d.section);
    let mut rtx: Option<u32> = None;
    if direction.sends() && section.kind == MediaKind::Video && section_has_rtx(&section) {
        rtx = Some(set_up_rtx(&mut ts[i], next_ssrc, &section));
    }
    assert(transceivers(ts@) =~= want.ts);
    assert(ts@[i as int]@ == want.ts[i as int]);
    write_sender_lines(&mut section, &ts[i], direction, w.config, &input.fresh, rtx);
    if w.config.transport_mode == TransportMode::Srtp {
        let terms = choose_crypto_terms(w.sdp_type, w.remote);
        push_attr(
            &mut section.attributes,
            "crypto",
            crypto_line(&terms, input.fresh.key_params.as_str()),
        );
    }
    let ghost before = out.media@;
    out.media.push(section);
    assert(sections(out.media@) =~= sections(before).push(section@));
    assert(sections(out.media@) =~= want.media);
}

/// The `o=` line of a description: the one of the last local description, one version on, else a
/// new one.
pub open spec fn next_origin(
    previous: Option<DescriptionView>,
    c: ConfigView,
    now: u64,
    local_ip: Option<Seq<char>>,
) -> OriginView {
    match previous {
        Some(d) => OriginView {
            session_version: d.session.origin.session_version.wrapping_add(1),
            ..d.session.origin
        },
        None => OriginView {
            session_id: now,
            session_version: now.wrapping_add(1),
            unicast_address: match c.external_ip {
                Some(ip) => ip,
                None => match local_ip {
                    Some(ip) => ip,
                    None => blank_origin().unicast_address,
                },
            },
            ..blank_origin()
        },
    }
}

/// The session level that a description starts with.
pub open spec fn first_session(
    previous: Option<DescriptionView>,
    c: ConfigView,
    now: u64,
    local_ip: Option<Seq<char>>,
) -> SessionView {
    SessionView {
        origin: next_origin(previous, c, now, local_ip),
        connection: if c.is_direct() && c.external_ip is Some {
            Some(connection_line(c.external_ip->0))
        } else {
            None
        },
        attributes: if c.transport_mode == TransportMode::WebRtc {
            seq![attr("msid-semantic"@, "WMS *"@)]
        } else {
            Seq::empty()
        },
    }
}

/// An `o=` line for a session that starts now.
pub fn default_origin(now: u64, local_ip: &Option<String>) -> (r: Origin)
    ensures
        r@ == (OriginView {
            session_id: now,
            session_version: now,
            unicast_address: match text_opt(*local_ip) {
                Some(ip) => ip,
                None => blank_origin().unicast_address,
            },
            ..blank_origin()
        }),
{
    let mut o = Origin::default();
    o.session_id = now;
    o.session_version = now;
    if let Some(ip) = local_ip {
        o.unicast_address = ip.clone();
    }
    o
}

fn start_session(
    previous: &Option<SessionDescription>,
    config: &RtcConfiguration,
    now: u64,
    local_ip: &Option<String>,
) -> (r: SessionSection)
    ensures
        r@ == first_session(description_opt(*previous), config@, now, text_opt(*local_ip)),
{
    let origin = match previous {
        Some(d) => {
            let mut o = d.session.origin.clone();
            o.session_version = o.session_version.wrapping_add(1);
            o
        },
        None => {
            let mut o = default_origin(now, local_ip);
            if let Some(ip) = &config.external_ip {
                o.unicast_address = ip.clone();
            }
            o.session_version = o.session_version.wrapping_add(1);
            o
        },
    };
    let mut attributes: Vec<Attribute> = Vec::new();
    assert(attrs(attributes@) =~= Seq::<AttributeView>::empty());
    if config.transport_mode == TransportMode::WebRtc {
        push_attr(&mut attributes, "msid-semantic", "WMS *".to_owned());
    }
    let connection = if config.is_direct() {
        match &config.external_ip {
            Some(ip) => Some(connection_text(ip.as_str())),
            None => None,
        }
    } else {
        None
    };
    let r = SessionSection { origin, connection, attributes };
    assert(r@ =~= first_session(description_opt(*previous), config@, now, text_opt(*local_ip)));
    r
}

/// The mids of the sections from index `k` on, each behind a space.
pub open spec fn mids_from(m: Seq<SectionView>, k: int, acc: Seq<char>) -> Seq<char>
    decreases m.len() - k,
{
    if k < 0 || k >= m.len() {
        acc
    } else {
        mids_from(m, k + 1, acc + " "@ + m[k].mid)
    }
}

/// The sections without mids.
pub open spec fn anonymous(m: Seq<SectionView>) -> Seq<SectionView> {
    m.map_values(|s: SectionView| SectionView { mid: Seq::empty(), ..s })
}

/// A description whose sections are written: grouped sections are named in the group; mids are
/// left out for legacy peers, and where several sections stand in no group.
pub open spec fn closed_description(
    sdp_type: SdpType,
    session: SessionView,
    media: Seq<SectionView>,
    bundle: bool,
    c: ConfigView,
) -> DescriptionView {
    DescriptionView {
        sdp_type,
        session: if bundle && media.len() > 0 {
            SessionView {
                attributes: session.attributes.push(
                    attr("group"@, mids_from(media, 0, "BUNDLE"@)),
                ),
                ..session
            }
        } else {
            session
        },
        media: if leaves_mids_out(c, bundle, media.len()) {
            anonymous(media)
        } else {
            media
        },
    }
}

fn close_description(
    sdp_type: SdpType,
    draft: DraftDescription,
    bundle: bool,
    config: &RtcConfiguration,
) -> (r: SessionDescription)
    ensures
        r@ == closed_description(
            sdp_type,
            draft.session@,
            sections(draft.media@),
            bundle,
            config@,
        ),
{
    let mut session = draft.session;
    let mut media = draft.media;
    let ghost m = sections(media@);
    if bundle && media.len() > 0 {
        let mut value = "BUNDLE".to_owned();
        let mut i: usize = 0;
        while i < media.len()
            invariant
                i <= media@.len(),
                m == sections(media@),
                mids_from(m, 0, "BUNDLE"@) == mids_from(m, i as int, value@),
            decreases media@.len() - i,
        {
            assert(m[i as int] == media@[i as int]@);
            value.append(" ");
            value.append(media[i].mid.as_str());
            i += 1;
        }
        push_attr(&mut session.attributes, "group", value);
    }
    if config.sdp_compatibility == SdpCompatibilityMode::LegacySip || (!bundle && media.len()
        > 1) {
        let n: usize = media.len();
        let mut i: usize = 0;
        while i < n
            invariant
                i <= n,
                n == media@.len(),
                n == m.len(),
                sections(media@) == anonymous(m).take(i as int) + m.skip(i as int),
            decreases n - i,
        {
            let ghost before = media@;
            assert(sections(before)[i as int] == before[i as int]@);
            media[i].mid = String::new();
            assert(sections(media@) =~= sections(before).update(
                i as int,
                SectionView { mid: Seq::empty(), ..sections(before)[i as int] },
            ));
            i += 1;
            assert(sections(media@) =~= anonymous(m).take(i as int) + m.skip(i as int));
        }
        assert(sections(media@) =~= anonymous(m));
    }
    SessionDescription { sdp_type, session, media_sections: media }
}

/// The description that is written, and what is left of the state.
pub open spec fn described(
    st: WriteState,
    slots: Seq<Slot>,
    x: WriteContext,
    ins: Seq<InputView>,
    bundle: bool,
) -> (DescriptionView, WriteState) {
    let w = slots_from(st, slots, x, ins, 0);
    (closed_description(x.sdp_type, w.session, w.media, bundle, x.config), w)
}

/// Writes a description: a session level, a section for each slot, and the group.
pub fn write_description(
    ts: &mut Vec<RtpTransceiver>,
    next_ssrc: &mut u32,
    next_mid: &mut u16,
    previous: &Option<SessionDescription>,
    plan: &DescriptionPlan,
    w: &Writer,
    ins: &Vec<SectionInput>,
    now: u64,
    list: &mut Vec<Action>,
) -> (r: SessionDescription)
    requires
        all_wf(transceivers(old(ts)@)),
        ins@.len() == plan.slots@.len(),
        forall|i: int| 0 <= i < plan.slots@.len() ==> (#[trigger] plan.slots@[i]).index < old(
            ts)@.len(),
    ensures
        all_wf(transceivers(final(ts)@)),
        final(ts)@.len() == old(ts)@.len(),
        ({
            let x = described(
                (WriteState {
                    session: first_session(
                        description_opt(*previous),
                        w@.config,
                        now,
                        w@.local_ip,
                    ),
                    media: Seq::empty(),
                    ts: transceivers(old(ts)@),
                    next_ssrc: *old(next_ssrc),
                    next_mid: *old(next_mid),
                    acts: actions(old(list)@),
                }),
                plan.slots@,
                w@,
                inputs(ins@),
                plan.bundle,
            );
            &&& r@ == x.0
            &&& transceivers(final(ts)@) == x.1.ts
            &&& *final(next_ssrc) == x.1.next_ssrc
            &&& *final(next_mid) == x.1.next_mid
            &&& actions(final(list)@) == x.1.acts
        }),
{
    let mut out = DraftDescription {
        session: start_session(previous, w.config, now, w.local_ip),
        media: Vec::new(),
    };
    assert(sections(out.media@) =~= Seq::<SectionView>::empty());
    let ghost start = WriteState {
        session: out.session@,
        media: sections(out.media@),
        ts: transceivers(ts@),
        next_ssrc: *next_ssrc,
        next_mid: *next_mid,
        acts: actions(list@),
    };
    let ghost n = ts@.len();
    let mut k: usize = 0;
    while k < plan.slots.len()
        invariant
            k <= plan.slots@.len(),
            ts@.len() == n,
            ins@.len() == plan.slots@.len(),
            all_wf(transceivers(ts@)),
            forall|i: int| 0 <= i < plan.slots@.len() ==> (#[trigger] plan.slots@[i]).index < n,
            slots_from(start, plan.slots@, w@, inputs(ins@), 0) == slots_from(
                (WriteState {
                    session: out.session@,
                    media: sections(out.media@),
                    ts: transceivers(ts@),
                    next_ssrc: *next_ssrc,
                    next_mid: *next_mid,
                    acts: actions(list@),
                }),
                plan.slots@,
                w@,
                inputs(ins@),
                k as int,
            ),
        decreases plan.slots@.len() - k,
    {
        assert(inputs(ins@)[k as int] == ins@[k as int]@);
        write_slot(
            &mut out,
            ts,
            next_ssrc,
            next_mid,
            plan.slots[k],
            w,
            &ins[k],
            list,
        );
        k += 1;
    }
    close_description(w.sdp_type, out, plan.bundle, w.config)
}

/// A section answers what was offered, or says what we want: it receives if and only if the offer
/// sends and we want to receive, and it sends only what the offer receives and we want to send.
/// Where nothing was offered, it receives if and only if we want to, and sends only if we want to.
pub open spec fn goes_as_wanted(d: Direction, slot: Slot, desired: TransceiverDirection) -> bool {
    match slot.offered {
        Some(o) => {
            &&& d.spec_receives() <==> o.spec_sends() && desired.spec_receives()
            &&& d.spec_sends() ==> o.spec_receives() && desired.spec_sends()
        },
        None => {
            &&& d.spec_receives() <==> desired.spec_receives()
            &&& d.spec_sends() ==> desired.spec_sends()
        },
    }
}

/// The direction of a section goes as was offered and as we want.
pub proof fn section_direction_goes_as_wanted(
    slot: Slot,
    t: TransceiverView,
    sdp_type: SdpType,
    remote: Option<DescriptionView>,
    mid: Seq<char>,
)
    ensures
        goes_as_wanted(
            attribute_of(section_direction(slot, t, sdp_type, remote, mid)),
            slot,
            t.desired,
        ),
{
}

/// An offer sends media only where there is a sender, or one is reserved.
pub proof fn offers_send_only_what_is_there(
    slot: Slot,
    t: TransceiverView,
    remote: Option<DescriptionView>,
    mid: Seq<char>,
)
    requires
        t.kind == MediaKind::Audio || t.kind == MediaKind::Video,
        section_direction(slot, t, SdpType::Offer, remote, mid).spec_sends(),
    ensures
        t.sender is Some || t.sender_ssrc is Some,
{
}

proof fn slots_keep_origin(
    st: WriteState,
    slots: Seq<Slot>,
    x: WriteContext,
    ins: Seq<InputView>,
    k: int,
)
    requires
        0 <= k <= slots.len(),
    ensures
        slots_from(st, slots, x, ins, k).session.origin == st.session.origin,
    decreases slots.len() - k,
{
    if k < slots.len() {
        slots_keep_origin(slot_step(st, slots[k], x, ins[k]), slots, x, ins, k + 1);
    }
}

/// A description has the origin that its writing started with.
pub proof fn descriptions_keep_origin(
    st: WriteState,
    slots: Seq<Slot>,
    x: WriteContext,
    ins: Seq<InputView>,
    bundle: bool,
)
    ensures
        described(st, slots, x, ins, bundle).0.session.origin == st.session.origin,
{
    slots_keep_origin(st, slots, x, ins, 0);
}

/// The slots so far answer the sections before index `k`, each with a transceiver of its own.
spec fn answers_so_far(
    ts: Seq<TransceiverView>,
    m: Seq<SectionView>,
    k: int,
    used: Seq<bool>,
    acc: Seq<Slot>,
) -> bool {
    &&& used.len() == ts.len()
    &&& acc.len() == k
    &&& forall|j: int| 0 <= j < k ==> answers_section(ts, #[trigger] acc[j], m[j])
    &&& forall|j: int| 0 <= j < k ==> used[(#[trigger] acc[j]).index as int]
    &&& distinct_slots(acc)
}

/// A slot answers a section: with the transceiver of its mid or, without a mid, one of its kind.
pub open spec fn answers_section(ts: Seq<TransceiverView>, slot: Slot, s: SectionView) -> bool {
    &&& slot.index < ts.len()
    &&& if s.mid.len() > 0 {
        ts[slot.index as int].mid == Some(s.mid)
    } else {
        ts[slot.index as int].kind == s.kind
    }
    &&& slot.muxed == has_key(s.attributes, "rtcp-mux"@)
    &&& slot.offered == Some(transceiver_of(s.direction))
}

/// No two slots have the same transceiver.
pub open spec fn distinct_slots(slots: Seq<Slot>) -> bool {
    forall|i: int, j: int|
        0 <= i < j < slots.len() ==> (#[trigger] slots[i]).index != (#[trigger] slots[j]).index
}

proof fn answers_go_on(
    ts: Seq<TransceiverView>,
    m: Seq<SectionView>,
    k: int,
    used: Seq<bool>,
    acc: Seq<Slot>,
)
    requires
        0 <= k <= m.len(),
        ts.len() <= usize::MAX,
        answers_so_far(ts, m, k, used, acc),
    ensures
        answer_slots_from(ts, m, k, used, acc) matches Ok(slots) ==> slots.len() == m.len()
            && distinct_slots(slots) && forall|j: int|
            0 <= j < m.len() ==> answers_section(ts, #[trigger] slots[j], m[j]),
    decreases m.len() - k,
{
    if k < m.len() {
        if m[k].mid.len() > 0 {
            crate::matching::free_facts(ts, used, mid_is(m[k].mid), 0);
        } else {
            crate::matching::free_facts(ts, used, kind_is(m[k].kind), 0);
        }
        if let Some(i) = answer_owner(ts, used, m[k]) {
            let slot = Slot {
                index: i as usize,
                muxed: has_key(m[k].attributes, "rtcp-mux"@),
                offered: Some(transceiver_of(m[k].direction)),
            };
            let next = acc.push(slot);
            assert(answers_section(ts, slot, m[k]));
            assert forall|a: int, b: int| 0 <= a < b < next.len() implies (#[trigger] next[a]).index
                != (#[trigger] next[b]).index by {
                if b == k {
                    assert(used[acc[a].index as int]);
                }
            }
            answers_go_on(ts, m, k + 1, used.update(i, true), next);
        }
    }
}

/// An answer has one section for each offered section, in the order of the offer, and each is
/// answered by a transceiver of its own: the one that has its mid or, without a mid, one of its
/// kind.
pub proof fn answer_mirrors_offer(ts: Seq<TransceiverView>, m: Seq<SectionView>, slots: Seq<Slot>)
    requires
        ts.len() <= usize::MAX,
        answer_slots_from(ts, m, 0, none_used(ts.len()), Seq::empty()) == Ok::<
            Seq<Slot>,
            RtcErrorView,
        >(slots),
    ensures
        slots.len() == m.len(),
        distinct_slots(slots),
        forall|k: int| 0 <= k < m.len() ==> answers_section(ts, #[trigger] slots[k], m[k]),
{
    answers_go_on(ts, m, 0, none_used(ts.len()), Seq::empty());
}

proof fn plain_section_fits(
    session: SessionView,
    slot: Slot,
    t: TransceiverView,
    x: WriteContext,
    input: LocalTransportView,
)
    ensures
        section_fits(plain_section(session, slot, t, x, input).section, slot, t, x),
{
    let mid = t.mid->0;
    let direction = section_direction(slot, t, x.sdp_type, x.remote, mid);
    let s0 = fresh_section(t.kind, mid);
    let s1 = SectionView {
        direction: attribute_of(direction),
        protocol: protocol_of(x.config.transport_mode, s0),
        ..s0
    };
    let a = with_transport_lines(
        Draft { session, section: s1 },
        x.config,
        input,
        x.local_ip,
    );
    assert(a.section.kind == t.kind && a.section.mid == mid && a.section.direction
        == s1.direction);
    crate::capability::populating_keeps_frame(
        a.section,
        SectionTerms { sdp_type: x.sdp_type, has_local: x.has_local, dtls_role: x.role },
        x.remote,
        x.config,
        x.fingerprint,
    );
}

proof fn lacking_keeps_lacking(a: Seq<AttributeView>, x: AttributeView, key: Seq<char>)
    requires
        !has_key(a, key),
        x.key != key,
    ensures
        !has_key(a.push(x), key),
{
    let b = a.push(x);
    assert forall|i: int| 0 <= i < b.len() implies !keyed(key)(#[trigger] b[i]) by {
        if i < a.len() {
            assert(!keyed(key)(a[i]));
        }
    }
}

proof fn mux_key_is_apart()
    ensures
        "rtcp"@ != "rtcp-mux"@,
        "ssrc"@ != "rtcp-mux"@,
        "msid"@ != "rtcp-mux"@,
        "crypto"@ != "rtcp-mux"@,
        "ssrc-group"@ != "rtcp-mux"@,
{
    reveal_strlit("rtcp-mux");
    reveal_strlit("rtcp");
    reveal_strlit("ssrc");
    reveal_strlit("msid");
    reveal_strlit("crypto");
    reveal_strlit("ssrc-group");
    assert("rtcp-mux"@.len() == 8);
    assert("rtcp"@.len() == 4);
    assert("ssrc"@.len() == 4);
    assert("msid"@.len() == 4);
    assert("crypto"@.len() == 6);
    assert("ssrc-group"@.len() == 10);
}

proof fn stream_lines_do_not_mux(
    a: Seq<AttributeView>,
    ssrc: u32,
    cname: Seq<char>,
    names: Seq<char>,
    web: bool,
)
    requires
        !has_key(a, "rtcp-mux"@),
    ensures
        !has_key(stream_lines(a, ssrc, cname, names, web), "rtcp-mux"@),
{
    mux_key_is_apart();
    let x = attr("ssrc"@, decimal(ssrc as nat) + " cname:"@ + cname);
    lacking_keeps_lacking(a, x, "rtcp-mux"@);
    lacking_keeps_lacking(
        a.push(x),
        attr("ssrc"@, decimal(ssrc as nat) + " msid:"@ + names),
        "rtcp-mux"@,
    );
}

proof fn sender_lines_do_not_mux(
    s: SectionView,
    t: TransceiverView,
    direction: TransceiverDirection,
    c: ConfigView,
    f: FreshView,
    rtx: Option<u32>,
)
    requires
        !has_key(s.attributes, "rtcp-mux"@),
    ensures
        !has_key(with_sender_lines(s, t, direction, c, f, rtx).attributes, "rtcp-mux"@),
{
    mux_key_is_apart();
    let key = "rtcp-mux"@;
    let a = s.attributes;
    let web = c.transport_mode == TransportMode::WebRtc;
    assert forall|ssrc: u32, cname: Seq<char>, stream: Seq<char>, track: Seq<char>| !has_key(
        #[trigger] sender_lines(a, ssrc, cname, stream, track, c.transport_mode, rtx),
        key,
    ) by {
        let names = stream + " "@ + track;
        lacking_keeps_lacking(a, attr("msid"@, names), key);
        let b = if web {
            a.push(attr("msid"@, names))
        } else {
            a
        };
        let group = match rtx {
            Some(x) => b.push(
                attr("ssrc-group"@, "FID "@ + decimal(ssrc as nat) + " "@ + decimal(x as nat)),
            ),
            None => b,
        };
        if let Some(x) = rtx {
            lacking_keeps_lacking(
                b,
                attr("ssrc-group"@, "FID "@ + decimal(ssrc as nat) + " "@ + decimal(x as nat)),
                key,
            );
        }
        stream_lines_do_not_mux(group, ssrc, cname, names, web);
        if let Some(x) = rtx {
            stream_lines_do_not_mux(
                stream_lines(group, ssrc, cname, names, web),
                x,
                cname,
                names,
                web,
            );
        }
    }
}

/// An answer shares a port between RTP and RTCP only in a section that was offered so.
pub proof fn answer_muxes_only_as_offered(
    st: WriteState,
    slot: Slot,
    x: WriteContext,
    input: InputView,
)
    requires
        x.sdp_type == SdpType::Answer,
        !slot.muxed,
    ensures
        !has_key(slot_step(st, slot, x, input).media.last().attributes, "rtcp-mux"@),
{
    mux_key_is_apart();
    let key = "rtcp-mux"@;
    let i = slot.index as int;
    let m = ensure_mid(MidState { ts: st.ts, next: st.next_mid, acts: st.acts }, i);
    let t = m.ts[i];
    let direction = section_direction(slot, t, x.sdp_type, x.remote, t.mid->0);
    let d = plain_section(st.session, slot, t, x, input.transport);
    let keys = seq![key, key, key];
    assert(forall|a: Seq<AttributeView>| !has_key(#[trigger] without_keys(a, keys), key)) by {
        assert forall|a: Seq<AttributeView>| !has_key(
            #[trigger] without_keys(a, keys),
            key,
        ) by {
            crate::search::kept_facts(a, not_keyed(keys));
            assert(keys[0] == key);
            assert(keys.contains(key));
            let b = without_keys(a, keys);
            assert forall|j: int| 0 <= j < b.len() implies !keyed(key)(#[trigger] b[j]) by {
                assert(not_keyed(keys)(b[j]));
            }
        }
    }
    assert(forall|a: Seq<AttributeView>, v: Seq<char>|
        !has_key(a, key) ==> !has_key(#[trigger] a.push(attr("rtcp"@, v)), key)) by {
        assert forall|a: Seq<AttributeView>, v: Seq<char>| !has_key(a, key) implies !has_key(
            #[trigger] a.push(attr("rtcp"@, v)),
            key,
        ) by {
            lacking_keeps_lacking(a, attr("rtcp"@, v), key);
        }
    }
    assert(!has_key(d.section.attributes, key));
    let r = if sends_rtx(d.section, direction) {
        rtx_step(RtxState { t, next_ssrc: st.next_ssrc }, d.section)
    } else {
        RtxState { t, next_ssrc: st.next_ssrc }
    };
    let rtx = if sends_rtx(d.section, direction) {
        r.t.sender_rtx_ssrc
    } else {
        None
    };
    sender_lines_do_not_mux(d.section, r.t, direction, x.config, input.fresh, rtx);
    let e = with_sender_lines(d.section, r.t, direction, x.config, input.fresh, rtx);
    lacking_keeps_lacking(
        e.attributes,
        attr(
            "crypto"@,
            crypto_value(crypto_terms(x.sdp_type, x.remote), input.fresh.key_params),
        ),
        key,
    );
}

proof fn slots_are_written(
    st: WriteState,
    slots: Seq<Slot>,
    x: WriteContext,
    ins: Seq<InputView>,
    k: int,
    j: int,
)
    requires
        0 <= k <= slots.len(),
        st.media.len() == k,
        0 <= j < slots.len(),
        forall|i: int| 0 <= i < slots.len() ==> (#[trigger] slots[i]).index < st.ts.len(),
    ensures
        ({
            let w = slots_from(st, slots, x, ins, k);
            &&& w.media.len() == slots.len()
            &&& j < k ==> w.media[j] == st.media[j]
            &&& j >= k ==> section_fits(
                w.media[j],
                slots[j],
                st.ts[slots[j].index as int],
                x,
            )
            &&& j >= k && x.config.transport_mode == TransportMode::Srtp ==> ends_in_crypto(
                w.media[j],
                x,
                ins[j],
            )
        }),
    decreases slots.len() - k,
{
    if k < slots.len() {
        let next = slot_step(st, slots[k], x, ins[k]);
        let i = slots[j].index as int;
        let a = st.ts[i];
        let b = next.ts[i];
        assert(next.ts.len() == st.ts.len());
        assert(b.kind == a.kind && b.desired == a.desired && (a.mid is Some ==> b.mid == a.mid) && (
        b.sender is None <==> a.sender is None) && b.sender_ssrc == a.sender_ssrc);
        slots_are_written(next, slots, x, ins, k + 1, j);
        if j == k {
            let m = ensure_mid(MidState { ts: st.ts, next: st.next_mid, acts: st.acts }, i);
            plain_section_fits(st.session, slots[k], m.ts[i], x, ins[k].transport);
        }
    }
}

/// A section is that of a transceiver: of its kind, with its mid where it has one, and in the
/// direction that is negotiated.
pub open spec fn section_fits(
    s: SectionView,
    slot: Slot,
    t: TransceiverView,
    x: WriteContext,
) -> bool {
    &&& s.kind == t.kind
    &&& t.mid matches Some(m) ==> s.mid == m
    &&& s.direction == attribute_of(section_direction(slot, t, x.sdp_type, x.remote, s.mid))
}

/// A section ends in the crypto line that is written with the key parameters of its input.
pub open spec fn ends_in_crypto(s: SectionView, x: WriteContext, input: InputView) -> bool {
    s.attributes.len() > 0 && s.attributes.last() == attr(
        "crypto"@,
        crypto_value(crypto_terms(x.sdp_type, x.remote), input.fresh.key_params),
    )
}

/// Mids are left out of a description.
pub open spec fn leaves_mids_out(c: ConfigView, bundle: bool, sections: nat) -> bool {
    c.sdp_compatibility == SdpCompatibilityMode::LegacySip || (!bundle && sections > 1)
}

/// A description has one section for each slot, in order, of the kind of the slot's transceiver and
/// in the direction that is negotiated; its mid is that of the transceiver, where it has one,
/// unless mids are left out. With SDES each section ends in its crypto line.
pub proof fn sections_follow_slots(
    st: WriteState,
    slots: Seq<Slot>,
    x: WriteContext,
    ins: Seq<InputView>,
    bundle: bool,
    k: int,
)
    requires
        st.media.len() == 0,
        0 <= k < slots.len(),
        forall|i: int| 0 <= i < slots.len() ==> (#[trigger] slots[i]).index < st.ts.len(),
    ensures
        ({
            let d = described(st, slots, x, ins, bundle).0;
            let t = st.ts[slots[k].index as int];
            &&& d.media.len() == slots.len()
            &&& d.media[k].kind == t.kind
            &&& exists|mid: Seq<char>|
                (t.mid matches Some(m) ==> mid == m) && d.media[k].direction == attribute_of(
                    #[trigger] section_direction(slots[k], t, x.sdp_type, x.remote, mid),
                ) && d.media[k].mid == (if leaves_mids_out(x.config, bundle, slots.len()) {
                    Seq::empty()
                } else {
                    mid
                })
            &&& x.config.transport_mode == TransportMode::Srtp ==> ends_in_crypto(
                d.media[k],
                x,
                ins[k],
            )
        }),
{
    slots_are_written(st, slots, x, ins, 0, k);
    let s = slots_from(st, slots, x, ins, 0).media[k];
    let t = st.ts[slots[k].index as int];
    assert(s.direction == attribute_of(
        section_direction(slots[k], t, x.sdp_type, x.remote, s.mid),
    ));
}

/// Every section of a description goes as was offered and as we want, and no audio or video section
/// of an offer sends where there is no sender and none is reserved.
pub proof fn sections_go_as_wanted(
    st: WriteState,
    slots: Seq<Slot>,
    x: WriteContext,
    ins: Seq<InputView>,
    bundle: bool,
    k: int,
)
    requires
        st.media.len() == 0,
        0 <= k < slots.len(),
        forall|i: int| 0 <= i < slots.len() ==> (#[trigger] slots[i]).index < st.ts.len(),
    ensures
        ({
            let s = described(st, slots, x, ins, bundle).0.media[k];
            let t = st.ts[slots[k].index as int];
            &&& goes_as_wanted(s.direction, slots[k], t.desired)
            &&& x.sdp_type == SdpType::Offer && (t.kind == MediaKind::Audio || t.kind
                == MediaKind::Video) && t.sender is None && t.sender_ssrc is None
                ==> !s.direction.spec_sends()
        }),
{
    sections_follow_slots(st, slots, x, ins, bundle, k);
    let s = described(st, slots, x, ins, bundle).0.media[k];
    let t = st.ts[slots[k].index as int];
    let mid = choose|mid: Seq<char>|
        s.direction == attribute_of(
            #[trigger] section_direction(slots[k], t, x.sdp_type, x.remote, mid),
        );
    section_direction_goes_as_wanted(slots[k], t, x.sdp_type, x.remote, mid);
}

/// The section of a slot has the kind and, where there is one, the mid of its transceiver, and the
/// direction that is negotiated.
pub proof fn written_direction(st: WriteState, slot: Slot, x: WriteContext, input: InputView)
    requires
        slot.index < st.ts.len(),
    ensures
        ({
            let i = slot.index as int;
            let t = ensure_mid(
                MidState { ts: st.ts, next: st.next_mid, acts: st.acts },
                i,
            ).ts[i];
            let s = slot_step(st, slot, x, input).media.last();
            &&& s.kind == st.ts[i].kind
            &&& s.direction == attribute_of(
                section_direction(slot, t, x.sdp_type, x.remote, t.mid->0),
            )
        }),
{
    let i = slot.index as int;
    let m = ensure_mid(MidState { ts: st.ts, next: st.next_mid, acts: st.acts }, i);
    plain_section_fits(st.session, slot, m.ts[i], x, input.transport);
}

/// The section of a slot has the mid of its transceiver, where there is one.
pub proof fn written_mid(st: WriteState, slot: Slot, x: WriteContext, input: InputView)
    requires
        slot.index < st.ts.len(),
        st.ts[slot.index as int].mid is Some,
    ensures
        slot_step(st, slot, x, input).media.last().mid == st.ts[slot.index as int].mid->0,
{
    let i = slot.index as int;
    let m = ensure_mid(MidState { ts: st.ts, next: st.next_mid, acts: st.acts }, i);
    plain_section_fits(st.session, slot, m.ts[i], x, input.transport);
}

/// The value of a group line names the group and then each section by its mid, behind a space, in
/// order.
pub proof fn groups_name_their_sections(m: Seq<SectionView>, s: SectionView, name: Seq<char>)
    ensures
        mids_from(Seq::empty(), 0, name) == name,
        mids_from(m.push(s), 0, name) == mids_from(m, 0, name) + " "@ + s.mid,
{
    mids_of_pushed(m, s, 0, name);
}

proof fn mids_of_pushed(m: Seq<SectionView>, s: SectionView, k: int, acc: Seq<char>)
    requires
        0 <= k <= m.len(),
    ensures
        mids_from(m.push(s), k, acc) == mids_from(m, k, acc) + " "@ + s.mid,
    decreases m.len() - k,
{
    reveal_with_fuel(mids_from, 3);
    let n = m.push(s);
    if k < m.len() {
        assert(n[k] == m[k]);
        mids_of_pushed(m, s, k + 1, acc + " "@ + m[k].mid);
    } else {
        assert(n[k] == s);
        assert(mids_from(n, k + 1, acc + " "@ + s.mid) == acc + " "@ + s.mid);
    }
}

/// A description is closed by the line of its BUNDLE group, where its sections form one, and says
/// nothing else of the session that was not there; sections keep everything but their mids, which
/// legacy peers and several sections outside of a group do without.
pub proof fn descriptions_are_closed_by_their_group(
    sdp_type: SdpType,
    session: SessionView,
    media: Seq<SectionView>,
    bundle: bool,
    c: ConfigView,
    i: int,
)
    ensures
        ({
            let d = closed_description(sdp_type, session, media, bundle, c);
            &&& d.sdp_type == sdp_type
            &&& d.session.origin == session.origin && d.session.connection == session.connection
            &&& bundle && media.len() > 0 ==> d.session.attributes == session.attributes.push(
                AttributeView { key: "group"@, value: Some(mids_from(media, 0, "BUNDLE"@)) },
            )
            &&& !bundle || media.len() == 0 ==> d.session == session
            &&& d.media.len() == media.len()
            &&& 0 <= i < media.len() ==> d.media[i].kind == media[i].kind && d.media[i].direction
                == media[i].direction && d.media[i].port == media[i].port && d.media[i].protocol
                == media[i].protocol && d.media[i].formats == media[i].formats
                && d.media[i].attributes == media[i].attributes && d.media[i].connection
                == media[i].connection
            &&& 0 <= i < media.len() && (c.sdp_compatibility == SdpCompatibilityMode::LegacySip || (
            !bundle && media.len() > 1)) ==> d.media[i].mid.len() == 0
            &&& 0 <= i < media.len() && c.sdp_compatibility != SdpCompatibilityMode::LegacySip && (
            bundle || media.len() == 1) ==> d.media[i].mid == media[i].mid
        }),
{
}

/// Sections share a transport where an offer has more than one, or where the offer that is answered
/// has a group; legacy peers never share one.
pub proof fn groups_are_offered_and_echoed(
    c: ConfigView,
    sections: int,
    remote: Option<DescriptionView>,
)
    ensures
        c.sdp_compatibility == SdpCompatibilityMode::LegacySip ==> !will_bundle(
            c,
            SdpType::Offer,
            sections,
            remote,
        ) && !will_bundle(c, SdpType::Answer, sections, remote),
        c.sdp_compatibility != SdpCompatibilityMode::LegacySip ==> (will_bundle(
            c,
            SdpType::Offer,
            sections,
            remote,
        ) <==> sections > 1) && (will_bundle(c, SdpType::Answer, sections, remote) <==> remote is Some
            && has_bundle(remote->0)),
{
}

/// The session level of a description names the address that is advertised, for direct transports,
/// and the semantics of its streams, for WebRTC. The first one of a session is numbered by the
/// time.
pub proof fn sessions_are_opened(
    previous: Option<DescriptionView>,
    c: ConfigView,
    now: u64,
    local_ip: Option<Seq<char>>,
)
    ensures
        ({
            let s = first_session(previous, c, now, local_ip);
            &&& c.transport_mode == TransportMode::WebRtc ==> s.connection is None && s.attributes
                == seq![AttributeView { key: "msid-semantic"@, value: Some("WMS *"@) }]
            &&& c.transport_mode != TransportMode::WebRtc ==> s.attributes.len() == 0
                && s.connection == (match c.external_ip {
                Some(ip) => Some(connection_line(ip)),
                None => None,
            })
            &&& previous matches Some(d) ==> s.origin.session_id == d.session.origin.session_id
                && s.origin.session_version == d.session.origin.session_version.wrapping_add(1)
                && s.origin.unicast_address == d.session.origin.unicast_address
            &&& previous is None ==> s.origin.session_id == now && s.origin.session_version
                == now.wrapping_add(1)
            &&& previous is None && c.external_ip is Some ==> s.origin.unicast_address
                == c.external_ip->0
            &&& previous is None && c.external_ip is None && local_ip is Some
                ==> s.origin.unicast_address == local_ip->0
            &&& previous is None && c.external_ip is None && local_ip is None
                ==> s.origin.unicast_address == "127.0.0.1"@
        }),
{
}

/// A transceiver without a mid gets the next number; one that has a mid keeps it, and takes none.
pub proof fn mids_are_numbered(st: MidState, i: int, j: int)
    requires
        0 <= i < st.ts.len(),
        0 <= j < st.ts.len(),
    ensures
        ({
            let x = ensure_mid(st, i);
            &&& x.ts.len() == st.ts.len()
            &&& st.ts[i].mid is Some ==> x == st
            &&& st.ts[i].mid is None ==> x.ts[i].mid == Some(decimal(st.next as nat)) && x.next
                == st.next.wrapping_add(1) && x.ts[i].id == st.ts[i].id && x.ts[i].kind
                == st.ts[i].kind
            &&& j != i ==> x.ts[j] == st.ts[j]
        }),
{
}

/// The retransmissions of a sender use the type that repairs its codec, else the first one of the
/// section; they have the SSRC that they had, else the next one, and the sender is told of both.
pub proof fn retransmissions_are_set_up(st: RtxState, s: SectionView, x: crate::sender::SenderView, pt: u8)
    requires
        st.t.sender == Some(x),
        rtx_from(apt_map(s.attributes), x.params.payload_type, 0) == Some(pt) || (rtx_from(
            apt_map(s.attributes),
            x.params.payload_type,
            0,
        ) is None && primary_rtx(s) == Some(pt)),
    ensures
        ({
            let r = rtx_step(st, s);
            let ssrc = r.t.sender_rtx_ssrc->0;
            &&& r.t.sender_rtx_ssrc is Some
            &&& r.t.sender_rtx_payload_type == Some(pt)
            &&& st.t.sender_rtx_ssrc is Some ==> r.t.sender_rtx_ssrc == st.t.sender_rtx_ssrc
            &&& st.t.sender_rtx_ssrc is None ==> ssrc == st.next_ssrc
            &&& x.nacks.len() > 0 ==> (r.t.sender->0.nacks[0].rtx_config matches Some(c)
                && c.rtx_ssrc == ssrc && c.rtx_payload_type == pt)
            &&& r.t.sender is Some && r.t.sender->0.ssrc == x.ssrc && r.t.sender->0.params
                == x.params
        }),
{
}

} // verus!
