//! Offers and answers of a connection.

use super::ConnectionView;
use super::PeerConnection;
use crate::action::actions;
use crate::action::Action;
use crate::action::ActionView;
use crate::address::has_bundle;
use crate::address::sdp_has_bundle;
use crate::config::ConfigView;
use crate::config::TransportMode;
use crate::describe::answer_mirrors_offer;
use crate::describe::answer_owner;
use crate::describe::answer_slots_from;
use crate::describe::answers_section;
use crate::describe::assign_mids;
use crate::describe::decide_bundle;
use crate::describe::described;
use crate::describe::descriptions_keep_origin;
use crate::describe::ensure_mids_from;
use crate::describe::first_session;
use crate::describe::inputs;
use crate::describe::offer_slots;
use crate::describe::plan_answer;
use crate::describe::plan_offer;
use crate::describe::sections_follow_slots;
use crate::describe::sections_go_as_wanted;
use crate::describe::will_bundle;
use crate::describe::write_description;
use crate::describe::Candidate;
use crate::describe::DescriptionPlan;
use crate::describe::Fresh;
use crate::describe::InputView;
use crate::describe::LocalTransport;
use crate::describe::LocalTransportView;
use crate::describe::MidState;
use crate::describe::SectionInput;
use crate::describe::Slot;
use crate::describe::WriteContext;
use crate::describe::WriteState;
use crate::describe::Writer;
use crate::error::RtcError;
use crate::error::RtcErrorView;
use crate::error::RtcResult;
use crate::ident::is_rtc_id;
use crate::ident::random_rtc_id;
use crate::direction::transceiver_of;
use crate::matching::kind_and_mid;
use crate::matching::kind_without_mid;
use crate::matching::matched;
use crate::matching::matched_rtp_media_sections;
use crate::matching::none_used;
use crate::matching::mid_is;
use crate::matching::pairs;
use crate::outside::base64_encoded;
use crate::remote::live_ids;
use crate::remote::offer_owner;
use crate::remote::offer_section_step;
use crate::remote::offered;
use crate::remote::offered_from;
use crate::remote::OfferState;
use crate::sdes::bare_key;
use crate::sdes::choose_crypto_terms;
use crate::sdes::crypto_terms;
use crate::sdes::crypto_terms_carry_no_mki;
use crate::sdes::crypto_value;
use crate::sdes::generate_sdes_key_params;
use crate::sdes::is_lifetime_tail;
use crate::sdes::key_length;
use crate::sdes::key_params_of;
use crate::sdes::lifetime_of_tail;
use crate::sdes::salt_length;
use crate::sdes::suite_profile;
use crate::sdes::SdesView;
use crate::sdp::attr;
use crate::sdp::has_key;
use crate::sdp::SectionView;
use crate::sdp::DescriptionView;
use crate::sdp::MediaKind;
use crate::sdp::OriginView;
use crate::sdp::SdpType;
use crate::sdp::SessionDescription;
use crate::state::IceGatheringState;
use crate::state::SignalingState;
use crate::text::joined;
use crate::text::text_opt;
use crate::transceiver::transceivers;
use crate::transceiver::TransceiverView;
use crate::text::number;
use crate::text::decimal;
use vstd::prelude::*;

verus! {

/// The name of a signaling state.
pub open spec fn signaling_name(s: SignalingState) -> Seq<char> {
    match s {
        SignalingState::Stable => "Stable"@,
        SignalingState::HaveLocalOffer => "HaveLocalOffer"@,
        SignalingState::HaveRemoteOffer => "HaveRemoteOffer"@,
        SignalingState::Closed => "Closed"@,
    }
}

fn name_of(s: SignalingState) -> (r: &'static str)
    ensures
        r@ == signaling_name(s),
{
    match s {
        SignalingState::Stable => "Stable",
        SignalingState::HaveLocalOffer => "HaveLocalOffer",
        SignalingState::HaveRemoteOffer => "HaveRemoteOffer",
        SignalingState::Closed => "Closed",
    }
}

/// The model of a description plan.
#[verifier::ext_equal]
pub struct PlanView {
    pub sdp_type: SdpType,
    pub slots: Seq<Slot>,
    pub bundle: bool,
}

impl View for DescriptionPlan {
    type V = PlanView;

    open spec fn view(&self) -> PlanView {
        PlanView { sdp_type: self.sdp_type, slots: self.slots@, bundle: self.bundle }
    }
}

/// The model of how planning ends.
pub open spec fn plan_result(r: RtcResult<DescriptionPlan>) -> Result<PlanView, RtcErrorView> {
    match r {
        Ok(p) => Ok(p@),
        Err(e) => Err(e@),
    }
}

/// The error of a connection without transceivers.
pub open spec fn no_transceivers() -> RtcErrorView {
    RtcErrorView::InvalidState("cannot build SDP with no transceivers"@)
}

impl ConnectionView {
    /// The transceivers once all of them have mids.
    pub open spec fn named(self, acts: Seq<ActionView>) -> MidState {
        ensure_mids_from(MidState { ts: self.ts, next: self.next_mid, acts }, 0)
    }

    /// How planning an offer ends.
    pub open spec fn offer_plan(self) -> Result<PlanView, RtcErrorView> {
        if self.signaling != SignalingState::Stable {
            Err(
                RtcErrorView::InvalidState(
                    "cannot create offer while in state "@ + signaling_name(self.signaling),
                ),
            )
        } else if self.ts.len() == 0 {
            Err(no_transceivers())
        } else {
            let ts = self.named(Seq::empty()).ts;
            Ok(
                PlanView {
                    sdp_type: SdpType::Offer,
                    slots: offer_slots(ts),
                    bundle: will_bundle(
                        self.config,
                        SdpType::Offer,
                        offer_slots(ts).len() as int,
                        self.remote,
                    ),
                },
            )
        }
    }

    /// How planning an answer ends.
    pub open spec fn answer_plan(self) -> Result<PlanView, RtcErrorView> {
        if self.signaling != SignalingState::HaveRemoteOffer {
            Err(RtcErrorView::InvalidState("create_answer requires remote offer"@))
        } else if self.ts.len() == 0 {
            Err(no_transceivers())
        } else {
            match self.remote {
                None => Err(
                    RtcErrorView::InvalidState(
                        "create_answer called without remote description"@,
                    ),
                ),
                Some(d) => match answer_slots_from(
                    self.ts,
                    d.media,
                    0,
                    none_used(self.ts.len()),
                    Seq::empty(),
                ) {
                    Ok(slots) => Ok(
                        PlanView {
                            sdp_type: SdpType::Answer,
                            slots,
                            bundle: will_bundle(
                                self.config,
                                SdpType::Answer,
                                slots.len() as int,
                                self.remote,
                            ),
                        },
                    ),
                    Err(e) => Err(e),
                },
            }
        }
    }

    /// Our description settles the ICE role: before anything is described an offerer controls.
    pub open spec fn controls(self) -> bool {
        self.local is None && self.remote is None
    }

    /// What a description is written from.
    pub open spec fn writing(self, sdp_type: SdpType, local_ip: Option<Seq<char>>) -> WriteContext {
        WriteContext {
            config: self.config,
            sdp_type,
            has_local: self.local is Some,
            remote: self.remote,
            role: self.role,
            fingerprint: self.fingerprint,
            local_ip,
        }
    }

    /// Where writing a description starts.
    pub open spec fn blank(
        self,
        now: u64,
        local_ip: Option<Seq<char>>,
        acts: Seq<ActionView>,
    ) -> WriteState {
        WriteState {
            session: first_session(self.local, self.config, now, local_ip),
            media: Seq::empty(),
            ts: self.ts,
            next_ssrc: self.next_ssrc,
            next_mid: self.next_mid,
            acts,
        }
    }

    /// The description that a plan is written to.
    pub open spec fn description_of(
        self,
        plan: PlanView,
        ins: Seq<InputView>,
        now: u64,
        local_ip: Option<Seq<char>>,
        acts: Seq<ActionView>,
    ) -> (DescriptionView, WriteState) {
        described(
            self.blank(now, local_ip, acts),
            plan.slots,
            self.writing(plan.sdp_type, local_ip),
            ins,
            plan.bundle,
        )
    }

    /// Some section of a plan has a direct socket, so that gathering is complete.
    pub open spec fn gathers_directly(self, slots: Seq<Slot>) -> bool {
        self.config.is_direct() && exists|i: int|
            0 <= i < slots.len() && self.ts[(#[trigger] slots[i]).index as int].kind
                != MediaKind::Image
    }

    /// The connection after a description was written.
    pub open spec fn after_description(self, plan: PlanView, w: WriteState) -> ConnectionView {
        ConnectionView {
            ts: w.ts,
            next_ssrc: w.next_ssrc,
            next_mid: w.next_mid,
            gathering: if self.gathers_directly(plan.slots) {
                IceGatheringState::Complete
            } else {
                self.gathering
            },
            ..self
        }
    }
}

/// The transport that a section is written with: its own, or that of the last section that has
/// one.
pub open spec fn local_of(l: Seq<LocalTransportView>, k: int) -> LocalTransportView {
    if k < l.len() {
        l[k]
    } else {
        l[l.len() - 1]
    }
}

/// The model of local transports.
pub open spec fn locals(v: Seq<LocalTransport>) -> Seq<LocalTransportView> {
    v.map_values(|t: LocalTransport| t@)
}

/// SDES key parameters made of one key that fits the suite of our crypto lines. Whatever lifetime
/// follows, they are read as that key with that lifetime and without an MKI.
pub open spec fn fits_suite(key_params: Seq<char>, suite: Seq<char>) -> bool {
    suite_profile(suite) matches Some(p) && exists|key_salt: Seq<u8>|
        #![trigger base64_encoded(key_salt)]
        {
            &&& key_salt.len() == key_length(p) + salt_length(p)
            &&& key_params == "inline:"@ + base64_encoded(key_salt)
            &&& forall|tail: Seq<char>|
                #![trigger key_params_of(key_params + tail)]
                is_lifetime_tail(tail) ==> key_params_of(key_params + tail) == Ok::<
                    SdesView,
                    RtcErrorView,
                >(SdesView { lifetime: lifetime_of_tail(tail), ..bare_key(key_salt) })
        }
}

/// Inputs that were made for the sections of a plan: the transports that were given, and random
/// names and keys.
pub open spec fn are_inputs(
    ins: Seq<InputView>,
    n: int,
    l: Seq<LocalTransportView>,
    suite: Seq<char>,
) -> bool {
    &&& ins.len() == n
    &&& forall|k: int|
        0 <= k < n ==> (#[trigger] ins[k]).transport == local_of(l, k) && is_rtc_id(
            ins[k].fresh.cname,
        ) && is_rtc_id(ins[k].fresh.stream_id) && is_rtc_id(ins[k].fresh.track_id) && fits_suite(
            ins[k].fresh.key_params,
            suite,
        )
}

fn clone_candidates(v: &Vec<Candidate>) -> (r: Vec<Candidate>)
    ensures
        crate::describe::candidates(r@) == crate::describe::candidates(v@),
{
    let ghost want = crate::describe::candidates(v@);
    let mut out: Vec<Candidate> = Vec::new();
    let mut i: usize = 0;
    while i < v.len()
        invariant
            i <= v@.len(),
            want == crate::describe::candidates(v@),
            crate::describe::candidates(out@) == want.take(i as int),
        decreases v@.len() - i,
    {
        let ghost before = out@;
        let c = Candidate {
            line: v[i].line.clone(),
            component: v[i].component,
            ip: v[i].ip.clone(),
            port: v[i].port,
            loopback: v[i].loopback,
        };
        assert(want[i as int] == c@);
        out.push(c);
        assert(crate::describe::candidates(out@) =~= crate::describe::candidates(before).push(
            c@,
        ));
        i += 1;
        assert(want.take(i as int) =~= want.take(i - 1).push(want[i - 1]));
    }
    assert(want.take(i as int) =~= want);
    out
}

impl Clone for LocalTransport {
    fn clone(&self) -> (r: Self)
        ensures
            r@ == self@,
    {
        LocalTransport {
            ufrag: self.ufrag.clone(),
            pwd: self.pwd.clone(),
            candidates: clone_candidates(&self.candidates),
            complete: self.complete,
            rtcp_port: self.rtcp_port,
            fax_port: self.fax_port,
        }
    }
}

impl PeerConnection {
    /// Plans an offer: every transceiver gets a mid, and the sections stand in the order of their
    /// mids.
    pub fn plan_offer(&mut self, list: &mut Vec<Action>) -> (r: RtcResult<DescriptionPlan>)
        requires
            old(self)@.wf(),
        ensures
            final(self)@.wf(),
            plan_result(r) == old(self)@.offer_plan(),
            match r {
                Ok(p) => {
                    let m = old(self)@.named(actions(old(list)@));
                    &&& final(self)@ == (ConnectionView {
                        ts: m.ts,
                        next_mid: m.next,
                        ..old(self)@
                    })
                    &&& actions(final(list)@) == m.acts
                    &&& forall|i: int|
                        0 <= i < p.slots@.len() ==> (#[trigger] p.slots@[i]).index < final(
                            self)@.ts.len()
                },
                Err(_) => final(self)@ == old(self)@ && actions(final(list)@) == actions(
                    old(list)@,
                ),
            },
    {
        let ghost v0 = self@;
        if self.signaling_state != SignalingState::Stable {
            return Err(
                RtcError::InvalidState(
                    joined("cannot create offer while in state ", name_of(self.signaling_state)),
                ),
            );
        }
        if self.transceivers.len() == 0 {
            return Err(RtcError::invalid_state("cannot build SDP with no transceivers"));
        }
        assign_mids(&mut self.transceivers, &mut self.next_mid, list);
        proof {
            named_ignores_actions(
                MidState { ts: v0.ts, next: v0.next_mid, acts: actions(old(list)@) },
                MidState { ts: v0.ts, next: v0.next_mid, acts: Seq::empty() },
                0,
            );
        }
        let slots = plan_offer(&self.transceivers);
        let bundle = decide_bundle(
            &self.config,
            SdpType::Offer,
            slots.len(),
            &self.remote_description,
        );
        assert(self@ =~= (ConnectionView {
            ts: v0.named(actions(old(list)@)).ts,
            next_mid: v0.named(actions(old(list)@)).next,
            ..v0
        }));
        Ok(DescriptionPlan { sdp_type: SdpType::Offer, slots, bundle })
    }

    /// Plans an answer: the transceivers that answer the offered sections, in the order of the
    /// offer.
    pub fn plan_answer(&self) -> (r: RtcResult<DescriptionPlan>)
        ensures
            plan_result(r) == self@.answer_plan(),
            r matches Ok(p) ==> forall|i: int|
                0 <= i < p.slots@.len() ==> (#[trigger] p.slots@[i]).index < self@.ts.len(),
    {
        if self.signaling_state != SignalingState::HaveRemoteOffer {
            return Err(RtcError::invalid_state("create_answer requires remote offer"));
        }
        if self.transceivers.len() == 0 {
            return Err(RtcError::invalid_state("cannot build SDP with no transceivers"));
        }
        let remote = match &self.remote_description {
            Some(d) => d,
            None => {
                return Err(
                    RtcError::invalid_state("create_answer called without remote description"),
                );
            },
        };
        let slots = match plan_answer(&self.transceivers, remote) {
            Ok(s) => s,
            Err(e) => {
                return Err(e);
            },
        };
        let bundle = decide_bundle(
            &self.config,
            SdpType::Answer,
            slots.len(),
            &self.remote_description,
        );
        Ok(DescriptionPlan { sdp_type: SdpType::Answer, slots, bundle })
    }

    /// Whether an offer makes us the controlling ICE agent.
    pub fn offer_controls(&self) -> (r: bool)
        ensures
            r == self@.controls(),
    {
        self.local_description.is_none() && self.remote_description.is_none()
    }

    /// Whether a section of a plan has a socket of its own, beside the primary one.
    pub fn has_own_socket(&self, plan: &DescriptionPlan, k: usize) -> (r: bool)
        ensures
            r == (self@.config.is_direct() && !plan.bundle && k > 0),
    {
        self.config.is_direct() && !plan.bundle && k > 0
    }

    /// Whether a section of a plan needs a socket of its own for RTCP.
    pub fn needs_rtcp_socket(&self, plan: &DescriptionPlan, slot: &Slot) -> (r: bool)
        ensures
            r == (if plan.sdp_type == SdpType::Answer {
                !slot.muxed
            } else {
                !self@.config.offers_rtcp_mux()
            }),
    {
        if plan.sdp_type == SdpType::Answer {
            !slot.muxed
        } else {
            !self.config.offers_rtcp_mux()
        }
    }

    /// Whether a section of a plan needs a fax transport that its transceiver does not have yet.
    pub fn needs_fax_transport(&self, slot: &Slot) -> (r: bool)
        requires
            slot.index < self@.ts.len(),
        ensures
            r == (self@.config.is_direct() && self@.ts[slot.index as int].kind == MediaKind::Image
                && self@.ts[slot.index as int].udtl is None),
    {
        let t = &self.transceivers[slot.index];
        assert(self@.ts[slot.index as int] == t@);
        self.config.is_direct() && t.kind() == MediaKind::Image && t.udtl_transport().is_none()
    }

    /// Makes what is random in the sections of a plan.
    pub fn fresh_inputs(&self, plan: &DescriptionPlan, transports: &Vec<LocalTransport>) -> (r: Vec<
        SectionInput,
    >)
        requires
            transports@.len() > 0,
        ensures
            are_inputs(
                inputs(r@),
                plan.slots@.len() as int,
                locals(transports@),
                crypto_terms(plan.sdp_type, self@.remote).1,
            ),
            r@.len() == plan.slots@.len(),
    {
        let terms = choose_crypto_terms(plan.sdp_type, &self.remote_description);
        let ghost l = locals(transports@);
        let mut out: Vec<SectionInput> = Vec::new();
        let mut k: usize = 0;
        while k < plan.slots.len()
            invariant
                k <= plan.slots@.len(),
                transports@.len() > 0,
                l == locals(transports@),
                suite_profile(terms.suite@) == Some(terms.profile),
                out@.len() == k,
                are_inputs(inputs(out@), k as int, l, terms.suite@),
            decreases plan.slots@.len() - k,
        {
            let i: usize = if k < transports.len() {
                k
            } else {
                transports.len() - 1
            };
            assert(l[i as int] == transports@[i as int]@);
            let x = SectionInput {
                transport: transports[i].clone(),
                fresh: Fresh {
                    cname: random_rtc_id(),
                    stream_id: random_rtc_id(),
                    track_id: random_rtc_id(),
                    key_params: generate_sdes_key_params(terms.profile),
                },
            };
            assert(fits_suite(x@.fresh.key_params, terms.suite@));
            let ghost before = out@;
            out.push(x);
            assert(inputs(out@) =~= inputs(before).push(x@));
            k += 1;
        }
        out
    }

    /// Writes the description of a plan.
    pub fn build_description(
        &mut self,
        plan: &DescriptionPlan,
        ins: &Vec<SectionInput>,
        now: u64,
        local_ip: &Option<String>,
        list: &mut Vec<Action>,
    ) -> (r: SessionDescription)
        requires
            old(self)@.wf(),
            ins@.len() == plan.slots@.len(),
            forall|i: int|
                0 <= i < plan.slots@.len() ==> (#[trigger] plan.slots@[i]).index < old(
                    self)@.ts.len(),
        ensures
            final(self)@.wf(),
            ({
                let x = old(self)@.description_of(
                    plan@,
                    inputs(ins@),
                    now,
                    text_opt(*local_ip),
                    actions(old(list)@),
                );
                &&& r@ == x.0
                &&& final(self)@ == old(self)@.after_description(plan@, x.1)
                &&& actions(final(list)@) == x.1.acts
            }),
    {
        let ghost v0 = self@;
        let mut direct = false;
        if self.config.is_direct() {
            let mut i: usize = 0;
            while i < plan.slots.len()
                invariant
                    i <= plan.slots@.len(),
                    v0 == self@,
                    v0.config.is_direct(),
                    forall|i: int|
                        0 <= i < plan.slots@.len() ==> (#[trigger] plan.slots@[i]).index
                            < v0.ts.len(),
                    direct ==> v0.gathers_directly(plan.slots@),
                    !direct ==> forall|j: int|
                        0 <= j < i ==> v0.ts[(#[trigger] plan.slots@[j]).index as int].kind
                            == MediaKind::Image,
                decreases plan.slots@.len() - i,
            {
                assert(v0.ts[plan.slots@[i as int].index as int]
                    == self.transceivers@[plan.slots@[i as int].index as int]@);
                if self.transceivers[plan.slots[i].index].kind() != MediaKind::Image {
                    direct = true;
                }
                i += 1;
            }
        }
        assert(direct == v0.gathers_directly(plan.slots@));
        let w = Writer {
            config: &self.config,
            sdp_type: plan.sdp_type,
            has_local: self.local_description.is_some(),
            remote: &self.remote_description,
            role: self.dtls_role,
            fingerprint: &self.dtls_fingerprint,
            local_ip,
        };
        assert(w@ == v0.writing(plan.sdp_type, text_opt(*local_ip)));
        let desc = write_description(
            &mut self.transceivers,
            &mut self.ssrc_generator,
            &mut self.next_mid,
            &self.local_description,
            plan,
            &w,
            ins,
            now,
            list,
        );
        if direct {
            self.ice_gathering_state = IceGatheringState::Complete;
        }
        assert(self@ =~= v0.after_description(
            plan@,
            v0.description_of(
                plan@,
                inputs(ins@),
                now,
                text_opt(*local_ip),
                actions(old(list)@),
            ).1,
        ));
        desc
    }

    /// Creates an offer whose sections are written with the given local transports, the last one
    /// for all sections that follow it.
    pub fn create_offer(
        &mut self,
        transports: &Vec<LocalTransport>,
        now: u64,
        local_ip: &Option<String>,
        list: &mut Vec<Action>,
    ) -> (r: RtcResult<SessionDescription>)
        requires
            old(self)@.wf(),
            transports@.len() > 0,
        ensures
            final(self)@.wf(),
            match old(self)@.offer_plan() {
                Err(e) => r matches Err(x) && x@ == e && final(self)@ == old(self)@ && actions(
                    final(list)@,
                ) == actions(old(list)@),
                Ok(plan) => r matches Ok(desc) && exists|ins: Seq<InputView>|
                    are_inputs(
                        ins,
                        plan.slots.len() as int,
                        locals(transports@),
                        crypto_terms(SdpType::Offer, old(self)@.remote).1,
                    ) && is_described(
                        old(self)@.renamed(actions(old(list)@)),
                        plan,
                        #[trigger] old(self)@.renamed(actions(old(list)@)).description_of(
                            plan,
                            ins,
                            now,
                            text_opt(*local_ip),
                            old(self)@.named(actions(old(list)@)).acts,
                        ),
                        desc@,
                        final(self)@,
                        actions(final(list)@),
                    ),
            },
    {
        let plan = match self.plan_offer(list) {
            Ok(p) => p,
            Err(e) => {
                return Err(e);
            },
        };
        let ins = self.fresh_inputs(&plan, transports);
        let ghost i = inputs(ins@);
        let desc = self.build_description(&plan, &ins, now, local_ip, list);
        assert(are_inputs(
            i,
            plan.slots@.len() as int,
            locals(transports@),
            crypto_terms(SdpType::Offer, old(self)@.remote).1,
        ));
        Ok(desc)
    }

    /// Creates an answer whose sections are written with the given local transports, the last one
    /// for all sections that follow it.
    pub fn create_answer(
        &mut self,
        transports: &Vec<LocalTransport>,
        now: u64,
        local_ip: &Option<String>,
        list: &mut Vec<Action>,
    ) -> (r: RtcResult<SessionDescription>)
        requires
            old(self)@.wf(),
            transports@.len() > 0,
        ensures
            final(self)@.wf(),
            match old(self)@.answer_plan() {
                Err(e) => r matches Err(x) && x@ == e && final(self)@ == old(self)@ && actions(
                    final(list)@,
                ) == actions(old(list)@),
                Ok(plan) => r matches Ok(desc) && exists|ins: Seq<InputView>|
                    are_inputs(
                        ins,
                        plan.slots.len() as int,
                        locals(transports@),
                        crypto_terms(SdpType::Answer, old(self)@.remote).1,
                    ) && is_described(
                        old(self)@,
                        plan,
                        #[trigger] old(self)@.description_of(
                            plan,
                            ins,
                            now,
                            text_opt(*local_ip),
                            actions(old(list)@),
                        ),
                        desc@,
                        final(self)@,
                        actions(final(list)@),
                    ),
            },
    {
        let plan = match self.plan_answer() {
            Ok(p) => p,
            Err(e) => {
                return Err(e);
            },
        };
        let ins = self.fresh_inputs(&plan, transports);
        let ghost i = inputs(ins@);
        let desc = self.build_description(&plan, &ins, now, local_ip, list);
        assert(are_inputs(
            i,
            plan.slots@.len() as int,
            locals(transports@),
            crypto_terms(SdpType::Answer, old(self)@.remote).1,
        ));
        Ok(desc)
    }

    /// The transceivers that need a transport of their own for an offer that was written: on plain
    /// RTP without a group, all but the first.
    pub fn own_transport_transceivers(&self, desc: &SessionDescription) -> (r: Vec<u64>)
        ensures
            r@ == (if self@.config.transport_mode == TransportMode::Rtp && !has_bundle(desc@)
                && matched(self@.ts, desc@.media).len() > 0 {
                live_ids(self@.ts, matched(self@.ts, desc@.media)).skip(1)
            } else {
                Seq::empty()
            }),
    {
        let mut out: Vec<u64> = Vec::new();
        if self.config.transport_mode != TransportMode::Rtp || sdp_has_bundle(desc) {
            return out;
        }
        let found = matched_rtp_media_sections(&self.transceivers, desc);
        let ghost t = self@.ts;
        let ghost p = pairs(found@);
        let ghost ids = live_ids(t, p);
        if found.len() == 0 {
            return out;
        }
        let mut i: usize = 1;
        while i < found.len()
            invariant
                1 <= i <= found@.len(),
                t == transceivers(self.transceivers@),
                p == pairs(found@),
                ids == live_ids(t, p),
                forall|j: int|
                    0 <= j < found@.len() ==> (#[trigger] found@[j]).0 < self.transceivers@.len(),
                out@ == ids.subrange(1, i as int),
            decreases found@.len() - i,
        {
            assert(p[i as int].0 == found@[i as int].0);
            let id: u64 = self.transceivers[found[i].0].id();
            assert(ids[i as int] == id);
            out.push(id);
            i += 1;
            assert(ids.subrange(1, i as int) =~= ids.subrange(1, i - 1).push(ids[i - 1]));
        }
        assert(ids.subrange(1, i as int) =~= ids.skip(1));
        out
    }
}

impl ConnectionView {
    /// The connection once all its transceivers have mids.
    pub open spec fn renamed(self, acts: Seq<ActionView>) -> ConnectionView {
        ConnectionView {
            ts: self.named(acts).ts,
            next_mid: self.named(acts).next,
            ..self
        }
    }
}

/// A description `desc` was written as `x` says.
pub open spec fn is_described(
    v: ConnectionView,
    plan: PlanView,
    x: (DescriptionView, WriteState),
    desc: DescriptionView,
    after: ConnectionView,
    acts: Seq<ActionView>,
) -> bool {
    &&& desc == x.0
    &&& after == v.after_description(plan, x.1)
    &&& acts == x.1.acts
}

proof fn named_ignores_actions(a: MidState, b: MidState, k: int)
    requires
        a.ts == b.ts,
        a.next == b.next,
    ensures
        ensure_mids_from(a, k).ts == ensure_mids_from(b, k).ts,
        ensure_mids_from(a, k).next == ensure_mids_from(b, k).next,
    decreases a.ts.len() - k,
{
    if 0 <= k < a.ts.len() {
        named_ignores_actions(
            crate::describe::ensure_mid(a, k),
            crate::describe::ensure_mid(b, k),
            k + 1,
        );
    }
}

/// Every transceiver keeps the mid that it has, and each section from index `k` on has its mid at
/// some transceiver.
proof fn offer_gives_mids(
    st: OfferState,
    m: Seq<SectionView>,
    k: int,
    c: ConfigView,
    primary: Option<u64>,
)
    requires
        0 <= k <= m.len(),
        st.used.len() == st.ts.len(),
        forall|j: int| 0 <= j < m.len() ==> (#[trigger] m[j]).mid.len() > 0,
    ensures
        ({
            let f = offered_from(st, m, k, c, primary);
            &&& f.ts.len() >= st.ts.len()
            &&& forall|i: int|
                0 <= i < st.ts.len() && st.ts[i].mid is Some ==> (#[trigger] f.ts[i]).mid
                    == st.ts[i].mid
            &&& forall|j: int| k <= j < m.len() ==> has_mid(f.ts, (#[trigger] m[j]).mid)
        }),
    decreases m.len() - k,
{
    if k < m.len() {
        let s = m[k];
        crate::matching::free_facts(st.ts, st.used, kind_and_mid(s.kind, s.mid), 0);
        crate::matching::free_facts(st.ts, st.used, kind_without_mid(s.kind), 0);
        let next = offer_section_step(st, s, c, primary);
        offer_gives_mids(next, m, k + 1, c, primary);
        let f = offered_from(st, m, k, c, primary);
        let at: int = match offer_owner(st.ts, st.used, s) {
            Some(o) => o.0,
            None => st.ts.len() as int,
        };
        assert(next.ts[at].mid == Some(s.mid));
        assert(f.ts[at].mid == Some(s.mid));
        assert(has_mid(f.ts, s.mid));
        assert forall|i: int| 0 <= i < st.ts.len() && st.ts[i].mid is Some implies (
        #[trigger] f.ts[i]).mid == st.ts[i].mid by {
            assert(next.ts[i].mid == st.ts[i].mid);
        }
    }
}

/// Some transceiver has a mid.
pub open spec fn has_mid(ts: Seq<TransceiverView>, mid: Seq<char>) -> bool {
    exists|i: int| 0 <= i < ts.len() && (#[trigger] ts[i]).mid == Some(mid)
}

/// The mid of a transceiver is that of a section before index `k`.
spec fn mid_before(t: TransceiverView, m: Seq<SectionView>, k: int) -> bool {
    exists|j: int| 0 <= j < k && t.mid == Some((#[trigger] m[j]).mid)
}

proof fn answers_are_found(
    ts: Seq<TransceiverView>,
    m: Seq<SectionView>,
    k: int,
    used: Seq<bool>,
    acc: Seq<Slot>,
)
    requires
        0 <= k <= m.len(),
        used.len() == ts.len(),
        forall|j: int| 0 <= j < m.len() ==> (#[trigger] m[j]).mid.len() > 0,
        forall|i: int, j: int|
            0 <= i < j < m.len() ==> (#[trigger] m[i]).mid != (#[trigger] m[j]).mid,
        forall|j: int| 0 <= j < m.len() ==> has_mid(ts, (#[trigger] m[j]).mid),
        forall|i: int| 0 <= i < ts.len() && used[i] ==> mid_before(#[trigger] ts[i], m, k),
    ensures
        answer_slots_from(ts, m, k, used, acc) is Ok,
    decreases m.len() - k,
{
    if k < m.len() {
        let mid = m[k].mid;
        crate::matching::free_facts(ts, used, mid_is(mid), 0);
        assert(has_mid(ts, mid));
        let i = choose|i: int| 0 <= i < ts.len() && (#[trigger] ts[i]).mid == Some(mid);
        if used[i] {
            assert(mid_before(ts[i], m, k));
        }
        assert(mid_is(mid)(ts[i]));
        let o = answer_owner(ts, used, m[k])->0;
        let next = used.update(o, true);
        assert forall|i: int| 0 <= i < ts.len() && next[i] implies mid_before(
            #[trigger] ts[i],
            m,
            k + 1,
        ) by {
            if i == o {
                assert(ts[i].mid == Some(m[k].mid));
            } else {
                assert(mid_before(ts[i], m, k));
                let j = choose|j: int| 0 <= j < k && ts[i].mid == Some((#[trigger] m[j]).mid);
                assert(ts[i].mid == Some(m[j].mid));
            }
        }
        answers_are_found(
            ts,
            m,
            k + 1,
            next,
            acc.push(
                Slot {
                    index: o as usize,
                    muxed: has_key(m[k].attributes, "rtcp-mux"@),
                    offered: Some(transceiver_of(m[k].direction)),
                },
            ),
        );
    }
}

/// An offer whose sections have mids of their own can be answered once it is applied, whatever
/// transceivers were there before.
pub proof fn offers_can_be_answered(
    ts: Seq<TransceiverView>,
    next_id: u64,
    acts: Seq<ActionView>,
    m: Seq<SectionView>,
    c: ConfigView,
    primary: Option<u64>,
)
    requires
        forall|j: int| 0 <= j < m.len() ==> (#[trigger] m[j]).mid.len() > 0,
        forall|i: int, j: int|
            0 <= i < j < m.len() ==> (#[trigger] m[i]).mid != (#[trigger] m[j]).mid,
    ensures
        ({
            let f = offered(ts, next_id, acts, m, c, primary).ts;
            answer_slots_from(f, m, 0, none_used(f.len()), Seq::empty()) is Ok
        }),
{
    offer_gives_mids(
        OfferState { ts, used: none_used(ts.len()), next_id, acts },
        m,
        0,
        c,
        primary,
    );
    let f = offered(ts, next_id, acts, m, c, primary).ts;
    answers_are_found(f, m, 0, none_used(f.len()), Seq::empty());
}

/// The number of used transceivers of a kind from index `k` on.
spec fn taken(ts: Seq<TransceiverView>, used: Seq<bool>, kind: MediaKind, k: int) -> nat
    decreases ts.len() - k,
{
    if k < 0 || k >= ts.len() {
        0
    } else {
        (if used[k] && ts[k].kind == kind {
            1nat
        } else {
            0nat
        }) + taken(ts, used, kind, k + 1)
    }
}

/// The number of transceivers of a kind from index `k` on.
spec fn present(ts: Seq<TransceiverView>, kind: MediaKind, k: int) -> nat
    decreases ts.len() - k,
{
    if k < 0 || k >= ts.len() {
        0
    } else {
        (if ts[k].kind == kind {
            1nat
        } else {
            0nat
        }) + present(ts, kind, k + 1)
    }
}

/// The number of sections of a kind from index `k` on.
spec fn asked(m: Seq<SectionView>, kind: MediaKind, k: int) -> nat
    decreases m.len() - k,
{
    if k < 0 || k >= m.len() {
        0
    } else {
        (if m[k].kind == kind {
            1nat
        } else {
            0nat
        }) + asked(m, kind, k + 1)
    }
}

proof fn taking_counts(
    a: Seq<TransceiverView>,
    b: Seq<TransceiverView>,
    used: Seq<bool>,
    i: int,
    kind: MediaKind,
    k: int,
)
    requires
        0 <= k,
        0 <= i < a.len(),
        a.len() == b.len(),
        used.len() == a.len(),
        !used[i],
        forall|j: int| 0 <= j < a.len() ==> (#[trigger] a[j]).kind == b[j].kind,
    ensures
        taken(b, used.update(i, true), kind, k) == taken(a, used, kind, k) + (if k <= i
            && a[i].kind == kind {
            1nat
        } else {
            0nat
        }),
    decreases a.len() - k,
{
    if k < a.len() {
        assert(a[k].kind == b[k].kind);
        taking_counts(a, b, used, i, kind, k + 1);
    }
}

proof fn adding_counts(
    ts: Seq<TransceiverView>,
    used: Seq<bool>,
    t: TransceiverView,
    kind: MediaKind,
    k: int,
)
    requires
        0 <= k <= ts.len(),
        used.len() == ts.len(),
    ensures
        taken(ts.push(t), used.push(true), kind, k) == taken(ts, used, kind, k) + (if t.kind
            == kind {
            1nat
        } else {
            0nat
        }),
    decreases ts.len() - k,
{
    if k < ts.len() {
        adding_counts(ts, used, t, kind, k + 1);
    } else {
        assert(taken(ts.push(t), used.push(true), kind, k + 1) == 0);
    }
}

proof fn taken_are_present(ts: Seq<TransceiverView>, used: Seq<bool>, kind: MediaKind, k: int)
    requires
        0 <= k,
    ensures
        taken(ts, used, kind, k) <= present(ts, kind, k),
        taken(ts, used, kind, k) < present(ts, kind, k) ==> exists|i: int|
            k <= i < ts.len() && !used[i] && (#[trigger] ts[i]).kind == kind,
    decreases ts.len() - k,
{
    if k < ts.len() {
        taken_are_present(ts, used, kind, k + 1);
        if taken(ts, used, kind, k) < present(ts, kind, k) {
            if !used[k] && ts[k].kind == kind {
                assert(ts[k].kind == kind);
            } else {
                let i = choose|i: int|
                    k + 1 <= i < ts.len() && !used[i] && (#[trigger] ts[i]).kind == kind;
                assert(ts[i].kind == kind);
            }
        }
    }
}

proof fn none_are_taken(ts: Seq<TransceiverView>, kind: MediaKind, k: int)
    ensures
        taken(ts, none_used(ts.len()), kind, k) == 0,
    decreases ts.len() - k,
{
    if 0 <= k < ts.len() {
        none_are_taken(ts, kind, k + 1);
    }
}

proof fn offer_takes_one_each(
    st: OfferState,
    m: Seq<SectionView>,
    k: int,
    c: ConfigView,
    primary: Option<u64>,
    kind: MediaKind,
)
    requires
        0 <= k <= m.len(),
        st.used.len() == st.ts.len(),
    ensures
        ({
            let f = offered_from(st, m, k, c, primary);
            taken(f.ts, f.used, kind, 0) == taken(st.ts, st.used, kind, 0) + asked(m, kind, k)
        }),
    decreases m.len() - k,
{
    if k < m.len() {
        let s = m[k];
        crate::matching::free_facts(st.ts, st.used, kind_and_mid(s.kind, s.mid), 0);
        crate::matching::free_facts(st.ts, st.used, kind_without_mid(s.kind), 0);
        crate::matching::free_facts(st.ts, st.used, crate::matching::kind_is(s.kind), 0);
        let next = offer_section_step(st, s, c, primary);
        match offer_owner(st.ts, st.used, s) {
            Some(o) => {
                taking_counts(st.ts, next.ts, st.used, o.0, kind, 0);
            },
            None => {
                adding_counts(st.ts, st.used, next.ts[st.ts.len() as int], kind, 0);
                assert(next.ts =~= st.ts.push(next.ts[st.ts.len() as int]));
            },
        }
        offer_takes_one_each(next, m, k + 1, c, primary, kind);
    }
}

proof fn answers_are_found_by_kind(
    ts: Seq<TransceiverView>,
    m: Seq<SectionView>,
    k: int,
    used: Seq<bool>,
    acc: Seq<Slot>,
)
    requires
        0 <= k <= m.len(),
        used.len() == ts.len(),
        forall|j: int| 0 <= j < m.len() ==> (#[trigger] m[j]).mid.len() == 0,
        forall|kind: MediaKind| #[trigger]
            taken(ts, used, kind, 0) + asked(m, kind, k) <= present(ts, kind, 0),
    ensures
        answer_slots_from(ts, m, k, used, acc) is Ok,
    decreases m.len() - k,
{
    if k < m.len() {
        let s = m[k];
        let p = crate::matching::kind_is(s.kind);
        crate::matching::free_facts(ts, used, p, 0);
        taken_are_present(ts, used, s.kind, 0);
        assert(taken(ts, used, s.kind, 0) + asked(m, s.kind, k) <= present(ts, s.kind, 0));
        let i = choose|i: int| 0 <= i < ts.len() && !used[i] && (#[trigger] ts[i]).kind == s.kind;
        assert(p(ts[i]));
        let o = answer_owner(ts, used, s)->0;
        let next = used.update(o, true);
        assert forall|kind: MediaKind| #[trigger]
            taken(ts, next, kind, 0) + asked(m, kind, k + 1) <= present(ts, kind, 0) by {
            taking_counts(ts, ts, used, o, kind, 0);
            assert(taken(ts, used, kind, 0) + asked(m, kind, k) <= present(ts, kind, 0));
        }
        answers_are_found_by_kind(
            ts,
            m,
            k + 1,
            next,
            acc.push(
                Slot {
                    index: o as usize,
                    muxed: has_key(s.attributes, "rtcp-mux"@),
                    offered: Some(transceiver_of(s.direction)),
                },
            ),
        );
    }
}

/// An offer without mids, as legacy peers send it, can be answered once it is applied, whatever
/// transceivers were there before.
pub proof fn offers_without_mids_can_be_answered(
    ts: Seq<TransceiverView>,
    next_id: u64,
    acts: Seq<ActionView>,
    m: Seq<SectionView>,
    c: ConfigView,
    primary: Option<u64>,
)
    requires
        forall|j: int| 0 <= j < m.len() ==> (#[trigger] m[j]).mid.len() == 0,
    ensures
        ({
            let f = offered(ts, next_id, acts, m, c, primary).ts;
            answer_slots_from(f, m, 0, none_used(f.len()), Seq::empty()) is Ok
        }),
{
    let st = OfferState { ts, used: none_used(ts.len()), next_id, acts };
    let f = offered(ts, next_id, acts, m, c, primary);
    assert forall|kind: MediaKind| #[trigger]
        taken(f.ts, none_used(f.ts.len()), kind, 0) + asked(m, kind, 0) <= present(
            f.ts,
            kind,
            0,
        ) by {
        none_are_taken(ts, kind, 0);
        none_are_taken(f.ts, kind, 0);
        offer_takes_one_each(st, m, 0, c, primary, kind);
        taken_are_present(f.ts, f.used, kind, 0);
    }
    answers_are_found_by_kind(f.ts, m, 0, none_used(f.ts.len()), Seq::empty());
}

proof fn mids_are_given(st: MidState, k: int, i: int)
    requires
        0 <= k <= st.ts.len(),
        0 <= i < st.ts.len(),
    ensures
        ensure_mids_from(st, k).ts.len() == st.ts.len(),
        st.ts[i].mid is Some ==> ensure_mids_from(st, k).ts[i].mid == st.ts[i].mid,
        i >= k ==> ensure_mids_from(st, k).ts[i].mid is Some,
    decreases st.ts.len() - k,
{
    if k < st.ts.len() {
        mids_are_given(crate::describe::ensure_mid(st, k), k + 1, i);
    }
}

/// Every transceiver has a mid in an offer, and keeps the one that it has.
pub proof fn offered_transceivers_have_mids(
    v: ConnectionView,
    acts: Seq<ActionView>,
    i: int,
)
    requires
        0 <= i < v.ts.len(),
    ensures
        v.named(acts).ts.len() == v.ts.len(),
        v.named(acts).ts[i].mid is Some,
        v.ts[i].mid is Some ==> v.named(acts).ts[i].mid == v.ts[i].mid,
{
    mids_are_given(MidState { ts: v.ts, next: v.next_mid, acts }, 0, i);
}

/// No two transceivers share a mid, and every mid that is a number was passed over already.
pub open spec fn mids_apart(ts: Seq<TransceiverView>, next: u16) -> bool {
    &&& forall|i: int, j: int|
        0 <= i < j < ts.len() && (#[trigger] ts[i]).mid is Some ==> (#[trigger] ts[j]).mid
            != ts[i].mid
    &&& forall|i: int|
        0 <= i < ts.len() ==> ((#[trigger] ts[i]).mid matches Some(m) ==> (number(
            m,
            65535,
        ) matches Some(n) ==> n < next))
}

proof fn given_mids_stay_apart(st: MidState, k: int)
    requires
        0 <= k <= st.ts.len(),
        mids_apart(st.ts, st.next),
        st.next + (st.ts.len() - k) <= 65535,
    ensures
        mids_apart(ensure_mids_from(st, k).ts, ensure_mids_from(st, k).next),
    decreases st.ts.len() - k,
{
    if k < st.ts.len() {
        let a = crate::describe::ensure_mid(st, k);
        if st.ts[k].mid is None {
            let fresh = decimal(st.next as nat);
            crate::text::number_of_decimal(st.next as nat, 65535);
            assert(a.ts[k].mid == Some(fresh));
            assert forall|i: int| 0 <= i < a.ts.len() implies ((#[trigger] a.ts[i]).mid matches Some(
                m,
            ) ==> (number(m, 65535) matches Some(n) ==> n < a.next)) by {
                if i != k {
                    assert(a.ts[i] == st.ts[i]);
                }
            }
            assert forall|i: int, j: int|
                0 <= i < j < a.ts.len() && (#[trigger] a.ts[i]).mid is Some implies (
            #[trigger] a.ts[j]).mid != a.ts[i].mid by {
                if i != k {
                    assert(a.ts[i] == st.ts[i]);
                }
                if j != k {
                    assert(a.ts[j] == st.ts[j]);
                }
            }
        }
        given_mids_stay_apart(a, k + 1);
    }
}

/// The mids of an offer differ, as long as those that are there do, all numbers among them were
/// passed over, and the counter does not run out.
pub proof fn offered_mids_are_distinct(
    v: ConnectionView,
    acts: Seq<ActionView>,
    i: int,
    j: int,
)
    requires
        mids_apart(v.ts, v.next_mid),
        v.next_mid + v.ts.len() <= 65535,
        0 <= i < j < v.ts.len(),
    ensures
        v.named(acts).ts[i].mid != v.named(acts).ts[j].mid,
        mids_apart(v.named(acts).ts, v.named(acts).next),
{
    let st = MidState { ts: v.ts, next: v.next_mid, acts };
    given_mids_stay_apart(st, 0);
    mids_are_given(st, 0, i);
    mids_are_given(st, 0, j);
}

/// A description that follows another one of ours keeps its `o=` line but for the version, which
/// moves on by one.
pub proof fn origin_moves_one_version_on(
    v: ConnectionView,
    plan: PlanView,
    ins: Seq<InputView>,
    now: u64,
    local_ip: Option<Seq<char>>,
    acts: Seq<ActionView>,
)
    ensures
        v.local matches Some(d) ==> v.description_of(plan, ins, now, local_ip, acts).0.session.origin
            == (OriginView {
            session_version: d.session.origin.session_version.wrapping_add(1),
            ..d.session.origin
        }),
{
    descriptions_keep_origin(
        v.blank(now, local_ip, acts),
        plan.slots,
        v.writing(plan.sdp_type, local_ip),
        ins,
        plan.bundle,
    );
}

/// An answer has a section for each offered one. It receives there if and only if the offer sends
/// and the transceiver wants to receive, and sends only where the offer receives and the
/// transceiver wants to send.
pub proof fn answers_go_with_the_offer(
    v: ConnectionView,
    remote: DescriptionView,
    plan: PlanView,
    ins: Seq<InputView>,
    now: u64,
    local_ip: Option<Seq<char>>,
    acts: Seq<ActionView>,
    k: int,
)
    requires
        v.remote == Some(remote),
        v.ts.len() <= usize::MAX,
        v.answer_plan() == Ok::<PlanView, RtcErrorView>(plan),
        0 <= k < remote.media.len(),
    ensures
        ({
            let d = v.description_of(plan, ins, now, local_ip, acts).0;
            let offered = remote.media[k].direction;
            let t = v.ts[plan.slots[k].index as int];
            &&& d.media.len() == remote.media.len()
            &&& d.media[k].kind == t.kind
            &&& d.media[k].direction.spec_receives() <==> offered.spec_sends()
                && t.desired.spec_receives()
            &&& d.media[k].direction.spec_sends() ==> offered.spec_receives()
                && t.desired.spec_sends()
        }),
{
    answer_mirrors_offer(v.ts, remote.media, plan.slots);
    assert forall|i: int| 0 <= i < plan.slots.len() implies (#[trigger] plan.slots[i]).index
        < v.ts.len() by {
        assert(answers_section(v.ts, plan.slots[i], remote.media[i]));
    }
    assert(answers_section(v.ts, plan.slots[k], remote.media[k]));
    let st = v.blank(now, local_ip, acts);
    let x = v.writing(plan.sdp_type, local_ip);
    sections_follow_slots(st, plan.slots, x, ins, plan.bundle, k);
    sections_go_as_wanted(st, plan.slots, x, ins, plan.bundle, k);
}

proof fn naming_keeps_wishes(st: MidState, k: int, i: int)
    requires
        0 <= k <= st.ts.len(),
        0 <= i < st.ts.len(),
    ensures
        ({
            let a = st.ts[i];
            let b = ensure_mids_from(st, k).ts[i];
            &&& b.kind == a.kind
            &&& b.desired == a.desired
            &&& b.sender is None <==> a.sender is None
            &&& b.sender_ssrc == a.sender_ssrc
        }),
    decreases st.ts.len() - k,
{
    if k < st.ts.len() {
        naming_keeps_wishes(crate::describe::ensure_mid(st, k), k + 1, i);
    }
}

/// An offer has a section for each transceiver. It receives there if and only if the transceiver
/// wants to, and sends only where the transceiver wants to; audio and video only where there is a
/// sender or one is reserved.
pub proof fn offers_go_as_wanted(
    v: ConnectionView,
    plan: PlanView,
    ins: Seq<InputView>,
    now: u64,
    local_ip: Option<Seq<char>>,
    acts: Seq<ActionView>,
    k: int,
)
    requires
        v.ts.len() <= usize::MAX,
        v.offer_plan() == Ok::<PlanView, RtcErrorView>(plan),
        0 <= k < v.ts.len(),
    ensures
        ({
            let d = v.renamed(acts).description_of(
                plan,
                ins,
                now,
                local_ip,
                v.named(acts).acts,
            ).0;
            let t = v.ts[plan.slots[k].index as int];
            &&& d.media.len() == v.ts.len()
            &&& plan.slots[k].index < v.ts.len()
            &&& d.media[k].kind == t.kind
            &&& d.media[k].direction.spec_receives() <==> t.desired.spec_receives()
            &&& d.media[k].direction.spec_sends() ==> t.desired.spec_sends()
            &&& (t.kind == MediaKind::Audio || t.kind == MediaKind::Video) && t.sender is None
                && t.sender_ssrc is None ==> !d.media[k].direction.spec_sends()
        }),
{
    let m = MidState { ts: v.ts, next: v.next_mid, acts };
    named_ignores_actions(m, MidState { acts: Seq::empty(), ..m }, 0);
    mids_are_given(m, 0, 0);
    let w = v.renamed(acts);
    crate::order::ordering_is_a_permutation(w.ts, w.ts.len() as int);
    let st = w.blank(now, local_ip, v.named(acts).acts);
    let x = w.writing(plan.sdp_type, local_ip);
    naming_keeps_wishes(m, 0, plan.slots[k].index as int);
    sections_follow_slots(st, plan.slots, x, ins, plan.bundle, k);
    sections_go_as_wanted(st, plan.slots, x, ins, plan.bundle, k);
}

/// With SDES each section of a description ends in a crypto line of the suite at hand. It is read
/// as one key that fits the suite, with the lifetime at hand and without an MKI.
pub proof fn crypto_lines_can_be_read(
    v: ConnectionView,
    plan: PlanView,
    ins: Seq<InputView>,
    l: Seq<LocalTransportView>,
    now: u64,
    local_ip: Option<Seq<char>>,
    acts: Seq<ActionView>,
    k: int,
)
    requires
        v.config.transport_mode == TransportMode::Srtp,
        0 <= k < plan.slots.len(),
        forall|i: int|
            0 <= i < plan.slots.len() ==> (#[trigger] plan.slots[i]).index < v.ts.len(),
        are_inputs(
            ins,
            plan.slots.len() as int,
            l,
            crypto_terms(plan.sdp_type, v.remote).1,
        ),
    ensures
        ({
            let s = v.description_of(plan, ins, now, local_ip, acts).0.media[k];
            let terms = crypto_terms(plan.sdp_type, v.remote);
            let params = ins[k].fresh.key_params;
            &&& s.attributes.last() == attr("crypto"@, crypto_value(terms, params))
            &&& suite_profile(terms.1) matches Some(p) && (key_params_of(
                params + terms.2,
            ) matches Ok(x) && x.key_salt.len() == key_length(p) + salt_length(p) && x.mki is None
                && x.mki_raw is None && x.lifetime == lifetime_of_tail(terms.2))
        }),
{
    sections_follow_slots(
        v.blank(now, local_ip, acts),
        plan.slots,
        v.writing(plan.sdp_type, local_ip),
        ins,
        plan.bundle,
        k,
    );
    crypto_terms_carry_no_mki(plan.sdp_type, v.remote);
    assert(fits_suite(ins[k].fresh.key_params, crypto_terms(plan.sdp_type, v.remote).1));
}

} // verus!
