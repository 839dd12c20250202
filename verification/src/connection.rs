//! A connection: its state, its transceivers and the offer/answer exchange.

use crate::action::actions;
use crate::action::push_action;
use crate::action::Action;
use crate::action::ActionView;
use crate::address::HostTable;
use crate::address::IpAddress;
use crate::address::SocketAddress;
use crate::codec::CodecView;
use crate::codec::RtpCodecParameters;
use crate::config::ConfigView;
use crate::config::RtcConfiguration;
use crate::config::TransportMode;
use crate::direction::TransceiverDirection;
use crate::error::RtcError;
use crate::error::RtcErrorView;
use crate::error::RtcResult;
use crate::ident::is_rtc_id;
use crate::ident::random_rtc_id;
use crate::local::all_wf;
use crate::local::apply_local_offer;
use crate::local::apply_send_directions;
use crate::local::local_offer_from;
use crate::local::permitted;
use crate::local::record_offered_directions;
use crate::local::recorded_from;
use crate::local::TsStep;
use crate::negotiate::attach_step;
use crate::negotiate::attach_transceiver;
use crate::negotiate::Step;
use crate::outside::random_u32;
use crate::receiver::fresh_receiver;
use crate::receiver::shared_plan;
use crate::receiver::RtpReceiverBuilder;
use crate::registry::drop_transports;
use crate::registry::dropped;
use crate::registry::find_transport;
use crate::registry::transport_of;
use crate::registry::Extra;
use crate::remote::answered;
use crate::remote::apply_reinvite;
use crate::remote::apply_remote_answer;
use crate::remote::apply_remote_offer;
use crate::remote::check_fingerprint;
use crate::remote::credentials_of;
use crate::remote::direct_address;
use crate::remote::direct_address_from;
use crate::remote::follow_reinvite_address;
use crate::remote::media_differs;
use crate::remote::media_parameters_changed;
use crate::remote::next_mid_after;
use crate::remote::next_mid_from;
use crate::remote::offered;
use crate::remote::orphaned_transceivers;
use crate::remote::orphans;
use crate::remote::plan_media_transports;
use crate::remote::read_credentials;
use crate::remote::reinvite_address;
use crate::remote::reinvited;
use crate::remote::required_fingerprint;
use crate::remote::role_after;
use crate::remote::settle_role;
use crate::remote::transport_plan;
use crate::remote::Credentials;
use crate::remote::CredentialsView;
use crate::remote::TransportPlan;
use crate::sdp::description_opt;
use crate::sdp::DescriptionView;
use crate::sdp::MediaKind;
use crate::sdp::SdpType;
use crate::sdp::SessionDescription;
use crate::search::first;
use crate::search::first_from;
use crate::sender::is_fresh_sender;
use crate::sender::RtpSender;
use crate::sender::RtpSenderBuilder;
use crate::sender::SenderPlan;
use crate::sender::SenderView;
use crate::signaling::local_transition;
use crate::signaling::next_local_state;
use crate::signaling::next_remote_state;
use crate::signaling::remote_transition;
use crate::state::reason_opt;
use crate::state::DisconnectReason;
use crate::state::IceConnectionState;
use crate::state::IceGatheringState;
use crate::state::PeerConnectionState;
use crate::state::ReasonView;
use crate::state::SignalingState;
use crate::text::same_text_opt;
use crate::text::text_opt;
use crate::transceiver::fresh_transceiver;
use crate::transceiver::transceivers;
use crate::transceiver::RtpTransceiver;
use crate::transceiver::TransceiverView;
use vstd::prelude::*;

pub mod channels;
pub mod deciding;
pub mod fax;
pub mod gathering;
pub mod identity;
pub mod lifecycle;
pub mod moving;
pub mod observing;
pub mod offering;
pub mod transports;
pub mod wording;

verus! {

/// The model of a connection.
#[verifier::ext_equal]
pub struct ConnectionView {
    pub config: ConfigView,
    pub signaling: SignalingState,
    pub peer: PeerConnectionState,
    pub ice: IceConnectionState,
    pub gathering: IceGatheringState,
    pub local: Option<DescriptionView>,
    pub remote: Option<DescriptionView>,
    pub ts: Seq<TransceiverView>,
    /// The identifier of the next transceiver.
    pub next_id: u64,
    /// The next mid that is allocated.
    pub next_mid: u16,
    /// Our DTLS fingerprint.
    pub fingerprint: Seq<char>,
    pub remote_fingerprint: Option<Seq<char>>,
    pub dtls: Option<u64>,
    /// The primary transport.
    pub rtp: Option<u64>,
    /// The transports that single transceivers have of their own.
    pub media: Seq<(u64, u64)>,
    /// The transceivers with an ICE transport of their own.
    pub media_ice: Seq<u64>,
    pub sctp: Option<u64>,
    /// The identifiers of the open data channels.
    pub channels: Seq<u16>,
    /// Our DTLS role: true for the client.
    pub role: Option<bool>,
    /// The next SSRC that is handed out.
    pub next_ssrc: u32,
    pub reason: Option<ReasonView>,
    /// The observers of all transports, present and to come.
    pub observers: Seq<u64>,
}

/// A connection.
pub struct PeerConnection {
    config: RtcConfiguration,
    signaling_state: SignalingState,
    peer_state: PeerConnectionState,
    ice_connection_state: IceConnectionState,
    ice_gathering_state: IceGatheringState,
    local_description: Option<SessionDescription>,
    remote_description: Option<SessionDescription>,
    transceivers: Vec<RtpTransceiver>,
    next_id: u64,
    next_mid: u16,
    dtls_fingerprint: String,
    remote_dtls_fingerprint: Option<String>,
    dtls_transport: Option<u64>,
    rtp_transport: Option<u64>,
    rtp_media_transports: Vec<(u64, u64)>,
    rtp_media_ice_transports: Vec<u64>,
    sctp_transport: Option<u64>,
    data_channels: Vec<u16>,
    dtls_role: Option<bool>,
    ssrc_generator: u32,
    disconnect_reason: Option<DisconnectReason>,
    rtp_observers: Vec<u64>,
}

impl View for PeerConnection {
    type V = ConnectionView;

    closed spec fn view(&self) -> ConnectionView {
        ConnectionView {
            config: self.config@,
            signaling: self.signaling_state,
            peer: self.peer_state,
            ice: self.ice_connection_state,
            gathering: self.ice_gathering_state,
            local: description_opt(self.local_description),
            remote: description_opt(self.remote_description),
            ts: transceivers(self.transceivers@),
            next_id: self.next_id,
            next_mid: self.next_mid,
            fingerprint: self.dtls_fingerprint@,
            remote_fingerprint: text_opt(self.remote_dtls_fingerprint),
            dtls: self.dtls_transport,
            rtp: self.rtp_transport,
            media: self.rtp_media_transports@,
            media_ice: self.rtp_media_ice_transports@,
            sctp: self.sctp_transport,
            channels: self.data_channels@,
            role: self.dtls_role,
            next_ssrc: self.ssrc_generator,
            reason: reason_opt(self.disconnect_reason),
            observers: self.rtp_observers@,
        }
    }
}

impl ConnectionView {
    /// The transceivers are in order.
    pub open spec fn wf(self) -> bool {
        all_wf(self.ts)
    }

    /// The transceivers and the actions so far.
    pub open spec fn step(self, acts: Seq<ActionView>) -> TsStep {
        TsStep { ts: self.ts, acts }
    }

    /// The connection after a re-offer, or its answer, was applied at once.
    pub open spec fn reinvited(
        self,
        d: DescriptionView,
        hosts: Seq<(Seq<char>, IpAddress)>,
        acts: Seq<ActionView>,
    ) -> Change {
        let a = reinvited(self.step(acts), d.media);
        let b = reinvite_address(a.acts, self.config.transport_mode, d, hosts, self.rtp);
        let c = dropped(
            Extra { media: self.media, ice: self.media_ice, acts: b },
            orphans(a.ts, d.media),
        );
        Change {
            v: ConnectionView {
                ts: a.ts,
                remote: Some(d),
                media: c.media,
                media_ice: c.ice,
                ..self
            },
            acts: c.acts,
        }
    }

    /// The connection once the negotiated directions let its transceivers send or not.
    pub open spec fn directed(self) -> ConnectionView {
        match (self.local, self.remote) {
            (Some(l), Some(r)) => ConnectionView { ts: permitted(self.ts, l.media, r.media), ..self },
            _ => self,
        }
    }

    /// A remote description with other media parameters than the last one can be applied to the
    /// transports at once.
    pub open spec fn takes_reinvite(self, t: SdpType) -> bool {
        (t == SdpType::Offer && self.signaling == SignalingState::Stable) || ((t == SdpType::Answer
            || t == SdpType::Pranswer) && self.signaling == SignalingState::HaveLocalOffer)
    }

    /// What the beginning of a remote description changes, and how it ends.
    pub open spec fn remote_begun(
        self,
        d: DescriptionView,
        hosts: Seq<(Seq<char>, IpAddress)>,
        acts: Seq<ActionView>,
    ) -> (Change, Result<RemoteStartView, RtcErrorView>) {
        let same = Change { v: self, acts };
        let changed = self.remote matches Some(r) ==> media_differs(r, d);
        if d.sdp_type == SdpType::Rollback {
            (same, Err(RtcErrorView::NotImplemented("rollback"@)))
        } else {
            match required_fingerprint(self.config.transport_mode, d) {
                Err(e) => (same, Err(e)),
                Ok(fp) => if self.remote is Some && changed && !self.takes_reinvite(d.sdp_type)
                    && d.sdp_type == SdpType::Offer {
                    (
                        same,
                        Err(
                            RtcErrorView::InvalidState(
                                "Cannot handle reinvite offer in non-stable state (glare?)"@,
                            ),
                        ),
                    )
                } else {
                    let a = if self.remote is Some && changed && self.takes_reinvite(d.sdp_type) {
                        self.reinvited(d, hosts, acts)
                    } else {
                        same
                    };
                    let b = ConnectionView {
                        next_mid: next_mid_from(d.media, 0, self.next_mid),
                        ..a.v
                    };
                    match remote_transition(self.signaling, d.sdp_type) {
                        Err(e) => (Change { v: b, acts: a.acts }, Err(e)),
                        Ok(s) => {
                            let c = ConnectionView { signaling: s, ..b };
                            if self.remote is Some && !changed {
                                (
                                    Change {
                                        v: ConnectionView { remote: Some(d), ..c },
                                        acts: a.acts,
                                    },
                                    Ok(RemoteStartView::Unchanged),
                                )
                            } else {
                                let e = ConnectionView {
                                    role: role_after(c.role, c.config.is_direct(), d.media),
                                    ..c
                                };
                                if e.dtls is Some && e.remote_fingerprint != fp {
                                    (
                                        Change { v: e, acts: a.acts },
                                        Err(
                                            RtcErrorView::InvalidState(
                                                "changing remote DTLS fingerprint after transport start is not supported"@,
                                            ),
                                        ),
                                    )
                                } else {
                                    (
                                        Change {
                                            v: ConnectionView { remote_fingerprint: fp, ..e },
                                            acts: a.acts,
                                        },
                                        Ok(
                                            RemoteStartView::Start(
                                                credentials_of(d),
                                                start_of(self.config.transport_mode, d, hosts),
                                            ),
                                        ),
                                    )
                                }
                            }
                        },
                    }
                },
            }
        }
    }

    /// What the end of a remote description changes.
    pub open spec fn remote_finished(self, d: DescriptionView, acts: Seq<ActionView>) -> Change {
        if d.sdp_type == SdpType::Offer {
            let a = offered(self.ts, self.next_id, acts, d.media, self.config, self.rtp);
            Change {
                v: ConnectionView { ts: a.ts, next_id: a.next_id, remote: Some(d), ..self },
                acts: a.acts,
            }
        } else if d.sdp_type == SdpType::Answer || d.sdp_type == SdpType::Pranswer {
            let a = answered(self.step(acts), d.media, self.media, self.rtp);
            Change { v: ConnectionView { ts: a.ts, remote: Some(d), ..self }, acts: a.acts }
        } else {
            Change { v: ConnectionView { remote: Some(d), ..self }, acts }
        }
    }

    /// What a local description changes, and how it ends. The mids of an offer are given out
    /// before the offer may be refused.
    pub open spec fn local_set(self, d: DescriptionView, acts: Seq<ActionView>) -> (
        Change,
        Result<(), RtcErrorView>,
    ) {
        if d.sdp_type == SdpType::Rollback {
            (Change { v: self, acts }, Err(RtcErrorView::NotImplemented("rollback"@)))
        } else {
            let a = if d.sdp_type == SdpType::Offer {
                local_offer_from(self.step(acts), d.media, 0, self.local is Some)
            } else {
                self.step(acts)
            };
            let b = ConnectionView { ts: a.ts, ..self };
            match local_transition(self.signaling, d.sdp_type) {
                Err(e) => (Change { v: b, acts: a.acts }, Err(e)),
                Ok(s) => {
                    let c = ConnectionView {
                        signaling: s,
                        ts: if d.sdp_type == SdpType::Offer {
                            recorded_from(a.ts, d.media, 0)
                        } else {
                            a.ts
                        },
                        local: Some(d),
                        ..self
                    };
                    (
                        Change {
                            v: if d.sdp_type == SdpType::Offer {
                                c
                            } else {
                                c.directed()
                            },
                            acts: a.acts,
                        },
                        Ok(()),
                    )
                },
            }
        }
    }
}

/// A connection and the actions so far.
#[verifier::ext_equal]
pub struct Change {
    pub v: ConnectionView,
    pub acts: Seq<ActionView>,
}

/// How the transport starts once a remote description is known.
#[derive(Clone, Copy, PartialEq, Eq, Structural, Debug)]
pub enum StartKind {
    /// Nothing to start yet.
    Nothing,
    /// ICE starts with the credentials.
    Ice,
    /// A direct transport starts to an address.
    Direct(SocketAddress),
}

/// How the transport starts.
pub open spec fn start_of(
    mode: TransportMode,
    d: DescriptionView,
    hosts: Seq<(Seq<char>, IpAddress)>,
) -> StartKind {
    match mode {
        TransportMode::WebRtc => if credentials_of(d).ufrag is Some && credentials_of(
            d,
        ).pwd is Some {
            StartKind::Ice
        } else {
            StartKind::Nothing
        },
        TransportMode::Rtp => StartKind::Nothing,
        TransportMode::Srtp => match direct_address_from(d, hosts, 0, None) {
            Some(a) => StartKind::Direct(a),
            None => StartKind::Nothing,
        },
    }
}

/// What is to be done in the middle of a remote description.
#[derive(Debug)]
pub enum RemoteStart {
    /// The media parameters are the same: nothing more is to be done.
    Unchanged,
    /// The transport starts, and the description is finished after that.
    Start(Credentials, StartKind),
}

/// The model of what is to be done in the middle of a remote description.
pub enum RemoteStartView {
    Unchanged,
    Start(CredentialsView, StartKind),
}

impl View for RemoteStart {
    type V = RemoteStartView;

    open spec fn view(&self) -> RemoteStartView {
        match *self {
            RemoteStart::Unchanged => RemoteStartView::Unchanged,
            RemoteStart::Start(c, k) => RemoteStartView::Start(c@, k),
        }
    }
}

/// The model of how the beginning of a remote description ends.
pub open spec fn start_result(r: RtcResult<RemoteStart>) -> Result<RemoteStartView, RtcErrorView> {
    match r {
        Ok(s) => Ok(s@),
        Err(e) => Err(e@),
    }
}

/// The model of how an operation without a value ends.
pub open spec fn unit_result(r: RtcResult<()>) -> Result<(), RtcErrorView> {
    match r {
        Ok(x) => Ok(x),
        Err(e) => Err(e@),
    }
}

/// A connection that was just made.
pub open spec fn fresh_connection(c: ConfigView, fingerprint: Seq<char>) -> ConnectionView {
    ConnectionView {
        config: c,
        signaling: SignalingState::Stable,
        peer: PeerConnectionState::New,
        ice: IceConnectionState::New,
        gathering: IceGatheringState::New,
        local: None,
        remote: None,
        ts: Seq::empty(),
        next_id: 1,
        next_mid: 0,
        fingerprint: if c.transport_mode == TransportMode::Rtp {
            Seq::empty()
        } else {
            fingerprint
        },
        remote_fingerprint: None,
        dtls: None,
        rtp: None,
        media: Seq::empty(),
        media_ice: Seq::empty(),
        sctp: None,
        channels: Seq::empty(),
        role: None,
        next_ssrc: c.ssrc_start,
        reason: None,
        observers: Seq::empty(),
    }
}

/// A transceiver that the application adds: it has a receiver and, if it sends, what its sender
/// will be. One that joins a transport that is up remembers it, but on plain RTP.
pub open spec fn added_transceiver(
    v: ConnectionView,
    kind: MediaKind,
    direction: TransceiverDirection,
    stream_id: Seq<char>,
    track_id: Seq<char>,
) -> TransceiverView {
    let t = fresh_transceiver(v.next_id, kind, direction);
    TransceiverView {
        receiver: Some(fresh_receiver(shared_plan(kind, 0, v.config.nack_enabled(kind)))),
        sender_ssrc: if direction.spec_sends() {
            Some(v.next_ssrc)
        } else {
            None
        },
        sender_stream_id: if direction.spec_sends() {
            Some(stream_id)
        } else {
            None
        },
        sender_track_id: if direction.spec_sends() {
            Some(track_id)
        } else {
            None
        },
        transport: if (kind == MediaKind::Audio || kind == MediaKind::Video)
            && v.config.transport_mode != TransportMode::Rtp {
            v.rtp
        } else {
            None
        },
        ..t
    }
}

/// The connection with a transceiver that the application adds.
pub open spec fn with_added(
    v: ConnectionView,
    kind: MediaKind,
    direction: TransceiverDirection,
    ssrc_step: u32,
    stream_id: Seq<char>,
    track_id: Seq<char>,
) -> ConnectionView {
    ConnectionView {
        ts: v.ts.push(added_transceiver(v, kind, direction, stream_id, track_id)),
        next_id: v.next_id.wrapping_add(1),
        next_ssrc: if direction.spec_sends() {
            v.next_ssrc.wrapping_add(ssrc_step)
        } else {
            v.next_ssrc
        },
        ..v
    }
}

/// Transceivers of a kind that were offered and have no sender yet.
pub open spec fn awaits_track(kind: MediaKind) -> spec_fn(TransceiverView) -> bool {
    |t: TransceiverView| t.kind == kind && t.mid is Some && t.sender is None
}

/// What the sender of a track is made of.
pub open spec fn track_plan(
    c: ConfigView,
    kind: MediaKind,
    ssrc: u32,
    track_id: Seq<char>,
    stream_id: Seq<char>,
    params: CodecView,
) -> SenderPlan {
    SenderPlan {
        track_id,
        ssrc,
        stream_id,
        params,
        nacks: if c.nack_enabled(kind) {
            seq![c.nack_buffer_size]
        } else {
            Seq::empty()
        },
        cname: c.cname,
    }
}

/// The transport that a new sender of a transceiver is attached to: its own, else the primary one,
/// but on plain RTP.
pub open spec fn attach_target(v: ConnectionView, id: u64) -> Option<u64> {
    match transport_of(v.media, id) {
        Some(t) => Some(t),
        None => if v.config.transport_mode == TransportMode::Rtp {
            None
        } else {
            v.rtp
        },
    }
}

/// A transceiver gets a sender and is attached to a transport, where there is one.
pub open spec fn sender_step(v: ConnectionView, st: Step, s: SenderView) -> Step {
    let a = Step {
        t: st.t.with_sender(s),
        acts: match st.t.transport {
            Some(x) => if s.transport == Some(x) {
                st.acts
            } else {
                st.acts.push(
                    ActionView::StartSendLoop {
                        transceiver: st.t.id,
                        generation: s.generation.wrapping_add(1),
                        last_source: None,
                    },
                )
            },
            None => st.acts,
        },
    };
    match attach_target(v, st.t.id) {
        Some(x) => attach_step(a, x),
        None => a,
    }
}

impl PeerConnection {
    /// A connection without transceivers. On plain RTP there is no DTLS and no fingerprint.
    pub fn new(config: RtcConfiguration, fingerprint: String) -> (r: Self)
        ensures
            r@ == fresh_connection(config@, fingerprint@),
            r@.wf(),
    {
        let dtls_fingerprint = if config.transport_mode == TransportMode::Rtp {
            String::new()
        } else {
            fingerprint
        };
        let ssrc_generator: u32 = config.ssrc_start;
        let r = PeerConnection {
            config,
            signaling_state: SignalingState::Stable,
            peer_state: PeerConnectionState::New,
            ice_connection_state: IceConnectionState::New,
            ice_gathering_state: IceGatheringState::New,
            local_description: None,
            remote_description: None,
            transceivers: Vec::new(),
            next_id: 1,
            next_mid: 0,
            dtls_fingerprint,
            remote_dtls_fingerprint: None,
            dtls_transport: None,
            rtp_transport: None,
            rtp_media_transports: Vec::new(),
            rtp_media_ice_transports: Vec::new(),
            sctp_transport: None,
            data_channels: Vec::new(),
            dtls_role: None,
            ssrc_generator,
            disconnect_reason: None,
            rtp_observers: Vec::new(),
        };
        assert(r@ =~= fresh_connection(config@, fingerprint@));
        r
    }

    /// The configuration.
    pub fn config(&self) -> (r: &RtcConfiguration)
        ensures
            r@ == self@.config,
    {
        &self.config
    }

    /// Where the offer/answer exchange stands.
    pub fn signaling_state(&self) -> (r: SignalingState)
        ensures
            r == self@.signaling,
    {
        self.signaling_state
    }

    /// The state of the connection.
    pub fn peer_state(&self) -> (r: PeerConnectionState)
        ensures
            r == self@.peer,
    {
        self.peer_state
    }

    /// The local description.
    pub fn local_description(&self) -> (r: Option<SessionDescription>)
        ensures
            description_opt(r) == self@.local,
    {
        match &self.local_description {
            Some(d) => Some(d.clone()),
            None => None,
        }
    }

    /// The remote description.
    pub fn remote_description(&self) -> (r: Option<SessionDescription>)
        ensures
            description_opt(r) == self@.remote,
    {
        match &self.remote_description {
            Some(d) => Some(d.clone()),
            None => None,
        }
    }

    /// The number of transceivers.
    pub fn transceiver_count(&self) -> (r: usize)
        ensures
            r == self@.ts.len(),
    {
        self.transceivers.len()
    }

    /// The transceivers.
    pub fn get_transceivers(&self) -> (r: &Vec<RtpTransceiver>)
        ensures
            transceivers(r@) == self@.ts,
    {
        &self.transceivers
    }

    /// A transceiver, to change it.
    pub fn transceiver_mut(&mut self, i: usize) -> (r: &mut RtpTransceiver)
        requires
            i < old(self)@.ts.len(),
        ensures
            r@ == old(self)@.ts[i as int],
            final(self)@ == (ConnectionView {
                ts: old(self)@.ts.update(i as int, final(r)@),
                ..old(self)@
            }),
    {
        &mut self.transceivers[i]
    }

    /// Adds a transceiver whose sender, if it sends, takes the next SSRC and the given names; the
    /// SSRC after that lies `ssrc_step` further.
    pub fn add_transceiver_with(
        &mut self,
        kind: MediaKind,
        direction: TransceiverDirection,
        ssrc_step: u32,
        stream_id: String,
        track_id: String,
    ) -> (r: usize)
        requires
            old(self)@.wf(),
        ensures
            final(self)@.wf(),
            r == old(self)@.ts.len(),
            final(self)@ == with_added(
                old(self)@,
                kind,
                direction,
                ssrc_step,
                stream_id@,
                track_id@,
            ),
    {
        let ghost before = self@;
        let mut t = RtpTransceiver::new(self.next_id, kind, direction);
        let mut builder = RtpReceiverBuilder::new(kind, 0).shared_payload_map();
        if self.config.nack_enabled(kind) {
            builder = builder.nack();
        }
        t.set_receiver(Some(builder.build()));
        if direction.sends() {
            t.reserve_sender(self.ssrc_generator, stream_id, track_id);
            self.ssrc_generator = self.ssrc_generator.wrapping_add(ssrc_step);
        }
        if (kind == MediaKind::Audio || kind == MediaKind::Video) && self.config.transport_mode
            != TransportMode::Rtp {
            t.set_rtp_transport(self.rtp_transport);
        }
        self.next_id = self.next_id.wrapping_add(1);
        let index: usize = self.transceivers.len();
        assert(t@ =~= added_transceiver(before, kind, direction, stream_id@, track_id@));
        self.transceivers.push(t);
        assert(self@ =~= with_added(
            before,
            kind,
            direction,
            ssrc_step,
            stream_id@,
            track_id@,
        ));
        index
    }

    /// Adds a transceiver. Where its sender will have an SSRC and names, the names and the step to
    /// the next SSRC, which is at least one, are random.
    pub fn add_transceiver(&mut self, kind: MediaKind, direction: TransceiverDirection) -> (r:
        usize)
        requires
            old(self)@.wf(),
        ensures
            final(self)@.wf(),
            r == old(self)@.ts.len(),
            exists|ssrc_step: u32, stream_id: Seq<char>, track_id: Seq<char>|
                ssrc_step != 0 && is_rtc_id(stream_id) && is_rtc_id(track_id) && final(self)@
                    == #[trigger] with_added(
                    old(self)@,
                    kind,
                    direction,
                    ssrc_step,
                    stream_id,
                    track_id,
                ),
    {
        let ssrc_step: u32 = random_u32().saturating_add(1);
        self.add_transceiver_with(kind, direction, ssrc_step, random_rtc_id(), random_rtc_id())
    }

    fn find_awaiting(&self, kind: MediaKind) -> (r: Option<usize>)
        ensures
            match r {
                Some(i) => i < self@.ts.len() && first(self@.ts, awaits_track(kind)) == Some(
                    i as int,
                ),
                None => first(self@.ts, awaits_track(kind)) is None,
            },
    {
        let ghost v = self@.ts;
        let mut i: usize = 0;
        while i < self.transceivers.len()
            invariant
                i <= self.transceivers@.len(),
                v == transceivers(self.transceivers@),
                first(v, awaits_track(kind)) == first_from(v, awaits_track(kind), i as int),
            decreases self.transceivers@.len() - i,
        {
            assert(v[i as int] == self.transceivers@[i as int]@);
            let t = &self.transceivers[i];
            if t.kind() == kind && t.mid_ref().is_some() && t.sender().is_none() {
                return Some(i);
            }
            i += 1;
        }
        None
    }

    /// Gives a transceiver a sender and attaches it to the transport, where there is one.
    pub fn add_sender(&mut self, i: usize, sender: RtpSender, list: &mut Vec<Action>)
        requires
            old(self)@.wf(),
            sender@.wf(),
            i < old(self)@.ts.len(),
        ensures
            final(self)@.wf(),
            ({
                let st = sender_step(
                    old(self)@,
                    (Step { t: old(self)@.ts[i as int], acts: actions(old(list)@) }),
                    sender@,
                );
                &&& final(self)@ == (ConnectionView {
                    ts: old(self)@.ts.update(i as int, st.t),
                    ..old(self)@
                })
                &&& actions(final(list)@) == st.acts
            }),
    {
        let ghost before = self@;
        let ghost s0 = sender@;
        assert(before.ts[i as int] == self.transceivers@[i as int]@);
        let id: u64 = self.transceivers[i].id();
        let own = find_transport(&self.rtp_media_transports, id);
        let target: Option<u64> = if own.is_some() {
            own
        } else if self.config.transport_mode == TransportMode::Rtp {
            None
        } else {
            self.rtp_transport
        };
        if let Some(send_loop) = self.transceivers[i].set_sender(Some(sender)) {
            push_action(list, Action::StartSendLoop { transceiver: id, send_loop });
        }
        if let Some(x) = target {
            attach_transceiver(&mut self.transceivers[i], x, list);
        }
        assert(self@.ts =~= before.ts.update(
            i as int,
            sender_step(
                before,
                (Step { t: before.ts[i as int], acts: actions(old(list)@) }),
                s0,
            ).t,
        ));
        assert(self@ =~= (ConnectionView {
            ts: before.ts.update(
                i as int,
                sender_step(
                    before,
                    (Step { t: before.ts[i as int], acts: actions(old(list)@) }),
                    s0,
                ).t,
            ),
            ..before
        }));
    }

    /// Adds a track under a stream. An offered transceiver that waits for a track is taken, so
    /// that the answer carries the track in the offered section; else one is added. The sender
    /// takes the SSRC that is reserved for it.
    pub fn add_track_with_stream_id(
        &mut self,
        kind: MediaKind,
        track_id: &str,
        stream_id: String,
        params: RtpCodecParameters,
        list: &mut Vec<Action>,
    ) -> (r: usize)
        requires
            old(self)@.wf(),
        ensures
            final(self)@.wf(),
            match first(old(self)@.ts, awaits_track(kind)) {
                Some(i) => r == i,
                None => r == old(self)@.ts.len(),
            },
            exists|base: ConnectionView, s: SenderView| #[trigger]
                is_track_added(
                    old(self)@,
                    kind,
                    actions(old(list)@),
                    track_plan_of(base, r as int, kind, track_id@, stream_id@, params@),
                    base,
                    s,
                    r as int,
                    Change { v: final(self)@, acts: actions(final(list)@) },
                ),
    {
        let ghost v0 = self@;
        let i: usize = match self.find_awaiting(kind) {
            Some(i) => i,
            None => self.add_transceiver(kind, TransceiverDirection::SendRecv),
        };
        let ghost base = self@;
        assert(is_track_base(v0, base, kind));
        assert(i < base.ts.len());
        assert(base.ts.len() == self.transceivers@.len());
        assert(base.ts[i as int] == self.transceivers@[i as int]@);
        let ssrc: u32 = match self.transceivers[i].sender_ssrc() {
            Some(x) => x,
            None => {
                let x: u32 = self.ssrc_generator;
                self.ssrc_generator = x.wrapping_add(1);
                x
            },
        };
        let mut builder = RtpSenderBuilder::new(track_id, ssrc).stream_id(stream_id).params(params);
        if let Some(c) = &self.config.cname {
            builder = builder.cname(c.clone());
        }
        if self.config.nack_enabled(kind) {
            builder = builder.nack(self.config.nack_buffer_size);
        }
        let sender = builder.build();
        let ghost s = sender@;
        let ghost t = base.ts[i as int];
        assert(self@ =~= (ConnectionView {
            next_ssrc: match t.sender_ssrc {
                Some(_) => base.next_ssrc,
                None => base.next_ssrc.wrapping_add(1),
            },
            ..base
        }));
        let ghost st = sender_step(base, (Step { t, acts: actions(list@) }), s);
        assert(st == sender_step(self@, (Step { t, acts: actions(list@) }), s));
        self.add_sender(i, sender, list);
        assert(base.ts[i as int].kind == kind) by {
            crate::search::first_from_facts(v0.ts, awaits_track(kind), 0);
        }
        assert(is_track_added(
            v0,
            kind,
            actions(old(list)@),
            track_plan_of(base, i as int, kind, track_id@, stream_id@, params@),
            base,
            s,
            i as int,
            Change { v: self@, acts: actions(list@) },
        ));
        i
    }

    /// Adds a track under a stream that is named as the track is.
    pub fn add_track(
        &mut self,
        kind: MediaKind,
        track_id: &str,
        params: RtpCodecParameters,
        list: &mut Vec<Action>,
    ) -> (r: usize)
        requires
            old(self)@.wf(),
        ensures
            final(self)@.wf(),
            match first(old(self)@.ts, awaits_track(kind)) {
                Some(i) => r == i,
                None => r == old(self)@.ts.len(),
            },
            exists|base: ConnectionView, s: SenderView| #[trigger]
                is_track_added(
                    old(self)@,
                    kind,
                    actions(old(list)@),
                    track_plan_of(base, r as int, kind, track_id@, track_id@, params@),
                    base,
                    s,
                    r as int,
                    Change { v: final(self)@, acts: actions(final(list)@) },
                ),
    {
        self.add_track_with_stream_id(kind, track_id, track_id.to_owned(), params, list)
    }

    /// Sets the local description. The actions asked for hold also where it is refused.
    pub fn set_local_description(&mut self, desc: SessionDescription, list: &mut Vec<Action>) -> (r:
        RtcResult<()>)
        requires
            old(self)@.wf(),
        ensures
            final(self)@.wf(),
            ({
                let x = old(self)@.local_set(desc@, actions(old(list)@));
                &&& final(self)@ == x.0.v
                &&& actions(final(list)@) == x.0.acts
                &&& unit_result(r) == x.1
            }),
    {
        let ghost v0 = self@;
        if desc.sdp_type == SdpType::Rollback {
            return Err(RtcError::NotImplemented("rollback".to_owned()));
        }
        let offer = desc.sdp_type == SdpType::Offer;
        if offer {
            apply_local_offer(
                &mut self.transceivers,
                &desc,
                self.local_description.is_some(),
                list,
            );
        }
        match next_local_state(self.signaling_state, desc.sdp_type) {
            Err(e) => {
                assert(self@ =~= v0.local_set(desc@, actions(old(list)@)).0.v);
                return Err(e);
            },
            Ok(s) => {
                self.signaling_state = s;
            },
        }
        if offer {
            record_offered_directions(&mut self.transceivers, &desc);
        }
        self.local_description = Some(desc);
        if !offer {
            self.apply_negotiated_send_directions();
        }
        assert(self@ =~= v0.local_set(desc@, actions(old(list)@)).0.v);
        Ok(())
    }

    /// Lets the transceivers send or not, as the two descriptions say.
    pub fn apply_negotiated_send_directions(&mut self)
        requires
            old(self)@.wf(),
        ensures
            final(self)@.wf(),
            final(self)@ == old(self)@.directed(),
    {
        let ghost v0 = self@;
        if let (Some(l), Some(r)) = (&self.local_description, &self.remote_description) {
            apply_send_directions(&mut self.transceivers, l, r);
        }
        assert(self@ =~= v0.directed());
    }

    /// Begins to apply a remote description: checks it, applies what a re-offer changes at once,
    /// moves the exchange on and settles the DTLS role. The actions asked for hold also where the
    /// description is refused.
    pub fn begin_remote_description(
        &mut self,
        desc: &SessionDescription,
        hosts: &HostTable,
        list: &mut Vec<Action>,
    ) -> (r: RtcResult<RemoteStart>)
        requires
            old(self)@.wf(),
        ensures
            final(self)@.wf(),
            ({
                let x = old(self)@.remote_begun(desc@, hosts@, actions(old(list)@));
                &&& final(self)@ == x.0.v
                &&& actions(final(list)@) == x.0.acts
                &&& start_result(r) == x.1
            }),
    {
        let ghost v0 = self@;
        let ghost want = v0.remote_begun(desc@, hosts@, actions(list@));
        if desc.sdp_type == SdpType::Rollback {
            return Err(RtcError::NotImplemented("rollback".to_owned()));
        }
        let fingerprint = match check_fingerprint(self.config.transport_mode, desc) {
            Ok(f) => f,
            Err(e) => {
                return Err(e);
            },
        };
        let known = self.remote_description.is_some();
        let changed = match &self.remote_description {
            Some(previous) => media_parameters_changed(previous, desc),
            None => true,
        };
        if known && changed {
            let takes = match desc.sdp_type {
                SdpType::Offer => self.signaling_state == SignalingState::Stable,
                _ => self.signaling_state == SignalingState::HaveLocalOffer,
            };
            if takes {
                self.handle_reinvite(desc, hosts, list);
            } else if desc.sdp_type == SdpType::Offer {
                return Err(
                    RtcError::invalid_state(
                        "Cannot handle reinvite offer in non-stable state (glare?)",
                    ),
                );
            }
        }
        self.next_mid = next_mid_after(self.next_mid, desc);
        match next_remote_state(self.signaling_state, desc.sdp_type) {
            Err(e) => {
                assert(self@ =~= want.0.v);
                return Err(e);
            },
            Ok(s) => {
                self.signaling_state = s;
            },
        }
        if known && !changed {
            self.remote_description = Some(desc.clone());
            assert(self@ =~= want.0.v);
            return Ok(RemoteStart::Unchanged);
        }
        self.dtls_role = settle_role(self.dtls_role, self.config.is_direct(), desc);
        if self.dtls_transport.is_some() && !same_text_opt(
            &self.remote_dtls_fingerprint,
            &fingerprint,
        ) {
            assert(self@ =~= want.0.v);
            return Err(
                RtcError::invalid_state(
                    "changing remote DTLS fingerprint after transport start is not supported",
                ),
            );
        }
        self.remote_dtls_fingerprint = fingerprint;
        assert(self@ =~= want.0.v);
        let credentials = read_credentials(desc);
        let kind = match self.config.transport_mode {
            TransportMode::WebRtc => if credentials.ufrag.is_some() && credentials.pwd.is_some() {
                StartKind::Ice
            } else {
                StartKind::Nothing
            },
            TransportMode::Rtp => StartKind::Nothing,
            TransportMode::Srtp => match direct_address(desc, hosts) {
                Some(a) => StartKind::Direct(a),
                None => StartKind::Nothing,
            },
        };
        Ok(RemoteStart::Start(credentials, kind))
    }

    /// Applies at once what a re-offer, or its answer, changes, and gives up the transports of
    /// sections that are gone.
    fn handle_reinvite(
        &mut self,
        desc: &SessionDescription,
        hosts: &HostTable,
        list: &mut Vec<Action>,
    )
        requires
            old(self)@.wf(),
        ensures
            final(self)@.wf(),
            final(self)@ == old(self)@.reinvited(desc@, hosts@, actions(old(list)@)).v,
            actions(final(list)@) == old(self)@.reinvited(
                desc@,
                hosts@,
                actions(old(list)@),
            ).acts,
    {
        let ghost v0 = self@;
        apply_reinvite(&mut self.transceivers, desc, list);
        follow_reinvite_address(
            self.config.transport_mode,
            desc,
            hosts,
            self.rtp_transport,
            list,
        );
        self.remote_description = Some(desc.clone());
        self.cleanup_orphaned_extra_transports(desc, list);
        assert(self@ =~= v0.reinvited(desc@, hosts@, actions(old(list)@)).v);
    }

    /// Gives up the transports of the transceivers that a description has no section of.
    pub fn cleanup_orphaned_extra_transports(
        &mut self,
        desc: &SessionDescription,
        list: &mut Vec<Action>,
    )
        ensures
            ({
                let x = dropped(
                    (Extra {
                        media: old(self)@.media,
                        ice: old(self)@.media_ice,
                        acts: actions(old(list)@),
                    }),
                    orphans(old(self)@.ts, desc@.media),
                );
                &&& final(self)@ == (ConnectionView {
                    media: x.media,
                    media_ice: x.ice,
                    ..old(self)@
                })
                &&& actions(final(list)@) == x.acts
            }),
    {
        let gone = orphaned_transceivers(&self.transceivers, desc);
        drop_transports(
            &mut self.rtp_media_transports,
            &mut self.rtp_media_ice_transports,
            &gone,
            list,
        );
    }

    /// Finishes a remote description once the transport has started: an offer is matched to the
    /// transceivers, or makes new ones; an answer is applied to the transceivers it answers.
    pub fn finish_remote_description(&mut self, desc: SessionDescription, list: &mut Vec<Action>)
        requires
            old(self)@.wf(),
        ensures
            final(self)@.wf(),
            final(self)@ == old(self)@.remote_finished(desc@, actions(old(list)@)).v,
            actions(final(list)@) == old(self)@.remote_finished(
                desc@,
                actions(old(list)@),
            ).acts,
    {
        let ghost v0 = self@;
        match desc.sdp_type {
            SdpType::Offer => {
                apply_remote_offer(
                    &mut self.transceivers,
                    &mut self.next_id,
                    &desc,
                    &self.config,
                    self.rtp_transport,
                    list,
                );
            },
            SdpType::Answer | SdpType::Pranswer => {
                apply_remote_answer(
                    &mut self.transceivers,
                    &desc,
                    &self.rtp_media_transports,
                    self.rtp_transport,
                    list,
                );
            },
            SdpType::Rollback => {},
        }
        self.remote_description = Some(desc);
        assert(self@ =~= v0.remote_finished(desc@, actions(old(list)@)).v);
    }

    /// Applies a remote description whose transport start cannot fail: begins it, finishes it
    /// where there is something to finish and, for an answer, lets the transceivers send or not.
    pub fn set_remote_description(
        &mut self,
        desc: SessionDescription,
        hosts: &HostTable,
        list: &mut Vec<Action>,
    ) -> (r: RtcResult<RemoteStart>)
        requires
            old(self)@.wf(),
        ensures
            final(self)@.wf(),
            start_result(r) == old(self)@.remote_begun(desc@, hosts@, actions(old(list)@)).1,
            final(self)@ == old(self)@.remote_set(desc@, hosts@, actions(old(list)@)).v,
            actions(final(list)@) == old(self)@.remote_set(
                desc@,
                hosts@,
                actions(old(list)@),
            ).acts,
    {
        let ghost d = desc@;
        let answer = desc.sdp_type == SdpType::Answer || desc.sdp_type == SdpType::Pranswer;
        let start = match self.begin_remote_description(&desc, hosts, list) {
            Ok(s) => s,
            Err(e) => {
                return Err(e);
            },
        };
        if let RemoteStart::Start(_, _) = &start {
            self.finish_remote_description(desc, list);
        }
        if answer {
            self.apply_negotiated_send_directions();
        }
        Ok(start)
    }

    /// The direct transports that the remote description asks for.
    pub fn plan_transports(&self, desc: &SessionDescription, hosts: &HostTable) -> (r:
        TransportPlan)
        ensures
            r@ == transport_plan(self@.ts, desc@, hosts@),
    {
        plan_media_transports(&self.transceivers, desc, hosts)
    }
}

impl ConnectionView {
    /// What a remote description changes where its transport start does not fail.
    pub open spec fn remote_set(
        self,
        d: DescriptionView,
        hosts: Seq<(Seq<char>, IpAddress)>,
        acts: Seq<ActionView>,
    ) -> Change {
        let a = self.remote_begun(d, hosts, acts);
        match a.1 {
            Err(_) => a.0,
            Ok(s) => {
                let b = match s {
                    RemoteStartView::Unchanged => a.0,
                    RemoteStartView::Start(_, _) => a.0.v.remote_finished(d, a.0.acts),
                };
                if d.sdp_type == SdpType::Offer {
                    b
                } else {
                    Change { v: b.v.directed(), acts: b.acts }
                }
            },
        }
    }
}

/// What the sender of a track on a transceiver is made of: it takes the SSRC that is reserved for
/// it, else the next one.
pub open spec fn track_plan_of(
    base: ConnectionView,
    i: int,
    kind: MediaKind,
    track_id: Seq<char>,
    stream_id: Seq<char>,
    params: CodecView,
) -> SenderPlan {
    track_plan(
        base.config,
        kind,
        match base.ts[i].sender_ssrc {
            Some(x) => x,
            None => base.next_ssrc,
        },
        track_id,
        stream_id,
        params,
    )
}

/// A track of a kind was added to the transceiver `i` of `base`, which is of that kind and whose
/// sender `s` was made after `plan`.
pub open spec fn is_track_added(
    v: ConnectionView,
    kind: MediaKind,
    acts: Seq<ActionView>,
    plan: SenderPlan,
    base: ConnectionView,
    s: SenderView,
    i: int,
    after: Change,
) -> bool {
    let t = base.ts[i];
    let st = sender_step(base, Step { t, acts }, s);
    &&& is_track_base(v, base, kind)
    &&& 0 <= i < base.ts.len()
    &&& t.kind == kind
    &&& is_fresh_sender(s, plan)
    &&& after.v == (ConnectionView {
        ts: base.ts.update(i, st.t),
        next_ssrc: match t.sender_ssrc {
            Some(_) => base.next_ssrc,
            None => base.next_ssrc.wrapping_add(1),
        },
        ..base
    })
    &&& after.acts == st.acts
}

/// The connection that a track is added to: as it is where a transceiver waits for the track, else
/// with a new transceiver of the kind of the track.
pub open spec fn is_track_base(v: ConnectionView, base: ConnectionView, kind: MediaKind) -> bool {
    match first(v.ts, awaits_track(kind)) {
        Some(_) => base == v,
        None => exists|ssrc_step: u32, stream_id: Seq<char>, track_id: Seq<char>|
            ssrc_step != 0 && is_rtc_id(stream_id) && is_rtc_id(track_id) && base
                == #[trigger] with_added(
                v,
                kind,
                TransceiverDirection::SendRecv,
                ssrc_step,
                stream_id,
                track_id,
            ),
    }
}

/// A track goes to the first transceiver of its kind that awaits one, which keeps its mid, else to a
/// new one of its kind at the end, which sends and receives. That transceiver has the sender of the
/// track, under its SSRC and names, and no other one changes.
pub proof fn tracks_go_to_their_kind(
    v: ConnectionView,
    kind: MediaKind,
    acts: Seq<ActionView>,
    plan: SenderPlan,
    base: ConnectionView,
    s: SenderView,
    i: int,
    after: Change,
)
    requires
        is_track_added(v, kind, acts, plan, base, s, i, after),
        first(v.ts, awaits_track(kind)) matches Some(k) ==> i == k,
        first(v.ts, awaits_track(kind)) is None ==> i == v.ts.len(),
    ensures
        ({
            let t = after.v.ts[i];
            &&& t.kind == kind
            &&& t.sender matches Some(x) && x.ssrc == plan.ssrc && x.stream_id == plan.stream_id
                && x.track_id == plan.track_id
            &&& t.sender_ssrc == Some(plan.ssrc)
            &&& t.sender_stream_id == Some(plan.stream_id)
            &&& t.sender_track_id == Some(plan.track_id)
            &&& match first(v.ts, awaits_track(kind)) {
                Some(_) => after.v.ts.len() == v.ts.len() && t.mid == v.ts[i].mid && t.mid is Some,
                None => after.v.ts.len() == v.ts.len() + 1 && t.mid is None && t.direction
                    == TransceiverDirection::SendRecv,
            }
            &&& forall|j: int|
                0 <= j < v.ts.len() && j != i ==> #[trigger] after.v.ts[j] == v.ts[j]
        }),
{
    crate::search::first_from_facts(v.ts, awaits_track(kind), 0);
}

/// A remote description that says of media what the last one said moves the exchange on and asks
/// for nothing: transceivers keep their streams and codecs, and all transports stay.
pub proof fn unchanged_media_is_left_alone(
    v: ConnectionView,
    d: DescriptionView,
    hosts: Seq<(Seq<char>, IpAddress)>,
    acts: Seq<ActionView>,
)
    requires
        v.remote matches Some(r) && !media_differs(r, d),
    ensures
        v.remote_set(d, hosts, acts).acts == acts,
        v.remote_begun(d, hosts, acts).0.v.ts == v.ts,
        v.remote_set(d, hosts, acts).v.rtp == v.rtp,
        v.remote_set(d, hosts, acts).v.media == v.media,
        v.remote_set(d, hosts, acts).v.media_ice == v.media_ice,
        v.remote_set(d, hosts, acts).v.dtls == v.dtls,
        v.remote_set(d, hosts, acts).v.role == v.role,
        v.remote_set(d, hosts, acts).v.remote_fingerprint == v.remote_fingerprint,
{
}

/// A remote description that comes out of turn asks for nothing and leaves the transceivers, the
/// transports and both descriptions as they were.
pub proof fn refused_description_is_left_alone(
    v: ConnectionView,
    d: DescriptionView,
    hosts: Seq<(Seq<char>, IpAddress)>,
    acts: Seq<ActionView>,
)
    requires
        remote_transition(v.signaling, d.sdp_type) is Err,
    ensures
        v.remote_begun(d, hosts, acts).1 is Err,
        v.remote_set(d, hosts, acts).acts == acts,
        v.remote_set(d, hosts, acts).v == (ConnectionView {
            next_mid: v.remote_set(d, hosts, acts).v.next_mid,
            ..v
        }),
{
}

/// A description of either side that is taken moves the exchange on as signaling says.
pub proof fn taken_descriptions_move_the_exchange_on(
    v: ConnectionView,
    d: DescriptionView,
    hosts: Seq<(Seq<char>, IpAddress)>,
    acts: Seq<ActionView>,
)
    ensures
        v.remote_begun(d, hosts, acts).1 is Ok ==> remote_transition(v.signaling, d.sdp_type)
            == Ok::<_, RtcErrorView>(v.remote_set(d, hosts, acts).v.signaling)
            && v.remote_set(d, hosts, acts).v.remote == Some(d),
        v.local_set(d, acts).1 is Ok ==> local_transition(v.signaling, d.sdp_type) == Ok::<
            _,
            RtcErrorView,
        >(v.local_set(d, acts).0.v.signaling) && v.local_set(d, acts).0.v.local == Some(d),
{
}

} // verus!
