use rustrtc::action::Action;
use rustrtc::address::host_texts;
use rustrtc::address::HostTable;
use rustrtc::address::IpAddress;
use rustrtc::address::SocketAddress;
use rustrtc::codec::RtpCodecParameters;
use rustrtc::config::AudioCapability;
use rustrtc::config::MediaCapabilities;
use rustrtc::config::RtcConfiguration;
use rustrtc::config::RtcpMuxPolicy;
use rustrtc::config::SdpCompatibilityMode;
use rustrtc::config::TransportMode;
use rustrtc::config::VideoCapability;
use rustrtc::connection::lifecycle::ConnectedEvent;
use rustrtc::connection::lifecycle::ConnectedLoop;
use rustrtc::connection::lifecycle::ConnectedStep;
use rustrtc::connection::lifecycle::IceStep;
use rustrtc::connection::PeerConnection;
use rustrtc::connection::RemoteStart;
use rustrtc::connection::StartKind;
use rustrtc::describe::Candidate;
use rustrtc::describe::DescriptionPlan;
use rustrtc::describe::LocalTransport;
use rustrtc::direction::Direction;
use rustrtc::direction::TransceiverDirection;
use rustrtc::error::RtcError;
use rustrtc::error::RtcResult;
use rustrtc::receiver::PacketStep;
use rustrtc::remote::read_credentials;
use rustrtc::rtp::RtpHeader;
use rustrtc::rtp::RtpPacket;
use rustrtc::rtx::wrap_rtx_packet;
use rustrtc::rtx::RtxSenderConfig;
use rustrtc::sdes::parse_sdes_key_params_full;
use rustrtc::sdp::Attribute;
use rustrtc::sdp::MediaKind;
use rustrtc::sdp::MediaSection;
use rustrtc::sdp::SdpType;
use rustrtc::sdp::SessionDescription;
use rustrtc::sender::RtpSender;
use rustrtc::state::IceConnectionState;
use rustrtc::state::IceGatheringState;
use rustrtc::state::IceTransportState;
use rustrtc::state::PeerConnectionState;
use rustrtc::state::SignalingState;
use base64::engine::general_purpose::STANDARD as BASE64_STANDARD;
use base64::Engine;
use std::collections::HashMap;
use std::collections::HashSet;

const FINGERPRINT: &str = "AA:BB:CC:DD:EE:FF:00:11:22:33:44:55:66:77:88:99:AA:BB:CC:DD:EE:FF:00:11:22:33:44:55:66:77:88:99";

fn ipv4(a: u8, b: u8, c: u8, d: u8) -> IpAddress {
    let bits = ((a as u128) << 24) | ((b as u128) << 16) | ((c as u128) << 8) | d as u128;
    IpAddress { v6: false, bits }
}

fn addr(ip: IpAddress, port: u16) -> SocketAddress {
    SocketAddress { ip, port }
}

fn parse_ip(text: &str) -> Option<IpAddress> {
    let parts: Vec<&str> = text.split('.').collect();
    if parts.len() != 4 {
        return None;
    }
    let mut octets = Vec::new();
    for p in parts {
        octets.push(p.parse::<u8>().ok()?);
    }
    Some(ipv4(octets[0], octets[1], octets[2], octets[3]))
}

fn hosts_of(desc: &SessionDescription) -> HostTable {
    let mut table = HostTable::new();
    for text in host_texts(desc) {
        if let Some(ip) = parse_ip(&text) {
            table.add(text, ip);
        }
    }
    table
}

fn parse(sdp_type: SdpType, text: &str) -> SessionDescription {
    let mut desc = SessionDescription::new(sdp_type);
    for line in text.lines() {
        let line = line.trim();
        if line.len() < 2 {
            continue;
        }
        let value = line[2..].to_string();
        match &line[..2] {
            "m=" => {
                let w: Vec<&str> = value.split_whitespace().collect();
                let kind = match w[0] {
                    "audio" => MediaKind::Audio,
                    "video" => MediaKind::Video,
                    "application" => MediaKind::Application,
                    _ => MediaKind::Image,
                };
                let mut section = MediaSection::new(kind, String::new());
                section.port = w[1].parse().unwrap();
                section.protocol = w[2].to_string();
                section.formats = w[3..].iter().map(|f| f.to_string()).collect();
                section.direction = Direction::SendRecv;
                section.connection = None;
                section.attributes = Vec::new();
                desc.media_sections.push(section);
            }
            "c=" => match desc.media_sections.last_mut() {
                Some(s) => s.connection = Some(value),
                None => desc.session.connection = Some(value),
            },
            "a=" => {
                let attribute = match value.split_once(':') {
                    Some((k, v)) => Attribute::new(k, Some(v.to_string())),
                    None => Attribute::new(&value, None),
                };
                match desc.media_sections.last_mut() {
                    Some(s) => match attribute.key.as_str() {
                        "mid" => s.mid = attribute.value.unwrap(),
                        "sendrecv" => s.direction = Direction::SendRecv,
                        "sendonly" => s.direction = Direction::SendOnly,
                        "recvonly" => s.direction = Direction::RecvOnly,
                        "inactive" => s.direction = Direction::Inactive,
                        _ => s.attributes.push(attribute),
                    },
                    None => desc.session.attributes.push(attribute),
                }
            }
            _ => {}
        }
    }
    desc
}

fn write_attribute(out: &mut String, a: &Attribute) {
    match &a.value {
        Some(v) => out.push_str(&format!("a={}:{}\r\n", a.key, v)),
        None => out.push_str(&format!("a={}\r\n", a.key)),
    }
}

fn to_sdp_string(desc: &SessionDescription) -> String {
    let o = &desc.session.origin;
    let mut out = format!(
        "v=0\r\no={} {} {} IN IP4 {}\r\n",
        o.username, o.session_id, o.session_version, o.unicast_address
    );
    if let Some(c) = &desc.session.connection {
        out.push_str(&format!("c={}\r\n", c));
    }
    for a in &desc.session.attributes {
        write_attribute(&mut out, a);
    }
    for s in &desc.media_sections {
        let kind = match s.kind {
            MediaKind::Audio => "audio",
            MediaKind::Video => "video",
            MediaKind::Application => "application",
            MediaKind::Image => "image",
        };
        out.push_str(&format!("m={} {} {} {}\r\n", kind, s.port, s.protocol, s.formats.join(" ")));
        if let Some(c) = &s.connection {
            out.push_str(&format!("c={}\r\n", c));
        }
        if !s.mid.is_empty() {
            out.push_str(&format!("a=mid:{}\r\n", s.mid));
        }
        for a in &s.attributes {
            write_attribute(&mut out, a);
        }
    }
    out
}

fn has(section: &MediaSection, key: &str) -> bool {
    section.attributes.iter().any(|a| a.key == key)
}

fn has_value(section: &MediaSection, key: &str, value: &str) -> bool {
    section.attributes.iter().any(|a| a.key == key && a.value.as_deref() == Some(value))
}

fn rtp_config() -> RtcConfiguration {
    let mut config = RtcConfiguration::default();
    config.transport_mode = TransportMode::Rtp;
    config
}

fn srtp_config() -> RtcConfiguration {
    let mut config = RtcConfiguration::default();
    config.transport_mode = TransportMode::Srtp;
    config
}

fn capabilities(audio: Vec<AudioCapability>, video: Vec<VideoCapability>) -> Option<MediaCapabilities> {
    Some(MediaCapabilities { audio, video, application: None })
}

fn pcma() -> RtpCodecParameters {
    RtpCodecParameters { payload_type: 8, name: "PCMA".to_string(), clock_rate: 8000, channels: 1 }
}

fn pcmu() -> RtpCodecParameters {
    RtpCodecParameters { payload_type: 0, name: "PCMU".to_string(), clock_rate: 8000, channels: 1 }
}

fn opus() -> RtpCodecParameters {
    RtpCodecParameters { payload_type: 111, name: "opus".to_string(), clock_rate: 48000, channels: 2 }
}

fn vp8() -> RtpCodecParameters {
    RtpCodecParameters { payload_type: 96, name: "VP8".to_string(), clock_rate: 90000, channels: 0 }
}

/// A connection with a stand-in for its sockets: it carries out the actions that concern
/// addresses, and makes transports when they are asked for.
struct Rig {
    pc: PeerConnection,
    actions: Vec<Action>,
    next_transport: u64,
    remote: HashMap<u64, SocketAddress>,
    rtcp: HashMap<u64, SocketAddress>,
    tracks: Vec<u64>,
    observed: Vec<(u64, u64)>,
    primary_remote: Option<SocketAddress>,
    latched: HashSet<u64>,
}

impl Rig {
    fn new(config: RtcConfiguration) -> Rig {
        Rig {
            pc: PeerConnection::new(config, FINGERPRINT.to_string()),
            actions: Vec::new(),
            next_transport: 1,
            remote: HashMap::new(),
            rtcp: HashMap::new(),
            tracks: Vec::new(),
            observed: Vec::new(),
            primary_remote: None,
            latched: HashSet::new(),
        }
    }

    fn add(&mut self, kind: MediaKind, direction: TransceiverDirection) -> usize {
        self.pc.add_transceiver(kind, direction)
    }

    fn add_sender(&mut self, i: usize, ssrc: u32, params: RtpCodecParameters) {
        let sender = RtpSender::builder("track", ssrc)
            .stream_id("stream".to_string())
            .params(params)
            .build();
        self.pc.add_sender(i, sender, &mut self.actions);
    }

    fn perform(&mut self) {
        for a in std::mem::take(&mut self.actions) {
            match a {
                Action::SetRemoteAddress { transport, address } => {
                    self.remote.insert(transport, address);
                    self.latched.remove(&transport);
                }
                Action::SetRtcpAddress { transport, address } => match address {
                    Some(x) => {
                        self.rtcp.insert(transport, x);
                    }
                    None => {
                        self.rtcp.remove(&transport);
                    }
                },
                Action::CompleteDirect { address } => self.primary_remote = Some(address),
                Action::Track { transceiver } => self.tracks.push(transceiver),
                Action::Observe { transport, observer } => {
                    self.observed.push((transport, observer));
                }
                _ => {}
            }
        }
    }

    fn write(&mut self, plan: DescriptionPlan) -> SessionDescription {
        let mut locals = Vec::new();
        for k in 0..plan.slots.len() {
            let port = if self.pc.has_own_socket(&plan, k) { 20000 + 2 * k as u16 } else { 20000 };
            let rtcp_port = if self.pc.needs_rtcp_socket(&plan, &plan.slots[k]) {
                Some(port + 1)
            } else {
                None
            };
            locals.push(LocalTransport {
                ufrag: "ufrag".to_string(),
                pwd: "password".to_string(),
                candidates: vec![Candidate {
                    line: format!("1 1 UDP 2130706431 127.0.0.1 {} typ host", port),
                    component: 1,
                    ip: "127.0.0.1".to_string(),
                    port,
                    loopback: true,
                }],
                complete: true,
                rtcp_port,
                fax_port: 30000,
            });
        }
        let inputs = self.pc.fresh_inputs(&plan, &locals);
        let ip = Some("127.0.0.1".to_string());
        self.pc.build_description(&plan, &inputs, 1000, &ip, &mut self.actions)
    }

    fn create_offer(&mut self) -> RtcResult<SessionDescription> {
        let plan = self.pc.plan_offer(&mut self.actions)?;
        let desc = self.write(plan);
        for id in self.pc.own_transport_transceivers(&desc) {
            self.pc.direct_rtp_ice_transport(id, false);
            let fresh = self.next_transport;
            self.next_transport += 1;
            let m = self.pc.ensure_direct_rtp_media_transport(id, &None, fresh, &mut self.actions);
            if m.created {
                self.remote.insert(m.transport, m.remote);
            }
        }
        self.perform();
        Ok(desc)
    }

    fn create_answer(&mut self) -> RtcResult<SessionDescription> {
        let plan = self.pc.plan_answer()?;
        let desc = self.write(plan);
        self.perform();
        Ok(desc)
    }

    fn set_local(&mut self, desc: SessionDescription) -> RtcResult<()> {
        let r = self.pc.set_local_description(desc, &mut self.actions);
        self.perform();
        r
    }

    fn set_remote(&mut self, desc: SessionDescription) -> RtcResult<()> {
        let hosts = hosts_of(&desc);
        let start = self.pc.set_remote_description(desc.clone(), &hosts, &mut self.actions);
        self.perform();
        let start = start?;
        if let RemoteStart::Start(_, kind) = start {
            if let StartKind::Direct(a) = kind {
                self.primary_remote = Some(a);
                self.connect();
            }
            if self.pc.config().transport_mode == TransportMode::Rtp {
                self.apply_plan(&desc, &hosts);
            }
        }
        let known: Vec<(u64, SocketAddress)> = self.remote.iter().map(|(k, v)| (*k, *v)).collect();
        self.pc.update_rtcp_mux_from_remote(&known, &hosts, &mut self.actions);
        self.perform();
        Ok(())
    }

    fn apply_plan(&mut self, desc: &SessionDescription, hosts: &HostTable) {
        let plan = self.pc.plan_transports(desc, hosts);
        self.pc.begin_transport_plan(&plan, &mut self.actions);
        let mut connect = false;
        for setup in &plan.setups {
            self.pc.direct_rtp_ice_transport(setup.transceiver, setup.primary);
            if setup.primary {
                self.primary_remote = Some(setup.remote);
                connect = self.pc.rtp_transport().is_none();
            }
            let fresh = self.next_transport;
            self.next_transport += 1;
            let made =
                self.pc.configure_rtp_media_transport(setup, fresh, &mut self.actions);
            if let Some(m) = made {
                if m.created {
                    self.remote.insert(m.transport, m.remote);
                }
            }
        }
        self.pc.end_transport_plan(&plan, &mut self.actions);
        self.perform();
        if connect {
            self.connect();
        }
    }

    fn connect(&mut self) {
        assert_eq!(self.pc.on_ice_state(IceTransportState::Connected), IceStep::Up);
        let remote = self.primary_remote;
        let desc = self.pc.remote_description().unwrap();
        let hosts = hosts_of(&desc);
        let terms = self.pc.plan_primary_transport(remote, &hosts).unwrap();
        let transport = self.next_transport;
        self.next_transport += 1;
        self.remote.insert(transport, remote.unwrap());
        if let Some(a) = terms.rtcp {
            self.rtcp.insert(transport, a);
        }
        self.pc.adopt_transport(transport, &mut self.actions);
        self.perform();
        assert!(self.pc.on_started(false, &None).is_some());
    }

    fn primary_rtcp(&self) -> Option<SocketAddress> {
        self.rtcp.get(&self.pc.rtp_transport().unwrap()).copied()
    }

    fn primary_address(&self) -> SocketAddress {
        self.remote[&self.pc.rtp_transport().unwrap()]
    }
}

fn with_type(desc: &SessionDescription, sdp_type: SdpType) -> SessionDescription {
    let mut d = desc.clone();
    d.sdp_type = sdp_type;
    d
}

fn offered_audio() -> SessionDescription {
    let mut offerer = Rig::new(RtcConfiguration::default());
    offerer.add(MediaKind::Audio, TransceiverDirection::SendRecv);
    offerer.create_offer().unwrap()
}

fn callee_with_offer() -> Rig {
    let mut callee = Rig::new(RtcConfiguration::default());
    callee.add(MediaKind::Audio, TransceiverDirection::SendRecv);
    callee.set_remote(offered_audio()).unwrap();
    callee
}

const AUDIO_PAYLOAD_TYPE: u8 = 111;
const VIDEO_PAYLOAD_TYPE: u8 = 96;
const SCTP_FORMAT: &str = "webrtc-datachannel";
const SCTP_PORT: u16 = 5000;

#[test]
fn create_offer_contains_transceiver() {
    let mut rig = Rig::new(RtcConfiguration::default());
    let i = rig.add(MediaKind::Audio, TransceiverDirection::SendRecv);
    rig.add_sender(i, 12345, opus());
    let _ = rig.create_offer().unwrap();
    let offer = rig.create_offer().unwrap();

    assert_eq!(offer.media_sections.len(), 1);
    let section = &offer.media_sections[0];
    assert_eq!(section.kind, MediaKind::Audio);
    assert_eq!(section.direction, Direction::SendRecv);
    assert_eq!(section.formats, vec![AUDIO_PAYLOAD_TYPE.to_string()]);
    assert!(has(section, "ice-ufrag"));
    assert!(has(section, "ice-pwd"));
    assert!(offer.session.attributes.iter().any(|a| a.key == "msid-semantic"));
    assert!(has(section, "msid"));
    assert!(has(section, "ssrc"));
    assert!(has(section, "ice-options"));
    assert!(has(section, "end-of-candidates"));
    assert!(section.attributes.iter().filter(|a| a.key == "candidate").count() >= 1);
    assert!(section
        .attributes
        .iter()
        .any(|a| a.key == "rtpmap" && a.value.as_deref().unwrap_or("").contains("opus")));
    assert!(has(section, "fingerprint"));
    assert!(has_value(section, "setup", "actpass"));
    assert_eq!(rig.pc.signaling_state(), SignalingState::Stable);
}

#[test]
fn offer_includes_video_capabilities() {
    let mut rig = Rig::new(RtcConfiguration::default());
    rig.add(MediaKind::Video, TransceiverDirection::SendRecv);
    let offer = rig.create_offer().unwrap();
    let section = &offer.media_sections[0];
    assert_eq!(section.kind, MediaKind::Video);
    assert_eq!(section.formats, vec![VIDEO_PAYLOAD_TYPE.to_string()]);
    assert!(has(section, "rtcp-fb"));
    assert!(section
        .attributes
        .iter()
        .any(|a| a.key == "rtpmap" && a.value.as_deref().unwrap_or("").contains("VP8")));
}

#[test]
fn offer_includes_application_capabilities() {
    let mut rig = Rig::new(RtcConfiguration::default());
    rig.add(MediaKind::Application, TransceiverDirection::SendRecv);
    let offer = rig.create_offer().unwrap();
    let section = &offer.media_sections[0];
    assert_eq!(section.kind, MediaKind::Application);
    assert_eq!(section.protocol, "UDP/DTLS/SCTP");
    assert_eq!(section.formats, vec![SCTP_FORMAT.to_string()]);
    assert!(has_value(section, "sctp-port", &SCTP_PORT.to_string()));
}

#[test]
fn test_simulcast_setup() {
    let mut rig = Rig::new(RtcConfiguration::default());
    let text = "v=0\r\n\
                o=- 123456 0 IN IP4 127.0.0.1\r\n\
                s=-\r\n\
                t=0 0\r\n\
                a=extmap:3 urn:ietf:params:rtp-hdrext:sdes:rtp-stream-id\r\n\
                a=fingerprint:sha-256 AA:BB:CC:DD:EE:FF:00:11:22:33:44:55:66:77:88:99:AA:BB:CC:DD:EE:FF:00:11:22:33:44:55:66:77:88:99\r\n\
                a=setup:passive\r\n\
                c=IN IP4 127.0.0.1\r\n\
                m=video 9 RTP/SAVPF 96\r\n\
                a=rtpmap:96 VP8/90000\r\n\
                a=rid:hi send\r\n\
                a=rid:mid send\r\n\
                a=rid:lo send\r\n\
                a=simulcast:send hi;mid;lo\r\n";
    rig.set_remote(parse(SdpType::Offer, text)).unwrap();

    assert_eq!(rig.pc.transceiver_count(), 1);
    let rx = rig.pc.get_transceivers()[0].receiver().unwrap();
    assert!(rx.has_simulcast_track("hi"));
    assert!(rx.has_simulcast_track("mid"));
    assert!(rx.has_simulcast_track("lo"));
    assert_eq!(rx.get_simulcast_rids().len(), 3);
}

#[test]
fn test_rtcp_mux_detection() {
    let mut rig = Rig::new(rtp_config());
    let text = "v=0\r\n\
                o=- 123456 0 IN IP4 127.0.0.1\r\n\
                s=-\r\n\
                t=0 0\r\n\
                c=IN IP4 127.0.0.1\r\n\
                m=audio 4000 RTP/AVP 111\r\n\
                a=rtpmap:111 opus/48000/2\r\n";
    rig.set_remote(parse(SdpType::Offer, text)).unwrap();
    assert_eq!(rig.pc.peer_state(), PeerConnectionState::Connected);
    let rtcp = rig.primary_rtcp();
    assert!(rtcp.is_some());
    assert_eq!(rtcp.unwrap().port, 4001);
}

#[test]
fn test_rtcp_mux_enabled() {
    let mut rig = Rig::new(rtp_config());
    let text = "v=0\r\n\
                o=- 123456 0 IN IP4 127.0.0.1\r\n\
                s=-\r\n\
                t=0 0\r\n\
                c=IN IP4 127.0.0.1\r\n\
                m=audio 4000 RTP/AVP 111\r\n\
                a=rtcp-mux\r\n\
                a=rtpmap:111 opus/48000/2\r\n";
    rig.set_remote(parse(SdpType::Offer, text)).unwrap();
    assert_eq!(rig.pc.peer_state(), PeerConnectionState::Connected);
    assert!(rig.primary_rtcp().is_none());
}

#[test]
fn set_local_description_transitions_state() {
    let mut rig = Rig::new(RtcConfiguration::default());
    rig.add(MediaKind::Audio, TransceiverDirection::SendRecv);
    let offer = rig.create_offer().unwrap();
    rig.set_local(offer.clone()).unwrap();
    assert_eq!(rig.pc.signaling_state(), SignalingState::HaveLocalOffer);
    rig.set_remote(with_type(&offer, SdpType::Answer)).unwrap();
    assert_eq!(rig.pc.signaling_state(), SignalingState::Stable);
}

#[test]
fn pranswer_sets_up_media_without_completing_negotiation() {
    let mut rig = Rig::new(RtcConfiguration::default());
    rig.add(MediaKind::Audio, TransceiverDirection::SendRecv);
    let offer = rig.create_offer().unwrap();
    rig.set_local(offer.clone()).unwrap();
    assert_eq!(rig.pc.signaling_state(), SignalingState::HaveLocalOffer);
    rig.set_remote(with_type(&offer, SdpType::Pranswer)).unwrap();
    assert_eq!(rig.pc.signaling_state(), SignalingState::HaveLocalOffer);
    rig.set_remote(with_type(&offer, SdpType::Answer)).unwrap();
    assert_eq!(rig.pc.signaling_state(), SignalingState::Stable);
}

#[test]
fn set_local_description_pranswer_keeps_have_remote_offer_state() {
    let mut callee = callee_with_offer();
    assert_eq!(callee.pc.signaling_state(), SignalingState::HaveRemoteOffer);
    let answer = callee.create_answer().unwrap();
    callee.set_local(with_type(&answer, SdpType::Pranswer)).unwrap();
    assert_eq!(callee.pc.signaling_state(), SignalingState::HaveRemoteOffer);
}

#[test]
fn set_local_description_pranswer_then_answer_completes_negotiation() {
    let mut callee = callee_with_offer();
    let answer = callee.create_answer().unwrap();
    callee.set_local(with_type(&answer, SdpType::Pranswer)).unwrap();
    assert_eq!(callee.pc.signaling_state(), SignalingState::HaveRemoteOffer);
    callee.set_local(answer).unwrap();
    assert_eq!(callee.pc.signaling_state(), SignalingState::Stable);
}

#[test]
fn set_local_description_pranswer_requires_have_remote_offer() {
    let mut rig = Rig::new(RtcConfiguration::default());
    rig.add(MediaKind::Audio, TransceiverDirection::SendRecv);
    let offer = rig.create_offer().unwrap();
    let err = rig.set_local(with_type(&offer, SdpType::Pranswer)).unwrap_err();
    assert!(matches!(err, RtcError::InvalidState(_)));

    let mut rig = Rig::new(RtcConfiguration::default());
    rig.add(MediaKind::Audio, TransceiverDirection::SendRecv);
    let offer = rig.create_offer().unwrap();
    rig.set_local(offer.clone()).unwrap();
    assert_eq!(rig.pc.signaling_state(), SignalingState::HaveLocalOffer);
    let err = rig.set_local(with_type(&offer, SdpType::Pranswer)).unwrap_err();
    assert!(matches!(err, RtcError::InvalidState(_)));
}

#[test]
fn set_local_description_pranswer_stores_local_description() {
    let mut callee = callee_with_offer();
    assert!(callee.pc.local_description().is_none());
    let answer = callee.create_answer().unwrap();
    callee.set_local(with_type(&answer, SdpType::Pranswer)).unwrap();
    let stored = callee.pc.local_description().expect("a local description");
    assert_eq!(stored.sdp_type, SdpType::Pranswer);
    assert!(!stored.media_sections.is_empty());
}

#[test]
fn set_local_description_pranswer_allows_multiple_provisional_answers() {
    let mut callee = callee_with_offer();
    let answer = callee.create_answer().unwrap();
    callee.set_local(with_type(&answer, SdpType::Pranswer)).unwrap();
    assert_eq!(callee.pc.signaling_state(), SignalingState::HaveRemoteOffer);
    callee.set_local(with_type(&answer, SdpType::Pranswer)).unwrap();
    assert_eq!(callee.pc.signaling_state(), SignalingState::HaveRemoteOffer);
    callee.set_local(answer).unwrap();
    assert_eq!(callee.pc.signaling_state(), SignalingState::Stable);
}

#[test]
fn create_answer_requires_remote_offer() {
    let mut rig = Rig::new(RtcConfiguration::default());
    rig.add(MediaKind::Video, TransceiverDirection::SendOnly);
    let err = rig.create_answer().unwrap_err();
    assert!(matches!(err, RtcError::InvalidState(_)));

    let offer = rig.create_offer().unwrap();
    rig.set_remote(offer.clone()).unwrap();
    let answer = rig.create_answer().unwrap();
    assert_eq!(answer.media_sections.len(), 1);
    assert_eq!(answer.media_sections[0].direction, Direction::Inactive);
    rig.set_local(answer).unwrap();
    assert_eq!(rig.pc.signaling_state(), SignalingState::Stable);
}

#[test]
fn remote_answer_without_local_offer_is_error() {
    let mut rig = Rig::new(RtcConfiguration::default());
    rig.add(MediaKind::Audio, TransceiverDirection::RecvOnly);
    let fake = rig.create_offer().unwrap();
    let err = rig.set_remote(with_type(&fake, SdpType::Answer)).unwrap_err();
    assert!(matches!(err, RtcError::InvalidState(_)));
}

#[test]
fn create_offer_rtp_mode() {
    let mut rig = Rig::new(rtp_config());
    let i = rig.add(MediaKind::Audio, TransceiverDirection::SendRecv);
    rig.add_sender(i, 12345, opus());
    let offer = rig.create_offer().unwrap();
    let section = &offer.media_sections[0];
    assert!(!has(section, "ice-ufrag"));
    assert!(!has(section, "candidate"));
    assert!(!has(section, "fingerprint"));
    assert!(!offer.session.attributes.iter().any(|a| a.key == "msid-semantic"));
    assert!(!has(section, "msid"));
    assert!(has(section, "ssrc"));
    assert_eq!(section.protocol, "RTP/AVP");
}

#[test]
fn create_offer_srtp_mode() {
    let mut rig = Rig::new(srtp_config());
    rig.add(MediaKind::Audio, TransceiverDirection::SendRecv);
    let offer = rig.create_offer().unwrap();
    let section = &offer.media_sections[0];
    assert!(!has(section, "ice-ufrag"));
    assert!(!has(section, "candidate"));
    assert!(!has(section, "fingerprint"));
    assert!(!has(section, "setup"));
    assert_eq!(section.protocol, "RTP/SAVP");
    assert!(has(section, "crypto"));
}

fn video_offer(tail: &str) -> SessionDescription {
    let text = format!(
        "v=0\r\n\
o=- 123456 123456 IN IP4 127.0.0.1\r\n\
s=-\r\n\
t=0 0\r\n\
m=video 9 UDP/TLS/RTP/SAVPF 96\r\n\
c=IN IP4 127.0.0.1\r\n\
a=mid:0\r\n\
a=sendrecv\r\n\
a=rtpmap:96 VP8/90000\r\n\
a=fingerprint:sha-256 {FINGERPRINT}\r\n\
a=setup:passive\r\n{tail}"
    );
    parse(SdpType::Offer, &text)
}

fn check_streams(tail: &str) {
    let mut rig = Rig::new(RtcConfiguration::default());
    rig.set_remote(video_offer(tail)).unwrap();
    assert_eq!(rig.pc.transceiver_count(), 1);
    let receiver = rig.pc.get_transceivers()[0].receiver().unwrap();
    assert_eq!(receiver.ssrc(), 12345);
    assert_eq!(receiver.rtx_ssrc(), Some(67890));
}

#[test]
fn test_ssrc_parsing_with_fid_group() {
    check_streams(
        "a=ssrc:12345 cname:foo\r\na=ssrc:67890 cname:foo\r\na=ssrc-group:FID 12345 67890\r\n",
    );
}

#[test]
fn test_ssrc_parsing_with_fid_group_before_ssrc() {
    check_streams(
        "a=ssrc-group:FID 12345 67890\r\na=ssrc:12345 cname:foo\r\na=ssrc:67890 cname:foo\r\n",
    );
}

#[test]
fn test_ssrc_parsing_rtx_first_group_last() {
    check_streams(
        "a=ssrc:67890 cname:foo\r\na=ssrc:12345 cname:foo\r\na=ssrc-group:FID 12345 67890\r\n",
    );
}

#[test]
fn offer_with_rtx_capability_emits_rtpmap_fmtp_and_fid() {
    let mut config = RtcConfiguration::default();
    config.media_capabilities = capabilities(vec![], vec![VideoCapability::vp8_with_rtx(97)]);
    let mut rig = Rig::new(config);
    let i = rig.pc.add_track(MediaKind::Video, "track", vp8(), &mut rig.actions);
    let offer = rig.create_offer().unwrap();
    let section = &offer.media_sections[0];
    assert!(section.formats.iter().any(|f| f == "97"));
    assert!(has_value(section, "rtpmap", "97 rtx/90000"));
    assert!(has_value(section, "fmtp", "97 apt=96"));
    assert!(section.attributes.iter().any(
        |a| a.key == "ssrc-group" && a.value.as_deref().unwrap_or("").starts_with("FID ")
    ));
    let t = &rig.pc.get_transceivers()[i];
    assert!(t.sender().unwrap().nack_handler().is_some());
    assert!(t.sender_rtx_ssrc().is_some());
}

const RTX_OFFER: &str = "v=0\r\n\
o=- 1 1 IN IP4 127.0.0.1\r\n\
s=-\r\n\
t=0 0\r\n\
m=video 9 UDP/TLS/RTP/SAVPF 96 97\r\n\
c=IN IP4 127.0.0.1\r\n\
a=mid:0\r\n\
a=sendrecv\r\n\
a=rtpmap:96 VP8/90000\r\n\
a=rtpmap:97 rtx/90000\r\n\
a=fmtp:97 apt=96\r\n\
a=rtcp-fb:96 nack\r\n\
a=fingerprint:sha-256 AA:BB:CC:DD:EE:FF:00:11:22:33:44:55:66:77:88:99:AA:BB:CC:DD:EE:FF:00:11:22:33:44:55:66:77:88:99\r\n\
a=setup:actpass\r\n\
a=ice-ufrag:test\r\n\
a=ice-pwd:testpassword12345678901\r\n";

#[test]
fn answer_echoes_remote_rtx_when_offered() {
    let mut rig = Rig::new(RtcConfiguration::default());
    rig.add(MediaKind::Video, TransceiverDirection::SendRecv);
    rig.set_remote(parse(SdpType::Offer, RTX_OFFER)).unwrap();
    let answer = rig.create_answer().unwrap();
    let section = &answer.media_sections[0];
    assert!(section.formats.iter().any(|f| f == "97"));
    assert!(has_value(section, "fmtp", "97 apt=96"));
}

fn lacks_rtx(section: &MediaSection) -> bool {
    section.attributes.iter().all(|a| {
        a.key != "rtpmap"
            || !a.value.as_deref().unwrap_or("").to_ascii_lowercase().contains(" rtx/")
    })
}

#[test]
fn answer_does_not_echo_rtx_when_remote_omits_it() {
    let mut config = RtcConfiguration::default();
    config.media_capabilities = capabilities(vec![], vec![VideoCapability::vp8_with_rtx(97)]);
    let mut rig = Rig::new(config);
    rig.add(MediaKind::Video, TransceiverDirection::SendRecv);
    let text = "v=0\r\n\
o=- 1 1 IN IP4 127.0.0.1\r\n\
s=-\r\n\
t=0 0\r\n\
m=video 9 UDP/TLS/RTP/SAVPF 96\r\n\
c=IN IP4 127.0.0.1\r\n\
a=mid:0\r\n\
a=sendrecv\r\n\
a=rtpmap:96 VP8/90000\r\n\
a=rtcp-fb:96 nack\r\n\
a=fingerprint:sha-256 AA:BB:CC:DD:EE:FF:00:11:22:33:44:55:66:77:88:99:AA:BB:CC:DD:EE:FF:00:11:22:33:44:55:66:77:88:99\r\n\
a=setup:actpass\r\n\
a=ice-ufrag:test\r\n\
a=ice-pwd:testpassword12345678901\r\n";
    rig.set_remote(parse(SdpType::Offer, text)).unwrap();
    let answer = rig.create_answer().unwrap();
    let section = &answer.media_sections[0];
    assert!(!section.formats.iter().any(|f| f == "97"));
    assert!(lacks_rtx(section));
}

#[test]
fn default_offer_has_no_rtx_without_capability() {
    let mut rig = Rig::new(RtcConfiguration::default());
    rig.pc.add_track(MediaKind::Video, "track", vp8(), &mut rig.actions);
    let offer = rig.create_offer().unwrap();
    let section = &offer.media_sections[0];
    assert!(lacks_rtx(section));
    assert!(section.attributes.iter().all(
        |a| a.key != "ssrc-group" || !a.value.as_deref().unwrap_or("").starts_with("FID ")
    ));
}

fn rtx_receiver_rig() -> Rig {
    let mut rig = Rig::new(RtcConfiguration::default());
    let text = format!(
        "v=0\r\n\
o=- 123456 123456 IN IP4 127.0.0.1\r\n\
s=-\r\n\
t=0 0\r\n\
m=video 9 UDP/TLS/RTP/SAVPF 96 97\r\n\
c=IN IP4 127.0.0.1\r\n\
a=mid:0\r\n\
a=sendrecv\r\n\
a=rtpmap:96 VP8/90000\r\n\
a=rtpmap:97 rtx/90000\r\n\
a=fmtp:97 apt=96\r\n\
a=fingerprint:sha-256 {FINGERPRINT}\r\n\
a=setup:passive\r\n\
a=ssrc-group:FID 12345 67890\r\n\
a=ssrc:12345 cname:foo\r\n\
a=ssrc:67890 cname:foo\r\n"
    );
    rig.set_remote(parse(SdpType::Offer, &text)).unwrap();
    rig
}

#[test]
fn remote_rtx_apt_map_stored_on_receiver() {
    let rig = rtx_receiver_rig();
    let receiver = rig.pc.get_transceivers()[0].receiver().unwrap();
    assert_eq!(receiver.rtx_ssrc(), Some(67890));
    let mut header = RtpHeader::new(96, 42, 1000, 12345);
    header.marker = true;
    let packet = RtpPacket { header, payload: vec![9, 8, 7], padding_len: 0 };
    let rtx = wrap_rtx_packet(
        &packet,
        &RtxSenderConfig { rtx_ssrc: 67890, rtx_payload_type: 97 },
        1,
    );
    let restored = receiver.maybe_unwrap_rtx(rtx).expect("a restored packet");
    assert_eq!(restored.header.ssrc, 12345);
    assert_eq!(restored.header.payload_type, 96);
    assert_eq!(restored.header.sequence_number, 42);
    assert_eq!(&restored.payload[..], &[9, 8, 7]);

    let short = RtpPacket {
        header: RtpHeader::new(97, 1, 0, 67890),
        payload: vec![0x00],
        padding_len: 0,
    };
    assert!(receiver.maybe_unwrap_rtx(short).is_none());
}

#[test]
fn sender_set_rtx_returns_true_with_default_handler() {
    let mut config = RtcConfiguration::default();
    config.media_capabilities = capabilities(vec![], vec![VideoCapability::vp8_with_rtx(97)]);
    let mut rig = Rig::new(config);
    let i = rig.pc.add_track(MediaKind::Video, "track", vp8(), &mut rig.actions);
    let sender = rig.pc.transceiver_mut(i).sender_mut().unwrap();
    assert!(sender.set_rtx(Some(RtxSenderConfig { rtx_ssrc: 4242, rtx_payload_type: 97 })));
}

#[test]
fn maybe_unwrap_rtx_drops_unmapped_pt_on_rtx_ssrc() {
    let rig = rtx_receiver_rig();
    let receiver = rig.pc.get_transceivers()[0].receiver().unwrap();
    let bad = RtpPacket {
        header: RtpHeader::new(96, 1, 0, 67890),
        payload: vec![0xDE, 0xAD, 0xBE, 0xEF],
        padding_len: 0,
    };
    assert!(receiver.maybe_unwrap_rtx(bad).is_none());
}

#[test]
fn maybe_unwrap_rtx_passes_through_primary_packet() {
    let rig = rtx_receiver_rig();
    let receiver = rig.pc.get_transceivers()[0].receiver().unwrap();
    let primary = RtpPacket {
        header: RtpHeader::new(96, 100, 42_000, 12345),
        payload: vec![1, 2, 3, 4],
        padding_len: 0,
    };
    let restored = receiver.maybe_unwrap_rtx(primary).expect("a packet");
    assert_eq!(restored.header.sequence_number, 100);
    assert_eq!(restored.header.ssrc, 12345);
    assert_eq!(&restored.payload[..], &[1, 2, 3, 4]);
}

fn crypto_value(section: &MediaSection) -> String {
    let a = section.attributes.iter().find(|a| a.key == "crypto").expect("a crypto line");
    a.value.clone().unwrap()
}

#[test]
fn create_offer_srtp_mode_includes_crypto() {
    let mut rig = Rig::new(srtp_config());
    rig.add(MediaKind::Audio, TransceiverDirection::SendRecv);
    let offer = rig.create_offer().unwrap();
    let section = &offer.media_sections[0];
    assert_eq!(section.protocol, "RTP/SAVP");
    assert!(crypto_value(section).starts_with("1 AES_CM_128_HMAC_SHA1_80 inline:"));
}

#[test]
fn sdes_answer_key_length_matches_selected_suite() {
    for (suite, key_len) in [
        ("AEAD_AES_128_GCM", 28usize),
        ("AES_CM_128_HMAC_SHA1_80", 30),
        ("AES_CM_128_HMAC_SHA1_32", 30),
    ] {
        let mut rig = Rig::new(srtp_config());
        let peer_key = vec![0x11u8; key_len];
        let encoded = BASE64_STANDARD.encode(&peer_key);
        let fallback = BASE64_STANDARD.encode([0x22u8; 30]);
        let text = format!(
            "v=0\r\no=- 1 1 IN IP4 127.0.0.1\r\ns=-\r\nc=IN IP4 127.0.0.1\r\nt=0 0\r\n\
             m=audio 4000 RTP/SAVP 0\r\na=rtpmap:0 PCMU/8000\r\na=sendrecv\r\n\
             a=crypto:1 {suite} inline:{encoded}\r\n\
             a=crypto:2 AES_CM_128_HMAC_SHA1_80 inline:{fallback}\r\n"
        );
        let offer = parse(SdpType::Offer, &text);
        rig.set_remote(offer.clone()).unwrap();
        let answer = rig.create_answer().unwrap();
        let crypto = answer.media_sections[0].get_crypto_attributes();
        assert_eq!(crypto.len(), 1);
        assert_eq!(crypto[0].crypto_suite, suite);
        let params = parse_sdes_key_params_full(&crypto[0].key_params).unwrap();
        assert_eq!(params.key_salt.len(), key_len, "{suite}");
        assert_ne!(params.key_salt, peer_key);
        assert!(params.mki.is_none());

        rig.set_local(answer.clone()).unwrap();
        let keys = rig.pc.sdes_keys().unwrap();
        assert_eq!(keys.tx_key.len() + keys.tx_salt.len(), key_len);
        assert_eq!([keys.rx_key, keys.rx_salt].concat(), peer_key);
        for bad_len in [key_len - 1, key_len + 2] {
            let bad_key = BASE64_STANDARD.encode(vec![0x33u8; bad_len]);
            let malformed = Some(parse(SdpType::Offer, &text.replace(&encoded, &bad_key)));
            let local = Some(answer.clone());
            let remote = Some(offer.clone());
            assert!(
                rustrtc::sdes::setup_sdes_keys(&local, &malformed).is_err(),
                "{suite} RX length {bad_len}"
            );
            assert!(
                rustrtc::sdes::setup_sdes_keys(&malformed, &remote).is_err(),
                "{suite} TX length {bad_len}"
            );
        }
        assert!(rig.pc.close(&None, &mut rig.actions));
    }
}

#[test]
fn create_answer_srtp_mode_uses_savp_profile() {
    let text = "v=0\r\n\
o=root 1 1 IN IP4 168.86.151.229\r\n\
s=-\r\n\
c=IN IP4 168.86.151.229\r\n\
t=0 0\r\n\
m=audio 19960 RTP/SAVP 0 8 101\r\n\
a=crypto:1 AES_CM_128_HMAC_SHA1_80 inline:a976SJLwniPcMiUP27gdcLYYcPm0bHZcghV84DsK\r\n\
a=rtpmap:0 PCMU/8000\r\n\
a=rtpmap:8 PCMA/8000\r\n\
a=rtpmap:101 telephone-event/8000\r\n\
a=sendrecv\r\n";
    let mut rig = Rig::new(srtp_config());
    rig.set_remote(parse(SdpType::Offer, text)).unwrap();
    let answer = rig.create_answer().unwrap();
    let section = &answer.media_sections[0];
    assert_eq!(section.protocol, "RTP/SAVP");
    assert!(has(section, "crypto"));
}

#[test]
fn create_answer_srtp_mode_echoes_offer_mki_and_tag() {
    let text = "v=0\r\n\
o=root 1 1 IN IP4 168.86.151.229\r\n\
s=-\r\n\
c=IN IP4 168.86.151.229\r\n\
t=0 0\r\n\
m=audio 19960 RTP/SAVP 0 8 101\r\n\
a=crypto:2 AES_CM_128_HMAC_SHA1_32 inline:89V4GlaGoakgb7PsBmJewbHgseDfcgDmwPqSeSte|2^31|1:1\r\n\
a=rtpmap:0 PCMU/8000\r\n\
a=rtpmap:8 PCMA/8000\r\n\
a=rtpmap:101 telephone-event/8000\r\n\
a=sendrecv\r\n";
    let mut rig = Rig::new(srtp_config());
    rig.set_remote(parse(SdpType::Offer, text)).unwrap();
    let answer = rig.create_answer().unwrap();
    let value = crypto_value(&answer.media_sections[0]);
    assert!(value.starts_with("2 AES_CM_128_HMAC_SHA1_32 inline:"), "{value}");
    assert!(value.ends_with("|2^31"), "{value}");
    assert!(!value.ends_with("1:1"), "{value}");
}

#[test]
fn create_offer_srtp_mode_has_no_mki() {
    let mut rig = Rig::new(srtp_config());
    rig.add(MediaKind::Audio, TransceiverDirection::SendRecv);
    let offer = rig.create_offer().unwrap();
    let value = crypto_value(&offer.media_sections[0]);
    assert!(
        value.starts_with("1 AES_CM_128_HMAC_SHA1_80 inline:") && value.ends_with("|2^31"),
        "{value}"
    );
    assert!(!value.contains("1:1"), "{value}");
}

#[test]
fn test_nack_configuration() {
    let mut config = RtcConfiguration::default();
    config.nack_buffer_size = 200;
    let mut rig = Rig::new(config);
    let i = rig.add(MediaKind::Video, TransceiverDirection::SendRecv);
    assert!(rig.pc.get_transceivers()[i].receiver().unwrap().nack_handler().is_some());
    let j = rig.pc.add_track_with_stream_id(
        MediaKind::Video,
        "track",
        "stream1".to_string(),
        RtpCodecParameters::default(),
        &mut rig.actions,
    );
    assert!(rig.pc.get_transceivers()[j].sender().unwrap().nack_handler().is_some());
}

const PCMA_OFFER: &str = "v=0
o=- 12345 12345 IN IP4 192.168.1.100
s=-
c=IN IP4 192.168.1.100
t=0 0
m=audio 9000 RTP/AVP 8
a=rtpmap:8 PCMA/8000
a=sendonly
a=mid:0
";

#[test]
fn rtp_mode_sends_track_event_after_ssrc_latching() {
    let mut rig = Rig::new(rtp_config());
    let i = rig.add(MediaKind::Audio, TransceiverDirection::RecvOnly);
    rig.set_remote(parse(SdpType::Offer, PCMA_OFFER)).unwrap();
    assert_eq!(rig.pc.get_transceivers()[i].receiver().unwrap().ssrc(), 0);
}

#[test]
fn set_remote_description_updates_audio_clock_rate_for_received_frames() {
    let mut rig = Rig::new(rtp_config());
    let i = rig.add(MediaKind::Audio, TransceiverDirection::RecvOnly);
    rig.set_remote(parse(SdpType::Offer, PCMA_OFFER)).unwrap();
    let payload_map = rig.pc.get_transceivers()[i].get_payload_map();
    let codec = payload_map.get(&8).unwrap();
    assert_eq!(codec.clock_rate, 8000);
    assert_eq!(codec.channels, 0);

    let receiver = rig.pc.transceiver_mut(i).receiver_mut().unwrap();
    let packet = RtpPacket::new(RtpHeader::new(8, 7, 320, 0x2233_4455), vec![0x11, 0x22, 0x33]);
    match receiver.on_packet(None, packet) {
        PacketStep::Received(frame) => {
            assert_eq!(frame.clock_rate, 8000);
            assert_eq!(frame.packet.header.payload_type, 8);
            assert_eq!(frame.packet.header.timestamp, 320);
        }
        _ => panic!("expected media"),
    }
}

#[test]
fn rtp_mode_external_ip_in_sdp() {
    let mut config = rtp_config();
    config.external_ip = Some("203.0.113.5".to_string());
    let mut rig = Rig::new(config);
    let i = rig.add(MediaKind::Audio, TransceiverDirection::SendRecv);
    rig.add_sender(i, 12345, pcma());
    let sdp = to_sdp_string(&rig.create_offer().unwrap());
    assert!(sdp.contains("c=IN IP4 203.0.113.5"), "{sdp}");
    assert!(sdp.contains("203.0.113.5"));
}

#[test]
fn test_cleanup_orphaned_extra_transports() {
    let mut rig = Rig::new(RtcConfiguration::default());
    rig.add(MediaKind::Audio, TransceiverDirection::SendRecv);
    rig.add(MediaKind::Video, TransceiverDirection::SendRecv);
    let t0 = rig.pc.get_transceivers()[0].id();
    let t1 = rig.pc.get_transceivers()[1].id();
    rig.pc.transceiver_mut(0).set_mid("0".to_string());
    rig.pc.transceiver_mut(1).set_mid("1".to_string());
    assert!(rig.pc.direct_rtp_ice_transport(t0, false));
    assert!(rig.pc.direct_rtp_ice_transport(t1, false));

    let mut desc = SessionDescription::new(SdpType::Offer);
    let mut section = MediaSection::new(MediaKind::Audio, "0".to_string());
    section.port = 9;
    section.protocol = "UDP/DTLS/SCTP".to_string();
    section.formats = vec!["0".to_string()];
    section.attributes = vec![
        Attribute::new("ice-ufrag", Some("ufrag".to_string())),
        Attribute::new("ice-pwd", Some("pwd".to_string())),
        Attribute::new("mid", Some("0".to_string())),
        Attribute::new("ssrc", Some("100 cname:test".to_string())),
    ];
    desc.media_sections = vec![section];
    rig.pc.cleanup_orphaned_extra_transports(&desc, &mut rig.actions);

    // A transport that is there still is not made again; one that is gone is.
    assert!(!rig.pc.direct_rtp_ice_transport(t0, false));
    assert!(rig.pc.direct_rtp_ice_transport(t1, false));
    let stopped: Vec<u64> = rig
        .actions
        .iter()
        .filter_map(|a| match a {
            Action::StopIce { transceiver } => Some(*transceiver),
            _ => None,
        })
        .collect();
    assert_eq!(stopped, vec![t1]);
}

#[test]
fn cleanup_orphaned_extra_transports_preserves_midless_video() {
    let mut rig = Rig::new(RtcConfiguration::default());
    let audio = rig.add(MediaKind::Audio, TransceiverDirection::SendRecv);
    let video = rig.add(MediaKind::Video, TransceiverDirection::SendRecv);
    rig.pc.transceiver_mut(audio).set_mid("0".to_string());
    rig.pc.transceiver_mut(video).set_mid("1".to_string());
    let id = rig.pc.get_transceivers()[video].id();
    rig.pc.direct_rtp_ice_transport(id, false);
    let text = "c=IN IP4 10.0.0.2\r\n\
                m=audio 5000 RTP/AVP 0\r\n\
                m=video 6000 RTP/AVP 96\r\n";
    let desc = parse(SdpType::Answer, text);
    rig.pc.cleanup_orphaned_extra_transports(&desc, &mut rig.actions);
    assert!(!rig.pc.direct_rtp_ice_transport(id, false));
}

#[test]
fn rtp_mode_gathering_completes_immediately() {
    let mut rig = Rig::new(rtp_config());
    rig.add(MediaKind::Audio, TransceiverDirection::SendRecv);
    assert!(!rig.pc.awaits_gathering());
    assert!(Rig::new(RtcConfiguration::default()).pc.awaits_gathering());
}

#[test]
fn rtp_mode_offer_has_gathering_complete_after_create() {
    let mut rig = Rig::new(rtp_config());
    rig.add(MediaKind::Audio, TransceiverDirection::SendRecv);
    let _ = rig.create_offer().unwrap();
    assert_eq!(rig.pc.ice_gathering_state(), IceGatheringState::Complete);
}

const ANSWERED_OFFER: &str = "v=0\r\n\
    o=- 1 1 IN IP4 10.0.0.1\r\n\
    s=-\r\n\
    t=0 0\r\n\
    c=IN IP4 10.0.0.1\r\n\
    m=audio 5000 RTP/AVP 8\r\n\
    a=rtpmap:8 PCMA/8000\r\n\
    a=sendrecv\r\n";

#[test]
fn rtp_mode_answerer_latching_config_propagates() {
    let mut config = rtp_config();
    config.enable_latching = true;
    let mut rig = Rig::new(config);
    rig.set_remote(parse(SdpType::Offer, ANSWERED_OFFER)).unwrap();
    assert_eq!(rig.pc.peer_state(), PeerConnectionState::Connected);
    assert!(rig.pc.config().enable_latching);
    assert!(rig.pc.rtp_transport().is_some());
    let hosts = HostTable::new();
    let terms = rig.pc.plan_primary_transport(rig.primary_remote, &hosts).unwrap();
    assert!(terms.latch);
}

#[test]
fn rtp_mode_offerer_connects_after_answer() {
    let mut rig = Rig::new(rtp_config());
    let i = rig.add(MediaKind::Audio, TransceiverDirection::SendRecv);
    rig.add_sender(i, 12345, pcma());
    let offer = rig.create_offer().unwrap();
    rig.set_local(offer).unwrap();
    assert_eq!(rig.pc.ice_connection_state(), IceConnectionState::New);
    let text = "v=0\r\n\
                o=- 1 1 IN IP4 10.0.0.2\r\n\
                s=-\r\n\
                t=0 0\r\n\
                c=IN IP4 10.0.0.2\r\n\
                m=audio 6000 RTP/AVP 8\r\n\
                a=rtpmap:8 PCMA/8000\r\n\
                a=recvonly\r\n";
    rig.set_remote(parse(SdpType::Answer, text)).unwrap();
    assert_eq!(rig.pc.peer_state(), PeerConnectionState::Connected);
    assert_eq!(rig.primary_remote, Some(addr(ipv4(10, 0, 0, 2), 6000)));
}

#[test]
fn rtp_mode_answerer_connects_on_set_remote() {
    let mut rig = Rig::new(rtp_config());
    rig.set_remote(parse(SdpType::Offer, ANSWERED_OFFER)).unwrap();
    assert_eq!(rig.pc.peer_state(), PeerConnectionState::Connected);
    assert_eq!(rig.primary_remote, Some(addr(ipv4(10, 0, 0, 1), 5000)));
}

#[test]
fn rtp_mode_no_ice_dtls_artifacts() {
    let mut rig = Rig::new(rtp_config());
    let i = rig.add(MediaKind::Audio, TransceiverDirection::SendRecv);
    rig.add_sender(i, 42, pcmu());
    let sdp = to_sdp_string(&rig.create_offer().unwrap());
    for absent in [
        "ice-ufrag",
        "ice-pwd",
        "ice-options",
        "a=candidate",
        "fingerprint",
        "a=setup:",
        "msid-semantic",
    ] {
        assert!(!sdp.contains(absent), "{absent} in {sdp}");
    }
    assert!(sdp.contains("RTP/AVP"));
    assert!(sdp.contains("c=IN IP4"));
}

fn rtcp_port_for(line: &str) -> Option<u16> {
    let mut rig = Rig::new(rtp_config());
    let text = format!(
        "v=0\r\n\
         o=- 1 1 IN IP4 10.0.0.1\r\n\
         s=-\r\n\
         t=0 0\r\n\
         c=IN IP4 10.0.0.1\r\n\
         m=audio 8000 RTP/AVP 0\r\n\
         {line}\
         a=rtpmap:0 PCMU/8000\r\n\
         a=sendrecv\r\n"
    );
    rig.set_remote(parse(SdpType::Offer, &text)).unwrap();
    assert_eq!(rig.pc.peer_state(), PeerConnectionState::Connected);
    rig.primary_rtcp().map(|a| a.port)
}

#[test]
fn rtp_mode_rtcp_separate_port_answerer() {
    assert_eq!(rtcp_port_for(""), Some(8001));
}

#[test]
fn rtp_mode_rtcp_explicit_port_answerer() {
    assert_eq!(rtcp_port_for("a=rtcp:9000\r\n"), Some(9000));
}

#[test]
fn rtp_mode_rtcp_mux_answerer() {
    assert_eq!(rtcp_port_for("a=rtcp-mux\r\n"), None);
}

fn ssrc_for(line: &str) -> u32 {
    let mut rig = Rig::new(rtp_config());
    let text = format!(
        "v=0\r\n\
         o=- 1 1 IN IP4 10.0.0.1\r\n\
         s=-\r\n\
         t=0 0\r\n\
         c=IN IP4 10.0.0.1\r\n\
         m=audio 7000 RTP/AVP 8\r\n\
         a=rtpmap:8 PCMA/8000\r\n\
         {line}\
         a=sendonly\r\n"
    );
    rig.set_remote(parse(SdpType::Offer, &text)).unwrap();
    assert_eq!(rig.pc.transceiver_count(), 1);
    rig.pc.get_transceivers()[0].receiver().unwrap().ssrc()
}

#[test]
fn rtp_mode_track_event_after_set_remote() {
    assert_eq!(ssrc_for(""), 0);
}

#[test]
fn rtp_mode_track_event_with_remote_ssrc() {
    assert_eq!(ssrc_for("a=ssrc:55555 cname:test\r\n"), 55555);
}

fn offer_with_policy(policy: RtcpMuxPolicy) -> String {
    let mut config = rtp_config();
    config.rtcp_mux_policy = policy;
    let mut rig = Rig::new(config);
    let i = rig.add(MediaKind::Audio, TransceiverDirection::SendRecv);
    rig.add_sender(i, 100, pcma());
    to_sdp_string(&rig.create_offer().unwrap())
}

#[test]
fn rtp_mode_rtcp_mux_negotiate_omits_attribute() {
    assert!(!offer_with_policy(RtcpMuxPolicy::Negotiate).contains("rtcp-mux"));
}

#[test]
fn rtp_mode_rtcp_mux_require_includes_attribute() {
    assert!(offer_with_policy(RtcpMuxPolicy::Require).contains("rtcp-mux"));
}

#[test]
fn rtp_mode_answer_omits_rtcp_mux_when_offer_omits_it() {
    let mut config = rtp_config();
    config.rtcp_mux_policy = RtcpMuxPolicy::Require;
    let mut rig = Rig::new(config);
    let i = rig.add(MediaKind::Audio, TransceiverDirection::SendRecv);
    rig.add_sender(i, 100, pcmu());
    let text = "v=0\r\n\
        o=- 1 1 IN IP4 10.0.0.1\r\n\
        s=-\r\n\
        t=0 0\r\n\
        c=IN IP4 10.0.0.1\r\n\
        m=audio 8000 RTP/AVP 0\r\n\
        a=rtpmap:0 PCMU/8000\r\n\
        a=sendrecv\r\n";
    rig.set_remote(parse(SdpType::Offer, text)).unwrap();
    let sdp = to_sdp_string(&rig.create_answer().unwrap());
    assert!(!sdp.contains("a=rtcp-mux"), "{sdp}");
    assert!(sdp.contains("a=rtcp:"), "{sdp}");
}

#[test]
fn reinvite_answer_audio_codecs_follow_remote_offer_subset() {
    let mut config = rtp_config();
    config.rtcp_mux_policy = RtcpMuxPolicy::Require;
    config.media_capabilities = capabilities(
        vec![AudioCapability::opus(), AudioCapability::g722(), AudioCapability::telephone_event()],
        vec![],
    );
    let mut rig = Rig::new(config);
    rig.add(MediaKind::Audio, TransceiverDirection::SendRecv);
    let offer = rig.create_offer().unwrap();
    rig.set_local(offer).unwrap();
    let answer = "v=0\r\n\
        o=- 1 1 IN IP4 10.0.0.1\r\n\
        s=-\r\n\
        t=0 0\r\n\
        c=IN IP4 10.0.0.1\r\n\
        m=audio 8000 RTP/AVP 111 101\r\n\
        a=rtpmap:111 opus/48000/2\r\n\
        a=fmtp:111 minptime=10;useinbandfec=1\r\n\
        a=rtpmap:101 telephone-event/8000\r\n\
        a=fmtp:101 0-16\r\n\
        a=sendrecv\r\n";
    rig.set_remote(parse(SdpType::Answer, answer)).unwrap();
    let reoffer = "v=0\r\n\
        o=- 1 1 IN IP4 10.0.0.1\r\n\
        s=-\r\n\
        t=0 0\r\n\
        c=IN IP4 10.0.0.1\r\n\
        m=audio 8000 RTP/AVP 9 101\r\n\
        a=rtpmap:9 G722/8000\r\n\
        a=rtpmap:101 telephone-event/8000\r\n\
        a=fmtp:101 0-16\r\n\
        a=sendrecv\r\n";
    rig.set_remote(parse(SdpType::Offer, reoffer)).unwrap();
    let answer = rig.create_answer().unwrap();
    let audio = answer.first_audio_section().expect("an audio section");
    assert_eq!(audio.formats, vec!["9".to_string(), "101".to_string()]);
    assert!(has_value(audio, "rtpmap", "9 G722/8000"));
    assert!(!has_value(audio, "rtpmap", "111 opus/48000/2"));
}

#[test]
fn reinvite_updates_remote_addr_in_rtp_mode() {
    let mut rig = Rig::new(rtp_config());
    rig.add(MediaKind::Audio, TransceiverDirection::SendRecv);
    let offer = rig.create_offer().unwrap();
    rig.set_local(offer).unwrap();
    let answer = "v=0\r\n\
        o=- 1 1 IN IP4 10.0.0.1\r\n\
        s=-\r\n\
        t=0 0\r\n\
        c=IN IP4 10.0.0.1\r\n\
        m=audio 8000 RTP/AVP 0\r\n\
        a=rtpmap:0 PCMU/8000\r\n\
        a=sendrecv\r\n";
    rig.set_remote(parse(SdpType::Answer, answer)).unwrap();
    assert_eq!(rig.primary_remote, Some(addr(ipv4(10, 0, 0, 1), 8000)));
    let reinvite = "v=0\r\n\
        o=- 1 2 IN IP4 192.168.1.50\r\n\
        s=-\r\n\
        t=0 0\r\n\
        c=IN IP4 192.168.1.50\r\n\
        m=audio 9000 RTP/AVP 0\r\n\
        a=rtpmap:0 PCMU/8000\r\n\
        a=sendrecv\r\n";
    rig.set_remote(parse(SdpType::Offer, reinvite)).unwrap();
    let answer = rig.create_answer().unwrap();
    rig.set_local(answer).unwrap();
    assert_eq!(rig.primary_remote, Some(addr(ipv4(192, 168, 1, 50), 9000)));
    assert_eq!(rig.primary_address(), addr(ipv4(192, 168, 1, 50), 9000));
}

fn answer_text(version: u32, host: &str, port: u16, pt: u8, name: &str) -> String {
    format!(
        "v=0\r\n\
         o=- 1 {version} IN IP4 {host}\r\n\
         s=-\r\n\
         t=0 0\r\n\
         c=IN IP4 {host}\r\n\
         m=audio {port} RTP/AVP {pt}\r\n\
         a=rtpmap:{pt} {name}/8000\r\n\
         a=sendrecv\r\n"
    )
}

fn latching_offerer() -> Rig {
    let mut config = rtp_config();
    config.enable_latching = true;
    let mut rig = Rig::new(config);
    rig.add(MediaKind::Audio, TransceiverDirection::SendRecv);
    let offer = rig.create_offer().unwrap();
    rig.set_local(offer).unwrap();
    rig
}

#[test]
fn pranswer_final_same_endpoint_preserves_latched_nat_address() {
    let mut rig = latching_offerer();
    let text = answer_text(1, "10.0.0.1", 8000, 0, "PCMU");
    rig.set_remote(parse(SdpType::Pranswer, &text)).unwrap();
    let transport = rig.pc.rtp_transport().unwrap();
    let latched = addr(ipv4(198, 51, 100, 20), 42000);
    rig.remote.insert(transport, latched);
    rig.latched.insert(transport);
    let text = answer_text(2, "10.0.0.1", 8000, 0, "PCMU");
    rig.set_remote(parse(SdpType::Answer, &text)).unwrap();
    assert_eq!(rig.primary_address(), latched);
    assert!(rig.latched.contains(&transport));
    assert_eq!(rig.pc.rtp_transport(), Some(transport));
}

#[test]
fn pranswer_final_changed_endpoint_resets_latch_without_rebinding() {
    let mut rig = latching_offerer();
    let text = answer_text(1, "10.0.0.1", 8000, 8, "PCMA");
    rig.set_remote(parse(SdpType::Pranswer, &text)).unwrap();
    let transport = rig.pc.rtp_transport().unwrap();
    rig.remote.insert(transport, addr(ipv4(198, 51, 100, 20), 42000));
    rig.latched.insert(transport);
    let text = answer_text(2, "10.0.0.2", 9000, 0, "PCMU");
    rig.set_remote(parse(SdpType::Answer, &text)).unwrap();
    assert_eq!(rig.primary_address(), addr(ipv4(10, 0, 0, 2), 9000));
    assert!(!rig.latched.contains(&transport));
    assert_eq!(rig.pc.rtp_transport(), Some(transport));
}

#[test]
fn changed_second_pranswer_updates_transport_and_final_answer_only_completes_state() {
    let mut rig = Rig::new(rtp_config());
    rig.add(MediaKind::Audio, TransceiverDirection::SendRecv);
    let offer = rig.create_offer().unwrap();
    rig.set_local(offer).unwrap();
    let text = answer_text(1, "10.0.0.1", 8000, 8, "PCMA");
    rig.set_remote(parse(SdpType::Pranswer, &text)).unwrap();
    assert_eq!(rig.pc.signaling_state(), SignalingState::HaveLocalOffer);
    let transport = rig.pc.rtp_transport().unwrap();

    let text = answer_text(2, "10.0.0.2", 9000, 0, "PCMU");
    rig.set_remote(parse(SdpType::Pranswer, &text)).unwrap();
    assert_eq!(rig.pc.signaling_state(), SignalingState::HaveLocalOffer);
    assert_eq!(rig.pc.rtp_transport(), Some(transport));
    assert_eq!(rig.primary_address(), addr(ipv4(10, 0, 0, 2), 9000));
    assert!(rig.pc.get_transceivers()[0].get_payload_map().contains_key(&0));

    let text = answer_text(3, "10.0.0.2", 9000, 0, "PCMU");
    rig.set_remote(parse(SdpType::Answer, &text)).unwrap();
    assert_eq!(rig.pc.signaling_state(), SignalingState::Stable);
    assert_eq!(rig.pc.remote_description().unwrap().sdp_type, SdpType::Answer);
    assert_eq!(rig.pc.rtp_transport(), Some(transport));
}

#[test]
fn pranswer_final_codec_change_updates_transceiver_without_rebinding() {
    let mut rig = Rig::new(rtp_config());
    rig.add(MediaKind::Audio, TransceiverDirection::SendRecv);
    let offer = rig.create_offer().unwrap();
    rig.set_local(offer).unwrap();
    let id = rig.pc.get_transceivers()[0].id();
    let text = answer_text(1, "10.0.0.1", 8000, 8, "PCMA");
    rig.set_remote(parse(SdpType::Pranswer, &text)).unwrap();
    assert!(rig.pc.get_transceivers()[0].get_payload_map().contains_key(&8));
    let transport = rig.pc.rtp_transport();
    let text = answer_text(2, "10.0.0.1", 8000, 0, "PCMU");
    rig.set_remote(parse(SdpType::Answer, &text)).unwrap();
    assert_eq!(rig.pc.get_transceivers()[0].id(), id);
    assert!(rig.pc.get_transceivers()[0].get_payload_map().contains_key(&0));
    assert_eq!(rig.pc.signaling_state(), SignalingState::Stable);
    assert_eq!(rig.pc.rtp_transport(), transport);
}

#[test]
fn webrtc_mode_rtcp_mux_negotiate_omits_attribute() {
    let mut config = RtcConfiguration::default();
    config.rtcp_mux_policy = RtcpMuxPolicy::Negotiate;
    let mut rig = Rig::new(config);
    rig.add(MediaKind::Audio, TransceiverDirection::SendRecv);
    let sdp = to_sdp_string(&rig.create_offer().unwrap());
    assert!(!sdp.contains("rtcp-mux"), "{sdp}");
}

fn ice_lite_offer(enabled: bool) -> String {
    let mut config = rtp_config();
    config.enable_ice_lite = enabled;
    let mut rig = Rig::new(config);
    let i = rig.add(MediaKind::Audio, TransceiverDirection::SendRecv);
    rig.add_sender(i, 100, pcma());
    to_sdp_string(&rig.create_offer().unwrap())
}

#[test]
fn rtp_mode_ice_lite_sdp_attributes() {
    let sdp = ice_lite_offer(true);
    for present in ["a=ice-lite", "a=ice-ufrag:", "a=ice-pwd:", "a=candidate:", "RTP/AVP"] {
        assert!(sdp.contains(present), "{present} not in {sdp}");
    }
    assert!(!sdp.contains("fingerprint"));
}

#[test]
fn rtp_mode_no_ice_lite_no_ice_attributes() {
    let sdp = ice_lite_offer(false);
    assert!(!sdp.contains("ice-lite"));
    assert!(!sdp.contains("ice-ufrag"));
    assert!(!sdp.contains("a=candidate"));
}

#[test]
fn answer_sdp_with_ssrc_fires_track_event() {
    let mut rig = Rig::new(rtp_config());
    let i = rig.add(MediaKind::Audio, TransceiverDirection::RecvOnly);
    let offer = rig.create_offer().unwrap();
    let mid = offer.media_sections[0].mid.clone();
    rig.set_local(offer).unwrap();
    assert_eq!(rig.pc.signaling_state(), SignalingState::HaveLocalOffer);
    let text = format!(
        "v=0\r\n\
         o=- 1 1 IN IP4 192.168.1.100\r\n\
         s=-\r\n\
         t=0 0\r\n\
         c=IN IP4 192.168.1.100\r\n\
         m=audio 5000 RTP/AVP 8\r\n\
         a=mid:{mid}\r\n\
         a=recvonly\r\n\
         a=rtpmap:8 PCMA/8000\r\n\
         a=ssrc:10000 cname:test-cname\r\n"
    );
    let desc = parse(SdpType::Answer, &text);
    let hosts = hosts_of(&desc);
    rig.pc.set_remote_description(desc, &hosts, &mut rig.actions).unwrap();
    assert_eq!(rig.pc.signaling_state(), SignalingState::Stable);
    let t = &rig.pc.get_transceivers()[i];
    let id = t.id();
    assert_eq!(t.receiver().unwrap().ssrc(), 10000);
    assert!(t.receiver().unwrap().track_event_sent());
    rig.perform();
    assert_eq!(rig.tracks, vec![id]);
    assert_eq!(rig.pc.get_transceivers()[i].kind(), MediaKind::Audio);
}

fn fingerprint_offer(line: &str) -> SessionDescription {
    let text = format!(
        "v=0\r\n\
         o=- 123 0 IN IP4 127.0.0.1\r\n\
         s=-\r\n\
         t=0 0\r\n\
         m=audio 9 UDP/TLS/RTP/SAVPF 111\r\n\
         a=rtpmap:111 opus/48000/2\r\n\
         a=setup:passive\r\n{line}"
    );
    parse(SdpType::Offer, &text)
}

#[test]
fn test_set_remote_description_rejects_missing_fingerprint_webrtc() {
    let mut rig = Rig::new(RtcConfiguration::default());
    assert_eq!(rig.pc.config().transport_mode, TransportMode::WebRtc);
    let err = rig.set_remote(fingerprint_offer("")).unwrap_err();
    assert!(matches!(err, RtcError::InvalidConfiguration(_)));
    assert!(err.message().contains("fingerprint"));
}

#[test]
fn test_set_remote_description_accepts_valid_sha256_fingerprint_webrtc() {
    let mut rig = Rig::new(RtcConfiguration::default());
    assert_eq!(rig.pc.config().transport_mode, TransportMode::WebRtc);
    let line = format!("a=fingerprint:sha-256 {FINGERPRINT}\r\n");
    assert!(rig.set_remote(fingerprint_offer(&line)).is_ok());
}

#[test]
fn test_set_remote_description_rejects_unsupported_fingerprint_algorithm() {
    let mut rig = Rig::new(RtcConfiguration::default());
    assert_eq!(rig.pc.config().transport_mode, TransportMode::WebRtc);
    let line = "a=fingerprint:sha-1 AA:BB:CC:DD:EE:FF:00:11:22:33:44:55:66:77:88:99:AA:BB:CC:DD\r\n";
    let err = rig.set_remote(fingerprint_offer(line)).unwrap_err();
    assert!(matches!(err, RtcError::InvalidConfiguration(_)));
    assert!(err.message().contains("sha-1"));
}

#[test]
fn test_set_remote_description_allows_missing_fingerprint_rtp_mode() {
    let mut rig = Rig::new(rtp_config());
    let text = "v=0\r\n\
                o=- 123 0 IN IP4 127.0.0.1\r\n\
                s=-\r\n\
                t=0 0\r\n\
                c=IN IP4 127.0.0.1\r\n\
                m=audio 4000 RTP/AVP 111\r\n\
                a=rtpmap:111 opus/48000/2\r\n";
    assert!(rig.set_remote(parse(SdpType::Offer, text)).is_ok());
}

fn video_offer_of(capability: VideoCapability) -> SessionDescription {
    let mut config = rtp_config();
    config.media_capabilities = capabilities(vec![], vec![capability]);
    let mut rig = Rig::new(config);
    rig.add(MediaKind::Video, TransceiverDirection::SendRecv);
    rig.create_offer().unwrap()
}

#[test]
fn offer_h264_emits_fmtp_in_sdp() {
    let offer = video_offer_of(VideoCapability::h264());
    let section = &offer.media_sections[0];
    assert_eq!(section.kind, MediaKind::Video);
    let fmtp = section.attributes.iter().find(|a| a.key == "fmtp").expect("an fmtp line");
    let value = fmtp.value.as_deref().unwrap_or("");
    assert!(value.contains("packetization-mode"), "{value}");
    assert!(value.contains("profile-level-id"), "{value}");
}

#[test]
fn offer_vp8_no_fmtp_in_sdp() {
    let capability = VideoCapability { fmtp: None, ..VideoCapability::default() };
    let offer = video_offer_of(capability);
    assert!(!has(&offer.media_sections[0], "fmtp"));
}

#[test]
fn offer_h264_emits_rtcp_fb_in_sdp() {
    let offer = video_offer_of(VideoCapability::h264());
    let fbs: Vec<&str> = offer.media_sections[0]
        .attributes
        .iter()
        .filter(|a| a.key == "rtcp-fb")
        .filter_map(|a| a.value.as_deref())
        .collect();
    assert!(fbs.iter().any(|v| v.contains("nack pli")), "{fbs:?}");
    assert!(fbs.iter().any(|v| v.contains("ccm fir")), "{fbs:?}");
}

#[test]
fn legacy_sip_offer_omits_mid_and_rtcp_mux() {
    let mut config = rtp_config();
    config.sdp_compatibility = SdpCompatibilityMode::LegacySip;
    config.media_capabilities = capabilities(vec![AudioCapability::pcma()], vec![]);
    let mut rig = Rig::new(config);
    rig.add(MediaKind::Audio, TransceiverDirection::SendRecv);
    let sdp = to_sdp_string(&rig.create_offer().unwrap());
    assert!(!sdp.contains("a=mid:"), "{sdp}");
    assert!(!sdp.contains("a=rtcp-mux"), "{sdp}");
    assert!(sdp.contains("a=rtcp:"), "{sdp}");
    assert!(!sdp.contains("a=group:BUNDLE"), "{sdp}");
}

fn audio_video_rig(
    mode: SdpCompatibilityMode,
    video: VideoCapability,
    direction: TransceiverDirection,
) -> Rig {
    let mut config = rtp_config();
    config.sdp_compatibility = mode;
    config.media_capabilities = capabilities(vec![AudioCapability::pcma()], vec![video]);
    let mut rig = Rig::new(config);
    rig.add(MediaKind::Audio, direction);
    rig.add(MediaKind::Video, direction);
    rig
}

#[test]
fn standard_mode_multi_section_includes_bundle_and_mid() {
    let mut rig = audio_video_rig(
        SdpCompatibilityMode::Standard,
        VideoCapability::default(),
        TransceiverDirection::SendRecv,
    );
    let sdp = to_sdp_string(&rig.create_offer().unwrap());
    assert!(sdp.contains("a=group:BUNDLE"), "{sdp}");
    assert!(sdp.contains("a=mid:"), "{sdp}");
}

#[test]
fn legacy_sip_multi_section_no_bundle_no_mid() {
    let mut rig = audio_video_rig(
        SdpCompatibilityMode::LegacySip,
        VideoCapability::h264(),
        TransceiverDirection::SendRecv,
    );
    let offer = rig.create_offer().unwrap();
    assert_eq!(offer.media_sections.len(), 2);
    let sdp = to_sdp_string(&offer);
    assert!(!sdp.contains("a=group:BUNDLE"), "{sdp}");
    assert!(!sdp.contains("a=mid:"), "{sdp}");
    assert_eq!(sdp.matches("a=rtcp:").count(), 2, "{sdp}");
}

#[test]
fn rtp_mode_legacy_non_bundle_offer_uses_distinct_media_ports() {
    let mut rig = audio_video_rig(
        SdpCompatibilityMode::LegacySip,
        VideoCapability::h264(),
        TransceiverDirection::RecvOnly,
    );
    let offer = rig.create_offer().unwrap();
    assert_eq!(offer.media_sections.len(), 2);
    assert_ne!(offer.media_sections[0].port, offer.media_sections[1].port);
    let sdp = to_sdp_string(&offer);
    assert!(!sdp.contains("a=group:BUNDLE"), "{sdp}");
    assert!(!sdp.contains("a=mid:"), "{sdp}");
}

fn own_video_transport(rig: &Rig) -> u64 {
    let video =
        rig.pc.get_transceivers().iter().find(|t| t.kind() == MediaKind::Video).unwrap();
    let t = rig.pc.rtp_transport_for_transceiver_or(video.id(), 0);
    assert_ne!(t, 0, "video has a transport of its own");
    t
}

#[test]
fn rtp_mode_midless_non_bundle_offer_maps_each_media_transport() {
    let mut rig = audio_video_rig(
        SdpCompatibilityMode::LegacySip,
        VideoCapability::h264(),
        TransceiverDirection::SendRecv,
    );
    let text = "v=0\r\n\
        o=- 1 1 IN IP4 10.0.0.2\r\n\
        s=-\r\n\
        t=0 0\r\n\
        c=IN IP4 10.0.0.2\r\n\
        m=audio 5000 RTP/AVP 8\r\n\
        a=rtcp:5001\r\n\
        a=rtpmap:8 PCMA/8000\r\n\
        a=sendrecv\r\n\
        m=video 6000 RTP/AVP 103\r\n\
        a=rtcp:6001\r\n\
        a=rtpmap:103 H264/90000\r\n\
        a=sendrecv\r\n";
    rig.set_remote(parse(SdpType::Offer, text)).unwrap();
    let ip = ipv4(10, 0, 0, 2);
    assert_eq!(rig.primary_address(), addr(ip, 5000));
    assert_eq!(rig.primary_rtcp(), Some(addr(ip, 5001)));
    let video = own_video_transport(&rig);
    assert_eq!(rig.remote[&video], addr(ip, 6000));
    assert_eq!(rig.rtcp.get(&video).copied(), Some(addr(ip, 6001)));
}

#[test]
fn rtp_mode_midless_reinvite_reactivates_existing_video_transceiver() {
    let mut rig = audio_video_rig(
        SdpCompatibilityMode::LegacySip,
        VideoCapability::h264(),
        TransceiverDirection::SendRecv,
    );
    let offer = rig.create_offer().unwrap();
    rig.set_local(offer).unwrap();
    let answer = "v=0\r\n\
         o=- 1 1 IN IP4 10.0.0.2\r\n\
         s=-\r\n\
         t=0 0\r\n\
         c=IN IP4 10.0.0.2\r\n\
         m=audio 5000 RTP/AVP 8\r\n\
         a=rtpmap:8 PCMA/8000\r\n\
         a=sendrecv\r\n\
         m=video 0 RTP/AVP 0\r\n\
         a=inactive\r\n";
    rig.set_remote(parse(SdpType::Answer, answer)).unwrap();
    let reinvite = "v=0\r\n\
         o=- 1 2 IN IP4 10.0.0.2\r\n\
         s=-\r\n\
         t=0 0\r\n\
         c=IN IP4 10.0.0.2\r\n\
         m=audio 5000 RTP/AVP 8\r\n\
         a=rtpmap:8 PCMA/8000\r\n\
         a=sendrecv\r\n\
         m=video 6000 RTP/AVP 96\r\n\
         a=rtpmap:96 H264/90000\r\n\
         a=sendrecv\r\n";
    rig.set_remote(parse(SdpType::Offer, reinvite)).unwrap();
    let answer = rig.create_answer().unwrap();
    let audio = answer.media_sections.iter().find(|s| s.kind == MediaKind::Audio).unwrap();
    let video = answer.media_sections.iter().find(|s| s.kind == MediaKind::Video).unwrap();
    assert_eq!(audio.direction, Direction::SendRecv);
    assert_eq!(video.direction, Direction::SendRecv);
    assert_ne!(video.port, 0);
}

#[test]
fn rtp_mode_midless_non_bundle_answer_maps_each_media_transport() {
    let mut rig = audio_video_rig(
        SdpCompatibilityMode::LegacySip,
        VideoCapability::h264(),
        TransceiverDirection::RecvOnly,
    );
    let offer = rig.create_offer().unwrap();
    assert_eq!(offer.media_sections.len(), 2);
    assert_ne!(offer.media_sections[0].port, offer.media_sections[1].port);
    rig.set_local(offer).unwrap();
    let text = "v=0\r\n\
        o=- 1 1 IN IP4 10.0.0.2\r\n\
        s=-\r\n\
        t=0 0\r\n\
        c=IN IP4 10.0.0.2\r\n\
        m=audio 51637 RTP/AVP 8\r\n\
        a=rtcp:55079\r\n\
        a=rtpmap:8 PCMA/8000\r\n\
        a=sendonly\r\n\
        m=video 53379 RTP/AVP 96\r\n\
        a=rtcp:58854\r\n\
        a=rtpmap:96 H264/90000\r\n\
        a=fmtp:96 packetization-mode=1;profile-level-id=42e01f\r\n\
        a=sendonly\r\n";
    rig.set_remote(parse(SdpType::Answer, text)).unwrap();
    let ip = ipv4(10, 0, 0, 2);
    assert_eq!(rig.primary_address(), addr(ip, 51637));
    assert_eq!(rig.primary_rtcp(), Some(addr(ip, 55079)));
    let video = own_video_transport(&rig);
    assert_eq!(rig.remote[&video], addr(ip, 53379));
    assert_eq!(rig.rtcp.get(&video).copied(), Some(addr(ip, 58854)));
}

#[test]
fn answer_to_non_bundle_offer_omits_mid_in_sections() {
    let text = "v=0\r\n\
                o=- 1 1 IN IP4 192.168.1.100\r\n\
                s=-\r\n\
                t=0 0\r\n\
                c=IN IP4 192.168.1.100\r\n\
                m=audio 5000 RTP/AVP 8\r\n\
                a=mid:as\r\n\
                a=sendrecv\r\n\
                a=rtpmap:8 PCMA/8000\r\n\
                m=video 5002 RTP/AVP 96\r\n\
                a=mid:vs\r\n\
                a=sendrecv\r\n\
                a=rtpmap:96 H264/90000\r\n\
                a=fmtp:96 packetization-mode=0;profile-level-id=42801F\r\n";
    let mut rig = audio_video_rig(
        SdpCompatibilityMode::Standard,
        VideoCapability::h264(),
        TransceiverDirection::SendRecv,
    );
    rig.set_remote(parse(SdpType::Offer, text)).unwrap();
    let sdp = to_sdp_string(&rig.create_answer().unwrap());
    assert!(!sdp.contains("a=group:BUNDLE"), "{sdp}");
    assert!(!sdp.contains("a=mid:"), "{sdp}");
}

#[test]
fn answer_echoes_bundle_for_single_section_offer() {
    let text = "\
v=0\r\n\
o=- 3572571646755393356 2 IN IP4 127.0.0.1\r\n\
s=-\r\n\
t=0 0\r\n\
a=group:BUNDLE 0\r\n\
a=msid-semantic: WMS stream\r\n\
m=audio 9 UDP/TLS/RTP/SAVPF 0 8\r\n\
c=IN IP4 0.0.0.0\r\n\
a=rtcp:9 IN IP4 0.0.0.0\r\n\
a=ice-ufrag:IIjZ\r\n\
a=ice-pwd:h/NG2DkTNsPwhU0swhrzWbLD\r\n\
a=ice-options:trickle\r\n\
a=fingerprint:sha-256 A9:96:C7:D5:20:2D:17:06:CC:7E:94:0D:89:AA:DE:47:8F:21:3F:97:B1:D5:C5:A2:41:48:E1:A5:8A:D5:BB:B1\r\n\
a=setup:actpass\r\n\
a=mid:0\r\n\
a=sendrecv\r\n\
a=rtcp-mux\r\n\
a=rtpmap:0 PCMU/8000\r\n\
a=rtpmap:8 PCMA/8000\r\n";
    let mut rig = Rig::new(RtcConfiguration::default());
    rig.add(MediaKind::Audio, TransceiverDirection::SendRecv);
    rig.set_remote(parse(SdpType::Offer, text)).unwrap();
    let sdp = to_sdp_string(&rig.create_answer().unwrap());
    assert!(sdp.contains("a=group:BUNDLE 0"), "{sdp}");
    assert!(sdp.contains("a=mid:0"), "{sdp}");
}

fn first_packet_announces(answers: &[(SdpType, u16)]) {
    let mut config = rtp_config();
    config.enable_latching = true;
    let mut rig = Rig::new(config);
    let i = rig.pc.add_track(MediaKind::Audio, "track", pcma(), &mut rig.actions);
    let offer = rig.create_offer().unwrap();
    rig.set_local(offer).unwrap();
    for (k, (sdp_type, port)) in answers.iter().enumerate() {
        let text = answer_text(k as u32 + 1, "127.0.0.1", *port, 8, "PCMA");
        rig.set_remote(parse(*sdp_type, &text)).unwrap();
    }
    let receiver = rig.pc.transceiver_mut(i).receiver_mut().unwrap();
    let packet = RtpPacket::new(RtpHeader::new(8, 1, 0, 0xDEAD_BEEF), vec![0xD5; 160]);
    match receiver.on_packet(None, packet) {
        PacketStep::Received(frame) => assert!(frame.announce, "the track is told of"),
        _ => panic!("expected media"),
    }
}

#[test]
fn repro_rtp_offerer_track_event_fires_on_first_packet() {
    first_packet_announces(&[(SdpType::Pranswer, 20000), (SdpType::Answer, 20000)]);
}

#[test]
fn repro_rtp_offerer_pranswer_then_answer_addr_change_track_fires() {
    first_packet_announces(&[(SdpType::Pranswer, 20000), (SdpType::Answer, 20002)]);
}

fn payload_map_for(port: u16, pt: u8, line: &str) -> HashMap<u8, RtpCodecParameters> {
    let mut rig = Rig::new(rtp_config());
    rig.add(MediaKind::Audio, TransceiverDirection::RecvOnly);
    let text = format!(
        "v=0\r\n\
         o=- 1 1 IN IP4 127.0.0.1\r\n\
         s=-\r\n\
         t=0 0\r\n\
         c=IN IP4 127.0.0.1\r\n\
         m=audio {port} RTP/AVP {pt}\r\n\
         {line}\
         a=sendonly\r\n"
    );
    rig.set_remote(parse(SdpType::Offer, &text)).unwrap();
    assert_eq!(rig.pc.transceiver_count(), 1);
    rig.pc.get_transceivers()[0].get_payload_map()
}

#[test]
fn repro_bug1_static_pt_registered_without_rtpmap() {
    let map = payload_map_for(9000, 8, "");
    assert!(map.contains_key(&8));
    assert_eq!(map[&8].clock_rate, 8000);
    assert_eq!(map[&8].channels, 1);
    let map = payload_map_for(9002, 0, "");
    assert!(map.contains_key(&0));
    assert_eq!(map[&0].clock_rate, 8000);
}

#[test]
fn repro_bug1_dynamic_pt_without_rtpmap_not_registered() {
    assert!(!payload_map_for(9000, 96, "").contains_key(&96));
}

#[test]
fn repro_bug1_explicit_rtpmap_overrides_iana_static_default() {
    let map = payload_map_for(9000, 8, "a=rtpmap:8 PCMA/16000\r\n");
    assert!(map.contains_key(&8));
    assert_eq!(map[&8].clock_rate, 16000);
}

#[test]
fn repro_bug3_ice_reconnect_cycle_re_fires_track_event() {
    let mut rig = Rig::new(rtp_config());
    let i = rig.add(MediaKind::Audio, TransceiverDirection::RecvOnly);
    rig.pc.transceiver_mut(i).update_payload_map(HashMap::from([(8u8, pcma())]));
    assert_eq!(rig.pc.on_ice_state(IceTransportState::Connected), IceStep::Up);
    rig.pc.adopt_transport(1, &mut rig.actions);
    let mut watch = rig.pc.on_started(false, &None).unwrap();

    let first = RtpPacket::new(RtpHeader::new(8, 1, 0, 0xAAAA_0001), vec![0xD5; 160]);
    match rig.pc.transceiver_mut(i).receiver_mut().unwrap().on_packet(None, first) {
        PacketStep::Received(frame) => assert!(frame.announce),
        _ => panic!("expected media"),
    }
    assert!(rig.pc.get_transceivers()[i].receiver().unwrap().track_event_sent());

    let step = rig.pc.on_connected_event(
        &mut watch,
        ConnectedEvent::Ice(IceTransportState::Disconnected),
        &mut rig.actions,
    );
    assert_eq!(step, ConnectedStep::StartGrace { epoch: 0 });
    let step = rig.pc.on_connected_event(
        &mut watch,
        ConnectedEvent::GraceExpired { epoch: 0 },
        &mut rig.actions,
    );
    assert_eq!(step, ConnectedStep::End { again: true });

    assert_eq!(rig.pc.on_ice_state(IceTransportState::Connected), IceStep::Up);
    rig.pc.adopt_transport(2, &mut rig.actions);
    assert!(!rig.pc.get_transceivers()[i].receiver().unwrap().track_event_sent());

    let second = RtpPacket::new(RtpHeader::new(8, 2, 160, 0xBBBB_0002), vec![0xD5; 160]);
    match rig.pc.transceiver_mut(i).receiver_mut().unwrap().on_packet(None, second) {
        PacketStep::Received(frame) => assert!(frame.announce),
        _ => panic!("expected media"),
    }
}

#[test]
fn test_add_track_reuses_offer_transceiver_whep_answerer() {
    let mut rig = Rig::new(rtp_config());
    let text = "\
v=0
o=- 12345 12345 IN IP4 192.168.1.100
s=-
c=IN IP4 192.168.1.100
t=0 0
m=audio 4000 RTP/AVP 111
a=rtpmap:111 opus/48000/2
a=mid:0
";
    rig.set_remote(parse(SdpType::Offer, text)).unwrap();
    assert_eq!(rig.pc.transceiver_count(), 1);
    assert!(rig.pc.get_transceivers()[0].mid().is_some());
    assert!(rig.pc.get_transceivers()[0].sender().is_none());
    let i = rig.pc.add_track_with_stream_id(
        MediaKind::Audio,
        "track",
        "stream1".to_string(),
        opus(),
        &mut rig.actions,
    );
    assert_eq!(rig.pc.transceiver_count(), 1);
    assert_eq!(i, 0);
    let t = &rig.pc.get_transceivers()[0];
    assert!(t.sender().is_some());
    assert_eq!(t.sender_ssrc(), Some(t.sender().unwrap().ssrc()));
    assert_eq!(t.mid(), Some("0".to_string()));
}

#[test]
fn test_add_track_reuses_offer_transceiver_video() {
    let mut rig = Rig::new(rtp_config());
    let text = "\
v=0
o=- 12345 12345 IN IP4 192.168.1.100
s=-
c=IN IP4 192.168.1.100
t=0 0
m=video 4000 RTP/AVP 96
a=rtpmap:96 VP8/90000
a=mid:0
";
    rig.set_remote(parse(SdpType::Offer, text)).unwrap();
    assert_eq!(rig.pc.transceiver_count(), 1);
    rig.pc.add_track_with_stream_id(
        MediaKind::Video,
        "track",
        "stream1".to_string(),
        vp8(),
        &mut rig.actions,
    );
    assert_eq!(rig.pc.transceiver_count(), 1);
}

#[test]
fn new_offer_transceiver_preserves_remote_direction() {
    for (attribute, expected) in [
        ("sendrecv", TransceiverDirection::SendRecv),
        ("sendonly", TransceiverDirection::SendOnly),
        ("recvonly", TransceiverDirection::RecvOnly),
        ("inactive", TransceiverDirection::Inactive),
    ] {
        let mut rig = Rig::new(rtp_config());
        let text = format!(
            "v=0\r\n\
             o=- 1 1 IN IP4 192.168.1.100\r\n\
             s=-\r\n\
             c=IN IP4 192.168.1.100\r\n\
             t=0 0\r\n\
             m=video 4000 RTP/AVP 96\r\n\
             a=rtpmap:96 H264/90000\r\n\
             a=mid:0\r\n\
             a={attribute}\r\n"
        );
        rig.set_remote(parse(SdpType::Offer, &text)).unwrap();
        assert_eq!(rig.pc.transceiver_count(), 1);
        assert_eq!(rig.pc.get_transceivers()[0].direction(), expected, "a={attribute}");
    }
}

#[test]
fn test_add_track_creates_new_transceiver_if_no_offer() {
    let mut rig = Rig::new(RtcConfiguration::default());
    rig.pc.add_track_with_stream_id(
        MediaKind::Audio,
        "track",
        "stream1".to_string(),
        opus(),
        &mut rig.actions,
    );
    assert_eq!(rig.pc.transceiver_count(), 1);
}

#[test]
fn renegotiation_offer_has_unique_extmap_ids() {
    let mut rig = Rig::new(RtcConfiguration::default());
    let text = "v=0\r\n\
                o=- 123456 0 IN IP4 127.0.0.1\r\n\
                s=-\r\n\
                t=0 0\r\n\
                a=group:BUNDLE 0\r\n\
                a=fingerprint:sha-256 AA:BB:CC:DD:EE:FF:00:11:22:33:44:55:66:77:88:99:AA:BB:CC:DD:EE:FF:00:11:22:33:44:55:66:77:88:99\r\n\
                a=setup:actpass\r\n\
                c=IN IP4 127.0.0.1\r\n\
                m=audio 9 UDP/TLS/RTP/SAVPF 109\r\n\
                a=mid:0\r\n\
                a=rtpmap:109 opus/48000/2\r\n\
                a=extmap:1 urn:ietf:params:rtp-hdrext:ssrc-audio-level\r\n\
                a=extmap:3 urn:ietf:params:rtp-hdrext:sdes:mid\r\n\
                a=ice-ufrag:abcd\r\n\
                a=ice-pwd:abcdefghijklmnopqrstuvwx\r\n\
                a=sendrecv\r\n";
    rig.set_remote(parse(SdpType::Offer, text)).unwrap();
    let answer = rig.create_answer().unwrap();
    rig.set_local(answer).unwrap();

    let reoffer = rig.create_offer().unwrap();
    for section in &reoffer.media_sections {
        let mut seen = HashSet::new();
        for a in section.attributes.iter().filter(|a| a.key == "extmap") {
            let id: u8 = a
                .value
                .as_ref()
                .and_then(|v| v.split_whitespace().next())
                .and_then(|v| v.parse().ok())
                .expect("an extmap id");
            assert!(seen.insert(id), "duplicate extmap id {id} in {}", section.mid);
        }
    }
    let audio = &reoffer.media_sections[0];
    let extmap_value = |uri: &str| -> String {
        audio
            .attributes
            .iter()
            .filter(|a| a.key == "extmap")
            .filter_map(|a| a.value.clone())
            .find(|v| v.contains(uri))
            .expect("an extmap line")
    };
    assert!(extmap_value("urn:ietf:params:rtp-hdrext:sdes:mid").starts_with("3 "));
    let abs = extmap_value("http://www.webrtc.org/experiments/rtp-hdrext/abs-send-time");
    assert!(!abs.starts_with("3 "));
}

#[test]
fn a_grace_timer_of_an_earlier_loss_is_stale() {
    let mut rig = Rig::new(RtcConfiguration::default());
    let mut watch = ConnectedLoop { dtls: true, epoch: 0 };
    let lost = ConnectedEvent::Ice(IceTransportState::Disconnected);
    let step = rig.pc.on_connected_event(&mut watch, lost, &mut rig.actions);
    assert_eq!(step, ConnectedStep::StartGrace { epoch: 0 });
    assert_eq!(rig.pc.peer_state(), PeerConnectionState::Disconnected);
    assert_eq!(rig.pc.ice_connection_state(), IceConnectionState::Disconnected);
    let back = ConnectedEvent::Ice(IceTransportState::Completed);
    assert_eq!(
        rig.pc.on_connected_event(&mut watch, back, &mut rig.actions),
        ConnectedStep::Stay
    );
    assert_eq!(rig.pc.peer_state(), PeerConnectionState::Connected);
    let expired = ConnectedEvent::GraceExpired { epoch: 0 };
    assert_eq!(
        rig.pc.on_connected_event(&mut watch, expired, &mut rig.actions),
        ConnectedStep::Stay
    );
    assert_eq!(rig.pc.peer_state(), PeerConnectionState::Connected);
    assert!(rig.pc.disconnect_reason().is_none());
}

#[test]
fn repro_rtp_offerer_pranswer_then_answer_track_fires_on_rtp() {
    let mut config = rtp_config();
    config.enable_latching = true;
    let mut rig = Rig::new(config);
    let i = rig.pc.add_track(MediaKind::Audio, "track", pcma(), &mut rig.actions);
    let offer = rig.create_offer().unwrap();
    rig.set_local(offer).unwrap();
    for (version, sdp_type) in [(1, SdpType::Pranswer), (2, SdpType::Answer)] {
        let text = answer_text(version, "127.0.0.1", 20000, 8, "PCMA");
        rig.set_remote(parse(sdp_type, &text)).unwrap();
        assert!(rig.tracks.is_empty());
    }
    let receiver = rig.pc.transceiver_mut(i).receiver_mut().unwrap();
    let packet = RtpPacket::new(RtpHeader::new(8, 1, 0, 0xCAFE_BABE), vec![0xD5; 160]);
    match receiver.on_packet(None, packet) {
        PacketStep::Received(frame) => assert!(frame.announce),
        _ => panic!("expected media"),
    }
}

#[test]
fn rtp_mode_ice_lite_stores_remote_params() {
    let mut config = rtp_config();
    config.enable_ice_lite = true;
    let mut rig = Rig::new(config);
    let text = "v=0\r\n\
                o=- 1 1 IN IP4 10.0.0.1\r\n\
                s=-\r\n\
                t=0 0\r\n\
                c=IN IP4 10.0.0.1\r\n\
                m=audio 5000 RTP/AVP 8\r\n\
                a=rtpmap:8 PCMA/8000\r\n\
                a=ice-ufrag:remote_ufrag\r\n\
                a=ice-pwd:remote_pwd_value\r\n\
                a=candidate:1 1 UDP 2130706431 10.0.0.1 5000 typ host\r\n\
                a=sendrecv\r\n";
    let desc = parse(SdpType::Offer, text);
    let credentials = read_credentials(&desc);
    rig.set_remote(desc).unwrap();
    assert_eq!(rig.pc.peer_state(), PeerConnectionState::Connected);
    assert_eq!(credentials.ufrag.as_deref(), Some("remote_ufrag"));
    assert_eq!(credentials.pwd.as_deref(), Some("remote_pwd_value"));
    assert_eq!(credentials.candidates, vec!["1 1 UDP 2130706431 10.0.0.1 5000 typ host"]);
    let terms = rig.pc.ice_lite_terms(&credentials);
    assert!(terms.keep_candidates);
    assert!(terms.controlled);
}

#[test]
fn rtp_observer_registered_before_transport_sees_first_packets() {
    let mut rig = Rig::new(rtp_config());
    rig.pc.add_observer(7, &mut rig.actions);
    rig.add(MediaKind::Audio, TransceiverDirection::SendRecv);
    let offer = rig.create_offer().unwrap();
    rig.set_local(offer).unwrap();
    let text = "v=0\r\n\
                o=- 1 1 IN IP4 127.0.0.1\r\n\
                s=-\r\n\
                t=0 0\r\n\
                c=IN IP4 127.0.0.1\r\n\
                m=audio 5004 RTP/AVP 0\r\n\
                a=rtpmap:0 PCMU/8000\r\n\
                a=sendrecv\r\n";
    rig.set_remote(parse(SdpType::Answer, text)).unwrap();
    let transport = rig.pc.rtp_transport().unwrap();
    assert_eq!(rig.observed, vec![(transport, 7)]);
    assert!(rig.pc.local_description().unwrap().media_sections[0].port > 0);
}

fn is_uuid(text: &str) -> bool {
    let parts: Vec<usize> = text.split('-').map(|p| p.len()).collect();
    parts == vec![8, 4, 4, 4, 12] && text.chars().all(|c| c == '-' || c.is_ascii_hexdigit())
}

#[test]
fn a_track_waits_for_no_transceiver_of_another_kind() {
    let mut offerer = Rig::new(RtcConfiguration::default());
    offerer.add(MediaKind::Video, TransceiverDirection::RecvOnly);
    let offer = offerer.create_offer().unwrap();
    let mut rig = Rig::new(RtcConfiguration::default());
    rig.set_remote(offer).unwrap();
    assert_eq!(rig.pc.transceiver_count(), 1);
    let i = rig.pc.add_track(MediaKind::Audio, "voice", opus(), &mut rig.actions);
    assert_eq!(i, 1);
    assert_eq!(rig.pc.transceiver_count(), 2);
    let t = &rig.pc.get_transceivers()[1];
    assert_eq!(t.kind(), MediaKind::Audio);
    assert_eq!(t.direction(), TransceiverDirection::SendRecv);
    assert_eq!(t.sender().unwrap().track_id(), "voice");
    assert!(rig.pc.get_transceivers()[0].sender().is_none());
    let j = rig.pc.add_track(MediaKind::Video, "picture", vp8(), &mut rig.actions);
    assert_eq!(j, 0);
    assert_eq!(rig.pc.transceiver_count(), 2);
    assert_eq!(rig.pc.get_transceivers()[0].sender().unwrap().track_id(), "picture");
}

#[test]
fn reserved_names_are_uuids() {
    let mut rig = Rig::new(RtcConfiguration::default());
    let i = rig.add(MediaKind::Audio, TransceiverDirection::SendRecv);
    let t = &rig.pc.get_transceivers()[i];
    let stream = t.sender_stream_id().unwrap();
    let track = t.sender_track_id().unwrap();
    assert!(is_uuid(&stream), "{stream}");
    assert!(is_uuid(&track), "{track}");
    assert_ne!(stream, track);
}

#[test]
fn our_crypto_lines_can_be_read() {
    let mut rig = Rig::new(srtp_config());
    rig.add(MediaKind::Audio, TransceiverDirection::SendRecv);
    let offer = rig.create_offer().unwrap();
    let value = crypto_value(&offer.media_sections[0]);
    let params = value.split(' ').nth(2).unwrap();
    let read = parse_sdes_key_params_full(params).unwrap();
    assert_eq!(read.key_salt.len(), 30);
    assert_eq!(read.lifetime.as_deref(), Some("2^31"));
    assert!(read.mki.is_none());
    assert!(read.mki_raw.is_none());
}

#[test]
fn answers_go_with_the_offer() {
    let wants = [
        TransceiverDirection::SendRecv,
        TransceiverDirection::SendOnly,
        TransceiverDirection::RecvOnly,
        TransceiverDirection::Inactive,
    ];
    let offers =
        [Direction::SendRecv, Direction::SendOnly, Direction::RecvOnly, Direction::Inactive];
    for want in wants {
        for offered in offers {
            let mut desc = offered_audio();
            desc.media_sections[0].direction = offered;
            let mut rig = Rig::new(RtcConfiguration::default());
            rig.add(MediaKind::Audio, want);
            rig.set_remote(desc).unwrap();
            let answer = rig.create_answer().unwrap();
            let d = answer.media_sections[0].direction;
            assert_eq!(d.receives(), offered.sends() && want.receives());
            assert!(!d.sends() || (offered.receives() && want.sends()));
        }
    }
}

#[test]
fn an_offer_without_a_sender_only_receives() {
    let mut rig = Rig::new(RtcConfiguration::default());
    let i = rig.add(MediaKind::Audio, TransceiverDirection::RecvOnly);
    rig.pc.transceiver_mut(i).set_direction(TransceiverDirection::SendRecv);
    let offer = rig.create_offer().unwrap();
    assert_eq!(offer.media_sections[0].direction, Direction::RecvOnly);
}

#[test]
fn extension_identifiers_are_distinct() {
    let mut rig = Rig::new(RtcConfiguration::default());
    rig.add(MediaKind::Video, TransceiverDirection::SendRecv);
    let offer = rig.create_offer().unwrap();
    let ids: Vec<String> = offer.media_sections[0]
        .attributes
        .iter()
        .filter(|a| a.key == "extmap")
        .map(|a| a.value.clone().unwrap().split(' ').next().unwrap().to_string())
        .collect();
    let distinct: HashSet<&String> = ids.iter().collect();
    assert_eq!(ids.len(), 4);
    assert_eq!(distinct.len(), ids.len());
}

#[test]
fn connections_can_count_their_transceivers_together() {
    let mut one = Rig::new(RtcConfiguration::default());
    let i = one.add(MediaKind::Audio, TransceiverDirection::SendRecv);
    assert_eq!(one.pc.get_transceivers()[i].id(), 1);
    let mut other = Rig::new(RtcConfiguration::default());
    other.pc.continue_ids_at(one.pc.next_transceiver_id());
    let j = other.add(MediaKind::Audio, TransceiverDirection::SendRecv);
    assert_eq!(other.pc.get_transceivers()[j].id(), 2);
    other.pc.continue_ids_at(1);
    assert_eq!(other.pc.next_transceiver_id(), 3);
}

#[test]
fn transceivers_of_an_offer_have_identifiers_of_their_own() {
    let mut offerer = Rig::new(RtcConfiguration::default());
    offerer.add(MediaKind::Audio, TransceiverDirection::SendRecv);
    offerer.add(MediaKind::Video, TransceiverDirection::SendRecv);
    let offer = offerer.create_offer().unwrap();
    let mut rig = Rig::new(RtcConfiguration::default());
    rig.add(MediaKind::Audio, TransceiverDirection::SendRecv);
    rig.set_remote(offer).unwrap();
    let ids: Vec<u64> = rig.pc.get_transceivers().iter().map(|t| t.id()).collect();
    assert_eq!(ids, vec![1, 2]);
    assert_eq!(rig.pc.next_transceiver_id(), 3);
}

#[test]
fn reserved_ssrcs_differ() {
    let mut rig = Rig::new(RtcConfiguration::default());
    let i = rig.add(MediaKind::Audio, TransceiverDirection::SendRecv);
    let j = rig.add(MediaKind::Audio, TransceiverDirection::SendRecv);
    let ts = rig.pc.get_transceivers();
    assert!(ts[i].sender_ssrc().is_some());
    assert_ne!(ts[i].sender_ssrc(), ts[j].sender_ssrc());
}
