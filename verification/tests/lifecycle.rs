use rustrtc::action::Action;
use rustrtc::address::HostTable;
use rustrtc::address::IpAddress;
use rustrtc::address::SocketAddress;
use rustrtc::codec::RtpCodecParameters;
use rustrtc::config::RtcConfiguration;
use rustrtc::config::TransportMode;
use rustrtc::connection::fax::udptl_settings;
use rustrtc::connection::fax::FaxCapability;
use rustrtc::connection::fax::T38UdpEC;
use rustrtc::connection::fax::UdptlSettings;
use rustrtc::connection::gathering::GatheredAddress;
use rustrtc::connection::lifecycle::on_handshake;
use rustrtc::connection::lifecycle::on_nomination;
use rustrtc::connection::lifecycle::ConnectedEvent;
use rustrtc::connection::lifecycle::ConnectedLoop;
use rustrtc::connection::lifecycle::ConnectedStep;
use rustrtc::connection::lifecycle::Handshake;
use rustrtc::connection::lifecycle::IceStep;
use rustrtc::connection::lifecycle::NominationStep;
use rustrtc::connection::PeerConnection;
use rustrtc::connection::RemoteStart;
use rustrtc::connection::StartKind;
use rustrtc::describe::LocalTransport;
use rustrtc::describe::Slot;
use rustrtc::direction::Direction;
use rustrtc::direction::TransceiverDirection;
use rustrtc::error::RtcError;
use rustrtc::sdp::Attribute;
use rustrtc::sdp::MediaKind;
use rustrtc::sdp::MediaSection;
use rustrtc::sdp::SdpType;
use rustrtc::sdp::SessionDescription;
use rustrtc::sender::RtpSender;
use rustrtc::state::is_ice_up;
use rustrtc::state::reason_of_sctp;
use rustrtc::state::DisconnectReason;
use rustrtc::state::DtlsState;
use rustrtc::state::IceConnectionState;
use rustrtc::state::IceGatheringState;
use rustrtc::state::IceTransportState;
use rustrtc::state::PeerConnectionState;
use rustrtc::state::SignalingState;

const FINGERPRINT: &str = "AA:BB";

fn connection(mode: TransportMode) -> PeerConnection {
    let mut config = RtcConfiguration::default();
    config.transport_mode = mode;
    PeerConnection::new(config, FINGERPRINT.to_string())
}

fn message(e: RtcError) -> String {
    match e {
        RtcError::InvalidState(t) => t,
        RtcError::Internal(t) => t,
        _ => panic!("another kind of error"),
    }
}

fn reason(pc: &PeerConnection) -> Option<String> {
    pc.disconnect_reason().map(|r| r.message())
}

fn ip(last: u8) -> IpAddress {
    IpAddress { v6: false, bits: 0x0A00_0000 | last as u128 }
}

fn local_transport() -> LocalTransport {
    LocalTransport {
        ufrag: "ufrag".to_string(),
        pwd: "password".to_string(),
        candidates: Vec::new(),
        complete: true,
        rtcp_port: None,
        fax_port: 30000,
    }
}

fn locals(n: usize) -> Vec<LocalTransport> {
    (0..n).map(|_| local_transport()).collect()
}

fn opus_sender(ssrc: u32) -> RtpSender {
    let params = RtpCodecParameters {
        payload_type: 111,
        name: "opus".to_string(),
        clock_rate: 48000,
        channels: 2,
    };
    RtpSender::builder("track", ssrc).stream_id("stream".to_string()).params(params).build()
}

#[test]
fn closing_twice_changes_nothing() {
    let mut pc = connection(TransportMode::WebRtc);
    let i = pc.add_transceiver(MediaKind::Audio, TransceiverDirection::SendRecv);
    let mut list = Vec::new();
    pc.add_sender(i, opus_sender(77), &mut list);
    pc.adopt_transport(1, &mut list);
    pc.secure_transport(1, &mut list);
    pc.adopt_dtls(2, &mut list);
    pc.adopt_sctp(3);
    let mut list = Vec::new();
    assert!(pc.close(&None, &mut list));
    assert_eq!(pc.peer_state(), PeerConnectionState::Closed);
    assert_eq!(pc.signaling_state(), SignalingState::Closed);
    assert_eq!(pc.ice_connection_state(), IceConnectionState::Closed);
    assert_eq!(pc.ice_gathering_state(), IceGatheringState::Complete);
    assert_eq!(reason(&pc).as_deref(), Some("local close"));
    assert!(list.iter().any(|a| matches!(a, Action::StopSender { .. })));
    assert!(list.iter().any(|a| matches!(a, Action::CloseSctp { transport: 3 })));
    assert!(list.iter().any(|a| matches!(a, Action::CloseDtls { transport: 2 })));
    assert!(list.iter().any(|a| matches!(a, Action::StopPrimaryIce)));
    let mut goodbyes = 0;
    for a in &list {
        if let Action::SendBye { transport, goodbye } = a {
            assert_eq!(*transport, 1);
            assert_eq!(goodbye.sources, vec![77]);
            goodbyes += 1;
        }
    }
    assert_eq!(goodbyes, 1);

    let mut again = Vec::new();
    assert!(!pc.close_with_reason(DisconnectReason::IceFailed, &None, &mut again));
    assert!(again.is_empty());
    assert_eq!(reason(&pc).as_deref(), Some("local close"));
}

#[test]
fn the_first_reason_stays() {
    let mut pc = connection(TransportMode::WebRtc);
    pc.note_reason(DisconnectReason::DtlsFailed);
    pc.note_reason(DisconnectReason::IceFailed);
    assert_eq!(reason(&pc).as_deref(), Some("DTLS failed"));
    assert!(pc.close(&None, &mut Vec::new()));
    assert_eq!(reason(&pc).as_deref(), Some("DTLS failed"));
}

#[test]
fn sctp_tells_why_it_closed() {
    let texts = [
        ("HEARTBEAT_TIMEOUT", "SCTP heartbeat timeout (peer unresponsive)"),
        ("HEARTBEAT_DEAD", "SCTP peer dead (consecutive heartbeat failures)"),
        ("REMOTE_ABORT", "remote SCTP ABORT"),
        ("REMOTE_SHUTDOWN", "remote SCTP SHUTDOWN"),
        ("DTLS_FAILED", "DTLS failed"),
        ("DTLS_CLOSED", "DTLS closed"),
        ("DTLS_CHANNEL_CLOSED", "DTLS closed"),
        ("INIT_TIMEOUT", "transport start failed: SCTP INIT timeout"),
        ("TRANSPORT_CLOSED", "unknown: transport channel closed"),
        ("anything", "unknown: anything"),
    ];
    for (close, text) in texts {
        assert_eq!(reason_of_sctp(close).unwrap().message(), text);
    }
    assert!(reason_of_sctp("LOCAL_CLOSE").is_none());
    let mut pc = connection(TransportMode::WebRtc);
    pc.propagate_sctp_close_reason(&Some("REMOTE_ABORT".to_string()));
    assert!(pc.disconnect_reason().is_none());
    pc.adopt_sctp(4);
    pc.propagate_sctp_close_reason(&Some("REMOTE_ABORT".to_string()));
    assert_eq!(reason(&pc).as_deref(), Some("remote SCTP ABORT"));
}

#[test]
fn reasons_read_well() {
    assert_eq!(DisconnectReason::Dropped.message(), "connection dropped");
    assert_eq!(DisconnectReason::DtlsClosed.message(), "DTLS closed");
    assert_eq!(
        DisconnectReason::TransportStartFailed("x".to_string()).message(),
        "transport start failed: x"
    );
    assert_eq!(DisconnectReason::Unknown("y".to_string()).message(), "unknown: y");
}

#[test]
fn ice_states_show_and_end_the_connection() {
    let mut pc = connection(TransportMode::WebRtc);
    assert_eq!(pc.on_ice_state(IceTransportState::Checking), IceStep::Wait);
    assert_eq!(pc.ice_connection_state(), IceConnectionState::Checking);
    assert_eq!(pc.on_ice_state(IceTransportState::Failed), IceStep::Over);
    assert_eq!(pc.peer_state(), PeerConnectionState::Failed);
    assert_eq!(reason(&pc).as_deref(), Some("ICE failed"));

    let mut pc = connection(TransportMode::WebRtc);
    assert_eq!(pc.on_ice_state(IceTransportState::Closed), IceStep::Over);
    assert_eq!(pc.peer_state(), PeerConnectionState::Closed);
    assert_eq!(reason(&pc).as_deref(), Some("ICE disconnected"));
}

#[test]
fn nominations_start_the_transport() {
    let webrtc = TransportMode::WebRtc;
    assert_eq!(on_nomination(None, 5000, webrtc), NominationStep::Await { limit_ms: 30000 });
    assert_eq!(on_nomination(Some(false), 5000, webrtc), NominationStep::AwaitIceLoss);
    assert_eq!(on_nomination(Some(true), 5000, webrtc), NominationStep::StartDtls);
    assert_eq!(on_nomination(Some(true), 5000, TransportMode::Srtp), NominationStep::StartDirect);
    assert_eq!(
        on_nomination(None, u64::MAX, webrtc),
        NominationStep::Await { limit_ms: u64::MAX }
    );
}

#[test]
fn handshakes_end_well_or_with_a_reason() {
    assert_eq!(on_handshake(DtlsState::Handshaking).unwrap(), Handshake::Pending);
    assert_eq!(on_handshake(DtlsState::Connected(Some(7))).unwrap(), Handshake::Done(Some(7)));
    assert_eq!(message(on_handshake(DtlsState::Failed).unwrap_err()), "DTLS handshake failed");
    assert_eq!(
        message(on_handshake(DtlsState::Closed).unwrap_err()),
        "DTLS transport closed before completing handshake"
    );
}

#[test]
fn a_start_that_fails_names_the_error() {
    let mut pc = connection(TransportMode::Rtp);
    assert!(pc.on_started(false, &Some("no route".to_string())).is_none());
    assert_eq!(pc.peer_state(), PeerConnectionState::Failed);
    assert_eq!(reason(&pc).as_deref(), Some("transport start failed: no route"));
    let mut pc = connection(TransportMode::WebRtc);
    assert!(pc.on_started(true, &Some("no route".to_string())).is_none());
    assert_eq!(reason(&pc).as_deref(), Some("DTLS failed"));
}

#[test]
fn waiting_ends_with_the_state() {
    let mut pc = connection(TransportMode::WebRtc);
    assert!(pc.connected().is_none());
    pc.on_started(true, &None);
    assert!(matches!(pc.connected(), Some(Ok(()))));
    pc.close(&None, &mut Vec::new());
    assert_eq!(
        message(pc.connected().unwrap().unwrap_err()),
        "Peer connection failed or closed: Closed"
    );
}

#[test]
fn a_path_that_comes_back_cancels_the_end() {
    let mut pc = connection(TransportMode::WebRtc);
    let mut l = ConnectedLoop { dtls: true, epoch: 0 };
    let mut list: Vec<Action> = Vec::new();
    pc.on_started(true, &None);
    let lost = ConnectedEvent::Ice(IceTransportState::Disconnected);
    let step = pc.on_connected_event(&mut l, lost, &mut list);
    assert_eq!(step, ConnectedStep::StartGrace { epoch: 0 });
    assert_eq!(pc.peer_state(), PeerConnectionState::Disconnected);
    let found = ConnectedEvent::Ice(IceTransportState::Connected);
    assert_eq!(pc.on_connected_event(&mut l, found, &mut list), ConnectedStep::Stay);
    assert_eq!(pc.peer_state(), PeerConnectionState::Connected);
    let stale = ConnectedEvent::GraceExpired { epoch: 0 };
    assert_eq!(pc.on_connected_event(&mut l, stale, &mut list), ConnectedStep::Stay);
    assert!(pc.disconnect_reason().is_none());
    assert!(list.is_empty());
}

#[test]
fn a_path_that_stays_away_ends_the_connection() {
    let mut pc = connection(TransportMode::WebRtc);
    let mut l = ConnectedLoop { dtls: true, epoch: 0 };
    let mut list: Vec<Action> = Vec::new();
    pc.adopt_sctp(4);
    pc.on_started(true, &None);
    let lost = ConnectedEvent::Ice(IceTransportState::Disconnected);
    pc.on_connected_event(&mut l, lost, &mut list);
    let over = ConnectedEvent::GraceExpired { epoch: 0 };
    let step = pc.on_connected_event(&mut l, over, &mut list);
    assert_eq!(step, ConnectedStep::End { again: true });
    assert_eq!(pc.peer_state(), PeerConnectionState::Disconnected);
    assert_eq!(reason(&pc).as_deref(), Some("ICE disconnected"));
    assert!(matches!(list[0], Action::CloseSctp { transport: 4 }));
}

#[test]
fn a_closed_dtls_session_ends_the_connection() {
    let mut pc = connection(TransportMode::WebRtc);
    let mut l = ConnectedLoop { dtls: true, epoch: 0 };
    let mut list: Vec<Action> = Vec::new();
    let closed = ConnectedEvent::Dtls(DtlsState::Closed);
    assert_eq!(
        pc.on_connected_event(&mut l, closed, &mut list),
        ConnectedStep::End { again: false }
    );
    assert_eq!(reason(&pc).as_deref(), Some("DTLS closed"));
    let ended = ConnectedEvent::LoopsEnded { close_reason: None, ice: IceTransportState::Failed };
    assert_eq!(
        pc.on_connected_event(&mut l, ended, &mut list),
        ConnectedStep::End { again: true }
    );
    let gone = ConnectedEvent::DtlsGone { ice: IceTransportState::Connected };
    assert_eq!(
        pc.on_connected_event(&mut l, gone, &mut list),
        ConnectedStep::End { again: false }
    );
    assert_eq!(
        pc.on_connected_event(&mut l, ConnectedEvent::IceGone, &mut list),
        ConnectedStep::End { again: false }
    );
}

#[test]
fn channel_ids_are_free_and_of_our_parity() {
    let mut pc = connection(TransportMode::WebRtc);
    assert_eq!(pc.next_channel_id(), Some(0));
    let a = pc.create_data_channel(None);
    assert_eq!(a.id, 0);
    assert_eq!(a.open_on, None);
    assert_eq!(pc.transceiver_count(), 1);
    let b = pc.create_data_channel(None);
    assert_eq!(b.id, 2);
    assert_eq!(pc.transceiver_count(), 1);
    pc.adopt_sctp(9);
    let c = pc.create_data_channel(Some(7));
    assert_eq!(c.id, 7);
    assert_eq!(c.open_on, None);
    let d = pc.create_data_channel(None);
    assert_eq!(d.open_on, Some(9));
    assert_eq!(d.id, 4);
    pc.release_data_channel(2);
    assert_eq!(pc.next_channel_id(), Some(2));
    assert_eq!(pc.data_channels(), &vec![0, 7, 4]);
}

#[test]
fn data_needs_an_association() {
    let mut pc = connection(TransportMode::WebRtc);
    assert_eq!(message(pc.data_transport().unwrap_err()), "SCTP not connected");
    pc.adopt_sctp(4);
    assert_eq!(pc.data_transport().unwrap(), 4);
}

#[test]
fn bridges_need_both_transports() {
    let mut a = connection(TransportMode::Rtp);
    let mut b = connection(TransportMode::Rtp);
    let mut list = Vec::new();
    assert_eq!(
        message(a.bridge_rtp_with_rewrite_to(&b).unwrap_err()),
        "RTP transport is not ready for source PeerConnection"
    );
    assert_eq!(
        message(a.bridge_rtp_with_rewrite_to_self().unwrap_err()),
        "RTP transport is not ready for PeerConnection"
    );
    a.adopt_transport(1, &mut list);
    assert_eq!(
        message(a.bridge_rtp_with_rewrite_rules(&b).unwrap_err()),
        "RTP transport is not ready for destination PeerConnection"
    );
    b.adopt_transport(2, &mut list);
    assert_eq!(a.bridge_rtp_with_rewrite_to(&b).unwrap(), (1, 2));
    assert_eq!(a.bridge_rtp_with_rewrite_rules(&b).unwrap(), (1, 2));
    assert_eq!(a.bridge_rtp_with_rewrite_to_self().unwrap(), 1);
    let mut list = Vec::new();
    a.clear_rtp_rewrite_bridge(&mut list);
    assert!(matches!(list[..], [Action::ClearBridge { transport: 1 }]));
}

#[test]
fn raw_packets_leave_on_the_audio_transport() {
    let mut pc = connection(TransportMode::Rtp);
    assert_eq!(
        message(pc.send_raw_rtp().unwrap_err()),
        "RTP transport is not ready for send_raw_rtp"
    );
    let mut list = Vec::new();
    let i = pc.add_transceiver(MediaKind::Audio, TransceiverDirection::SendRecv);
    pc.adopt_transport(1, &mut list);
    assert_eq!(pc.send_raw_rtp().unwrap(), 1);
    pc.add_sender(i, opus_sender(5), &mut list);
    let id = pc.get_transceivers()[i].id();
    pc.attach_rtp_transport_to_transceiver(id, 6, &mut list);
    assert_eq!(pc.send_raw_rtp().unwrap(), 6);
}

#[test]
fn a_primary_transport_needs_a_pair() {
    let mut config = RtcConfiguration::default();
    config.transport_mode = TransportMode::Rtp;
    config.enable_latching = true;
    let pc = PeerConnection::new(config, FINGERPRINT.to_string());
    let hosts = HostTable::new();
    assert_eq!(
        message(pc.plan_primary_transport(None, &hosts).unwrap_err()),
        "No selected pair"
    );
    let remote = SocketAddress { ip: ip(1), port: 4000 };
    let terms = pc.plan_primary_transport(Some(remote), &hosts).unwrap();
    assert!(terms.latch && terms.allow_ssrc_change && !terms.srtp_required);
    assert_eq!(terms.rtcp, None);
}

#[test]
fn observers_see_transports_that_come_later() {
    let mut pc = connection(TransportMode::Rtp);
    let mut list = Vec::new();
    pc.add_observer(50, &mut list);
    pc.add_observer(51, &mut list);
    pc.add_observer(50, &mut list);
    assert!(list.is_empty());
    let i = pc.add_transceiver(MediaKind::Video, TransceiverDirection::SendRecv);
    let id = pc.get_transceivers()[i].id();
    pc.adopt_transport(1, &mut list);
    assert!(matches!(list[0], Action::Observe { transport: 1, observer: 50 }));
    assert!(matches!(list[1], Action::Observe { transport: 1, observer: 51 }));
    let mut list = Vec::new();
    let made = pc.ensure_direct_rtp_media_transport(id, &None, 2, &mut list);
    assert!(made.created);
    assert_eq!(list.iter().filter(|a| matches!(a, Action::Observe { transport: 2, .. })).count(), 2);
    let mut list = Vec::new();
    pc.add_observer(52, &mut list);
    assert!(matches!(
        list[..],
        [
            Action::Observe { transport: 1, observer: 52 },
            Action::Observe { transport: 2, observer: 52 }
        ]
    ));
    let mut list = Vec::new();
    pc.clear_observers(&mut list);
    assert!(matches!(
        list[..],
        [Action::ClearObservers { transport: 1 }, Action::ClearObservers { transport: 2 }]
    ));
}

#[test]
fn securing_moves_everything_to_the_transport() {
    let mut pc = connection(TransportMode::WebRtc);
    let mut list = Vec::new();
    for ssrc in [5, 6] {
        let i = pc.add_transceiver(MediaKind::Audio, TransceiverDirection::SendRecv);
        pc.add_sender(i, opus_sender(ssrc), &mut list);
    }
    pc.adopt_transport(1, &mut list);
    assert_eq!(pc.get_transceivers()[0].sender().unwrap().transport(), None);
    pc.secure_transport(1, &mut list);
    for t in pc.get_transceivers() {
        assert_eq!(t.sender().unwrap().transport(), Some(1));
        assert_eq!(t.receiver().unwrap().transport(), Some(1));
    }
    assert_eq!(pc.rtp_transport(), Some(1));
}

#[test]
fn offers_need_a_transceiver_and_the_stable_state() {
    let mut pc = connection(TransportMode::WebRtc);
    let mut list = Vec::new();
    assert_eq!(
        message(pc.create_offer(&locals(1), 1, &None, &mut list).unwrap_err()),
        "cannot build SDP with no transceivers"
    );
    pc.add_transceiver(MediaKind::Audio, TransceiverDirection::SendRecv);
    let offer = pc.create_offer(&locals(1), 1, &None, &mut list).unwrap();
    assert_eq!(offer.media_sections[0].mid, "0");
    pc.set_local_description(offer, &mut list).unwrap();
    assert_eq!(
        message(pc.create_offer(&locals(1), 1, &None, &mut list).unwrap_err()),
        "cannot create offer while in state HaveLocalOffer"
    );
    assert_eq!(
        message(pc.create_answer(&locals(1), 1, &None, &mut list).unwrap_err()),
        "create_answer requires remote offer"
    );
}

#[test]
fn an_offer_is_answered_section_by_section() {
    let mut list = Vec::new();
    let hosts = HostTable::new();
    let mut caller = connection(TransportMode::WebRtc);
    caller.add_transceiver(MediaKind::Audio, TransceiverDirection::RecvOnly);
    caller.add_transceiver(MediaKind::Video, TransceiverDirection::SendRecv);
    assert!(caller.offer_controls());
    let offer = caller.create_offer(&locals(2), 1, &None, &mut list).unwrap();
    caller.set_local_description(offer.clone(), &mut list).unwrap();

    let mut callee = connection(TransportMode::WebRtc);
    callee.set_remote_description(offer.clone(), &hosts, &mut list).unwrap();
    assert_eq!(callee.signaling_state(), SignalingState::HaveRemoteOffer);
    assert!(!callee.offer_controls());
    let answer = callee.create_answer(&locals(2), 1, &None, &mut list).unwrap();
    assert_eq!(answer.media_sections.len(), 2);
    for (o, a) in offer.media_sections.iter().zip(&answer.media_sections) {
        assert_eq!(o.kind, a.kind);
        assert_eq!(o.mid, a.mid);
        assert!(!a.direction.sends() || o.direction.receives());
        assert!(!a.direction.receives() || o.direction.sends());
    }
    callee.set_local_description(answer.clone(), &mut list).unwrap();
    caller.set_remote_description(answer, &hosts, &mut list).unwrap();
    assert_eq!(caller.signaling_state(), SignalingState::Stable);
    assert_eq!(callee.signaling_state(), SignalingState::Stable);

    let again = caller.create_offer(&locals(2), 9, &None, &mut list).unwrap();
    assert_eq!(again.session.origin.session_id, offer.session.origin.session_id);
    assert_eq!(
        again.session.origin.session_version,
        offer.session.origin.session_version + 1
    );
}

#[test]
fn gathering_ends_with_the_candidates_in_the_description() {
    let mut pc = connection(TransportMode::WebRtc);
    let mut list = Vec::new();
    pc.add_transceiver(MediaKind::Audio, TransceiverDirection::SendRecv);
    let mut transport = local_transport();
    transport.complete = false;
    let offer = pc.create_offer(&vec![transport], 1, &None, &mut list).unwrap();
    pc.set_local_description(offer, &mut list).unwrap();
    assert!(pc.awaits_gathering());
    let lines = vec!["1 1 UDP 1 10.0.0.1 4000 typ host".to_string()];
    pc.on_candidate(&lines);
    let address =
        Some(GatheredAddress { ip: "10.0.0.1".to_string(), v6: false, port: 4000 });
    pc.on_gathering_state(IceGatheringState::Complete, &lines, &address);
    assert_eq!(pc.ice_gathering_state(), IceGatheringState::Complete);
    let section = &pc.local_description().unwrap().media_sections[0];
    let count = |key: &str| section.attributes.iter().filter(|a| a.key == key).count();
    assert_eq!(count("candidate"), 1);
    assert_eq!(count("end-of-candidates"), 1);
}

fn image(connection: Option<&str>, port: u16) -> MediaSection {
    let mut s = MediaSection::new(MediaKind::Image, "0".to_string());
    s.port = port;
    s.connection = connection.map(|c| c.to_string());
    s.direction = Direction::SendRecv;
    s.attributes = Vec::new();
    s
}

fn fax_offer(section: MediaSection) -> SessionDescription {
    let mut d = SessionDescription::new(SdpType::Offer);
    d.media_sections.push(section);
    d
}

#[test]
fn fax_needs_an_image_section_with_an_address() {
    let mut hosts = HostTable::new();
    hosts.add("10.0.0.7".to_string(), ip(7));
    let mut list = Vec::new();
    let mut pc = connection(TransportMode::Rtp);
    assert_eq!(
        message(pc.init_t38_fax(&hosts).unwrap_err()),
        "no Image transceiver for T.38 fax"
    );
    let i = pc.add_transceiver(MediaKind::Image, TransceiverDirection::SendRecv);
    assert_eq!(message(pc.init_t38_fax(&hosts).unwrap_err()), "no m=image in remote SDP");
    pc.set_remote_description(fax_offer(image(None, 4000)), &hosts, &mut list).unwrap();
    assert_eq!(
        message(pc.init_t38_fax(&hosts).unwrap_err()),
        "no usable address in remote m=image"
    );

    let mut pc = connection(TransportMode::Rtp);
    pc.add_transceiver(MediaKind::Image, TransceiverDirection::SendRecv);
    let offer = fax_offer(image(Some("IN IP4 10.0.0.7"), 4000));
    pc.set_remote_description(offer, &hosts, &mut list).unwrap();
    let slot = Slot { index: i, muxed: false, offered: None };
    assert!(pc.needs_fax_transport(&slot));
    let plan = pc.init_t38_fax(&hosts).unwrap();
    assert_eq!(plan.index, i);
    assert_eq!(plan.remote, SocketAddress { ip: ip(7), port: 4000 });
    assert_eq!(plan.existing, None);
    assert_eq!(plan.bind.port, 0);
    pc.transceiver_mut(i).set_udtl_transport(8);
    assert!(!pc.needs_fax_transport(&slot));
    assert_eq!(pc.init_t38_fax(&hosts).unwrap().existing, Some(8));
}

#[test]
fn a_fax_socket_is_bound_where_our_description_says() {
    let mut hosts = HostTable::new();
    hosts.add("10.0.0.7".to_string(), ip(7));
    hosts.add("10.0.0.8".to_string(), ip(8));
    let mut list = Vec::new();
    let mut pc = connection(TransportMode::Rtp);
    pc.add_transceiver(MediaKind::Image, TransceiverDirection::SendRecv);
    let offer = fax_offer(image(Some("IN IP4 10.0.0.7"), 4000));
    pc.set_remote_description(offer, &hosts, &mut list).unwrap();
    let mut answer = fax_offer(image(Some("IN IP4 10.0.0.8"), 5000));
    answer.sdp_type = SdpType::Answer;
    pc.set_local_description(answer, &mut list).unwrap();
    let plan = pc.init_t38_fax(&hosts).unwrap();
    assert_eq!(plan.remote, SocketAddress { ip: ip(7), port: 4000 });
    assert_eq!(plan.bind, SocketAddress { ip: ip(8), port: 5000 });
}

#[test]
fn fax_settings_follow_the_first_capability() {
    let usual =
        UdptlSettings { redundancy_depth: 1, fec_group: 3, max_buffer: 100, max_datagram: 50 };
    assert_eq!(udptl_settings(&Vec::new(), usual), usual);
    for udp_ec in [T38UdpEC::T38UDPRedundancy, T38UdpEC::T38UDPFEC] {
        let first = FaxCapability { udp_ec, max_buffer: 2000, max_datagram: 400 };
        let second = FaxCapability { max_buffer: 1, max_datagram: 1, ..first };
        assert_eq!(
            udptl_settings(&vec![first, second], usual),
            UdptlSettings {
                redundancy_depth: 2,
                fec_group: 0,
                max_buffer: 2000,
                max_datagram: 400,
            }
        );
    }
}

#[test]
fn a_path_works_once_ice_is_connected() {
    assert!(is_ice_up(IceTransportState::Connected));
    assert!(is_ice_up(IceTransportState::Completed));
    assert!(!is_ice_up(IceTransportState::Checking));
    assert!(!is_ice_up(IceTransportState::Disconnected));
}

fn audio_offer(fingerprint: &str, setup: &str) -> SessionDescription {
    let mut s = MediaSection::new(MediaKind::Audio, "0".to_string());
    s.direction = Direction::SendRecv;
    s.attributes = vec![
        Attribute::new("fingerprint", Some(format!("sha-256 {fingerprint}"))),
        Attribute::new("setup", Some(setup.to_string())),
        Attribute::new("ice-ufrag", Some("u".to_string())),
        Attribute::new("ice-pwd", Some("p".to_string())),
    ];
    let mut d = SessionDescription::new(SdpType::Offer);
    d.media_sections.push(s);
    d
}

const LONG: &str = "AA:BB:CC:DD:EE:FF:00:11:22:33:44:55:66:77:88:99:AA:BB:CC:DD:EE:FF:00:11:22:33:44:55:66:77:88:99";
const LATER: &str = "AA:BB:CC:DD:EE:FF:00:11:22:33:44:55:66:77:88:99:AA:BB:CC:DD:EE:FF:00:11:22:33:44:55:66:77:88:00";

#[test]
fn a_running_session_keeps_the_remote_fingerprint() {
    let hosts = HostTable::new();
    let mut list = Vec::new();
    let mut pc = connection(TransportMode::WebRtc);
    let start = pc.set_remote_description(audio_offer(LONG, "actpass"), &hosts, &mut list).unwrap();
    match start {
        RemoteStart::Start(c, kind) => {
            assert_eq!(kind, StartKind::Ice);
            assert_eq!(c.ufrag.as_deref(), Some("u"));
            assert_eq!(c.pwd.as_deref(), Some("p"));
        }
        _ => panic!("expected a start"),
    }
    let answer = pc.create_answer(&locals(1), 1, &None, &mut list).unwrap();
    pc.set_local_description(answer, &mut list).unwrap();
    pc.adopt_dtls(5, &mut list);
    assert_eq!(
        message(
            pc.set_remote_description(audio_offer(LATER, "actpass"), &hosts, &mut list)
                .map(|_| ())
                .unwrap_err()
        ),
        "changing remote DTLS fingerprint after transport start is not supported"
    );
}

#[test]
fn crossing_offers_are_refused() {
    let hosts = HostTable::new();
    let mut list = Vec::new();
    let mut pc = connection(TransportMode::WebRtc);
    pc.set_remote_description(audio_offer(LONG, "actpass"), &hosts, &mut list).unwrap();
    let answer = pc.create_answer(&locals(1), 1, &None, &mut list).unwrap();
    pc.set_local_description(answer, &mut list).unwrap();
    let offer = pc.create_offer(&locals(1), 1, &None, &mut list).unwrap();
    pc.set_local_description(offer, &mut list).unwrap();
    let crossing = audio_offer(LONG, "active");
    assert_eq!(
        message(
            pc.set_remote_description(crossing, &hosts, &mut list).map(|_| ()).unwrap_err()
        ),
        "Cannot handle reinvite offer in non-stable state (glare?)"
    );
}

#[test]
fn an_offer_gives_every_section_a_mid_of_its_own() {
    let hosts = HostTable::new();
    let mut list = Vec::new();
    let mut pc = connection(TransportMode::WebRtc);
    let mut remote = audio_offer(LONG, "actpass");
    remote.media_sections[0].mid = "1".to_string();
    pc.set_remote_description(remote, &hosts, &mut list).unwrap();
    let answer = pc.create_answer(&locals(1), 1, &None, &mut list).unwrap();
    pc.set_local_description(answer, &mut list).unwrap();
    pc.add_transceiver(MediaKind::Video, TransceiverDirection::SendRecv);
    pc.add_transceiver(MediaKind::Video, TransceiverDirection::SendRecv);
    let offer = pc.create_offer(&locals(3), 1, &None, &mut list).unwrap();
    let mids: Vec<&str> = offer.media_sections.iter().map(|s| s.mid.as_str()).collect();
    assert_eq!(mids, vec!["1", "2", "3"]);
}

#[test]
fn an_offer_without_mids_is_answered_by_kind() {
    let hosts = HostTable::new();
    let mut list = Vec::new();
    let mut pc = connection(TransportMode::Rtp);
    pc.add_transceiver(MediaKind::Audio, TransceiverDirection::SendRecv);
    let mut d = SessionDescription::new(SdpType::Offer);
    for kind in [MediaKind::Video, MediaKind::Audio, MediaKind::Audio] {
        d.media_sections.push(MediaSection::new(kind, String::new()));
    }
    pc.set_remote_description(d, &hosts, &mut list).unwrap();
    assert_eq!(pc.transceiver_count(), 3);
    let answer = pc.create_answer(&locals(3), 1, &None, &mut list).unwrap();
    let kinds: Vec<MediaKind> = answer.media_sections.iter().map(|s| s.kind).collect();
    assert_eq!(kinds, vec![MediaKind::Video, MediaKind::Audio, MediaKind::Audio]);
}

#[test]
fn a_description_out_of_turn_changes_nothing() {
    let hosts = HostTable::new();
    let mut list = Vec::new();
    let mut pc = connection(TransportMode::WebRtc);
    let mut d = audio_offer(LONG, "active");
    d.sdp_type = SdpType::Answer;
    assert!(pc.set_remote_description(d, &hosts, &mut list).is_err());
    assert_eq!(pc.signaling_state(), SignalingState::Stable);
    assert_eq!(pc.transceiver_count(), 0);
    assert!(pc.remote_description().is_none());
    assert!(list.is_empty());
}

#[test]
fn the_same_media_again_asks_for_nothing() {
    let hosts = HostTable::new();
    let mut list = Vec::new();
    let mut pc = connection(TransportMode::WebRtc);
    pc.set_remote_description(audio_offer(LONG, "actpass"), &hosts, &mut list).unwrap();
    let answer = pc.create_answer(&locals(1), 1, &None, &mut list).unwrap();
    pc.set_local_description(answer, &mut list).unwrap();
    pc.adopt_transport(1, &mut list);
    let mut list = Vec::new();
    let start = pc.set_remote_description(audio_offer(LONG, "actpass"), &hosts, &mut list).unwrap();
    assert!(matches!(start, RemoteStart::Unchanged));
    assert!(list.is_empty());
    assert_eq!(pc.signaling_state(), SignalingState::HaveRemoteOffer);
    assert_eq!(pc.transceiver_count(), 1);
}

#[test]
fn a_single_section_answer_echoes_the_group() {
    let hosts = HostTable::new();
    let mut list = Vec::new();
    for bundled in [true, false] {
        let mut pc = connection(TransportMode::WebRtc);
        let mut d = audio_offer(LONG, "actpass");
        if bundled {
            d.session.attributes.push(Attribute::new("group", Some("BUNDLE 0".to_string())));
        }
        pc.set_remote_description(d, &hosts, &mut list).unwrap();
        let answer = pc.create_answer(&locals(1), 1, &None, &mut list).unwrap();
        let grouped = answer
            .session
            .attributes
            .iter()
            .any(|a| a.key == "group" && a.value.as_deref() == Some("BUNDLE 0"));
        assert_eq!(grouped, bundled);
    }
}

#[test]
fn only_the_lines_of_a_mode_are_written() {
    let mut list = Vec::new();
    for mode in [TransportMode::WebRtc, TransportMode::Srtp, TransportMode::Rtp] {
        let mut pc = connection(mode);
        pc.add_transceiver(MediaKind::Audio, TransceiverDirection::SendRecv);
        let offer = pc.create_offer(&locals(1), 1, &None, &mut list).unwrap();
        let has = |key: &str| offer.media_sections[0].attributes.iter().any(|a| a.key == key);
        assert_eq!(has("fingerprint"), mode == TransportMode::WebRtc);
        assert_eq!(has("setup"), mode == TransportMode::WebRtc);
        assert_eq!(has("ice-ufrag"), mode == TransportMode::WebRtc);
        assert_eq!(has("crypto"), mode == TransportMode::Srtp);
    }
}
