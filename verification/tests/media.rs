use rustrtc::codec::RtpCodecParameters;
use rustrtc::direction::TransceiverDirection;
use rustrtc::error::RtcError;
use rustrtc::nack::DefaultRtpReceiverNackHandler;
use rustrtc::nack::DefaultRtpSenderNackHandler;
use rustrtc::nack::MAX_RECEIVER_NACK_GAP;
use rustrtc::nack::NackSendBuffer;
use rustrtc::nack::NACK_RESEND_COOLDOWN;
use rustrtc::receiver::Owner;
use rustrtc::receiver::PacketStep;
use rustrtc::receiver::Received;
use rustrtc::receiver::RtpReceiver;
use rustrtc::receiver::RtpReceiverBuilder;
use rustrtc::rtp::build_sender_report;
use rustrtc::rtp::dedup_report_blocks;
use rustrtc::rtp::rtcp_targets_sender;
use rustrtc::rtp::FirRequest;
use rustrtc::rtp::FullIntraRequest;
use rustrtc::rtp::GenericNack;
use rustrtc::rtp::PictureLossIndication;
use rustrtc::rtp::ReceiverReport;
use rustrtc::rtp::ReportBlock;
use rustrtc::rtp::RtcpPacket;
use rustrtc::rtp::RtpHeader;
use rustrtc::rtp::RtpPacket;
use rustrtc::rtp::SenderReport;
use rustrtc::rtx::unwrap_rtx_packet;
use rustrtc::rtx::wrap_rtx_packet;
use rustrtc::rtx::RtxSenderConfig;
use rustrtc::sdp::MediaKind;
use rustrtc::sender::MediaSample;
use rustrtc::sender::RtpSender;
use rustrtc::sender::SendLoop;
use rustrtc::sender::SendStep;
use rustrtc::sender::SOURCE_SWITCH_GAP;
use rustrtc::sender::SOURCE_SWITCH_STEP;
use rustrtc::transceiver::RtpTransceiver;
use std::collections::HashMap;

fn block(ssrc: u32) -> ReportBlock {
    ReportBlock {
        ssrc,
        fraction_lost: 12,
        packets_lost: 3,
        highest_sequence: 999,
        jitter: 160,
        last_sender_report: 0,
        delay_since_last_sender_report: 0,
    }
}

fn pcma() -> RtpCodecParameters {
    RtpCodecParameters { payload_type: 8, name: "PCMA".to_string(), clock_rate: 8000, channels: 1 }
}

fn packet(pt: u8, seq: u16, timestamp: u32, ssrc: u32) -> RtpPacket {
    RtpPacket::new(RtpHeader::new(pt, seq, timestamp, ssrc), vec![0xD5; 160])
}

fn received(step: PacketStep) -> Received {
    match step {
        PacketStep::Received(r) => r,
        _ => panic!("expected media"),
    }
}

#[test]
fn rtcp_rr_sr_are_delivered_to_sender() {
    let our_ssrc = 10000u32;
    let rr_matching = RtcpPacket::ReceiverReport(ReceiverReport {
        sender_ssrc: 555,
        report_blocks: vec![block(our_ssrc)],
    });
    let rr_other = RtcpPacket::ReceiverReport(ReceiverReport {
        sender_ssrc: 555,
        report_blocks: vec![block(7777)],
    });
    let sr = RtcpPacket::SenderReport(SenderReport {
        sender_ssrc: 555,
        ntp_most: 0,
        ntp_least: 0,
        rtp_timestamp: 0,
        packet_count: 42,
        octet_count: 0,
        report_blocks: vec![block(our_ssrc)],
    });
    assert!(rtcp_targets_sender(&rr_matching, our_ssrc));
    assert!(!rtcp_targets_sender(&rr_other, our_ssrc));
    assert!(rtcp_targets_sender(&sr, our_ssrc));
}

#[test]
fn feedback_is_delivered_to_the_sender_that_it_names() {
    let pli = RtcpPacket::PictureLossIndication(PictureLossIndication {
        sender_ssrc: 1,
        media_ssrc: 7,
    });
    assert!(rtcp_targets_sender(&pli, 7));
    assert!(!rtcp_targets_sender(&pli, 8));
    let fir = RtcpPacket::FullIntraRequest(FullIntraRequest {
        sender_ssrc: 1,
        requests: vec![
            FirRequest { ssrc: 7, sequence_number: 0 },
            FirRequest { ssrc: 9, sequence_number: 0 },
        ],
    });
    assert!(rtcp_targets_sender(&fir, 9));
    assert!(!rtcp_targets_sender(&fir, 8));
    let nack = RtcpPacket::GenericNack(GenericNack {
        sender_ssrc: 1,
        media_ssrc: 7,
        lost_packets: vec![1],
    });
    assert!(rtcp_targets_sender(&nack, 7));
    assert!(!rtcp_targets_sender(&nack, 8));
    let empty =
        RtcpPacket::ReceiverReport(ReceiverReport { sender_ssrc: 1, report_blocks: vec![] });
    assert!(rtcp_targets_sender(&empty, 8));
    assert!(!rtcp_targets_sender(&RtcpPacket::Other, 8));
}

#[test]
fn nack_handler_rtx_stats_default_zero() {
    let mut handler = DefaultRtpSenderNackHandler::new(16);
    assert_eq!(handler.get_rtx_sent_count(), 0);
    handler.set_rtx(Some(RtxSenderConfig { rtx_ssrc: 2, rtx_payload_type: 97 }));
    assert!(handler.rtx_config().is_some());
    assert_eq!(handler.rtx_ssrc(), 2);
    handler.set_rtx(None);
    assert!(handler.rtx_config().is_none());
    assert_eq!(handler.rtx_ssrc(), 0);
}

#[test]
fn nack_handler_rtx_fast_path_ssrc_mirrors_config() {
    let mut handler = DefaultRtpSenderNackHandler::new(16);
    assert_eq!(handler.rtx_ssrc(), 0);
    handler.set_rtx(Some(RtxSenderConfig { rtx_ssrc: 0xDEAD, rtx_payload_type: 97 }));
    assert_eq!(handler.rtx_ssrc(), 0xDEAD);
    handler.set_rtx(Some(RtxSenderConfig { rtx_ssrc: 0xBEEF, rtx_payload_type: 98 }));
    assert_eq!(handler.rtx_ssrc(), 0xBEEF);
    handler.set_rtx(None);
    assert_eq!(handler.rtx_ssrc(), 0);
}

#[test]
fn test_receiver_nack_handler() {
    let mut handler = DefaultRtpReceiverNackHandler::new();
    let at = |seq: u16, payload: Vec<u8>| RtpPacket::new(RtpHeader::new(96, seq, 0, 1234), payload);
    assert!(handler.on_packet_received(&at(100, vec![1, 2, 3])).is_none());
    assert!(handler.on_packet_received(&at(101, vec![4, 5, 6])).is_none());
    let nack = handler.on_packet_received(&at(103, vec![7, 8, 9])).expect("a request");
    assert_eq!(nack.lost_packets, vec![102]);
    assert_eq!(nack.media_ssrc, 1234);
    let nack = handler.on_packet_received(&at(106, vec![10])).expect("a request");
    assert_eq!(nack.lost_packets, vec![104, 105]);
}

#[test]
fn test_sender_nack_handler() {
    let mut handler = DefaultRtpSenderNackHandler::new(10);
    let first = RtpPacket::new(RtpHeader::new(96, 100, 0, 1234), vec![1, 2, 3]);
    handler.on_packet_sent(&first);
    let nack = GenericNack { sender_ssrc: 0, media_ssrc: 1234, lost_packets: vec![100] };
    let again = handler.on_nack(&nack, 0);
    assert_eq!(again.len(), 1);
    assert_eq!(again[0].header.sequence_number, 100);
    for seq in 101..115u16 {
        handler.on_packet_sent(&RtpPacket::new(RtpHeader::new(96, seq, 0, 1234), vec![0]));
    }
    assert_eq!(handler.buffered_packet_count(), 10);
    assert!(handler.on_nack(&nack, 1_000_000_000).is_empty());
    assert!(handler.packets_for_nack(&vec![100], 2_000_000_000).is_empty());
}

#[test]
fn sender_nack_buffer_bounded_and_indexed() {
    let mut handler = DefaultRtpSenderNackHandler::new(4);
    for seq in 1u16..=10 {
        handler.on_packet_sent(&RtpPacket::new(RtpHeader::new(96, seq, 0, 42), vec![seq as u8]));
    }
    assert_eq!(handler.buffered_packet_count(), 4);
    let found = handler.packets_for_nack(&vec![7, 8, 9, 10], 0);
    assert_eq!(found.len(), 4);
    assert!(handler.packets_for_nack(&vec![1, 2, 3, 4, 5, 6], 0).is_empty());
}

#[test]
fn sender_nack_suppresses_duplicate_resend_within_cooldown() {
    let mut handler = DefaultRtpSenderNackHandler::new(8);
    handler.on_packet_sent(&RtpPacket::new(RtpHeader::new(96, 50, 0, 7), vec![1]));
    let t0 = 1_000_000_000u64;
    let first = handler.packets_for_nack(&vec![50, 50], t0);
    assert_eq!(first.len(), 1);
    assert!(handler.get_suppressed_count() >= 1);
    let second = handler.packets_for_nack(&vec![50], t0 + 5_000_000);
    assert!(second.is_empty());
    assert!(handler.get_suppressed_count() >= 2);
    let third = handler.packets_for_nack(&vec![50], t0 + NACK_RESEND_COOLDOWN + 1_000_000);
    assert_eq!(third.len(), 1);
}

#[test]
fn receiver_nack_gap_capped_and_recovery_tracks_pending() {
    let mut handler = DefaultRtpReceiverNackHandler::new();
    let at = |seq: u16| RtpPacket::new(RtpHeader::new(96, seq, 0, 1234), vec![1]);
    assert!(handler.on_packet_received(&at(100)).is_none());
    let seq = 100 + 1 + (MAX_RECEIVER_NACK_GAP as u16) + 50;
    let nack = handler.on_packet_received(&at(seq)).expect("a request");
    assert_eq!(nack.lost_packets.len(), MAX_RECEIVER_NACK_GAP);
    assert_eq!(
        nack.lost_packets.first().copied(),
        Some(seq.wrapping_sub(MAX_RECEIVER_NACK_GAP as u16))
    );
    assert_eq!(nack.lost_packets.last().copied(), Some(seq.wrapping_sub(1)));
    assert!(handler.on_packet_received(&at(nack.lost_packets[0])).is_none());
    assert_eq!(handler.get_recovered_count(), 1);
    assert!(handler.on_packet_received(&at(1)).is_none());
    assert_eq!(handler.get_recovered_count(), 1);
}

#[test]
fn receiver_uses_negotiated_clock_rate_for_incoming_audio_pt() {
    let mut t = RtpTransceiver::new_for_test(MediaKind::Audio, TransceiverDirection::RecvOnly);
    let receiver = RtpReceiverBuilder::new(MediaKind::Audio, 1234).shared_payload_map().build();
    t.set_receiver(Some(receiver));
    t.update_payload_map(HashMap::from([(8u8, pcma())]));
    let receiver = t.receiver_mut().unwrap();
    receiver.set_transport(1, false, &None);
    let p = RtpPacket::new(RtpHeader::new(8, 1, 160, 0x1234_5678), vec![0x55, 0x66]);
    let frame = received(receiver.on_packet(None, p));
    assert_eq!(frame.clock_rate, 8000);
    assert_eq!(frame.packet.header.payload_type, 8);
}

fn audio_transceiver() -> RtpTransceiver {
    let mut t = RtpTransceiver::new_for_test(MediaKind::Audio, TransceiverDirection::RecvOnly);
    let receiver = RtpReceiverBuilder::new(MediaKind::Audio, 0).shared_payload_map().build();
    t.set_receiver(Some(receiver));
    t.update_payload_map(HashMap::from([(8u8, pcma())]));
    t
}

fn owner_of(t: &RtpTransceiver) -> Option<Owner> {
    Some(t.owner())
}

#[test]
fn repro_bug3_track_event_resets_on_transport_switch() {
    let mut t = audio_transceiver();
    let owner = owner_of(&t);
    let receiver = t.receiver_mut().unwrap();
    assert!(receiver.set_transport(1, true, &owner).is_some());
    assert!(received(receiver.on_packet(None, packet(8, 1, 0, 0xDEAD_BEEF))).announce);
    assert!(receiver.track_event_sent());
    assert!(receiver.set_transport(2, true, &owner).is_some());
    assert!(!receiver.track_event_sent());
    assert_eq!(receiver.ssrc(), 0);
    assert!(received(receiver.on_packet(None, packet(8, 2, 160, 0xDEAD_BEEF))).announce);
}

#[test]
fn repro_bug3_same_transport_reuse_no_spurious_reset() {
    let mut t = audio_transceiver();
    let owner = owner_of(&t);
    let receiver = t.receiver_mut().unwrap();
    receiver.set_transport(1, true, &owner);
    assert!(received(receiver.on_packet(None, packet(8, 1, 0, 0xDEAD_BEEF))).announce);
    assert!(receiver.set_transport(1, true, &owner).is_none());
    assert!(receiver.track_event_sent());
    assert!(!received(receiver.on_packet(None, packet(8, 2, 160, 0xDEAD_BEEF))).announce);
}

#[test]
fn repro_bug3_first_assignment_does_not_reset_or_double_fire() {
    let mut t = audio_transceiver();
    let owner = owner_of(&t);
    let receiver = t.receiver_mut().unwrap();
    assert!(!receiver.track_event_sent());
    receiver.set_transport(1, true, &owner);
    assert!(!receiver.track_event_sent());
    assert!(received(receiver.on_packet(None, packet(8, 1, 0, 0xAB12_3456))).announce);
    assert!(!received(receiver.on_packet(None, packet(8, 2, 160, 0xAB12_3456))).announce);
}

#[test]
fn repro_bug3_new_ssrc_on_new_transport_fires_track() {
    let mut t = audio_transceiver();
    let owner = owner_of(&t);
    let receiver = t.receiver_mut().unwrap();
    receiver.set_transport(1, true, &owner);
    assert!(received(receiver.on_packet(None, packet(8, 1, 0, 0xAAAA_1111))).announce);
    assert_eq!(receiver.ssrc(), 0xAAAA_1111);
    receiver.set_transport(2, true, &owner);
    assert_eq!(receiver.ssrc(), 0);
    assert!(received(receiver.on_packet(None, packet(8, 2, 160, 0xBBBB_2222))).announce);
    assert_eq!(receiver.ssrc(), 0xBBBB_2222);
}

#[test]
fn sender_report_builder_uses_rtp_counters() {
    let report = build_sender_report(10000, 123456, 42, 4096, 0, 0, Vec::new());
    assert_eq!(report.sender_ssrc, 10000);
    assert_eq!(report.rtp_timestamp, 123456);
    assert_eq!(report.packet_count, 42);
    assert_eq!(report.octet_count, 4096);
    assert_eq!(report.ntp_most, 2_208_988_800);
    assert_eq!(report.ntp_least, 0);
    assert!(report.report_blocks.is_empty());
}

#[test]
fn half_a_second_is_half_the_fraction() {
    let report = build_sender_report(1, 0, 1, 1, 1, 500_000_000, Vec::new());
    assert_eq!(report.ntp_most, 2_208_988_801);
    assert_eq!(report.ntp_least, 0x8000_0000);
}

#[test]
fn report_blocks_are_sent_once() {
    let blocks = vec![block(1), block(2), block(1)];
    let out = dedup_report_blocks(&blocks);
    assert_eq!(out.iter().map(|b| b.ssrc).collect::<Vec<u32>>(), vec![1, 2]);
}

fn sender() -> RtpSender {
    RtpSender::builder("track", 12345).stream_id("stream".to_string()).params(pcma()).build()
}

fn sample(timestamp: u32) -> MediaSample {
    MediaSample {
        rtp_timestamp: timestamp,
        marker: false,
        payload: vec![1, 2, 3],
        sequence_number: None,
    }
}

#[test]
fn test_sender_set_transport_releases_old_task() {
    let mut s = sender();
    let mut a = s.set_transport(1).expect("a loop for the first transport");
    assert!(s.serves(&a));
    let b = s.set_transport(2).expect("a loop for the second transport");
    assert!(!s.serves(&a));
    assert!(s.serves(&b));
    assert!(matches!(s.on_sample(&mut a, sample(0)), SendStep::Stop));
}

#[test]
fn a_loop_for_the_same_transport_goes_on() {
    let mut s = sender();
    let a = s.set_transport(1).unwrap();
    assert!(s.set_transport(1).is_none());
    assert!(s.serves(&a));
}

#[test]
fn samples_are_numbered_and_timed() {
    let mut s = sender();
    s.set_sdes_mid(3, "audio".to_string());
    let mut l = s.set_transport_at(1, 100).unwrap();
    let seq = s.next_sequence_number();
    match s.on_sample(&mut l, sample(1000)) {
        SendStep::Send { observed, wire } => {
            assert_eq!(observed.header.ssrc, 12345);
            assert_eq!(observed.header.payload_type, 8);
            assert_eq!(observed.header.sequence_number, seq);
            assert_eq!(observed.header.timestamp, 1100);
            assert!(observed.header.extensions.is_empty());
            assert_eq!(wire.header.extensions.len(), 1);
            assert_eq!(wire.header.extensions[0].id, 3);
            assert_eq!(wire.header.extensions[0].data, b"audio".to_vec());
        }
        _ => panic!("expected a packet"),
    }
    assert_eq!(s.next_sequence_number(), seq.wrapping_add(1));
    s.note_sent(3, 1100);
    assert_eq!(s.packets_sent(), 1);
    let report = s.report(&l, 0, 0, &Vec::new()).expect("a report");
    assert_eq!(report.rtp_timestamp, 1100);
    assert_eq!(report.octet_count, 3);
}

#[test]
fn a_sender_that_may_not_send_drops_samples() {
    let mut s = sender();
    let mut l = s.set_transport(1).unwrap();
    s.set_send_enabled(false);
    assert!(matches!(s.on_sample(&mut l, sample(0)), SendStep::Skip));
    assert!(s.report(&l, 0, 0, &Vec::new()).is_none());
}

#[test]
fn a_switched_source_continues_where_the_last_one_stopped() {
    let mut l = SendLoop { generation: 0, last_source: None, offset: 500 };
    assert_eq!(l.rewrite(1000), 1500);
    assert_eq!(l.rewrite(4000), 4500);
    assert_eq!(l.rewrite(3000), 3500);
    let jump = 4000 + SOURCE_SWITCH_GAP + 1;
    assert_eq!(l.rewrite(jump), 4500 + SOURCE_SWITCH_STEP);
    assert_eq!(l.rewrite(jump + 3000), 4500 + SOURCE_SWITCH_STEP + 3000);
}

#[test]
fn wrapping_for_retransmission_is_undone() {
    let mut header = RtpHeader::new(96, 42, 1000, 12345);
    header.marker = true;
    let original = RtpPacket { header, payload: vec![9, 8, 7], padding_len: 0 };
    let config = RtxSenderConfig { rtx_ssrc: 67890, rtx_payload_type: 97 };
    let wrapped = wrap_rtx_packet(&original, &config, 5);
    assert_eq!(wrapped.header.ssrc, 67890);
    assert_eq!(wrapped.header.payload_type, 97);
    assert_eq!(wrapped.header.sequence_number, 5);
    assert_eq!(wrapped.payload, vec![0, 42, 9, 8, 7]);
    let back = unwrap_rtx_packet(&wrapped, 12345, 96).unwrap();
    assert_eq!(back.header.sequence_number, 42);
    assert_eq!(back.header.payload_type, 96);
    assert_eq!(back.header.timestamp, 1000);
    assert!(back.header.marker);
    assert_eq!(back.payload, vec![9, 8, 7]);
}

#[test]
fn lost_packets_leave_on_the_retransmission_stream() {
    let mut handler = DefaultRtpSenderNackHandler::with_first_rtx_sequence(8, 65535);
    handler.set_rtx(Some(RtxSenderConfig { rtx_ssrc: 9, rtx_payload_type: 97 }));
    handler.on_packet_sent(&packet(96, 1, 0, 5));
    handler.on_packet_sent(&packet(96, 2, 0, 5));
    let nack = GenericNack { sender_ssrc: 0, media_ssrc: 5, lost_packets: vec![1, 2, 3] };
    let out = handler.on_nack(&nack, 0);
    assert_eq!(out.len(), 2);
    assert_eq!(out[0].header.ssrc, 9);
    assert_eq!(out[0].header.payload_type, 97);
    assert_eq!(out[0].header.sequence_number, 65535);
    assert_eq!(out[1].header.sequence_number, 0);
    assert_eq!(handler.get_nack_count(), 3);
}

#[test]
fn requests_need_a_transport() {
    let mut r = RtpReceiver::new(MediaKind::Video, 7);
    assert!(matches!(r.send_nack(vec![1]), Err(RtcError::InvalidState(_))));
    assert!(matches!(r.request_key_frame(), Err(RtcError::InvalidState(_))));
    r.set_transport(3, false, &None);
    r.set_feedback_ssrc(11);
    let (transport, nack) = r.send_nack(vec![1, 2]).unwrap();
    assert_eq!(transport, 3);
    assert_eq!(nack.sender_ssrc, 11);
    assert_eq!(nack.lost_packets, vec![1, 2]);
}

#[test]
fn packets_sent_elsewhere_move_the_counters_on() {
    let mut s = sender();
    s.note_external_packet(700, 16000, 160);
    assert_eq!(s.next_sequence_number(), 701);
    assert_eq!(s.last_rtp_timestamp(), 16000);
    assert_eq!(s.packets_sent(), 1);
    assert_eq!(s.octets_sent(), 160);
    s.note_external_packet(65535, 16160, 160);
    assert_eq!(s.next_sequence_number(), 0);
}

#[test]
fn key_frames_are_asked_of_the_stream_that_is_known() {
    let mut r = RtpReceiver::new(MediaKind::Video, 7);
    assert!(r.on_key_frame_request(None).is_none());
    r.set_transport(3, false, &None);
    r.set_feedback_ssrc(11);
    let (transport, pli) = r.on_key_frame_request(None).unwrap();
    assert_eq!(transport, 3);
    assert_eq!(pli.sender_ssrc, 11);
    assert_eq!(pli.media_ssrc, 7);
    assert!(r.on_key_frame_request(Some("hi")).is_none());
    let (_, fir, pli) = r.request_key_frame().unwrap();
    assert_eq!(fir.requests.len(), 1);
    assert_eq!(fir.requests[0].ssrc, 7);
    assert_eq!(pli.media_ssrc, 7);
}

#[test]
fn codecs_are_looked_up_by_payload_type() {
    let mut r = RtpReceiver::new(MediaKind::Audio, 0);
    r.set_payload_map(HashMap::from([(8u8, pcma())]));
    assert_eq!(r.codec_params_for_payload_type(8).name, "PCMA");
    assert_eq!(r.clock_rate_for_payload_type(8), 8000);
}

#[test]
fn an_application_may_change_what_it_wants() {
    let mut t = RtpTransceiver::new(1, MediaKind::Audio, TransceiverDirection::SendRecv);
    t.set_direction(TransceiverDirection::SendOnly);
    assert_eq!(t.direction(), TransceiverDirection::SendOnly);
    assert_eq!(t.desired_direction(), TransceiverDirection::SendOnly);
    t.set_remote_direction(TransceiverDirection::Inactive);
    assert_eq!(t.direction(), TransceiverDirection::Inactive);
    assert_eq!(t.desired_direction(), TransceiverDirection::SendOnly);
}

#[test]
fn a_store_that_is_over_its_size_shrinks_to_it() {
    let mut buffer = NackSendBuffer::with_capacity(8);
    for seq in 1..=5u16 {
        buffer.push(packet(96, seq, 0, 5), 8);
    }
    assert_eq!(buffer.len(), 5);
    buffer.push(packet(96, 6, 0, 5), 2);
    assert_eq!(buffer.len(), 2);
    assert!(buffer.get(4).is_none());
    assert!(buffer.get(5).is_some());
    assert!(buffer.get(6).is_some());
    buffer.push(packet(96, 7, 0, 5), 0);
    assert_eq!(buffer.len(), 0);
    assert!(buffer.get(7).is_none());
}

#[test]
fn requests_that_are_turned_down_are_counted() {
    let mut handler = DefaultRtpSenderNackHandler::new(8);
    for seq in 1..=3u16 {
        handler.on_packet_sent(&packet(96, seq, 0, 5));
    }
    let out = handler.packets_for_nack(&vec![2, 9, 2, 1, 9, 2], 0);
    let seqs: Vec<u16> = out.iter().map(|p| p.header.sequence_number).collect();
    assert_eq!(seqs, vec![2, 1]);
    assert_eq!(handler.get_suppressed_count(), 3);
    let out = handler.packets_for_nack(&vec![1, 2, 3, 1], NACK_RESEND_COOLDOWN - 1);
    assert_eq!(out.len(), 1);
    assert_eq!(out[0].header.sequence_number, 3);
    assert_eq!(handler.get_suppressed_count(), 6);
    assert_eq!(handler.packets_for_nack(&vec![1, 2], NACK_RESEND_COOLDOWN).len(), 2);
    assert_eq!(handler.get_suppressed_count(), 6);
    assert_eq!(handler.buffered_packet_count(), 3);
}

#[test]
fn every_handler_of_a_sender_answers() {
    let mut s = RtpSender::builder("track", 5).params(pcma()).nack(1).nack(8).build();
    let mut l = s.set_transport(1).unwrap();
    assert!(l.last_source.is_none());
    let first = s.next_sequence_number();
    for k in 0..2 {
        s.on_sample(&mut l, sample(k * 160));
    }
    let lost = vec![first, first.wrapping_add(1)];
    let nack =
        RtcpPacket::GenericNack(GenericNack { sender_ssrc: 0, media_ssrc: 5, lost_packets: lost });
    let config = RtxSenderConfig { rtx_ssrc: 9, rtx_payload_type: 97 };
    assert!(s.set_rtx(Some(config)));
    let out = s.on_rtcp(&nack, 0);
    assert_eq!(out.len(), 3);
    assert_eq!(out[0].header.ssrc, 9);
    assert_eq!(out[1].header.ssrc, 5);
    assert_eq!(out[1].header.sequence_number, first);
    assert_eq!(out[2].header.sequence_number, first.wrapping_add(1));
    assert_eq!(s.nack_handler().unwrap().buffered_packet_count(), 1);
    assert_eq!(s.nack_handler().unwrap().get_nack_count(), 2);
    s.note_rtx_sent();
    assert_eq!(s.nack_handler().unwrap().get_rtx_sent_count(), 1);
}

#[test]
fn every_handler_of_a_receiver_asks() {
    let mut r = RtpReceiverBuilder::new(MediaKind::Audio, 5).nack().nack().build();
    r.set_feedback_ssrc(11);
    assert!(received(r.on_packet(None, packet(8, 1, 0, 5))).requests.is_empty());
    let frame = received(r.on_packet(None, packet(8, 4, 0, 5)));
    assert_eq!(frame.requests.len(), 2);
    for n in &frame.requests {
        assert_eq!(n.sender_ssrc, 11);
        assert_eq!(n.media_ssrc, 5);
        assert_eq!(n.lost_packets, vec![2, 3]);
    }
    let plain = RtpReceiverBuilder::new(MediaKind::Audio, 5).build();
    assert!(plain.nack_handler().is_none());
}

#[test]
fn a_request_is_sent_in_the_name_of_the_sender() {
    let mut r = RtpReceiver::new(MediaKind::Audio, 5);
    let mut nack = GenericNack { sender_ssrc: 3, media_ssrc: 5, lost_packets: vec![1] };
    r.address_request(&mut nack);
    assert_eq!(nack.sender_ssrc, 3);
    r.set_feedback_ssrc(11);
    r.address_request(&mut nack);
    assert_eq!(nack.sender_ssrc, 11);
    assert_eq!(nack.lost_packets, vec![1]);
}

#[test]
fn a_receiver_with_codecs_of_its_own_keeps_them() {
    let other = RtpCodecParameters { clock_rate: 16000, ..pcma() };
    let mut t = RtpTransceiver::new_for_test(MediaKind::Audio, TransceiverDirection::RecvOnly);
    let own = RtpReceiverBuilder::new(MediaKind::Audio, 1)
        .payload_map(HashMap::from([(8u8, other)]))
        .build();
    t.set_receiver(Some(own));
    t.update_payload_map(HashMap::from([(8u8, pcma())]));
    assert_eq!(t.receiver_mut().unwrap().clock_rate_for_payload_type(8), 16000);
    assert_eq!(t.get_payload_map().get(&8).unwrap().clock_rate, 8000);
    let shared = RtpReceiverBuilder::new(MediaKind::Audio, 1).shared_payload_map().build();
    t.set_receiver(Some(shared));
    assert_eq!(t.receiver_mut().unwrap().clock_rate_for_payload_type(8), 8000);
}
