use rustrtc::action::Action;
use rustrtc::address::bundle_tag_mid;
use rustrtc::address::host_of_connection;
use rustrtc::address::parse_rtcp_attribute;
use rustrtc::address::remote_rtcp_addr_from_media_section;
use rustrtc::address::sdp_has_bundle;
use rustrtc::address::unspecified_address;
use rustrtc::address::HostTable;
use rustrtc::address::IpAddress;
use rustrtc::address::SocketAddress;
use rustrtc::apt::append_rtx_to_section;
use rustrtc::apt::extract_rtx_apt_map_from_attrs;
use rustrtc::apt::primary_rtx_payload_type;
use rustrtc::apt::rtx_pt_for_primary;
use rustrtc::apt::section_has_rtx;
use rustrtc::apt::strip_rtx_from_section;
use rustrtc::capability::claim_free_extmap_id;
use rustrtc::codec::extract_extmap;
use rustrtc::codec::extract_payload_map;
use rustrtc::codec::extract_ssrc_from_section;
use rustrtc::codec::find_extension_id;
use rustrtc::codec::iana_static_rtp_params;
use rustrtc::codec::pick_sender_codec_params;
use rustrtc::codec::RtpCodecParameters;
use rustrtc::config::RtcConfiguration;
use rustrtc::config::TransportMode;
use rustrtc::connection::gathering::add_lines;
use rustrtc::connection::transports::received_rtp_packets;
use rustrtc::describe::default_origin;
use rustrtc::describe::plan_answer;
use rustrtc::direction::Direction;
use rustrtc::direction::TransceiverDirection;
use rustrtc::error::RtcError;
use rustrtc::local::apply_send_directions;
use rustrtc::matching::matched_rtp_media_sections;
use rustrtc::nack::DefaultRtpReceiverNackHandler;
use rustrtc::negotiate::attach_transceiver;
use rustrtc::negotiate::take_section;
use rustrtc::order::compare_mids;
use rustrtc::order::order_by_mid;
use rustrtc::order::text_before;
use rustrtc::registry::drop_transports;
use rustrtc::registry::find_transport;
use rustrtc::registry::set_transport;
use rustrtc::remote::check_fingerprint;
use rustrtc::remote::next_mid_after;
use rustrtc::remote::settle_role;
use rustrtc::rtp::RtpHeader;
use rustrtc::rtp::RtpPacket;
use rustrtc::sdes::parse_mki;
use rustrtc::sdes::parse_sdes_key_params_full;
use rustrtc::sdes::setup_sdes_keys;
use rustrtc::sdp::Attribute;
use rustrtc::sdp::MediaKind;
use rustrtc::sdp::MediaSection;
use rustrtc::sdp::SdpType;
use rustrtc::sdp::SessionDescription;
use rustrtc::sender::RtpSender;
use rustrtc::sender::SendLoop;
use rustrtc::signaling::next_local_state;
use rustrtc::signaling::next_remote_state;
use rustrtc::state::SignalingState;
use rustrtc::text::parse_u8;
use rustrtc::text::split_words;
use rustrtc::transceiver::RtpTransceiver;
use std::collections::HashMap;
use std::collections::HashSet;

const ALL: [TransceiverDirection; 4] = [
    TransceiverDirection::SendRecv,
    TransceiverDirection::SendOnly,
    TransceiverDirection::RecvOnly,
    TransceiverDirection::Inactive,
];

fn ipv4(a: u8, b: u8, c: u8, d: u8) -> IpAddress {
    let bits = ((a as u128) << 24) | ((b as u128) << 16) | ((c as u128) << 8) | d as u128;
    IpAddress { v6: false, bits }
}

fn text_of(e: RtcError) -> String {
    match e {
        RtcError::InvalidState(t) => format!("state: {t}"),
        RtcError::InvalidConfiguration(t) => format!("configuration: {t}"),
        RtcError::Internal(t) => format!("internal: {t}"),
        RtcError::Transport(t) => format!("transport: {t}"),
        RtcError::NotImplemented(t) => format!("missing: {t}"),
    }
}

fn attribute(key: &str, value: &str) -> Attribute {
    Attribute::new(key, Some(value.to_string()))
}

fn section(kind: MediaKind, mid: &str, formats: &[&str], lines: &[(&str, &str)]) -> MediaSection {
    let mut s = MediaSection::new(kind, mid.to_string());
    s.formats = formats.iter().map(|f| f.to_string()).collect();
    s.attributes = lines.iter().map(|(k, v)| attribute(k, v)).collect();
    s
}

fn described(sdp_type: SdpType, sections: Vec<MediaSection>) -> SessionDescription {
    let mut d = SessionDescription::new(sdp_type);
    d.media_sections = sections;
    d
}

fn codec(payload_type: u8, name: &str, clock_rate: u32) -> RtpCodecParameters {
    RtpCodecParameters { payload_type, name: name.to_string(), clock_rate, channels: 1 }
}

fn transceiver(id: u64, kind: MediaKind, mid: &str) -> RtpTransceiver {
    let mut t = RtpTransceiver::new(id, kind, TransceiverDirection::SendRecv);
    if !mid.is_empty() {
        t.set_mid(mid.to_string());
    }
    t
}

#[test]
fn answering_swaps_the_roles() {
    for d in ALL {
        let a = d.answer_direction();
        assert_eq!(a.sends(), d.receives());
        assert_eq!(a.receives(), d.sends());
        assert_eq!(a.answer_direction(), d);
    }
    assert_eq!(TransceiverDirection::SendOnly.answer_direction(), TransceiverDirection::RecvOnly);
}

#[test]
fn an_intersection_does_what_both_do() {
    for a in ALL {
        for b in ALL {
            let c = a.intersect(b);
            assert_eq!(c.sends(), a.sends() && b.sends());
            assert_eq!(c.receives(), a.receives() && b.receives());
        }
        assert_eq!(a.without_sending().receives(), a.receives());
        assert!(!a.without_sending().sends());
    }
}

#[test]
fn directions_convert_back_and_forth() {
    for d in ALL {
        assert_eq!(TransceiverDirection::from(Direction::from(d)), d);
    }
}

#[test]
fn mids_are_ordered_by_number() {
    assert!(compare_mids("2", "10"));
    assert!(!compare_mids("10", "2"));
    assert!(text_before("10", "2"));
    assert!(text_before("audio", "video"));
    let ts = vec![
        transceiver(1, MediaKind::Audio, "10"),
        transceiver(2, MediaKind::Video, "2"),
        transceiver(3, MediaKind::Video, "0"),
    ];
    assert_eq!(order_by_mid(&ts), vec![2, 1, 0]);
}

#[test]
fn sections_and_transceivers_are_matched_one_to_one() {
    let ts = vec![
        transceiver(1, MediaKind::Audio, ""),
        transceiver(2, MediaKind::Video, ""),
        transceiver(3, MediaKind::Video, "7"),
    ];
    let d = described(
        SdpType::Offer,
        vec![
            section(MediaKind::Video, "", &[], &[]),
            section(MediaKind::Audio, "", &[], &[]),
            section(MediaKind::Video, "7", &[], &[]),
            section(MediaKind::Audio, "", &[], &[]),
        ],
    );
    assert_eq!(matched_rtp_media_sections(&ts, &d), vec![(1, 0), (0, 1), (2, 2)]);
}

#[test]
fn a_section_is_left_out_once_its_kind_is_used_up() {
    let ts = vec![RtpTransceiver::new_for_test(MediaKind::Audio, TransceiverDirection::SendRecv)];
    let mut d = SessionDescription::new(SdpType::Offer);
    for kind in [MediaKind::Application, MediaKind::Audio, MediaKind::Audio, MediaKind::Video] {
        d.media_sections.push(MediaSection::new(kind, String::new()));
    }
    assert_eq!(matched_rtp_media_sections(&ts, &d), vec![(0, 1)]);
}

#[test]
fn sending_takes_both_descriptions() {
    for ours in ALL {
        for theirs in ALL {
            let mut ts = vec![transceiver(1, MediaKind::Audio, "0")];
            let mut a = section(MediaKind::Audio, "0", &[], &[]);
            a.direction = Direction::from(ours);
            let mut b = section(MediaKind::Audio, "0", &[], &[]);
            b.direction = Direction::from(theirs);
            apply_send_directions(
                &mut ts,
                &described(SdpType::Offer, vec![a]),
                &described(SdpType::Answer, vec![b]),
            );
            assert_eq!(ts[0].send_permitted(), ours.sends() && theirs.receives());
        }
    }
}

#[test]
fn sending_stays_where_a_section_is_missing() {
    for permitted in [true, false] {
        let mut ts = vec![
            transceiver(1, MediaKind::Audio, "0"),
            transceiver(2, MediaKind::Video, "1"),
        ];
        for t in &mut ts {
            t.set_send_permitted(permitted);
        }
        let mut a = section(MediaKind::Audio, "0", &[], &[]);
        a.direction = Direction::Inactive;
        let video = section(MediaKind::Video, "1", &[], &[]);
        apply_send_directions(
            &mut ts,
            &described(SdpType::Offer, vec![a.clone(), video]),
            &described(SdpType::Answer, vec![a]),
        );
        assert!(!ts[0].send_permitted());
        assert_eq!(ts[1].send_permitted(), permitted);
    }
}

#[test]
fn descriptions_are_refused_out_of_turn() {
    let refused = [
        (
            next_local_state(SignalingState::HaveLocalOffer, SdpType::Offer),
            "state: set_local_description(offer) requires stable signaling state",
        ),
        (
            next_local_state(SignalingState::Stable, SdpType::Answer),
            "state: set_local_description(answer) requires remote offer",
        ),
        (
            next_local_state(SignalingState::HaveLocalOffer, SdpType::Pranswer),
            "state: set_local_description(pranswer) requires remote offer",
        ),
        (next_local_state(SignalingState::Stable, SdpType::Rollback), "missing: rollback"),
        (
            next_remote_state(SignalingState::HaveRemoteOffer, SdpType::Offer),
            "state: set_remote_description(offer) requires stable signaling state",
        ),
        (
            next_remote_state(SignalingState::Stable, SdpType::Answer),
            "state: set_remote_description(answer) requires local offer",
        ),
        (
            next_remote_state(SignalingState::Closed, SdpType::Pranswer),
            "state: set_remote_description(pranswer) requires local offer",
        ),
        (next_remote_state(SignalingState::Stable, SdpType::Rollback), "missing: rollback"),
    ];
    for (r, text) in refused {
        assert_eq!(text_of(r.unwrap_err()), text);
    }
}

#[test]
fn exchanges_end_in_the_stable_state() {
    let a = next_local_state(SignalingState::Stable, SdpType::Offer).unwrap();
    assert_eq!(a, SignalingState::HaveLocalOffer);
    let b = next_remote_state(a, SdpType::Pranswer).unwrap();
    assert_eq!(b, SignalingState::HaveLocalOffer);
    assert_eq!(next_remote_state(b, SdpType::Answer).unwrap(), SignalingState::Stable);
    let c = next_remote_state(SignalingState::Stable, SdpType::Offer).unwrap();
    assert_eq!(c, SignalingState::HaveRemoteOffer);
    assert_eq!(next_local_state(c, SdpType::Answer).unwrap(), SignalingState::Stable);
}

#[test]
fn rtcp_goes_where_the_section_says() {
    let rtp = SocketAddress { ip: ipv4(10, 0, 0, 1), port: 4000 };
    let mut hosts = HostTable::new();
    hosts.add("10.0.0.9".to_string(), ipv4(10, 0, 0, 9));
    assert_eq!(hosts.resolve("10.0.0.9"), Some(ipv4(10, 0, 0, 9)));
    assert_eq!(hosts.resolve("10.0.0.8"), None);

    let mut muxed = section(MediaKind::Audio, "0", &["8"], &[]);
    muxed.attributes.push(Attribute::new("rtcp-mux", None));
    assert_eq!(remote_rtcp_addr_from_media_section(&muxed, rtp, &hosts), None);

    let plain = section(MediaKind::Audio, "0", &["8"], &[]);
    assert_eq!(
        remote_rtcp_addr_from_media_section(&plain, rtp, &hosts),
        Some(SocketAddress { ip: rtp.ip, port: 4001 })
    );

    let named = section(MediaKind::Audio, "0", &["8"], &[("rtcp", "5005 IN IP4 10.0.0.9")]);
    assert_eq!(
        remote_rtcp_addr_from_media_section(&named, rtp, &hosts),
        Some(SocketAddress { ip: ipv4(10, 0, 0, 9), port: 5005 })
    );
    assert_eq!(
        parse_rtcp_attribute(&attribute("rtcp", "6006"), rtp.ip, &hosts),
        Some(SocketAddress { ip: rtp.ip, port: 6006 })
    );
    assert_eq!(parse_rtcp_attribute(&attribute("rtcp", "none"), rtp.ip, &hosts), None);
    assert_eq!(unspecified_address(), SocketAddress { ip: ipv4(0, 0, 0, 0), port: 0 });
}

#[test]
fn connection_lines_name_hosts() {
    assert_eq!(host_of_connection("IN IP4 10.0.0.1", false).as_deref(), Some("10.0.0.1"));
    assert_eq!(host_of_connection("IN IP4", false), None);
}

#[test]
fn groups_name_the_bundle() {
    let mut d = described(SdpType::Offer, Vec::new());
    assert!(!sdp_has_bundle(&d));
    assert_eq!(bundle_tag_mid(&d), None);
    d.session.attributes.push(attribute("group", "BUNDLE 1 0"));
    assert!(sdp_has_bundle(&d));
    assert_eq!(bundle_tag_mid(&d).as_deref(), Some("1"));
}

#[test]
fn own_transports_are_found_and_given_up() {
    let mut media: Vec<(u64, u64)> = Vec::new();
    set_transport(&mut media, 7, 70);
    set_transport(&mut media, 8, 80);
    set_transport(&mut media, 7, 71);
    assert_eq!(find_transport(&media, 7), Some(71));
    assert_eq!(find_transport(&media, 8), Some(80));
    assert_eq!(find_transport(&media, 9), None);
    let mut ice = vec![7, 8];
    let mut list = Vec::new();
    drop_transports(&mut media, &mut ice, &vec![7], &mut list);
    assert_eq!(find_transport(&media, 7), None);
    assert_eq!(find_transport(&media, 8), Some(80));
    assert_eq!(ice, vec![8]);
    assert!(list.iter().any(|a| matches!(a, Action::ClearListeners { transport: 71 })));
    assert!(list.iter().any(|a| matches!(a, Action::StopIce { transceiver: 7 })));
}

#[test]
fn extension_ids_are_claimed_once() {
    let mut used: HashSet<u8> = HashSet::from([3]);
    assert_eq!(claim_free_extmap_id(&mut used, 3), 1);
    assert_eq!(claim_free_extmap_id(&mut used, 4), 4);
    assert_eq!(claim_free_extmap_id(&mut used, 1), 2);
    assert_eq!(used.len(), 4);
    let mut full: HashSet<u8> = (1..=14).collect();
    assert_eq!(claim_free_extmap_id(&mut full, 9), 9);
}

#[test]
fn extensions_are_read_from_extmap_lines() {
    let s = section(
        MediaKind::Audio,
        "0",
        &[],
        &[("extmap", "4 urn:ietf:params:rtp-hdrext:sdes:mid"), ("extmap", "x urn:none")],
    );
    let m = extract_extmap(&s);
    assert_eq!(m.len(), 1);
    assert_eq!(find_extension_id(&m, "urn:ietf:params:rtp-hdrext:sdes:mid"), Some(4));
    assert_eq!(find_extension_id(&m, "urn:none"), None);
}

#[test]
fn a_sender_keeps_its_codec_where_it_is_offered() {
    let s = section(
        MediaKind::Audio,
        "0",
        &["101", "0", "8"],
        &[("rtpmap", "101 telephone-event/8000")],
    );
    let m = extract_payload_map(&s);
    assert_eq!(m.len(), 3);
    assert_eq!(pick_sender_codec_params(&s, &m, &codec(96, "pcma", 8000)).unwrap().payload_type, 8);
    assert_eq!(pick_sender_codec_params(&s, &m, &codec(96, "G729", 8000)).unwrap().payload_type, 0);
    let none = section(MediaKind::Audio, "0", &["101"], &[("rtpmap", "101 telephone-event/8000")]);
    let m = extract_payload_map(&none);
    assert!(pick_sender_codec_params(&none, &m, &codec(8, "PCMA", 8000)).is_none());
    assert_eq!(iana_static_rtp_params(9).unwrap().name, "G722");
    assert!(iana_static_rtp_params(96).is_none());
}

#[test]
fn streams_are_read_from_ssrc_lines() {
    let s = section(
        MediaKind::Audio,
        "0",
        &[],
        &[("ssrc", "oops"), ("ssrc", "4711 cname:x"), ("ssrc", "4712 cname:x")],
    );
    assert_eq!(extract_ssrc_from_section(&s), Some(4711));
    assert_eq!(extract_ssrc_from_section(&section(MediaKind::Audio, "0", &[], &[])), None);
}

#[test]
fn retransmission_types_come_and_go() {
    let mut s = section(MediaKind::Video, "0", &["96"], &[("rtpmap", "96 VP8/90000")]);
    assert!(!section_has_rtx(&s));
    append_rtx_to_section(&mut s, 96, 97, 90000);
    assert!(section_has_rtx(&s));
    assert_eq!(s.formats, vec!["96", "97"]);
    assert_eq!(primary_rtx_payload_type(&s), Some(97));
    let m = extract_rtx_apt_map_from_attrs(&s.attributes);
    assert_eq!(m, HashMap::from([(97, 96)]));
    assert_eq!(rtx_pt_for_primary(&m, 96), Some(97));
    assert_eq!(rtx_pt_for_primary(&m, 97), None);
    strip_rtx_from_section(&mut s);
    assert!(!section_has_rtx(&s));
    assert_eq!(s.formats, vec!["96"]);
    assert!(s.attributes.iter().any(|a| a.value.as_deref() == Some("96 VP8/90000")));
    assert!(extract_rtx_apt_map_from_attrs(&s.attributes).is_empty());
    let lines = s.attributes.len();
    strip_rtx_from_section(&mut s);
    assert_eq!(s.formats, vec!["96"]);
    assert_eq!(s.attributes.len(), lines);
}

#[test]
fn equal_mids_keep_their_order() {
    let ts = vec![
        transceiver(1, MediaKind::Audio, "4"),
        transceiver(2, MediaKind::Audio, "2"),
        transceiver(3, MediaKind::Video, "4"),
        transceiver(4, MediaKind::Video, "2"),
    ];
    assert_eq!(order_by_mid(&ts), vec![1, 3, 0, 2]);
}

#[test]
fn key_params_are_refused_with_a_reason() {
    let cases = [
        ("clear:abc", "internal: Unsupported key params"),
        ("inline:", "internal: Empty key params after 'inline:' prefix"),
        ("inline:|2^31", "internal: Empty key params after 'inline:' prefix"),
    ];
    for (params, text) in cases {
        assert_eq!(text_of(parse_sdes_key_params_full(params).unwrap_err()), text);
    }
    let bad = text_of(parse_sdes_key_params_full("inline:***").unwrap_err());
    assert!(bad.starts_with("internal: Invalid base64 key: "), "{bad}");
}

#[test]
fn mkis_are_refused_with_a_reason() {
    let cases = [
        ("1", "internal: Invalid MKI params '1', expected <value>:<length>"),
        ("1:x", "internal: Invalid MKI length 'x'"),
        ("1:0", "internal: MKI length 0 out of range 1..=128"),
        ("1:129", "internal: MKI length 129 out of range 1..=128"),
        ("x:1", "internal: Invalid MKI value 'x'"),
        ("256:1", "internal: MKI value 256 does not fit in 1 octets"),
        ("1:9", "internal: MKI value 1 does not fit in 9 octets"),
    ];
    for (raw, text) in cases {
        assert_eq!(text_of(parse_mki(raw).unwrap_err()), text);
    }
    assert_eq!(parse_mki("258:2").unwrap(), (vec![1, 2], 2));
    assert_eq!(parse_mki("0:9").unwrap(), (vec![0; 9], 9));
}

fn keyed(line: &str) -> Option<SessionDescription> {
    let s = section(MediaKind::Audio, "0", &["8"], &[("crypto", line)]);
    Some(described(SdpType::Offer, vec![s]))
}

const KEY: &str = "AAECAwQFBgcICQoLDA0ODxAREhMUFRYXGBkaGxwd";
const OTHER: &str = "HhscHR4fICEiIyQlJicoKSorLC0uLzAxMjM0NTY3";

#[test]
fn what_one_side_sends_with_the_other_receives_with() {
    let a = keyed(&format!("1 AES_CM_128_HMAC_SHA1_80 inline:{KEY}|2^31|1:1"));
    let b = keyed(&format!("1 AES_CM_128_HMAC_SHA1_80 inline:{OTHER}"));
    let x = setup_sdes_keys(&a, &b).unwrap();
    let y = setup_sdes_keys(&b, &a).unwrap();
    assert_eq!(x.tx_key, (0..16).collect::<Vec<u8>>());
    assert_eq!(x.tx_salt, (16..30).collect::<Vec<u8>>());
    assert_eq!(x.tx_key, y.rx_key);
    assert_eq!(x.tx_salt, y.rx_salt);
    assert_eq!(x.rx_key, y.tx_key);
    assert_eq!(x.rx_salt, y.tx_salt);
}

#[test]
fn keys_are_refused_with_a_reason() {
    let a = keyed(&format!("1 AES_CM_128_HMAC_SHA1_80 inline:{KEY}"));
    let cases = [
        (None, "internal: Missing crypto attributes for SDES"),
        (
            keyed(&format!("1 AES_CM_128_HMAC_SHA1_32 inline:{OTHER}")),
            "internal: Crypto suite mismatch",
        ),
        (keyed("1 AES_CM_128_HMAC_SHA1_80 inline:AAAA"), "internal: Invalid key length"),
    ];
    for (b, text) in cases {
        assert_eq!(text_of(setup_sdes_keys(&a, &b).unwrap_err()), text);
    }
    let f8 = keyed(&format!("1 F8_128_HMAC_SHA1_80 inline:{KEY}"));
    assert_eq!(
        text_of(setup_sdes_keys(&f8, &f8).unwrap_err()),
        "internal: Unsupported crypto suite: F8_128_HMAC_SHA1_80"
    );
}

#[test]
fn fingerprints_are_refused_with_a_reason() {
    let none = described(SdpType::Offer, vec![section(MediaKind::Audio, "0", &[], &[])]);
    assert_eq!(
        text_of(check_fingerprint(TransportMode::WebRtc, &none).unwrap_err()),
        "configuration: remote SDP in WebRTC mode must contain a DTLS fingerprint"
    );
    assert_eq!(check_fingerprint(TransportMode::Rtp, &none).unwrap(), None);
    let old = described(
        SdpType::Offer,
        vec![section(MediaKind::Audio, "0", &[], &[("fingerprint", "sha-1 AA:BB")])],
    );
    assert_eq!(
        text_of(check_fingerprint(TransportMode::WebRtc, &old).unwrap_err()),
        "configuration: unsupported DTLS fingerprint algorithm: sha-1"
    );
}

#[test]
fn the_answerer_takes_the_other_dtls_role() {
    let of = |setup: &str| {
        described(SdpType::Offer, vec![section(MediaKind::Audio, "0", &[], &[("setup", setup)])])
    };
    assert_eq!(settle_role(None, false, &of("active")), Some(false));
    assert_eq!(settle_role(None, false, &of("passive")), Some(true));
    assert_eq!(settle_role(None, false, &of("actpass")), Some(false));
    assert_eq!(settle_role(Some(true), false, &of("actpass")), Some(true));
    assert_eq!(settle_role(None, true, &of("active")), Some(true));
}

#[test]
fn remote_mids_are_not_given_out_again() {
    let d = described(
        SdpType::Offer,
        vec![section(MediaKind::Audio, "4", &[], &[]), section(MediaKind::Video, "x", &[], &[])],
    );
    assert_eq!(next_mid_after(2, &d), 5);
    assert_eq!(next_mid_after(9, &d), 9);
}

#[test]
fn an_answer_has_the_sections_of_the_offer() {
    let ts = vec![
        transceiver(1, MediaKind::Audio, "b"),
        transceiver(2, MediaKind::Video, "a"),
        transceiver(3, MediaKind::Video, "c"),
    ];
    let offer = described(
        SdpType::Offer,
        vec![section(MediaKind::Video, "a", &[], &[]), section(MediaKind::Audio, "b", &[], &[])],
    );
    let slots = plan_answer(&ts, &offer).unwrap();
    assert_eq!(slots.iter().map(|s| s.index).collect::<Vec<usize>>(), vec![1, 0]);
    let unknown = described(SdpType::Offer, vec![section(MediaKind::Audio, "z", &[], &[])]);
    assert_eq!(
        text_of(plan_answer(&ts, &unknown).map(|_| ()).unwrap_err()),
        "internal: No transceiver found for mid z in answer generation"
    );
}

#[test]
fn a_first_origin_names_the_time() {
    let o = default_origin(1000, &Some("10.1.2.3".to_string()));
    assert_eq!(o.session_id, 1000);
    assert_eq!(o.unicast_address, "10.1.2.3");
}

#[test]
fn what_we_want_survives_remote_descriptions() {
    let mut t = transceiver(1, MediaKind::Audio, "0");
    let mut list = Vec::new();
    let mut s = section(MediaKind::Audio, "0", &["8"], &[]);
    s.direction = Direction::Inactive;
    take_section(&mut t, &s, &mut list);
    t.set_remote_direction(TransceiverDirection::Inactive);
    assert_eq!(t.desired_direction(), TransceiverDirection::SendRecv);
    t.record_offered_direction(TransceiverDirection::RecvOnly);
    assert_eq!(t.desired_direction(), TransceiverDirection::SendRecv);
    t.record_offered_direction(TransceiverDirection::SendOnly);
    assert_eq!(t.desired_direction(), TransceiverDirection::SendOnly);
}

fn plain_sender() -> RtpSender {
    RtpSender::builder("track", 5).stream_id("s".to_string()).params(codec(8, "PCMA", 8000)).build()
}

#[test]
fn a_late_sender_is_set_up_like_one_that_was_there() {
    let mut t = transceiver(1, MediaKind::Audio, "0");
    t.set_send_permitted(false);
    t.update_extmap(HashMap::from([(4u8, "urn:ietf:params:rtp-hdrext:sdes:mid".to_string())]));
    t.set_rtp_transport(Some(3));
    let started = t.set_sender(Some(plain_sender()));
    assert!(started.is_some());
    let s = t.sender().unwrap();
    assert!(!s.send_enabled());
    assert_eq!(s.sdes_mid(), Some((4, "0".to_string())));
    assert_eq!(s.transport(), Some(3));
    t.set_send_permitted(true);
    assert!(t.sender().unwrap().send_enabled());
}

#[test]
fn attaching_again_starts_nothing() {
    let mut t = transceiver(1, MediaKind::Audio, "0");
    t.set_sender(Some(plain_sender()));
    let mut list = Vec::new();
    attach_transceiver(&mut t, 9, &mut list);
    assert!(list.iter().any(|a| matches!(a, Action::StartSendLoop { transceiver: 1, .. })));
    let mut again = Vec::new();
    attach_transceiver(&mut t, 9, &mut again);
    assert!(!again.iter().any(|a| matches!(a, Action::StartSendLoop { .. })));
    assert_eq!(t.sender().unwrap().transport(), Some(9));
}

#[test]
fn a_late_sample_keeps_its_place() {
    let mut l = SendLoop { generation: 0, last_source: Some(5000), offset: 100 };
    assert_eq!(l.rewrite(4900), 5000);
    assert_eq!(l.last_source, Some(5000));
    assert_eq!(l.rewrite(5160), 5260);
    assert_eq!(l.last_source, Some(5160));
}

#[test]
fn a_stale_packet_asks_for_nothing() {
    let packet = |seq: u16| RtpPacket::new(RtpHeader::new(96, seq, 0, 5), Vec::new());
    let mut h = DefaultRtpReceiverNackHandler::new();
    assert!(h.on_packet_received(&packet(10)).is_none());
    let nack = h.on_packet_received(&packet(13)).unwrap();
    assert_eq!(nack.lost_packets, vec![11, 12]);
    assert_eq!(h.get_nack_count(), 2);
    assert!(h.on_packet_received(&packet(11)).is_none());
    assert_eq!(h.get_recovered_count(), 1);
    assert!(h.on_packet_received(&packet(11)).is_none());
    assert_eq!(h.get_recovered_count(), 1);
    assert!(h.on_packet_received(&packet(5)).is_none());
    assert!(h.on_packet_received(&packet(14)).is_none());
}

#[test]
fn gathered_candidates_are_written_once() {
    let mut list = vec![attribute("candidate", "one")];
    let lines = vec!["one".to_string(), "two".to_string()];
    add_lines(&mut list, &lines, true);
    add_lines(&mut list, &lines, true);
    let written: Vec<String> = list.iter().map(|a| a.key.clone()).collect();
    assert_eq!(written, vec!["candidate", "candidate", "end-of-candidates"]);
    assert_eq!(list[1].value.as_deref(), Some("two"));
}

#[test]
fn packets_of_all_transports_count() {
    assert_eq!(received_rtp_packets(&vec![3, 0, 4]), 7);
    assert_eq!(received_rtp_packets(&Vec::new()), 0);
}

#[test]
fn a_default_configuration_has_its_values() {
    let c = RtcConfiguration::default();
    assert_eq!(c.transport_mode, TransportMode::WebRtc);
    assert!(!c.is_direct());
    assert_eq!(c.sctp_port(), 5000);
    assert_eq!(c.ssrc_start, 10000);
    assert_eq!(c.nack_buffer_size, 200);
}

#[test]
fn words_and_numbers_are_read() {
    assert_eq!(split_words("  a\tb  c "), vec!["a", "b", "c"]);
    assert!(split_words(" ").is_empty());
    assert_eq!(parse_u8("255"), Some(255));
    assert_eq!(parse_u8("+7"), Some(7));
    assert_eq!(parse_u8("256"), None);
    assert_eq!(parse_u8(""), None);
}
