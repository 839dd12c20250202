use base64::engine::general_purpose::STANDARD as BASE64_STANDARD;
use base64::Engine;
use rustrtc::error::RtcError;
use rustrtc::ident::format_rtc_id;
use rustrtc::ident::random_rtc_id;
use rustrtc::sdes::dtls_export_length;
use rustrtc::sdes::generate_sdes_key_params;
use rustrtc::sdes::inline_key_params;
use rustrtc::sdes::map_crypto_suite;
use rustrtc::sdes::negotiate_sdes_mki;
use rustrtc::sdes::parse_sdes_key_params_full;
use rustrtc::sdes::setup_srtp_keys;
use rustrtc::sdes::srtp_profile_of_dtls;
use rustrtc::sdes::SdesKeyParams;
use rustrtc::sdes::SrtpProfile;

#[test]
fn test_sdes_key_generation_and_parsing() {
    let params = generate_sdes_key_params(SrtpProfile::Aes128Sha1_80);
    assert!(params.starts_with("inline:"));
    let parsed = parse_sdes_key_params_full(&params).expect("generated params parse");
    assert_eq!(parsed.key_salt.len(), 30);
    assert_eq!(parsed.lifetime, None);
    assert_eq!(parsed.mki, None);
    assert!(parse_sdes_key_params_full("invalid").is_err());
    assert!(parse_sdes_key_params_full("inline:invalid_base64").is_err());
}

#[test]
fn test_sdes_key_parsing_with_lifetime_and_mki() {
    let key_salt = BASE64_STANDARD.encode([0xABu8; 30]);
    let params = parse_sdes_key_params_full(&format!("inline:{key_salt}|2^31|1:1"))
        .expect("lifetime and MKI parse");
    assert_eq!(params.key_salt, vec![0xABu8; 30]);
    assert_eq!(params.lifetime.as_deref(), Some("2^31"));
    assert_eq!(params.mki_raw.as_deref(), Some("1:1"));
    assert_eq!(params.mki, Some((vec![0x01u8], 1)));

    let params = parse_sdes_key_params_full(&format!("inline:{key_salt}|2^31|258:2"))
        .expect("two octets of MKI parse");
    assert_eq!(params.mki, Some((vec![0x01u8, 0x02], 2)));

    let params = parse_sdes_key_params_full(&format!("inline:{key_salt}|nope"))
        .expect("a lifetime is taken as it stands");
    assert_eq!(params.lifetime.as_deref(), Some("nope"));
    assert_eq!(params.mki, None);
    assert!(parse_sdes_key_params_full(&format!("inline:{key_salt}|2^31|1:")).is_err());
    assert!(parse_sdes_key_params_full(&format!("inline:{key_salt}|2^31|1:0")).is_err());
    assert!(parse_sdes_key_params_full(&format!("inline:{key_salt}|2^31|1:300")).is_err());
    assert!(
        parse_sdes_key_params_full(&format!("inline:{key_salt}|2^31|123456789012:2")).is_err()
    );
    assert!(parse_sdes_key_params_full(&format!("inline:{key_salt}|2^31|x:1")).is_err());
}

fn sdes_params(key_params: &str) -> SdesKeyParams {
    parse_sdes_key_params_full(key_params).expect("key params parse")
}

#[test]
fn test_negotiate_sdes_mki_policy() {
    let base64_key = BASE64_STANDARD.encode([0x11u8; 30]);
    let bare = sdes_params(&format!("inline:{base64_key}"));
    let with_mki = sdes_params(&format!("inline:{base64_key}|2^31|1:1"));

    let mki = negotiate_sdes_mki(&with_mki, &with_mki);
    assert_eq!(mki.tx, None);
    assert_eq!(mki.rx_len, Some(1));

    let mki = negotiate_sdes_mki(&with_mki, &bare);
    assert_eq!(mki.tx, None);
    assert_eq!(mki.rx_len, None);

    let mki = negotiate_sdes_mki(&bare, &with_mki);
    assert_eq!(mki.tx, None);
    assert_eq!(mki.rx_len, Some(1));

    let mki = negotiate_sdes_mki(&bare, &bare);
    assert_eq!(mki.tx, None);
    assert_eq!(mki.rx_len, None);
}

#[test]
fn inline_keys_are_standard_base64() {
    let key: Vec<u8> = (0..30).collect();
    let text = inline_key_params(&key);
    assert_eq!(text, format!("inline:{}", BASE64_STANDARD.encode(&key)));
    assert_eq!(parse_sdes_key_params_full(&text).unwrap().key_salt, key);
}

#[test]
fn generated_keys_differ() {
    let a = generate_sdes_key_params(SrtpProfile::Aes128Sha1_80);
    let b = generate_sdes_key_params(SrtpProfile::Aes128Sha1_80);
    assert_ne!(a, b);
}

#[test]
fn suites_map_to_profiles() {
    assert_eq!(map_crypto_suite("AES_CM_128_HMAC_SHA1_80").unwrap(), SrtpProfile::Aes128Sha1_80);
    assert_eq!(map_crypto_suite("AES_CM_128_HMAC_SHA1_32").unwrap(), SrtpProfile::Aes128Sha1_32);
    assert_eq!(map_crypto_suite("AEAD_AES_128_GCM").unwrap(), SrtpProfile::AeadAes128Gcm);
    assert!(matches!(map_crypto_suite("F8_128_HMAC_SHA1_80"), Err(RtcError::Internal(_))));
}

#[test]
fn both_sides_of_a_handshake_split_the_material_alike() {
    assert_eq!(srtp_profile_of_dtls(Some(7)), SrtpProfile::AeadAes128Gcm);
    assert_eq!(srtp_profile_of_dtls(Some(2)), SrtpProfile::Aes128Sha1_32);
    assert_eq!(srtp_profile_of_dtls(Some(9)), SrtpProfile::Aes128Sha1_80);
    assert_eq!(srtp_profile_of_dtls(None), SrtpProfile::Aes128Sha1_80);
    let profile = SrtpProfile::Aes128Sha1_80;
    let n = dtls_export_length(profile);
    assert_eq!(n, 60);
    let material: Vec<u8> = (0..n as u8).collect();
    let client = setup_srtp_keys(profile, true, &material);
    let server = setup_srtp_keys(profile, false, &material);
    assert_eq!(client.tx_key, (0..16).collect::<Vec<u8>>());
    assert_eq!(client.rx_key, (16..32).collect::<Vec<u8>>());
    assert_eq!(client.tx_salt, (32..46).collect::<Vec<u8>>());
    assert_eq!(client.rx_salt, (46..60).collect::<Vec<u8>>());
    assert_eq!(client.tx_key, server.rx_key);
    assert_eq!(client.rx_salt, server.tx_salt);
}

#[test]
fn a_name_shows_its_octets() {
    assert_eq!(
        format_rtc_id(0x0011_2233, 0x4455_6677, 0x8899_aabb, 0xccdd_eeff),
        "00112233-4455-6677-8899-aabbccddeeff"
    );
}

#[test]
fn names_are_random_uuids() {
    let a = random_rtc_id();
    let b = random_rtc_id();
    assert_eq!(a.len(), 36);
    assert_ne!(a, b);
    for (i, c) in a.chars().enumerate() {
        match i {
            8 | 13 | 18 | 23 => assert_eq!(c, '-'),
            _ => assert!(c.is_ascii_hexdigit() && !c.is_ascii_uppercase()),
        }
    }
}
