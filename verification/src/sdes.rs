//! SDES keying (RFC 4568) and the split of DTLS-SRTP keying material.

use crate::error::RtcError;
use crate::error::RtcErrorView;
use crate::error::RtcResult;
use crate::outside::base64_bytes;
use crate::outside::base64_decoded;
use crate::outside::base64_encoded;
use crate::outside::base64_text;
use crate::outside::is_base64_char;
use crate::outside::octets;
use crate::outside::random_octets;
use crate::sdp::crypto_lines;
use crate::sdp::description_opt;
use crate::sdp::AttributeView;
use crate::sdp::CryptoAttribute;
use crate::sdp::CryptoView;
use crate::sdp::DescriptionView;
use crate::sdp::MediaSection;
use crate::sdp::SdpType;
use crate::sdp::SectionView;
use crate::sdp::SessionDescription;
use crate::text::chars_of;
use crate::text::decimal;
use crate::text::decimal_text;
use crate::text::has_prefix;
use crate::text::index_from;
use crate::text::index_from_bounds;
use crate::text::joined;
use crate::text::number;
use crate::text::parse_number;
use crate::text::pieces;
use crate::text::pieces_from;
use crate::text::same_text;
use crate::text::split_pieces;
use crate::text::starts_with;
use crate::text::text_opt;
use crate::text::texts;
use crate::text::trim_text;
use crate::text::trimmed;
use crate::text::words;
use vstd::prelude::*;

verus! {

/// The longest MKI that a packet can carry, in octets.
pub const MKI_MAX_LEN: usize = 128;

/// An SRTP protection profile.
#[derive(Clone, Copy, PartialEq, Eq, Structural, Debug)]
pub enum SrtpProfile {
    Aes128Sha1_80,
    Aes128Sha1_32,
    AeadAes128Gcm,
}

/// The length of a profile's master key.
pub open spec fn key_length(p: SrtpProfile) -> nat {
    16
}

/// The length of a profile's master salt.
pub open spec fn salt_length(p: SrtpProfile) -> nat {
    if p is AeadAes128Gcm {
        12
    } else {
        14
    }
}

impl SrtpProfile {
    /// The length of the master key.
    pub fn key_len(&self) -> (r: usize)
        ensures
            r == key_length(*self),
    {
        16
    }

    /// The length of the master salt.
    pub fn salt_len(&self) -> (r: usize)
        ensures
            r == salt_length(*self),
    {
        match self {
            SrtpProfile::AeadAes128Gcm => 12,
            _ => 14,
        }
    }
}

/// The profile that a crypto suite names.
pub open spec fn suite_profile(suite: Seq<char>) -> Option<SrtpProfile> {
    if suite == "AES_CM_128_HMAC_SHA1_80"@ {
        Some(SrtpProfile::Aes128Sha1_80)
    } else if suite == "AES_CM_128_HMAC_SHA1_32"@ {
        Some(SrtpProfile::Aes128Sha1_32)
    } else if suite == "AEAD_AES_128_GCM"@ {
        Some(SrtpProfile::AeadAes128Gcm)
    } else {
        None
    }
}

/// The error for a suite that is not supported.
pub open spec fn unsupported_suite(suite: Seq<char>) -> RtcErrorView {
    RtcErrorView::Internal("Unsupported crypto suite: "@ + suite)
}

/// The profile of a crypto suite.
pub fn map_crypto_suite(suite: &str) -> (r: RtcResult<SrtpProfile>)
    ensures
        match suite_profile(suite@) {
            Some(p) => r == Ok::<SrtpProfile, RtcError>(p),
            None => r matches Err(e) && e@ == unsupported_suite(suite@),
        },
{
    if same_text(suite, "AES_CM_128_HMAC_SHA1_80") {
        Ok(SrtpProfile::Aes128Sha1_80)
    } else if same_text(suite, "AES_CM_128_HMAC_SHA1_32") {
        Ok(SrtpProfile::Aes128Sha1_32)
    } else if same_text(suite, "AEAD_AES_128_GCM") {
        Ok(SrtpProfile::AeadAes128Gcm)
    } else {
        Err(RtcError::Internal(joined("Unsupported crypto suite: ", suite)))
    }
}

/// The parts of an `inline:` key parameter.
#[derive(Debug)]
pub struct SdesKeyParams {
    /// Master key and master salt.
    pub key_salt: Vec<u8>,
    /// The lifetime as written.
    pub lifetime: Option<String>,
    /// The MKI as written.
    pub mki_raw: Option<String>,
    /// The MKI in network order, and its length.
    pub mki: Option<(Vec<u8>, usize)>,
}

/// The model of an `inline:` key parameter.
#[verifier::ext_equal]
pub struct SdesView {
    pub key_salt: Seq<u8>,
    pub lifetime: Option<Seq<char>>,
    pub mki_raw: Option<Seq<char>>,
    pub mki: Option<(Seq<u8>, nat)>,
}

/// The model of an optional MKI.
pub open spec fn mki_view(m: Option<(Vec<u8>, usize)>) -> Option<(Seq<u8>, nat)> {
    match m {
        Some((b, n)) => Some((b@, n as nat)),
        None => None,
    }
}

impl View for SdesKeyParams {
    type V = SdesView;

    open spec fn view(&self) -> SdesView {
        SdesView {
            key_salt: self.key_salt@,
            lifetime: text_opt(self.lifetime),
            mki_raw: text_opt(self.mki_raw),
            mki: mki_view(self.mki),
        }
    }
}

/// 256 to the power of `n`.
pub open spec fn pow256(n: nat) -> nat
    decreases n,
{
    if n == 0 {
        1
    } else {
        256 * pow256((n - 1) as nat)
    }
}

/// `value` in `n` octets in network order.
pub open spec fn big_endian(value: nat, n: nat) -> Seq<u8>
    decreases n,
{
    if n == 0 {
        Seq::empty()
    } else {
        big_endian(value / 256, (n - 1) as nat).push((value % 256) as u8)
    }
}

/// A segment without the white space around it, unless nothing is left.
pub open spec fn segment(s: Seq<Seq<char>>, i: int) -> Option<Seq<char>> {
    if 0 <= i < s.len() && trimmed(s[i]).len() > 0 {
        Some(trimmed(s[i]))
    } else {
        None
    }
}

/// An MKI value cannot be written in `n` octets; a field longer than eight octets can hold 0 only.
pub open spec fn mki_overflows(value: nat, n: nat) -> bool {
    (n < 8 && value >= pow256(n)) || (n > 8 && value != 0)
}

/// `<value>:<length>`: the value in network order in that many octets, or the error.
pub open spec fn mki_of(raw: Seq<char>) -> Result<(Seq<u8>, nat), RtcErrorView> {
    let e = index_from(raw, ':', 0);
    let length_text = raw.skip(e + 1);
    let value_text = trimmed(raw.take(e));
    if e >= raw.len() {
        Err(
            RtcErrorView::Internal(
                "Invalid MKI params '"@ + raw + "', expected <value>:<length>"@,
            ),
        )
    } else {
        match number(trimmed(length_text), usize::MAX as nat) {
            None => Err(RtcErrorView::Internal("Invalid MKI length '"@ + length_text + "'"@)),
            Some(n) => if n == 0 || n > MKI_MAX_LEN {
                Err(
                    RtcErrorView::Internal(
                        "MKI length "@ + decimal(n) + " out of range 1..=128"@,
                    ),
                )
            } else {
                match number(value_text, u64::MAX as nat) {
                    None => Err(
                        RtcErrorView::Internal("Invalid MKI value '"@ + value_text + "'"@),
                    ),
                    Some(v) => if mki_overflows(v, n) {
                        Err(
                            RtcErrorView::Internal(
                                "MKI value "@ + decimal(v) + " does not fit in "@ + decimal(n)
                                    + " octets"@,
                            ),
                        )
                    } else {
                        Ok((big_endian(v, n), n))
                    },
                }
            },
        }
    }
}

/// `inline:<key and salt>[|<lifetime>][|<mki value>:<mki length>]`, or the error.
pub open spec fn key_params_of(params: Seq<char>) -> Result<SdesView, RtcErrorView> {
    let s = pieces(params.skip(7), '|');
    if !starts_with(params, "inline:"@) {
        Err(RtcErrorView::Internal("Unsupported key params"@))
    } else if s[0].len() == 0 {
        Err(RtcErrorView::Internal("Empty key params after 'inline:' prefix"@))
    } else {
        match base64_decoded(s[0]) {
            Err(e) => Err(RtcErrorView::Internal("Invalid base64 key: "@ + e)),
            Ok(key_salt) => match segment(s, 2) {
                None => Ok(
                    SdesView { key_salt, lifetime: segment(s, 1), mki_raw: None, mki: None },
                ),
                Some(raw) => match mki_of(raw) {
                    Err(e) => Err(e),
                    Ok(mki) => Ok(
                        SdesView {
                            key_salt,
                            lifetime: segment(s, 1),
                            mki_raw: Some(raw),
                            mki: Some(mki),
                        },
                    ),
                },
            },
        }
    }
}

fn octets_of(value: u64, n: usize) -> (r: Vec<u8>)
    ensures
        r@ == big_endian(value as nat, n as nat),
    decreases n,
{
    if n == 0 {
        Vec::new()
    } else {
        let mut out = octets_of(value / 256, n - 1);
        out.push((value % 256) as u8);
        out
    }
}

proof fn pow256_bound(n: nat)
    requires
        n <= 7,
    ensures
        pow256(n) <= 0x100_0000_0000_0000,
    decreases n,
{
    reveal_with_fuel(pow256, 8);
}

fn power_of_256(n: usize) -> (r: u64)
    requires
        n < 8,
    ensures
        r == pow256(n as nat),
{
    let mut acc: u64 = 1;
    let mut i: usize = 0;
    while i < n
        invariant
            i <= n < 8,
            acc == pow256(i as nat),
        decreases n - i,
    {
        proof {
            pow256_bound((i + 1) as nat);
        }
        acc = acc * 256;
        i += 1;
    }
    acc
}

fn quoted(before: &str, text: &str, after: &str) -> (r: String)
    ensures
        r@ == before@ + text@ + after@,
{
    let mut out = joined(before, text);
    out.append(after);
    out
}

/// Reads an MKI.
pub fn parse_mki(raw: &str) -> (r: RtcResult<(Vec<u8>, usize)>)
    ensures
        match mki_of(raw@) {
            Ok(m) => r matches Ok(v) && mki_view(Some(v)) == Some(m),
            Err(e) => r matches Err(x) && x@ == e,
        },
{
    let c = chars_of(raw);
    let total: usize = c.len();
    let mut e: usize = 0;
    while e < total && c[e] != ':'
        invariant
            e <= total,
            total == c@.len(),
            c@ == raw@,
            index_from(raw@, ':', 0) == index_from(raw@, ':', e as int),
        decreases total - e,
    {
        e += 1;
    }
    if e >= total {
        return Err(
            RtcError::Internal(
                quoted("Invalid MKI params '", raw, "', expected <value>:<length>"),
            ),
        );
    }
    let length_text = raw.substring_char(e + 1, total);
    assert(length_text@ =~= raw@.skip(e + 1));
    let value_part = raw.substring_char(0, e);
    assert(value_part@ =~= raw@.take(e as int));
    let n: usize = match parse_number(trim_text(length_text).as_str(), usize::MAX as u64) {
        Some(n) => n as usize,
        None => {
            return Err(RtcError::Internal(quoted("Invalid MKI length '", length_text, "'")));
        },
    };
    if n == 0 || n > MKI_MAX_LEN {
        let t = decimal_text(n as u64);
        return Err(RtcError::Internal(quoted("MKI length ", t.as_str(), " out of range 1..=128")));
    }
    let value_text = trim_text(value_part);
    let v: u64 = match parse_number(value_text.as_str(), u64::MAX) {
        Some(v) => v,
        None => {
            return Err(RtcError::Internal(quoted("Invalid MKI value '", value_text.as_str(), "'")));
        },
    };
    let overflows: bool = if n < 8 {
        v >= power_of_256(n)
    } else {
        n > 8 && v != 0
    };
    if overflows {
        let mut t = quoted("MKI value ", decimal_text(v).as_str(), " does not fit in ");
        t.append(decimal_text(n as u64).as_str());
        t.append(" octets");
        return Err(RtcError::Internal(t));
    }
    Ok((octets_of(v, n), n))
}

fn text_of_segment(s: &Vec<String>, i: usize) -> (r: Option<String>)
    ensures
        text_opt(r) == segment(texts(s@), i as int),
{
    if i < s.len() {
        assert(texts(s@)[i as int] == s@[i as int]@);
        let t = trim_text(s[i].as_str());
        if t.as_str().is_empty() {
            None
        } else {
            Some(t)
        }
    } else {
        None
    }
}

/// Reads an `inline:` key parameter.
pub fn parse_sdes_key_params_full(params: &str) -> (r: RtcResult<SdesKeyParams>)
    ensures
        match key_params_of(params@) {
            Ok(v) => r matches Ok(p) && p@ == v,
            Err(e) => r matches Err(x) && x@ == e,
        },
{
    proof {
        reveal_strlit("inline:");
    }
    if !has_prefix(params, "inline:") {
        return Err(RtcError::internal("Unsupported key params"));
    }
    let n: usize = params.unicode_len();
    let body = params.substring_char(7, n);
    assert(body@ =~= params@.skip(7));
    let s = split_pieces(body, '|');
    assert(texts(s@)[0] == s@[0]@);
    if s[0].as_str().is_empty() {
        return Err(RtcError::internal("Empty key params after 'inline:' prefix"));
    }
    let key_salt = match base64_bytes(s[0].as_str()) {
        Ok(v) => v,
        Err(e) => {
            return Err(RtcError::Internal(joined("Invalid base64 key: ", e.as_str())));
        },
    };
    let lifetime = text_of_segment(&s, 1);
    match text_of_segment(&s, 2) {
        None => Ok(SdesKeyParams { key_salt, lifetime, mki_raw: None, mki: None }),
        Some(raw) => match parse_mki(raw.as_str()) {
            Ok(mki) => Ok(SdesKeyParams { key_salt, lifetime, mki_raw: Some(raw), mki: Some(mki) }),
            Err(e) => Err(e),
        },
    }
}

proof fn pieces_of_plain(s: Seq<char>, sep: char)
    requires
        forall|i: int| 0 <= i < s.len() ==> #[trigger] s[i] != sep,
    ensures
        pieces(s, sep) == seq![s],
{
    index_from_bounds(s, sep, 0);
    assert(s.skip(0) =~= s);
}

proof fn pieces_of_two(a: Seq<char>, b: Seq<char>, sep: char)
    requires
        forall|i: int| 0 <= i < a.len() ==> #[trigger] a[i] != sep,
        forall|i: int| 0 <= i < b.len() ==> #[trigger] b[i] != sep,
    ensures
        pieces(a + seq![sep] + b, sep) == seq![a, b],
{
    let s = a + seq![sep] + b;
    let k = a.len() as int;
    index_from_bounds(s, sep, 0);
    assert(s[k] == sep);
    assert(index_from(s, sep, 0) == k) by {
        let e = index_from(s, sep, 0);
        if e < k {
            assert(s[e] == a[e]);
        }
        if e > k {
            assert(s[k] != sep);
        }
    }
    index_from_bounds(s, sep, k + 1);
    assert(index_from(s, sep, k + 1) == s.len()) by {
        let e = index_from(s, sep, k + 1);
        if e < s.len() {
            assert(s[e] == b[e - k - 1]);
        }
    }
    assert(s.subrange(0, k) =~= a);
    assert(s.skip(k + 1) =~= b);
    assert(pieces_from(s, sep, k + 1) =~= seq![b]);
    assert(pieces(s, sep) =~= seq![a, b]);
}

/// What parsing gives back of octets that were written without lifetime and MKI.
pub open spec fn bare_key(key_salt: Seq<u8>) -> SdesView {
    SdesView { key_salt, lifetime: None, mki_raw: None, mki: None }
}

/// `inline:` and the octets in base64. Parsing gives the octets back, with neither lifetime nor
/// MKI; with a lifetime appended, it gives the octets and that lifetime.
pub fn inline_key_params(key_salt: &Vec<u8>) -> (r: String)
    requires
        0 < key_salt@.len() <= 0x1000_0000,
    ensures
        r@ == "inline:"@ + base64_encoded(key_salt@),
        key_params_of(r@) == Ok::<SdesView, RtcErrorView>(bare_key(key_salt@)),
        forall|tail: Seq<char>|
            #![trigger key_params_of(r@ + tail)]
            is_lifetime_tail(tail) ==> key_params_of(r@ + tail) == Ok::<SdesView, RtcErrorView>(
                SdesView { lifetime: lifetime_of_tail(tail), ..bare_key(key_salt@) },
            ),
{
    let encoded = base64_text(key_salt);
    let r = joined("inline:", encoded.as_str());
    proof {
        reveal_strlit("inline:");
        let e = encoded@;
        assert forall|i: int| 0 <= i < e.len() implies #[trigger] e[i] != '|' by {
            assert(is_base64_char(e[i]));
        }
        assert(r@.skip(7) =~= e);
        assert(r@.take(7) =~= "inline:"@);
        pieces_of_plain(e, '|');
        assert forall|tail: Seq<char>|
            #![trigger key_params_of(r@ + tail)]
            is_lifetime_tail(tail) implies key_params_of(r@ + tail) == Ok::<
            SdesView,
            RtcErrorView,
        >(SdesView { lifetime: lifetime_of_tail(tail), ..bare_key(key_salt@) }) by {
            let t = r@ + tail;
            assert(t.take(7) =~= "inline:"@);
            if tail.len() == 0 {
                assert(t =~= r@);
            } else {
                let life = tail.skip(1);
                assert(t.skip(7) =~= e + seq!['|'] + life);
                pieces_of_two(e, life, '|');
            }
        }
    }
    r
}

/// Nothing, or `|` and a text without `|`.
pub open spec fn is_lifetime_tail(tail: Seq<char>) -> bool {
    ||| tail.len() == 0
    ||| tail[0] == '|' && forall|i: int| 1 <= i < tail.len() ==> #[trigger] tail[i] != '|'
}

/// The lifetime that a tail writes.
pub open spec fn lifetime_of_tail(tail: Seq<char>) -> Option<Seq<char>> {
    if tail.len() == 0 {
        None
    } else {
        segment(seq![tail.skip(1)], 0)
    }
}

/// Fresh key parameters for a profile: as many random octets as its key and salt take.
pub fn generate_sdes_key_params(profile: SrtpProfile) -> (r: String)
    ensures
        exists|key_salt: Seq<u8>|
            #![trigger base64_encoded(key_salt)]
            key_salt.len() == key_length(profile) + salt_length(profile) && r@ == "inline:"@
                + base64_encoded(key_salt) && key_params_of(r@) == Ok::<SdesView, RtcErrorView>(
                bare_key(key_salt),
            ) && forall|tail: Seq<char>|
                #![trigger key_params_of(r@ + tail)]
                is_lifetime_tail(tail) ==> key_params_of(r@ + tail) == Ok::<
                    SdesView,
                    RtcErrorView,
                >(SdesView { lifetime: lifetime_of_tail(tail), ..bare_key(key_salt) }),
{
    let key_salt = random_octets(profile.key_len() + profile.salt_len());
    let r = inline_key_params(&key_salt);
    assert(r@ == "inline:"@ + base64_encoded(key_salt@));
    r
}

/// The MKI handling of a session.
#[derive(Debug)]
pub struct MkiParams {
    /// The MKI that sent packets carry, and its length.
    pub tx: Option<(Vec<u8>, usize)>,
    /// The length of the MKI that received packets may carry.
    pub rx_len: Option<usize>,
}

/// The MKI handling that two crypto lines lead to: none is ever sent, and the length that the
/// peer advertised is what received packets may carry.
pub fn negotiate_sdes_mki(local: &SdesKeyParams, remote: &SdesKeyParams) -> (r: MkiParams)
    ensures
        r.tx is None,
        match remote@.mki {
            Some(m) => r.rx_len matches Some(n) && n == m.1,
            None => r.rx_len is None,
        },
{
    MkiParams {
        tx: None,
        rx_len: match &remote.mki {
            Some((_, n)) => Some(*n),
            None => None,
        },
    }
}

/// The keys of both directions.
#[derive(Debug)]
pub struct SrtpKeys {
    pub profile: SrtpProfile,
    pub tx_key: Vec<u8>,
    pub tx_salt: Vec<u8>,
    pub rx_key: Vec<u8>,
    pub rx_salt: Vec<u8>,
    pub mki: MkiParams,
}

/// The model of the keys of both directions.
#[verifier::ext_equal]
pub struct KeysView {
    pub profile: SrtpProfile,
    pub tx_key: Seq<u8>,
    pub tx_salt: Seq<u8>,
    pub rx_key: Seq<u8>,
    pub rx_salt: Seq<u8>,
    pub tx_mki: Option<(Seq<u8>, nat)>,
    pub rx_mki_len: Option<nat>,
}

impl View for SrtpKeys {
    type V = KeysView;

    open spec fn view(&self) -> KeysView {
        KeysView {
            profile: self.profile,
            tx_key: self.tx_key@,
            tx_salt: self.tx_salt@,
            rx_key: self.rx_key@,
            rx_salt: self.rx_salt@,
            tx_mki: mki_view(self.mki.tx),
            rx_mki_len: match self.mki.rx_len {
                Some(n) => Some(n as nat),
                None => None,
            },
        }
    }
}

/// The first crypto line of the first section.
pub open spec fn leading_crypto(d: Option<DescriptionView>) -> Option<CryptoView> {
    match d {
        Some(x) => if x.media.len() > 0 && crypto_lines(x.media[0].attributes).len() > 0 {
            Some(crypto_lines(x.media[0].attributes)[0])
        } else {
            None
        },
        None => None,
    }
}

/// The keys that the leading crypto lines of both descriptions lead to, or the error.
pub open spec fn sdes_keys(
    local: Option<DescriptionView>,
    remote: Option<DescriptionView>,
) -> Result<KeysView, RtcErrorView> {
    match (leading_crypto(remote), leading_crypto(local)) {
        (Some(r), Some(l)) => match (suite_profile(r.crypto_suite), suite_profile(l.crypto_suite)) {
            (None, _) => Err(unsupported_suite(r.crypto_suite)),
            (_, None) => Err(unsupported_suite(l.crypto_suite)),
            (Some(p), Some(q)) => if p != q {
                Err(RtcErrorView::Internal("Crypto suite mismatch"@))
            } else {
                match (key_params_of(r.key_params), key_params_of(l.key_params)) {
                    (Err(e), _) => Err(e),
                    (_, Err(e)) => Err(e),
                    (Ok(rx), Ok(tx)) => {
                        let k = key_length(p) as int;
                        let n = k + salt_length(p);
                        if rx.key_salt.len() != n || tx.key_salt.len() != n {
                            Err(RtcErrorView::Internal("Invalid key length"@))
                        } else {
                            Ok(
                                KeysView {
                                    profile: p,
                                    tx_key: tx.key_salt.take(k),
                                    tx_salt: tx.key_salt.skip(k),
                                    rx_key: rx.key_salt.take(k),
                                    rx_salt: rx.key_salt.skip(k),
                                    tx_mki: None,
                                    rx_mki_len: match rx.mki {
                                        Some(m) => Some(m.1),
                                        None => None,
                                    },
                                },
                            )
                        }
                    },
                }
            },
        },
        _ => Err(RtcErrorView::Internal("Missing crypto attributes for SDES"@)),
    }
}

fn slice_of(v: &Vec<u8>, from: usize, to: usize) -> (r: Vec<u8>)
    requires
        from <= to <= v@.len(),
    ensures
        r@ == v@.subrange(from as int, to as int),
{
    let mut out: Vec<u8> = Vec::new();
    let mut i: usize = from;
    while i < to
        invariant
            from <= i <= to <= v@.len(),
            out@ == v@.subrange(from as int, i as int),
        decreases to - i,
    {
        out.push(v[i]);
        i += 1;
        assert(v@.subrange(from as int, i as int) =~= v@.subrange(from as int, i - 1).push(
            v@[i - 1],
        ));
    }
    out
}

fn find_leading_crypto(d: &Option<SessionDescription>) -> (r: Option<CryptoAttribute>)
    ensures
        match leading_crypto(description_opt(*d)) {
            Some(c) => r matches Some(x) && x@ == c,
            None => r is None,
        },
{
    match d {
        Some(x) => {
            if x.media_sections.len() == 0 {
                return None;
            }
            let m: &MediaSection = &x.media_sections[0];
            assert(x@.media[0] == m@);
            let mut list = m.get_crypto_attributes();
            if list.len() == 0 {
                None
            } else {
                assert(crate::sdp::cryptos(list@)[0] == list@[0]@);
                let c = list.remove(0);
                Some(c)
            }
        },
        None => None,
    }
}

/// The SRTP keys of an SDES session.
pub fn setup_sdes_keys(
    local: &Option<SessionDescription>,
    remote: &Option<SessionDescription>,
) -> (r: RtcResult<SrtpKeys>)
    ensures
        match sdes_keys(description_opt(*local), description_opt(*remote)) {
            Ok(k) => r matches Ok(x) && x@ == k,
            Err(e) => r matches Err(x) && x@ == e,
        },
{
    let (theirs, ours) = match (find_leading_crypto(remote), find_leading_crypto(local)) {
        (Some(a), Some(b)) => (a, b),
        _ => {
            return Err(RtcError::internal("Missing crypto attributes for SDES"));
        },
    };
    let profile: SrtpProfile = match map_crypto_suite(theirs.crypto_suite.as_str()) {
        Ok(p) => p,
        Err(e) => {
            return Err(e);
        },
    };
    let other: SrtpProfile = match map_crypto_suite(ours.crypto_suite.as_str()) {
        Ok(p) => p,
        Err(e) => {
            return Err(e);
        },
    };
    if profile != other {
        return Err(RtcError::internal("Crypto suite mismatch"));
    }
    let rx = match parse_sdes_key_params_full(theirs.key_params.as_str()) {
        Ok(p) => p,
        Err(e) => {
            return Err(e);
        },
    };
    let tx = match parse_sdes_key_params_full(ours.key_params.as_str()) {
        Ok(p) => p,
        Err(e) => {
            return Err(e);
        },
    };
    let k: usize = profile.key_len();
    let n: usize = k + profile.salt_len();
    if rx.key_salt.len() != n || tx.key_salt.len() != n {
        return Err(RtcError::internal("Invalid key length"));
    }
    let mki = negotiate_sdes_mki(&tx, &rx);
    let keys = SrtpKeys {
        profile,
        tx_key: slice_of(&tx.key_salt, 0, k),
        tx_salt: slice_of(&tx.key_salt, k, n),
        rx_key: slice_of(&rx.key_salt, 0, k),
        rx_salt: slice_of(&rx.key_salt, k, n),
        mki,
    };
    proof {
        let want = sdes_keys(description_opt(*local), description_opt(*remote));
        assert(want is Ok);
        assert(keys@ =~= want->Ok_0);
    }
    Ok(keys)
}

/// Some section of the description carries a crypto line.
pub open spec fn carries_crypto(d: Option<DescriptionView>) -> bool {
    match d {
        Some(x) => exists|i: int|
            0 <= i < x.media.len() && crypto_lines((#[trigger] x.media[i]).attributes).len() > 0,
        None => false,
    }
}

/// Whether any section of a description carries a crypto line.
pub fn has_crypto(d: &Option<SessionDescription>) -> (r: bool)
    ensures
        r == carries_crypto(description_opt(*d)),
{
    match d {
        Some(x) => {
            let mut i: usize = 0;
            while i < x.media_sections.len()
                invariant
                    i <= x.media_sections@.len(),
                    description_opt(*d) == Some(x@),
                    forall|j: int|
                        0 <= j < i ==> crypto_lines(
                            (#[trigger] x@.media[j]).attributes,
                        ).len() == 0,
                decreases x.media_sections@.len() - i,
            {
                let m: &MediaSection = &x.media_sections[i];
                assert(x@.media[i as int] == m@);
                let list = m.get_crypto_attributes();
                assert(crate::sdp::cryptos(list@).len() == list@.len());
                if list.len() > 0 {
                    assert(crypto_lines(x@.media[i as int].attributes).len() > 0);
                    assert(carries_crypto(Some(x@)));
                    return true;
                }
                i += 1;
            }
            false
        },
        None => false,
    }
}

/// Whether the SDES negotiation has both crypto lines.
pub fn sdes_ready(
    local: &Option<SessionDescription>,
    remote: &Option<SessionDescription>,
) -> (r: bool)
    ensures
        r == (carries_crypto(description_opt(*local)) && carries_crypto(description_opt(*remote))),
{
    has_crypto(remote) && has_crypto(local)
}

/// The profile that a DTLS handshake selected; unknown and absent identifiers count as the first.
pub open spec fn dtls_profile(id: Option<u16>) -> SrtpProfile {
    match id {
        Some(2) => SrtpProfile::Aes128Sha1_32,
        Some(7) => SrtpProfile::AeadAes128Gcm,
        _ => SrtpProfile::Aes128Sha1_80,
    }
}

/// The octets of keying material that a profile takes: key and salt for either side.
pub open spec fn dtls_material_length(p: SrtpProfile) -> nat {
    2 * (key_length(p) + salt_length(p))
}

/// The keys in exported material: client key, server key, client salt, server salt. Each side
/// sends with its own.
pub open spec fn dtls_keys(p: SrtpProfile, is_client: bool, m: Seq<u8>) -> KeysView {
    let k = key_length(p) as int;
    let s = salt_length(p) as int;
    let client = (m.subrange(0, k), m.subrange(2 * k, 2 * k + s));
    let server = (m.subrange(k, 2 * k), m.subrange(2 * k + s, 2 * k + 2 * s));
    let (tx, rx) = if is_client {
        (client, server)
    } else {
        (server, client)
    };
    KeysView {
        profile: p,
        tx_key: tx.0,
        tx_salt: tx.1,
        rx_key: rx.0,
        rx_salt: rx.1,
        tx_mki: None,
        rx_mki_len: None,
    }
}

/// The profile that a DTLS handshake selected.
pub fn srtp_profile_of_dtls(id: Option<u16>) -> (r: SrtpProfile)
    ensures
        r == dtls_profile(id),
{
    match id {
        Some(0x0001) => SrtpProfile::Aes128Sha1_80,
        Some(0x0002) => SrtpProfile::Aes128Sha1_32,
        Some(0x0007) => SrtpProfile::AeadAes128Gcm,
        _ => SrtpProfile::Aes128Sha1_80,
    }
}

/// The octets of keying material to export for a profile.
pub fn dtls_export_length(profile: SrtpProfile) -> (r: usize)
    ensures
        r == dtls_material_length(profile),
{
    2 * (profile.key_len() + profile.salt_len())
}

/// Splits exported keying material.
pub fn setup_srtp_keys(profile: SrtpProfile, is_client: bool, material: &Vec<u8>) -> (r: SrtpKeys)
    requires
        material@.len() == dtls_material_length(profile),
    ensures
        r@ == dtls_keys(profile, is_client, material@),
{
    let k: usize = profile.key_len();
    let s: usize = profile.salt_len();
    let client_key = slice_of(material, 0, k);
    let server_key = slice_of(material, k, 2 * k);
    let client_salt = slice_of(material, 2 * k, 2 * k + s);
    let server_salt = slice_of(material, 2 * k + s, 2 * k + 2 * s);
    let mki = MkiParams { tx: None, rx_len: None };
    if is_client {
        SrtpKeys {
            profile,
            tx_key: client_key,
            tx_salt: client_salt,
            rx_key: server_key,
            rx_salt: server_salt,
            mki,
        }
    } else {
        SrtpKeys {
            profile,
            tx_key: server_key,
            tx_salt: server_salt,
            rx_key: client_key,
            rx_salt: client_salt,
            mki,
        }
    }
}

/// What one side of a DTLS session sends with, the other receives with.
pub proof fn dtls_sides_agree(p: SrtpProfile, m: Seq<u8>)
    requires
        m.len() == dtls_material_length(p),
    ensures
        dtls_keys(p, true, m).tx_key == dtls_keys(p, false, m).rx_key,
        dtls_keys(p, true, m).tx_salt == dtls_keys(p, false, m).rx_salt,
        dtls_keys(p, true, m).rx_key == dtls_keys(p, false, m).tx_key,
        dtls_keys(p, true, m).rx_salt == dtls_keys(p, false, m).tx_salt,
{
}

/// What one side of an SDES session sends with, the other receives with.
pub proof fn sdes_sides_agree(a: DescriptionView, b: DescriptionView)
    requires
        sdes_keys(Some(a), Some(b)) is Ok,
    ensures
        sdes_keys(Some(b), Some(a)) is Ok,
        sdes_keys(Some(a), Some(b))->Ok_0.tx_key == sdes_keys(Some(b), Some(a))->Ok_0.rx_key,
        sdes_keys(Some(a), Some(b))->Ok_0.tx_salt == sdes_keys(Some(b), Some(a))->Ok_0.rx_salt,
        sdes_keys(Some(a), Some(b))->Ok_0.profile == sdes_keys(Some(b), Some(a))->Ok_0.profile,
{
}

/// No SDES session sends an MKI, whatever both sides wrote.
pub proof fn sdes_never_sends_mki(local: Option<DescriptionView>, remote: Option<DescriptionView>)
    ensures
        sdes_keys(local, remote) matches Ok(k) ==> k.tx_mki is None,
{
}

/// The crypto line that an answer takes up: the first with a supported suite, in section order
/// from section `k` on.
pub open spec fn offered_crypto(m: Seq<SectionView>, k: int) -> Option<CryptoView>
    decreases m.len() - k,
{
    if k < 0 || k >= m.len() {
        None
    } else {
        match crate::search::first_value(crypto_lines(m[k].attributes), with_known_suite()) {
            Some(c) => Some(c),
            None => offered_crypto(m, k + 1),
        }
    }
}

/// Crypto lines with a supported suite.
pub open spec fn with_known_suite() -> spec_fn(CryptoView) -> bool {
    |c: CryptoView| suite_profile(c.crypto_suite) is Some
}

/// The tag, the suite and the tail after the key of a crypto line of ours. An answer repeats those
/// of the line it takes up, but for the MKI; otherwise the defaults stand.
pub open spec fn crypto_terms(sdp_type: SdpType, remote: Option<DescriptionView>) -> (
    Seq<char>,
    Seq<char>,
    Seq<char>,
) {
    let taken = match remote {
        Some(d) => if sdp_type is Answer {
            offered_crypto(d.media, 0)
        } else {
            None
        },
        None => None,
    };
    match taken {
        Some(c) => (
            decimal(c.tag as nat),
            c.crypto_suite,
            match key_params_of(c.key_params) {
                Ok(p) => match p.lifetime {
                    Some(l) => "|"@ + l,
                    None => Seq::empty(),
                },
                Err(_) => "|2^31"@,
            },
        ),
        None => ("1"@, "AES_CM_128_HMAC_SHA1_80"@, "|2^31"@),
    }
}

/// The terms of a crypto line of ours.
#[derive(Debug)]
pub struct CryptoTerms {
    pub tag: String,
    pub suite: String,
    pub profile: SrtpProfile,
    pub tail: String,
}

fn find_offered_crypto(m: &Vec<MediaSection>) -> (r: Option<CryptoAttribute>)
    ensures
        match offered_crypto(crate::sdp::sections(m@), 0) {
            Some(c) => r matches Some(x) && x@ == c && suite_profile(c.crypto_suite) is Some,
            None => r is None,
        },
{
    let ghost mv = crate::sdp::sections(m@);
    let mut k: usize = 0;
    while k < m.len()
        invariant
            k <= m@.len(),
            mv == crate::sdp::sections(m@),
            offered_crypto(mv, 0) == offered_crypto(mv, k as int),
        decreases m@.len() - k,
    {
        assert(mv[k as int] == m@[k as int]@);
        let mut list = m[k].get_crypto_attributes();
        let ghost lv = crate::sdp::cryptos(list@);
        let mut i: usize = 0;
        while i < list.len()
            invariant
                i <= list@.len(),
                lv == crate::sdp::cryptos(list@),
                crate::search::first(lv, with_known_suite()) == crate::search::first_from(
                    lv,
                    with_known_suite(),
                    i as int,
                ),
                offered_crypto(mv, 0) == offered_crypto(mv, k as int),
                k < m@.len(),
                mv == crate::sdp::sections(m@),
                lv == crypto_lines(mv[k as int].attributes),
            decreases list@.len() - i,
        {
            assert(lv[i as int] == list@[i as int]@);
            if map_crypto_suite(list[i].crypto_suite.as_str()).is_ok() {
                let c = list.remove(i);
                return Some(c);
            }
            i += 1;
        }
        k += 1;
    }
    None
}

/// The terms of the crypto line that a section of ours is written with.
pub fn choose_crypto_terms(sdp_type: SdpType, remote: &Option<SessionDescription>) -> (r:
    CryptoTerms)
    ensures
        (r.tag@, r.suite@, r.tail@) == crypto_terms(sdp_type, description_opt(*remote)),
        suite_profile(r.suite@) == Some(r.profile),
{
    let taken: Option<CryptoAttribute> = match (sdp_type, remote) {
        (SdpType::Answer, Some(d)) => find_offered_crypto(&d.media_sections),
        _ => None,
    };
    match taken {
        Some(c) => {
            let tail = match parse_sdes_key_params_full(c.key_params.as_str()) {
                Ok(p) => match p.lifetime {
                    Some(l) => joined("|", l.as_str()),
                    None => String::new(),
                },
                Err(_) => "|2^31".to_owned(),
            };
            let profile: SrtpProfile = match map_crypto_suite(c.crypto_suite.as_str()) {
                Ok(p) => p,
                Err(_) => SrtpProfile::Aes128Sha1_80,
            };
            CryptoTerms { tag: decimal_text(c.tag as u64), suite: c.crypto_suite, profile, tail }
        },
        None => CryptoTerms {
            tag: "1".to_owned(),
            suite: "AES_CM_128_HMAC_SHA1_80".to_owned(),
            profile: SrtpProfile::Aes128Sha1_80,
            tail: "|2^31".to_owned(),
        },
    }
}

/// The value of a crypto line: `<tag> <suite> <key params><tail>`.
pub open spec fn crypto_value(
    terms: (Seq<char>, Seq<char>, Seq<char>),
    key_params: Seq<char>,
) -> Seq<char> {
    terms.0 + " "@ + terms.1 + " "@ + key_params + terms.2
}

/// Writes a crypto line's value.
pub fn crypto_line(terms: &CryptoTerms, key_params: &str) -> (r: String)
    ensures
        r@ == crypto_value((terms.tag@, terms.suite@, terms.tail@), key_params@),
{
    let mut out = joined(terms.tag.as_str(), " ");
    out.append(terms.suite.as_str());
    out.append(" ");
    out.append(key_params);
    out.append(terms.tail.as_str());
    out
}

proof fn trimmed_is_part(s: Seq<char>, c: char)
    requires
        forall|i: int| 0 <= i < s.len() ==> #[trigger] s[i] != c,
    ensures
        forall|i: int| 0 <= i < trimmed(s).len() ==> #[trigger] trimmed(s)[i] != c,
{
    crate::text::run_len_bound(s, true);
    let t = s.skip(crate::text::run_len(s, true) as int);
    assert forall|i: int| 0 <= i < trimmed(s).len() implies #[trigger] trimmed(s)[i] != c by {
        tail_run_bound(t);
        assert(trimmed(s)[i] == t[i]);
        assert(t[i] == s[i + crate::text::run_len(s, true)]);
    }
}

proof fn tail_run_bound(s: Seq<char>)
    ensures
        crate::text::tail_run(s) <= s.len(),
    decreases s.len(),
{
    if s.len() > 0 {
        tail_run_bound(s.drop_last());
    }
}

proof fn pieces_lack_separator(s: Seq<char>, sep: char, k: int, n: int)
    requires
        0 <= k <= s.len(),
        0 <= n < pieces_from(s, sep, k).len(),
    ensures
        forall|i: int|
            0 <= i < pieces_from(s, sep, k)[n].len() ==> #[trigger] pieces_from(s, sep, k)[n][i]
                != sep,
    decreases s.len() - k,
{
    index_from_bounds(s, sep, k);
    let e = index_from(s, sep, k);
    if e < s.len() {
        if n > 0 {
            pieces_lack_separator(s, sep, e + 1, n - 1);
            assert(pieces_from(s, sep, k)[n] == pieces_from(s, sep, e + 1)[n - 1]);
        } else {
            assert(pieces_from(s, sep, k)[0] == s.subrange(k, e));
        }
    } else {
        assert(pieces_from(s, sep, k)[0] == s.skip(k));
    }
}

/// The tail that our crypto lines end with writes a lifetime at most, never an MKI.
pub proof fn crypto_terms_carry_no_mki(sdp_type: SdpType, remote: Option<DescriptionView>)
    ensures
        is_lifetime_tail(crypto_terms(sdp_type, remote).2),
{
    reveal_strlit("|2^31");
    reveal_strlit("|");
    let taken = match remote {
        Some(d) => if sdp_type is Answer {
            offered_crypto(d.media, 0)
        } else {
            None
        },
        None => None,
    };
    if let Some(c) = taken {
        if let Ok(p) = key_params_of(c.key_params) {
            if let Some(l) = p.lifetime {
                let s = c.key_params.skip(7);
                pieces_lack_separator(s, '|', 0, 1);
                trimmed_is_part(pieces(s, '|')[1], '|');
                let tail = "|"@ + l;
                assert forall|i: int| 1 <= i < tail.len() implies #[trigger] tail[i] != '|' by {
                    assert(tail[i] == l[i - 1]);
                }
            }
        }
    }
}

/// Exported keying material is the client's key, the server's key, the client's salt and the
/// server's salt, in this order; the client sends with the client's, the server with the server's.
pub proof fn material_is_split_in_order(
    p: SrtpProfile,
    client_key: Seq<u8>,
    server_key: Seq<u8>,
    client_salt: Seq<u8>,
    server_salt: Seq<u8>,
)
    requires
        client_key.len() == key_length(p),
        server_key.len() == key_length(p),
        client_salt.len() == salt_length(p),
        server_salt.len() == salt_length(p),
    ensures
        ({
            let m = client_key + server_key + client_salt + server_salt;
            let c = dtls_keys(p, true, m);
            let s = dtls_keys(p, false, m);
            &&& m.len() == dtls_material_length(p)
            &&& c.profile == p && s.profile == p
            &&& c.tx_key == client_key && c.tx_salt == client_salt
            &&& c.rx_key == server_key && c.rx_salt == server_salt
            &&& s.tx_key == server_key && s.tx_salt == server_salt
            &&& s.rx_key == client_key && s.rx_salt == client_salt
        }),
{
    let m = client_key + server_key + client_salt + server_salt;
    let k = key_length(p) as int;
    let n = salt_length(p) as int;
    assert(m.subrange(0, k) =~= client_key);
    assert(m.subrange(k, 2 * k) =~= server_key);
    assert(m.subrange(2 * k, 2 * k + n) =~= client_salt);
    assert(m.subrange(2 * k + n, 2 * k + 2 * n) =~= server_salt);
}

/// The key of every profile has sixteen octets; the salt has fourteen, with GCM twelve. A profile
/// is named by its suite in descriptions and by its number in DTLS.
pub proof fn profiles_have_their_lengths_and_names()
    ensures
        key_length(SrtpProfile::Aes128Sha1_80) == 16 && salt_length(SrtpProfile::Aes128Sha1_80)
            == 14,
        key_length(SrtpProfile::Aes128Sha1_32) == 16 && salt_length(SrtpProfile::Aes128Sha1_32)
            == 14,
        key_length(SrtpProfile::AeadAes128Gcm) == 16 && salt_length(SrtpProfile::AeadAes128Gcm)
            == 12,
        suite_profile("AES_CM_128_HMAC_SHA1_80"@) == Some(SrtpProfile::Aes128Sha1_80),
        suite_profile("AES_CM_128_HMAC_SHA1_32"@) == Some(SrtpProfile::Aes128Sha1_32),
        suite_profile("AEAD_AES_128_GCM"@) == Some(SrtpProfile::AeadAes128Gcm),
        dtls_profile(Some(1)) == SrtpProfile::Aes128Sha1_80,
        dtls_profile(Some(2)) == SrtpProfile::Aes128Sha1_32,
        dtls_profile(Some(7)) == SrtpProfile::AeadAes128Gcm,
        dtls_profile(None) == SrtpProfile::Aes128Sha1_80,
{
    reveal_strlit("AES_CM_128_HMAC_SHA1_80");
    reveal_strlit("AES_CM_128_HMAC_SHA1_32");
    reveal_strlit("AEAD_AES_128_GCM");
    assert("AES_CM_128_HMAC_SHA1_80"@.len() == 23 && "AES_CM_128_HMAC_SHA1_80"@[21] == '8');
    assert("AES_CM_128_HMAC_SHA1_32"@.len() == 23 && "AES_CM_128_HMAC_SHA1_32"@[21] == '3');
    assert("AEAD_AES_128_GCM"@.len() == 16);
}

/// An SDES session sends with the key of the local crypto line and receives with that of the remote
/// one: the first sixteen octets of each are the key, the rest is the salt. Lines of different
/// suites, or with keys of another length, give no session.
pub proof fn each_side_sends_with_its_own_key(
    local: DescriptionView,
    remote: DescriptionView,
    l: CryptoView,
    r: CryptoView,
    p: SrtpProfile,
    tx: SdesView,
    rx: SdesView,
)
    requires
        leading_crypto(Some(local)) == Some(l),
        leading_crypto(Some(remote)) == Some(r),
        suite_profile(l.crypto_suite) == Some(p),
        key_params_of(l.key_params) == Ok::<SdesView, RtcErrorView>(tx),
        key_params_of(r.key_params) == Ok::<SdesView, RtcErrorView>(rx),
    ensures
        suite_profile(r.crypto_suite) == Some(p) && tx.key_salt.len() == 16 + salt_length(p)
            && rx.key_salt.len() == 16 + salt_length(p) ==> (sdes_keys(
            Some(local),
            Some(remote),
        ) matches Ok(k) && k.profile == p && k.tx_key + k.tx_salt == tx.key_salt && k.rx_key
            + k.rx_salt == rx.key_salt && k.tx_key.len() == 16 && k.rx_key.len() == 16
            && k.rx_mki_len == (match rx.mki {
            Some(m) => Some(m.1),
            None => None,
        })),
        suite_profile(r.crypto_suite) != Some(p) || tx.key_salt.len() != 16 + salt_length(p)
            || rx.key_salt.len() != 16 + salt_length(p) ==> sdes_keys(
            Some(local),
            Some(remote),
        ) is Err,
{
    if let Ok(k) = sdes_keys(Some(local), Some(remote)) {
        assert(k.tx_key + k.tx_salt =~= tx.key_salt);
        assert(k.rx_key + k.rx_salt =~= rx.key_salt);
    }
}

/// A line is `<tag> <suite> <key params>`.
pub open spec fn is_crypto_line(a: AttributeView, c: CryptoView) -> bool {
    &&& a.key == "crypto"@
    &&& a.value matches Some(v) && words(v).len() >= 3 && number(words(v)[0], 0xffff_ffff) == Some(
        c.tag as nat,
    ) && words(v)[1] == c.crypto_suite && words(v)[2] == c.key_params
}

proof fn crypto_lines_are_read_from(a: Seq<AttributeView>, k: int, acc: Seq<CryptoView>, i: int, c: CryptoView)
    requires
        0 <= k <= i < a.len(),
        is_crypto_line(a[i], c),
        forall|j: int, d: CryptoView| k <= j < i ==> !#[trigger] is_crypto_line(a[j], d),
    ensures
        crate::sdp::crypto_from(a, k, acc).len() > acc.len(),
        crate::sdp::crypto_from(a, k, acc)[acc.len() as int] == c,
    decreases a.len() - k,
{
    if k < i {
        if crate::sdp::crypto_of(a[k]) is Some {
            assert(is_crypto_line(a[k], crate::sdp::crypto_of(a[k])->0));
        }
        crypto_lines_are_read_from(a, k + 1, acc, i, c);
    } else {
        assert(crate::sdp::crypto_of(a[k]) == Some(c));
        crypto_lines_grow(a, k + 1, acc.push(c));
    }
}

proof fn crypto_lines_grow(a: Seq<AttributeView>, k: int, acc: Seq<CryptoView>)
    requires
        0 <= k,
    ensures
        crate::sdp::crypto_from(a, k, acc).len() >= acc.len(),
        forall|j: int|
            0 <= j < acc.len() ==> #[trigger] crate::sdp::crypto_from(a, k, acc)[j] == acc[j],
    decreases a.len() - k,
{
    if k < a.len() {
        match crate::sdp::crypto_of(a[k]) {
            Some(c) => {
                let next = acc.push(c);
                crypto_lines_grow(a, k + 1, next);
                let r = crate::sdp::crypto_from(a, k, acc);
                assert forall|j: int| 0 <= j < acc.len() implies #[trigger] r[j] == acc[j] by {
                    assert(r[j] == next[j]);
                }
            },
            None => {
                crypto_lines_grow(a, k + 1, acc);
            },
        }
    }
}

/// The crypto line that a session goes by is the first one of the first section.
pub proof fn first_crypto_line_counts(d: DescriptionView, i: int, c: CryptoView)
    requires
        d.media.len() > 0,
        0 <= i < d.media[0].attributes.len(),
        is_crypto_line(d.media[0].attributes[i], c),
        forall|j: int, x: CryptoView|
            0 <= j < i ==> !#[trigger] is_crypto_line(d.media[0].attributes[j], x),
    ensures
        leading_crypto(Some(d)) == Some(c),
{
    crypto_lines_are_read_from(d.media[0].attributes, 0, Seq::empty(), i, c);
}

/// An offer has the default terms. An answer has the tag and the suite of the crypto line that it
/// takes up, and its lifetime.
pub proof fn answers_take_up_offered_terms(remote: Option<DescriptionView>)
    ensures
        crypto_terms(SdpType::Offer, remote) == ("1"@, "AES_CM_128_HMAC_SHA1_80"@, "|2^31"@),
        remote is Some && offered_crypto(remote->0.media, 0) is Some ==> ({
            let c = offered_crypto(remote->0.media, 0)->0;
            let t = crypto_terms(SdpType::Answer, remote);
            &&& t.0 == decimal(c.tag as nat)
            &&& t.1 == c.crypto_suite
            &&& suite_profile(c.crypto_suite) is Some
            &&& key_params_of(c.key_params) matches Ok(p) ==> (p.lifetime matches Some(l) ==> t.2
                == "|"@ + l)
            &&& key_params_of(c.key_params) matches Ok(p) ==> (p.lifetime is None ==> t.2.len()
                == 0)
        }),
{
    if remote is Some {
        taken_up_suite_is_known(remote->0.media, 0);
    }
}

proof fn taken_up_suite_is_known(m: Seq<SectionView>, k: int)
    requires
        0 <= k,
    ensures
        offered_crypto(m, k) matches Some(c) ==> suite_profile(c.crypto_suite) is Some && exists|
            j: int,
        |
            k <= j < m.len() && crypto_lines((#[trigger] m[j]).attributes).contains(c),
    decreases m.len() - k,
{
    if k < m.len() {
        let l = crypto_lines(m[k].attributes);
        crate::search::first_from_facts(l, with_known_suite(), 0);
        if let Some(i) = crate::search::first(l, with_known_suite()) {
            assert(with_known_suite()(l[i]));
            assert(l.contains(l[i]));
        } else {
            taken_up_suite_is_known(m, k + 1);
        }
    }
}

/// The number that octets in network order stand for.
pub open spec fn network_value(b: Seq<u8>) -> nat
    decreases b.len(),
{
    if b.len() == 0 {
        0
    } else {
        network_value(b.drop_last()) * 256 + b.last() as nat
    }
}

/// Octets in network order stand for the number that they were made of, as far as it fits.
pub proof fn octets_keep_the_value(value: nat, n: nat)
    ensures
        big_endian(value, n).len() == n,
        value < pow256(n) ==> network_value(big_endian(value, n)) == value,
    decreases n,
{
    if n > 0 {
        octets_keep_the_value(value / 256, (n - 1) as nat);
        let b = big_endian(value, n);
        assert(b.drop_last() =~= big_endian(value / 256, (n - 1) as nat));
        assert(value < 256 * pow256((n - 1) as nat) ==> value / 256 < pow256((n - 1) as nat));
    }
}

proof fn pow256_is_positive(n: nat)
    ensures
        pow256(n) > 0,
    decreases n,
{
    if n > 0 {
        pow256_is_positive((n - 1) as nat);
    }
}

/// An MKI is a number and its length in octets, with a colon between them: the octets stand for the
/// number in network order. A length of none or of more than 128 octets, and a number that does not
/// fit, are refused.
pub proof fn mkis_are_read(value: Seq<char>, length: Seq<char>, v: nat, n: nat)
    requires
        !value.contains(':'),
        number(trimmed(value), u64::MAX as nat) == Some(v),
        number(trimmed(length), usize::MAX as nat) == Some(n),
    ensures
        ({
            let raw = value.push(':') + length;
            &&& 1 <= n <= 8 && v < pow256(n) ==> (mki_of(raw) matches Ok(m) && m.1 == n
                && m.0.len() == n && network_value(m.0) == v)
            &&& 8 < n <= 128 && v == 0 ==> (mki_of(raw) matches Ok(m) && m.1 == n && m.0.len() == n
                && network_value(m.0) == 0)
            &&& n == 0 || n > 128 ==> mki_of(raw) is Err
            &&& n < 8 && v >= pow256(n) ==> mki_of(raw) is Err
        }),
        mki_of(value) is Err,
{
    let raw = value.push(':') + length;
    index_from_bounds(raw, ':', 0);
    let e = index_from(raw, ':', 0);
    if e < value.len() {
        assert(value[e] == ':');
    }
    assert(raw[value.len() as int] == ':');
    assert(e == value.len());
    assert(raw.take(e) =~= value);
    assert(raw.skip(e + 1) =~= length);
    octets_keep_the_value(v, n);
    octets_keep_the_value(0, n);
    pow256_is_positive(n);
    index_from_bounds(value, ':', 0);
    let f = index_from(value, ':', 0);
    if f < value.len() {
        assert(value[f] == ':');
    }
}

/// Key parameters are `inline:`, the octets of key and salt in base64 and, each behind a bar, the
/// lifetime and the MKI.
pub proof fn key_params_are_read(params: Seq<char>, s: Seq<Seq<char>>, key_salt: Seq<u8>)
    requires
        starts_with(params, "inline:"@),
        pieces(params.skip(7), '|') == s,
        s[0].len() > 0,
        base64_decoded(s[0]) == octets(key_salt),
    ensures
        s.len() == 1 ==> (key_params_of(params) matches Ok(p) && p.key_salt == key_salt
            && p.lifetime is None && p.mki is None),
        s.len() == 2 && trimmed(s[1]).len() > 0 ==> (key_params_of(params) matches Ok(p)
            && p.key_salt == key_salt && p.lifetime == Some(trimmed(s[1])) && p.mki is None),
        s.len() >= 3 && trimmed(s[2]).len() > 0 ==> (mki_of(trimmed(s[2])) matches Ok(m) ==> (
        key_params_of(params) matches Ok(p) && p.key_salt == key_salt && p.mki == Some(m) && p.lifetime
            == (if trimmed(s[1]).len() > 0 {
            Some(trimmed(s[1]))
        } else {
            None
        }))),
        s.len() >= 3 && trimmed(s[2]).len() > 0 && mki_of(trimmed(s[2])) is Err ==> key_params_of(
            params,
        ) is Err,
{
}

/// Key parameters that are not inline, or have no key, are refused.
pub proof fn other_key_params_are_refused(params: Seq<char>)
    ensures
        !starts_with(params, "inline:"@) ==> key_params_of(params) is Err,
        key_params_of("inline:"@) is Err,
{
    reveal_strlit("inline:");
    let e = "inline:"@.skip(7);
    assert(e.len() == 0);
    assert(e =~= Seq::<char>::empty());
    assert(pieces(e, '|') =~= seq![e.skip(0)]);
}

proof fn no_crypto_line_no_crypto(a: Seq<AttributeView>, k: int, acc: Seq<CryptoView>)
    requires
        0 <= k,
        forall|j: int, c: CryptoView| 0 <= j < a.len() ==> !#[trigger] is_crypto_line(a[j], c),
    ensures
        crate::sdp::crypto_from(a, k, acc) == acc,
    decreases a.len() - k,
{
    if k < a.len() {
        if crate::sdp::crypto_of(a[k]) is Some {
            assert(is_crypto_line(a[k], crate::sdp::crypto_of(a[k])->0));
        }
        no_crypto_line_no_crypto(a, k + 1, acc);
    }
}

proof fn some_crypto_line_some_crypto(a: Seq<AttributeView>, k: int, acc: Seq<CryptoView>, i: int, c: CryptoView)
    requires
        0 <= k <= i < a.len(),
        is_crypto_line(a[i], c),
    ensures
        crate::sdp::crypto_from(a, k, acc).len() > acc.len(),
    decreases i - k,
{
    let x = crate::sdp::crypto_of(a[k]);
    if k == i {
        assert(x == Some(c));
        crypto_lines_grow(a, k + 1, acc.push(c));
    } else {
        match x {
            Some(y) => {
                some_crypto_line_some_crypto(a, k + 1, acc.push(y), i, c);
            },
            None => {
                some_crypto_line_some_crypto(a, k + 1, acc, i, c);
            },
        }
    }
}

/// A description has keys where some section has a crypto line that can be read, and only there.
pub proof fn crypto_lines_are_found(d: DescriptionView, n: int, i: int, c: CryptoView)
    ensures
        0 <= n < d.media.len() && 0 <= i < d.media[n].attributes.len() && is_crypto_line(
            d.media[n].attributes[i],
            c,
        ) ==> carries_crypto(Some(d)),
        (forall|m: int, j: int, x: CryptoView|
            0 <= m < d.media.len() && 0 <= j < d.media[m].attributes.len() ==> !#[trigger]
                is_crypto_line(d.media[m].attributes[j], x)) ==> !carries_crypto(Some(d)),
        !carries_crypto(None),
{
    if 0 <= n < d.media.len() && 0 <= i < d.media[n].attributes.len() && is_crypto_line(
        d.media[n].attributes[i],
        c,
    ) {
        some_crypto_line_some_crypto(d.media[n].attributes, 0, Seq::empty(), i, c);
        assert(crypto_lines(d.media[n].attributes).len() > 0);
    }
    if forall|m: int, j: int, x: CryptoView|
        0 <= m < d.media.len() && 0 <= j < d.media[m].attributes.len() ==> !#[trigger]
            is_crypto_line(d.media[m].attributes[j], x) {
        assert forall|m: int| 0 <= m < d.media.len() implies crypto_lines(
            (#[trigger] d.media[m]).attributes,
        ).len() == 0 by {
            no_crypto_line_no_crypto(d.media[m].attributes, 0, Seq::empty());
        }
    }
}

} // verus!
