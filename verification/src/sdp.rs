//! Session descriptions, as the negotiation reads and writes them.

use crate::direction::Direction;
use crate::search::any;
use crate::search::first;
use crate::search::first_from;
use crate::search::kept;
use crate::search::kept_from;
use crate::text::clone_text_opt;
use crate::text::clone_texts;
use crate::text::number;
use crate::text::parse_u32;
use crate::text::same_text;
use crate::text::same_text_opt;
use crate::text::same_texts;
use crate::text::split_words;
use crate::text::text_opt;
use crate::text::texts;
use crate::text::words;
use vstd::prelude::*;

verus! {

/// What a media section carries.
#[derive(Clone, Copy, PartialEq, Eq, Structural, Debug)]
pub enum MediaKind {
    Audio,
    Video,
    Application,
    Image,
}

/// The role of a description in the negotiation.
#[derive(Clone, Copy, PartialEq, Eq, Structural, Debug)]
pub enum SdpType {
    Offer,
    Answer,
    Pranswer,
    Rollback,
}

/// An `a=` line.
#[derive(Debug)]
pub struct Attribute {
    pub key: String,
    pub value: Option<String>,
}

/// The model of an `a=` line.
#[verifier::ext_equal]
pub struct AttributeView {
    pub key: Seq<char>,
    pub value: Option<Seq<char>>,
}

impl View for Attribute {
    type V = AttributeView;

    open spec fn view(&self) -> AttributeView {
        AttributeView { key: self.key@, value: text_opt(self.value) }
    }
}

/// The model of a list of `a=` lines.
pub open spec fn attrs(v: Seq<Attribute>) -> Seq<AttributeView> {
    v.map_values(|a: Attribute| a@)
}

/// An attribute with a value.
pub open spec fn attr(key: Seq<char>, value: Seq<char>) -> AttributeView {
    AttributeView { key, value: Some(value) }
}

/// An attribute without a value.
pub open spec fn flag(key: Seq<char>) -> AttributeView {
    AttributeView { key, value: None }
}

/// Pushing an attribute pushes its model.
pub broadcast proof fn attrs_push(v: Seq<Attribute>, a: Attribute)
    ensures
        #[trigger] attrs(v.push(a)) == attrs(v).push(a@),
{
    assert(attrs(v.push(a)) =~= attrs(v).push(a@));
}

impl Clone for Attribute {
    fn clone(&self) -> (r: Self)
        ensures
            r@ == self@,
    {
        Attribute { key: self.key.clone(), value: clone_text_opt(&self.value) }
    }
}

impl Attribute {
    /// An attribute with the given key and value.
    pub fn new(key: &str, value: Option<String>) -> (r: Self)
        ensures
            r@ == (AttributeView { key: key@, value: text_opt(value) }),
    {
        Attribute { key: key.to_owned(), value }
    }

    /// Whether two attributes have the same key and value.
    pub fn same(&self, other: &Self) -> (r: bool)
        ensures
            r == (self@ == other@),
    {
        let r = same_text(self.key.as_str(), other.key.as_str()) && same_text_opt(
            &self.value,
            &other.value,
        );
        assert(r ==> self@ =~= other@);
        r
    }
}

/// Appends an attribute with a value.
pub fn push_attr(list: &mut Vec<Attribute>, key: &str, value: String)
    ensures
        attrs(final(list)@) == attrs(old(list)@).push(attr(key@, value@)),
{
    broadcast use attrs_push;

    list.push(Attribute::new(key, Some(value)));
}

/// Appends an attribute without a value.
pub fn push_flag(list: &mut Vec<Attribute>, key: &str)
    ensures
        attrs(final(list)@) == attrs(old(list)@).push(flag(key@)),
{
    broadcast use attrs_push;

    list.push(Attribute::new(key, None));
}

/// Copies a list of attributes.
pub fn clone_attrs(v: &Vec<Attribute>) -> (r: Vec<Attribute>)
    ensures
        attrs(r@) == attrs(v@),
{
    let mut out: Vec<Attribute> = Vec::new();
    let mut i: usize = 0;
    while i < v.len()
        invariant
            i <= v@.len(),
            attrs(out@) == attrs(v@).take(i as int),
        decreases v@.len() - i,
    {
        broadcast use attrs_push;

        out.push(v[i].clone());
        i += 1;
        assert(attrs(v@).take(i as int) =~= attrs(v@).take(i - 1).push(attrs(v@)[i - 1]));
    }
    assert(attrs(v@).take(v@.len() as int) =~= attrs(v@));
    out
}

/// Whether two attribute lists are equal.
pub fn same_attrs(a: &Vec<Attribute>, b: &Vec<Attribute>) -> (r: bool)
    ensures
        r == (attrs(a@) == attrs(b@)),
{
    if a.len() != b.len() {
        assert(attrs(a@).len() != attrs(b@).len());
        return false;
    }
    let mut i: usize = 0;
    while i < a.len()
        invariant
            i <= a@.len(),
            a@.len() == b@.len(),
            forall|j: int| 0 <= j < i ==> attrs(a@)[j] == attrs(b@)[j],
        decreases a@.len() - i,
    {
        if !a[i].same(&b[i]) {
            assert(attrs(a@)[i as int] != attrs(b@)[i as int]);
            return false;
        }
        i += 1;
    }
    assert(attrs(a@) =~= attrs(b@));
    true
}

/// Attributes with the given key.
pub open spec fn keyed(key: Seq<char>) -> spec_fn(AttributeView) -> bool {
    |a: AttributeView| a.key == key
}

/// Some attribute has the given key.
pub open spec fn has_key(a: Seq<AttributeView>, key: Seq<char>) -> bool {
    any(a, keyed(key))
}

/// The first attribute with the given key.
pub fn find_key(v: &Vec<Attribute>, key: &str) -> (r: Option<usize>)
    ensures
        r matches Some(i) ==> i < v@.len() && first(attrs(v@), keyed(key@)) == Some(i as int),
        r is None ==> first(attrs(v@), keyed(key@)) is None,
        r is Some <==> has_key(attrs(v@), key@),
{
    let mut i: usize = 0;
    while i < v.len()
        invariant
            i <= v@.len(),
            first(attrs(v@), keyed(key@)) == first_from(attrs(v@), keyed(key@), i as int),
        decreases v@.len() - i,
    {
        assert(attrs(v@)[i as int] == v@[i as int]@);
        if same_text(v[i].key.as_str(), key) {
            proof {
                crate::search::first_iff_any(attrs(v@), keyed(key@));
            }
            return Some(i);
        }
        i += 1;
    }
    proof {
        crate::search::first_iff_any(attrs(v@), keyed(key@));
    }
    None
}

/// Attributes whose key is none of the given ones.
pub open spec fn not_keyed(keys: Seq<Seq<char>>) -> spec_fn(AttributeView) -> bool {
    |a: AttributeView| !keys.contains(a.key)
}

/// The attributes without those of the given keys.
pub open spec fn without_keys(a: Seq<AttributeView>, keys: Seq<Seq<char>>) -> Seq<AttributeView> {
    kept(a, not_keyed(keys))
}

/// Drops the attributes with any of up to three keys.
pub fn drop_keys(v: &Vec<Attribute>, k0: &str, k1: &str, k2: &str) -> (r: Vec<Attribute>)
    ensures
        attrs(r@) == without_keys(attrs(v@), seq![k0@, k1@, k2@]),
{
    let ghost keys = seq![k0@, k1@, k2@];
    let mut out: Vec<Attribute> = Vec::new();
    assert(attrs(out@) =~= Seq::<AttributeView>::empty());
    let mut i: usize = 0;
    while i < v.len()
        invariant
            i <= v@.len(),
            keys == seq![k0@, k1@, k2@],
            without_keys(attrs(v@), keys) == kept_from(
                attrs(v@),
                not_keyed(keys),
                i as int,
                attrs(out@),
            ),
        decreases v@.len() - i,
    {
        assert(attrs(v@)[i as int] == v@[i as int]@);
        let key = v[i].key.as_str();
        assert(keys[0] == k0@ && keys[1] == k1@ && keys[2] == k2@);
        if !same_text(key, k0) && !same_text(key, k1) && !same_text(key, k2) {
            let a = v[i].clone();
            let ghost before = out@;
            out.push(a);
            assert(attrs(out@) =~= attrs(before).push(a@));
        }
        i += 1;
    }
    out
}

/// An `o=` line.
#[derive(Debug)]
pub struct Origin {
    pub username: String,
    pub session_id: u64,
    pub session_version: u64,
    pub unicast_address: String,
}

/// The model of an `o=` line.
#[verifier::ext_equal]
pub struct OriginView {
    pub username: Seq<char>,
    pub session_id: u64,
    pub session_version: u64,
    pub unicast_address: Seq<char>,
}

impl View for Origin {
    type V = OriginView;

    open spec fn view(&self) -> OriginView {
        OriginView {
            username: self.username@,
            session_id: self.session_id,
            session_version: self.session_version,
            unicast_address: self.unicast_address@,
        }
    }
}

impl Clone for Origin {
    fn clone(&self) -> (r: Self)
        ensures
            r@ == self@,
    {
        Origin {
            username: self.username.clone(),
            session_id: self.session_id,
            session_version: self.session_version,
            unicast_address: self.unicast_address.clone(),
        }
    }
}

/// An `o=` line before anything is known.
pub open spec fn blank_origin() -> OriginView {
    OriginView {
        username: "-"@,
        session_id: 0,
        session_version: 0,
        unicast_address: "127.0.0.1"@,
    }
}

impl Default for Origin {
    fn default() -> (r: Self)
        ensures
            r@ == blank_origin(),
    {
        Origin {
            username: "-".to_owned(),
            session_id: 0,
            session_version: 0,
            unicast_address: "127.0.0.1".to_owned(),
        }
    }
}

/// The session level of a description.
#[derive(Debug)]
pub struct SessionSection {
    pub origin: Origin,
    pub connection: Option<String>,
    pub attributes: Vec<Attribute>,
}

/// The model of the session level.
#[verifier::ext_equal]
pub struct SessionView {
    pub origin: OriginView,
    pub connection: Option<Seq<char>>,
    pub attributes: Seq<AttributeView>,
}

impl View for SessionSection {
    type V = SessionView;

    open spec fn view(&self) -> SessionView {
        SessionView {
            origin: self.origin@,
            connection: text_opt(self.connection),
            attributes: attrs(self.attributes@),
        }
    }
}

impl Clone for SessionSection {
    fn clone(&self) -> (r: Self)
        ensures
            r@ == self@,
    {
        SessionSection {
            origin: self.origin.clone(),
            connection: clone_text_opt(&self.connection),
            attributes: clone_attrs(&self.attributes),
        }
    }
}

impl Default for SessionSection {
    fn default() -> (r: Self)
        ensures
            r@ == (SessionView {
                origin: blank_origin(),
                connection: None,
                attributes: Seq::empty(),
            }),
    {
        let r = SessionSection {
            origin: Origin::default(),
            connection: None,
            attributes: Vec::new(),
        };
        assert(r@.attributes =~= Seq::<AttributeView>::empty());
        r
    }
}

/// An `m=` section.
#[derive(Debug)]
pub struct MediaSection {
    pub kind: MediaKind,
    pub mid: String,
    pub port: u16,
    pub protocol: String,
    pub formats: Vec<String>,
    pub direction: Direction,
    pub connection: Option<String>,
    pub attributes: Vec<Attribute>,
}

/// The model of an `m=` section.
#[verifier::ext_equal]
pub struct SectionView {
    pub kind: MediaKind,
    pub mid: Seq<char>,
    pub port: u16,
    pub protocol: Seq<char>,
    pub formats: Seq<Seq<char>>,
    pub direction: Direction,
    pub connection: Option<Seq<char>>,
    pub attributes: Seq<AttributeView>,
}

impl View for MediaSection {
    type V = SectionView;

    open spec fn view(&self) -> SectionView {
        SectionView {
            kind: self.kind,
            mid: self.mid@,
            port: self.port,
            protocol: self.protocol@,
            formats: texts(self.formats@),
            direction: self.direction,
            connection: text_opt(self.connection),
            attributes: attrs(self.attributes@),
        }
    }
}

/// The model of a list of `m=` sections.
pub open spec fn sections(v: Seq<MediaSection>) -> Seq<SectionView> {
    v.map_values(|m: MediaSection| m@)
}

/// Pushing a section pushes its model.
pub broadcast proof fn sections_push(v: Seq<MediaSection>, m: MediaSection)
    ensures
        #[trigger] sections(v.push(m)) == sections(v).push(m@),
{
    assert(sections(v.push(m)) =~= sections(v).push(m@));
}

/// The protocol that a fresh section of a kind is written with.
pub open spec fn default_protocol(kind: MediaKind) -> Seq<char> {
    match kind {
        MediaKind::Audio => "UDP/TLS/RTP/SAVPF"@,
        MediaKind::Video => "UDP/TLS/RTP/SAVPF"@,
        MediaKind::Application => "UDP/DTLS/SCTP"@,
        MediaKind::Image => "udptl"@,
    }
}

/// A fresh section: the discard port, both directions, no format and no attribute.
pub open spec fn fresh_section(kind: MediaKind, mid: Seq<char>) -> SectionView {
    SectionView {
        kind,
        mid,
        port: 9,
        protocol: default_protocol(kind),
        formats: Seq::empty(),
        direction: Direction::SendRecv,
        connection: None,
        attributes: Seq::empty(),
    }
}

impl Clone for MediaSection {
    fn clone(&self) -> (r: Self)
        ensures
            r@ == self@,
    {
        MediaSection {
            kind: self.kind,
            mid: self.mid.clone(),
            port: self.port,
            protocol: self.protocol.clone(),
            formats: clone_texts(&self.formats),
            direction: self.direction,
            connection: clone_text_opt(&self.connection),
            attributes: clone_attrs(&self.attributes),
        }
    }
}

impl MediaSection {
    /// A fresh section of a kind.
    pub fn new(kind: MediaKind, mid: String) -> (r: Self)
        ensures
            r@ == fresh_section(kind, mid@),
    {
        let protocol = match kind {
            MediaKind::Audio | MediaKind::Video => "UDP/TLS/RTP/SAVPF".to_owned(),
            MediaKind::Application => "UDP/DTLS/SCTP".to_owned(),
            MediaKind::Image => "udptl".to_owned(),
        };
        let r = MediaSection {
            kind,
            mid,
            port: 9,
            protocol,
            formats: Vec::new(),
            direction: Direction::SendRecv,
            connection: None,
            attributes: Vec::new(),
        };
        assert(r@.formats =~= Seq::<Seq<char>>::empty());
        assert(r@.attributes =~= Seq::<AttributeView>::empty());
        r
    }

    /// Whether two sections are equal.
    pub fn same(&self, other: &Self) -> (r: bool)
        ensures
            r == (self@ == other@),
    {
        let r = self.kind == other.kind && self.port == other.port && self.direction
            == other.direction && same_text(self.mid.as_str(), other.mid.as_str()) && same_text(
            self.protocol.as_str(),
            other.protocol.as_str(),
        ) && same_texts(&self.formats, &other.formats) && same_text_opt(
            &self.connection,
            &other.connection,
        ) && same_attrs(&self.attributes, &other.attributes);
        assert(r ==> self@ =~= other@);
        r
    }

    /// Whether the section carries an attribute with the given key.
    pub fn has(&self, key: &str) -> (r: bool)
        ensures
            r == has_key(self@.attributes, key@),
    {
        find_key(&self.attributes, key).is_some()
    }

    /// The SDES crypto lines that can be read.
    pub fn get_crypto_attributes(&self) -> (r: Vec<CryptoAttribute>)
        ensures
            cryptos(r@) == crypto_lines(self@.attributes),
    {
        let mut out: Vec<CryptoAttribute> = Vec::new();
        let mut i: usize = 0;
        assert(cryptos(out@) =~= Seq::<CryptoView>::empty());
        while i < self.attributes.len()
            invariant
                i <= self.attributes@.len(),
                crypto_lines(self@.attributes) == crypto_from(
                    self@.attributes,
                    i as int,
                    cryptos(out@),
                ),
            decreases self.attributes@.len() - i,
        {
            let ghost a = self@.attributes[i as int];
            assert(a == self.attributes@[i as int]@);
            if let Some(c) = read_crypto(&self.attributes[i]) {
                let ghost before = out@;
                out.push(c);
                assert(cryptos(out@) =~= cryptos(before).push(c@));
            }
            i += 1;
        }
        out
    }
}

/// Whether two lists of sections are equal.
pub fn same_sections(a: &Vec<MediaSection>, b: &Vec<MediaSection>) -> (r: bool)
    ensures
        r == (sections(a@) == sections(b@)),
{
    if a.len() != b.len() {
        assert(sections(a@).len() != sections(b@).len());
        return false;
    }
    let mut i: usize = 0;
    while i < a.len()
        invariant
            i <= a@.len(),
            a@.len() == b@.len(),
            forall|j: int| 0 <= j < i ==> sections(a@)[j] == sections(b@)[j],
        decreases a@.len() - i,
    {
        if !a[i].same(&b[i]) {
            assert(sections(a@)[i as int] != sections(b@)[i as int]);
            return false;
        }
        i += 1;
    }
    assert(sections(a@) =~= sections(b@));
    true
}

/// An SDES crypto line.
#[derive(Debug)]
pub struct CryptoAttribute {
    pub tag: u32,
    pub crypto_suite: String,
    pub key_params: String,
}

/// The model of an SDES crypto line.
pub struct CryptoView {
    pub tag: u32,
    pub crypto_suite: Seq<char>,
    pub key_params: Seq<char>,
}

impl View for CryptoAttribute {
    type V = CryptoView;

    open spec fn view(&self) -> CryptoView {
        CryptoView {
            tag: self.tag,
            crypto_suite: self.crypto_suite@,
            key_params: self.key_params@,
        }
    }
}

/// The model of a list of crypto lines.
pub open spec fn cryptos(v: Seq<CryptoAttribute>) -> Seq<CryptoView> {
    v.map_values(|c: CryptoAttribute| c@)
}

/// `a=crypto:<tag> <suite> <key params>`.
pub open spec fn crypto_of(a: AttributeView) -> Option<CryptoView> {
    match a.value {
        Some(v) => {
            let w = words(v);
            if a.key == "crypto"@ && w.len() >= 3 && number(w[0], 0xffff_ffff) is Some {
                Some(
                    CryptoView {
                        tag: number(w[0], 0xffff_ffff)->0 as u32,
                        crypto_suite: w[1],
                        key_params: w[2],
                    },
                )
            } else {
                None
            }
        },
        None => None,
    }
}

/// `acc` followed by the crypto lines among the attributes from index `k` on.
pub open spec fn crypto_from(a: Seq<AttributeView>, k: int, acc: Seq<CryptoView>) -> Seq<
    CryptoView,
>
    decreases a.len() - k,
{
    if k < 0 || k >= a.len() {
        acc
    } else {
        match crypto_of(a[k]) {
            Some(c) => crypto_from(a, k + 1, acc.push(c)),
            None => crypto_from(a, k + 1, acc),
        }
    }
}

/// The crypto lines among the attributes, in order.
pub open spec fn crypto_lines(a: Seq<AttributeView>) -> Seq<CryptoView> {
    crypto_from(a, 0, Seq::empty())
}

fn read_crypto(a: &Attribute) -> (r: Option<CryptoAttribute>)
    ensures
        r matches Some(c) ==> crypto_of(a@) == Some(c@),
        r is None ==> crypto_of(a@) is None,
{
    match &a.value {
        Some(v) => {
            if !same_text(a.key.as_str(), "crypto") {
                return None;
            }
            let w = split_words(v.as_str());
            assert(texts(w@).len() == w@.len());
            if w.len() < 3 {
                return None;
            }
            assert(texts(w@)[0] == w@[0]@ && texts(w@)[1] == w@[1]@ && texts(w@)[2] == w@[2]@);
            match parse_u32(w[0].as_str()) {
                Some(tag) => Some(
                    CryptoAttribute {
                        tag,
                        crypto_suite: w[1].clone(),
                        key_params: w[2].clone(),
                    },
                ),
                None => None,
            }
        },
        None => None,
    }
}

/// A session description.
#[derive(Debug)]
pub struct SessionDescription {
    pub sdp_type: SdpType,
    pub session: SessionSection,
    pub media_sections: Vec<MediaSection>,
}

/// The model of a session description.
pub struct DescriptionView {
    pub sdp_type: SdpType,
    pub session: SessionView,
    pub media: Seq<SectionView>,
}

impl View for SessionDescription {
    type V = DescriptionView;

    open spec fn view(&self) -> DescriptionView {
        DescriptionView {
            sdp_type: self.sdp_type,
            session: self.session@,
            media: sections(self.media_sections@),
        }
    }
}

/// Copies a list of sections.
pub fn clone_sections(v: &Vec<MediaSection>) -> (r: Vec<MediaSection>)
    ensures
        sections(r@) == sections(v@),
{
    let mut out: Vec<MediaSection> = Vec::new();
    let mut i: usize = 0;
    while i < v.len()
        invariant
            i <= v@.len(),
            sections(out@) == sections(v@).take(i as int),
        decreases v@.len() - i,
    {
        broadcast use sections_push;

        out.push(v[i].clone());
        i += 1;
        assert(sections(v@).take(i as int) =~= sections(v@).take(i - 1).push(
            sections(v@)[i - 1],
        ));
    }
    assert(sections(v@).take(v@.len() as int) =~= sections(v@));
    out
}

impl Clone for SessionDescription {
    fn clone(&self) -> (r: Self)
        ensures
            r@ == self@,
    {
        SessionDescription {
            sdp_type: self.sdp_type,
            session: self.session.clone(),
            media_sections: clone_sections(&self.media_sections),
        }
    }
}

/// The model of an optional description.
pub open spec fn description_opt(d: Option<SessionDescription>) -> Option<DescriptionView> {
    match d {
        Some(x) => Some(x@),
        None => None,
    }
}

impl SessionDescription {
    /// An empty description of a type.
    pub fn new(sdp_type: SdpType) -> (r: Self)
        ensures
            r@ == (DescriptionView {
                sdp_type,
                session: SessionView {
                    origin: blank_origin(),
                    connection: None,
                    attributes: Seq::empty(),
                },
                media: Seq::empty(),
            }),
    {
        let r = SessionDescription {
            sdp_type,
            session: SessionSection::default(),
            media_sections: Vec::new(),
        };
        assert(r@.media =~= Seq::<SectionView>::empty());
        r
    }

    /// The first audio section.
    pub fn first_audio_section(&self) -> (r: Option<&MediaSection>)
        ensures
            match first(self@.media, of_kind(MediaKind::Audio)) {
                Some(i) => r matches Some(m) && m@ == self@.media[i],
                None => r is None,
            },
    {
        match find_section_of_kind(&self.media_sections, MediaKind::Audio) {
            Some(i) => Some(&self.media_sections[i]),
            None => None,
        }
    }

    /// The DTLS fingerprint: the first `a=fingerprint` of the session level, else of the sections.
    pub fn dtls_fingerprint(&self) -> (r: FingerprintLine)
        ensures
            r@ == fingerprint_line(self@),
    {
        if let Some(i) = find_key(&self.session.attributes, "fingerprint") {
            assert(self@.session.attributes[i as int] == self.session.attributes@[i as int]@);
            return read_fingerprint(&self.session.attributes[i]);
        }
        let mut k: usize = 0;
        while k < self.media_sections.len()
            invariant
                k <= self.media_sections@.len(),
                first(self@.session.attributes, keyed("fingerprint"@)) is None,
                fingerprint_line(self@) == fingerprint_from(self@.media, k as int),
            decreases self.media_sections@.len() - k,
        {
            let m = &self.media_sections[k];
            assert(self@.media[k as int] == m@);
            if let Some(i) = find_key(&m.attributes, "fingerprint") {
                assert(m@.attributes[i as int] == m.attributes@[i as int]@);
                return read_fingerprint(&m.attributes[i]);
            }
            k += 1;
        }
        FingerprintLine::Missing
    }
}

/// What a description says of the DTLS fingerprint.
#[derive(Debug)]
pub enum FingerprintLine {
    /// No `a=fingerprint` line.
    Missing,
    /// A line that is not an algorithm and a value.
    Malformed(String),
    /// An algorithm and a value.
    Found { algorithm: String, value: String },
}

/// The model of a fingerprint line.
pub enum FingerprintView {
    Missing,
    Malformed(Seq<char>),
    Found { algorithm: Seq<char>, value: Seq<char> },
}

impl View for FingerprintLine {
    type V = FingerprintView;

    open spec fn view(&self) -> FingerprintView {
        match *self {
            FingerprintLine::Missing => FingerprintView::Missing,
            FingerprintLine::Malformed(s) => FingerprintView::Malformed(s@),
            FingerprintLine::Found { algorithm, value } => FingerprintView::Found {
                algorithm: algorithm@,
                value: value@,
            },
        }
    }
}

/// `a=fingerprint:<algorithm> <value>`.
pub open spec fn fingerprint_of(a: AttributeView) -> FingerprintView {
    match a.value {
        Some(v) => {
            let w = words(v);
            if w.len() == 2 {
                FingerprintView::Found { algorithm: w[0], value: w[1] }
            } else {
                FingerprintView::Malformed(v)
            }
        },
        None => FingerprintView::Malformed(Seq::empty()),
    }
}

/// The fingerprint line of the first section, at or after `k`, that has one.
pub open spec fn fingerprint_from(m: Seq<SectionView>, k: int) -> FingerprintView
    decreases m.len() - k,
{
    if k < 0 || k >= m.len() {
        FingerprintView::Missing
    } else {
        match first(m[k].attributes, keyed("fingerprint"@)) {
            Some(i) => fingerprint_of(m[k].attributes[i]),
            None => fingerprint_from(m, k + 1),
        }
    }
}

/// The fingerprint line of a description.
pub open spec fn fingerprint_line(d: DescriptionView) -> FingerprintView {
    match first(d.session.attributes, keyed("fingerprint"@)) {
        Some(i) => fingerprint_of(d.session.attributes[i]),
        None => fingerprint_from(d.media, 0),
    }
}

fn read_fingerprint(a: &Attribute) -> (r: FingerprintLine)
    ensures
        r@ == fingerprint_of(a@),
{
    match &a.value {
        Some(v) => {
            let w = split_words(v.as_str());
            assert(texts(w@).len() == w@.len());
            if w.len() == 2 {
                assert(texts(w@)[0] == w@[0]@ && texts(w@)[1] == w@[1]@);
                FingerprintLine::Found { algorithm: w[0].clone(), value: w[1].clone() }
            } else {
                FingerprintLine::Malformed(v.clone())
            }
        },
        None => FingerprintLine::Malformed(String::new()),
    }
}

/// Sections of a kind.
pub open spec fn of_kind(kind: MediaKind) -> spec_fn(SectionView) -> bool {
    |m: SectionView| m.kind == kind
}

/// Sections with a MID.
pub open spec fn with_mid(mid: Seq<char>) -> spec_fn(SectionView) -> bool {
    |m: SectionView| m.mid == mid
}

/// The first section of a kind.
pub fn find_section_of_kind(v: &Vec<MediaSection>, kind: MediaKind) -> (r: Option<usize>)
    ensures
        r matches Some(i) ==> i < v@.len() && first(sections(v@), of_kind(kind)) == Some(i as int),
        r is None ==> first(sections(v@), of_kind(kind)) is None,
{
    let mut i: usize = 0;
    while i < v.len()
        invariant
            i <= v@.len(),
            first(sections(v@), of_kind(kind)) == first_from(
                sections(v@),
                of_kind(kind),
                i as int,
            ),
        decreases v@.len() - i,
    {
        assert(sections(v@)[i as int] == v@[i as int]@);
        if v[i].kind == kind {
            return Some(i);
        }
        i += 1;
    }
    None
}

/// The first section with a MID.
pub fn find_section_with_mid(v: &Vec<MediaSection>, mid: &str) -> (r: Option<usize>)
    ensures
        r matches Some(i) ==> i < v@.len() && first(sections(v@), with_mid(mid@)) == Some(i as int),
        r is None ==> first(sections(v@), with_mid(mid@)) is None,
{
    let mut i: usize = 0;
    while i < v.len()
        invariant
            i <= v@.len(),
            first(sections(v@), with_mid(mid@)) == first_from(
                sections(v@),
                with_mid(mid@),
                i as int,
            ),
        decreases v@.len() - i,
    {
        assert(sections(v@)[i as int] == v@[i as int]@);
        if same_text(v[i].mid.as_str(), mid) {
            return Some(i);
        }
        i += 1;
    }
    None
}

} // verus!
