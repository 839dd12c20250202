//! Codec parameters and what a media section says of them.

use crate::search::first;
use crate::search::first_from;
use crate::search::first_from_facts;
use crate::sdp::AttributeView;
use crate::sdp::Attribute;
use crate::sdp::MediaSection;
use crate::sdp::SectionView;
use crate::text::equal_ignoring_case;
use crate::text::number;
use crate::text::parse_u32;
use crate::text::parse_u8;
use crate::text::pieces;
use crate::text::same_ignoring_case;
use crate::text::same_text;
use crate::text::split_pieces;
use crate::text::split_words;
use crate::text::texts;
use crate::text::words;
use std::collections::HashMap;
use vstd::prelude::*;

verus! {

broadcast use vstd::std_specs::hash::group_hash_axioms;

/// The parameters of a codec under a payload type. The codec is its name and clock rate; the
/// payload type is a label.
#[derive(Debug)]
pub struct RtpCodecParameters {
    pub payload_type: u8,
    pub name: String,
    pub clock_rate: u32,
    pub channels: u8,
}

/// The model of codec parameters.
#[verifier::ext_equal]
pub struct CodecView {
    pub payload_type: u8,
    pub name: Seq<char>,
    pub clock_rate: u32,
    pub channels: u8,
}

impl View for RtpCodecParameters {
    type V = CodecView;

    open spec fn view(&self) -> CodecView {
        CodecView {
            payload_type: self.payload_type,
            name: self.name@,
            clock_rate: self.clock_rate,
            channels: self.channels,
        }
    }
}

impl Clone for RtpCodecParameters {
    fn clone(&self) -> (r: Self)
        ensures
            r@ == self@,
    {
        RtpCodecParameters {
            payload_type: self.payload_type,
            name: self.name.clone(),
            clock_rate: self.clock_rate,
            channels: self.channels,
        }
    }
}

/// Parameters that name no codec.
pub open spec fn default_codec() -> CodecView {
    CodecView { payload_type: 96, name: Seq::empty(), clock_rate: 90000, channels: 0 }
}

impl Default for RtpCodecParameters {
    fn default() -> (r: Self)
        ensures
            r@ == default_codec(),
    {
        RtpCodecParameters { payload_type: 96, name: String::new(), clock_rate: 90000, channels: 0 }
    }
}

/// The model of a payload map.
pub open spec fn codecs(m: Map<u8, RtpCodecParameters>) -> Map<u8, CodecView> {
    m.map_values(|p: RtpCodecParameters| p@)
}

/// The model of an extension map.
pub open spec fn uris(m: Map<u8, String>) -> Map<u8, Seq<char>> {
    m.map_values(|s: String| s@)
}

fn insert_codec(m: &mut HashMap<u8, RtpCodecParameters>, pt: u8, p: RtpCodecParameters)
    ensures
        codecs(final(m)@) == codecs(old(m)@).insert(pt, p@),
{
    let ghost before = m@;
    let ghost v = p@;
    m.insert(pt, p);
    assert(codecs(m@) =~= codecs(before).insert(pt, v));
}

/// `a=rtpmap:<pt> <name>/<clock rate>[/<channels>]`.
pub open spec fn rtpmap_of(a: AttributeView) -> Option<CodecView> {
    match a.value {
        Some(v) => {
            let w = words(v);
            let p = pieces(w[1], '/');
            if a.key == "rtpmap"@ && w.len() >= 2 && number(w[0], 255) is Some && p.len() >= 2 {
                Some(
                    CodecView {
                        payload_type: number(w[0], 255)->0 as u8,
                        name: p[0],
                        clock_rate: match number(p[1], 0xffff_ffff) {
                            Some(n) => n as u32,
                            None => 90000,
                        },
                        channels: if p.len() >= 3 {
                            match number(p[2], 255) {
                                Some(n) => n as u8,
                                None => 0,
                            }
                        } else {
                            0
                        },
                    },
                )
            } else {
                None
            }
        },
        None => None,
    }
}

/// Reads an rtpmap attribute.
pub fn read_rtpmap(a: &Attribute) -> (r: Option<RtpCodecParameters>)
    ensures
        r matches Some(p) ==> rtpmap_of(a@) == Some(p@),
        r is None ==> rtpmap_of(a@) is None,
{
    let v = match &a.value {
        Some(v) => v,
        None => {
            return None;
        },
    };
    if !same_text(a.key.as_str(), "rtpmap") {
        return None;
    }
    let w = split_words(v.as_str());
    assert(texts(w@).len() == w@.len());
    if w.len() < 2 {
        return None;
    }
    assert(texts(w@)[0] == w@[0]@ && texts(w@)[1] == w@[1]@);
    let payload_type: u8 = match parse_u8(w[0].as_str()) {
        Some(n) => n,
        None => {
            return None;
        },
    };
    let p = split_pieces(w[1].as_str(), '/');
    assert(texts(p@).len() == p@.len());
    if p.len() < 2 {
        return None;
    }
    assert(texts(p@)[0] == p@[0]@ && texts(p@)[1] == p@[1]@);
    let clock_rate: u32 = match parse_u32(p[1].as_str()) {
        Some(n) => n,
        None => 90000,
    };
    let channels: u8 = if p.len() >= 3 {
        assert(texts(p@)[2] == p@[2]@);
        match parse_u8(p[2].as_str()) {
            Some(n) => n,
            None => 0,
        }
    } else {
        0
    };
    Some(RtpCodecParameters { payload_type, name: p[0].clone(), clock_rate, channels })
}

/// The codecs with a payload type of their own (RFC 3551).
pub open spec fn static_codec(pt: u8) -> Option<CodecView> {
    if pt == 0 {
        Some(CodecView { payload_type: 0, name: "PCMU"@, clock_rate: 8000, channels: 1 })
    } else if pt == 8 {
        Some(CodecView { payload_type: 8, name: "PCMA"@, clock_rate: 8000, channels: 1 })
    } else if pt == 9 {
        Some(CodecView { payload_type: 9, name: "G722"@, clock_rate: 8000, channels: 1 })
    } else if pt == 18 {
        Some(CodecView { payload_type: 18, name: "G729"@, clock_rate: 8000, channels: 1 })
    } else {
        None
    }
}

/// The codec with a payload type of its own.
pub fn iana_static_rtp_params(pt: u8) -> (r: Option<RtpCodecParameters>)
    ensures
        match static_codec(pt) {
            Some(c) => r matches Some(p) && p@ == c,
            None => r is None,
        },
{
    match pt {
        0 => Some(
            RtpCodecParameters {
                payload_type: 0,
                name: "PCMU".to_owned(),
                clock_rate: 8000,
                channels: 1,
            },
        ),
        8 => Some(
            RtpCodecParameters {
                payload_type: 8,
                name: "PCMA".to_owned(),
                clock_rate: 8000,
                channels: 1,
            },
        ),
        9 => Some(
            RtpCodecParameters {
                payload_type: 9,
                name: "G722".to_owned(),
                clock_rate: 8000,
                channels: 1,
            },
        ),
        18 => Some(
            RtpCodecParameters {
                payload_type: 18,
                name: "G729".to_owned(),
                clock_rate: 8000,
                channels: 1,
            },
        ),
        _ => None,
    }
}

/// `m` with the rtpmap lines from index `k` on; a later line for a payload type replaces an
/// earlier one.
pub open spec fn rtpmaps_from(
    a: Seq<AttributeView>,
    k: int,
    m: Map<u8, CodecView>,
) -> Map<u8, CodecView>
    decreases a.len() - k,
{
    if k < 0 || k >= a.len() {
        m
    } else {
        match rtpmap_of(a[k]) {
            Some(c) => rtpmaps_from(a, k + 1, m.insert(c.payload_type, c)),
            None => rtpmaps_from(a, k + 1, m),
        }
    }
}

/// The codecs that the rtpmap lines give.
pub open spec fn rtpmaps(a: Seq<AttributeView>) -> Map<u8, CodecView> {
    rtpmaps_from(a, 0, Map::empty())
}

/// The payload type that a format writes.
pub open spec fn format_pt(f: Seq<char>) -> Option<u8> {
    match number(f, 255) {
        Some(n) => Some(n as u8),
        None => None,
    }
}

/// `m` with the static codecs of the formats from index `k` on that `m` lacks.
pub open spec fn statics_from(
    f: Seq<Seq<char>>,
    k: int,
    m: Map<u8, CodecView>,
) -> Map<u8, CodecView>
    decreases f.len() - k,
{
    if k < 0 || k >= f.len() {
        m
    } else {
        match format_pt(f[k]) {
            Some(pt) => if !m.contains_key(pt) && static_codec(pt) is Some {
                statics_from(f, k + 1, m.insert(pt, static_codec(pt)->0))
            } else {
                statics_from(f, k + 1, m)
            },
            None => statics_from(f, k + 1, m),
        }
    }
}

/// The codecs of a section: its rtpmap lines, and the static codecs of the formats without one.
pub open spec fn payload_map_of(s: SectionView) -> Map<u8, CodecView> {
    statics_from(s.formats, 0, rtpmaps(s.attributes))
}

/// The codecs of a section by payload type.
pub fn extract_payload_map(section: &MediaSection) -> (r: HashMap<u8, RtpCodecParameters>)
    ensures
        codecs(r@) == payload_map_of(section@),
{
    let mut m: HashMap<u8, RtpCodecParameters> = HashMap::new();
    assert(codecs(m@) =~= Map::<u8, CodecView>::empty());
    let mut i: usize = 0;
    while i < section.attributes.len()
        invariant
            i <= section.attributes@.len(),
            rtpmaps(section@.attributes) == rtpmaps_from(
                section@.attributes,
                i as int,
                codecs(m@),
            ),
        decreases section.attributes@.len() - i,
    {
        assert(section@.attributes[i as int] == section.attributes@[i as int]@);
        if let Some(p) = read_rtpmap(&section.attributes[i]) {
            let pt: u8 = p.payload_type;
            insert_codec(&mut m, pt, p);
        }
        i += 1;
    }
    let mut j: usize = 0;
    while j < section.formats.len()
        invariant
            j <= section.formats@.len(),
            payload_map_of(section@) == statics_from(section@.formats, j as int, codecs(m@)),
        decreases section.formats@.len() - j,
    {
        assert(section@.formats[j as int] == section.formats@[j as int]@);
        if let Some(pt) = parse_u8(section.formats[j].as_str()) {
            if !m.contains_key(&pt) {
                if let Some(p) = iana_static_rtp_params(pt) {
                    insert_codec(&mut m, pt, p);
                }
            }
        }
        j += 1;
    }
    m
}

proof fn statics_keep(f: Seq<Seq<char>>, k: int, m: Map<u8, CodecView>, pt: u8)
    requires
        0 <= k,
    ensures
        m.contains_key(pt) ==> statics_from(f, k, m).contains_key(pt) && statics_from(f, k, m)[pt]
            == m[pt],
        !m.contains_key(pt) && statics_from(f, k, m).contains_key(pt) ==> static_codec(pt)
            == Some(statics_from(f, k, m)[pt]) && exists|i: int|
            k <= i < f.len() && format_pt(#[trigger] f[i]) == Some(pt),
    decreases f.len() - k,
{
    if k < f.len() {
        match format_pt(f[k]) {
            Some(q) => {
                if !m.contains_key(q) && static_codec(q) is Some {
                    statics_keep(f, k + 1, m.insert(q, static_codec(q)->0), pt);
                } else {
                    statics_keep(f, k + 1, m, pt);
                }
            },
            None => {
                statics_keep(f, k + 1, m, pt);
            },
        }
    }
}

/// An rtpmap line wins over the static assignment of its payload type, and a payload type without
/// one is in the map only as a format with a static assignment.
pub proof fn rtpmap_overrides_static(s: SectionView, pt: u8)
    ensures
        rtpmaps(s.attributes).contains_key(pt) ==> payload_map_of(s).contains_key(pt)
            && payload_map_of(s)[pt] == rtpmaps(s.attributes)[pt],
        payload_map_of(s).contains_key(pt) && !rtpmaps(s.attributes).contains_key(pt)
            ==> static_codec(pt) == Some(payload_map_of(s)[pt]) && exists|i: int|
            0 <= i < s.formats.len() && format_pt(#[trigger] s.formats[i]) == Some(pt),
{
    statics_keep(s.formats, 0, rtpmaps(s.attributes), pt);
}

/// A dynamic payload type without an rtpmap line is not in the map.
pub proof fn dynamic_types_need_rtpmap(s: SectionView, pt: u8)
    requires
        96 <= pt,
        !rtpmaps(s.attributes).contains_key(pt),
    ensures
        !payload_map_of(s).contains_key(pt),
{
    rtpmap_overrides_static(s, pt);
}

/// `a=extmap:<id> <uri>`.
pub open spec fn extmap_entry(a: AttributeView) -> Option<(u8, Seq<char>)> {
    match a.value {
        Some(v) => {
            let w = words(v);
            if a.key == "extmap"@ && w.len() >= 2 && number(w[0], 255) is Some {
                Some((number(w[0], 255)->0 as u8, w[1]))
            } else {
                None
            }
        },
        None => None,
    }
}

/// `m` with the extmap lines from index `k` on.
pub open spec fn extmap_from(a: Seq<AttributeView>, k: int, m: Map<u8, Seq<char>>) -> Map<
    u8,
    Seq<char>,
>
    decreases a.len() - k,
{
    if k < 0 || k >= a.len() {
        m
    } else {
        match extmap_entry(a[k]) {
            Some(e) => extmap_from(a, k + 1, m.insert(e.0, e.1)),
            None => extmap_from(a, k + 1, m),
        }
    }
}

/// The header extensions of a section.
pub open spec fn extmap_of(s: SectionView) -> Map<u8, Seq<char>> {
    extmap_from(s.attributes, 0, Map::empty())
}

fn read_extmap(a: &Attribute) -> (r: Option<(u8, String)>)
    ensures
        match r {
            Some(e) => extmap_entry(a@) == Some((e.0, e.1@)),
            None => extmap_entry(a@) is None,
        },
{
    let v = match &a.value {
        Some(v) => v,
        None => {
            return None;
        },
    };
    if !same_text(a.key.as_str(), "extmap") {
        return None;
    }
    let w = split_words(v.as_str());
    assert(texts(w@).len() == w@.len());
    if w.len() < 2 {
        return None;
    }
    assert(texts(w@)[0] == w@[0]@ && texts(w@)[1] == w@[1]@);
    match parse_u8(w[0].as_str()) {
        Some(id) => Some((id, w[1].clone())),
        None => None,
    }
}

/// The header extensions of a section by identifier.
pub fn extract_extmap(section: &MediaSection) -> (r: HashMap<u8, String>)
    ensures
        uris(r@) == extmap_of(section@),
{
    let mut m: HashMap<u8, String> = HashMap::new();
    assert(uris(m@) =~= Map::<u8, Seq<char>>::empty());
    let mut i: usize = 0;
    while i < section.attributes.len()
        invariant
            i <= section.attributes@.len(),
            extmap_of(section@) == extmap_from(section@.attributes, i as int, uris(m@)),
        decreases section.attributes@.len() - i,
    {
        assert(section@.attributes[i as int] == section.attributes@[i as int]@);
        if let Some(e) = read_extmap(&section.attributes[i]) {
            let ghost before = m@;
            let ghost uri = e.1@;
            m.insert(e.0, e.1);
            assert(uris(m@) =~= uris(before).insert(e.0, uri));
        }
        i += 1;
    }
    m
}

/// The lowest identifier at or above `k` that maps to a text satisfying `p`.
pub open spec fn id_from(m: Map<u8, Seq<char>>, p: spec_fn(Seq<char>) -> bool, k: int) -> Option<u8>
    decreases 256 - k,
{
    if k < 0 || k > 255 {
        None
    } else if m.contains_key(k as u8) && p(m[k as u8]) {
        Some(k as u8)
    } else {
        id_from(m, p, k + 1)
    }
}

/// Exactly the given text.
pub open spec fn is_uri(uri: Seq<char>) -> spec_fn(Seq<char>) -> bool {
    |s: Seq<char>| s == uri
}

/// A text with the given part.
pub open spec fn has_uri_part(part: Seq<char>) -> spec_fn(Seq<char>) -> bool {
    |s: Seq<char>| crate::text::contains_text(s, part)
}

/// The lowest identifier of an extension.
pub fn find_extension_id(m: &HashMap<u8, String>, uri: &str) -> (r: Option<u8>)
    ensures
        r == id_from(uris(m@), is_uri(uri@), 0),
{
    let mut k: u16 = 0;
    while k < 256
        invariant
            k <= 256,
            id_from(uris(m@), is_uri(uri@), 0) == id_from(uris(m@), is_uri(uri@), k as int),
        decreases 256 - k,
    {
        let id: u8 = k as u8;
        if let Some(s) = m.get(&id) {
            if same_text(s.as_str(), uri) {
                return Some(id);
            }
        }
        k += 1;
    }
    None
}

/// The lowest identifier of an extension whose name has a given part.
pub fn find_extension_id_with_part(m: &HashMap<u8, String>, part: &str) -> (r: Option<u8>)
    ensures
        r == id_from(uris(m@), has_uri_part(part@), 0),
{
    let mut k: u16 = 0;
    while k < 256
        invariant
            k <= 256,
            id_from(uris(m@), has_uri_part(part@), 0) == id_from(
                uris(m@),
                has_uri_part(part@),
                k as int,
            ),
        decreases 256 - k,
    {
        let id: u8 = k as u8;
        if let Some(s) = m.get(&id) {
            if crate::text::has_part(s.as_str(), part) {
                return Some(id);
            }
        }
        k += 1;
    }
    None
}

/// A payload that is never a sender's own: telephone events and retransmissions.
pub open spec fn is_auxiliary(c: CodecView) -> bool {
    same_ignoring_case(c.name, "telephone-event"@) || same_ignoring_case(c.name, "rtx"@)
}

/// Formats with a codec that a sender can use.
pub open spec fn usable(m: Map<u8, CodecView>) -> spec_fn(Seq<char>) -> bool {
    |f: Seq<char>|
        format_pt(f) is Some && m.contains_key(format_pt(f)->0) && !is_auxiliary(
            m[format_pt(f)->0],
        )
}

/// Usable formats with the name of `cur`, where both have one.
pub open spec fn named_like(m: Map<u8, CodecView>, cur: CodecView) -> spec_fn(Seq<char>) -> bool {
    |f: Seq<char>|
        usable(m)(f) && cur.name.len() > 0 && m[format_pt(f)->0].name.len() > 0
            && same_ignoring_case(m[format_pt(f)->0].name, cur.name)
}

/// Usable formats with the clock rate of `cur`.
pub open spec fn clocked_like(
    m: Map<u8, CodecView>,
    cur: CodecView,
) -> spec_fn(Seq<char>) -> bool {
    |f: Seq<char>| usable(m)(f) && m[format_pt(f)->0].clock_rate == cur.clock_rate
}

/// The parameters that a sender with `cur` stamps after a negotiation: the first format with the
/// same name, else with the same clock rate, else the first usable one.
pub open spec fn sender_codec(
    f: Seq<Seq<char>>,
    m: Map<u8, CodecView>,
    cur: CodecView,
) -> Option<CodecView> {
    match first(f, named_like(m, cur)) {
        Some(i) => Some(m[format_pt(f[i])->0]),
        None => match first(f, clocked_like(m, cur)) {
            Some(i) => Some(m[format_pt(f[i])->0]),
            None => match first(f, usable(m)) {
                Some(i) => Some(m[format_pt(f[i])->0]),
                None => None,
            },
        },
    }
}

fn auxiliary(p: &RtpCodecParameters) -> (r: bool)
    ensures
        r == is_auxiliary(p@),
{
    equal_ignoring_case(p.name.as_str(), "telephone-event") || equal_ignoring_case(
        p.name.as_str(),
        "rtx",
    )
}

fn usable_codec<'a>(m: &'a HashMap<u8, RtpCodecParameters>, f: &str) -> (r: Option<
    &'a RtpCodecParameters,
>)
    ensures
        match r {
            Some(p) => usable(codecs(m@))(f@) && codecs(m@)[format_pt(f@)->0] == p@,
            None => !usable(codecs(m@))(f@),
        },
{
    match parse_u8(f) {
        Some(pt) => match m.get(&pt) {
            Some(p) => if auxiliary(p) {
                None
            } else {
                Some(p)
            },
            None => None,
        },
        None => None,
    }
}

/// Picks the parameters that a sender stamps after a negotiation.
pub fn pick_sender_codec_params(
    section: &MediaSection,
    payload_map: &HashMap<u8, RtpCodecParameters>,
    cur: &RtpCodecParameters,
) -> (r: Option<RtpCodecParameters>)
    ensures
        match sender_codec(section@.formats, codecs(payload_map@), cur@) {
            Some(c) => r matches Some(p) && p@ == c,
            None => r is None,
        },
{
    let ghost f = section@.formats;
    let ghost m = codecs(payload_map@);
    let mut i: usize = 0;
    while i < section.formats.len()
        invariant
            i <= section.formats@.len(),
            f == section@.formats,
            m == codecs(payload_map@),
            first(f, named_like(m, cur@)) == first_from(f, named_like(m, cur@), i as int),
        decreases section.formats@.len() - i,
    {
        assert(f[i as int] == section.formats@[i as int]@);
        if let Some(p) = usable_codec(payload_map, section.formats[i].as_str()) {
            if !cur.name.as_str().is_empty() && !p.name.as_str().is_empty() && equal_ignoring_case(
                p.name.as_str(),
                cur.name.as_str(),
            ) {
                return Some(p.clone());
            }
        }
        i += 1;
    }
    let mut fallback: Option<usize> = None;
    let mut j: usize = 0;
    while j < section.formats.len()
        invariant
            j <= section.formats@.len(),
            f == section@.formats,
            m == codecs(payload_map@),
            first(f, named_like(m, cur@)) is None,
            first(f, clocked_like(m, cur@)) == first_from(f, clocked_like(m, cur@), j as int),
            match fallback {
                Some(k) => k < section.formats@.len() && first(f, usable(m)) == Some(k as int)
                    && usable(m)(f[k as int]),
                None => first(f, usable(m)) == first_from(f, usable(m), j as int),
            },
        decreases section.formats@.len() - j,
    {
        assert(f[j as int] == section.formats@[j as int]@);
        if let Some(p) = usable_codec(payload_map, section.formats[j].as_str()) {
            if fallback.is_none() {
                fallback = Some(j);
            }
            if p.clock_rate == cur.clock_rate {
                return Some(p.clone());
            }
        }
        j += 1;
    }
    match fallback {
        Some(k) => {
            assert(f[k as int] == section.formats@[k as int]@);
            match usable_codec(payload_map, section.formats[k].as_str()) {
                Some(p) => Some(p.clone()),
                None => None,
            }
        },
        None => None,
    }
}

/// What a sender stamps is one of the negotiated codecs, and never an auxiliary one.
pub proof fn sender_codec_is_usable(f: Seq<Seq<char>>, m: Map<u8, CodecView>, cur: CodecView)
    ensures
        sender_codec(f, m, cur) matches Some(c) ==> !is_auxiliary(c) && exists|i: int|
            0 <= i < f.len() && usable(m)(#[trigger] f[i]) && m[format_pt(f[i])->0] == c,
{
    first_from_facts(f, named_like(m, cur), 0);
    first_from_facts(f, clocked_like(m, cur), 0);
    first_from_facts(f, usable(m), 0);
    if let Some(i) = first(f, named_like(m, cur)) {
        assert(usable(m)(f[i]));
    } else if let Some(i) = first(f, clocked_like(m, cur)) {
        assert(usable(m)(f[i]));
    } else if let Some(i) = first(f, usable(m)) {
        assert(usable(m)(f[i]));
    }
}

/// A sender keeps its codec wherever the other side offers a codec of that name.
pub proof fn sender_codec_keeps_name(
    f: Seq<Seq<char>>,
    m: Map<u8, CodecView>,
    cur: CodecView,
    i: int,
)
    requires
        0 <= i < f.len(),
        named_like(m, cur)(f[i]),
    ensures
        sender_codec(f, m, cur) matches Some(c) && same_ignoring_case(c.name, cur.name),
{
    first_from_facts(f, named_like(m, cur), 0);
}

/// The number that an `a=ssrc` line begins with.
pub open spec fn ssrc_of(a: AttributeView) -> Option<u32> {
    match a.value {
        Some(v) => if a.key == "ssrc"@ && words(v).len() >= 1 && number(
            words(v)[0],
            0xffff_ffff,
        ) is Some {
            Some(number(words(v)[0], 0xffff_ffff)->0 as u32)
        } else {
            None
        },
        None => None,
    }
}

/// Lines that name an SSRC.
pub open spec fn names_ssrc() -> spec_fn(AttributeView) -> bool {
    |a: AttributeView| ssrc_of(a) is Some
}

/// The first SSRC that a section names.
pub open spec fn section_ssrc(s: SectionView) -> Option<u32> {
    match first(s.attributes, names_ssrc()) {
        Some(i) => ssrc_of(s.attributes[i]),
        None => None,
    }
}

/// Reads an `a=ssrc` line.
pub fn read_ssrc(a: &Attribute) -> (r: Option<u32>)
    ensures
        r == ssrc_of(a@),
{
    let v = match &a.value {
        Some(v) => v,
        None => {
            return None;
        },
    };
    if !same_text(a.key.as_str(), "ssrc") {
        return None;
    }
    let w = split_words(v.as_str());
    assert(texts(w@).len() == w@.len());
    if w.len() < 1 {
        return None;
    }
    assert(texts(w@)[0] == w@[0]@);
    parse_u32(w[0].as_str())
}

/// The first SSRC that a section names.
pub fn extract_ssrc_from_section(section: &MediaSection) -> (r: Option<u32>)
    ensures
        r == section_ssrc(section@),
{
    let ghost a = section@.attributes;
    let mut i: usize = 0;
    while i < section.attributes.len()
        invariant
            i <= section.attributes@.len(),
            a == section@.attributes,
            first(a, names_ssrc()) == first_from(a, names_ssrc(), i as int),
        decreases section.attributes@.len() - i,
    {
        assert(a[i as int] == section.attributes@[i as int]@);
        let r = read_ssrc(&section.attributes[i]);
        if r.is_some() {
            return r;
        }
        i += 1;
    }
    None
}

/// The SSRC of the first `a=ssrc` line, if that line can be read.
pub open spec fn leading_ssrc(s: SectionView) -> Option<u32> {
    match first(s.attributes, crate::sdp::keyed("ssrc"@)) {
        Some(i) => ssrc_of(s.attributes[i]),
        None => None,
    }
}

/// The SSRC of the first `a=ssrc` line.
pub fn remote_ssrc_from_section(section: &MediaSection) -> (r: Option<u32>)
    ensures
        r == leading_ssrc(section@),
{
    match crate::sdp::find_key(&section.attributes, "ssrc") {
        Some(i) => {
            assert(section@.attributes[i as int] == section.attributes@[i as int]@);
            read_ssrc(&section.attributes[i])
        },
        None => None,
    }
}

proof fn last_rtpmap_counts_from(
    a: Seq<AttributeView>,
    k: int,
    m: Map<u8, CodecView>,
    i: int,
    pt: u8,
)
    requires
        0 <= k <= i < a.len(),
        rtpmap_of(a[i]) is Some,
        rtpmap_of(a[i])->0.payload_type == pt,
        forall|j: int| i < j < a.len() ==> !(rtpmap_of(#[trigger] a[j]) matches Some(c) && c.payload_type
            == pt),
    ensures
        rtpmaps_from(a, k, m).contains_key(pt),
        rtpmaps_from(a, k, m)[pt] == rtpmap_of(a[i])->0,
    decreases a.len() - k,
{
    let next = match rtpmap_of(a[k]) {
        Some(c) => m.insert(c.payload_type, c),
        None => m,
    };
    if k < i {
        last_rtpmap_counts_from(a, k + 1, next, i, pt);
    } else {
        other_rtpmaps_keep(a, k + 1, next, pt);
    }
}

proof fn other_rtpmaps_keep(a: Seq<AttributeView>, k: int, m: Map<u8, CodecView>, pt: u8)
    requires
        0 <= k,
        forall|j: int| k <= j < a.len() ==> !(rtpmap_of(#[trigger] a[j]) matches Some(c) && c.payload_type
            == pt),
    ensures
        rtpmaps_from(a, k, m).contains_key(pt) == m.contains_key(pt),
        m.contains_key(pt) ==> rtpmaps_from(a, k, m)[pt] == m[pt],
    decreases a.len() - k,
{
    if k < a.len() {
        let next = match rtpmap_of(a[k]) {
            Some(c) => m.insert(c.payload_type, c),
            None => m,
        };
        other_rtpmaps_keep(a, k + 1, next, pt);
    }
}

/// A line is `<number> <name>/<rate>`, with `/<channels>` behind it or not.
pub open spec fn describes_codec(line: Seq<char>, c: CodecView) -> bool {
    let w = words(line);
    let p = pieces(w[1], '/');
    &&& w.len() >= 2
    &&& number(w[0], 255) == Some(c.payload_type as nat)
    &&& p.len() >= 2
    &&& p[0] == c.name
    &&& number(p[1], 0xffff_ffff) == Some(c.clock_rate as nat)
    &&& if p.len() == 2 {
        c.channels == 0
    } else {
        number(p[2], 255) == Some(c.channels as nat)
    }
}

/// The codec of a payload type is the one that the last rtpmap line for that type describes: its
/// name, its clock rate and its channels.
pub proof fn last_rtpmap_line_counts(s: SectionView, i: int, line: Seq<char>, c: CodecView)
    requires
        0 <= i < s.attributes.len(),
        s.attributes[i] == (AttributeView { key: "rtpmap"@, value: Some(line) }),
        describes_codec(line, c),
        forall|j: int, l: Seq<char>|
            i < j < s.attributes.len() && #[trigger] s.attributes[j] == (AttributeView {
                key: "rtpmap"@,
                value: Some(l),
            }) && #[trigger] words(l).len() >= 1 ==> number(words(l)[0], 255) != Some(
                c.payload_type as nat,
            ),
    ensures
        payload_map_of(s).contains_key(c.payload_type),
        payload_map_of(s)[c.payload_type] == c,
{
    let a = s.attributes;
    assert(rtpmap_of(a[i]) == Some(c));
    assert forall|j: int| i < j < a.len() implies !(rtpmap_of(#[trigger] a[j]) matches Some(d)
        && d.payload_type == c.payload_type) by {
        if rtpmap_of(a[j]) is Some {
            let l = a[j].value->0;
            assert(a[j] == (AttributeView { key: "rtpmap"@, value: Some(l) }));
            assert(words(l).len() >= 1);
        }
    }
    last_rtpmap_counts_from(a, 0, Map::empty(), i, c.payload_type);
    rtpmap_overrides_static(s, c.payload_type);
}

/// A payload type is known only where a line describes it, or a format has it by assignment.
pub proof fn known_types_are_described(s: SectionView, pt: u8)
    requires
        payload_map_of(s).contains_key(pt),
    ensures
        (exists|i: int|
            0 <= i < s.attributes.len() && (#[trigger] s.attributes[i]).key == "rtpmap"@
                && s.attributes[i].value is Some && words(s.attributes[i].value->0).len() >= 2
                && number(words(s.attributes[i].value->0)[0], 255) == Some(pt as nat)) || ((pt == 0
            || pt == 8 || pt == 9 || pt == 18) && exists|i: int|
            0 <= i < s.formats.len() && number(#[trigger] s.formats[i], 255) == Some(pt as nat)),
{
    rtpmap_overrides_static(s, pt);
    if rtpmaps(s.attributes).contains_key(pt) {
        rtpmap_came_from_a_line(s.attributes, 0, Map::empty(), pt);
    }
}

proof fn rtpmap_came_from_a_line(a: Seq<AttributeView>, k: int, m: Map<u8, CodecView>, pt: u8)
    requires
        0 <= k,
        rtpmaps_from(a, k, m).contains_key(pt),
        !m.contains_key(pt),
    ensures
        exists|i: int|
            k <= i < a.len() && rtpmap_of(#[trigger] a[i]) is Some && rtpmap_of(
                a[i],
            )->0.payload_type == pt,
    decreases a.len() - k,
{
    if k < a.len() {
        let next = match rtpmap_of(a[k]) {
            Some(c) => m.insert(c.payload_type, c),
            None => m,
        };
        if !next.contains_key(pt) {
            rtpmap_came_from_a_line(a, k + 1, next, pt);
        } else {
            assert(rtpmap_of(a[k]) is Some);
        }
    }
}

/// The static payload types and what they are assigned to.
pub proof fn static_types_are_assigned(s: SectionView, i: int, pt: u8)
    requires
        0 <= i < s.formats.len(),
        number(s.formats[i], 255) == Some(pt as nat),
        !rtpmaps(s.attributes).contains_key(pt),
    ensures
        pt == 0 || pt == 8 || pt == 9 || pt == 18 <==> payload_map_of(s).contains_key(pt),
        payload_map_of(s).contains_key(pt) ==> ({
            let c = payload_map_of(s)[pt];
            &&& c.payload_type == pt
            &&& c.clock_rate == 8000
            &&& c.channels == 1
            &&& pt == 0 ==> c.name == "PCMU"@
            &&& pt == 8 ==> c.name == "PCMA"@
            &&& pt == 9 ==> c.name == "G722"@
            &&& pt == 18 ==> c.name == "G729"@
        }),
{
    rtpmap_overrides_static(s, pt);
    if static_codec(pt) is Some {
        static_is_found(s.formats, 0, rtpmaps(s.attributes), i, pt);
    }
}

proof fn static_is_found(f: Seq<Seq<char>>, k: int, m: Map<u8, CodecView>, i: int, pt: u8)
    requires
        0 <= k <= i < f.len() || m.contains_key(pt),
        0 <= k,
        m.contains_key(pt) || format_pt(f[i]) == Some(pt),
        static_codec(pt) is Some,
    ensures
        statics_from(f, k, m).contains_key(pt),
    decreases f.len() - k,
{
    if k < f.len() {
        let next = match format_pt(f[k]) {
            Some(q) => if !m.contains_key(q) && static_codec(q) is Some {
                m.insert(q, static_codec(q)->0)
            } else {
                m
            },
            None => m,
        };
        static_is_found(f, k + 1, next, i, pt);
    }
}

/// A line names an SSRC: its key is `ssrc`, and its value begins with the number.
pub open spec fn is_ssrc_line(a: AttributeView, ssrc: u32) -> bool {
    &&& a.key == "ssrc"@
    &&& a.value matches Some(v) && words(v).len() >= 1 && number(words(v)[0], 0xffff_ffff) == Some(
        ssrc as nat,
    )
}

/// The SSRC of a section is the one that its first line names that names one; without such a line
/// it has none.
pub proof fn first_ssrc_line_counts(s: SectionView, i: int, ssrc: u32)
    ensures
        0 <= i < s.attributes.len() && is_ssrc_line(s.attributes[i], ssrc) && (forall|j: int, n: u32|
            0 <= j < i ==> !#[trigger] is_ssrc_line(s.attributes[j], n)) ==> section_ssrc(s) == Some(
            ssrc,
        ),
        (forall|j: int, n: u32|
            0 <= j < s.attributes.len() ==> !#[trigger] is_ssrc_line(s.attributes[j], n))
            ==> section_ssrc(s) is None,
{
    let a = s.attributes;
    first_from_facts(a, names_ssrc(), 0);
    assert forall|j: int| 0 <= j < a.len() && names_ssrc()(#[trigger] a[j]) implies is_ssrc_line(
        a[j],
        ssrc_of(a[j])->0,
    ) by {}
    if 0 <= i < a.len() && is_ssrc_line(a[i], ssrc) {
        assert(names_ssrc()(a[i]));
    }
}

proof fn last_extmap_counts_from(
    a: Seq<AttributeView>,
    k: int,
    m: Map<u8, Seq<char>>,
    i: int,
    id: u8,
)
    requires
        0 <= k,
        k <= i < a.len() && extmap_entry(a[i]) is Some && (extmap_entry(a[i])->0).0 == id
            || m.contains_key(id) && i < k,
        forall|j: int| i < j < a.len() ==> !(extmap_entry(#[trigger] a[j]) matches Some(e) && e.0
            == id),
    ensures
        extmap_from(a, k, m).contains_key(id),
        extmap_from(a, k, m)[id] == (if i < k {
            m[id]
        } else {
            (extmap_entry(a[i])->0).1
        }),
    decreases a.len() - k,
{
    if k < a.len() {
        let next = match extmap_entry(a[k]) {
            Some(e) => m.insert(e.0, e.1),
            None => m,
        };
        last_extmap_counts_from(a, k + 1, next, i, id);
    }
}

/// The header extension under an identifier is the one that the last extmap line for it names.
pub proof fn last_extmap_line_counts(s: SectionView, i: int, line: Seq<char>, id: u8)
    requires
        0 <= i < s.attributes.len(),
        s.attributes[i] == (AttributeView { key: "extmap"@, value: Some(line) }),
        words(line).len() >= 2,
        number(words(line)[0], 255) == Some(id as nat),
        forall|j: int, l: Seq<char>|
            i < j < s.attributes.len() && #[trigger] s.attributes[j] == (AttributeView {
                key: "extmap"@,
                value: Some(l),
            }) && #[trigger] words(l).len() >= 2 ==> number(words(l)[0], 255) != Some(id as nat),
    ensures
        extmap_of(s).contains_key(id),
        extmap_of(s)[id] == words(line)[1],
{
    let a = s.attributes;
    assert forall|j: int| i < j < a.len() implies !(extmap_entry(#[trigger] a[j]) matches Some(e)
        && e.0 == id) by {
        if extmap_entry(a[j]) is Some {
            let l = a[j].value->0;
            assert(a[j] == (AttributeView { key: "extmap"@, value: Some(l) }));
            assert(words(l).len() >= 2);
        }
    }
    last_extmap_counts_from(a, 0, Map::empty(), i, id);
}

/// The identifier of an extension is the lowest one that is mapped to it.
pub proof fn lowest_identifier_is_found(
    m: Map<u8, Seq<char>>,
    p: spec_fn(Seq<char>) -> bool,
    k: int,
)
    requires
        0 <= k,
    ensures
        id_from(m, p, k) matches Some(id) ==> k <= id && m.contains_key(id) && p(m[id])
            && forall|j: u8| k <= j < id ==> !(#[trigger] m.contains_key(j) && p(m[j])),
        id_from(m, p, k) is None ==> forall|j: u8|
            k <= j ==> !(#[trigger] m.contains_key(j) && p(m[j])),
    decreases 256 - k,
{
    if k <= 255 {
        lowest_identifier_is_found(m, p, k + 1);
    }
}

/// The codec that a sender takes after a negotiation is that of a format, which is not for events
/// or retransmissions. No earlier format has a codec of the sender's name; if this one has not
/// either, none has, and no earlier format has the clock rate; if this one has not either, none
/// has, and it is the first one.
pub proof fn senders_take_the_nearest_codec(
    f: Seq<Seq<char>>,
    m: Map<u8, CodecView>,
    cur: CodecView,
) -> (at: int)
    requires
        sender_codec(f, m, cur) is Some,
    ensures
        ({
            let c = sender_codec(f, m, cur)->0;
            let fits = |i: int|
                0 <= i < f.len() && number(f[i], 255) is Some && m.contains_key(
                    number(f[i], 255)->0 as u8,
                ) && !same_ignoring_case(
                    m[number(f[i], 255)->0 as u8].name,
                    "telephone-event"@,
                ) && !same_ignoring_case(m[number(f[i], 255)->0 as u8].name, "rtx"@);
            let name = |i: int|
                cur.name.len() > 0 && same_ignoring_case(
                    m[number(f[i], 255)->0 as u8].name,
                    cur.name,
                ) && m[number(f[i], 255)->0 as u8].name.len() > 0;
            let rate = |i: int| m[number(f[i], 255)->0 as u8].clock_rate == cur.clock_rate;
            &&& fits(at)
            &&& c == m[number(f[at], 255)->0 as u8]
            &&& forall|i: int| 0 <= i < f.len() && #[trigger] fits(i) && name(i) ==> name(at) && at
                <= i
            &&& !name(at) ==> forall|i: int|
                0 <= i < f.len() && #[trigger] fits(i) && rate(i) ==> rate(at) && at <= i
            &&& !name(at) && !rate(at) ==> forall|i: int|
                0 <= i < f.len() && #[trigger] fits(i) ==> at <= i
        }),
{
    first_from_facts(f, named_like(m, cur), 0);
    first_from_facts(f, clocked_like(m, cur), 0);
    first_from_facts(f, usable(m), 0);
    let at = match first(f, named_like(m, cur)) {
        Some(i) => i,
        None => match first(f, clocked_like(m, cur)) {
            Some(i) => i,
            None => first(f, usable(m))->0,
        },
    };
    assert(usable(m)(f[at]));
    assert forall|i: int| 0 <= i < f.len() implies #[trigger] usable(m)(f[i]) == (number(
        f[i],
        255,
    ) is Some && m.contains_key(number(f[i], 255)->0 as u8) && !same_ignoring_case(
        m[number(f[i], 255)->0 as u8].name,
        "telephone-event"@,
    ) && !same_ignoring_case(m[number(f[i], 255)->0 as u8].name, "rtx"@)) by {}
    assert(forall|i: int|
        0 <= i < f.len() ==> #[trigger] named_like(m, cur)(f[i]) == (usable(m)(f[i])
            && cur.name.len() > 0 && m[number(f[i], 255)->0 as u8].name.len() > 0
            && same_ignoring_case(m[number(f[i], 255)->0 as u8].name, cur.name)));
    assert(forall|i: int|
        0 <= i < f.len() ==> #[trigger] clocked_like(m, cur)(f[i]) == (usable(m)(f[i])
            && m[number(f[i], 255)->0 as u8].clock_rate == cur.clock_rate));
    let fits = |i: int|
        0 <= i < f.len() && number(f[i], 255) is Some && m.contains_key(
            number(f[i], 255)->0 as u8,
        ) && !same_ignoring_case(m[number(f[i], 255)->0 as u8].name, "telephone-event"@)
            && !same_ignoring_case(m[number(f[i], 255)->0 as u8].name, "rtx"@);
    assert forall|i: int| 0 <= i < f.len() && #[trigger] fits(i) implies usable(m)(f[i]) by {}
    let name = |i: int|
        cur.name.len() > 0 && same_ignoring_case(m[number(f[i], 255)->0 as u8].name, cur.name)
            && m[number(f[i], 255)->0 as u8].name.len() > 0;
    let rate = |i: int| m[number(f[i], 255)->0 as u8].clock_rate == cur.clock_rate;
    assert forall|i: int| 0 <= i < f.len() && #[trigger] fits(i) && name(i) implies name(at) && at
        <= i by {
        assert(named_like(m, cur)(f[i]));
    }
    assert forall|i: int| 0 <= i < f.len() && #[trigger] fits(i) && rate(i) && !name(
        at,
    ) implies rate(at) && at <= i by {
        assert(clocked_like(m, cur)(f[i]));
        if first(f, named_like(m, cur)) is Some {
            assert(named_like(m, cur)(f[at]));
        }
    }
    assert forall|i: int| 0 <= i < f.len() && #[trigger] fits(i) && !name(at) && !rate(
        at,
    ) implies at <= i by {
        if first(f, named_like(m, cur)) is Some {
            assert(named_like(m, cur)(f[at]));
        } else if first(f, clocked_like(m, cur)) is Some {
            assert(clocked_like(m, cur)(f[at]));
        }
    }
    at
}

} // verus!
