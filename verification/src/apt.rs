//! Retransmission payload types in media sections (RFC 4588).

use crate::codec::codecs;
use crate::codec::extract_payload_map;
use crate::codec::format_pt;
use crate::codec::payload_map_of;
use crate::codec::CodecView;
use crate::search::first;
use crate::search::first_from;
use crate::search::kept;
use crate::search::kept_facts;
use crate::search::kept_from;
use crate::sdp::attr;
use crate::sdp::attrs;
use crate::sdp::find_section_of_kind;
use crate::sdp::find_section_with_mid;
use crate::sdp::of_kind;
use crate::sdp::push_attr;
use crate::sdp::with_mid;
use crate::sdp::Attribute;
use crate::sdp::AttributeView;
use crate::sdp::DescriptionView;
use crate::sdp::description_opt;
use crate::sdp::MediaKind;
use crate::sdp::MediaSection;
use crate::sdp::SectionView;
use crate::sdp::SessionDescription;
use crate::text::decimal;
use crate::text::decimal_text;
use crate::text::equal_ignoring_case;
use crate::text::has_prefix;
use crate::text::joined;
use crate::text::number;
use crate::text::parse_u8;
use crate::text::pieces;
use crate::text::same_ignoring_case;
use crate::text::same_text;
use crate::text::split_pieces;
use crate::text::split_words;
use crate::text::starts_with;
use crate::text::texts;
use crate::text::words;
use std::collections::HashMap;
use std::collections::HashSet;
use vstd::prelude::*;

verus! {

broadcast use vstd::std_specs::hash::group_hash_axioms;

/// The payload type that an `apt=` parameter names, in one `;`-separated piece of an fmtp line.
pub open spec fn apt_in(piece: Seq<char>) -> Option<u8> {
    let w = words(piece);
    if w.len() > 0 && starts_with(w.last(), "apt="@) {
        match number(w.last().skip(4), 255) {
            Some(n) => Some(n as u8),
            None => None,
        }
    } else {
        None
    }
}

/// Pieces with an `apt=` parameter.
pub open spec fn names_apt() -> spec_fn(Seq<char>) -> bool {
    |p: Seq<char>| apt_in(p) is Some
}

/// The payload type that a text begins with.
pub open spec fn leading_pt(v: Seq<char>) -> Option<u8> {
    let w = words(v);
    if w.len() > 0 {
        format_pt(w[0])
    } else {
        None
    }
}

/// `a=fmtp:<rtx> apt=<primary>`.
pub open spec fn apt_entry(a: AttributeView) -> Option<(u8, u8)> {
    match a.value {
        Some(v) => match first(pieces(v, ';'), names_apt()) {
            Some(i) => if a.key == "fmtp"@ && leading_pt(v) is Some {
                Some((leading_pt(v)->0, apt_in(pieces(v, ';')[i])->0))
            } else {
                None
            },
            None => None,
        },
        None => None,
    }
}

/// `m` with the `apt=` lines from index `k` on.
pub open spec fn apt_from(a: Seq<AttributeView>, k: int, m: Map<u8, u8>) -> Map<u8, u8>
    decreases a.len() - k,
{
    if k < 0 || k >= a.len() {
        m
    } else {
        match apt_entry(a[k]) {
            Some(e) => apt_from(a, k + 1, m.insert(e.0, e.1)),
            None => apt_from(a, k + 1, m),
        }
    }
}

/// Retransmission payload types and the primary ones that they repair.
pub open spec fn apt_map(a: Seq<AttributeView>) -> Map<u8, u8> {
    apt_from(a, 0, Map::empty())
}

fn read_apt_piece(piece: &str) -> (r: Option<u8>)
    ensures
        r == apt_in(piece@),
{
    let w = split_words(piece);
    assert(texts(w@).len() == w@.len());
    if w.len() == 0 {
        return None;
    }
    let last = w[w.len() - 1].as_str();
    assert(texts(w@).last() == last@);
    if !has_prefix(last, "apt=") {
        return None;
    }
    proof {
        reveal_strlit("apt=");
    }
    let n: usize = last.unicode_len();
    let rest = last.substring_char(4, n);
    assert(rest@ =~= last@.skip(4));
    parse_u8(rest)
}

fn read_leading_pt(v: &str) -> (r: Option<u8>)
    ensures
        r == leading_pt(v@),
{
    let w = split_words(v);
    assert(texts(w@).len() == w@.len());
    if w.len() == 0 {
        return None;
    }
    assert(texts(w@)[0] == w@[0]@);
    parse_u8(w[0].as_str())
}

fn read_apt(a: &Attribute) -> (r: Option<(u8, u8)>)
    ensures
        r == apt_entry(a@),
{
    let v = match &a.value {
        Some(v) => v,
        None => {
            return None;
        },
    };
    if !same_text(a.key.as_str(), "fmtp") {
        return None;
    }
    let rtx: u8 = match read_leading_pt(v.as_str()) {
        Some(n) => n,
        None => {
            return None;
        },
    };
    let parts = split_pieces(v.as_str(), ';');
    let ghost p = pieces(v@, ';');
    let mut i: usize = 0;
    while i < parts.len()
        invariant
            i <= parts@.len(),
            p == texts(parts@),
            p == pieces(v@, ';'),
            a@.value == Some(v@),
            a@.key == "fmtp"@,
            leading_pt(v@) == Some(rtx),
            first(p, names_apt()) == first_from(p, names_apt(), i as int),
        decreases parts@.len() - i,
    {
        assert(p[i as int] == parts@[i as int]@);
        if let Some(primary) = read_apt_piece(parts[i].as_str()) {
            return Some((rtx, primary));
        }
        i += 1;
    }
    None
}

/// The retransmission payload types of a section's attributes.
pub fn extract_rtx_apt_map_from_attrs(v: &Vec<Attribute>) -> (r: HashMap<u8, u8>)
    ensures
        r@ == apt_map(attrs(v@)),
{
    let mut m: HashMap<u8, u8> = HashMap::new();
    let mut i: usize = 0;
    assert(m@ =~= Map::<u8, u8>::empty());
    while i < v.len()
        invariant
            i <= v@.len(),
            apt_map(attrs(v@)) == apt_from(attrs(v@), i as int, m@),
        decreases v@.len() - i,
    {
        assert(attrs(v@)[i as int] == v@[i as int]@);
        if let Some(e) = read_apt(&v[i]) {
            m.insert(e.0, e.1);
        }
        i += 1;
    }
    m
}

/// The lowest payload type at or above `k` that repairs `primary`.
pub open spec fn rtx_from(m: Map<u8, u8>, primary: u8, k: int) -> Option<u8>
    decreases 256 - k,
{
    if k < 0 || k > 255 {
        None
    } else if m.contains_key(k as u8) && m[k as u8] == primary {
        Some(k as u8)
    } else {
        rtx_from(m, primary, k + 1)
    }
}

/// The lowest payload type that repairs `primary`.
pub fn rtx_pt_for_primary(m: &HashMap<u8, u8>, primary: u8) -> (r: Option<u8>)
    ensures
        r == rtx_from(m@, primary, 0),
{
    let mut k: u16 = 0;
    while k < 256
        invariant
            k <= 256,
            rtx_from(m@, primary, 0) == rtx_from(m@, primary, k as int),
        decreases 256 - k,
    {
        let pt: u8 = k as u8;
        if let Some(p) = m.get(&pt) {
            if *p == primary {
                return Some(pt);
            }
        }
        k += 1;
    }
    None
}

proof fn rtx_from_facts(m: Map<u8, u8>, primary: u8, k: int)
    requires
        0 <= k,
    ensures
        rtx_from(m, primary, k) matches Some(pt) ==> m.contains_key(pt) && m[pt] == primary,
        forall|pt: u8|
            k <= pt && #[trigger] m.contains_key(pt) && m[pt] == primary ==> rtx_from(
                m,
                primary,
                k,
            ) is Some,
    decreases 256 - k,
{
    if k <= 255 {
        rtx_from_facts(m, primary, k + 1);
    }
}

/// A primary payload type is repaired by a payload type that names it, whenever there is one.
pub proof fn rtx_pt_repairs_primary(m: Map<u8, u8>, primary: u8)
    ensures
        rtx_from(m, primary, 0) matches Some(pt) ==> m.contains_key(pt) && m[pt] == primary,
        rtx_from(m, primary, 0) is None <==> !(exists|pt: u8| #[trigger]
            m.contains_key(pt) && m[pt] == primary),
{
    rtx_from_facts(m, primary, 0);
}

/// Whether a section offers retransmission.
pub fn section_has_rtx(section: &MediaSection) -> (r: bool)
    ensures
        r == (apt_map(section@.attributes).dom() != Set::<u8>::empty()),
{
    let m = extract_rtx_apt_map_from_attrs(&section.attributes);
    let mut k: u16 = 0;
    while k < 256
        invariant
            k <= 256,
            m@ == apt_map(section@.attributes),
            forall|pt: u8| pt < k ==> !#[trigger] m@.contains_key(pt),
        decreases 256 - k,
    {
        let pt: u8 = k as u8;
        if m.contains_key(&pt) {
            assert(m@.dom().contains(pt));
            return true;
        }
        k += 1;
    }
    assert(m@.dom() =~= Set::<u8>::empty());
    false
}

/// Formats that are a primary payload type with a retransmission type.
pub open spec fn repaired(m: Map<u8, u8>) -> spec_fn(Seq<char>) -> bool {
    |f: Seq<char>|
        format_pt(f) is Some && !m.contains_key(format_pt(f)->0) && rtx_from(
            m,
            format_pt(f)->0,
            0,
        ) is Some
}

/// The retransmission type of the first primary format that has one.
pub open spec fn primary_rtx(s: SectionView) -> Option<u8> {
    let m = apt_map(s.attributes);
    match first(s.formats, repaired(m)) {
        Some(i) => rtx_from(m, format_pt(s.formats[i])->0, 0),
        None => None,
    }
}

/// The retransmission type of the first primary format that has one.
pub fn primary_rtx_payload_type(section: &MediaSection) -> (r: Option<u8>)
    ensures
        r == primary_rtx(section@),
{
    let m = extract_rtx_apt_map_from_attrs(&section.attributes);
    let ghost f = section@.formats;
    let mut i: usize = 0;
    while i < section.formats.len()
        invariant
            i <= section.formats@.len(),
            f == section@.formats,
            m@ == apt_map(section@.attributes),
            first(f, repaired(m@)) == first_from(f, repaired(m@), i as int),
        decreases section.formats@.len() - i,
    {
        assert(f[i as int] == section.formats@[i as int]@);
        if let Some(pt) = parse_u8(section.formats[i].as_str()) {
            if !m.contains_key(&pt) {
                if let Some(rtx) = rtx_pt_for_primary(&m, pt) {
                    return Some(rtx);
                }
            }
        }
        i += 1;
    }
    None
}

/// `a=rtpmap:<pt> rtx/..`.
pub open spec fn rtx_rtpmap(a: AttributeView) -> Option<u8> {
    match a.value {
        Some(v) => {
            let w = words(v);
            if a.key == "rtpmap"@ && w.len() >= 2 && same_ignoring_case(
                pieces(w[1], '/')[0],
                "rtx"@,
            ) {
                format_pt(w[0])
            } else {
                None
            }
        },
        None => None,
    }
}

/// The payload types from index `k` on that rtpmap lines call `rtx`, with `s`.
pub open spec fn rtx_named_from(a: Seq<AttributeView>, k: int, s: Set<u8>) -> Set<u8>
    decreases a.len() - k,
{
    if k < 0 || k >= a.len() {
        s
    } else {
        match rtx_rtpmap(a[k]) {
            Some(pt) => rtx_named_from(a, k + 1, s.insert(pt)),
            None => rtx_named_from(a, k + 1, s),
        }
    }
}

/// The retransmission payload types: those with an `apt=` and those called `rtx`.
pub open spec fn rtx_types(a: Seq<AttributeView>) -> Set<u8> {
    rtx_named_from(a, 0, apt_map(a).dom())
}

/// Formats of none of the payload types.
pub open spec fn format_outside(types: Set<u8>) -> spec_fn(Seq<char>) -> bool {
    |f: Seq<char>| !(format_pt(f) matches Some(pt) && types.contains(pt))
}

/// Attributes that describe none of the payload types.
pub open spec fn attribute_outside(types: Set<u8>) -> spec_fn(AttributeView) -> bool {
    |a: AttributeView|
        !((a.key == "rtpmap"@ || a.key == "fmtp"@ || a.key == "rtcp-fb"@)
            && (a.value matches Some(v) && leading_pt(v) matches Some(pt) && types.contains(pt)))
}

/// A section without its retransmission payload types.
pub open spec fn stripped(s: SectionView) -> SectionView {
    let types = rtx_types(s.attributes);
    SectionView {
        formats: kept(s.formats, format_outside(types)),
        attributes: kept(s.attributes, attribute_outside(types)),
        ..s
    }
}

fn read_rtx_rtpmap(a: &Attribute) -> (r: Option<u8>)
    ensures
        r == rtx_rtpmap(a@),
{
    let v = match &a.value {
        Some(v) => v,
        None => {
            return None;
        },
    };
    if !same_text(a.key.as_str(), "rtpmap") {
        return None;
    }
    let w = split_words(v.as_str());
    assert(texts(w@).len() == w@.len());
    if w.len() < 2 {
        return None;
    }
    assert(texts(w@)[0] == w@[0]@ && texts(w@)[1] == w@[1]@);
    let p = split_pieces(w[1].as_str(), '/');
    assert(texts(p@).len() == p@.len());
    if p.len() == 0 {
        assert(pieces(w@[1]@, '/').len() > 0);
        return None;
    }
    assert(texts(p@)[0] == p@[0]@);
    if equal_ignoring_case(p[0].as_str(), "rtx") {
        parse_u8(w[0].as_str())
    } else {
        None
    }
}

fn collect_rtx_types(v: &Vec<Attribute>) -> (r: HashSet<u8>)
    ensures
        r@ == rtx_types(attrs(v@)),
{
    let m = extract_rtx_apt_map_from_attrs(v);
    let mut s: HashSet<u8> = HashSet::new();
    let mut k: u16 = 0;
    while k < 256
        invariant
            k <= 256,
            m@ == apt_map(attrs(v@)),
            forall|pt: u8| #[trigger] s@.contains(pt) <==> pt < k && m@.contains_key(pt),
        decreases 256 - k,
    {
        let pt: u8 = k as u8;
        if m.contains_key(&pt) {
            s.insert(pt);
        }
        k += 1;
    }
    assert(s@ =~= apt_map(attrs(v@)).dom());
    let mut i: usize = 0;
    while i < v.len()
        invariant
            i <= v@.len(),
            rtx_types(attrs(v@)) == rtx_named_from(attrs(v@), i as int, s@),
        decreases v@.len() - i,
    {
        assert(attrs(v@)[i as int] == v@[i as int]@);
        if let Some(pt) = read_rtx_rtpmap(&v[i]) {
            s.insert(pt);
        }
        i += 1;
    }
    s
}

fn describes(a: &Attribute, types: &HashSet<u8>) -> (r: bool)
    ensures
        r == !attribute_outside(types@)(a@),
{
    let key = a.key.as_str();
    if !same_text(key, "rtpmap") && !same_text(key, "fmtp") && !same_text(key, "rtcp-fb") {
        return false;
    }
    match &a.value {
        Some(v) => match read_leading_pt(v.as_str()) {
            Some(pt) => types.contains(&pt),
            None => false,
        },
        None => false,
    }
}

/// Removes the retransmission payload types of a section with all that describes them.
pub fn strip_rtx_from_section(section: &mut MediaSection)
    ensures
        final(section)@ == stripped(old(section)@),
{
    let ghost s0 = section@;
    let types = collect_rtx_types(&section.attributes);
    let mut formats: Vec<String> = Vec::new();
    assert(texts(formats@) =~= Seq::<Seq<char>>::empty());
    let mut i: usize = 0;
    while i < section.formats.len()
        invariant
            i <= section.formats@.len(),
            section@ == s0,
            types@ == rtx_types(s0.attributes),
            kept(s0.formats, format_outside(types@)) == kept_from(
                s0.formats,
                format_outside(types@),
                i as int,
                texts(formats@),
            ),
        decreases section.formats@.len() - i,
    {
        assert(s0.formats[i as int] == section.formats@[i as int]@);
        let drop = match parse_u8(section.formats[i].as_str()) {
            Some(pt) => types.contains(&pt),
            None => false,
        };
        if !drop {
            let f = section.formats[i].clone();
            let ghost before = formats@;
            formats.push(f);
            assert(texts(formats@) =~= texts(before).push(f@));
        }
        i += 1;
    }
    let mut attributes: Vec<Attribute> = Vec::new();
    assert(attrs(attributes@) =~= Seq::<AttributeView>::empty());
    let mut j: usize = 0;
    while j < section.attributes.len()
        invariant
            j <= section.attributes@.len(),
            section@ == s0,
            types@ == rtx_types(s0.attributes),
            kept(s0.attributes, attribute_outside(types@)) == kept_from(
                s0.attributes,
                attribute_outside(types@),
                j as int,
                attrs(attributes@),
            ),
        decreases section.attributes@.len() - j,
    {
        assert(s0.attributes[j as int] == section.attributes@[j as int]@);
        if !describes(&section.attributes[j], &types) {
            let a = section.attributes[j].clone();
            let ghost before = attributes@;
            attributes.push(a);
            assert(attrs(attributes@) =~= attrs(before).push(a@));
        }
        j += 1;
    }
    section.formats = formats;
    section.attributes = attributes;
}

proof fn named_grows(a: Seq<AttributeView>, k: int, s: Set<u8>)
    requires
        0 <= k,
    ensures
        s.subset_of(rtx_named_from(a, k, s)),
        forall|i: int|
            k <= i < a.len() && rtx_rtpmap(#[trigger] a[i]) is Some ==> rtx_named_from(
                a,
                k,
                s,
            ).contains(rtx_rtpmap(a[i])->0),
    decreases a.len() - k,
{
    if k < a.len() {
        match rtx_rtpmap(a[k]) {
            Some(pt) => {
                named_grows(a, k + 1, s.insert(pt));
                assert(s.insert(pt).contains(pt));
            },
            None => {
                named_grows(a, k + 1, s);
            },
        }
    }
}

proof fn apt_dom_grows(a: Seq<AttributeView>, k: int, m: Map<u8, u8>)
    requires
        0 <= k,
    ensures
        m.dom().subset_of(apt_from(a, k, m).dom()),
        forall|i: int|
            k <= i < a.len() && apt_entry(#[trigger] a[i]) is Some ==> apt_from(
                a,
                k,
                m,
            ).contains_key((apt_entry(a[i])->0).0),
    decreases a.len() - k,
{
    if k < a.len() {
        match apt_entry(a[k]) {
            Some(e) => {
                apt_dom_grows(a, k + 1, m.insert(e.0, e.1));
                assert(m.insert(e.0, e.1).dom().contains(e.0));
            },
            None => {
                apt_dom_grows(a, k + 1, m);
            },
        }
    }
}

proof fn no_entries_no_map(a: Seq<AttributeView>, k: int, m: Map<u8, u8>)
    requires
        0 <= k,
        forall|i: int| 0 <= i < a.len() ==> apt_entry(#[trigger] a[i]) is None,
    ensures
        apt_from(a, k, m) == m,
    decreases a.len() - k,
{
    if k < a.len() {
        no_entries_no_map(a, k + 1, m);
    }
}

/// Stripping leaves no retransmission: no `apt=` line, and no format of a retransmission payload
/// type.
pub proof fn stripping_leaves_no_rtx(s: SectionView)
    ensures
        apt_map(stripped(s).attributes) == Map::<u8, u8>::empty(),
        forall|i: int|
            0 <= i < stripped(s).formats.len() ==> !(format_pt(
                #[trigger] stripped(s).formats[i],
            ) matches Some(pt) && rtx_types(s.attributes).contains(pt)),
{
    let a = s.attributes;
    let types = rtx_types(a);
    kept_facts(s.formats, format_outside(types));
    kept_facts(a, attribute_outside(types));
    apt_dom_grows(a, 0, Map::empty());
    named_grows(a, 0, apt_map(a).dom());
    let b = stripped(s).attributes;
    assert forall|i: int| 0 <= i < b.len() implies apt_entry(#[trigger] b[i]) is None by {
        assert(b.contains(b[i]));
        assert(a.contains(b[i]));
        let j = choose|j: int| 0 <= j < a.len() && a[j] == b[i];
        if apt_entry(a[j]) is Some {
            assert(apt_map(a).contains_key((apt_entry(a[j])->0).0));
            assert(types.contains((apt_entry(a[j])->0).0));
            assert(!attribute_outside(types)(a[j]));
        }
    }
    no_entries_no_map(b, 0, Map::empty());
}

/// Stripping keeps the formats of all other payload types.
pub proof fn stripping_keeps_other_formats(s: SectionView, i: int)
    requires
        0 <= i < s.formats.len(),
        !(format_pt(s.formats[i]) matches Some(pt) && rtx_types(s.attributes).contains(pt)),
    ensures
        stripped(s).formats.contains(s.formats[i]),
{
    kept_facts(s.formats, format_outside(rtx_types(s.attributes)));
}

proof fn none_named_none_found(a: Seq<AttributeView>, k: int, s: Set<u8>)
    requires
        0 <= k,
        forall|i: int| 0 <= i < a.len() ==> rtx_rtpmap(#[trigger] a[i]) is None,
    ensures
        rtx_named_from(a, k, s) == s,
    decreases a.len() - k,
{
    if k < a.len() {
        none_named_none_found(a, k + 1, s);
    }
}

/// Leaving the retransmission payload types out a second time changes nothing.
pub proof fn stripping_twice_is_stripping_once(s: SectionView)
    ensures
        rtx_types(stripped(s).attributes) == Set::<u8>::empty(),
        stripped(stripped(s)) == stripped(s),
{
    let a = s.attributes;
    let types = rtx_types(a);
    let t = stripped(s);
    kept_facts(a, attribute_outside(types));
    named_grows(a, 0, apt_map(a).dom());
    stripping_leaves_no_rtx(s);
    assert forall|i: int| 0 <= i < t.attributes.len() implies rtx_rtpmap(
        #[trigger] t.attributes[i],
    ) is None by {
        let x = t.attributes[i];
        assert(t.attributes.contains(x));
        assert(attribute_outside(types)(x));
        let j = a.index_of(x);
        assert(a[j] == x);
    }
    none_named_none_found(t.attributes, 0, apt_map(t.attributes).dom());
    assert(apt_map(t.attributes).dom() =~= Set::<u8>::empty());
    crate::search::all_are_kept(t.formats, format_outside(Set::empty()));
    crate::search::all_are_kept(t.attributes, attribute_outside(Set::empty()));
    assert(stripped(t) =~= t);
}

/// A section with a retransmission payload type for a primary one.
pub open spec fn with_rtx(s: SectionView, primary: u8, rtx: u8, clock_rate: u32) -> SectionView {
    SectionView {
        formats: s.formats.push(decimal(rtx as nat)),
        attributes: s.attributes.push(
            attr("rtpmap"@, decimal(rtx as nat) + " rtx/"@ + decimal(clock_rate as nat)),
        ).push(attr("fmtp"@, decimal(rtx as nat) + " apt="@ + decimal(primary as nat))),
        ..s
    }
}

/// Adds a retransmission payload type for a primary one.
pub fn append_rtx_to_section(section: &mut MediaSection, primary: u8, rtx: u8, clock_rate: u32)
    ensures
        final(section)@ == with_rtx(old(section)@, primary, rtx, clock_rate),
{
    let ghost s0 = section@;
    let number_text = decimal_text(rtx as u64);
    let rtpmap = joined(
        joined(number_text.as_str(), " rtx/").as_str(),
        decimal_text(clock_rate as u64).as_str(),
    );
    let fmtp = joined(
        joined(number_text.as_str(), " apt=").as_str(),
        decimal_text(primary as u64).as_str(),
    );
    let ghost f0 = section.formats@;
    section.formats.push(number_text);
    assert(texts(section.formats@) =~= texts(f0).push(decimal(rtx as nat)));
    push_attr(&mut section.attributes, "rtpmap", rtpmap);
    push_attr(&mut section.attributes, "fmtp", fmtp);
    assert(section@ =~= with_rtx(s0, primary, rtx, clock_rate));
}

/// The clock rate of a payload type, or that of video.
pub open spec fn clock_of(m: Map<u8, CodecView>, pt: u8) -> u32 {
    if m.contains_key(pt) {
        m[pt].clock_rate
    } else {
        90000
    }
}

/// `acc` with the offered retransmission types for its primary formats from index `k` on.
pub open spec fn merged_rtx_from(
    f: Seq<Seq<char>>,
    offered: Map<u8, u8>,
    clocks: Map<u8, CodecView>,
    k: int,
    acc: SectionView,
) -> SectionView
    decreases f.len() - k,
{
    if k < 0 || k >= f.len() {
        acc
    } else if repaired(offered)(f[k]) {
        let pt = format_pt(f[k])->0;
        merged_rtx_from(
            f,
            offered,
            clocks,
            k + 1,
            with_rtx(acc, pt, rtx_from(offered, pt, 0)->0, clock_of(clocks, pt)),
        )
    } else {
        merged_rtx_from(f, offered, clocks, k + 1, acc)
    }
}

/// The remote section that a local video section answers: the one with its mid, else the first
/// video section.
pub open spec fn answered_video(
    remote: Option<DescriptionView>,
    mid: Seq<char>,
) -> Option<SectionView> {
    match remote {
        Some(d) => match first(d.media, with_mid(mid)) {
            Some(i) => Some(d.media[i]),
            None => match first(d.media, of_kind(MediaKind::Video)) {
                Some(i) => Some(d.media[i]),
                None => None,
            },
        },
        None => None,
    }
}

/// An answer section with the offered retransmission types of its primary formats.
pub open spec fn rtx_merged(s: SectionView, remote: Option<DescriptionView>) -> SectionView {
    match answered_video(remote, s.mid) {
        Some(r) => merged_rtx_from(s.formats, apt_map(r.attributes), payload_map_of(r), 0, s),
        None => s,
    }
}

proof fn merging_from_keeps_frame(
    f: Seq<Seq<char>>,
    offered: Map<u8, u8>,
    clocks: Map<u8, CodecView>,
    k: int,
    acc: SectionView,
)
    ensures
        ({
            let r = merged_rtx_from(f, offered, clocks, k, acc);
            r.kind == acc.kind && r.mid == acc.mid && r.direction == acc.direction
        }),
    decreases f.len() - k,
{
    if 0 <= k < f.len() {
        if repaired(offered)(f[k]) {
            let pt = format_pt(f[k])->0;
            merging_from_keeps_frame(
                f,
                offered,
                clocks,
                k + 1,
                with_rtx(acc, pt, rtx_from(offered, pt, 0)->0, clock_of(clocks, pt)),
            );
        } else {
            merging_from_keeps_frame(f, offered, clocks, k + 1, acc);
        }
    }
}

/// No attribute is an extmap line.
pub open spec fn without_extmaps(a: Seq<AttributeView>) -> bool {
    forall|i: int| 0 <= i < a.len() ==> (#[trigger] a[i]).key != "extmap"@
}

/// The keys of the lines that describe codecs and transports are not that of an extmap line.
pub proof fn extmap_key_is_apart()
    ensures
        "rtpmap"@ != "extmap"@,
        "fmtp"@ != "extmap"@,
        "rtcp-fb"@ != "extmap"@,
        "rtcp-mux"@ != "extmap"@,
        "sctp-port"@ != "extmap"@,
        "fingerprint"@ != "extmap"@,
        "setup"@ != "extmap"@,
{
    reveal_strlit("extmap");
    reveal_strlit("rtpmap");
    reveal_strlit("fmtp");
    reveal_strlit("rtcp-fb");
    reveal_strlit("rtcp-mux");
    reveal_strlit("sctp-port");
    reveal_strlit("fingerprint");
    reveal_strlit("setup");
    assert("extmap"@[0] == 'e' && "extmap"@.len() == 6);
    assert("rtpmap"@[0] == 'r');
    assert("fmtp"@.len() == 4);
    assert("rtcp-fb"@.len() == 7);
    assert("rtcp-mux"@.len() == 8);
    assert("sctp-port"@.len() == 9);
    assert("fingerprint"@.len() == 11);
    assert("setup"@.len() == 5);
}

/// Leaving attributes out brings no extmap line in.
pub proof fn kept_without_extmaps(a: Seq<AttributeView>, p: spec_fn(AttributeView) -> bool)
    requires
        without_extmaps(a),
    ensures
        without_extmaps(kept(a, p)),
{
    kept_facts(a, p);
    let b = kept(a, p);
    assert forall|i: int| 0 <= i < b.len() implies (#[trigger] b[i]).key != "extmap"@ by {
        assert(b.contains(b[i]));
        let j = a.index_of(b[i]);
        assert(a[j] == b[i]);
    }
}

proof fn merging_from_adds_no_extmap(
    f: Seq<Seq<char>>,
    offered: Map<u8, u8>,
    clocks: Map<u8, CodecView>,
    k: int,
    acc: SectionView,
)
    requires
        without_extmaps(acc.attributes),
    ensures
        without_extmaps(merged_rtx_from(f, offered, clocks, k, acc).attributes),
    decreases f.len() - k,
{
    extmap_key_is_apart();
    if 0 <= k < f.len() {
        if repaired(offered)(f[k]) {
            let pt = format_pt(f[k])->0;
            merging_from_adds_no_extmap(
                f,
                offered,
                clocks,
                k + 1,
                with_rtx(acc, pt, rtx_from(offered, pt, 0)->0, clock_of(clocks, pt)),
            );
        } else {
            merging_from_adds_no_extmap(f, offered, clocks, k + 1, acc);
        }
    }
}

/// Leaving retransmission types out and echoing others brings no extmap line in.
pub proof fn merging_adds_no_extmap(s: SectionView, remote: Option<DescriptionView>)
    requires
        without_extmaps(s.attributes),
    ensures
        without_extmaps(rtx_merged(stripped(s), remote).attributes),
{
    kept_without_extmaps(s.attributes, attribute_outside(rtx_types(s.attributes)));
    let t = stripped(s);
    if let Some(r) = answered_video(remote, t.mid) {
        merging_from_adds_no_extmap(
            t.formats,
            apt_map(r.attributes),
            payload_map_of(r),
            0,
            t,
        );
    }
}

/// Echoing retransmission types leaves the kind, the mid and the direction of a section.
pub proof fn merging_keeps_frame(s: SectionView, remote: Option<DescriptionView>)
    ensures
        rtx_merged(s, remote).kind == s.kind,
        rtx_merged(s, remote).mid == s.mid,
        rtx_merged(s, remote).direction == s.direction,
{
    if let Some(r) = answered_video(remote, s.mid) {
        merging_from_keeps_frame(
            s.formats,
            apt_map(r.attributes),
            payload_map_of(r),
            0,
            s,
        );
    }
}

/// Echoes the offered retransmission types of the primary formats that an answer takes.
pub fn merge_remote_rtx_into_answer(
    section: &mut MediaSection,
    remote: &Option<SessionDescription>,
)
    ensures
        final(section)@ == rtx_merged(old(section)@, description_opt(*remote)),
{
    let ghost s0 = section@;
    let desc = match remote {
        Some(d) => d,
        None => {
            return;
        },
    };
    let index: usize = match find_section_with_mid(&desc.media_sections, section.mid.as_str()) {
        Some(i) => i,
        None => match find_section_of_kind(&desc.media_sections, MediaKind::Video) {
            Some(i) => i,
            None => {
                return;
            },
        },
    };
    let other = &desc.media_sections[index];
    assert(desc@.media[index as int] == other@);
    let offered = extract_rtx_apt_map_from_attrs(&other.attributes);
    let clocks = extract_payload_map(other);
    let formats = crate::text::clone_texts(&section.formats);
    let ghost c = codecs(clocks@);
    let mut i: usize = 0;
    while i < formats.len()
        invariant
            i <= formats@.len(),
            texts(formats@) == s0.formats,
            offered@ == apt_map(other@.attributes),
            c == codecs(clocks@),
            merged_rtx_from(s0.formats, offered@, c, 0, s0) == merged_rtx_from(
                s0.formats,
                offered@,
                c,
                i as int,
                section@,
            ),
        decreases formats@.len() - i,
    {
        assert(s0.formats[i as int] == formats@[i as int]@);
        if let Some(pt) = parse_u8(formats[i].as_str()) {
            if !offered.contains_key(&pt) {
                if let Some(rtx) = rtx_pt_for_primary(&offered, pt) {
                    let clock_rate: u32 = match clocks.get(&pt) {
                        Some(p) => p.clock_rate,
                        None => 90000,
                    };
                    append_rtx_to_section(section, pt, rtx, clock_rate);
                }
            }
        }
        i += 1;
    }
}

/// A line is `fmtp:<rtx> ..`, and the first of its `;`-separated pieces that ends with an `apt=`
/// parameter, that with index `k`, names `primary`.
pub open spec fn is_apt_line(a: AttributeView, k: int, rtx: u8, primary: u8) -> bool {
    &&& a.key == "fmtp"@
    &&& a.value matches Some(v) && words(v).len() > 0 && number(words(v)[0], 255) == Some(
        rtx as nat,
    ) && 0 <= k < pieces(v, ';').len() && words(pieces(v, ';')[k]).len() > 0 && starts_with(
        words(pieces(v, ';')[k]).last(),
        "apt="@,
    ) && number(words(pieces(v, ';')[k]).last().skip(4), 255) == Some(primary as nat) && forall|
        j: int,
    |
        0 <= j < k && #[trigger] words(pieces(v, ';')[j]).len() > 0 ==> !starts_with(
            words(pieces(v, ';')[j]).last(),
            "apt="@,
        )
}

proof fn apt_line_is_read(a: AttributeView, k: int, rtx: u8, primary: u8)
    requires
        is_apt_line(a, k, rtx, primary),
    ensures
        apt_entry(a) == Some((rtx, primary)),
{
    let v = a.value->0;
    let p = pieces(v, ';');
    crate::search::first_from_facts(p, names_apt(), 0);
    assert(names_apt()(p[k]));
    let i = first(p, names_apt())->0;
    assert(names_apt()(p[i]));
    if i < k {
        assert(words(p[i]).len() > 0);
    }
}

proof fn last_apt_counts_from(a: Seq<AttributeView>, k: int, m: Map<u8, u8>, i: int, e: (u8, u8))
    requires
        0 <= k,
        (k <= i < a.len() && apt_entry(a[i]) == Some(e)) || (i < k && m.contains_key(e.0)
            && m[e.0] == e.1),
        forall|j: int|
            i < j < a.len() ==> !(apt_entry(#[trigger] a[j]) matches Some(d) && d.0 == e.0),
    ensures
        apt_from(a, k, m).contains_key(e.0),
        apt_from(a, k, m)[e.0] == e.1,
    decreases a.len() - k,
{
    if k < a.len() {
        let next = match apt_entry(a[k]) {
            Some(d) => m.insert(d.0, d.1),
            None => m,
        };
        last_apt_counts_from(a, k + 1, next, i, e);
    }
}

/// A retransmission type repairs the payload type that the last `apt=` line for it names.
pub proof fn last_apt_line_counts(
    a: Seq<AttributeView>,
    i: int,
    k: int,
    rtx: u8,
    primary: u8,
)
    requires
        0 <= i < a.len(),
        is_apt_line(a[i], k, rtx, primary),
        forall|j: int|
            i < j < a.len() && (#[trigger] a[j]).key == "fmtp"@ && a[j].value is Some && words(
                a[j].value->0,
            ).len() > 0 ==> number(words(a[j].value->0)[0], 255) != Some(rtx as nat),
    ensures
        apt_map(a).contains_key(rtx),
        apt_map(a)[rtx] == primary,
{
    apt_line_is_read(a[i], k, rtx, primary);
    last_apt_counts_from(a, 0, Map::empty(), i, (rtx, primary));
}

proof fn apt_came_from_a_line(a: Seq<AttributeView>, k: int, m: Map<u8, u8>, rtx: u8)
    requires
        0 <= k,
        apt_from(a, k, m).contains_key(rtx),
        !m.contains_key(rtx),
    ensures
        exists|i: int|
            k <= i < a.len() && apt_entry(#[trigger] a[i]) is Some && (apt_entry(a[i])->0).0 == rtx,
    decreases a.len() - k,
{
    if k < a.len() {
        match apt_entry(a[k]) {
            Some(e) => {
                if e.0 != rtx {
                    apt_came_from_a_line(a, k + 1, m.insert(e.0, e.1), rtx);
                }
            },
            None => {
                apt_came_from_a_line(a, k + 1, m, rtx);
            },
        }
    }
}

/// A payload type repairs another only where an fmtp line for it says so.
pub proof fn repairing_types_are_described(a: Seq<AttributeView>, rtx: u8)
    requires
        apt_map(a).contains_key(rtx),
    ensures
        exists|i: int|
            0 <= i < a.len() && (#[trigger] a[i]).key == "fmtp"@ && a[i].value is Some && words(
                a[i].value->0,
            ).len() > 0 && number(words(a[i].value->0)[0], 255) == Some(rtx as nat),
{
    apt_came_from_a_line(a, 0, Map::empty(), rtx);
}

/// Of the formats of a section, the first that is no retransmission type and is repaired by one
/// decides which retransmission type is used; the lowest that repairs it is.
pub proof fn first_repaired_format_counts(s: SectionView, i: int, pt: u8, rtx: u8)
    requires
        0 <= i < s.formats.len(),
        number(s.formats[i], 255) == Some(pt as nat),
        !apt_map(s.attributes).contains_key(pt),
        apt_map(s.attributes).contains_key(rtx),
        apt_map(s.attributes)[rtx] == pt,
        forall|r: u8|
            r < rtx && #[trigger] apt_map(s.attributes).contains_key(r) ==> apt_map(
                s.attributes,
            )[r] != pt,
        forall|j: int, r: u8|
            0 <= j < i && #[trigger] apt_map(s.attributes).contains_key(r) ==> number(
                #[trigger] s.formats[j],
                255,
            ) != Some(apt_map(s.attributes)[r] as nat),
    ensures
        primary_rtx(s) == Some(rtx),
{
    let m = apt_map(s.attributes);
    lowest_repairs(m, pt, rtx, 0);
    crate::search::first_from_facts(s.formats, repaired(m), 0);
    assert(repaired(m)(s.formats[i]));
    let f = first(s.formats, repaired(m))->0;
    assert(repaired(m)(s.formats[f]));
    if f < i {
        rtx_pt_repairs_primary(m, format_pt(s.formats[f])->0);
        let r = rtx_from(m, format_pt(s.formats[f])->0, 0)->0;
        assert(m.contains_key(r));
    }
}

proof fn lowest_repairs(m: Map<u8, u8>, primary: u8, rtx: u8, k: int)
    requires
        0 <= k <= rtx,
        m.contains_key(rtx),
        m[rtx] == primary,
        forall|r: u8| r < rtx && #[trigger] m.contains_key(r) ==> m[r] != primary,
    ensures
        rtx_from(m, primary, k) == Some(rtx),
    decreases rtx - k,
{
    if k < rtx {
        assert(!(m.contains_key(k as u8) && m[k as u8] == primary));
        lowest_repairs(m, primary, rtx, k + 1);
    }
}

/// A section uses a retransmission type only where that repairs one of its formats.
pub proof fn used_types_repair_a_format(s: SectionView)
    ensures
        primary_rtx(s) matches Some(rtx) ==> apt_map(s.attributes).contains_key(rtx) && exists|
            i: int,
        |
            0 <= i < s.formats.len() && number(#[trigger] s.formats[i], 255) == Some(
                apt_map(s.attributes)[rtx] as nat,
            ),
{
    let m = apt_map(s.attributes);
    crate::search::first_from_facts(s.formats, repaired(m), 0);
    if let Some(f) = first(s.formats, repaired(m)) {
        assert(repaired(m)(s.formats[f]));
        rtx_pt_repairs_primary(m, format_pt(s.formats[f])->0);
    }
}

proof fn named_types_are_collected(a: Seq<AttributeView>, k: int, s: Set<u8>, i: int, pt: u8)
    requires
        0 <= k,
        s.contains(pt) || (k <= i < a.len() && rtx_rtpmap(a[i]) == Some(pt)),
    ensures
        rtx_named_from(a, k, s).contains(pt),
    decreases a.len() - k,
{
    if k < a.len() {
        let next = match rtx_rtpmap(a[k]) {
            Some(x) => s.insert(x),
            None => s,
        };
        named_types_are_collected(a, k + 1, next, i, pt);
    }
}

/// A type that an rtpmap line calls `rtx` leaves a stripped section, and so does one that an
/// `apt=` line is about: no format has it, and no line for codecs is about it.
pub proof fn stripped_types_are_gone(s: SectionView, i: int, k: int, pt: u8, primary: u8, j: int)
    requires
        0 <= i < s.attributes.len(),
        is_apt_line(s.attributes[i], k, pt, primary) || (s.attributes[i].key == "rtpmap"@
            && s.attributes[i].value is Some && words(s.attributes[i].value->0).len() >= 2
            && number(words(s.attributes[i].value->0)[0], 255) == Some(pt as nat)
            && same_ignoring_case(pieces(words(s.attributes[i].value->0)[1], '/')[0], "rtx"@)),
    ensures
        0 <= j < stripped(s).formats.len() ==> number(stripped(s).formats[j], 255) != Some(
            pt as nat,
        ),
        0 <= j < stripped(s).attributes.len() ==> ({
            let a = stripped(s).attributes[j];
            a.key == "rtpmap"@ || a.key == "fmtp"@ || a.key == "rtcp-fb"@ ==> (a.value matches Some(
                v,
            ) ==> (words(v).len() > 0 ==> number(words(v)[0], 255) != Some(pt as nat)))
        }),
{
    let a = s.attributes;
    if is_apt_line(a[i], k, pt, primary) {
        apt_line_is_read(a[i], k, pt, primary);
        apt_entry_is_known(a, 0, Map::empty(), i, pt);
    } else {
        assert(rtx_rtpmap(a[i]) == Some(pt));
    }
    named_types_are_collected(a, 0, apt_map(a).dom(), i, pt);
    let types = rtx_types(a);
    assert(types.contains(pt));
    kept_facts(s.formats, format_outside(types));
    kept_facts(a, attribute_outside(types));
    let r = stripped(s);
    if 0 <= j < r.formats.len() {
        assert(format_outside(types)(r.formats[j]));
    }
    if 0 <= j < r.attributes.len() {
        assert(attribute_outside(types)(r.attributes[j]));
    }
}

proof fn apt_entry_is_known(a: Seq<AttributeView>, k: int, m: Map<u8, u8>, i: int, rtx: u8)
    requires
        0 <= k,
        m.contains_key(rtx) || (k <= i < a.len() && apt_entry(a[i]) is Some && (apt_entry(
            a[i],
        )->0).0 == rtx),
    ensures
        apt_from(a, k, m).contains_key(rtx),
    decreases a.len() - k,
{
    if k < a.len() {
        let next = match apt_entry(a[k]) {
            Some(e) => m.insert(e.0, e.1),
            None => m,
        };
        apt_entry_is_known(a, k + 1, next, i, rtx);
    }
}

/// A section lists a retransmission type and says which payload type it repairs, at which clock
/// rate.
pub open spec fn repairs(s: SectionView, primary: u8, rtx: u8, clock_rate: u32) -> bool {
    &&& s.formats.contains(decimal(rtx as nat))
    &&& s.attributes.contains(
        AttributeView {
            key: "rtpmap"@,
            value: Some(decimal(rtx as nat) + " rtx/"@ + decimal(clock_rate as nat)),
        },
    )
    &&& s.attributes.contains(
        AttributeView {
            key: "fmtp"@,
            value: Some(decimal(rtx as nat) + " apt="@ + decimal(primary as nat)),
        },
    )
}

/// A retransmission type that is added is listed and described, behind all that was there.
pub proof fn added_types_are_described(s: SectionView, primary: u8, rtx: u8, clock_rate: u32)
    ensures
        ({
            let r = with_rtx(s, primary, rtx, clock_rate);
            &&& repairs(r, primary, rtx, clock_rate)
            &&& r.formats.drop_last() == s.formats
            &&& r.attributes.take(s.attributes.len() as int) == s.attributes
        }),
{
    let r = with_rtx(s, primary, rtx, clock_rate);
    let n = s.attributes.len() as int;
    assert(r.formats.last() == decimal(rtx as nat));
    assert(r.attributes[n].key == "rtpmap"@);
    assert(r.attributes[n + 1].key == "fmtp"@);
    assert(r.formats.drop_last() =~= s.formats);
    assert(r.attributes.take(n) =~= s.attributes);
}

proof fn merging_from_repairs(
    f: Seq<Seq<char>>,
    offered: Map<u8, u8>,
    clocks: Map<u8, CodecView>,
    k: int,
    acc: SectionView,
    i: int,
    primary: u8,
    rtx: u8,
    clock_rate: u32,
)
    requires
        0 <= k,
        repairs(acc, primary, rtx, clock_rate) || (k <= i < f.len() && repaired(offered)(f[i])
            && format_pt(f[i]) == Some(primary) && rtx_from(offered, primary, 0) == Some(rtx)
            && clock_of(clocks, primary) == clock_rate),
    ensures
        repairs(merged_rtx_from(f, offered, clocks, k, acc), primary, rtx, clock_rate),
    decreases f.len() - k,
{
    if k < f.len() {
        if repaired(offered)(f[k]) {
            let pt = format_pt(f[k])->0;
            let next = with_rtx(acc, pt, rtx_from(offered, pt, 0)->0, clock_of(clocks, pt));
            if repairs(acc, primary, rtx, clock_rate) {
                adding_keeps_repairs(
                    acc,
                    pt,
                    rtx_from(offered, pt, 0)->0,
                    clock_of(clocks, pt),
                    primary,
                    rtx,
                    clock_rate,
                );
            } else if k == i {
                added_types_are_described(acc, pt, rtx, clock_rate);
            }
            merging_from_repairs(f, offered, clocks, k + 1, next, i, primary, rtx, clock_rate);
        } else {
            merging_from_repairs(f, offered, clocks, k + 1, acc, i, primary, rtx, clock_rate);
        }
    }
}

proof fn adding_keeps_repairs(
    s: SectionView,
    p: u8,
    r: u8,
    c: u32,
    primary: u8,
    rtx: u8,
    clock_rate: u32,
)
    requires
        repairs(s, primary, rtx, clock_rate),
    ensures
        repairs(with_rtx(s, p, r, c), primary, rtx, clock_rate),
{
    let n = with_rtx(s, p, r, c);
    let f = decimal(rtx as nat);
    let j = choose|j: int| 0 <= j < s.formats.len() && s.formats[j] == f;
    assert(n.formats[j] == f);
    let x = AttributeView {
        key: "rtpmap"@,
        value: Some(decimal(rtx as nat) + " rtx/"@ + decimal(clock_rate as nat)),
    };
    let j = choose|j: int| 0 <= j < s.attributes.len() && s.attributes[j] == x;
    assert(n.attributes[j] == x);
    let y = AttributeView {
        key: "fmtp"@,
        value: Some(decimal(rtx as nat) + " apt="@ + decimal(primary as nat)),
    };
    let j = choose|j: int| 0 <= j < s.attributes.len() && s.attributes[j] == y;
    assert(n.attributes[j] == y);
}

proof fn merging_from_appends(
    f: Seq<Seq<char>>,
    offered: Map<u8, u8>,
    clocks: Map<u8, CodecView>,
    k: int,
    acc: SectionView,
    j: int,
)
    requires
        0 <= k,
    ensures
        ({
            let r = merged_rtx_from(f, offered, clocks, k, acc);
            &&& r.formats.len() >= acc.formats.len()
            &&& 0 <= j < acc.formats.len() ==> r.formats[j] == acc.formats[j]
            &&& acc.formats.len() <= j < r.formats.len() ==> exists|rtx: u8| #[trigger]
                offered.contains_key(rtx) && r.formats[j] == decimal(rtx as nat)
        }),
    decreases f.len() - k,
{
    if k < f.len() {
        if repaired(offered)(f[k]) {
            let pt = format_pt(f[k])->0;
            let rtx = rtx_from(offered, pt, 0)->0;
            rtx_pt_repairs_primary(offered, pt);
            let next = with_rtx(acc, pt, rtx, clock_of(clocks, pt));
            merging_from_appends(f, offered, clocks, k + 1, next, j);
            if j == acc.formats.len() {
                assert(offered.contains_key(rtx) && next.formats[j] == decimal(rtx as nat));
            }
        } else {
            merging_from_appends(f, offered, clocks, k + 1, acc, j);
        }
    }
}

/// An answer gives a format of its own the retransmission type that the offered section (the first
/// with the mid, else the first video section) has for it, at the clock rate that the offer gives the format; its own formats stay in front, and whatever follows
/// them is a retransmission type of the offer.
pub proof fn answers_take_offered_rtx(
    s: SectionView,
    d: DescriptionView,
    n: int,
    i: int,
    pt: u8,
    rtx: u8,
    c: CodecView,
    j: int,
)
    requires
        0 <= n < d.media.len(),
        ({
            ||| d.media[n].mid == s.mid && forall|x: int|
                0 <= x < n ==> (#[trigger] d.media[x]).mid != s.mid
            ||| d.media[n].kind == MediaKind::Video && forall|x: int|
                0 <= x < d.media.len() ==> (#[trigger] d.media[x]).mid != s.mid && (x < n
                    ==> d.media[x].kind != MediaKind::Video)
        }),
        0 <= i < s.formats.len(),
        number(s.formats[i], 255) == Some(pt as nat),
        !apt_map(d.media[n].attributes).contains_key(pt),
        apt_map(d.media[n].attributes).contains_key(rtx),
        apt_map(d.media[n].attributes)[rtx] == pt,
        forall|r: u8|
            r < rtx && #[trigger] apt_map(d.media[n].attributes).contains_key(r) ==> apt_map(
                d.media[n].attributes,
            )[r] != pt,
        payload_map_of(d.media[n]).contains_key(pt),
        payload_map_of(d.media[n])[pt] == c,
    ensures
        ({
            let r = rtx_merged(s, Some(d));
            &&& repairs(r, pt, rtx, c.clock_rate)
            &&& 0 <= j < s.formats.len() ==> r.formats[j] == s.formats[j]
            &&& s.formats.len() <= j < r.formats.len() ==> exists|x: u8| #[trigger]
                apt_map(d.media[n].attributes).contains_key(x) && r.formats[j] == decimal(x as nat)
        }),
{
    crate::search::first_from_facts(d.media, with_mid(s.mid), 0);
    crate::search::first_from_facts(d.media, of_kind(MediaKind::Video), 0);
    if d.media[n].mid == s.mid {
        assert(with_mid(s.mid)(d.media[n]));
        let x = first(d.media, with_mid(s.mid))->0;
        assert(with_mid(s.mid)(d.media[x]));
        assert(x == n);
    } else {
        if let Some(x) = first(d.media, with_mid(s.mid)) {
            assert(with_mid(s.mid)(d.media[x]));
        }
        assert(of_kind(MediaKind::Video)(d.media[n]));
        let x = first(d.media, of_kind(MediaKind::Video))->0;
        assert(of_kind(MediaKind::Video)(d.media[x]));
        assert(x == n);
    }
    let m = apt_map(d.media[n].attributes);
    lowest_repairs(m, pt, rtx, 0);
    assert(repaired(m)(s.formats[i]));
    merging_from_repairs(
        s.formats,
        m,
        payload_map_of(d.media[n]),
        0,
        s,
        i,
        pt,
        rtx,
        c.clock_rate,
    );
    merging_from_appends(s.formats, m, payload_map_of(d.media[n]), 0, s, j);
}

/// A line is about a retransmission type: an fmtp line, or an rtpmap line that calls it `rtx`.
pub open spec fn is_about_rtx(a: AttributeView, pt: u8) -> bool {
    a.value matches Some(v) && words(v).len() > 0 && number(words(v)[0], 255) == Some(pt as nat)
        && (a.key == "fmtp"@ || (a.key == "rtpmap"@ && words(v).len() >= 2 && same_ignoring_case(
        pieces(words(v)[1], '/')[0],
        "rtx"@,
    )))
}

proof fn named_types_come_from_lines(a: Seq<AttributeView>, k: int, s: Set<u8>, pt: u8)
    requires
        0 <= k,
        rtx_named_from(a, k, s).contains(pt),
        !s.contains(pt),
    ensures
        exists|i: int| k <= i < a.len() && rtx_rtpmap(#[trigger] a[i]) == Some(pt),
    decreases a.len() - k,
{
    if k < a.len() {
        match rtx_rtpmap(a[k]) {
            Some(x) => {
                if x != pt {
                    named_types_come_from_lines(a, k + 1, s.insert(x), pt);
                }
            },
            None => {
                named_types_come_from_lines(a, k + 1, s, pt);
            },
        }
    }
}

/// Stripping leaves the formats, and the lines, of payload types that no line calls
/// retransmission types, and all lines that are not about codecs.
pub proof fn stripping_touches_rtx_alone(s: SectionView, i: int, j: int)
    ensures
        0 <= i < s.formats.len() && (forall|x: int, pt: u8|
            0 <= x < s.attributes.len() && number(s.formats[i], 255) == Some(pt as nat)
                ==> !#[trigger] is_about_rtx(s.attributes[x], pt)) ==> stripped(
            s,
        ).formats.contains(s.formats[i]),
        0 <= j < s.attributes.len() && s.attributes[j].key != "rtpmap"@ && s.attributes[j].key
            != "fmtp"@ && s.attributes[j].key != "rtcp-fb"@ ==> stripped(s).attributes.contains(
            s.attributes[j],
        ),
        stripped(s).kind == s.kind && stripped(s).mid == s.mid && stripped(s).direction
            == s.direction && stripped(s).port == s.port && stripped(s).protocol == s.protocol,
{
    let a = s.attributes;
    let types = rtx_types(a);
    kept_facts(s.formats, format_outside(types));
    kept_facts(a, attribute_outside(types));
    if 0 <= i < s.formats.len() && forall|x: int, pt: u8|
        0 <= x < a.len() && number(s.formats[i], 255) == Some(pt as nat) ==> !#[trigger]
            is_about_rtx(a[x], pt) {
        if let Some(pt) = format_pt(s.formats[i]) {
            assert(number(s.formats[i], 255) == Some(pt as nat));
            if types.contains(pt) {
                if apt_map(a).dom().contains(pt) {
                    apt_came_from_a_line(a, 0, Map::empty(), pt);
                    let x = choose|x: int|
                        0 <= x < a.len() && apt_entry(#[trigger] a[x]) is Some && (apt_entry(
                            a[x],
                        )->0).0 == pt;
                    assert(is_about_rtx(a[x], pt));
                } else {
                    named_types_come_from_lines(a, 0, apt_map(a).dom(), pt);
                    let x = choose|x: int|
                        0 <= x < a.len() && rtx_rtpmap(#[trigger] a[x]) == Some(pt);
                    assert(is_about_rtx(a[x], pt));
                }
            }
        }
        assert(format_outside(types)(s.formats[i]));
    }
    if 0 <= j < a.len() && a[j].key != "rtpmap"@ && a[j].key != "fmtp"@ && a[j].key
        != "rtcp-fb"@ {
        assert(attribute_outside(types)(a[j]));
    }
}

} // verus!
