//! Candidate gathering of a connection.

use super::ConnectionView;
use super::PeerConnection;
use crate::config::TransportMode;
use crate::sdp::attr;
use crate::sdp::attrs;
use crate::sdp::flag;
use crate::sdp::has_key;
use crate::sdp::find_key;
use crate::sdp::push_attr;
use crate::sdp::push_flag;
use crate::sdp::sections;
use crate::sdp::Attribute;
use crate::sdp::AttributeView;
use crate::sdp::DescriptionView;
use crate::sdp::MediaSection;
use crate::sdp::SectionView;
use crate::search::any;
use crate::state::IceGatheringState;
use crate::text::joined;
use crate::text::same_text;
use crate::text::texts;
use vstd::prelude::*;

verus! {

/// The address of a local candidate.
#[derive(Debug)]
pub struct GatheredAddress {
    pub ip: String,
    pub v6: bool,
    pub port: u16,
}

/// The model of the address of a local candidate.
pub struct GatheredView {
    pub ip: Seq<char>,
    pub v6: bool,
    pub port: u16,
}

impl View for GatheredAddress {
    type V = GatheredView;

    open spec fn view(&self) -> GatheredView {
        GatheredView { ip: self.ip@, v6: self.v6, port: self.port }
    }
}

/// The model of an optional address.
pub open spec fn gathered_opt(a: Option<GatheredAddress>) -> Option<GatheredView> {
    match a {
        Some(x) => Some(x@),
        None => None,
    }
}

/// Candidate lines with a value.
pub open spec fn candidate_line(line: Seq<char>) -> spec_fn(AttributeView) -> bool {
    |a: AttributeView| a.key == "candidate"@ && a.value == Some(line)
}

/// The attributes with the candidates from index `k` on that they lack.
pub open spec fn with_lines_from(
    a: Seq<AttributeView>,
    lines: Seq<Seq<char>>,
    k: int,
) -> Seq<AttributeView>
    decreases lines.len() - k,
{
    if k < 0 || k >= lines.len() {
        a
    } else if any(a, candidate_line(lines[k])) {
        with_lines_from(a, lines, k + 1)
    } else {
        with_lines_from(a.push(attr("candidate"@, lines[k])), lines, k + 1)
    }
}

/// The attributes with the candidates that they lack and, once gathering is complete, the mark that
/// no more will come.
pub open spec fn with_lines(
    a: Seq<AttributeView>,
    lines: Seq<Seq<char>>,
    complete: bool,
) -> Seq<AttributeView> {
    let b = with_lines_from(a, lines, 0);
    if complete && !has_key(b, "end-of-candidates"@) {
        b.push(flag("end-of-candidates"@))
    } else {
        b
    }
}

/// A section with the candidates that it lacks.
pub open spec fn section_with_lines(
    s: SectionView,
    lines: Seq<Seq<char>>,
    complete: bool,
) -> SectionView {
    SectionView { attributes: with_lines(s.attributes, lines, complete), ..s }
}

/// A section at an address.
pub open spec fn section_at(s: SectionView, a: GatheredView) -> SectionView {
    SectionView {
        port: a.port,
        connection: Some(
            (if a.v6 {
                "IN IP6 "@
            } else {
                "IN IP4 "@
            }) + a.ip,
        ),
        ..s
    }
}

/// A description with the candidates that its sections lack.
pub open spec fn description_with_lines(
    d: DescriptionView,
    lines: Seq<Seq<char>>,
    complete: bool,
) -> DescriptionView {
    DescriptionView {
        media: d.media.map_values(|s: SectionView| section_with_lines(s, lines, complete)),
        ..d
    }
}

/// A description whose sections are all at an address.
pub open spec fn description_at(d: DescriptionView, a: GatheredView) -> DescriptionView {
    DescriptionView { media: d.media.map_values(|s: SectionView| section_at(s, a)), ..d }
}

impl ConnectionView {
    /// The connection with what was gathered in its local description.
    pub open spec fn gathered(
        self,
        lines: Seq<Seq<char>>,
        address: Option<GatheredView>,
        complete: bool,
    ) -> ConnectionView {
        match self.local {
            Some(d) => if self.config.transport_mode == TransportMode::WebRtc {
                ConnectionView { local: Some(description_with_lines(d, lines, complete)), ..self }
            } else {
                match address {
                    Some(a) => if complete {
                        ConnectionView { local: Some(description_at(d, a)), ..self }
                    } else {
                        self
                    },
                    None => self,
                }
            },
            None => self,
        }
    }
}

fn has_line(list: &Vec<Attribute>, line: &str) -> (r: bool)
    ensures
        r == any(attrs(list@), candidate_line(line@)),
{
    let ghost a = attrs(list@);
    let ghost p = candidate_line(line@);
    let mut i: usize = 0;
    while i < list.len()
        invariant
            i <= list@.len(),
            a == attrs(list@),
            p == candidate_line(line@),
            forall|j: int| 0 <= j < i ==> !p(#[trigger] a[j]),
        decreases list@.len() - i,
    {
        assert(a[i as int] == list@[i as int]@);
        if same_text(list[i].key.as_str(), "candidate") {
            if let Some(v) = &list[i].value {
                if same_text(v.as_str(), line) {
                    assert(p(a[i as int]));
                    return true;
                }
            }
        }
        i += 1;
    }
    false
}

/// Adds the candidates that a section lacks.
pub fn add_lines(list: &mut Vec<Attribute>, lines: &Vec<String>, complete: bool)
    ensures
        attrs(final(list)@) == with_lines(attrs(old(list)@), texts(lines@), complete),
{
    let ghost start = attrs(list@);
    let ghost l = texts(lines@);
    let mut i: usize = 0;
    while i < lines.len()
        invariant
            i <= lines@.len(),
            l == texts(lines@),
            with_lines_from(start, l, 0) == with_lines_from(attrs(list@), l, i as int),
        decreases lines@.len() - i,
    {
        assert(l[i as int] == lines@[i as int]@);
        if !has_line(list, lines[i].as_str()) {
            push_attr(list, "candidate", lines[i].clone());
        }
        i += 1;
    }
    if complete && find_key(list, "end-of-candidates").is_none() {
        push_flag(list, "end-of-candidates");
    }
}

fn add_lines_to_sections(m: &mut Vec<MediaSection>, lines: &Vec<String>, complete: bool)
    ensures
        sections(final(m)@) == sections(old(m)@).map_values(
            |s: SectionView| section_with_lines(s, texts(lines@), complete),
        ),
{
    let ghost m0 = sections(m@);
    let ghost want = m0.map_values(
        |s: SectionView| section_with_lines(s, texts(lines@), complete),
    );
    let mut i: usize = 0;
    while i < m.len()
        invariant
            i <= m@.len(),
            m@.len() == m0.len(),
            want == m0.map_values(|s: SectionView| section_with_lines(s, texts(lines@), complete)),
            forall|j: int| 0 <= j < i ==> sections(m@)[j] == #[trigger] want[j],
            forall|j: int| i <= j < m@.len() ==> #[trigger] sections(m@)[j] == m0[j],
        decreases m@.len() - i,
    {
        let ghost before = m@;
        assert(sections(before)[i as int] == m@[i as int]@);
        add_lines(&mut m[i].attributes, lines, complete);
        assert(m@[i as int]@ =~= want[i as int]);
        assert forall|j: int| 0 <= j < m@.len() && j != i implies #[trigger] sections(m@)[j]
            == sections(before)[j] by {
            assert(m@[j] == before[j]);
        }
        i += 1;
    }
    assert(sections(m@) =~= want);
}

fn move_sections(m: &mut Vec<MediaSection>, a: &GatheredAddress)
    ensures
        sections(final(m)@) == sections(old(m)@).map_values(|s: SectionView| section_at(s, a@)),
{
    let ghost m0 = sections(m@);
    let ghost want = m0.map_values(|s: SectionView| section_at(s, a@));
    let mut i: usize = 0;
    while i < m.len()
        invariant
            i <= m@.len(),
            m@.len() == m0.len(),
            want == m0.map_values(|s: SectionView| section_at(s, a@)),
            forall|j: int| 0 <= j < i ==> sections(m@)[j] == #[trigger] want[j],
            forall|j: int| i <= j < m@.len() ==> #[trigger] sections(m@)[j] == m0[j],
        decreases m@.len() - i,
    {
        let ghost before = m@;
        assert(sections(before)[i as int] == m@[i as int]@);
        let line = joined(
            if a.v6 {
                "IN IP6 "
            } else {
                "IN IP4 "
            },
            a.ip.as_str(),
        );
        m[i].port = a.port;
        m[i].connection = Some(line);
        assert(m@[i as int]@ =~= want[i as int]);
        assert forall|j: int| 0 <= j < m@.len() && j != i implies #[trigger] sections(m@)[j]
            == sections(before)[j] by {
            assert(m@[j] == before[j]);
        }
        i += 1;
    }
    assert(sections(m@) =~= want);
}

impl PeerConnection {
    /// Puts what was gathered into the local description: candidate lines, or, without ICE, the
    /// address of the first candidate.
    pub fn update_local_description_on_gather(
        &mut self,
        lines: &Vec<String>,
        address: &Option<GatheredAddress>,
        complete: bool,
    )
        ensures
            final(self)@ == old(self)@.gathered(
                texts(lines@),
                gathered_opt(*address),
                complete,
            ),
            old(self)@.wf() ==> final(self)@.wf(),
    {
        let ghost v0 = self@;
        let web: bool = self.config.transport_mode == TransportMode::WebRtc;
        if let Some(d) = &mut self.local_description {
            if web {
                add_lines_to_sections(&mut d.media_sections, lines, complete);
            } else if let Some(a) = address {
                if complete {
                    move_sections(&mut d.media_sections, a);
                }
            }
        }
        assert(self@ =~= v0.gathered(texts(lines@), gathered_opt(*address), complete));
    }

    /// Takes a state of gathering, with what was gathered; whether gathering is over.
    pub fn on_gathering_state(
        &mut self,
        s: IceGatheringState,
        lines: &Vec<String>,
        address: &Option<GatheredAddress>,
    ) -> (r: bool)
        ensures
            r == (s == IceGatheringState::Complete),
            final(self)@ == (ConnectionView {
                gathering: s,
                ..if r {
                    old(self)@.gathered(texts(lines@), gathered_opt(*address), true)
                } else {
                    old(self)@
                }
            }),
            old(self)@.wf() ==> final(self)@.wf(),
    {
        let ghost v0 = self@;
        if s == IceGatheringState::Complete {
            self.update_local_description_on_gather(lines, address, true);
        }
        self.ice_gathering_state = s;
        assert(self@ =~= (ConnectionView {
            gathering: s,
            ..if s == IceGatheringState::Complete {
                v0.gathered(texts(lines@), gathered_opt(*address), true)
            } else {
                v0
            }
        }));
        s == IceGatheringState::Complete
    }

    /// Takes a new candidate, with all that were gathered so far.
    pub fn on_candidate(&mut self, lines: &Vec<String>)
        ensures
            final(self)@ == old(self)@.gathered(texts(lines@), None, false),
            old(self)@.wf() ==> final(self)@.wf(),
    {
        self.update_local_description_on_gather(lines, &None, false);
    }

    /// Whether gathering has to be awaited before a description is complete: a direct transport has
    /// its address at once.
    pub fn awaits_gathering(&self) -> (r: bool)
        ensures
            r == (!self@.config.is_direct() && self@.gathering != IceGatheringState::Complete),
    {
        !self.config.is_direct() && self.ice_gathering_state != IceGatheringState::Complete
    }
}

proof fn lines_stay(a: Seq<AttributeView>, lines: Seq<Seq<char>>, k: int, line: Seq<char>)
    requires
        any(a, candidate_line(line)),
    ensures
        any(with_lines_from(a, lines, k), candidate_line(line)),
    decreases lines.len() - k,
{
    if 0 <= k < lines.len() {
        if any(a, candidate_line(lines[k])) {
            lines_stay(a, lines, k + 1, line);
        } else {
            let b = a.push(attr("candidate"@, lines[k]));
            let i = choose|i: int| 0 <= i < a.len() && candidate_line(line)(#[trigger] a[i]);
            assert(b[i] == a[i]);
            assert(candidate_line(line)(b[i]));
            lines_stay(b, lines, k + 1, line);
        }
    }
}

proof fn lines_arrive(a: Seq<AttributeView>, lines: Seq<Seq<char>>, k: int, j: int)
    requires
        0 <= k <= j < lines.len(),
    ensures
        any(with_lines_from(a, lines, k), candidate_line(lines[j])),
    decreases lines.len() - k,
{
    let b = if any(a, candidate_line(lines[k])) {
        a
    } else {
        a.push(attr("candidate"@, lines[k]))
    };
    if !any(a, candidate_line(lines[k])) {
        assert(candidate_line(lines[k])(b[a.len() as int]));
    }
    if k == j {
        lines_stay(b, lines, k + 1, lines[j]);
    } else {
        lines_arrive(b, lines, k + 1, j);
    }
}

proof fn known_lines_change_nothing(a: Seq<AttributeView>, lines: Seq<Seq<char>>, k: int)
    requires
        0 <= k,
        forall|j: int| k <= j < lines.len() ==> any(a, candidate_line(#[trigger] lines[j])),
    ensures
        with_lines_from(a, lines, k) == a,
    decreases lines.len() - k,
{
    if k < lines.len() {
        assert(any(a, candidate_line(lines[k])));
        known_lines_change_nothing(a, lines, k + 1);
    }
}

/// Every candidate that was gathered stands in each section of the local description, and putting
/// the same candidates in again changes nothing.
pub proof fn gathered_candidates_are_described_once(
    a: Seq<AttributeView>,
    lines: Seq<Seq<char>>,
    j: int,
)
    requires
        0 <= j < lines.len(),
    ensures
        any(with_lines(a, lines, false), candidate_line(lines[j])),
        with_lines(with_lines(a, lines, false), lines, false) == with_lines(a, lines, false),
{
    lines_arrive(a, lines, 0, j);
    let b = with_lines(a, lines, false);
    assert forall|i: int| 0 <= i < lines.len() implies any(
        b,
        candidate_line(#[trigger] lines[i]),
    ) by {
        lines_arrive(a, lines, 0, i);
    }
    known_lines_change_nothing(b, lines, 0);
}

proof fn lines_are_added(a: Seq<AttributeView>, lines: Seq<Seq<char>>, k: int, i: int)
    requires
        0 <= k <= lines.len(),
    ensures
        ({
            let b = with_lines_from(a, lines, k);
            &&& b.len() >= a.len()
            &&& b.take(a.len() as int) == a
            &&& k <= i < lines.len() ==> any(b, candidate_line(lines[i]))
            &&& forall|j: int|
                a.len() <= j < b.len() ==> (#[trigger] b[j]).key == "candidate"@
                    && b[j].value is Some && lines.contains(b[j].value->0)
        }),
    decreases lines.len() - k,
{
    if k < lines.len() {
        let there = any(a, candidate_line(lines[k]));
        let next = if there {
            a
        } else {
            a.push(attr("candidate"@, lines[k]))
        };
        lines_are_added(next, lines, k + 1, i);
        let b = with_lines_from(a, lines, k);
        assert(b.take(a.len() as int) =~= a) by {
            assert(b.take(next.len() as int) == next);
            assert forall|j: int| 0 <= j < a.len() implies b[j] == a[j] by {
                assert(b.take(next.len() as int)[j] == next[j]);
            }
        }
        let n = next.len() as int;
        assert forall|j: int| 0 <= j < n implies b[j] == next[j] by {
            assert(b.take(n)[j] == next[j]);
        }
        if there {
            let j = choose|j: int| 0 <= j < a.len() && candidate_line(lines[k])(#[trigger] a[j]);
            assert(candidate_line(lines[k])(b[j]));
        } else {
            assert(b[a.len() as int] == attr("candidate"@, lines[k]));
            assert(candidate_line(lines[k])(b[a.len() as int]));
            assert(lines.contains(lines[k]));
        }
        assert forall|j: int| a.len() <= j < b.len() implies (#[trigger] b[j]).key == "candidate"@
            && b[j].value is Some && lines.contains(b[j].value->0) by {
            if j < n {
                assert(b[j] == next[j]);
            }
        }
    } else {
        assert(a.take(a.len() as int) =~= a);
    }
}

/// What was gathered stands in every section of the local description: with ICE each candidate, and
/// once gathering is complete the mark that no more will come, behind the lines that were there;
/// without ICE the address.
pub proof fn gathered_candidates_are_described(
    v: ConnectionView,
    lines: Seq<Seq<char>>,
    address: Option<GatheredView>,
    complete: bool,
    k: int,
    i: int,
)
    requires
        v.local is Some,
        0 <= k < v.local->0.media.len(),
    ensures
        ({
            let before = v.local->0.media[k];
            let w = v.gathered(lines, address, complete);
            let s = w.local->0.media[k];
            &&& w.local is Some && w.local->0.media.len() == v.local->0.media.len()
            &&& v.config.transport_mode == TransportMode::WebRtc ==> {
                &&& s == (SectionView { attributes: s.attributes, ..before })
                &&& s.attributes.len() >= before.attributes.len() && s.attributes.take(
                    before.attributes.len() as int,
                ) == before.attributes
                &&& 0 <= i < lines.len() ==> exists|j: int|
                    0 <= j < s.attributes.len() && #[trigger] s.attributes[j] == (AttributeView {
                        key: "candidate"@,
                        value: Some(lines[i]),
                    })
                &&& complete ==> exists|j: int|
                    0 <= j < s.attributes.len() && (#[trigger] s.attributes[j]).key
                        == "end-of-candidates"@
            }
            &&& v.config.transport_mode != TransportMode::WebRtc && complete && address is Some
                ==> s.port == address->0.port && s.connection == Some(
                (if address->0.v6 {
                    "IN IP6 "@
                } else {
                    "IN IP4 "@
                }) + address->0.ip,
            ) && s.attributes == before.attributes
            &&& v.config.transport_mode != TransportMode::WebRtc && (!complete || address is None)
                ==> w == v
        }),
{
    let before = v.local->0.media[k];
    let a = before.attributes;
    let b = with_lines_from(a, lines, 0);
    lines_are_added(a, lines, 0, i);
    let c = with_lines(a, lines, complete);
    assert(c.take(a.len() as int) =~= a) by {
        assert forall|j: int| 0 <= j < a.len() implies c[j] == a[j] by {
            assert(b.take(a.len() as int)[j] == a[j]);
        }
    }
    if 0 <= i < lines.len() {
        let j = choose|j: int| 0 <= j < b.len() && candidate_line(lines[i])(#[trigger] b[j]);
        assert(c[j] == b[j]);
        assert(c[j] == (AttributeView { key: "candidate"@, value: Some(lines[i]) }));
    }
    if complete {
        if has_key(b, "end-of-candidates"@) {
            let j = choose|j: int|
                0 <= j < b.len() && crate::sdp::keyed("end-of-candidates"@)(#[trigger] b[j]);
            assert(c[j].key == "end-of-candidates"@);
        } else {
            assert(c[b.len() as int].key == "end-of-candidates"@);
        }
    }
    let w = v.gathered(lines, address, complete);
    if v.config.transport_mode == TransportMode::WebRtc {
        assert(w.local->0.media[k].attributes == c);
    }
}

} // verus!
