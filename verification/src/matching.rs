//! Which transceiver a media section belongs to.

use crate::sdp::sections;
use crate::sdp::MediaKind;
use crate::sdp::MediaSection;
use crate::sdp::SectionView;
use crate::sdp::SessionDescription;
use crate::text::same_text;
use crate::transceiver::transceivers;
use crate::transceiver::RtpTransceiver;
use crate::transceiver::TransceiverView;
use vstd::prelude::*;

verus! {

/// The first index at or after `k` that is not used and whose transceiver satisfies `p`.
pub open spec fn free_from(
    ts: Seq<TransceiverView>,
    used: Seq<bool>,
    p: spec_fn(TransceiverView) -> bool,
    k: int,
) -> Option<int>
    decreases ts.len() - k,
{
    if k < 0 || k >= ts.len() {
        None
    } else if !used[k] && p(ts[k]) {
        Some(k)
    } else {
        free_from(ts, used, p, k + 1)
    }
}

/// The first unused transceiver that satisfies `p`.
pub open spec fn free(
    ts: Seq<TransceiverView>,
    used: Seq<bool>,
    p: spec_fn(TransceiverView) -> bool,
) -> Option<int> {
    free_from(ts, used, p, 0)
}

/// What the search for an unused transceiver promises.
pub proof fn free_facts(
    ts: Seq<TransceiverView>,
    used: Seq<bool>,
    p: spec_fn(TransceiverView) -> bool,
    k: int,
)
    requires
        0 <= k,
    ensures
        free_from(ts, used, p, k) matches Some(i) ==> k <= i < ts.len() && !used[i] && p(ts[i])
            && forall|j: int| k <= j < i && !used[j] ==> !p(#[trigger] ts[j]),
        free_from(ts, used, p, k) is None ==> forall|i: int|
            k <= i < ts.len() && !used[i] ==> !p(#[trigger] ts[i]),
    decreases ts.len() - k,
{
    if k < ts.len() && (used[k] || !p(ts[k])) {
        free_facts(ts, used, p, k + 1);
    }
}

/// Transceivers with a mid.
pub open spec fn mid_is(mid: Seq<char>) -> spec_fn(TransceiverView) -> bool {
    |t: TransceiverView| t.mid == Some(mid)
}

/// Transceivers of a kind.
pub open spec fn kind_is(kind: MediaKind) -> spec_fn(TransceiverView) -> bool {
    |t: TransceiverView| t.kind == kind
}

/// Transceivers of a kind with a mid.
pub open spec fn kind_and_mid(kind: MediaKind, mid: Seq<char>) -> spec_fn(TransceiverView) -> bool {
    |t: TransceiverView| t.kind == kind && t.mid == Some(mid)
}

/// Transceivers of a kind without a mid.
pub open spec fn kind_without_mid(kind: MediaKind) -> spec_fn(TransceiverView) -> bool {
    |t: TransceiverView| t.kind == kind && t.mid is None
}

fn has_mid(t: &RtpTransceiver, mid: &str) -> (r: bool)
    ensures
        r == (t@.mid == Some(mid@)),
{
    match t.mid_ref() {
        Some(m) => same_text(m, mid),
        None => false,
    }
}

/// Finds an unused transceiver with a mid.
pub fn find_by_mid(ts: &Vec<RtpTransceiver>, used: &Vec<bool>, mid: &str) -> (r: Option<usize>)
    requires
        used@.len() == ts@.len(),
    ensures
        match r {
            Some(i) => i < ts@.len() && free(transceivers(ts@), used@, mid_is(mid@)) == Some(
                i as int,
            ),
            None => free(transceivers(ts@), used@, mid_is(mid@)) is None,
        },
{
    let ghost v = transceivers(ts@);
    let mut i: usize = 0;
    while i < ts.len()
        invariant
            i <= ts@.len(),
            v == transceivers(ts@),
            used@.len() == ts@.len(),
            free(v, used@, mid_is(mid@)) == free_from(v, used@, mid_is(mid@), i as int),
        decreases ts@.len() - i,
    {
        assert(v[i as int] == ts@[i as int]@);
        if !used[i] && has_mid(&ts[i], mid) {
            return Some(i);
        }
        i += 1;
    }
    None
}

/// Finds an unused transceiver of a kind.
pub fn find_by_kind(ts: &Vec<RtpTransceiver>, used: &Vec<bool>, kind: MediaKind) -> (r: Option<
    usize,
>)
    requires
        used@.len() == ts@.len(),
    ensures
        match r {
            Some(i) => i < ts@.len() && free(transceivers(ts@), used@, kind_is(kind)) == Some(
                i as int,
            ),
            None => free(transceivers(ts@), used@, kind_is(kind)) is None,
        },
{
    let ghost v = transceivers(ts@);
    let mut i: usize = 0;
    while i < ts.len()
        invariant
            i <= ts@.len(),
            v == transceivers(ts@),
            used@.len() == ts@.len(),
            free(v, used@, kind_is(kind)) == free_from(v, used@, kind_is(kind), i as int),
        decreases ts@.len() - i,
    {
        assert(v[i as int] == ts@[i as int]@);
        if !used[i] && ts[i].kind() == kind {
            return Some(i);
        }
        i += 1;
    }
    None
}

/// Finds an unused transceiver of a kind with a mid.
pub fn find_by_kind_and_mid(
    ts: &Vec<RtpTransceiver>,
    used: &Vec<bool>,
    kind: MediaKind,
    mid: &str,
) -> (r: Option<usize>)
    requires
        used@.len() == ts@.len(),
    ensures
        match r {
            Some(i) => i < ts@.len() && free(transceivers(ts@), used@, kind_and_mid(kind, mid@))
                == Some(i as int),
            None => free(transceivers(ts@), used@, kind_and_mid(kind, mid@)) is None,
        },
{
    let ghost v = transceivers(ts@);
    let mut i: usize = 0;
    while i < ts.len()
        invariant
            i <= ts@.len(),
            v == transceivers(ts@),
            used@.len() == ts@.len(),
            free(v, used@, kind_and_mid(kind, mid@)) == free_from(
                v,
                used@,
                kind_and_mid(kind, mid@),
                i as int,
            ),
        decreases ts@.len() - i,
    {
        assert(v[i as int] == ts@[i as int]@);
        if !used[i] && ts[i].kind() == kind && has_mid(&ts[i], mid) {
            return Some(i);
        }
        i += 1;
    }
    None
}

/// Finds an unused transceiver of a kind without a mid.
pub fn find_by_kind_without_mid(
    ts: &Vec<RtpTransceiver>,
    used: &Vec<bool>,
    kind: MediaKind,
) -> (r: Option<usize>)
    requires
        used@.len() == ts@.len(),
    ensures
        match r {
            Some(i) => i < ts@.len() && free(transceivers(ts@), used@, kind_without_mid(kind))
                == Some(i as int),
            None => free(transceivers(ts@), used@, kind_without_mid(kind)) is None,
        },
{
    let ghost v = transceivers(ts@);
    let mut i: usize = 0;
    while i < ts.len()
        invariant
            i <= ts@.len(),
            v == transceivers(ts@),
            used@.len() == ts@.len(),
            free(v, used@, kind_without_mid(kind)) == free_from(
                v,
                used@,
                kind_without_mid(kind),
                i as int,
            ),
        decreases ts@.len() - i,
    {
        assert(v[i as int] == ts@[i as int]@);
        if !used[i] && ts[i].kind() == kind && ts[i].mid_ref().is_none() {
            return Some(i);
        }
        i += 1;
    }
    None
}

/// No transceiver is used.
pub open spec fn none_used(n: nat) -> Seq<bool> {
    Seq::new(n, |i: int| false)
}

/// A list of unused marks.
pub fn unused(n: usize) -> (r: Vec<bool>)
    ensures
        r@ == none_used(n as nat),
{
    let mut v: Vec<bool> = Vec::new();
    let mut i: usize = 0;
    while i < n
        invariant
            i <= n,
            v@ == none_used(i as nat),
        decreases n - i,
    {
        v.push(false);
        i += 1;
        assert(v@ =~= none_used(i as nat));
    }
    v
}

/// The transceiver of a media section: by its mid where it has one, else by its kind.
pub open spec fn section_owner(
    ts: Seq<TransceiverView>,
    used: Seq<bool>,
    s: SectionView,
) -> Option<int> {
    let by_mid = if s.mid.len() > 0 {
        free(ts, used, mid_is(s.mid))
    } else {
        None
    };
    match by_mid {
        Some(i) => Some(i),
        None => free(ts, used, kind_is(s.kind)),
    }
}

/// A section that carries RTP.
pub open spec fn carries_rtp(s: SectionView) -> bool {
    s.kind != MediaKind::Application && s.kind != MediaKind::Image
}

/// `acc` with the pairs of transceiver and section from section `k` on.
pub open spec fn matched_from(
    ts: Seq<TransceiverView>,
    m: Seq<SectionView>,
    k: int,
    used: Seq<bool>,
    acc: Seq<(int, int)>,
) -> Seq<(int, int)>
    decreases m.len() - k,
{
    if k < 0 || k >= m.len() {
        acc
    } else if !carries_rtp(m[k]) {
        matched_from(ts, m, k + 1, used, acc)
    } else {
        match section_owner(ts, used, m[k]) {
            Some(i) => matched_from(ts, m, k + 1, used.update(i, true), acc.push((i, k))),
            None => matched_from(ts, m, k + 1, used, acc),
        }
    }
}

/// The transceivers and the sections of a description that belong together.
pub open spec fn matched(ts: Seq<TransceiverView>, m: Seq<SectionView>) -> Seq<(int, int)> {
    matched_from(ts, m, 0, none_used(ts.len()), Seq::empty())
}

/// The model of pairs of indices.
pub open spec fn pairs(v: Seq<(usize, usize)>) -> Seq<(int, int)> {
    v.map_values(|p: (usize, usize)| (p.0 as int, p.1 as int))
}

fn find_section_owner(ts: &Vec<RtpTransceiver>, used: &Vec<bool>, s: &MediaSection) -> (r: Option<
    usize,
>)
    requires
        used@.len() == ts@.len(),
    ensures
        match r {
            Some(i) => i < ts@.len() && section_owner(transceivers(ts@), used@, s@) == Some(
                i as int,
            ),
            None => section_owner(transceivers(ts@), used@, s@) is None,
        },
{
    if !s.mid.as_str().is_empty() {
        let found = find_by_mid(ts, used, s.mid.as_str());
        if found.is_some() {
            return found;
        }
    }
    find_by_kind(ts, used, s.kind)
}

/// The transceivers and the sections of a description that belong together.
pub fn matched_rtp_media_sections(ts: &Vec<RtpTransceiver>, desc: &SessionDescription) -> (r: Vec<
    (usize, usize),
>)
    ensures
        pairs(r@) == matched(transceivers(ts@), desc@.media),
        forall|i: int|
            0 <= i < r@.len() ==> (#[trigger] r@[i]).0 < ts@.len() && r@[i].1
                < desc.media_sections@.len(),
{
    let ghost t = transceivers(ts@);
    let ghost m = desc@.media;
    let mut used = unused(ts.len());
    let mut out: Vec<(usize, usize)> = Vec::new();
    assert(pairs(out@) =~= Seq::<(int, int)>::empty());
    let mut k: usize = 0;
    while k < desc.media_sections.len()
        invariant
            k <= desc.media_sections@.len(),
            t == transceivers(ts@),
            m == desc@.media,
            used@.len() == ts@.len(),
            matched(t, m) == matched_from(t, m, k as int, used@, pairs(out@)),
            forall|i: int|
                0 <= i < out@.len() ==> (#[trigger] out@[i]).0 < ts@.len() && out@[i].1
                    < desc.media_sections@.len(),
        decreases desc.media_sections@.len() - k,
    {
        let s = &desc.media_sections[k];
        assert(m[k as int] == s@);
        if s.kind != MediaKind::Application && s.kind != MediaKind::Image {
            if let Some(i) = find_section_owner(ts, &used, s) {
                used.set(i, true);
                let ghost before = out@;
                out.push((i, k));
                assert(pairs(out@) =~= pairs(before).push((i as int, k as int)));
            }
        }
        k += 1;
    }
    out
}

/// Pairs that are made from distinct unused transceivers and rising sections.
pub open spec fn one_to_one(p: Seq<(int, int)>) -> bool {
    &&& forall|i: int, j: int|
        #![trigger p[i], p[j]]
        0 <= i < j < p.len() ==> p[i].0 != p[j].0 && p[i].1 < p[j].1
}

proof fn matched_from_is_one_to_one(
    ts: Seq<TransceiverView>,
    m: Seq<SectionView>,
    k: int,
    used: Seq<bool>,
    acc: Seq<(int, int)>,
)
    requires
        0 <= k,
        used.len() == ts.len(),
        one_to_one(acc),
        forall|i: int|
            0 <= i < acc.len() ==> 0 <= (#[trigger] acc[i]).0 < ts.len() && used[acc[i].0]
                && acc[i].1 < k,
    ensures
        one_to_one(matched_from(ts, m, k, used, acc)),
        acc.len() <= matched_from(ts, m, k, used, acc).len(),
        forall|i: int|
            0 <= i < acc.len() ==> matched_from(ts, m, k, used, acc)[i] == #[trigger] acc[i],
        forall|i: int|
            acc.len() <= i < matched_from(ts, m, k, used, acc).len() ==> {
                let p = #[trigger] matched_from(ts, m, k, used, acc)[i];
                &&& 0 <= p.0 < ts.len()
                &&& 0 <= p.1 < m.len()
                &&& carries_rtp(m[p.1])
                &&& ts[p.0].mid == Some(m[p.1].mid) || ts[p.0].kind == m[p.1].kind
            },
    decreases m.len() - k,
{
    if k < m.len() {
        if !carries_rtp(m[k]) {
            matched_from_is_one_to_one(ts, m, k + 1, used, acc);
        } else {
            free_facts(ts, used, mid_is(m[k].mid), 0);
            free_facts(ts, used, kind_is(m[k].kind), 0);
            match section_owner(ts, used, m[k]) {
                Some(i) => {
                    let next = acc.push((i, k));
                    let u = used.update(i, true);
                    assert forall|j: int| 0 <= j < next.len() implies 0 <= (
                    #[trigger] next[j]).0 < ts.len() && u[next[j].0] && next[j].1 < k + 1 by {
                        if j < acc.len() {
                            assert(next[j] == acc[j]);
                        }
                    }
                    assert(one_to_one(next)) by {
                        assert forall|a: int, b: int|
                            #![trigger next[a], next[b]]
                            0 <= a < b < next.len() implies next[a].0 != next[b].0 && next[a].1
                            < next[b].1 by {
                            assert(next[a] == acc[a]);
                            if b < acc.len() {
                                assert(next[b] == acc[b]);
                            }
                        }
                    }
                    matched_from_is_one_to_one(ts, m, k + 1, u, next);
                    let r = matched_from(ts, m, k, used, acc);
                    assert(r == matched_from(ts, m, k + 1, u, next));
                    assert(forall|j: int| 0 <= j < acc.len() ==> r[j] == #[trigger] acc[j]) by {
                        assert forall|j: int| 0 <= j < acc.len() implies r[j]
                            == #[trigger] acc[j] by {
                            assert(next[j] == acc[j]);
                        }
                    }
                    assert(r[acc.len() as int] == next[acc.len() as int]);
                },
                None => {
                    matched_from_is_one_to_one(ts, m, k + 1, used, acc);
                },
            }
        }
    }
}

/// A transceiver is matched to a section before `k`.
pub open spec fn went_before(p: Seq<(int, int)>, i: int, k: int) -> bool {
    exists|j: int| 0 <= j < p.len() && (#[trigger] p[j]).0 == i && p[j].1 < k
}

/// A section is matched.
pub open spec fn is_matched(p: Seq<(int, int)>, k: int) -> bool {
    exists|j: int| 0 <= j < p.len() && (#[trigger] p[j]).1 == k
}

/// A transceiver could take a section: it is of its kind, or has its mid.
pub open spec fn could_take(t: TransceiverView, s: SectionView) -> bool {
    t.kind == s.kind || (s.mid.len() > 0 && t.mid == Some(s.mid))
}

proof fn matched_from_leaves_out(
    ts: Seq<TransceiverView>,
    m: Seq<SectionView>,
    k: int,
    used: Seq<bool>,
    acc: Seq<(int, int)>,
    i: int,
    s: int,
)
    requires
        0 <= k <= s < m.len(),
        0 <= i < ts.len(),
        used.len() == ts.len(),
        one_to_one(acc),
        forall|j: int|
            0 <= j < acc.len() ==> 0 <= (#[trigger] acc[j]).0 < ts.len() && used[acc[j].0]
                && acc[j].1 < k,
        used[i] ==> went_before(acc, i, k),
        carries_rtp(m[s]),
        could_take(ts[i], m[s]),
        !is_matched(matched_from(ts, m, k, used, acc), s),
    ensures
        went_before(matched_from(ts, m, k, used, acc), i, s),
    decreases m.len() - k,
{
    let r = matched_from(ts, m, k, used, acc);
    matched_from_is_one_to_one(ts, m, k, used, acc);
    if used[i] {
        let j = choose|j: int| 0 <= j < acc.len() && (#[trigger] acc[j]).0 == i && acc[j].1 < k;
        assert(r[j] == acc[j]);
    } else {
        free_facts(ts, used, mid_is(m[k].mid), 0);
        free_facts(ts, used, kind_is(m[k].kind), 0);
        let owner = if carries_rtp(m[k]) {
            section_owner(ts, used, m[k])
        } else {
            None
        };
        match owner {
            Some(o) => {
                let next = acc.push((o, k));
                let u = used.update(o, true);
                assert forall|j: int| 0 <= j < next.len() implies 0 <= (#[trigger] next[j]).0
                    < ts.len() && u[next[j].0] && next[j].1 < k + 1 by {
                    if j < acc.len() {
                        assert(next[j] == acc[j]);
                    }
                }
                assert(one_to_one(next)) by {
                    assert forall|a: int, b: int|
                        #![trigger next[a], next[b]]
                        0 <= a < b < next.len() implies next[a].0 != next[b].0 && next[a].1
                        < next[b].1 by {
                        assert(next[a] == acc[a]);
                        if b < acc.len() {
                            assert(next[b] == acc[b]);
                        }
                    }
                }
                matched_from_is_one_to_one(ts, m, k + 1, u, next);
                assert(next[acc.len() as int] == (o, k));
                assert(r[acc.len() as int] == (o, k));
                assert(k != s);
                if u[i] {
                    assert(went_before(next, i, k + 1));
                }
                matched_from_leaves_out(ts, m, k + 1, u, next, i, s);
            },
            None => {
                assert(k != s);
                matched_from_leaves_out(ts, m, k + 1, used, acc, i, s);
            },
        }
    }
}

/// A section that carries RTP is left out only where every transceiver that could take it went to
/// an earlier section.
pub proof fn sections_are_left_out_for_earlier_ones(
    ts: Seq<TransceiverView>,
    m: Seq<SectionView>,
    s: int,
)
    requires
        0 <= s < m.len(),
        carries_rtp(m[s]),
        !is_matched(matched(ts, m), s),
    ensures
        forall|i: int|
            0 <= i < ts.len() && could_take(#[trigger] ts[i], m[s]) ==> went_before(
                matched(ts, m),
                i,
                s,
            ),
{
    assert forall|i: int| 0 <= i < ts.len() && could_take(#[trigger] ts[i], m[s]) implies went_before(
        matched(ts, m),
        i,
        s,
    ) by {
        matched_from_leaves_out(ts, m, 0, none_used(ts.len()), Seq::empty(), i, s);
    }
}

/// Sections and transceivers are matched one to one, each section to a transceiver with its mid or
/// of its kind; sections without a mid never share a transceiver.
pub proof fn matching_is_one_to_one(ts: Seq<TransceiverView>, m: Seq<SectionView>)
    ensures
        one_to_one(matched(ts, m)),
        forall|i: int|
            0 <= i < matched(ts, m).len() ==> {
                let p = #[trigger] matched(ts, m)[i];
                &&& 0 <= p.0 < ts.len()
                &&& 0 <= p.1 < m.len()
                &&& carries_rtp(m[p.1])
                &&& ts[p.0].mid == Some(m[p.1].mid) || ts[p.0].kind == m[p.1].kind
            },
{
    matched_from_is_one_to_one(ts, m, 0, none_used(ts.len()), Seq::empty());
}

/// The transceiver at `j` is no better owner of a section than the one at `i`: it has the mid of
/// the section only where the other has it too and comes first; and where the other is taken for
/// its kind, it is of another kind or comes later.
pub open spec fn is_no_better(ts: Seq<TransceiverView>, i: int, j: int, s: SectionView) -> bool {
    &&& s.mid.len() > 0 && ts[j].mid == Some(s.mid) ==> ts[i].mid == Some(s.mid) && i <= j
    &&& s.mid.len() == 0 || ts[i].mid != Some(s.mid) ==> ts[i].kind == s.kind && (ts[j].kind
        == s.kind ==> i <= j)
}

proof fn matched_from_prefers(
    ts: Seq<TransceiverView>,
    m: Seq<SectionView>,
    k: int,
    used: Seq<bool>,
    acc: Seq<(int, int)>,
    q: int,
    j: int,
)
    requires
        0 <= k,
        used.len() == ts.len(),
        one_to_one(acc),
        forall|i: int|
            0 <= i < acc.len() ==> 0 <= (#[trigger] acc[i]).0 < ts.len() && used[acc[i].0]
                && acc[i].1 < k,
        0 <= j < ts.len(),
        used[j] ==> went_before(acc, j, k),
        acc.len() <= q < matched_from(ts, m, k, used, acc).len(),
        !went_before(
            matched_from(ts, m, k, used, acc),
            j,
            matched_from(ts, m, k, used, acc)[q].1,
        ),
    ensures
        ({
            let p = matched_from(ts, m, k, used, acc)[q];
            is_no_better(ts, p.0, j, m[p.1])
        }),
    decreases m.len() - k,
{
    let r = matched_from(ts, m, k, used, acc);
    matched_from_is_one_to_one(ts, m, k, used, acc);
    if k < m.len() {
        free_facts(ts, used, mid_is(m[k].mid), 0);
        free_facts(ts, used, kind_is(m[k].kind), 0);
        let owner = if carries_rtp(m[k]) {
            section_owner(ts, used, m[k])
        } else {
            None
        };
        match owner {
            Some(o) => {
                let next = acc.push((o, k));
                let u = used.update(o, true);
                assert forall|x: int| 0 <= x < next.len() implies 0 <= (#[trigger] next[x]).0
                    < ts.len() && u[next[x].0] && next[x].1 < k + 1 by {
                    if x < acc.len() {
                        assert(next[x] == acc[x]);
                    }
                }
                assert(one_to_one(next)) by {
                    assert forall|a: int, b: int|
                        #![trigger next[a], next[b]]
                        0 <= a < b < next.len() implies next[a].0 != next[b].0 && next[a].1
                        < next[b].1 by {
                        assert(next[a] == acc[a]);
                        if b < acc.len() {
                            assert(next[b] == acc[b]);
                        }
                    }
                }
                matched_from_is_one_to_one(ts, m, k + 1, u, next);
                assert(next[acc.len() as int] == (o, k));
                assert(r[acc.len() as int] == (o, k));
                if q == acc.len() {
                    if used[j] {
                        let x = choose|x: int|
                            0 <= x < acc.len() && (#[trigger] acc[x]).0 == j && acc[x].1 < k;
                        assert(r[x] == acc[x]);
                        assert(went_before(r, j, k));
                    }
                    assert(mid_is(m[k].mid)(ts[j]) == (ts[j].mid == Some(m[k].mid)));
                    assert(kind_is(m[k].kind)(ts[j]) == (ts[j].kind == m[k].kind));
                    assert(mid_is(m[k].mid)(ts[o]) == (ts[o].mid == Some(m[k].mid)));
                    assert(kind_is(m[k].kind)(ts[o]) == (ts[o].kind == m[k].kind));
                } else {
                    if u[j] {
                        if j == o {
                            assert(went_before(next, j, k + 1));
                        } else {
                            let x = choose|x: int|
                                0 <= x < acc.len() && (#[trigger] acc[x]).0 == j && acc[x].1 < k;
                            assert(next[x] == acc[x]);
                            assert(went_before(next, j, k + 1));
                        }
                    }
                    matched_from_prefers(ts, m, k + 1, u, next, q, j);
                }
            },
            None => {
                if used[j] {
                    let x = choose|x: int|
                        0 <= x < acc.len() && (#[trigger] acc[x]).0 == j && acc[x].1 < k;
                    assert(acc[x].1 < k + 1);
                }
                matched_from_prefers(ts, m, k + 1, used, acc, q, j);
            },
        }
    }
}

/// Of the transceivers that went to no earlier section, a section is matched to the first with its
/// mid, else to the first of its kind.
pub proof fn sections_go_to_their_mid_first(
    ts: Seq<TransceiverView>,
    m: Seq<SectionView>,
    q: int,
    j: int,
)
    requires
        0 <= q < matched(ts, m).len(),
        0 <= j < ts.len(),
        !went_before(matched(ts, m), j, matched(ts, m)[q].1),
    ensures
        is_no_better(ts, matched(ts, m)[q].0, j, m[matched(ts, m)[q].1]),
{
    matched_from_prefers(ts, m, 0, none_used(ts.len()), Seq::empty(), q, j);
}

/// Audio and video carry RTP, data channels and fax do not.
pub proof fn audio_and_video_carry_rtp(s: SectionView)
    ensures
        carries_rtp(s) <==> s.kind == MediaKind::Audio || s.kind == MediaKind::Video,
{
}

} // verus!
