//! The order of the sections of an offer.

use crate::text::chars_of;
use crate::text::number;
use crate::text::parse_number;
use crate::transceiver::transceivers;
use crate::transceiver::RtpTransceiver;
use crate::transceiver::TransceiverView;
use vstd::prelude::*;

verus! {

/// From index `k` on, `a` stands before `b` in a dictionary.
pub open spec fn less_from(a: Seq<char>, b: Seq<char>, k: int) -> bool
    decreases b.len() - k,
{
    if k < 0 || k >= b.len() {
        false
    } else if k >= a.len() {
        true
    } else if a[k] != b[k] {
        a[k] < b[k]
    } else {
        less_from(a, b, k + 1)
    }
}

/// Whether a text stands before another in a dictionary.
pub fn text_before(a: &str, b: &str) -> (r: bool)
    ensures
        r == less_from(a@, b@, 0),
{
    let x = chars_of(a);
    let y = chars_of(b);
    let mut k: usize = 0;
    while k < y.len()
        invariant
            k <= y@.len(),
            x@ == a@,
            y@ == b@,
            k <= x@.len() || x@.len() < k,
            less_from(a@, b@, 0) == less_from(a@, b@, k as int),
        decreases y@.len() - k,
    {
        if k >= x.len() {
            return true;
        }
        if x[k] != y[k] {
            return x[k] < y[k];
        }
        k += 1;
    }
    false
}

/// The greatest number that a mid is read as.
pub const MID_MAX: u64 = 0xffff_ffff_ffff_ffff;

/// A mid stands before another: by number where both are numbers, else as in a dictionary.
pub open spec fn mid_before(a: Seq<char>, b: Seq<char>) -> bool {
    match (number(a, MID_MAX as nat), number(b, MID_MAX as nat)) {
        (Some(x), Some(y)) => x < y,
        _ => less_from(a, b, 0),
    }
}

/// Whether a mid stands before another.
pub fn compare_mids(a: &str, b: &str) -> (r: bool)
    ensures
        r == mid_before(a@, b@),
{
    match (parse_number(a, MID_MAX), parse_number(b, MID_MAX)) {
        (Some(x), Some(y)) => x < y,
        _ => text_before(a, b),
    }
}

/// The mid of a transceiver, empty where it has none.
pub open spec fn mid_of(t: TransceiverView) -> Seq<char> {
    match t.mid {
        Some(m) => m,
        None => Seq::empty(),
    }
}

/// Where `x` belongs among the first `p` of an order, behind what it does not stand before.
pub open spec fn place(ts: Seq<TransceiverView>, order: Seq<int>, x: int, p: int) -> int
    decreases p,
{
    if p <= 0 || p > order.len() {
        p
    } else if mid_before(mid_of(ts[x]), mid_of(ts[order[p - 1]])) {
        place(ts, order, x, p - 1)
    } else {
        p
    }
}

/// The order of the first `n` transceivers by mid; those that no mid tells apart stay in place.
pub open spec fn ordered(ts: Seq<TransceiverView>, n: int) -> Seq<int>
    decreases n,
{
    if n <= 0 {
        Seq::empty()
    } else {
        let o = ordered(ts, n - 1);
        o.insert(place(ts, o, n - 1, o.len() as int), n - 1)
    }
}

/// The model of a list of indices.
pub open spec fn indices(v: Seq<usize>) -> Seq<int> {
    v.map_values(|i: usize| i as int)
}

proof fn place_bounds(ts: Seq<TransceiverView>, order: Seq<int>, x: int, p: int)
    requires
        0 <= p <= order.len(),
    ensures
        0 <= place(ts, order, x, p) <= p,
    decreases p,
{
    if p > 0 && mid_before(mid_of(ts[x]), mid_of(ts[order[p - 1]])) {
        place_bounds(ts, order, x, p - 1);
    }
}

fn before(ts: &Vec<RtpTransceiver>, x: usize, y: usize) -> (r: bool)
    requires
        x < ts@.len(),
        y < ts@.len(),
    ensures
        r == mid_before(
            mid_of(transceivers(ts@)[x as int]),
            mid_of(transceivers(ts@)[y as int]),
        ),
{
    proof {
        reveal_strlit("");
        assert(""@ =~= Seq::<char>::empty());
    }
    let a = match ts[x].mid_ref() {
        Some(m) => m,
        None => "",
    };
    let b = match ts[y].mid_ref() {
        Some(m) => m,
        None => "",
    };
    compare_mids(a, b)
}

/// Orders the transceivers by mid.
pub fn order_by_mid(ts: &Vec<RtpTransceiver>) -> (r: Vec<usize>)
    ensures
        indices(r@) == ordered(transceivers(ts@), ts@.len() as int),
        r@.len() == ts@.len(),
        forall|i: int| 0 <= i < r@.len() ==> (#[trigger] r@[i]) < ts@.len(),
{
    let ghost t = transceivers(ts@);
    let mut out: Vec<usize> = Vec::new();
    assert(indices(out@) =~= Seq::<int>::empty());
    let mut n: usize = 0;
    while n < ts.len()
        invariant
            n <= ts@.len(),
            t == transceivers(ts@),
            indices(out@) == ordered(t, n as int),
            out@.len() == n,
            forall|i: int| 0 <= i < out@.len() ==> (#[trigger] out@[i]) < n,
        decreases ts@.len() - n,
    {
        let ghost o = indices(out@);
        let ghost prev = out@;
        let mut p: usize = out.len();
        while p > 0 && before(ts, n, out[p - 1])
            invariant
                p <= out@.len(),
                n < ts@.len(),
                t == transceivers(ts@),
                out@ == prev,
                o == indices(out@),
                forall|i: int| 0 <= i < out@.len() ==> (#[trigger] out@[i]) < n,
                place(t, o, n as int, o.len() as int) == place(t, o, n as int, p as int),
            ensures
                p <= out@.len(),
                place(t, o, n as int, o.len() as int) == p,
            decreases p,
        {
            assert(o[p - 1] == out@[p - 1] as int);
            p -= 1;
        }
        out.insert(p, n);
        assert(indices(out@) =~= o.insert(p as int, n as int));
        n += 1;
    }
    out
}

/// An order names every one of the first `n` transceivers once.
pub open spec fn is_permutation(o: Seq<int>, n: int) -> bool {
    &&& o.len() == n
    &&& forall|i: int| 0 <= i < o.len() ==> 0 <= (#[trigger] o[i]) < n
    &&& forall|i: int, j: int|
        #![trigger o[i], o[j]]
        0 <= i < j < o.len() ==> o[i] != o[j]
}

/// Ordering by mid names every transceiver once.
pub proof fn ordering_is_a_permutation(ts: Seq<TransceiverView>, n: int)
    requires
        0 <= n,
    ensures
        is_permutation(ordered(ts, n), n),
    decreases n,
{
    if n > 0 {
        ordering_is_a_permutation(ts, n - 1);
        let o = ordered(ts, n - 1);
        let p = place(ts, o, n - 1, o.len() as int);
        place_bounds(ts, o, n - 1, o.len() as int);
        let r = o.insert(p, n - 1);
        assert forall|i: int| 0 <= i < r.len() implies 0 <= (#[trigger] r[i]) < n by {
            if i < p {
                assert(r[i] == o[i]);
            } else if i > p {
                assert(r[i] == o[i - 1]);
            }
        }
        assert forall|i: int, j: int|
            #![trigger r[i], r[j]]
            0 <= i < j < r.len() implies r[i] != r[j] by {
            if i < p {
                assert(r[i] == o[i]);
            } else if i > p {
                assert(r[i] == o[i - 1]);
            }
            if j < p {
                assert(r[j] == o[j]);
            } else if j > p {
                assert(r[j] == o[j - 1]);
            }
        }
    }
}

/// The number of a mid.
pub open spec fn mid_number(t: TransceiverView) -> Option<nat> {
    number(mid_of(t), MID_MAX as nat)
}

proof fn place_facts(ts: Seq<TransceiverView>, order: Seq<int>, x: int, p: int)
    requires
        0 <= p <= order.len(),
    ensures
        0 <= place(ts, order, x, p) <= p,
        forall|i: int|
            place(ts, order, x, p) <= i < p ==> mid_before(
                mid_of(ts[x]),
                mid_of(ts[#[trigger] order[i]]),
            ),
        place(ts, order, x, p) > 0 ==> !mid_before(
            mid_of(ts[x]),
            mid_of(ts[order[place(ts, order, x, p) - 1]]),
        ),
    decreases p,
{
    if p > 0 && mid_before(mid_of(ts[x]), mid_of(ts[order[p - 1]])) {
        place_facts(ts, order, x, p - 1);
    }
}

/// Where all mids are numbers, as those are that we allocate, the sections of an offer stand in
/// the order of their numbers.
pub proof fn numbered_mids_are_sorted(ts: Seq<TransceiverView>, n: int)
    requires
        0 <= n <= ts.len(),
        forall|i: int| 0 <= i < n ==> mid_number(#[trigger] ts[i]) is Some,
    ensures
        forall|i: int, j: int|
            #![trigger ordered(ts, n)[i], ordered(ts, n)[j]]
            0 <= i < j < ordered(ts, n).len() ==> mid_number(ts[ordered(ts, n)[i]])->0
                <= mid_number(ts[ordered(ts, n)[j]])->0,
    decreases n,
{
    if n > 0 {
        numbered_mids_are_sorted(ts, n - 1);
        ordering_is_a_permutation(ts, n - 1);
        ordering_is_a_permutation(ts, n);
        let o = ordered(ts, n - 1);
        let x = n - 1;
        let p = place(ts, o, x, o.len() as int);
        place_facts(ts, o, x, o.len() as int);
        let r = o.insert(p, x);
        assert forall|i: int, j: int|
            #![trigger r[i], r[j]]
            0 <= i < j < r.len() implies mid_number(ts[r[i]])->0 <= mid_number(ts[r[j]])->0 by {
            let a = if i < p {
                i
            } else {
                i - 1
            };
            let b = if j < p {
                j
            } else {
                j - 1
            };
            if i != p && j != p {
                assert(r[i] == o[a] && r[j] == o[b]);
                assert(mid_number(ts[o[a]])->0 <= mid_number(ts[o[b]])->0);
            } else if j == p {
                assert(r[i] == o[i]);
                assert(r[j] == x);
                assert(mid_number(ts[o[i]]) is Some);
                assert(mid_number(ts[o[p - 1]]) is Some);
                assert(mid_number(ts[x]) is Some);
                assert(mid_number(ts[o[p - 1]])->0 <= mid_number(ts[x])->0);
                if i < p - 1 {
                    assert(mid_number(ts[o[i]])->0 <= mid_number(ts[o[p - 1]])->0);
                }
            } else {
                assert(r[i] == x);
                assert(r[j] == o[j - 1]);
                assert(mid_number(ts[o[j - 1]]) is Some);
                assert(mid_number(ts[x]) is Some);
            }
        }
    }
}

proof fn nothing_precedes_itself(a: Seq<char>, k: int)
    requires
        0 <= k,
    ensures
        !less_from(a, a, k),
    decreases a.len() - k,
{
    if k < a.len() {
        nothing_precedes_itself(a, k + 1);
    }
}

/// Transceivers with the same mid, or without one, stay in the order in which they were added.
pub proof fn equal_mids_keep_their_order(ts: Seq<TransceiverView>, n: int)
    requires
        0 <= n <= ts.len(),
    ensures
        forall|i: int, j: int|
            #![trigger ordered(ts, n)[i], ordered(ts, n)[j]]
            0 <= i < j < ordered(ts, n).len() && mid_of(ts[ordered(ts, n)[i]]) == mid_of(
                ts[ordered(ts, n)[j]],
            ) ==> ordered(ts, n)[i] < ordered(ts, n)[j],
    decreases n,
{
    if n > 0 {
        equal_mids_keep_their_order(ts, n - 1);
        ordering_is_a_permutation(ts, n - 1);
        let o = ordered(ts, n - 1);
        let x = n - 1;
        let p = place(ts, o, x, o.len() as int);
        place_facts(ts, o, x, o.len() as int);
        nothing_precedes_itself(mid_of(ts[x]), 0);
        let r = o.insert(p, x);
        assert forall|i: int, j: int|
            #![trigger r[i], r[j]]
            0 <= i < j < r.len() && mid_of(ts[r[i]]) == mid_of(ts[r[j]]) implies r[i] < r[j] by {
            let a = if i < p {
                i
            } else {
                i - 1
            };
            let b = if j < p {
                j
            } else {
                j - 1
            };
            if i == p {
                assert(r[j] == o[b]);
                assert(mid_before(mid_of(ts[x]), mid_of(ts[o[b]])));
            } else if j == p {
                assert(r[i] == o[a]);
            } else {
                assert(r[i] == o[a] && r[j] == o[b]);
            }
        }
    }
}

} // verus!
