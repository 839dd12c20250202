//! First-match search in sequences.

use vstd::prelude::*;

verus! {

/// The first index at or after `k` whose element satisfies `p`.
pub open spec fn first_from<A>(s: Seq<A>, p: spec_fn(A) -> bool, k: int) -> Option<int>
    decreases s.len() - k,
{
    if k < 0 || k >= s.len() {
        None
    } else if p(s[k]) {
        Some(k)
    } else {
        first_from(s, p, k + 1)
    }
}

/// The first index whose element satisfies `p`.
pub open spec fn first<A>(s: Seq<A>, p: spec_fn(A) -> bool) -> Option<int> {
    first_from(s, p, 0)
}

/// The first element that satisfies `p`.
pub open spec fn first_value<A>(s: Seq<A>, p: spec_fn(A) -> bool) -> Option<A> {
    match first(s, p) {
        Some(i) => Some(s[i]),
        None => None,
    }
}

/// Some element satisfies `p`.
pub open spec fn any<A>(s: Seq<A>, p: spec_fn(A) -> bool) -> bool {
    exists|i: int| 0 <= i < s.len() && p(#[trigger] s[i])
}

/// `acc` with the elements at or after `k` that satisfy `p`, in order.
pub open spec fn kept_from<A>(s: Seq<A>, p: spec_fn(A) -> bool, k: int, acc: Seq<A>) -> Seq<A>
    decreases s.len() - k,
{
    if k < 0 || k >= s.len() {
        acc
    } else if p(s[k]) {
        kept_from(s, p, k + 1, acc.push(s[k]))
    } else {
        kept_from(s, p, k + 1, acc)
    }
}

/// The elements that satisfy `p`, in order.
pub open spec fn kept<A>(s: Seq<A>, p: spec_fn(A) -> bool) -> Seq<A> {
    kept_from(s, p, 0, Seq::empty())
}

proof fn kept_from_facts<A>(s: Seq<A>, p: spec_fn(A) -> bool, k: int, acc: Seq<A>)
    requires
        0 <= k,
        forall|j: int| 0 <= j < acc.len() ==> p(#[trigger] acc[j]),
    ensures
        forall|j: int|
            0 <= j < kept_from(s, p, k, acc).len() ==> p(#[trigger] kept_from(s, p, k, acc)[j]),
        forall|x: A| #[trigger]
            kept_from(s, p, k, acc).contains(x) ==> acc.contains(x) || s.contains(x),
        forall|x: A| acc.contains(x) ==> #[trigger] kept_from(s, p, k, acc).contains(x),
        forall|i: int|
            k <= i < s.len() && p(#[trigger] s[i]) ==> kept_from(s, p, k, acc).contains(s[i]),
    decreases s.len() - k,
{
    let r = kept_from(s, p, k, acc);
    if k < s.len() {
        if p(s[k]) {
            let next = acc.push(s[k]);
            assert(forall|x: A| acc.contains(x) ==> next.contains(x)) by {
                assert forall|x: A| acc.contains(x) implies next.contains(x) by {
                    let i = choose|i: int| 0 <= i < acc.len() && acc[i] == x;
                    assert(next[i] == x);
                }
            }
            assert(next[acc.len() as int] == s[k]);
            assert(next.contains(s[k]));
            assert(forall|j: int| 0 <= j < next.len() ==> p(#[trigger] next[j]));
            kept_from_facts(s, p, k + 1, next);
            assert(r == kept_from(s, p, k + 1, next));
            assert(s.contains(s[k]));
            assert forall|x: A| #[trigger] r.contains(x) implies acc.contains(x) || s.contains(
                x,
            ) by {
                if next.contains(x) {
                    let i = choose|i: int| 0 <= i < next.len() && next[i] == x;
                    if i < acc.len() {
                        assert(acc[i] == x);
                    } else {
                        assert(x == s[k]);
                    }
                }
            }
        } else {
            kept_from_facts(s, p, k + 1, acc);
            assert(r == kept_from(s, p, k + 1, acc));
        }
    }
}

/// Filtering leaves only elements that satisfy the predicate, drops none of them and adds none.
pub proof fn kept_facts<A>(s: Seq<A>, p: spec_fn(A) -> bool)
    ensures
        forall|j: int| 0 <= j < kept(s, p).len() ==> p(#[trigger] kept(s, p)[j]),
        forall|x: A| #[trigger] kept(s, p).contains(x) ==> s.contains(x) && p(x),
        forall|i: int|
            0 <= i < s.len() && p(#[trigger] s[i]) ==> kept(s, p).contains(s[i]),
{
    kept_from_facts(s, p, 0, Seq::empty());
}

proof fn all_are_kept_from<A>(s: Seq<A>, p: spec_fn(A) -> bool, k: int)
    requires
        0 <= k <= s.len(),
        forall|i: int| 0 <= i < s.len() ==> p(#[trigger] s[i]),
    ensures
        kept_from(s, p, k, s.take(k)) == s,
    decreases s.len() - k,
{
    if k < s.len() {
        assert(s.take(k).push(s[k]) =~= s.take(k + 1));
        all_are_kept_from(s, p, k + 1);
    } else {
        assert(s.take(k) =~= s);
    }
}

/// Filtering leaves a sequence as it is whose elements all satisfy the predicate.
pub proof fn all_are_kept<A>(s: Seq<A>, p: spec_fn(A) -> bool)
    requires
        forall|i: int| 0 <= i < s.len() ==> p(#[trigger] s[i]),
    ensures
        kept(s, p) == s,
{
    assert(s.take(0) =~= Seq::<A>::empty());
    all_are_kept_from(s, p, 0);
}

/// What a first-match search promises.
pub proof fn first_from_facts<A>(s: Seq<A>, p: spec_fn(A) -> bool, k: int)
    requires
        0 <= k,
    ensures
        first_from(s, p, k) matches Some(i) ==> k <= i < s.len() && p(s[i]) && forall|j: int|
            k <= j < i ==> !p(#[trigger] s[j]),
        first_from(s, p, k) is None ==> forall|j: int| k <= j < s.len() ==> !p(#[trigger] s[j]),
    decreases s.len() - k,
{
    if k < s.len() && !p(s[k]) {
        first_from_facts(s, p, k + 1);
    }
}

proof fn first_of_pushed<A>(s: Seq<A>, x: A, p: spec_fn(A) -> bool)
    ensures
        first(s.push(x), p) == (match first(s, p) {
            Some(i) => Some(i),
            None => if p(x) {
                Some(s.len() as int)
            } else {
                None
            },
        }),
{
    let t = s.push(x);
    first_from_facts(s, p, 0);
    first_from_facts(t, p, 0);
    assert(forall|i: int| 0 <= i < s.len() ==> #[trigger] t[i] == s[i]);
    assert(t[s.len() as int] == x);
    match (first(s, p), first(t, p)) {
        (Some(i), Some(j)) => {
            assert(p(t[i]));
            if j < i {
                assert(p(s[j]));
            }
        },
        (Some(i), None) => {
            assert(p(t[i]));
        },
        (None, Some(j)) => {
            if j < s.len() {
                assert(p(s[j]));
            }
        },
        (None, None) => {},
    }
}

proof fn first_of_kept_from<A>(
    s: Seq<A>,
    p: spec_fn(A) -> bool,
    k: int,
    acc: Seq<A>,
    q: spec_fn(A) -> bool,
)
    requires
        0 <= k,
        forall|x: A| #[trigger] q(x) ==> p(x),
    ensures
        first_value(kept_from(s, p, k, acc), q) == (match first_value(acc, q) {
            Some(x) => Some(x),
            None => match first_from(s, q, k) {
                Some(i) => Some(s[i]),
                None => None,
            },
        }),
    decreases s.len() - k,
{
    if k < s.len() {
        if p(s[k]) {
            first_from_facts(acc, q, 0);
            first_of_pushed(acc, s[k], q);
            first_of_kept_from(s, p, k + 1, acc.push(s[k]), q);
        } else {
            first_of_kept_from(s, p, k + 1, acc, q);
        }
    }
}

/// Filtering does not change what is found first, as long as nothing is dropped that is looked for.
pub proof fn first_of_kept<A>(s: Seq<A>, p: spec_fn(A) -> bool, q: spec_fn(A) -> bool)
    requires
        forall|x: A| #[trigger] q(x) ==> p(x),
    ensures
        first_value(kept(s, p), q) == first_value(s, q),
{
    first_of_kept_from(s, p, 0, Seq::empty(), q);
}

/// A search finds something exactly when some element satisfies the predicate.
pub proof fn first_iff_any<A>(s: Seq<A>, p: spec_fn(A) -> bool)
    ensures
        first(s, p) is Some <==> any(s, p),
        first(s, p) matches Some(i) ==> 0 <= i < s.len() && p(s[i]),
{
    first_from_facts(s, p, 0);
}

} // verus!
