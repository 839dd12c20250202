//! Text helpers over `str`, with `Seq<char>` as the model of a text.

use vstd::prelude::*;

verus! {

/// The model of a list of strings.
pub open spec fn texts(v: Seq<String>) -> Seq<Seq<char>> {
    v.map_values(|s: String| s@)
}

/// The model of an optional string.
pub open spec fn text_opt(o: Option<String>) -> Option<Seq<char>> {
    match o {
        Some(s) => Some(s@),
        None => None,
    }
}

/// Pushing a string pushes its text.
pub broadcast proof fn texts_push(v: Seq<String>, s: String)
    ensures
        #[trigger] texts(v.push(s)) == texts(v).push(s@),
{
    assert(texts(v.push(s)) =~= texts(v).push(s@));
}

/// Copies a list of strings.
pub fn clone_texts(v: &Vec<String>) -> (r: Vec<String>)
    ensures
        texts(r@) == texts(v@),
{
    let mut out: Vec<String> = Vec::new();
    let mut i: usize = 0;
    while i < v.len()
        invariant
            i <= v@.len(),
            texts(out@) == texts(v@).take(i as int),
        decreases v@.len() - i,
    {
        broadcast use texts_push;

        out.push(v[i].clone());
        i += 1;
        assert(texts(v@).take(i as int) =~= texts(v@).take(i - 1).push(texts(v@)[i - 1]));
    }
    assert(texts(v@).take(v@.len() as int) =~= texts(v@));
    out
}

/// Copies an optional string.
pub fn clone_text_opt(o: &Option<String>) -> (r: Option<String>)
    ensures
        text_opt(r) == text_opt(*o),
{
    match o {
        Some(s) => Some(s.clone()),
        None => None,
    }
}

/// Whether two texts are equal.
pub fn same_text(a: &str, b: &str) -> (r: bool)
    ensures
        r == (a@ == b@),
{
    broadcast use vstd::utf8::encode_utf8_decode_utf8;

    let x: &[u8] = a.as_bytes();
    let y: &[u8] = b.as_bytes();
    if x.len() != y.len() {
        return false;
    }
    let mut i: usize = 0;
    while i < x.len()
        invariant
            i <= x@.len(),
            x@.len() == y@.len(),
            x@ == vstd::utf8::encode_utf8(a@),
            y@ == vstd::utf8::encode_utf8(b@),
            x@.take(i as int) == y@.take(i as int),
        decreases x@.len() - i,
    {
        if x[i] != y[i] {
            return false;
        }
        i += 1;
        assert(x@.take(i as int) =~= x@.take(i - 1).push(x@[i - 1]));
        assert(y@.take(i as int) =~= y@.take(i - 1).push(y@[i - 1]));
    }
    assert(x@.take(i as int) =~= x@);
    assert(y@.take(i as int) =~= y@);
    assert(vstd::utf8::decode_utf8(x@) == a@);
    assert(vstd::utf8::decode_utf8(y@) == b@);
    true
}

/// Whether two optional texts are equal.
pub fn same_text_opt(a: &Option<String>, b: &Option<String>) -> (r: bool)
    ensures
        r == (text_opt(*a) == text_opt(*b)),
{
    match (a, b) {
        (Some(x), Some(y)) => same_text(x.as_str(), y.as_str()),
        (None, None) => true,
        _ => false,
    }
}

/// Whether two lists of texts are equal.
pub fn same_texts(a: &Vec<String>, b: &Vec<String>) -> (r: bool)
    ensures
        r == (texts(a@) == texts(b@)),
{
    if a.len() != b.len() {
        assert(texts(a@).len() != texts(b@).len());
        return false;
    }
    let mut i: usize = 0;
    while i < a.len()
        invariant
            i <= a@.len(),
            a@.len() == b@.len(),
            forall|j: int| 0 <= j < i ==> texts(a@)[j] == texts(b@)[j],
        decreases a@.len() - i,
    {
        if !same_text(a[i].as_str(), b[i].as_str()) {
            assert(texts(a@)[i as int] != texts(b@)[i as int]);
            return false;
        }
        i += 1;
    }
    assert(texts(a@) =~= texts(b@));
    true
}

/// The characters of a text.
pub fn chars_of(s: &str) -> (r: Vec<char>)
    ensures
        r@ == s@,
{
    broadcast use vstd::string::group_string_axioms;

    let mut out: Vec<char> = Vec::new();
    for c in it: s.chars()
        invariant
            it.seq() == s@,
            out@ == it.seq().take(it.index()),
    {
        out.push(c);
        assert(it.seq().take(it.index() + 1) =~= it.seq().take(it.index()).push(c));
    }
    assert(s@.take(s@.len() as int) =~= s@);
    out
}

/// Appends `b` to a copy of `a`.
pub fn joined(a: &str, b: &str) -> (r: String)
    ensures
        r@ == a@ + b@,
{
    let mut out = a.to_owned();
    out.append(b);
    out
}

/// `prefix` starts `s`.
pub open spec fn starts_with(s: Seq<char>, prefix: Seq<char>) -> bool {
    &&& prefix.len() <= s.len()
    &&& s.take(prefix.len() as int) == prefix
}

/// Whether `s` begins with `prefix`.
pub fn has_prefix(s: &str, prefix: &str) -> (r: bool)
    ensures
        r == starts_with(s@, prefix@),
{
    let n: usize = prefix.unicode_len();
    if s.unicode_len() < n {
        return false;
    }
    same_text(s.substring_char(0, n), prefix)
}

/// `part` occurs in `s`.
pub open spec fn contains_text(s: Seq<char>, part: Seq<char>) -> bool {
    exists|i: int| #[trigger] occurs_at(s, part, i)
}

/// `part` occurs in `s` at index `i`.
pub open spec fn occurs_at(s: Seq<char>, part: Seq<char>, i: int) -> bool {
    &&& 0 <= i
    &&& i + part.len() <= s.len()
    &&& s.subrange(i, i + part.len()) == part
}

/// Whether `part` occurs anywhere in `s`.
pub fn has_part(s: &str, part: &str) -> (r: bool)
    ensures
        r == contains_text(s@, part@),
{
    let n: usize = part.unicode_len();
    let m: usize = s.unicode_len();
    if m < n {
        return false;
    }
    let mut i: usize = 0;
    while i <= m - n
        invariant
            n == part@.len(),
            m == s@.len(),
            n <= m,
            i <= m - n + 1,
            forall|j: int| 0 <= j < i ==> !occurs_at(s@, part@, j),
        decreases m - n + 1 - i,
    {
        if same_text(s.substring_char(i, i + n), part) {
            assert(occurs_at(s@, part@, i as int));
            return true;
        }
        if i == m - n {
            return false;
        }
        i += 1;
    }
    false
}

/// The White_Space property of Unicode.
pub open spec fn is_space(c: char) -> bool {
    ||| '\u{9}' <= c <= '\u{d}'
    ||| c == '\u{20}'
    ||| c == '\u{85}'
    ||| c == '\u{a0}'
    ||| c == '\u{1680}'
    ||| '\u{2000}' <= c <= '\u{200a}'
    ||| c == '\u{2028}'
    ||| c == '\u{2029}'
    ||| c == '\u{202f}'
    ||| c == '\u{205f}'
    ||| c == '\u{3000}'
}

fn space(c: char) -> (r: bool)
    ensures
        r == is_space(c),
{
    ('\u{9}' <= c && c <= '\u{d}') || c == '\u{20}' || c == '\u{85}' || c == '\u{a0}' || c
        == '\u{1680}' || ('\u{2000}' <= c && c <= '\u{200a}') || c == '\u{2028}' || c == '\u{2029}'
        || c == '\u{202f}' || c == '\u{205f}' || c == '\u{3000}'
}

/// The number of leading characters that are (`want`) or are not (`!want`) white space.
pub open spec fn run_len(s: Seq<char>, want: bool) -> nat
    decreases s.len(),
{
    if s.len() == 0 || is_space(s[0]) != want {
        0
    } else {
        1 + run_len(s.skip(1), want)
    }
}

/// A run is no longer than the text.
pub proof fn run_len_bound(s: Seq<char>, want: bool)
    ensures
        run_len(s, want) <= s.len(),
    decreases s.len(),
{
    if s.len() > 0 && is_space(s[0]) == want {
        run_len_bound(s.skip(1), want);
    }
}

/// The maximal runs of characters that are not white space, in order.
pub open spec fn words(s: Seq<char>) -> Seq<Seq<char>>
    decreases s.len(),
{
    let rest = s.skip(run_len(s, true) as int);
    let n = run_len(rest, false);
    if n == 0 || rest.len() == 0 || n > rest.len() || run_len(s, true) > s.len() {
        Seq::empty()
    } else {
        seq![rest.take(n as int)] + words(rest.skip(n as int))
    }
}

fn run_end(c: &Vec<char>, from: usize, want: bool) -> (r: usize)
    requires
        from <= c@.len(),
    ensures
        from <= r <= c@.len(),
        r - from == run_len(c@.skip(from as int), want),
{
    let mut i: usize = from;
    while i < c.len() && space(c[i]) == want
        invariant
            from <= i <= c@.len(),
            run_len(c@.skip(from as int), want) == i - from + run_len(c@.skip(i as int), want),
        decreases c@.len() - i,
    {
        assert(c@.skip(i as int).skip(1) =~= c@.skip(i + 1));
        i += 1;
    }
    i
}

/// Splits a text at white space.
pub fn split_words(s: &str) -> (r: Vec<String>)
    ensures
        texts(r@) == words(s@),
{
    broadcast use texts_push;

    let c = chars_of(s);
    let mut out: Vec<String> = Vec::new();
    let mut i: usize = 0;
    assert(c@.skip(0) =~= c@);
    assert(texts(out@) + words(c@.skip(0)) =~= words(c@));
    while i < c.len()
        invariant
            c@ == s@,
            i <= c@.len(),
            texts(out@) + words(c@.skip(i as int)) == words(c@),
        decreases c@.len() - i,
    {
        broadcast use texts_push;

        let ghost here = c@.skip(i as int);
        let b: usize = run_end(&c, i, true);
        let e: usize = run_end(&c, b, false);
        assert(here.skip(run_len(here, true) as int) =~= c@.skip(b as int));
        if b == e {
            assert(words(here) =~= Seq::empty());
            assert(texts(out@) =~= words(c@));
            return out;
        }
        let ghost before = texts(out@);
        let w = s.substring_char(b, e).to_owned();
        assert(w@ =~= c@.skip(b as int).take(e - b));
        assert(c@.skip(b as int).skip(e - b) =~= c@.skip(e as int));
        out.push(w);
        assert(texts(out@) + words(c@.skip(e as int)) =~= before + (seq![w@] + words(
            c@.skip(e as int),
        )));
        i = e;
    }
    assert(c@.skip(i as int) =~= Seq::empty());
    assert(words(c@.skip(i as int)) =~= Seq::empty());
    assert(texts(out@) =~= words(c@));
    out
}

/// The first index at or after `k` where `c` stands, or the length.
pub open spec fn index_from(s: Seq<char>, c: char, k: int) -> int
    decreases s.len() - k,
{
    if k < 0 || k >= s.len() {
        s.len() as int
    } else if s[k] == c {
        k
    } else {
        index_from(s, c, k + 1)
    }
}

/// The index found is in bounds, holds the character unless it is the length, and is the first to.
pub proof fn index_from_bounds(s: Seq<char>, c: char, k: int)
    requires
        0 <= k <= s.len(),
    ensures
        k <= index_from(s, c, k) <= s.len(),
        forall|j: int| k <= j < index_from(s, c, k) ==> s[j] != c,
        index_from(s, c, k) < s.len() ==> s[index_from(s, c, k)] == c,
    decreases s.len() - k,
{
    if k < s.len() && s[k] != c {
        index_from_bounds(s, c, k + 1);
    }
}

/// The pieces of `s` from index `k` on, cut at every `sep`.
pub open spec fn pieces_from(s: Seq<char>, sep: char, k: int) -> Seq<Seq<char>>
    decreases s.len() - k,
{
    let e = index_from(s, sep, k);
    if k < 0 || k > s.len() || e < k || e >= s.len() {
        seq![s.skip(k)]
    } else {
        seq![s.subrange(k, e)] + pieces_from(s, sep, e + 1)
    }
}

/// The pieces of `s`, cut at every `sep`; always at least one.
pub open spec fn pieces(s: Seq<char>, sep: char) -> Seq<Seq<char>> {
    pieces_from(s, sep, 0)
}

fn index_of(c: &Vec<char>, sep: char, from: usize) -> (r: usize)
    requires
        from <= c@.len(),
    ensures
        r == index_from(c@, sep, from as int),
        from <= r <= c@.len(),
{
    let mut i: usize = from;
    while i < c.len() && c[i] != sep
        invariant
            from <= i <= c@.len(),
            index_from(c@, sep, from as int) == index_from(c@, sep, i as int),
        decreases c@.len() - i,
    {
        i += 1;
    }
    i
}

/// Splits a text at a separator.
pub fn split_pieces(s: &str, sep: char) -> (r: Vec<String>)
    ensures
        texts(r@) == pieces(s@, sep),
        r@.len() >= 1,
{
    broadcast use texts_push;

    let c = chars_of(s);
    let mut out: Vec<String> = Vec::new();
    let mut k: usize = 0;
    assert(texts(out@) + pieces_from(c@, sep, 0) =~= pieces(c@, sep));
    loop
        invariant
            c@ == s@,
            k <= c@.len(),
            texts(out@) + pieces_from(c@, sep, k as int) == pieces(c@, sep),
        decreases c@.len() - k,
    {
        broadcast use texts_push;

        let e: usize = index_of(&c, sep, k);
        let ghost before = texts(out@);
        let w = s.substring_char(k, e).to_owned();
        if e >= c.len() {
            assert(w@ =~= c@.skip(k as int));
            out.push(w);
            assert(texts(out@) =~= before + seq![c@.skip(k as int)]);
            return out;
        }
        out.push(w);
        assert(texts(out@) + pieces_from(c@, sep, e + 1) =~= before + (seq![w@] + pieces_from(
            c@,
            sep,
            e + 1,
        )));
        k = e + 1;
    }
}

/// What follows the first `sep`.
pub open spec fn rest_after(s: Seq<char>, sep: char) -> Option<Seq<char>> {
    if index_from(s, sep, 0) < s.len() {
        Some(s.skip(index_from(s, sep, 0) + 1))
    } else {
        None
    }
}

/// What follows the first separator in a text.
pub fn text_after(s: &str, sep: char) -> (r: Option<String>)
    ensures
        text_opt(r) == rest_after(s@, sep),
{
    let c = chars_of(s);
    let e: usize = index_of(&c, sep, 0);
    if e >= c.len() {
        return None;
    }
    let n: usize = c.len();
    let rest = s.substring_char(e + 1, n).to_owned();
    assert(rest@ =~= s@.skip(e + 1));
    Some(rest)
}

/// The number of trailing white-space characters.
pub open spec fn tail_run(s: Seq<char>) -> nat
    decreases s.len(),
{
    if s.len() == 0 || !is_space(s.last()) {
        0
    } else {
        1 + tail_run(s.drop_last())
    }
}

/// `s` without white space at either end.
pub open spec fn trimmed(s: Seq<char>) -> Seq<char> {
    let t = s.skip(run_len(s, true) as int);
    t.take(t.len() - tail_run(t))
}

/// Removes white space at both ends.
pub fn trim_text(s: &str) -> (r: String)
    ensures
        r@ == trimmed(s@),
{
    let c = chars_of(s);
    let b: usize = run_end(&c, 0, true);
    assert(c@.skip(0) =~= c@);
    let ghost t = c@.skip(b as int);
    let mut e: usize = c.len();
    assert(t.take(e - b) =~= t);
    while e > b && space(c[e - 1])
        invariant
            b <= e <= c@.len(),
            t == c@.skip(b as int),
            tail_run(t) == c@.len() - e + tail_run(t.take(e - b)),
        decreases e,
    {
        assert(t.take(e - b).last() == c@[e - 1]);
        assert(t.take(e - b).drop_last() =~= t.take(e - b - 1));
        e -= 1;
    }
    if e > b {
        assert(t.take(e - b).last() == c@[e - 1]);
    }
    assert(tail_run(t.take(e - b)) == 0);
    let r = s.substring_char(b, e).to_owned();
    assert(r@ =~= t.take(e - b));
    r
}

/// The lower-case form of an ASCII letter; any other character itself.
pub open spec fn ascii_lower(c: char) -> char {
    if 'A' <= c <= 'Z' {
        ((c as u32 + 32) as u32) as char
    } else {
        c
    }
}

/// Equality that takes ASCII letters of either case as the same.
pub open spec fn same_ignoring_case(a: Seq<char>, b: Seq<char>) -> bool {
    a.map_values(|c: char| ascii_lower(c)) == b.map_values(|c: char| ascii_lower(c))
}

fn lower(c: char) -> (r: u32)
    ensures
        r == ascii_lower(c) as u32,
{
    if 'A' <= c && c <= 'Z' {
        c as u32 + 32
    } else {
        c as u32
    }
}

/// Compares two texts, taking ASCII letters of either case as the same.
pub fn equal_ignoring_case(a: &str, b: &str) -> (r: bool)
    ensures
        r == same_ignoring_case(a@, b@),
{
    let x = chars_of(a);
    let y = chars_of(b);
    let ghost fx = x@.map_values(|c: char| ascii_lower(c));
    let ghost fy = y@.map_values(|c: char| ascii_lower(c));
    if x.len() != y.len() {
        assert(fx.len() != fy.len());
        return false;
    }
    let mut i: usize = 0;
    while i < x.len()
        invariant
            i <= x@.len(),
            x@.len() == y@.len(),
            x@ == a@,
            y@ == b@,
            fx == x@.map_values(|c: char| ascii_lower(c)),
            fy == y@.map_values(|c: char| ascii_lower(c)),
            forall|j: int| 0 <= j < i ==> fx[j] == fy[j],
        decreases x@.len() - i,
    {
        if lower(x[i]) != lower(y[i]) {
            assert(fx[i as int] != fy[i as int]);
            return false;
        }
        i += 1;
    }
    assert(fx =~= fy);
    true
}

/// An ASCII decimal digit.
pub open spec fn is_digit(c: char) -> bool {
    '0' <= c <= '9'
}

/// The number that a row of digits writes.
pub open spec fn digits_value(s: Seq<char>) -> nat
    decreases s.len(),
{
    if s.len() == 0 {
        0
    } else {
        (digits_value(s.drop_last()) * 10 + (s.last() as u32 - '0' as u32)) as nat
    }
}

/// `s` without the `+` that it may begin with.
pub open spec fn unsigned_part(s: Seq<char>) -> Seq<char> {
    if s.len() > 0 && s[0] == '+' {
        s.skip(1)
    } else {
        s
    }
}

/// A row of at least one digit.
pub open spec fn all_digits(s: Seq<char>) -> bool {
    &&& s.len() > 0
    &&& forall|i: int| 0 <= i < s.len() ==> is_digit(#[trigger] s[i])
}

/// A decimal number of at most `max`: digits, with at most one `+` before them.
pub open spec fn number(s: Seq<char>, max: nat) -> Option<nat> {
    let body = unsigned_part(s);
    if all_digits(body) && digits_value(body) <= max {
        Some(digits_value(body))
    } else {
        None
    }
}

proof fn digits_value_grows(s: Seq<char>, k: int)
    requires
        0 <= k <= s.len(),
        forall|i: int| 0 <= i < s.len() ==> is_digit(#[trigger] s[i]),
    ensures
        digits_value(s.take(k)) <= digits_value(s),
    decreases s.len() - k,
{
    if k < s.len() {
        digits_value_grows(s, k + 1);
        assert(s.take(k + 1).drop_last() =~= s.take(k));
        assert(s.take(k + 1).last() == s[k]);
        assert(is_digit(s[k]));
    } else {
        assert(s.take(k) =~= s);
    }
}

/// Reads a decimal number of at most `max`.
pub fn parse_number(s: &str, max: u64) -> (r: Option<u64>)
    ensures
        r matches Some(n) ==> n <= max && number(s@, max as nat) == Some(n as nat),
        r is None ==> number(s@, max as nat) is None,
{
    let c = chars_of(s);
    let start: usize = if c.len() > 0 && c[0] == '+' {
        1
    } else {
        0
    };
    let ghost body = unsigned_part(s@);
    assert(body =~= c@.skip(start as int));
    if c.len() == start {
        return None;
    }
    let mut acc: u64 = 0;
    let mut i: usize = start;
    assert(body.take(0) =~= Seq::<char>::empty());
    while i < c.len()
        invariant
            start <= i <= c@.len(),
            c@ == s@,
            start <= 1,
            start < c@.len(),
            body == c@.skip(start as int),
            body == unsigned_part(s@),
            forall|j: int| 0 <= j < i - start ==> is_digit(#[trigger] body[j]),
            acc == digits_value(body.take(i - start)),
            acc <= max,
        decreases c@.len() - i,
    {
        let d = c[i];
        assert(d == body[i - start]);
        if d < '0' || d > '9' {
            assert(!is_digit(body[i - start]));
            assert(!all_digits(body));
            return None;
        }
        let v: u64 = (d as u32 - '0' as u32) as u64;
        assert(body.take(i - start + 1).drop_last() =~= body.take(i - start));
        assert(body.take(i - start + 1).last() == d);
        let wide: u128 = acc as u128 * 10 + v as u128;
        if wide > max as u128 {
            proof {
                if all_digits(body) {
                    digits_value_grows(body, i - start + 1);
                }
            }
            return None;
        }
        acc = wide as u64;
        i += 1;
    }
    assert(body.take(body.len() as int) =~= body);
    Some(acc)
}

/// Reads a number that fits an octet.
pub fn parse_u8(s: &str) -> (r: Option<u8>)
    ensures
        r matches Some(n) ==> number(s@, 255) == Some(n as nat),
        r is None ==> number(s@, 255) is None,
{
    match parse_number(s, 255) {
        Some(n) => Some(n as u8),
        None => None,
    }
}

/// Reads a number that fits sixteen bits.
pub fn parse_u16(s: &str) -> (r: Option<u16>)
    ensures
        r matches Some(n) ==> number(s@, 65535) == Some(n as nat),
        r is None ==> number(s@, 65535) is None,
{
    match parse_number(s, 65535) {
        Some(n) => Some(n as u16),
        None => None,
    }
}

/// Reads a number that fits 32 bits.
pub fn parse_u32(s: &str) -> (r: Option<u32>)
    ensures
        r matches Some(n) ==> number(s@, 0xffff_ffff) == Some(n as nat),
        r is None ==> number(s@, 0xffff_ffff) is None,
{
    match parse_number(s, 0xffff_ffff) {
        Some(n) => Some(n as u32),
        None => None,
    }
}

/// The digit that writes `d`.
pub open spec fn digit_char(d: nat) -> char {
    (('0' as u32 + d) as u32) as char
}

/// The decimal notation of `n`.
pub open spec fn decimal(n: nat) -> Seq<char>
    decreases n,
{
    if n < 10 {
        seq![digit_char(n)]
    } else {
        decimal(n / 10).push(digit_char(n % 10))
    }
}

/// Writes `n` in decimal.
pub fn decimal_text(n: u64) -> (r: String)
    ensures
        r@ == decimal(n as nat),
    decreases n,
{
    let all = "0123456789";
    proof {
        reveal_strlit("0123456789");
    }
    let d: usize = (n % 10) as usize;
    let last = all.substring_char(d, d + 1);
    assert(last@ =~= seq![digit_char((n % 10) as nat)]);
    if n < 10 {
        last.to_owned()
    } else {
        let mut out = decimal_text(n / 10);
        out.append(last);
        assert(out@ =~= decimal((n / 10) as nat).push(digit_char((n % 10) as nat)));
        out
    }
}

proof fn decimal_reads_back(n: nat)
    ensures
        decimal(n).len() > 0,
        forall|i: int| 0 <= i < decimal(n).len() ==> is_digit(#[trigger] decimal(n)[i]),
        digits_value(decimal(n)) == n,
    decreases n,
{
    if n < 10 {
        let s = seq![digit_char(n)];
        assert(s.drop_last() =~= Seq::<char>::empty());
        assert(digits_value(Seq::<char>::empty()) == 0);
        assert(digits_value(s) == n);
    } else {
        decimal_reads_back(n / 10);
        let s = decimal(n / 10).push(digit_char(n % 10));
        assert(s.drop_last() =~= decimal(n / 10));
    }
}

/// Reading a number's decimal notation gives the number back.
pub proof fn number_of_decimal(n: nat, max: nat)
    requires
        n <= max,
    ensures
        number(decimal(n), max) == Some(n),
{
    decimal_reads_back(n);
    assert(is_digit(decimal(n)[0]));
}

proof fn run_of_word(a: Seq<char>, rest: Seq<char>)
    requires
        forall|i: int| 0 <= i < a.len() ==> !is_space(#[trigger] a[i]),
        rest.len() > 0,
        is_space(rest[0]),
    ensures
        run_len(a + rest, false) == a.len(),
    decreases a.len(),
{
    let s = a + rest;
    if a.len() == 0 {
        assert(s[0] == rest[0]);
    } else {
        assert(s[0] == a[0]);
        assert(s.skip(1) =~= a.skip(1) + rest);
        assert forall|i: int| 0 <= i < a.skip(1).len() implies !is_space(
            #[trigger] a.skip(1)[i],
        ) by {
            assert(a.skip(1)[i] == a[i + 1]);
        }
        run_of_word(a.skip(1), rest);
    }
}

/// A text that begins with a word and a space has that word as its first.
pub proof fn leading_word(a: Seq<char>, rest: Seq<char>)
    requires
        a.len() > 0,
        forall|i: int| 0 <= i < a.len() ==> !is_space(#[trigger] a[i]),
    ensures
        words(a + " "@ + rest).len() > 0,
        words(a + " "@ + rest)[0] == a,
{
    reveal_strlit(" ");
    let s = a + " "@ + rest;
    let tail = " "@ + rest;
    assert(s =~= a + tail);
    assert(tail[0] == ' ');
    run_of_word(a, tail);
    assert(s[0] == a[0]);
    assert(!is_space(a[0]));
    assert(run_len(s, true) == 0);
    assert(s.skip(0) =~= s);
    assert(s.take(a.len() as int) =~= a);
    let more = words(s.skip(a.len() as int));
    assert(words(s) == seq![a] + more);
}

proof fn run_is_uniform(s: Seq<char>, want: bool)
    ensures
        forall|i: int| 0 <= i < run_len(s, want) ==> is_space(#[trigger] s[i]) == want,
    decreases s.len(),
{
    if s.len() > 0 && is_space(s[0]) == want {
        run_is_uniform(s.skip(1), want);
        run_len_bound(s, want);
        assert forall|i: int| 0 <= i < run_len(s, want) implies is_space(#[trigger] s[i])
            == want by {
            if i > 0 {
                assert(s[i] == s.skip(1)[i - 1]);
            }
        }
    }
}

/// The first word of a text is not empty and holds no white space.
pub proof fn first_word_is_solid(s: Seq<char>)
    requires
        words(s).len() > 0,
    ensures
        words(s)[0].len() > 0,
        forall|i: int| 0 <= i < words(s)[0].len() ==> !is_space(#[trigger] words(s)[0][i]),
{
    let rest = s.skip(run_len(s, true) as int);
    run_is_uniform(rest, false);
}

/// A number in decimal is a word.
pub proof fn decimal_is_solid(n: nat)
    ensures
        decimal(n).len() > 0,
        forall|i: int| 0 <= i < decimal(n).len() ==> !is_space(#[trigger] decimal(n)[i]),
{
    decimal_reads_back(n);
}

/// The pieces, with the separator between each two.
pub open spec fn rejoined(p: Seq<Seq<char>>, sep: char) -> Seq<char>
    decreases p.len(),
{
    if p.len() == 0 {
        Seq::empty()
    } else if p.len() == 1 {
        p[0]
    } else {
        p[0].push(sep) + rejoined(p.skip(1), sep)
    }
}

proof fn pieces_rejoin_from(s: Seq<char>, sep: char, k: int)
    requires
        0 <= k <= s.len(),
    ensures
        pieces_from(s, sep, k).len() > 0,
        rejoined(pieces_from(s, sep, k), sep) == s.skip(k),
        forall|i: int|
            0 <= i < pieces_from(s, sep, k).len() ==> !(#[trigger] pieces_from(
                s,
                sep,
                k,
            )[i]).contains(sep),
    decreases s.len() - k,
{
    index_from_bounds(s, sep, k);
    let e = index_from(s, sep, k);
    let p = pieces_from(s, sep, k);
    if e < s.len() {
        pieces_rejoin_from(s, sep, e + 1);
        let q = pieces_from(s, sep, e + 1);
        assert(p.skip(1) =~= q);
        assert(s.subrange(k, e).push(sep) + s.skip(e + 1) =~= s.skip(k));
        assert forall|i: int| 0 <= i < p.len() implies !(#[trigger] p[i]).contains(sep) by {
            if i > 0 {
                assert(p[i] == q[i - 1]);
            } else if p[0].contains(sep) {
                let j = p[0].index_of(sep);
                assert(s[k + j] == sep);
            }
        }
    } else {
        assert(p =~= seq![s.skip(k)]);
        if p[0].contains(sep) {
            let j = p[0].index_of(sep);
            assert(s[k + j] == sep);
        }
    }
}

/// No piece of a text holds the separator, and the pieces with the separator between them are the
/// text.
pub proof fn pieces_make_up_the_text(s: Seq<char>, sep: char)
    ensures
        pieces(s, sep).len() > 0,
        rejoined(pieces(s, sep), sep) == s,
        forall|i: int|
            0 <= i < pieces(s, sep).len() ==> !(#[trigger] pieces(s, sep)[i]).contains(sep),
{
    pieces_rejoin_from(s, sep, 0);
    assert(s.skip(0) =~= s);
}

/// What follows a separator is preceded by it, and by nothing else that is one; only a text
/// without a separator has nothing behind it.
pub proof fn rest_follows_the_first_separator(before: Seq<char>, rest: Seq<char>, sep: char)
    requires
        !before.contains(sep),
    ensures
        rest_after(before.push(sep) + rest, sep) == Some(rest),
        rest_after(before, sep) is None,
{
    let t = before.push(sep) + rest;
    index_from_bounds(t, sep, 0);
    let e = index_from(t, sep, 0);
    if e < before.len() {
        assert(before[e] == sep);
    }
    assert(t[before.len() as int] == sep);
    assert(e == before.len());
    assert(t.skip(e + 1) =~= rest);
    index_from_bounds(before, sep, 0);
    let f = index_from(before, sep, 0);
    if f < before.len() {
        assert(before[f] == sep);
    }
}

/// Text of nothing but white space.
pub open spec fn is_blank(s: Seq<char>) -> bool {
    forall|i: int| 0 <= i < s.len() ==> is_space(#[trigger] s[i])
}

proof fn tail_run_is_blank(s: Seq<char>)
    ensures
        tail_run(s) <= s.len(),
        is_blank(s.skip(s.len() - tail_run(s))),
        tail_run(s) < s.len() ==> !is_space(s[s.len() - tail_run(s) - 1]),
    decreases s.len(),
{
    if s.len() > 0 && is_space(s.last()) {
        let t = s.drop_last();
        tail_run_is_blank(t);
        let a = s.skip(s.len() - tail_run(s));
        let b = t.skip(t.len() - tail_run(t));
        assert(a =~= b.push(s.last()));
    }
}

/// Trimming takes white space from both ends, and nothing else: what is left begins and ends with
/// something else.
pub proof fn trimming_takes_space_alone(s: Seq<char>) -> (n: int)
    ensures
        0 <= n,
        n + trimmed(s).len() <= s.len(),
        is_blank(s.take(n)),
        s.subrange(n, n + trimmed(s).len()) == trimmed(s),
        is_blank(s.skip(n + trimmed(s).len())),
        trimmed(s).len() > 0 ==> !is_space(trimmed(s)[0]) && !is_space(trimmed(s).last()),
{
    run_len_bound(s, true);
    run_is_uniform(s, true);
    let n = run_len(s, true) as int;
    let t = s.skip(n);
    tail_run_is_blank(t);
    let r = trimmed(s);
    assert(s.subrange(n, n + r.len()) =~= r);
    assert(s.skip(n + r.len()) =~= t.skip(t.len() - tail_run(t)));
    if r.len() > 0 {
        leading_run_ends(s, true);
        assert(r[0] == s[n]);
    }
    n
}

proof fn leading_run_ends(s: Seq<char>, want: bool)
    ensures
        run_len(s, want) < s.len() ==> is_space(s[run_len(s, want) as int]) != want,
    decreases s.len(),
{
    if s.len() > 0 && is_space(s[0]) == want {
        leading_run_ends(s.skip(1), want);
    }
}

/// The words of a text have no white space in them and are not empty; white space before a text
/// changes nothing, and a word that white space ends stands before the words that follow.
pub proof fn words_are_apart(s: Seq<char>, i: int, c: char, word: Seq<char>)
    requires
        is_space(c),
        word.len() > 0,
        forall|j: int| 0 <= j < word.len() ==> !is_space(#[trigger] word[j]),
    ensures
        0 <= i < words(s).len() ==> words(s)[i].len() > 0 && forall|j: int|
            0 <= j < words(s)[i].len() ==> !is_space(#[trigger] words(s)[i][j]),
        words(seq![c] + s) == words(s),
        words(word + seq![c] + s) == seq![word] + words(s),
        words(word) == seq![word],
        words(Seq::<char>::empty()).len() == 0,
{
    words_are_solid(s, i);
    space_before_is_passed(s, c);
    let rest = seq![c] + s;
    let t = word + rest;
    assert(t =~= word + seq![c] + s);
    word_run(word, rest);
    assert(!is_space(t[0]));
    assert(run_len(t, true) == 0);
    assert(t.skip(0) =~= t);
    assert(t.take(word.len() as int) =~= word);
    assert(t.skip(word.len() as int) =~= rest);
    let e = Seq::<char>::empty();
    assert(word + e =~= word);
    word_run(word, e);
    assert(run_len(word, true) == 0);
    assert(word.skip(0) =~= word);
    assert(word.take(word.len() as int) =~= word);
    assert(word.skip(word.len() as int) =~= e);
    assert(words(e) =~= Seq::<Seq<char>>::empty());
    assert(words(word) =~= seq![word]);
}

proof fn word_run(a: Seq<char>, rest: Seq<char>)
    requires
        forall|j: int| 0 <= j < a.len() ==> !is_space(#[trigger] a[j]),
        rest.len() == 0 || is_space(rest[0]),
    ensures
        run_len(a + rest, false) == a.len(),
    decreases a.len(),
{
    if a.len() > 0 {
        assert((a + rest).skip(1) =~= a.skip(1) + rest);
        assert((a + rest)[0] == a[0]);
        word_run(a.skip(1), rest);
    } else {
        assert(a + rest =~= rest);
    }
}

proof fn space_before_is_passed(s: Seq<char>, c: char)
    requires
        is_space(c),
    ensures
        words(seq![c] + s) == words(s),
{
    let t = seq![c] + s;
    assert(t.skip(1) =~= s);
    assert(run_len(t, true) == 1 + run_len(s, true));
    run_len_bound(s, true);
    assert(t.skip(run_len(t, true) as int) =~= s.skip(run_len(s, true) as int));
}

proof fn words_are_solid(s: Seq<char>, i: int)
    ensures
        0 <= i < words(s).len() ==> words(s)[i].len() > 0 && forall|j: int|
            0 <= j < words(s)[i].len() ==> !is_space(#[trigger] words(s)[i][j]),
    decreases s.len(),
{
    run_len_bound(s, true);
    let rest = s.skip(run_len(s, true) as int);
    run_len_bound(rest, false);
    run_is_uniform(rest, false);
    let n = run_len(rest, false);
    if n > 0 && rest.len() > 0 {
        words_are_solid(rest.skip(n as int), i - 1);
        assert(forall|j: int| 0 <= j < n ==> !is_space(#[trigger] rest.take(n as int)[j]));
    }
}

/// A digit more makes a number ten times as large, and adds the digit; what is not a digit makes
/// it none; a bound that is passed makes it none; a leading `+` is passed over, a second is not.
pub proof fn numbers_are_decimal(s: Seq<char>, c: char, max: nat)
    requires
        all_digits(s),
    ensures
        number(seq!['0'], max) == Some(0nat),
        number(Seq::<char>::empty(), max) is None,
        is_digit(c) && number(s.push(c), max) is Some ==> number(s, max) is Some && number(
            s.push(c),
            max,
        )->0 == number(s, max)->0 * 10 + (c as u32 - '0' as u32),
        is_digit(c) && number(s, max) is Some && number(s, max)->0 * 10 + (c as u32 - '0' as u32)
            <= max ==> number(s.push(c), max) is Some,
        number(s, max) matches Some(n) ==> n <= max,
        !is_digit(c) ==> number(s.push(c), max) is None,
        number(seq!['+'] + s, max) == number(s, max),
        number(seq!['+', '+'] + s, max) is None,
{
    let z = seq!['0'];
    assert(z.drop_last() =~= Seq::<char>::empty());
    assert(digits_value(z) == 0);
    let t = s.push(c);
    assert(t.drop_last() =~= s);
    assert(is_digit(s[0]) && t[0] == s[0]);
    if is_digit(c) {
        assert(all_digits(t));
    } else {
        assert(t[s.len() as int] == c);
    }
    let p = seq!['+'] + s;
    assert(p.skip(1) =~= s);
    let q = seq!['+', '+'] + s;
    assert(q.skip(1)[0] == '+');
}

} // verus!
