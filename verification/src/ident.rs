//! Random identifiers in the form of UUIDs.

use crate::outside::random_u32;
use vstd::prelude::*;

verus! {

/// A lower-case hexadecimal digit.
pub open spec fn hex_digit(d: int) -> char {
    if d < 10 {
        ('0' as int + d) as char
    } else {
        ('a' as int + (d - 10)) as char
    }
}

/// An octet in two hexadecimal digits.
pub open spec fn hex_octet(b: int) -> Seq<char> {
    seq![hex_digit(b / 16), hex_digit(b % 16)]
}

/// The four octets of a word in hexadecimal digits, most significant first; with a dash in the
/// middle where `split` holds.
pub open spec fn hex_word(w: u32, split: bool) -> Seq<char> {
    let dash: Seq<char> = if split {
        seq!['-']
    } else {
        seq![]
    };
    hex_octet(w as int / 0x100_0000) + hex_octet(w as int / 0x1_0000 % 0x100) + dash + hex_octet(
        w as int / 0x100 % 0x100,
    ) + hex_octet(w as int % 0x100)
}

/// Sixteen octets as a UUID is written.
pub open spec fn rtc_id(a: u32, b: u32, c: u32, d: u32) -> Seq<char> {
    hex_word(a, false) + seq!['-'] + hex_word(b, true) + seq!['-'] + hex_word(c, true) + hex_word(
        d,
        false,
    )
}

/// Text that has the form of a UUID.
pub open spec fn is_rtc_id(s: Seq<char>) -> bool {
    exists|a: u32, b: u32, c: u32, d: u32| s == #[trigger] rtc_id(a, b, c, d)
}

fn push_octet(out: &mut String, b: u8)
    ensures
        final(out)@ == old(out)@ + hex_octet(b as int),
{
    let ghost before = out@;
    let all = "0123456789abcdef";
    proof {
        reveal_strlit("0123456789abcdef");
    }
    let high: usize = (b / 16) as usize;
    let low: usize = (b % 16) as usize;
    let first = all.substring_char(high, high + 1);
    let second = all.substring_char(low, low + 1);
    assert(first@ =~= seq![hex_digit(b as int / 16)]);
    assert(second@ =~= seq![hex_digit(b as int % 16)]);
    out.append(first);
    out.append(second);
    assert(out@ =~= before + hex_octet(b as int));
}

fn push_dash(out: &mut String)
    ensures
        final(out)@ == old(out)@ + seq!['-'],
{
    proof {
        reveal_strlit("-");
    }
    out.append("-");
    assert("-"@ =~= seq!['-']);
}

fn push_word(out: &mut String, w: u32, split: bool)
    ensures
        final(out)@ == old(out)@ + hex_word(w, split),
{
    let ghost before = out@;
    push_octet(out, (w / 0x100_0000) as u8);
    push_octet(out, (w / 0x1_0000 % 0x100) as u8);
    if split {
        push_dash(out);
    }
    push_octet(out, (w / 0x100 % 0x100) as u8);
    push_octet(out, (w % 0x100) as u8);
    assert(out@ =~= before + hex_word(w, split));
}

/// Writes sixteen octets as a UUID.
pub fn format_rtc_id(a: u32, b: u32, c: u32, d: u32) -> (r: String)
    ensures
        r@ == rtc_id(a, b, c, d),
{
    let mut out = String::new();
    push_word(&mut out, a, false);
    push_dash(&mut out);
    push_word(&mut out, b, true);
    push_dash(&mut out);
    push_word(&mut out, c, true);
    push_word(&mut out, d, false);
    assert(out@ =~= rtc_id(a, b, c, d));
    out
}

/// A random identifier, written as a UUID.
pub fn random_rtc_id() -> (r: String)
    ensures
        is_rtc_id(r@),
{
    let a: u32 = random_u32();
    let b: u32 = random_u32();
    let c: u32 = random_u32();
    let d: u32 = random_u32();
    format_rtc_id(a, b, c, d)
}

/// An identifier has the form of a UUID: thirty-six characters, with dashes where they belong.
pub proof fn rtc_id_is_a_uuid(a: u32, b: u32, c: u32, d: u32)
    ensures
        rtc_id(a, b, c, d).len() == 36,
        rtc_id(a, b, c, d)[8] == '-',
        rtc_id(a, b, c, d)[13] == '-',
        rtc_id(a, b, c, d)[18] == '-',
        rtc_id(a, b, c, d)[23] == '-',
{
    let x = hex_word(a, false);
    let y = hex_word(b, true);
    let z = hex_word(c, true);
    assert(x.len() == 8 && hex_word(d, false).len() == 8);
    assert(y.len() == 9 && y[4] == '-');
    assert(z.len() == 9 && z[4] == '-');
}

/// A hexadecimal digit in lower case is read as the number that it was made of.
pub proof fn hex_digits_are_read_back(d: int)
    requires
        0 <= d < 16,
    ensures
        d < 10 ==> '0' <= hex_digit(d) <= '9' && hex_digit(d) as u32 == '0' as u32 + d,
        d >= 10 ==> 'a' <= hex_digit(d) <= 'f' && hex_digit(d) as u32 == 'a' as u32 + (d - 10),
{
}

} // verus!
