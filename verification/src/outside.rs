//! The calls into the `base64` and `rand` crates.

use base64::prelude::Engine;
use base64::prelude::BASE64_STANDARD;
use vstd::prelude::*;

verus! {

/// What the standard base64 engine decodes a text to, or the text of its error.
pub uninterp spec fn base64_decoded(text: Seq<char>) -> Result<Seq<u8>, Seq<char>>;

/// What the standard base64 engine encodes octets as.
pub uninterp spec fn base64_encoded(data: Seq<u8>) -> Seq<char>;

/// A successful decoding.
pub open spec fn octets(data: Seq<u8>) -> Result<Seq<u8>, Seq<char>> {
    Ok(data)
}

/// A failed decoding, with the text of its error.
pub open spec fn failure(error: Seq<char>) -> Result<Seq<u8>, Seq<char>> {
    Err(error)
}

/// A character of the standard base64 alphabet, or the padding.
pub open spec fn is_base64_char(c: char) -> bool {
    ||| 'A' <= c <= 'Z'
    ||| 'a' <= c <= 'z'
    ||| '0' <= c <= '9'
    ||| c == '+'
    ||| c == '/'
    ||| c == '='
}

/// `BASE64_STANDARD.decode` of the crate `base64`: the octets that the text encodes, or the
/// engine's error as its `Display` writes it. Both depend on the text alone.
#[verifier::external_body]
pub(crate) fn base64_bytes(text: &str) -> (r: Result<Vec<u8>, String>)
    ensures
        r matches Ok(v) ==> base64_decoded(text@) == octets(v@),
        r matches Err(e) ==> base64_decoded(text@) == failure(e@),
{
    match BASE64_STANDARD.decode(text) {
        Ok(v) => Ok(v),
        Err(e) => Err(e.to_string()),
    }
}

/// `BASE64_STANDARD.encode` of the crate `base64`: four characters of the standard alphabet, with
/// `=` as padding, for every three octets begun. Decoding the result gives the octets back. The
/// bound keeps the length of the result within the longest allocation.
#[verifier::external_body]
pub(crate) fn base64_text(data: &Vec<u8>) -> (r: String)
    requires
        data@.len() / 3 * 4 + 4 <= isize::MAX,
    ensures
        r@ == base64_encoded(data@),
        base64_decoded(r@) == octets(data@),
        r@.len() == (data@.len() + 2) / 3 * 4,
        forall|i: int| 0 <= i < r@.len() ==> is_base64_char(#[trigger] r@[i]),
{
    BASE64_STANDARD.encode(data)
}

/// `rand::fill` of the crate `rand` on a buffer of `len` octets. Nothing is said of the octets.
#[verifier::external_body]
pub(crate) fn random_octets(len: usize) -> (r: Vec<u8>)
    requires
        len <= isize::MAX,
    ensures
        r@.len() == len,
{
    let mut v = vec![0u8; len];
    rand::fill(v.as_mut_slice());
    v
}

/// `rand::random` of the crate `rand` for a 32-bit number. Nothing is said of the number.
#[verifier::external_body]
pub(crate) fn random_u32() -> (r: u32) {
    rand::random::<u32>()
}

} // verus!
