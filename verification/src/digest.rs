//! SHA-256 digests, written in hexadecimal.
use vstd::prelude::*;

use crate::text::{is_ascii_lower, is_digit, is_hex_digit};

verus! {

/// The SHA-256 digest of some bytes in lower-case hexadecimal.
pub uninterp spec fn sha256_of(data: Seq<u8>) -> Seq<char>;

/// A digest as the library stores it: 64 lower-case hexadecimal digits.
pub open spec fn is_digest(s: Seq<char>) -> bool {
    &&& s.len() == 64
    &&& forall|i: int|
        0 <= i < s.len() ==> is_hex_digit(#[trigger] s[i]) && (is_digit(s[i]) || is_ascii_lower(
            s[i],
        ))
}

/// Outside function: `sha2::Sha256::digest`. Its 32 bytes, formatted with
/// `{:x}`, make 64 lower-case hexadecimal digits.
#[verifier::external_body]
pub(crate) fn sha256_hex(data: &[u8]) -> (r: String)
    ensures
        r@ == sha256_of(data@),
        is_digest(r@),
{
    format!("{:x}", <sha2::Sha256 as sha2::Digest>::digest(data))
}

/// The digest of a text.
pub fn sha256_text(value: &str) -> (r: String)
    ensures
        r@ == sha256_of(vstd::utf8::encode_utf8(value@)),
        is_digest(r@),
{
    sha256_hex(value.as_bytes())
}

/// The digest of the bytes of a file.
pub fn sha256(content: &Vec<u8>) -> (r: String)
    ensures
        r@ == sha256_of(content@),
        is_digest(r@),
{
    sha256_hex(content.as_slice())
}

} // verus!
