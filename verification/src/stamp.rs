//! Fresh identifiers and the time of day.
use vstd::prelude::*;

use crate::text::{is_ascii_lower, is_digit, is_hex_digit};

verus! {

/// The letters of a written UUID: lower-case hexadecimal digits and hyphens.
pub open spec fn is_id_letter(c: char) -> bool {
    c == '-' || (is_hex_digit(c) && (is_digit(c) || is_ascii_lower(c)))
}

/// A written UUID has 36 letters.
pub open spec fn is_uuid(s: Seq<char>) -> bool {
    s.len() == 36 && forall|i: int| 0 <= i < s.len() ==> is_id_letter(#[trigger] s[i])
}

/// Outside function: `uuid::Uuid::new_v4`, which is random, written with
/// hyphens. Nothing is said of which identifier comes.
#[verifier::external_body]
pub(crate) fn new_id() -> (r: String)
    ensures
        is_uuid(r@),
{
    uuid::Uuid::new_v4().to_string()
}

/// Outside function: `chrono::Utc::now`, written as RFC 3339. Nothing is said
/// of the time that it gives.
#[verifier::external_body]
pub(crate) fn now_text() -> (r: String) {
    chrono::Utc::now().to_rfc3339()
}

/// A secret is 64 lower-case hexadecimal digits.
pub open spec fn is_token(s: Seq<char>) -> bool {
    &&& s.len() == 64
    &&& forall|i: int|
        0 <= i < s.len() ==> is_hex_digit(#[trigger] s[i]) && (is_digit(s[i]) || is_ascii_lower(
            s[i],
        ))
}

/// Outside function: `uuid::Uuid::new_v4`, twice, each written without hyphens
/// as 32 lower-case hexadecimal digits. Nothing is said of which digits come.
#[verifier::external_body]
pub(crate) fn new_token() -> (r: String)
    ensures
        is_token(r@),
{
    format!("{}{}", uuid::Uuid::new_v4().simple(), uuid::Uuid::new_v4().simple())
}

} // verus!
