//! Random identifiers, drawn from the `uuid` crate.

use vstd::prelude::*;

verus! {

/// Whether `c` is a decimal digit or one of the letters `a` to `f`.
pub open spec fn is_lower_hex(c: char) -> bool {
    ||| '0' <= c <= '9'
    ||| 'a' <= c <= 'f'
}

/// Whether position `i` of an identifier holds a hyphen.
pub open spec fn is_hyphen_position(i: int) -> bool {
    i == 8 || i == 13 || i == 18 || i == 23
}

/// The shape of a random identifier in text: thirty-six characters, five
/// groups of lower-case hexadecimal digits with a hyphen between them, the
/// third group starting with the version digit `4` and the fourth with one of
/// `8`, `9`, `a`, `b`.
pub open spec fn is_uuid_text(s: Seq<char>) -> bool {
    &&& s.len() == 36
    &&& forall|i: int|
        0 <= i < 36 ==> if is_hyphen_position(i) {
            #[trigger] s[i] == '-'
        } else {
            is_lower_hex(s[i])
        }
    &&& s[14] == '4'
    &&& (s[19] == '8' || s[19] == '9' || s[19] == 'a' || s[19] == 'b')
}

/// Draws a random identifier and renders it as text.
///
/// Calls `uuid::Uuid::new_v4` and formats the value with its `Display`
/// implementation. Which identifier comes back is left open; the contract
/// claims only its shape, which the crate's formatter fixes: the hyphenated
/// lower-case form, with the version and variant digits that `new_v4` sets.
/// The call panics where the operating system cannot supply random bytes.
#[verifier::external_body]
pub(crate) fn fresh_token() -> (token: String)
    ensures
        is_uuid_text(token@),
{
    uuid::Uuid::new_v4().to_string()
}

} // verus!
