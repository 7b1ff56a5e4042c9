//! Random identifiers.

use vstd::prelude::*;

use crate::hashing::is_hex_digit;

verus! {

/// Whether a text is a random UUID in the form with hyphens: groups of 8, 4, 4, 4
/// and 12 lowercase hexadecimal digits, the third starting with `4` and the fourth
/// with `8`, `9`, `a` or `b`.
pub open spec fn is_random_uuid(s: Seq<char>) -> bool {
    &&& s.len() == 36
    &&& forall|i: int|
        #![trigger s[i]]
        0 <= i < 36 ==> if i == 8 || i == 13 || i == 18 || i == 23 {
            s[i] == '-'
        } else {
            is_hex_digit(s[i])
        }
    &&& s[14] == '4'
    &&& s[19] == '8' || s[19] == '9' || s[19] == 'a' || s[19] == 'b'
}

/// Calls `uuid::Uuid::new_v4` and writes the result with hyphens. Nothing is said
/// of two calls: the digits come from the system's random numbers.
#[verifier::external_body]
pub(crate) fn new_id() -> (r: String)
    ensures
        is_random_uuid(r@),
{
    uuid::Uuid::new_v4().to_string()
}

/// Whether a text is an identifier that was drawn: one that a call of [`new_id`] gave.
pub closed spec fn is_drawn(s: Seq<char>) -> bool {
    exists|id: String| #[trigger] call_ensures(new_id, (), id) && id@ == s
}

/// Draws an identifier.
pub(crate) fn draw() -> (r: String)
    ensures
        is_random_uuid(r@),
        is_drawn(r@),
{
    new_id()
}

/// An identifier that was drawn came out of a call, and so has the form of a random UUID: 36
/// characters, hyphens in four places and lowercase hexadecimal digits in the others, and the
/// digits that tell a random one.
proof fn law_drawn_identifiers_come_from_calls(s: Seq<char>)
    requires
        is_drawn(s),
    ensures
        exists|id: String| #[trigger] call_ensures(new_id, (), id) && id@ == s,
        is_random_uuid(s),
{
}

/// A random UUID has 36 characters: hyphens behind 8, 12, 16 and 20 digits, and lowercase
/// hexadecimal digits, of which the thirteenth is `4`.
pub proof fn law_form_of_identifiers(s: Seq<char>, i: int)
    requires
        is_random_uuid(s),
        0 <= i < 36,
    ensures
        s.len() == 36,
        i == 8 || i == 13 || i == 18 || i == 23 ==> s[i] == '-',
        i != 8 && i != 13 && i != 18 && i != 23 ==> ('0' <= s[i] && s[i] <= '9') || ('a' <= s[i]
            && s[i] <= 'f'),
        s[14] == '4',
        s[19] == '8' || s[19] == '9' || s[19] == 'a' || s[19] == 'b',
{
    let c = s[i];
}

} // verus!
