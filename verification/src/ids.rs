//! Fresh identifiers.

use vstd::prelude::*;

verus! {

/// The shape of a hyphenated identifier: groups of 8, 4, 4, 4 and 12 lower-case
/// hexadecimal digits with hyphens between them.
pub open spec fn is_uuid_text(s: Seq<char>) -> bool {
    &&& s.len() == 36
    &&& forall|i: int|
        0 <= i < 36 ==> (if i == 8 || i == 13 || i == 18 || i == 23 {
            #[trigger] s[i] == '-'
        } else {
            '0' <= s[i] <= '9' || 'a' <= s[i] <= 'f'
        })
}

/// `uuid::Uuid::new_v4` and its text: a random identifier in hyphenated form. Two
/// calls give different identifiers with overwhelming probability, which is not
/// stated.
#[verifier::external_body]
pub(crate) fn fresh_id() -> (r: String)
    ensures
        is_uuid_text(r@),
{
    uuid::Uuid::new_v4().to_string()
}

} // verus!
