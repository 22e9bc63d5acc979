use vstd::prelude::*;

verus! {

/// Whether a character may stand in an account identifier.
pub open spec fn account_char(c: char) -> bool {
    ('a' <= c && c <= 'z') || ('0' <= c && c <= '9') || account_separator(c)
}

pub open spec fn account_separator(c: char) -> bool {
    c == '-' || c == '_' || c == '.'
}

/// A well-formed account identifier: 2 to 64 characters out of lower-case
/// letters, digits and the separators `-`, `_`, `.`, where a separator neither
/// starts nor ends the identifier nor follows another separator.
pub open spec fn valid_account_id(s: Seq<char>) -> bool {
    &&& 2 <= s.len() <= 64
    &&& forall|i: int| 0 <= i < s.len() ==> account_char(#[trigger] s[i])
    &&& !account_separator(s[0])
    &&& !account_separator(s[s.len() - 1])
    &&& forall|i: int|
        0 < i < s.len() ==> !(account_separator(#[trigger] s[i]) && account_separator(s[i - 1]))
}

/// Relies on `near_sdk::env::is_valid_account_id`, which checks the rule of
/// `valid_account_id` on the identifier's bytes (every accepted byte is ASCII,
/// so bytes and characters agree).
#[verifier::external_body]
fn near_valid_account_id(account_id: &String) -> (r: bool)
    ensures
        r == valid_account_id(account_id@),
{
    near_sdk::env::is_valid_account_id(account_id.as_bytes())
}

/// Whether `account_id` is a well-formed account identifier.
pub fn is_valid_account_id(account_id: &String) -> (r: bool)
    ensures
        r == valid_account_id(account_id@),
{
    near_valid_account_id(account_id)
}

} // verus!
