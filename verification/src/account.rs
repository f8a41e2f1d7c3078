//! Accounts: the names that the platform knows its users and contracts by.

use vstd::prelude::*;

verus! {

/// An account on the platform, by its name.
pub type AccountId = String;

/// `c` is a lower-case letter or a digit.
pub open spec fn is_name_char(c: char) -> bool {
    ('a' <= c && c <= 'z') || ('0' <= c && c <= '9')
}

/// `c` is one of the three characters that separate the parts of a name.
pub open spec fn is_separator(c: char) -> bool {
    c == '-' || c == '_' || c == '.'
}

/// `s` is the name of an account: 2 to 64 characters, each a lower-case letter,
/// a digit or a separator, with no separator first, last or next to another.
pub open spec fn valid_account_id(s: Seq<char>) -> bool {
    &&& 2 <= s.len() <= 64
    &&& forall|i: int| 0 <= i < s.len() ==> is_name_char(#[trigger] s[i]) || is_separator(s[i])
    &&& !is_separator(s[0])
    &&& !is_separator(s[s.len() - 1])
    &&& forall|i: int| 0 <= i < s.len() - 1 ==> !(is_separator(#[trigger] s[i]) && is_separator(s[i + 1]))
}

/// Whether `text` is the name of an account, as `AccountId::validate` of the
/// crate `near-account-id` decides it. The contract restates the rule that
/// `validate` checks: the length in bytes from 2 to 64, every character a
/// lower-case ASCII letter, an ASCII digit or one of `-`, `_` and `.`, and no
/// separator at either end or after another. It is taken on trust.
#[verifier::external_body]
pub(crate) fn account_id_is_valid(text: &str) -> (r: bool)
    ensures
        r == valid_account_id(text@),
{
    near_account_id::AccountId::validate(text).is_ok()
}

} // verus!
