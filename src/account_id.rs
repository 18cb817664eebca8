use vstd::prelude::*;

verus! {

/// Whether `c` separates the parts of an account identifier.
pub open spec fn is_separator(c: char) -> bool {
    c == '-' || c == '_' || c == '.'
}

/// Whether `c` may stand in an account identifier: a lower-case ASCII letter,
/// a digit or a separator.
pub open spec fn is_id_char(c: char) -> bool {
    ('a' as int <= c as int <= 'z' as int) || ('0' as int <= c as int <= '9' as int)
        || is_separator(c)
}

/// Whether `s` is a well-formed NEAR account identifier: 2 to 64 characters,
/// each a lower-case ASCII letter, a digit or a separator, with no separator
/// at the start, at the end, or next to another.
pub open spec fn account_id_valid(s: Seq<char>) -> bool {
    &&& 2 <= s.len() <= 64
    &&& forall|i: int| 0 <= i < s.len() ==> is_id_char(#[trigger] s[i])
    &&& !is_separator(s[0])
    &&& !is_separator(s.last())
    &&& forall|i: int|
        0 <= i < s.len() - 1 ==> !(is_separator(#[trigger] s[i]) && is_separator(s[i + 1]))
}

/// Relies on `near_api::AccountId::validate` (near-account-id's
/// `validation::validate`): it accepts a string exactly when its byte length
/// is 2 to 64, each character is in `a-z`, `0-9`, `-`, `_` or `.`, and no
/// separator stands first, last, or right after another. Such strings are
/// ASCII, so their byte length is their length in characters.
#[verifier::external_body]
fn validate_account_id(s: &str) -> (r: bool)
    ensures
        r == account_id_valid(s@),
{
    near_api::AccountId::validate(s).is_ok()
}

/// Whether a file name in the registry stays hidden from listings.
pub open spec fn is_hidden(s: Seq<char>) -> bool {
    s.len() > 0 && s[0] == '.'
}

/// What an account name holds: a valid identifier, which is never hidden.
pub open spec fn is_account_name(s: Seq<char>) -> bool {
    account_id_valid(s) && s.len() > 0 && !is_hidden(s)
}

/// A validated account identifier.
#[derive(Debug)]
pub struct AccountName {
    name: String,
}

impl View for AccountName {
    type V = Seq<char>;

    closed spec fn view(&self) -> Seq<char> {
        self.name@
    }
}

impl AccountName {
    #[verifier::type_invariant]
    closed spec fn inv(&self) -> bool {
        is_account_name(self.name@)
    }

    /// The account name `s`, when `s` is a valid identifier.
    pub fn parse(s: &str) -> (r: Option<AccountName>)
        ensures
            r is Some <==> account_id_valid(s@),
            r matches Some(a) ==> a@ == s@,
    {
        if validate_account_id(s) {
            Some(AccountName { name: s.to_owned() })
        } else {
            None
        }
    }

    pub fn as_str(&self) -> (r: &str)
        ensures
            r@ == self@,
            is_account_name(r@),
    {
        proof {
            use_type_invariant(self);
        }
        self.name.as_str()
    }
}

/// Whether `s` may stand in a listing: a valid identifier, not hidden.
pub fn is_listed_name(s: &str) -> (r: bool)
    ensures
        r == is_account_name(s@),
{
    validate_account_id(s)
}

} // verus!
