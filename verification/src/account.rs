//! Account identifiers.
use crate::collections::{Duplicate, MapKey};
use vstd::prelude::*;
use vstd::utf8::*;

verus! {

/// `-`, `_` or `.`: the bytes that separate the parts of an account identifier.
pub open spec fn is_id_separator(b: u8) -> bool {
    b == 0x2d || b == 0x5f || b == 0x2e
}

/// A lower-case ASCII letter or a digit.
pub open spec fn is_id_alphanumeric(b: u8) -> bool {
    (0x61 <= b && b <= 0x7a) || (0x30 <= b && b <= 0x39)
}

/// The rule for account identifiers: 2 to 64 bytes, each a lower-case letter,
/// a digit or a separator, where no separator stands first, last or next to
/// another separator.
pub open spec fn valid_account_id(id: Seq<u8>) -> bool {
    &&& 2 <= id.len() <= 64
    &&& forall|i: int|
        0 <= i < id.len() ==> is_id_alphanumeric(#[trigger] id[i]) || is_id_separator(id[i])
    &&& !is_id_separator(id[0])
    &&& !is_id_separator(id[id.len() - 1])
    &&& forall|i: int|
        0 <= i < id.len() - 1 ==> !(is_id_separator(#[trigger] id[i]) && is_id_separator(id[i + 1]))
}

/// Calls `near_sdk::env::is_valid_account_id`, which scans the bytes once and
/// accepts exactly the identifiers that [`valid_account_id`] describes.
#[verifier::external_body]
fn is_valid_account_id(id: &[u8]) -> (valid: bool)
    ensures
        valid == valid_account_id(id@),
{
    near_sdk::env::is_valid_account_id(id)
}

/// The identifier of an account, checked against the rule for identifiers
/// when it is made.
#[derive(Debug)]
pub struct AccountId {
    id: String,
}

impl View for AccountId {
    type V = Seq<char>;

    closed spec fn view(&self) -> Seq<char> {
        self.id@
    }
}

impl AccountId {
    #[verifier::type_invariant]
    spec fn well_formed(&self) -> bool {
        valid_account_id(encode_utf8(self.id@))
    }

    /// The identifier `id`, if it is a valid one.
    pub fn new(id: String) -> (account: Option<AccountId>)
        ensures
            account is Some <==> valid_account_id(encode_utf8(id@)),
            account matches Some(a) ==> a@ == id@,
    {
        if is_valid_account_id(id.as_str().as_bytes()) {
            Some(AccountId { id })
        } else {
            None
        }
    }

    /// The identifier as text.
    pub fn as_str(&self) -> (id: &str)
        ensures
            id@ == self@,
            valid_account_id(encode_utf8(self@)),
    {
        proof {
            use_type_invariant(self);
        }
        self.id.as_str()
    }

    /// The number of bytes of the identifier.
    pub fn len(&self) -> (n: usize)
        ensures
            n == encode_utf8(self@).len(),
            2 <= n <= 64,
    {
        proof {
            use_type_invariant(self);
        }
        self.id.as_str().len()
    }

    /// Whether the two identifiers are the same.
    pub fn same_as(&self, other: &AccountId) -> (same: bool)
        ensures
            same == (self@ == other@),
    {
        self.id == other.id
    }
}

impl Clone for AccountId {
    fn clone(&self) -> (copy: Self)
        ensures
            copy@ == self@,
    {
        proof {
            use_type_invariant(self);
        }
        AccountId { id: self.id.clone() }
    }
}

impl Duplicate for AccountId {
    fn duplicate(&self) -> (copy: Self) {
        self.clone()
    }
}

impl MapKey for AccountId {
    fn key_eq(&self, other: &Self) -> (same: bool) {
        self.same_as(other)
    }
}

} // verus!
