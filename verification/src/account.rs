//! Names of accounts, and what the engine needs of a key.

use vstd::prelude::*;
use vstd::string::StringExecFns;

verus! {

/// What can key a table: values that can be compared and copied, and that
/// are told apart by their views.
pub trait Key: View + Sized {
    /// Whether the two keys stand for the same thing.
    fn same(&self, other: &Self) -> (b: bool)
        ensures
            b == (self@ == other@),
    ;

    /// A second key that stands for the same thing.
    fn duplicate(&self) -> (copy: Self)
        ensures
            copy@ == self@,
    ;
}

/// The name of an account. Two names are the same account when they are
/// spelled alike.
#[derive(Debug)]
pub struct AccountId {
    name: String,
}

impl View for AccountId {
    type V = Seq<char>;

    /// The characters of the name.
    closed spec fn view(&self) -> Seq<char> {
        self.name@
    }
}

impl AccountId {
    /// The account of the given name.
    pub fn new(name: &str) -> (account: AccountId)
        ensures
            account@ == name@,
    {
        AccountId { name: String::from_str(name) }
    }

    /// The name of the account.
    pub fn as_str(&self) -> (name: &str)
        ensures
            name@ == self@,
    {
        self.name.as_str()
    }

    /// Whether the account goes by the given name.
    pub fn is_named(&self, name: &str) -> (b: bool)
        ensures
            b == (self@ == name@),
    {
        let other = String::from_str(name);
        self.name == other
    }
}

/// The name of the account that may be there.
pub open spec fn name_of(account: Option<AccountId>) -> Option<Seq<char>> {
    match account {
        Some(a) => Some(a@),
        None => None,
    }
}

impl Key for AccountId {
    fn same(&self, other: &Self) -> (b: bool) {
        self.name == other.name
    }

    fn duplicate(&self) -> (copy: Self) {
        AccountId { name: self.name.clone() }
    }
}

impl Clone for AccountId {
    fn clone(&self) -> (copy: Self)
        ensures
            copy@ == self@,
    {
        self.duplicate()
    }
}

impl Key for u64 {
    fn same(&self, other: &Self) -> (b: bool) {
        *self == *other
    }

    fn duplicate(&self) -> (copy: Self) {
        *self
    }
}

impl Key for (AccountId, AccountId) {
    fn same(&self, other: &Self) -> (b: bool) {
        self.0.same(&other.0) && self.1.same(&other.1)
    }

    fn duplicate(&self) -> (copy: Self) {
        (self.0.duplicate(), self.1.duplicate())
    }
}

} // verus!
