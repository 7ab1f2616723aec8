//! The engine written out as plain lists, and read back from them.

use vstd::prelude::*;
use crate::account::{name_of, AccountId, Key};
use crate::assoc::{distinct, lemma_pairs_map, pair_keys, pairs_map, AssocMap};
use crate::contract::{Contract, Unsettled};
use crate::model::State;
use crate::raffle::Raffle;
use crate::sale::Sale;
use crate::token::{valid_parameters, TokenParameters};

verus! {

/// All that an engine holds, as plain lists.
pub struct Snapshot {
    /// The owner of the collection.
    pub owner_id: AccountId,
    /// How many identifiers the pool was made with.
    pub size: u32,
    /// The identifiers that are still in the pool, by slot.
    pub pool: Vec<u64>,
    /// The terms of the sale.
    pub sale: Sale,
    /// What is left of each account's allowance.
    pub whitelist: Vec<(AccountId, u32)>,
    /// The admins.
    pub admins: Vec<(AccountId, ())>,
    /// The tokens that are accepted as payment, with their terms.
    pub tokens: Vec<(AccountId, TokenParameters)>,
    /// The prepaid balances, by token and account.
    pub deposits: Vec<((AccountId, AccountId), u128)>,
    /// The mint that waits to be paid for, if any.
    pub settling: Option<Unsettled>,
    /// The attempts in flight.
    pub attempts: Vec<(u64, ())>,
    /// The number the next attempt gets.
    pub next_attempt: u64,
}

impl Snapshot {
    /// The state that the lists stand for. What is not in the pool counts
    /// as issued, and every attempt in flight holds one promise.
    pub open spec fn state(&self) -> State {
        State {
            owner: self.owner_id@,
            size: self.size as nat,
            pool: self.pool@,
            issued: (self.size - self.pool@.len()) as nat,
            pending: self.attempts@.len(),
            sale: self.sale,
            allowances: pairs_map(self.whitelist@),
            admins: pairs_map(self.admins@).dom(),
            tokens: pairs_map(self.tokens@),
            deposits: pairs_map(self.deposits@),
            settling: match self.settling {
                Some(s) => Some(s@),
                None => None,
            },
            attempts: pairs_map(self.attempts@).dom(),
            next_attempt: self.next_attempt as nat,
        }
    }

    /// Whether the lists stand for a state of an engine: no list names a
    /// key twice, the pool is no larger than it was made, and the state
    /// keeps to what an engine keeps to.
    pub open spec fn valid(&self) -> bool {
        &&& distinct(self.whitelist@)
        &&& distinct(self.admins@)
        &&& distinct(self.tokens@)
        &&& distinct(self.deposits@)
        &&& distinct(self.attempts@)
        &&& self.pool@.len() <= self.size
        &&& self.state().inv()
    }
}

fn attempts_below(list: &Vec<(u64, ())>, next: u64) -> (b: bool)
    ensures
        b == forall|i: int| 0 <= i < list@.len() ==> (#[trigger] list@[i]).0 < next,
{
    let mut i: usize = 0;
    while i < list.len()
        invariant
            i <= list@.len(),
            forall|j: int| 0 <= j < i ==> (#[trigger] list@[j]).0 < next,
        decreases list@.len() - i,
    {
        if list[i].0 >= next {
            return false;
        }
        i = i + 1;
    }
    true
}

fn parameters_valid(list: &Vec<(AccountId, TokenParameters)>) -> (b: bool)
    ensures
        b == forall|i: int| 0 <= i < list@.len() ==> valid_parameters((#[trigger] list@[i]).1),
{
    let mut i: usize = 0;
    while i < list.len()
        invariant
            i <= list@.len(),
            forall|j: int| 0 <= j < i ==> valid_parameters((#[trigger] list@[j]).1),
        decreases list@.len() - i,
    {
        if !list[i].1.is_valid() {
            return false;
        }
        i = i + 1;
    }
    true
}

fn deposits_sound(
    list: &Vec<((AccountId, AccountId), u128)>,
    tokens: &AssocMap<AccountId, TokenParameters>,
) -> (b: bool)
    requires
        tokens.wf(),
    ensures
        b == forall|i: int|
            0 <= i < list@.len() ==> (#[trigger] list@[i]).1 > 0 && tokens@.contains_key(
                list@[i].0.0@,
            ),
{
    let mut i: usize = 0;
    while i < list.len()
        invariant
            i <= list@.len(),
            tokens.wf(),
            forall|j: int|
                0 <= j < i ==> (#[trigger] list@[j]).1 > 0 && tokens@.contains_key(list@[j].0.0@),
        decreases list@.len() - i,
    {
        if list[i].1 == 0 || !tokens.contains_key(&list[i].0.0) {
            return false;
        }
        i = i + 1;
    }
    true
}

impl Contract {
    /// All that the engine holds, as plain lists from which `restore` makes
    /// the same engine again.
    pub fn export(&self) -> (snapshot: Snapshot)
        requires
            self.wf(),
        ensures
            snapshot.valid(),
            snapshot.state() == self@,
    {
        let snapshot = Snapshot {
            owner_id: self.owner_id.duplicate(),
            size: self.raffle.initial_len() as u32,
            pool: self.raffle.ids(),
            sale: self.sale,
            whitelist: self.whitelist.to_pairs(),
            admins: self.admins.to_pairs(),
            tokens: self.fungible_tokens.to_pairs(),
            deposits: self.deposits.to_pairs(),
            settling: match &self.settling {
                Some(s) => Some(
                    Unsettled {
                        user: s.user.duplicate(),
                        token: match &s.token {
                            Some(t) => Some(t.duplicate()),
                            None => None,
                        },
                        num: s.num,
                        cost: s.cost,
                    },
                ),
                None => None,
            },
            attempts: self.attempts.to_pairs(),
            next_attempt: self.next_attempt,
        };
        proof {
            self.attempts.lemma_keys();
            assert(snapshot.state().settling == self@.settling);
            assert(snapshot.state() == self@);
        }
        snapshot
    }

    /// The engine that the lists stand for, or `None` where they stand for
    /// none.
    pub fn restore(snapshot: Snapshot) -> (r: Option<Contract>)
        ensures
            match r {
                Some(contract) => snapshot.valid() && contract.wf() && contract@
                    == snapshot.state(),
                None => !snapshot.valid(),
            },
    {
        proof {
            lemma_pairs_map(snapshot.whitelist@);
            lemma_pairs_map(snapshot.admins@);
            lemma_pairs_map(snapshot.tokens@);
            lemma_pairs_map(snapshot.deposits@);
            lemma_pairs_map(snapshot.attempts@);
        }
        let whitelist = match AssocMap::from_pairs(&snapshot.whitelist) {
            Some(table) => table,
            None => {
                return None;
            },
        };
        let admins = match AssocMap::from_pairs(&snapshot.admins) {
            Some(table) => table,
            None => {
                return None;
            },
        };
        let fungible_tokens = match AssocMap::from_pairs(&snapshot.tokens) {
            Some(table) => table,
            None => {
                return None;
            },
        };
        let deposits = match AssocMap::from_pairs(&snapshot.deposits) {
            Some(table) => table,
            None => {
                return None;
            },
        };
        let attempts = match AssocMap::from_pairs(&snapshot.attempts) {
            Some(table) => table,
            None => {
                return None;
            },
        };
        if !attempts_below(&snapshot.attempts, snapshot.next_attempt) {
            proof {
                let i = choose|i: int|
                    0 <= i < snapshot.attempts@.len() && !((#[trigger] snapshot.attempts@[i]).0
                        < snapshot.next_attempt);
                assert(pair_keys(snapshot.attempts@)[i] == snapshot.attempts@[i].0@);
                assert(pair_keys(snapshot.attempts@).contains(snapshot.attempts@[i].0@));
                assert(snapshot.state().attempts.contains(snapshot.attempts@[i].0@));
            }
            return None;
        }
        if !parameters_valid(&snapshot.tokens) {
            proof {
                let i = choose|i: int|
                    0 <= i < snapshot.tokens@.len() && !valid_parameters(
                        (#[trigger] snapshot.tokens@[i]).1,
                    );
                assert(snapshot.state().tokens.contains_key(snapshot.tokens@[i].0@));
            }
            return None;
        }
        if !deposits_sound(&snapshot.deposits, &fungible_tokens) {
            proof {
                let i = choose|i: int|
                    0 <= i < snapshot.deposits@.len() && !((#[trigger] snapshot.deposits@[i]).1 > 0
                        && fungible_tokens@.contains_key(snapshot.deposits@[i].0.0@));
                assert(snapshot.state().deposits.contains_key(snapshot.deposits@[i].0@));
            }
            return None;
        }
        match &snapshot.settling {
            Some(s) => match &s.token {
                Some(t) => {
                    if !fungible_tokens.contains_key(t) {
                        return None;
                    }
                },
                None => {},
            },
            None => {},
        }
        let pending = snapshot.attempts.len();
        if pending > snapshot.pool.len() {
            return None;
        }
        let size = snapshot.size;
        let held = snapshot.pool.len();
        let raffle = match Raffle::from_ids(snapshot.pool, size) {
            Some(raffle) => raffle,
            None => {
                return None;
            },
        };
        let contract = Contract {
            owner_id: snapshot.owner_id,
            raffle,
            pending_tokens: pending as u32,
            counter: size - held as u32,
            sale: snapshot.sale,
            whitelist,
            admins,
            fungible_tokens,
            deposits,
            settling: snapshot.settling,
            attempts,
            next_attempt: snapshot.next_attempt,
        };
        proof {
            assert(contract@.settling == snapshot.state().settling);
            assert(contract@ == snapshot.state());
            assert forall|a: u64| #[trigger]
                contract@.attempts.contains(a) implies a < contract@.next_attempt by {
                let i = choose|i: int|
                    0 <= i < snapshot.attempts@.len() && pair_keys(snapshot.attempts@)[i] == a;
                assert(snapshot.attempts@[i].0 < snapshot.next_attempt);
            }
            assert forall|t: Seq<char>| #[trigger]
                contract@.tokens.contains_key(t) implies valid_parameters(
                contract@.tokens[t],
            ) by {
                let i = choose|i: int|
                    0 <= i < snapshot.tokens@.len() && pair_keys(snapshot.tokens@)[i] == t;
                assert(valid_parameters(snapshot.tokens@[i].1));
                assert(snapshot.tokens@[i].0@ == t);
            }
            assert forall|k: (Seq<char>, Seq<char>)| #[trigger]
                contract@.deposits.contains_key(k) implies contract@.deposits[k] > 0
                && contract@.tokens.contains_key(k.0) by {
                let i = choose|i: int|
                    0 <= i < snapshot.deposits@.len() && pair_keys(snapshot.deposits@)[i] == k;
                assert(snapshot.deposits@[i].1 > 0);
                assert(snapshot.deposits@[i].0@ == k);
            }
        }
        Some(contract)
    }
}

} // verus!
