//! What holds of the engine in every state and across its steps.

use vstd::prelude::*;
use crate::error::Error;
use crate::model::State;
use crate::sale::capped;

verus! {

/// Every unit is accounted for: those issued, those promised to attempts
/// in flight and those that can still be sold make up the collection.
pub proof fn lemma_conservation(s: State)
    requires
        s.inv(),
    ensures
        s.issued + s.pending + s.tokens_left() == s.size,
        s.issued + s.pool.len() == s.size,
        s.pending == s.attempts.len(),
{
}

/// The books hold no empty deposit: an account that has a deposit has a
/// balance above nothing.
pub proof fn lemma_no_empty_deposit(s: State, token: Seq<char>, who: Seq<char>)
    requires
        s.inv(),
    ensures
        s.deposits.contains_key((token, who)) ==> s.deposits[(token, who)] > 0,
        s.deposits.contains_key((token, who)) <==> s.balance_of(token, who) > 0,
{
    if s.deposits.contains_key((token, who)) {
        assert(s.deposits[(token, who)] > 0);
    }
}

/// A payment takes no more than the cost. Where the native unit pays,
/// the books stay as they are, and what is attached beyond the storage
/// and what is kept goes back, but for at most one unit. Where a token
/// pays, the balance of the payer is down by the cost exactly, every other
/// balance stays, and what is attached beyond the storage goes back, but
/// for at most one unit.
pub proof fn lemma_no_overcharge(s: State, attached: u128, storage_used: u64, byte_cost: u128)
    requires
        s.inv(),
    ensures
        s.charge(attached, storage_used, byte_cost) matches Ok((t, c)) ==> {
            let p = s.settling->0;
            let near_left = attached - byte_cost * storage_used;
            &&& s.settling is Some
            &&& c.cost == p.cost
            &&& c.royalties <= c.cost
            &&& c.refund <= near_left
            &&& match p.token {
                None => {
                    &&& t.deposits == s.deposits
                    &&& c.royalties + c.refund <= near_left
                    &&& near_left - c.royalties - c.refund <= 1
                },
                Some(token) => {
                    &&& t.balance_of(token, p.user) + c.cost == s.balance_of(token, p.user)
                    &&& near_left - c.refund <= 1
                    &&& forall|k: (Seq<char>, Seq<char>)|
                        k != (token, p.user) ==> t.balance_of(k.0, k.1) == s.balance_of(
                            k.0,
                            k.1,
                        )
                },
            }
        },
{
}

/// Where a cap applies, a mint takes what it grants off the allowance of
/// the account, which never falls below nothing: after a mint that handed
/// out `g` units the allowance is what counted before, less `g`.
pub proof fn lemma_allowance_decreases(
    s: State,
    who: Seq<char>,
    token: Option<Seq<char>>,
    num: u32,
    now: u64,
    seed: u64,
)
    requires
        s.inv(),
        capped(s.sale, s.status(now)),
        !s.is_owner(who),
    ensures
        s.mint(who, token, num, now, seed) matches Ok((t, ids)) ==> {
            &&& s.allowance_of(who) is Some
            &&& ids.len() <= s.allowance_of(who)->0
            &&& t.allowances.contains_key(who)
            &&& t.allowances[who] == s.allowance_of(who)->0 - ids.len()
        },
{
    if let Ok((t, ids)) = s.mint(who, token, num, now, seed) {
        let n = s.granted(who, num, now)->Ok_0;
        crate::raffle::lemma_draws_are_distinct(s.pool, crate::raffle::seeds(seed, n as nat));
    }
}

/// No more is handed out than can be sold: a mint hands out no more than
/// was asked for and no more than the pool holds beyond what is promised,
/// each identifier once and none that was handed out before, and every
/// promise still has its unit in the pool afterwards.
pub proof fn lemma_no_oversell(
    s: State,
    who: Seq<char>,
    token: Option<Seq<char>>,
    num: u32,
    now: u64,
    seed: u64,
)
    requires
        s.inv(),
    ensures
        s.mint(who, token, num, now, seed) matches Ok((t, ids)) ==> {
            &&& ids.len() <= num
            &&& ids.len() <= s.tokens_left()
            &&& ids.no_duplicates()
            &&& forall|i: int| 0 <= i < ids.len() ==> s.pool.contains(#[trigger] ids[i])
            &&& forall|i: int| 0 <= i < ids.len() ==> !t.pool.contains(#[trigger] ids[i])
            &&& t.issued == s.issued + ids.len()
            &&& t.pool.len() + ids.len() == s.pool.len()
            &&& t.pending == s.pending
            &&& t.pending <= t.pool.len()
        },
{
    if let Ok((t, ids)) = s.mint(who, token, num, now, seed) {
        let n = s.granted(who, num, now)->Ok_0;
        crate::raffle::lemma_draws_are_distinct(s.pool, crate::raffle::seeds(seed, n as nat));
        assert forall|i: int| 0 <= i < ids.len() implies s.pool.contains(#[trigger] ids[i])
            && !t.pool.contains(ids[i]) by {
            assert(ids.contains(ids[i]));
        }
    }
}

/// The owner is held back by the supply alone: whatever the phase and the
/// allowances, the owner is granted what was asked for as far as the
/// supply goes, pays nothing, and leaves the allowances as they are.
pub proof fn lemma_owner_bypasses_the_gate(
    s: State,
    who: Seq<char>,
    token: Option<Seq<char>>,
    num: u32,
    now: u64,
    seed: u64,
)
    requires
        s.inv(),
        s.is_owner(who),
    ensures
        s.granted(who, num, now) == if num > 0 && s.tokens_left() == 0 {
            Err::<u32, Error>(Error::Exhausted)
        } else if num <= s.tokens_left() {
            Ok::<u32, Error>(num)
        } else {
            Ok::<u32, Error>(s.tokens_left() as u32)
        },
        s.mint(who, token, num, now, seed) matches Ok((t, _)) ==> t.allowances == s.allowances
            && t.settling is Some && t.settling->0.cost == 0,
{
    if let Ok((t, ids)) = s.mint(who, token, num, now, seed) {
        let n = s.granted(who, num, now)->Ok_0;
        if let Some(tk) = token {
            let rate = s.tokens[tk].token_near as int;
            let share = s.tokens[tk].token_boost as int;
            assert(crate::token::valid_parameters(s.tokens[tk]));
            assert(0int * 1000 / rate == 0) by (nonlinear_arith)
                requires
                    rate > 0,
            ;
            assert(0int / 100 * share == 0) by (nonlinear_arith);
            assert(crate::token::cost_in_token(0, s.tokens[tk]) == 0);
        }
    }
}

/// An attempt holds one promise from its start to its end: once it is
/// resolved, whether its unit was handed out or not, as many units are
/// promised as before it began, and the same attempts are in flight.
pub proof fn lemma_pending_returns(s: State, who: Seq<char>, now: u64)
    requires
        s.inv(),
    ensures
        s.reserve(who, now) matches Ok((t, attempt)) ==> {
            &&& !s.attempts.contains(attempt)
            &&& t.attempts.contains(attempt)
            &&& t.pending == s.pending + 1
            &&& t.resolved(attempt).pending == s.pending
            &&& t.resolved(attempt).attempts == s.attempts
        },
{
    if let Ok((t, attempt)) = s.reserve(who, now) {
        assert(t.resolved(attempt).attempts =~= s.attempts);
    }
}

/// An attempt ends once. A callback for an attempt in flight that ends it
/// takes back its one promise; every callback for it after that is turned
/// down as a repetition, whatever it brings.
pub proof fn lemma_resolved_once(
    s: State,
    attempt: u64,
    succeeded: bool,
    who: Seq<char>,
    free: bool,
    now: u64,
    seed: u64,
    attached: u128,
)
    requires
        s.inv(),
        s.attempts.contains(attempt),
    ensures
        s.resolved(attempt).pending + 1 == s.pending,
        !s.resolved(attempt).attempts.contains(attempt),
        s.resolved(attempt).send_callback(attempt, succeeded, attached) == Err::<
            (State, u128),
            Error,
        >(Error::DuplicateCallback),
        s.resolved(attempt).link(attempt, succeeded, who, free, now, seed, attached) == Err::<
            (State, crate::model::Resolution),
            Error,
        >(Error::DuplicateCallback),
        s.link(attempt, succeeded, who, free, now, seed, attached) matches Ok((t, _)) ==> t.pending
            + 1 == s.pending && t.stray(attempt) == Some(Error::DuplicateCallback),
        s.send_callback(attempt, false, attached) matches Ok((t, refund)) && t.pending + 1
            == s.pending && refund == attached && t.stray(attempt) == Some(
            Error::DuplicateCallback,
        ),
{
}

/// A callback for an attempt whose number was never given out is turned
/// down as unexpected, and changes nothing.
pub proof fn lemma_unexpected_callback(s: State, attempt: u64, succeeded: bool, attached: u128)
    requires
        s.inv(),
        attempt >= s.next_attempt,
    ensures
        s.send_callback(attempt, succeeded, attached) == Err::<(State, u128), Error>(
            Error::UnexpectedCallback,
        ),
{
}

/// A mint and its payment keep what the engine keeps to.
pub proof fn lemma_mint_keeps_invariant(
    s: State,
    who: Seq<char>,
    token: Option<Seq<char>>,
    num: u32,
    now: u64,
    seed: u64,
    attached: u128,
    storage_used: u64,
    byte_cost: u128,
)
    requires
        s.inv(),
    ensures
        s.mint(who, token, num, now, seed) matches Ok((t, _)) ==> t.inv(),
        s.charge(attached, storage_used, byte_cost) matches Ok((t, _)) ==> t.inv(),
{
    if let Ok((t, ids)) = s.mint(who, token, num, now, seed) {
        let n = s.granted(who, num, now)->Ok_0;
        let entropy = crate::raffle::seeds(seed, n as nat);
        crate::raffle::lemma_draws_are_distinct(s.pool, entropy);
        assert forall|i: int| 0 <= i < t.pool.len() implies (#[trigger] t.pool[i]) < t.size by {
            assert(t.pool.contains(t.pool[i]));
            assert(s.pool.contains(t.pool[i]));
        }
    }
}

/// Deposits, withdrawals and changes of the terms of payment keep what
/// the engine keeps to.
pub proof fn lemma_books_keep_invariant(
    s: State,
    signer: Seq<char>,
    token: Seq<char>,
    who: Seq<char>,
    amount: u128,
    part: Option<u128>,
    token_near: u32,
    discount: u32,
    decimals: u8,
)
    requires
        s.inv(),
    ensures
        s.deposit(token, who, amount) matches Ok(t) ==> t.inv(),
        s.withdraw(token, who, part) matches Ok((t, _)) ==> t.inv(),
        s.whitelist_token(signer, token, token_near, discount, decimals) matches Ok(t) ==> t.inv(),
        s.set_token_near(signer, token, token_near) matches Ok(t) ==> t.inv(),
        s.set_token_discount(signer, token, discount) matches Ok(t) ==> t.inv(),
{
    if let Ok(t) = s.deposit(token, who, amount) {
        crate::token::lemma_pow10_monotonic(0, s.tokens[token].decimals as nat);
    }
}

/// The start of an attempt and its callbacks keep what the engine keeps
/// to.
pub proof fn lemma_attempts_keep_invariant(
    s: State,
    attempt: u64,
    succeeded: bool,
    who: Seq<char>,
    free: bool,
    now: u64,
    seed: u64,
    attached: u128,
)
    requires
        s.inv(),
    ensures
        s.reserve(who, now) matches Ok((t, _)) ==> t.inv(),
        s.send_callback(attempt, succeeded, attached) matches Ok((t, _)) ==> t.inv(),
        s.link(attempt, succeeded, who, free, now, seed, attached) matches Ok((t, _)) ==> t.inv(),
{
    if let Ok((t, r)) = s.link(attempt, succeeded, who, free, now, seed, attached) {
        if succeeded {
            let entropy = crate::raffle::seeds(seed, 1);
            crate::raffle::lemma_draws_are_distinct(s.pool, entropy);
            assert forall|i: int| 0 <= i < t.pool.len() implies (#[trigger] t.pool[i])
                < t.size by {
                assert(t.pool.contains(t.pool[i]));
                assert(s.pool.contains(t.pool[i]));
            }
        }
    }
}

} // verus!