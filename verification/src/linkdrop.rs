//! Units that an outside operation delivers later: the promise, and the
//! callbacks that keep it or take it back.

use vstd::prelude::*;
use crate::account::AccountId;
use crate::contract::Contract;
use crate::error::Error;
use crate::model::{Resolution, State};

verus! {

impl Contract {
    /// Promises one unit to an attempt of the signer that an outside
    /// operation will carry on, and says the number of the attempt. No unit
    /// is drawn yet.
    pub fn send_with_callback(&mut self, signer: &AccountId, now: u64) -> (r: Result<u64, Error>)
        requires
            old(self).wf(),
        ensures
            final(self).wf(),
            match r {
                Ok(attempt) => old(self)@.reserve(signer@, now) == Ok::<(State, u64), Error>(
                    (final(self)@, attempt),
                ),
                Err(e) => old(self)@.reserve(signer@, now) == Err::<(State, u64), Error>(e)
                    && final(self)@ == old(self)@,
            },
    {
        match self.assert_can_mint(signer, 1, now) {
            Ok(_) => {},
            Err(e) => {
                return Err(e);
            },
        }
        if self.next_attempt == u64::MAX {
            return Err(Error::Overflow);
        }
        let attempt = self.next_attempt;
        proof {
            assert(self@.granted(signer@, 1, now) != Ok::<u32, Error>(0));
            assert(!self@.attempts.contains(attempt));
        }
        self.attempts.insert(attempt, ());
        self.pending_tokens = self.pending_tokens + 1;
        self.next_attempt = self.next_attempt + 1;
        assert(self@.attempts =~= old(self)@.attempts.insert(attempt));
        Ok(attempt)
    }

    fn check_callback(&self, attempt: u64) -> (r: Result<(), Error>)
        requires
            self.wf(),
        ensures
            r == match self@.stray(attempt) {
                Some(e) => Err::<(), Error>(e),
                None => Ok::<(), Error>(()),
            },
            r is Ok ==> self@.pending >= 1,
    {
        if self.attempts.contains_key(&attempt) {
            Ok(())
        } else if attempt < self.next_attempt {
            Err(Error::DuplicateCallback)
        } else {
            Err(Error::UnexpectedCallback)
        }
    }

    fn resolve(&mut self, attempt: u64)
        requires
            old(self).wf(),
            old(self)@.attempts.contains(attempt),
        ensures
            final(self).raffle.wf(),
            final(self).whitelist.wf(),
            final(self).admins.wf(),
            final(self).fungible_tokens.wf(),
            final(self).deposits.wf(),
            final(self).attempts.wf(),
            final(self)@ == old(self)@.resolved(attempt),
            old(self)@.pending >= 1,
            final(self)@.attempts.finite(),
            final(self)@.attempts.len() == final(self)@.pending,
    {
        self.attempts.remove(&attempt);
        self.pending_tokens = self.pending_tokens - 1;
        assert(self@.attempts =~= old(self)@.attempts.remove(attempt));
    }

    /// The callback of the outside operation of an attempt, with
    /// `attached_deposit` native units at hand: where the operation failed,
    /// the attempt is over, its promise is taken back, and all that is
    /// attached goes back to the payer. It says what goes back. A callback
    /// for an attempt that is not in flight changes nothing.
    pub fn on_send_with_callback(&mut self, attempt: u64, promise_succeeded: bool, attached_deposit: u128)
        -> (r: Result<u128, Error>)
        requires
            old(self).wf(),
        ensures
            final(self).wf(),
            match r {
                Ok(refund) => old(self)@.send_callback(attempt, promise_succeeded, attached_deposit)
                    == Ok::<(State, u128), Error>((final(self)@, refund)),
                Err(e) => old(self)@.send_callback(attempt, promise_succeeded, attached_deposit)
                    == Err::<(State, u128), Error>(e) && final(self)@ == old(self)@,
            },
    {
        match self.check_callback(attempt) {
            Ok(_) => {},
            Err(e) => {
                return Err(e);
            },
        }
        if promise_succeeded {
            return Ok(0);
        }
        self.resolve(attempt);
        Ok(attached_deposit)
    }

    /// The callback that delivers the unit of an attempt to the account at
    /// time `now`: where the operation before it succeeded, one unit is
    /// drawn by the seed and handed out, and unless it is free the mint
    /// waits to be paid for; where it failed, the attempt is over and all
    /// that is attached goes back. A callback that is turned down changes
    /// nothing.
    pub fn link_callback(
        &mut self,
        attempt: u64,
        promise_succeeded: bool,
        account_id: &AccountId,
        mint_for_free: bool,
        now: u64,
        seed: u64,
        attached_deposit: u128,
    ) -> (r: Result<Resolution, Error>)
        requires
            old(self).wf(),
        ensures
            final(self).wf(),
            match r {
                Ok(resolution) => old(self)@.link(
                    attempt,
                    promise_succeeded,
                    account_id@,
                    mint_for_free,
                    now,
                    seed,
                    attached_deposit,
                ) == Ok::<(State, Resolution), Error>((final(self)@, resolution)),
                Err(e) => old(self)@.link(
                    attempt,
                    promise_succeeded,
                    account_id@,
                    mint_for_free,
                    now,
                    seed,
                    attached_deposit,
                ) == Err::<(State, Resolution), Error>(e) && final(self)@ == old(self)@,
            },
    {
        match self.check_callback(attempt) {
            Ok(_) => {},
            Err(e) => {
                return Err(e);
            },
        }
        if !promise_succeeded {
            self.resolve(attempt);
            return Ok(Resolution::Compensated { refund: attached_deposit });
        }
        let cost = if mint_for_free {
            0
        } else {
            if self.settling.is_some() {
                return Err(Error::Unsettled);
            }
            match self.total_cost(1, account_id, &None, now) {
                Ok(cost) => cost,
                Err(e) => {
                    return Err(e);
                },
            }
        };
        self.resolve(attempt);
        let ghost settling = self@.settling;
        let ids = if mint_for_free {
            let kept = self.settling.take();
            let ids = self.nft_mint_many_ungaurded(1, account_id, true, None, cost, seed);
            self.settling = kept;
            ids
        } else {
            self.nft_mint_many_ungaurded(1, account_id, false, None, cost, seed)
        };
        Ok(Resolution::Completed { token_id: ids[0] })
    }
}

} // verus!
