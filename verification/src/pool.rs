//! The staking pool controller: holds the ledger and the pool-wide
//! aggregates, and applies deposits, withdrawals and reward claims.
//!
//! The pool never performs a token transfer itself. Each mutating operation
//! takes the values the embedding observed from the token ledger — the
//! relevant balance and the outcome of the one transfer the operation
//! needs — and commits, or leaves every field untouched, accordingly.

use std::collections::HashMap;

use crate::accrual::accrued_reward;
use crate::accrual::lemma_accrual_zero;
use crate::accrual::spec_accrued_reward;
use crate::ledger::Error;
use crate::ledger::Staker;
use crate::ledger::lemma_stake_le_sum;
use crate::ledger::lemma_sum_stakes_insert;
use crate::ledger::sum_stakes;
use vstd::prelude::*;

verus! {

broadcast use vstd::std_specs::hash::group_hash_axioms;

/// A successful deposit, for off-pool observers.
#[derive(Clone, Copy, Debug, PartialEq, Eq, Structural)]
pub struct StakeToken {
    pub staker: u64,
    pub amount: u128,
}

/// A successful withdrawal, for off-pool observers.
#[derive(Clone, Copy, Debug, PartialEq, Eq, Structural)]
pub struct UnstakeToken {
    pub staker: u64,
    pub amount: u128,
}

/// A successful reward claim, for off-pool observers.
#[derive(Clone, Copy, Debug, PartialEq, Eq, Structural)]
pub struct ClaimRewards {
    pub staker: u64,
    pub amount: u128,
}

/// The staking pool: the identity of the staking token's ledger, the fixed
/// yearly rate, the aggregates, and one record per account that ever staked.
pub struct Staking {
    pub staking_token: u64,
    pub apy: u32,
    pub total_reward_amount: u128,
    pub total_stake_amount: u128,
    pub staker_data: HashMap<u64, Staker>,
}

impl Staking {
    /// The record for `staker`: the stored one, or all zeroes for an account
    /// that never staked (or fully left).
    pub open spec fn spec_record_of(&self, staker: u64) -> Staker {
        if self.staker_data@.contains_key(staker) {
            self.staker_data@[staker]
        } else {
            Staker { stake_amount: 0, reward_amount: 0, last_time: 0 }
        }
    }

    /// Conservation: the recorded aggregate equals the sum of all principals.
    pub open spec fn wf(&self) -> bool {
        &&& self.staker_data@.dom().finite()
        &&& self.total_stake_amount == sum_stakes(self.staker_data@)
    }

    /// Both pools hold exactly the same state, field for field and record
    /// for record.
    pub open spec fn unchanged(pre: &Staking, post: &Staking) -> bool {
        &&& post.staking_token == pre.staking_token
        &&& post.apy == pre.apy
        &&& post.total_reward_amount == pre.total_reward_amount
        &&& post.total_stake_amount == pre.total_stake_amount
        &&& post.staker_data@ == pre.staker_data@
    }

    /// The reward newly accrued for `staker`'s record up to `now`.
    pub open spec fn spec_new_reward(&self, staker: u64, now: u64) -> int {
        spec_accrued_reward(
            self.spec_record_of(staker).stake_amount,
            self.spec_record_of(staker).last_time,
            now,
            self.apy,
        )
    }

    /// Everything a claim at `now` pays out: the stored reward plus the
    /// newly accrued one.
    pub open spec fn spec_claim_total(&self, staker: u64, now: u64) -> int {
        self.spec_record_of(staker).reward_amount + self.spec_new_reward(staker, now)
    }

    /// The accrual for `staker` at `now` stays within 128-bit arithmetic:
    /// time has not run backwards for the record, and neither intermediate
    /// product of the reward computation overflows.
    pub open spec fn accrual_fits(&self, staker: u64, now: u64) -> bool {
        let rec = self.spec_record_of(staker);
        &&& rec.last_time <= now
        &&& rec.stake_amount * (now - rec.last_time) <= u128::MAX
        &&& rec.stake_amount * (now - rec.last_time) * self.apy <= u128::MAX
    }

    /// How a successful deposit of `amount` by `staker` at `now` rewrites
    /// the pool: the record folds in the accrued reward and grows by
    /// `amount`, the aggregate grows by `amount`, everything else stays.
    pub open spec fn stake_committed(
        pre: &Staking,
        post: &Staking,
        staker: u64,
        now: u64,
        amount: u128,
    ) -> bool {
        let rec = pre.spec_record_of(staker);
        let acc = pre.spec_new_reward(staker, now);
        &&& rec.last_time <= now
        &&& 0 <= acc
        &&& rec.stake_amount + amount <= u128::MAX
        &&& rec.reward_amount + acc <= u128::MAX
        &&& pre.total_stake_amount + amount <= u128::MAX
        &&& post.staker_data@ == pre.staker_data@.insert(
            staker,
            (Staker {
                stake_amount: (rec.stake_amount + amount) as u128,
                reward_amount: (rec.reward_amount + acc) as u128,
                last_time: now,
            }),
        )
        &&& post.total_stake_amount == pre.total_stake_amount + amount
        &&& post.total_reward_amount == pre.total_reward_amount
        &&& post.apy == pre.apy
        &&& post.staking_token == pre.staking_token
    }

    /// How a successful withdrawal of `amount` by `staker` at `now` rewrites
    /// the pool: the record folds in the accrued reward and shrinks by
    /// `amount`, the aggregate shrinks by `amount`, everything else stays.
    pub open spec fn unstake_committed(
        pre: &Staking,
        post: &Staking,
        staker: u64,
        now: u64,
        amount: u128,
    ) -> bool {
        let rec = pre.spec_record_of(staker);
        let acc = pre.spec_new_reward(staker, now);
        &&& rec.last_time <= now
        &&& 0 <= acc
        &&& amount <= rec.stake_amount
        &&& rec.reward_amount + acc <= u128::MAX
        &&& post.staker_data@ == pre.staker_data@.insert(
            staker,
            (Staker {
                stake_amount: (rec.stake_amount - amount) as u128,
                reward_amount: (rec.reward_amount + acc) as u128,
                last_time: now,
            }),
        )
        &&& post.total_stake_amount == pre.total_stake_amount - amount
        &&& post.total_reward_amount == pre.total_reward_amount
        &&& post.apy == pre.apy
        &&& post.staking_token == pre.staking_token
    }

    /// How a successful claim by `staker` at `now` rewrites the pool: the
    /// record keeps its principal but drops to zero stored reward, and the
    /// lifetime payout counter grows by everything the claim paid.
    pub open spec fn claim_committed(pre: &Staking, post: &Staking, staker: u64, now: u64) -> bool {
        let rec = pre.spec_record_of(staker);
        let total = pre.spec_claim_total(staker, now);
        &&& rec.last_time <= now
        &&& 0 <= total
        &&& total <= u128::MAX
        &&& pre.total_reward_amount + total <= u128::MAX
        &&& post.staker_data@ == pre.staker_data@.insert(
            staker,
            (Staker { stake_amount: rec.stake_amount, reward_amount: 0, last_time: now }),
        )
        &&& post.total_stake_amount == pre.total_stake_amount
        &&& post.total_reward_amount == pre.total_reward_amount + total
        &&& post.apy == pre.apy
        &&& post.staking_token == pre.staking_token
    }

    /// Creates a pool over the given token ledger at the given fixed rate,
    /// with no stakes and no rewards paid.
    pub fn new(staking_token: u64, apy: u32) -> (s: Staking)
        ensures
            s.wf(),
            s.staking_token == staking_token,
            s.apy == apy,
            s.total_stake_amount == 0,
            s.total_reward_amount == 0,
            s.staker_data@ == Map::<u64, Staker>::empty(),
    {
        let s = Staking {
            staking_token,
            apy,
            total_reward_amount: 0,
            total_stake_amount: 0,
            staker_data: HashMap::new(),
        };
        proof {
            assert(s.staker_data@.dom() =~= Set::<u64>::empty());
        }
        s
    }

    /// The record for `staker`, zero-valued if the account never staked.
    pub fn staker_data_of(&self, staker: u64) -> (r: Staker)
        ensures
            r == self.spec_record_of(staker),
    {
        match self.staker_data.get(&staker) {
            Some(rec) => *rec,
            None => Staker { stake_amount: 0, reward_amount: 0, last_time: 0 },
        }
    }

    /// The fixed yearly rate, scaled by `APY_DENOMINATOR`.
    pub fn apy(&self) -> (r: u32)
        ensures
            r == self.apy,
    {
        self.apy
    }

    /// Principal currently staked across all accounts.
    pub fn total_stake_amount(&self) -> (r: u128)
        ensures
            r == self.total_stake_amount,
    {
        self.total_stake_amount
    }

    /// Rewards ever paid out, over the pool's whole life.
    pub fn total_reward_amount(&self) -> (r: u128)
        ensures
            r == self.total_reward_amount,
    {
        self.total_reward_amount
    }

    /// Decides a deposit before any token moves: refuses it exactly when
    /// the depositor's token balance is below `amount`. Only on `Ok` does
    /// the embedding perform the transfer and hand its outcome to
    /// [`Self::stake_token`].
    pub fn stake_token_check(&self, staker_token_balance: u128, amount: u128) -> (r: Result<
        (),
        Error,
    >)
        ensures
            r == if staker_token_balance < amount {
                Err::<(), Error>(Error::InsufficientTokenBalance)
            } else {
                Ok::<(), Error>(())
            },
    {
        if staker_token_balance < amount {
            Err(Error::InsufficientTokenBalance)
        } else {
            Ok(())
        }
    }

    /// Deposits `amount` for `staker` at time `now`.
    ///
    /// `staker_token_balance` is the depositor's balance on the token
    /// ledger and `transfer_from_ok` the outcome of the one transfer-from
    /// that pulls `amount` into the pool; the embedding performs that
    /// transfer only after [`Self::stake_token_check`] accepts. On any
    /// failure the pool is untouched.
    pub fn stake_token(
        &mut self,
        staker: u64,
        now: u64,
        staker_token_balance: u128,
        transfer_from_ok: bool,
        amount: u128,
    ) -> (r: Result<(), Error>)
        requires
            old(self).wf(),
            staker_token_balance >= amount ==> old(self).accrual_fits(staker, now),
            staker_token_balance >= amount && transfer_from_ok ==> {
                &&& old(self).spec_record_of(staker).stake_amount + amount <= u128::MAX
                &&& old(self).spec_record_of(staker).reward_amount + old(self).spec_new_reward(
                    staker,
                    now,
                ) <= u128::MAX
                &&& old(self).total_stake_amount + amount <= u128::MAX
            },
        ensures
            final(self).wf(),
            staker_token_balance < amount ==> r == Err::<(), Error>(
                Error::InsufficientTokenBalance,
            ) && Staking::unchanged(old(self), final(self)),
            staker_token_balance >= amount && !transfer_from_ok ==> r == Err::<(), Error>(
                Error::TokenTransferError,
            ) && Staking::unchanged(old(self), final(self)),
            staker_token_balance >= amount && transfer_from_ok ==> r == Ok::<(), Error>(())
                && Staking::stake_committed(old(self), final(self), staker, now, amount),
    {
        let staker_data = self.staker_data_of(staker);
        if staker_token_balance < amount {
            return Err(Error::InsufficientTokenBalance);
        }
        let new_reward = accrued_reward(
            staker_data.stake_amount,
            staker_data.last_time,
            now,
            self.apy,
        );
        if !transfer_from_ok {
            return Err(Error::TokenTransferError);
        }
        let updated = Staker {
            stake_amount: staker_data.stake_amount + amount,
            reward_amount: staker_data.reward_amount + new_reward,
            last_time: now,
        };
        proof {
            lemma_sum_stakes_insert(self.staker_data@, staker, updated);
        }
        self.staker_data.insert(staker, updated);
        self.total_stake_amount = self.total_stake_amount + amount;
        Ok(())
    }

    /// Decides a withdrawal before any token moves: refuses it exactly when
    /// the recorded principal, or the pool's custodied balance
    /// `pool_token_balance`, is below `amount`. Only on `Ok` does the
    /// embedding perform the transfer and hand its outcome to
    /// [`Self::unstake_token`].
    pub fn unstake_token_check(&self, staker: u64, pool_token_balance: u128, amount: u128) -> (r:
        Result<(), Error>)
        ensures
            r == if self.spec_record_of(staker).stake_amount < amount {
                Err::<(), Error>(Error::InsufficientStakedBalance)
            } else if pool_token_balance < amount {
                Err::<(), Error>(Error::InsufficientPoolTokenBalance)
            } else {
                Ok::<(), Error>(())
            },
    {
        let staker_data = self.staker_data_of(staker);
        if staker_data.stake_amount < amount {
            Err(Error::InsufficientStakedBalance)
        } else if pool_token_balance < amount {
            Err(Error::InsufficientPoolTokenBalance)
        } else {
            Ok(())
        }
    }

    /// Withdraws `amount` of principal for `staker` at time `now`.
    ///
    /// `pool_token_balance` is the pool's own balance on the token ledger
    /// and `transfer_ok` the outcome of the one transfer that pays `amount`
    /// back to the staker; the embedding performs that transfer only after
    /// [`Self::unstake_token_check`] accepts. On any failure the pool is
    /// untouched.
    pub fn unstake_token(
        &mut self,
        staker: u64,
        now: u64,
        pool_token_balance: u128,
        transfer_ok: bool,
        amount: u128,
    ) -> (r: Result<(), Error>)
        requires
            old(self).wf(),
            old(self).spec_record_of(staker).stake_amount >= amount && pool_token_balance >= amount
                ==> old(self).accrual_fits(staker, now),
            old(self).spec_record_of(staker).stake_amount >= amount && pool_token_balance >= amount
                && transfer_ok ==> old(self).spec_record_of(staker).reward_amount + old(
                self,
            ).spec_new_reward(staker, now) <= u128::MAX,
        ensures
            final(self).wf(),
            old(self).spec_record_of(staker).stake_amount < amount ==> r == Err::<(), Error>(
                Error::InsufficientStakedBalance,
            ) && Staking::unchanged(old(self), final(self)),
            old(self).spec_record_of(staker).stake_amount >= amount && pool_token_balance < amount
                ==> r == Err::<(), Error>(Error::InsufficientPoolTokenBalance)
                && Staking::unchanged(old(self), final(self)),
            old(self).spec_record_of(staker).stake_amount >= amount && pool_token_balance >= amount
                && !transfer_ok ==> r == Err::<(), Error>(Error::TokenTransferError)
                && Staking::unchanged(old(self), final(self)),
            old(self).spec_record_of(staker).stake_amount >= amount && pool_token_balance >= amount
                && transfer_ok ==> r == Ok::<(), Error>(()) && Staking::unstake_committed(
                old(self),
                final(self),
                staker,
                now,
                amount,
            ),
    {
        let staker_data = self.staker_data_of(staker);
        if staker_data.stake_amount < amount {
            return Err(Error::InsufficientStakedBalance);
        }
        if pool_token_balance < amount {
            return Err(Error::InsufficientPoolTokenBalance);
        }
        let new_reward = accrued_reward(
            staker_data.stake_amount,
            staker_data.last_time,
            now,
            self.apy,
        );
        if !transfer_ok {
            return Err(Error::TokenTransferError);
        }
        proof {
            if self.staker_data@.contains_key(staker) {
                lemma_stake_le_sum(self.staker_data@, staker);
            }
        }
        let updated = Staker {
            stake_amount: staker_data.stake_amount - amount,
            reward_amount: staker_data.reward_amount + new_reward,
            last_time: now,
        };
        proof {
            lemma_sum_stakes_insert(self.staker_data@, staker, updated);
        }
        self.staker_data.insert(staker, updated);
        self.total_stake_amount = self.total_stake_amount - amount;
        Ok(())
    }

    /// Decides a claim before any token moves, and names its amount: pays
    /// the full stored-plus-accrued reward, refused exactly when the pool's
    /// custodied balance `pool_token_balance` cannot cover it. Only on `Ok`
    /// does the embedding transfer the returned amount and hand the outcome
    /// to [`Self::claim_rewards`].
    pub fn claim_rewards_check(&self, staker: u64, now: u64, pool_token_balance: u128) -> (r:
        Result<u128, Error>)
        requires
            self.accrual_fits(staker, now),
            self.spec_claim_total(staker, now) <= u128::MAX,
        ensures
            r == if pool_token_balance < self.spec_claim_total(staker, now) {
                Err::<u128, Error>(Error::InsufficientPoolTokenBalance)
            } else {
                Ok::<u128, Error>(self.spec_claim_total(staker, now) as u128)
            },
    {
        let staker_data = self.staker_data_of(staker);
        let new_reward = accrued_reward(
            staker_data.stake_amount,
            staker_data.last_time,
            now,
            self.apy,
        );
        let reward_amount_total = staker_data.reward_amount + new_reward;
        if pool_token_balance < reward_amount_total {
            Err(Error::InsufficientPoolTokenBalance)
        } else {
            Ok(reward_amount_total)
        }
    }

    /// Pays out the full stored-plus-accrued reward for `staker` at `now`.
    ///
    /// `pool_token_balance` is the pool's own balance on the token ledger
    /// and `transfer_ok` the outcome of the one transfer that pays the
    /// reward out; the embedding performs that transfer only after
    /// [`Self::claim_rewards_check`] accepts. On any failure the pool is
    /// untouched.
    pub fn claim_rewards(
        &mut self,
        staker: u64,
        now: u64,
        pool_token_balance: u128,
        transfer_ok: bool,
    ) -> (r: Result<(), Error>)
        requires
            old(self).wf(),
            old(self).accrual_fits(staker, now),
            old(self).spec_claim_total(staker, now) <= u128::MAX,
            pool_token_balance >= old(self).spec_claim_total(staker, now) && transfer_ok ==> old(
                self,
            ).total_reward_amount + old(self).spec_claim_total(staker, now) <= u128::MAX,
        ensures
            final(self).wf(),
            pool_token_balance < old(self).spec_claim_total(staker, now) ==> r == Err::<(), Error>(
                Error::InsufficientPoolTokenBalance,
            ) && Staking::unchanged(old(self), final(self)),
            pool_token_balance >= old(self).spec_claim_total(staker, now) && !transfer_ok ==> r
                == Err::<(), Error>(Error::TokenTransferError) && Staking::unchanged(
                old(self),
                final(self),
            ),
            pool_token_balance >= old(self).spec_claim_total(staker, now) && transfer_ok ==> r
                == Ok::<(), Error>(()) && Staking::claim_committed(
                old(self),
                final(self),
                staker,
                now,
            ),
    {
        let staker_data = self.staker_data_of(staker);
        let new_reward = accrued_reward(
            staker_data.stake_amount,
            staker_data.last_time,
            now,
            self.apy,
        );
        let reward_amount_total = staker_data.reward_amount + new_reward;
        if pool_token_balance < reward_amount_total {
            return Err(Error::InsufficientPoolTokenBalance);
        }
        if !transfer_ok {
            return Err(Error::TokenTransferError);
        }
        let updated = Staker {
            stake_amount: staker_data.stake_amount,
            reward_amount: 0,
            last_time: now,
        };
        proof {
            lemma_sum_stakes_insert(self.staker_data@, staker, updated);
        }
        self.staker_data.insert(staker, updated);
        self.total_reward_amount = self.total_reward_amount + reward_amount_total;
        Ok(())
    }
}

/// Claiming twice in immediate succession pays nothing the second time: a
/// successful claim leaves the record with no stored reward and with
/// `last_time` at the claim's own instant, and such a record has nothing
/// more to pay at that same instant.
pub proof fn lemma_no_double_accrual(pre: Staking, post: Staking, staker: u64, now: u64)
    requires
        Staking::claim_committed(&pre, &post, staker, now),
    ensures
        post.spec_claim_total(staker, now) == 0,
{
    lemma_accrual_zero(post.spec_record_of(staker).stake_amount, now, now, post.apy);
}

/// Depositing an amount and withdrawing it again within the same instant
/// returns both the account's principal and the pool-wide total to their
/// values before the deposit.
pub proof fn lemma_stake_unstake_round_trip(
    pre: Staking,
    mid: Staking,
    post: Staking,
    staker: u64,
    now: u64,
    amount: u128,
)
    requires
        Staking::stake_committed(&pre, &mid, staker, now, amount),
        Staking::unstake_committed(&mid, &post, staker, now, amount),
    ensures
        post.spec_record_of(staker).stake_amount == pre.spec_record_of(staker).stake_amount,
        post.total_stake_amount == pre.total_stake_amount,
{
    lemma_accrual_zero(mid.spec_record_of(staker).stake_amount, now, now, mid.apy);
}

} // verus!
