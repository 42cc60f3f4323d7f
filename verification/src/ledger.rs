//! Per-account staking records, the pool's error taxonomy, and the summation
//! of staked principal over a ledger of records.

use vstd::prelude::*;

verus! {

/// One account's stake: principal currently staked, reward accrued but not
/// yet claimed, and the timestamp of the last accrual.
#[derive(Clone, Copy, Debug, PartialEq, Eq, Structural)]
pub struct Staker {
    pub stake_amount: u128,
    pub reward_amount: u128,
    pub last_time: u64,
}

impl Default for Staker {
    /// An account that has never staked: all zeroes.
    fn default() -> (r: Staker)
        ensures
            r == (Staker { stake_amount: 0, reward_amount: 0, last_time: 0 }),
    {
        Staker { stake_amount: 0, reward_amount: 0, last_time: 0 }
    }
}

/// Why a pool operation was refused. No error mutates any state.
#[derive(Clone, Copy, Debug, PartialEq, Eq, Structural)]
pub enum Error {
    /// The depositor's token balance is below the requested amount.
    InsufficientTokenBalance,
    /// The withdrawer's recorded principal is below the requested amount.
    InsufficientStakedBalance,
    /// The pool's custodied token balance cannot honor the payout.
    InsufficientPoolTokenBalance,
    /// The token ledger reported failure for the transfer itself.
    TokenTransferError,
}

/// Total principal recorded in a ledger: the sum of `stake_amount` over all
/// records.
pub open spec fn sum_stakes(m: Map<u64, Staker>) -> int
    decreases m.dom().len(),
{
    if m.dom().finite() && m.dom().len() > 0 {
        let k = m.dom().choose();
        m[k].stake_amount + sum_stakes(m.remove(k))
    } else {
        0
    }
}

/// Any record's principal can be split off the total: the sum over a ledger
/// is that record's stake plus the sum over the ledger without it.
pub proof fn lemma_sum_stakes_remove(m: Map<u64, Staker>, k: u64)
    requires
        m.dom().finite(),
        m.dom().contains(k),
    ensures
        sum_stakes(m) == m[k].stake_amount + sum_stakes(m.remove(k)),
    decreases m.dom().len(),
{
    let k0 = m.dom().choose();
    if k0 == k {
    } else {
        lemma_sum_stakes_remove(m.remove(k0), k);
        lemma_sum_stakes_remove(m.remove(k), k0);
        assert(m.remove(k0).remove(k) =~= m.remove(k).remove(k0));
    }
}

/// The sum over a ledger of unsigned records is never negative.
pub proof fn lemma_sum_stakes_nonnegative(m: Map<u64, Staker>)
    requires
        m.dom().finite(),
    ensures
        sum_stakes(m) >= 0,
    decreases m.dom().len(),
{
    if m.dom().len() > 0 {
        lemma_sum_stakes_nonnegative(m.remove(m.dom().choose()));
    }
}

/// Updating one record moves the total by exactly the change to that record's
/// principal.
pub proof fn lemma_sum_stakes_insert(m: Map<u64, Staker>, k: u64, v: Staker)
    requires
        m.dom().finite(),
    ensures
        m.dom().contains(k) ==> sum_stakes(m.insert(k, v)) == sum_stakes(m)
            - m[k].stake_amount + v.stake_amount,
        !m.dom().contains(k) ==> sum_stakes(m.insert(k, v)) == sum_stakes(m)
            + v.stake_amount,
{
    lemma_sum_stakes_remove(m.insert(k, v), k);
    if m.dom().contains(k) {
        lemma_sum_stakes_remove(m, k);
        assert(m.insert(k, v).remove(k) =~= m.remove(k));
    } else {
        assert(m.insert(k, v).remove(k) =~= m);
    }
}

/// One record's principal never exceeds the total over its ledger.
pub proof fn lemma_stake_le_sum(m: Map<u64, Staker>, k: u64)
    requires
        m.dom().finite(),
        m.dom().contains(k),
    ensures
        m[k].stake_amount <= sum_stakes(m),
{
    lemma_sum_stakes_remove(m, k);
    lemma_sum_stakes_nonnegative(m.remove(k));
}

} // verus!
