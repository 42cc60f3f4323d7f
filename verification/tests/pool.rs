use staking::ClaimRewards;
use staking::Error;
use staking::StakeToken;
use staking::Staker;
use staking::Staking;
use staking::UnstakeToken;
use staking::SECONDOFYEAR;

const ALICE: u64 = 1;
const BOB: u64 = 2;
const TOKEN: u64 = 77;

#[test]
fn new_pool_is_empty() {
    let pool = Staking::new(TOKEN, 1000);
    assert_eq!(pool.apy(), 1000);
    assert_eq!(pool.total_stake_amount(), 0);
    assert_eq!(pool.total_reward_amount(), 0);
    assert_eq!(pool.staker_data_of(ALICE), Staker::default());
}

#[test]
fn staker_default_is_all_zeroes() {
    let rec = Staker::default();
    assert_eq!(rec.stake_amount, 0);
    assert_eq!(rec.reward_amount, 0);
    assert_eq!(rec.last_time, 0);
}

#[test]
fn deposit_updates_record_and_total() {
    let mut pool = Staking::new(TOKEN, 1000);
    assert_eq!(pool.stake_token_check(100, 50), Ok(()));
    assert_eq!(pool.stake_token(ALICE, 0, 100, true, 50), Ok(()));
    let rec = pool.staker_data_of(ALICE);
    assert_eq!(rec.stake_amount, 50);
    assert_eq!(rec.reward_amount, 0);
    assert_eq!(rec.last_time, 0);
    assert_eq!(pool.total_stake_amount(), 50);
    assert_eq!(pool.total_reward_amount(), 0);
}

#[test]
fn deposit_insufficient_balance_changes_nothing() {
    let mut pool = Staking::new(TOKEN, 1000);
    assert_eq!(pool.stake_token(ALICE, 0, 100, true, 60), Ok(()));
    let before = pool.staker_data_of(ALICE);
    let total_before = pool.total_stake_amount();
    assert_eq!(pool.stake_token_check(40, 41), Err(Error::InsufficientTokenBalance));
    assert_eq!(
        pool.stake_token(ALICE, 5, 40, true, 41),
        Err(Error::InsufficientTokenBalance)
    );
    assert_eq!(pool.staker_data_of(ALICE), before);
    assert_eq!(pool.total_stake_amount(), total_before);
}

#[test]
fn deposit_transfer_failure_changes_nothing() {
    let mut pool = Staking::new(TOKEN, 1000);
    let before = pool.staker_data_of(ALICE);
    assert_eq!(
        pool.stake_token(ALICE, 0, 100, false, 50),
        Err(Error::TokenTransferError)
    );
    assert_eq!(pool.staker_data_of(ALICE), before);
    assert_eq!(pool.total_stake_amount(), 0);
}

#[test]
fn conservation_across_deposits_and_withdrawals() {
    let mut pool = Staking::new(TOKEN, 1000);
    assert_eq!(pool.stake_token(ALICE, 0, 1_000, true, 700), Ok(()));
    assert_eq!(pool.stake_token(BOB, 0, 1_000, true, 300), Ok(()));
    assert_eq!(pool.unstake_token(ALICE, 0, 1_000, true, 200), Ok(()));
    let sum = pool.staker_data_of(ALICE).stake_amount + pool.staker_data_of(BOB).stake_amount;
    assert_eq!(pool.total_stake_amount(), sum);
    assert_eq!(pool.total_stake_amount(), 800);
}

#[test]
fn withdraw_more_than_staked_is_refused() {
    let mut pool = Staking::new(TOKEN, 1000);
    assert_eq!(pool.stake_token(ALICE, 0, 100, true, 50), Ok(()));
    assert_eq!(
        pool.unstake_token_check(ALICE, 1_000, 51),
        Err(Error::InsufficientStakedBalance)
    );
    assert_eq!(
        pool.unstake_token(ALICE, 0, 1_000, true, 51),
        Err(Error::InsufficientStakedBalance)
    );
    assert_eq!(pool.staker_data_of(ALICE).stake_amount, 50);
    assert_eq!(pool.total_stake_amount(), 50);
}

#[test]
fn withdraw_from_underfunded_pool_is_refused() {
    let mut pool = Staking::new(TOKEN, 1000);
    assert_eq!(pool.stake_token(ALICE, 0, 100, true, 50), Ok(()));
    assert_eq!(
        pool.unstake_token_check(ALICE, 30, 40),
        Err(Error::InsufficientPoolTokenBalance)
    );
    assert_eq!(
        pool.unstake_token(ALICE, 0, 30, true, 40),
        Err(Error::InsufficientPoolTokenBalance)
    );
    assert_eq!(pool.staker_data_of(ALICE).stake_amount, 50);
    assert_eq!(pool.total_stake_amount(), 50);
}

#[test]
fn withdraw_transfer_failure_is_atomic() {
    let mut pool = Staking::new(TOKEN, 1000);
    assert_eq!(pool.stake_token(ALICE, 0, 100, true, 50), Ok(()));
    let before = pool.staker_data_of(ALICE);
    let total_before = pool.total_stake_amount();
    assert_eq!(
        pool.unstake_token(ALICE, SECONDOFYEAR, 1_000, false, 20),
        Err(Error::TokenTransferError)
    );
    let after = pool.staker_data_of(ALICE);
    assert_eq!(after.stake_amount, before.stake_amount);
    assert_eq!(after.reward_amount, before.reward_amount);
    assert_eq!(after.last_time, before.last_time);
    assert_eq!(pool.total_stake_amount(), total_before);
}

#[test]
fn withdraw_folds_in_accrued_reward() {
    let mut pool = Staking::new(TOKEN, 1000);
    assert_eq!(pool.stake_token(ALICE, 0, 2_000_000, true, 1_000_000), Ok(()));
    assert_eq!(
        pool.unstake_token(ALICE, SECONDOFYEAR, 1_000_000, true, 400_000),
        Ok(())
    );
    let rec = pool.staker_data_of(ALICE);
    assert_eq!(rec.stake_amount, 600_000);
    assert_eq!(rec.reward_amount, 100_000);
    assert_eq!(rec.last_time, SECONDOFYEAR);
    assert_eq!(pool.total_stake_amount(), 600_000);
}

#[test]
fn claim_after_one_year_pays_the_example_amount() {
    let mut pool = Staking::new(TOKEN, 1000);
    assert_eq!(pool.stake_token(ALICE, 0, 1_000_000, true, 1_000_000), Ok(()));
    assert_eq!(
        pool.claim_rewards_check(ALICE, SECONDOFYEAR, 99_999),
        Err(Error::InsufficientPoolTokenBalance)
    );
    assert_eq!(pool.claim_rewards_check(ALICE, SECONDOFYEAR, 100_000), Ok(100_000));
    assert_eq!(pool.claim_rewards(ALICE, SECONDOFYEAR, 100_000, true), Ok(()));
    let rec = pool.staker_data_of(ALICE);
    assert_eq!(rec.stake_amount, 1_000_000);
    assert_eq!(rec.reward_amount, 0);
    assert_eq!(rec.last_time, SECONDOFYEAR);
    assert_eq!(pool.total_reward_amount(), 100_000);
    assert_eq!(pool.total_stake_amount(), 1_000_000);
}

#[test]
fn claim_underfunded_pool_changes_nothing() {
    let mut pool = Staking::new(TOKEN, 1000);
    assert_eq!(pool.stake_token(ALICE, 0, 1_000_000, true, 1_000_000), Ok(()));
    let before = pool.staker_data_of(ALICE);
    assert_eq!(
        pool.claim_rewards(ALICE, SECONDOFYEAR, 99_999, true),
        Err(Error::InsufficientPoolTokenBalance)
    );
    assert_eq!(pool.staker_data_of(ALICE), before);
    assert_eq!(pool.total_reward_amount(), 0);
}

#[test]
fn claim_transfer_failure_changes_nothing() {
    let mut pool = Staking::new(TOKEN, 1000);
    assert_eq!(pool.stake_token(ALICE, 0, 1_000_000, true, 1_000_000), Ok(()));
    let before = pool.staker_data_of(ALICE);
    assert_eq!(
        pool.claim_rewards(ALICE, SECONDOFYEAR, 200_000, false),
        Err(Error::TokenTransferError)
    );
    assert_eq!(pool.staker_data_of(ALICE), before);
    assert_eq!(pool.total_reward_amount(), 0);
}

#[test]
fn second_claim_in_the_same_instant_pays_nothing() {
    let mut pool = Staking::new(TOKEN, 1000);
    assert_eq!(pool.stake_token(ALICE, 0, 1_000_000, true, 1_000_000), Ok(()));
    assert_eq!(pool.claim_rewards(ALICE, SECONDOFYEAR, 100_000, true), Ok(()));
    assert_eq!(pool.total_reward_amount(), 100_000);
    assert_eq!(pool.claim_rewards_check(ALICE, SECONDOFYEAR, 0), Ok(0));
    assert_eq!(pool.claim_rewards(ALICE, SECONDOFYEAR, 0, true), Ok(()));
    assert_eq!(pool.staker_data_of(ALICE).reward_amount, 0);
    assert_eq!(pool.total_reward_amount(), 100_000);
}

#[test]
fn deposit_then_withdraw_round_trip() {
    let mut pool = Staking::new(TOKEN, 1000);
    assert_eq!(pool.stake_token(ALICE, 0, 1_000, true, 250), Ok(()));
    let stake_before = pool.staker_data_of(ALICE).stake_amount;
    let total_before = pool.total_stake_amount();
    let now = 5 * SECONDOFYEAR;
    assert_eq!(pool.stake_token(ALICE, now, 1_000, true, 300), Ok(()));
    assert_eq!(pool.unstake_token(ALICE, now, 1_000, true, 300), Ok(()));
    assert_eq!(pool.staker_data_of(ALICE).stake_amount, stake_before);
    assert_eq!(pool.total_stake_amount(), total_before);
}

#[test]
fn oversized_deposit_is_refused_before_any_arithmetic() {
    let mut pool = Staking::new(TOKEN, 1000);
    assert_eq!(
        pool.stake_token(ALICE, 0, 10, true, u128::MAX),
        Err(Error::InsufficientTokenBalance)
    );
    assert_eq!(pool.total_stake_amount(), 0);
}

#[test]
fn oversized_withdrawal_is_refused_before_any_arithmetic() {
    let mut pool = Staking::new(TOKEN, 1000);
    assert_eq!(pool.stake_token(ALICE, 0, 100, true, 50), Ok(()));
    assert_eq!(
        pool.unstake_token(ALICE, 0, 1_000, true, u128::MAX),
        Err(Error::InsufficientStakedBalance)
    );
    assert_eq!(pool.total_stake_amount(), 50);
}

#[test]
fn events_carry_account_and_amount() {
    let staked = StakeToken { staker: ALICE, amount: 10 };
    let unstaked = UnstakeToken { staker: ALICE, amount: 10 };
    let claimed = ClaimRewards { staker: BOB, amount: 3 };
    assert_eq!(staked, StakeToken { staker: 1, amount: 10 });
    assert_eq!(unstaked.amount, 10);
    assert_eq!(claimed.staker, BOB);
}
