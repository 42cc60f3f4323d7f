use staking::accrued_reward;
use staking::SECONDOFYEAR;

#[test]
fn one_year_at_ten_percent() {
    // 10% per year on a principal of 1_000_000 over exactly one year.
    let r = accrued_reward(1_000_000, 0, SECONDOFYEAR, 1000);
    assert_eq!(r, 100_000);
}

#[test]
fn zero_elapsed_accrues_nothing() {
    assert_eq!(accrued_reward(1_000_000, 42, 42, 1000), 0);
}

#[test]
fn zero_principal_accrues_nothing() {
    assert_eq!(accrued_reward(0, 0, 10 * SECONDOFYEAR, 1000), 0);
}

#[test]
fn fractional_reward_is_truncated() {
    // One token unit for one second at 10% per year rounds down to nothing.
    assert_eq!(accrued_reward(1, 0, 1000, 1000), 0);
}

#[test]
fn accrual_grows_with_elapsed_time() {
    let half = accrued_reward(1_000_000, 0, SECONDOFYEAR / 2, 1000);
    let full = accrued_reward(1_000_000, 0, SECONDOFYEAR, 1000);
    assert_eq!(half, 50_000);
    assert!(half <= full);
}

#[test]
fn accrual_at_two_hundred_percent() {
    // apy of 20_000 means 200% per year.
    assert_eq!(accrued_reward(500, 0, SECONDOFYEAR, 20_000), 1_000);
}
