//! A token-staking ledger: accounts deposit a fungible token into a pool,
//! accrue time-proportional rewards at a fixed annual percentage yield,
//! and later withdraw principal or claim the accrued rewards.
//!
//! The pool itself never talks to the token ledger: the embedding queries
//! balances, performs the transfers, and hands the observed values and
//! transfer outcomes to the verified operations as plain arguments.

pub mod accrual;
pub mod ledger;
pub mod pool;

pub use accrual::accrued_reward;
pub use accrual::APY_DENOMINATOR;
pub use accrual::SECONDOFYEAR;
pub use ledger::Error;
pub use ledger::Staker;
pub use pool::ClaimRewards;
pub use pool::StakeToken;
pub use pool::Staking;
pub use pool::UnstakeToken;
