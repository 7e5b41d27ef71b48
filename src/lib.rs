//! Accounting core of a multi-asset staking pool: deposits, two-phase
//! withdrawals, reward accrual, a farming campaign and a qualification pot.
pub mod coins;
pub mod error;
pub mod msg;
pub mod keyed;
pub mod history;
pub mod ledger;
pub mod accrual;
pub mod farm;
pub mod pool;
pub mod laws;
