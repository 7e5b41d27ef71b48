use vstd::prelude::*;

verus! {

/// Why an operation of the pool was refused. A refused operation leaves the
/// pool exactly as it was.
#[derive(Debug, Clone, Copy, PartialEq, Eq, Structural)]
pub enum PoolError {
    /// The caller is not the owner or treasury account that the operation needs.
    Unauthorized,
    /// The coin symbol is not one of the supported coins.
    UnknownCoin,
    /// The account has no balance record.
    UnknownAccount,
    /// The amount exceeds principal plus reward.
    InsufficientBalance,
    /// The amount exceeds the account's withdrawal reservation.
    ReservationTooSmall,
    /// A deposit of nothing.
    ZeroAmount,
    /// A balance or total would leave the range of `u128`.
    ArithmeticOverflow,
}

} // verus!
