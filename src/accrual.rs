use vstd::prelude::*;
use crate::coins::COIN_COUNT;
use crate::ledger::{accrual_due, accrual_fits};
use crate::msg::{UserInfo, UserRecord};

verus! {

/// Accruing every coin row of `row` keeps each row and each per-coin total
/// (starting from `totals`) within `u128`.
pub open spec fn row_accrual_fits(row: Seq<UserInfo>, aprs: Seq<u32>, now: u64, totals: Seq<u128>) -> bool {
    forall|c: int|
        0 <= c < COIN_COUNT ==> accrual_fits(#[trigger] row[c], aprs[c], now) && totals[c]
            + accrual_due(row[c], aprs[c], now) <= u128::MAX
}

/// Per-coin totals after adding what `row` accrues.
pub open spec fn row_totals(row: Seq<UserInfo>, aprs: Seq<u32>, now: u64, totals: Seq<u128>) -> Seq<u128> {
    Seq::new(COIN_COUNT as nat, |c: int| (totals[c] + accrual_due(row[c], aprs[c], now)) as u128)
}

/// Some coin row of `row` accrues a non-zero reward.
pub open spec fn row_accrues(row: Seq<UserInfo>, aprs: Seq<u32>, now: u64) -> bool {
    exists|c: int| 0 <= c < COIN_COUNT && #[trigger] accrual_due(row[c], aprs[c], now) > 0
}

/// Accrual over the first `n` accounts of `users`: the per-coin totals after
/// it (from `totals`) and whether anything accrued; `None` where some
/// quantity leaves `u128`.
pub open spec fn rewards_sweep(
    users: Seq<UserRecord>,
    aprs: Seq<u32>,
    now: u64,
    totals: Seq<u128>,
    n: nat,
) -> Option<(Seq<u128>, bool)>
    decreases n,
{
    if n == 0 {
        Some((totals, false))
    } else {
        match rewards_sweep(users, aprs, now, totals, (n - 1) as nat) {
            None => None,
            Some(st) => {
                let row = users[n - 1].coins@;
                if row_accrual_fits(row, aprs, now, st.0) {
                    Some((row_totals(row, aprs, now, st.0), st.1 || row_accrues(row, aprs, now)))
                } else {
                    None
                }
            },
        }
    }
}

/// Once the sweep fails on a prefix it fails on every longer one.
pub proof fn lemma_rewards_sweep_fails(
    users: Seq<UserRecord>,
    aprs: Seq<u32>,
    now: u64,
    totals: Seq<u128>,
    m: nat,
    n: nat,
)
    requires
        m <= n,
        rewards_sweep(users, aprs, now, totals, m) is None,
    ensures
        rewards_sweep(users, aprs, now, totals, n) is None,
    decreases n,
{
    if n > m {
        lemma_rewards_sweep_fails(users, aprs, now, totals, m, (n - 1) as nat);
    }
}

/// Where no row of any account has anything due, the sweep keeps the totals
/// and reports that nothing accrued.
pub proof fn lemma_rewards_sweep_idle(
    users: Seq<UserRecord>,
    aprs: Seq<u32>,
    now: u64,
    totals: Seq<u128>,
    n: nat,
)
    requires
        n <= users.len(),
        totals.len() == COIN_COUNT,
        forall|k: int, c: int|
            0 <= k < users.len() && 0 <= c < COIN_COUNT ==> !crate::ledger::accrual_open(
                #[trigger] users[k].coins@[c],
                now,
            ),
    ensures
        rewards_sweep(users, aprs, now, totals, n) == Some((totals, false)),
    decreases n,
{
    if n > 0 {
        lemma_rewards_sweep_idle(users, aprs, now, totals, (n - 1) as nat);
        let row = users[n - 1].coins@;
        assert forall|c: int| 0 <= c < COIN_COUNT implies accrual_due(#[trigger] row[c], aprs[c], now) == 0 by {
            assert(!crate::ledger::accrual_open(users[n - 1].coins@[c], now));
        }
        assert(row_totals(row, aprs, now, totals) =~= totals);
    }
}

} // verus!
