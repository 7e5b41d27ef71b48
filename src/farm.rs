use vstd::prelude::*;
use crate::coins::{checked_pow, coin_decimals, coin_unit, lemma_pow_mono, pow, COIN_COUNT};
use crate::keyed::{find_key, has_key, key_index, keys_unique, lemma_push_new_key, lemma_update_same_key};
use crate::msg::{FarmInfo, UserInfo, UserRecord};

verus! {

/// Length of the farming campaign, in ms (60 days).
pub const FARM_PERIOD: u64 = 5_184_000_000;
/// Total emission of the campaign; farming stops once more was farmed.
pub const FARM_AMOUNT: u128 = 114_000_000;
/// USD value per step of the price curve.
pub const FARM_PRICE_STEP: u128 = 20_000_000;

/// The campaign window `[start, start + FARM_PERIOD]` holds `now`.
pub open spec fn farm_active(start: u64, now: u64) -> bool {
    start <= now && now <= start + FARM_PERIOD
}

/// `Σ_{i<n} row[i].amount * prices[i]`: the value of the first `n` coin
/// rows at the given prices.
pub open spec fn usd_total(row: Seq<UserInfo>, prices: Seq<u128>, n: nat) -> int
    decreases n,
{
    if n == 0 {
        0
    } else {
        usd_total(row, prices, (n - 1) as nat) + row[n - 1].amount * prices[n - 1]
    }
}

/// The value of more rows is at least the value of fewer.
pub proof fn lemma_usd_total_mono(row: Seq<UserInfo>, prices: Seq<u128>, m: nat, n: nat)
    requires
        m <= n,
    ensures
        usd_total(row, prices, m) <= usd_total(row, prices, n),
        0 <= usd_total(row, prices, m),
    decreases n,
{
    if n > m {
        lemma_usd_total_mono(row, prices, m, (n - 1) as nat);
        let a = row[n - 1].amount;
        let b = prices[n - 1];
        assert(a * b >= 0) by (nonlinear_arith)
            requires
                a >= 0,
                b >= 0,
        ;
    } else if m > 0 {
        lemma_usd_total_mono(row, prices, (m - 1) as nat, (m - 1) as nat);
        let a = row[m - 1].amount;
        let b = prices[m - 1];
        assert(a * b >= 0) by (nonlinear_arith)
            requires
                a >= 0,
                b >= 0,
        ;
    }
}

/// Value of all coin rows of an account; `None` where it leaves `u128`.
pub fn usd_total_of(row: &Vec<UserInfo>, prices: &[u128; COIN_COUNT]) -> (r: Option<u128>)
    requires
        row@.len() == COIN_COUNT,
    ensures
        match r {
            Some(v) => v == usd_total(row@, prices@, COIN_COUNT as nat),
            None => usd_total(row@, prices@, COIN_COUNT as nat) > u128::MAX,
        },
{
    let mut total: u128 = 0;
    let mut i: usize = 0;
    while i < COIN_COUNT
        invariant
            i <= COIN_COUNT,
            row@.len() == COIN_COUNT,
            total == usd_total(row@, prices@, i as nat),
        decreases COIN_COUNT - i,
    {
        proof {
            lemma_usd_total_mono(row@, prices@, i as nat, (i + 1) as nat);
            lemma_usd_total_mono(row@, prices@, (i + 1) as nat, COIN_COUNT as nat);
        }
        let prod = match row[i].amount.checked_mul(prices[i]) {
            Some(v) => v,
            None => {
                return None;
            },
        };
        total = match total.checked_add(prod) {
            Some(v) => v,
            None => {
                return None;
            },
        };
        i = i + 1;
    }
    Some(total)
}

/// Withdrawn value: `drawn * price`, capped at the account's total value.
pub open spec fn capped_withdraw_value(drawn: u128, price: u128, total: int) -> int {
    if drawn * price > total {
        total
    } else {
        drawn * price
    }
}

/// Farm reward given back when `drawn` of a coin at `price` leaves an account
/// whose coins are worth `total` and whose farm balance is `farm`: the
/// withdrawn fraction of the account's value, applied to `farm`.
pub open spec fn farm_cut(farm: u128, total: int, drawn: u128, price: u128) -> int {
    capped_withdraw_value(drawn, price, total) * farm / total
}

/// Computes `farm_cut`; `None` where the product of value and farm balance
/// leaves `u128`.
pub fn farm_cut_of(farm: u128, total: u128, drawn: u128, price: u128) -> (r: Option<u128>)
    requires
        total > 0,
    ensures
        match r {
            Some(v) => capped_withdraw_value(drawn, price, total as int) * farm <= u128::MAX && v == farm_cut(
                farm,
                total as int,
                drawn,
                price,
            ) && v <= farm,
            None => capped_withdraw_value(drawn, price, total as int) * farm > u128::MAX,
        },
{
    let value = match drawn.checked_mul(price) {
        Some(v) => if v > total {
            total
        } else {
            v
        },
        None => total,
    };
    let prod = match value.checked_mul(farm) {
        Some(v) => v,
        None => {
            return None;
        },
    };
    let cut = prod / total;
    assert(cut <= farm) by (nonlinear_arith)
        requires
            cut == prod / total,
            prod == value * farm,
            value <= total,
            total > 0,
    ;
    Some(cut)
}

/// Farm share of `a` units of a coin at `price` whose whole unit is `unit`:
/// its value weighted by the campaign's time factor.
pub open spec fn coin_share(a: u128, price: u128, unit: int) -> int {
    a * price * 24 / unit / 100_000
}

/// USD value of `a` units of a coin at `price` whose whole unit is `unit`.
pub open spec fn coin_value(a: u128, price: u128, unit: int) -> int {
    a * price / unit / 100
}

/// Farm share of the first `n` coin rows of an account, and the running USD
/// value of the sweep (from `usd0`) after them; `None` where either leaves
/// `u128`.
pub open spec fn row_share(row: Seq<UserInfo>, prices: Seq<u128>, usd0: int, n: nat) -> Option<(int, int)>
    decreases n,
{
    if n == 0 {
        Some((0, usd0))
    } else {
        match row_share(row, prices, usd0, (n - 1) as nat) {
            None => None,
            Some(st) => {
                let i = n - 1;
                let a = row[i].amount;
                let p = prices[i];
                let unit = pow(10, coin_decimals(i)) as int;
                if a * p * 24 > u128::MAX {
                    None
                } else {
                    let f = st.0 + coin_share(a, p, unit);
                    let u = st.1 + coin_value(a, p, unit);
                    if f > u128::MAX || u > u128::MAX {
                        None
                    } else {
                        Some((f, u))
                    }
                }
            },
        }
    }
}

/// Once the share fails on a prefix of coins it fails on every longer one.
pub proof fn lemma_row_share_fails(row: Seq<UserInfo>, prices: Seq<u128>, usd0: int, m: nat, n: nat)
    requires
        m <= n,
        row_share(row, prices, usd0, m) is None,
    ensures
        row_share(row, prices, usd0, n) is None,
    decreases n,
{
    if n > m {
        lemma_row_share_fails(row, prices, usd0, m, (n - 1) as nat);
    }
}

/// Farm share of an account's coin rows and the running USD value after them.
pub fn row_share_of(row: &Vec<UserInfo>, prices: &[u128; COIN_COUNT], usd0: u128) -> (r: Option<(u128, u128)>)
    requires
        row@.len() == COIN_COUNT,
    ensures
        match r {
            Some(v) => row_share(row@, prices@, usd0 as int, COIN_COUNT as nat) == Some((v.0 as int, v.1 as int)),
            None => row_share(row@, prices@, usd0 as int, COIN_COUNT as nat) is None,
        },
{
    let mut f: u128 = 0;
    let mut u: u128 = usd0;
    let mut i: usize = 0;
    while i < COIN_COUNT
        invariant
            i <= COIN_COUNT,
            row@.len() == COIN_COUNT,
            row_share(row@, prices@, usd0 as int, i as nat) == Some((f as int, u as int)),
        decreases COIN_COUNT - i,
    {
        let unit = coin_unit(i);
        let a = row[i].amount;
        let p = prices[i];
        let weighted = match a.checked_mul(p) {
            Some(v) => match v.checked_mul(24) {
                Some(w) => w,
                None => {
                    proof {
                        lemma_row_share_fails(row@, prices@, usd0 as int, (i + 1) as nat, COIN_COUNT as nat);
                    }
                    return None;
                },
            },
            None => {
                proof {
                    assert(a * p * 24 > u128::MAX) by (nonlinear_arith)
                        requires
                            a * p > u128::MAX,
                    ;
                    lemma_row_share_fails(row@, prices@, usd0 as int, (i + 1) as nat, COIN_COUNT as nat);
                }
                return None;
            },
        };
        let value = (a * p) / unit / 100;
        let share = weighted / unit / 100_000;
        if f > u128::MAX - share || u > u128::MAX - value {
            proof {
                lemma_row_share_fails(row@, prices@, usd0 as int, (i + 1) as nat, COIN_COUNT as nat);
            }
            return None;
        }
        f = f + share;
        u = u + value;
        i = i + 1;
    }
    Some((f, u))
}

/// `s` with `delta` added to the farm balance of `acc`, a new entry where it
/// has none; `None` where the balance leaves `u128`.
pub open spec fn farm_upsert(s: Seq<FarmInfo>, acc: String, delta: int) -> Option<Seq<FarmInfo>> {
    if has_key(s, acc@) {
        let i = key_index(s, acc@);
        if s[i].amount + delta > u128::MAX {
            None
        } else {
            Some(s.update(i, FarmInfo { amount: (s[i].amount + delta) as u128, ..s[i] }))
        }
    } else {
        Some(s.push(FarmInfo { account: acc, amount: delta as u128 }))
    }
}

/// Adds `amount` to the farm balance of `account`, creating its entry where
/// it has none. Returns `false`, changing nothing, where the balance would
/// leave `u128`.
pub fn update_farm_info(farms: &mut Vec<FarmInfo>, account: &String, amount: u128) -> (r: bool)
    requires
        keys_unique(old(farms)@),
    ensures
        keys_unique(final(farms)@),
        match farm_upsert(old(farms)@, *account, amount as int) {
            Some(s) => r && final(farms)@ == s,
            None => !r && final(farms)@ == old(farms)@,
        },
{
    match find_key(farms, account) {
        Some(i) => {
            let f = farms[i].copy();
            if f.amount > u128::MAX - amount {
                return false;
            }
            let rec = FarmInfo { amount: f.amount + amount, ..f };
            proof {
                lemma_update_same_key(farms@, i as int, rec);
            }
            farms[i] = rec;
            true
        },
        None => {
            let rec = FarmInfo { account: account.clone(), amount };
            proof {
                lemma_push_new_key(farms@, rec);
            }
            farms.push(rec);
            true
        },
    }
}

/// The farm ledger, the campaign total (from `total`) and the running USD
/// value after the farm epoch has passed over the first `n` accounts of
/// `users`; `None` where some quantity leaves `u128`.
pub open spec fn farm_sweep(
    farms: Seq<FarmInfo>,
    users: Seq<UserRecord>,
    prices: Seq<u128>,
    total: int,
    n: nat,
) -> Option<(Seq<FarmInfo>, int, int)>
    decreases n,
{
    if n == 0 {
        Some((farms, total, 0))
    } else {
        match farm_sweep(farms, users, prices, total, (n - 1) as nat) {
            None => None,
            Some(st) => match row_share(users[n - 1].coins@, prices, st.2, COIN_COUNT as nat) {
                None => None,
                Some(sh) => match farm_upsert(st.0, users[n - 1].account, sh.0) {
                    None => None,
                    Some(f2) => if st.1 + sh.0 > u128::MAX {
                        None
                    } else {
                        Some((f2, st.1 + sh.0, sh.1))
                    },
                },
            },
        }
    }
}

/// Once the farm epoch fails on a prefix of accounts it fails on every
/// longer one.
pub proof fn lemma_farm_sweep_fails(
    farms: Seq<FarmInfo>,
    users: Seq<UserRecord>,
    prices: Seq<u128>,
    total: int,
    m: nat,
    n: nat,
)
    requires
        m <= n,
        farm_sweep(farms, users, prices, total, m) is None,
    ensures
        farm_sweep(farms, users, prices, total, n) is None,
    decreases n,
{
    if n > m {
        lemma_farm_sweep_fails(farms, users, prices, total, m, (n - 1) as nat);
    }
}

/// Unit price after `usd` of value was farmed: the base price grown by a
/// fifth for each full step of `FARM_PRICE_STEP`, floored; `None` where
/// `25 * 12^steps` leaves `u128`.
pub open spec fn farm_price_of(usd: int) -> Option<int> {
    let m = (usd / FARM_PRICE_STEP as int) as nat;
    if 25 * pow(12, m) > u128::MAX {
        None
    } else {
        Some((25 * pow(12, m) / pow(10, m)) as int)
    }
}

/// Powers keep the order of their bases.
pub proof fn lemma_pow_base_le(a: nat, b: nat, e: nat)
    requires
        a <= b,
    ensures
        pow(a, e) <= pow(b, e),
    decreases e,
{
    if e > 0 {
        lemma_pow_base_le(a, b, (e - 1) as nat);
        let x = pow(a, (e - 1) as nat);
        let y = pow(b, (e - 1) as nat);
        assert(a * x <= b * y) by (nonlinear_arith)
            requires
                a <= b,
                x <= y,
                0 <= a,
                0 <= x,
        ;
    }
}

/// Computes the unit price after `usd` of value was farmed.
pub fn farm_price_from(usd: u128) -> (r: Option<u128>)
    ensures
        match r {
            Some(v) => farm_price_of(usd as int) == Some(v as int),
            None => farm_price_of(usd as int) is None,
        },
{
    let m = usd / FARM_PRICE_STEP;
    let grown = match checked_pow(12, m) {
        Some(g) => match g.checked_mul(25) {
            Some(v) => v,
            None => {
                return None;
            },
        },
        None => {
            proof {
                lemma_pow_mono(12, 0, m as nat);
                assert(25 * pow(12, m as nat) > u128::MAX);
            }
            return None;
        },
    };
    proof {
        lemma_pow_base_le(10, 12, m as nat);
        lemma_pow_mono(10, 0, m as nat);
    }
    let scale = match checked_pow(10, m) {
        Some(s) => s,
        None => {
            return None;
        },
    };
    Some(grown / scale)
}

} // verus!
