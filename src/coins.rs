use vstd::prelude::*;
use crate::error::PoolError;

verus! {

/// Number of supported coins; every per-coin table has this many slots.
pub const COIN_COUNT: usize = 7;

/// Canonical symbol of the coin in slot `i`.
pub open spec fn coin_symbol(i: int) -> Seq<char> {
    if i == 0 {
        "USDC"@
    } else if i == 1 {
        "USDT"@
    } else if i == 2 {
        "DAI"@
    } else if i == 3 {
        "USN"@
    } else if i == 4 {
        "wBTC"@
    } else if i == 5 {
        "ETH"@
    } else {
        "wNEAR"@
    }
}

/// Decimal exponent of the coin in slot `i`.
pub open spec fn coin_decimals(i: int) -> nat {
    if i == 0 || i == 1 {
        6
    } else if i == 4 {
        8
    } else if i == 6 {
        24
    } else {
        18
    }
}

/// Slot of the coin with symbol `s`, or `-1` where there is none.
pub open spec fn coin_index(s: Seq<char>) -> int {
    if s == "USDC"@ {
        0
    } else if s == "USDT"@ {
        1
    } else if s == "DAI"@ {
        2
    } else if s == "USN"@ {
        3
    } else if s == "wBTC"@ {
        4
    } else if s == "ETH"@ {
        5
    } else if s == "wNEAR"@ {
        6
    } else {
        -1
    }
}

/// Whether `s` is the symbol of some supported coin.
pub open spec fn is_coin(s: Seq<char>) -> bool {
    0 <= coin_index(s) < COIN_COUNT
}

/// Slot of the coin with symbol `coin`.
pub fn getcoin_id(coin: String) -> (r: Result<usize, PoolError>)
    ensures
        match r {
            Ok(i) => is_coin(coin@) && i == coin_index(coin@) && coin_symbol(i as int) == coin@,
            Err(e) => e == PoolError::UnknownCoin && !is_coin(coin@),
        },
{
    if coin == "USDC".to_owned() {
        Ok(0)
    } else if coin == "USDT".to_owned() {
        Ok(1)
    } else if coin == "DAI".to_owned() {
        Ok(2)
    } else if coin == "USN".to_owned() {
        Ok(3)
    } else if coin == "wBTC".to_owned() {
        Ok(4)
    } else if coin == "ETH".to_owned() {
        Ok(5)
    } else if coin == "wNEAR".to_owned() {
        Ok(6)
    } else {
        Err(PoolError::UnknownCoin)
    }
}

/// Decimal exponent of the coin in slot `i`.
pub fn decimals_of(i: usize) -> (r: u32)
    requires
        i < COIN_COUNT,
    ensures
        r == coin_decimals(i as int),
{
    if i == 0 || i == 1 {
        6
    } else if i == 4 {
        8
    } else if i == 6 {
        24
    } else {
        18
    }
}

/// `b` to the power `e`.
pub open spec fn pow(b: nat, e: nat) -> nat
    decreases e,
{
    if e == 0 {
        1
    } else {
        b * pow(b, (e - 1) as nat)
    }
}

/// A power of a positive base grows with the exponent.
pub proof fn lemma_pow_mono(b: nat, x: nat, y: nat)
    requires
        b >= 1,
        x <= y,
    ensures
        pow(b, x) <= pow(b, y),
        pow(b, x) >= 1,
    decreases y,
{
    if y > x {
        lemma_pow_mono(b, x, (y - 1) as nat);
        assert(b * pow(b, (y - 1) as nat) >= pow(b, (y - 1) as nat)) by (nonlinear_arith)
            requires
                b >= 1,
        ;
    } else if x > 0 {
        lemma_pow_mono(b, (x - 1) as nat, (x - 1) as nat);
        assert(b * pow(b, (x - 1) as nat) >= 1) by (nonlinear_arith)
            requires
                b >= 1,
                pow(b, (x - 1) as nat) >= 1,
        ;
    }
}

/// `b^e`, or `None` where it does not fit in `u128`.
pub fn checked_pow(b: u128, e: u128) -> (r: Option<u128>)
    ensures
        match r {
            Some(v) => v == pow(b as nat, e as nat),
            None => pow(b as nat, e as nat) > u128::MAX,
        },
{
    let mut r: u128 = 1;
    let mut i: u128 = 0;
    while i < e
        invariant
            i <= e,
            r == pow(b as nat, i as nat),
        decreases e - i,
    {
        assert(pow(b as nat, (i + 1) as nat) == r * b) by (nonlinear_arith)
            requires
                pow(b as nat, (i + 1) as nat) == b * pow(b as nat, i as nat),
                r == pow(b as nat, i as nat),
        ;
        match r.checked_mul(b) {
            Some(v) => {
                r = v;
            },
            None => {
                proof {
                    assert(b >= 1) by (nonlinear_arith)
                        requires
                            r * b > u128::MAX,
                    ;
                    lemma_pow_mono(b as nat, (i + 1) as nat, e as nat);
                }
                return None;
            },
        }
        i = i + 1;
    }
    Some(r)
}

/// `10^decimals` of the coin in slot `i`: one whole coin in its smallest unit.
pub fn coin_unit(i: usize) -> (r: u128)
    requires
        i < COIN_COUNT,
    ensures
        r == pow(10, coin_decimals(i as int)),
        r >= 1,
{
    proof {
        reveal_with_fuel(pow, 25);
    }
    if i == 0 || i == 1 {
        1_000_000
    } else if i == 4 {
        100_000_000
    } else if i == 6 {
        1_000_000_000_000_000_000_000_000
    } else {
        1_000_000_000_000_000_000
    }
}

} // verus!
