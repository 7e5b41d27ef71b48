use vstd::prelude::*;
use crate::coins::COIN_COUNT;
use crate::keyed::{has_key, key_index, keys_unique, lemma_push_new_key, lemma_update_same_key, Keyed};
use crate::msg::{PotInfo, PotRecord, UserInfo, UserRecord};

verus! {

/// Time (ms) that must pass after a deposit before its rows accrue reward.
pub const REWARD_TIME: u64 = 600_000;

/// An empty balance row of account `acc`.
pub open spec fn zero_user(acc: String) -> UserInfo {
    UserInfo { account: acc, amount: 0, reward_amount: 0, deposit_time: 0, withdraw_reserve: 0 }
}

/// The balance rows of an account without any record.
pub open spec fn zero_user_row(acc: String) -> Seq<UserInfo> {
    Seq::new(COIN_COUNT as nat, |i: int| zero_user(acc))
}

/// The balance rows of `acc` in ledger `s`, empty rows where it has none.
pub open spec fn user_row(s: Seq<UserRecord>, acc: String) -> Seq<UserInfo> {
    if has_key(s, acc@) {
        s[key_index(s, acc@)].coins@
    } else {
        zero_user_row(acc)
    }
}

/// The reservation never exceeds what can be withdrawn.
pub open spec fn reserve_ok(u: UserInfo) -> bool {
    u.withdraw_reserve <= u.amount + u.reward_amount
}

/// One row per coin, each with a reservation it can cover.
pub open spec fn user_row_wf(row: Seq<UserInfo>) -> bool {
    &&& row.len() == COIN_COUNT
    &&& forall|c: int| 0 <= c < row.len() ==> reserve_ok(#[trigger] row[c])
}

/// A balance ledger: unique accounts, well-formed rows.
pub open spec fn user_ledger_wf(s: Seq<UserRecord>) -> bool {
    &&& keys_unique(s)
    &&& forall|k: int| 0 <= k < s.len() ==> user_row_wf(#[trigger] s[k].coins@)
}

/// `new` is `old` with the rows of `acc` set to `row`: in place where `acc`
/// has a record, appended otherwise.
pub open spec fn user_put(
    old: Seq<UserRecord>,
    new: Seq<UserRecord>,
    acc: String,
    row: Seq<UserInfo>,
) -> bool {
    if has_key(old, acc@) {
        let i = key_index(old, acc@);
        &&& new.len() == old.len()
        &&& forall|k: int| 0 <= k < old.len() && k != i ==> new[k] == old[k]
        &&& new[i].account == old[i].account
        &&& new[i].coins@ == row
    } else {
        &&& new.len() == old.len() + 1
        &&& forall|k: int| 0 <= k < old.len() ==> new[k] == old[k]
        &&& new[old.len() as int].account == acc
        &&& new[old.len() as int].coins@ == row
    }
}

/// The row after a deposit of `amount` at `now`.
pub open spec fn deposited(u: UserInfo, amount: u128, now: u64) -> UserInfo {
    UserInfo { amount: (u.amount + amount) as u128, deposit_time: now, ..u }
}

/// The row after reserving `amount` for withdrawal.
pub open spec fn reserved(u: UserInfo, amount: u128) -> UserInfo {
    UserInfo { withdraw_reserve: amount, ..u }
}

/// Part of a withdrawal of `amount` drawn from the principal.
pub open spec fn drawn_from_principal(u: UserInfo, amount: u128) -> u128 {
    if u.amount >= amount {
        amount
    } else {
        u.amount
    }
}

/// The row after withdrawing `amount`: principal first, then reward; the
/// reservation is cleared.
pub open spec fn withdrawn(u: UserInfo, amount: u128) -> UserInfo {
    if u.amount >= amount {
        UserInfo { amount: (u.amount - amount) as u128, withdraw_reserve: 0, ..u }
    } else {
        UserInfo {
            amount: 0,
            reward_amount: (u.reward_amount - (amount - u.amount)) as u128,
            withdraw_reserve: 0,
            ..u
        }
    }
}

/// Whether a full reward window has passed since the row's last deposit.
pub open spec fn accrual_open(u: UserInfo, now: u64) -> bool {
    now >= u.deposit_time + REWARD_TIME
}

/// Simple interest due on a row at `apr` basis points: one day's share of
/// the yearly rate, once the window has passed.
pub open spec fn accrual_due(u: UserInfo, apr: u32, now: u64) -> int {
    if accrual_open(u, now) {
        (u.amount + u.reward_amount) * apr / 10_000 / 365
    } else {
        0
    }
}

/// Computing the accrual stays within `u128`.
pub open spec fn accrual_fits(u: UserInfo, apr: u32, now: u64) -> bool {
    accrual_open(u, now) ==> {
        &&& u.amount + u.reward_amount <= u128::MAX
        &&& (u.amount + u.reward_amount) * apr <= u128::MAX
        &&& u.reward_amount + accrual_due(u, apr, now) <= u128::MAX
    }
}

/// The row after accrual.
pub open spec fn accrued(u: UserInfo, apr: u32, now: u64) -> UserInfo {
    UserInfo { reward_amount: (u.reward_amount + accrual_due(u, apr, now)) as u128, ..u }
}

/// All rows of an account after accrual at the per-coin rates `aprs`.
pub open spec fn accrued_row(row: Seq<UserInfo>, aprs: Seq<u32>, now: u64) -> Seq<UserInfo> {
    Seq::new(row.len(), |c: int| accrued(row[c], aprs[c], now))
}

/// Reward accrued on one row; `None` where it would leave `u128`.
pub fn accrue_one(u: &UserInfo, apr: u32, now: u64) -> (r: Option<u128>)
    ensures
        match r {
            Some(d) => accrual_fits(*u, apr, now) && d == accrual_due(*u, apr, now),
            None => !accrual_fits(*u, apr, now),
        },
{
    if u.deposit_time as u128 + REWARD_TIME as u128 > now as u128 {
        return Some(0);
    }
    let base = match u.amount.checked_add(u.reward_amount) {
        Some(v) => v,
        None => {
            return None;
        },
    };
    let scaled = match base.checked_mul(apr as u128) {
        Some(v) => v,
        None => {
            return None;
        },
    };
    let due = scaled / 10_000 / 365;
    if u.reward_amount > u128::MAX - due {
        return None;
    }
    Some(due)
}

/// The balance rows of `acc`, read from `ledger[idx]` or empty.
pub fn user_row_of(ledger: &Vec<UserRecord>, idx: Option<usize>, acc: &String) -> (r: Vec<
    UserInfo,
>)
    requires
        match idx {
            Some(i) => has_key(ledger@, acc@) && i == key_index(ledger@, acc@) && i < ledger@.len(),
            None => !has_key(ledger@, acc@),
        },
    ensures
        r@ == user_row(ledger@, *acc),
{
    match idx {
        Some(i) => crate::msg::copy_user_row(&ledger[i].coins),
        None => {
            let mut row: Vec<UserInfo> = Vec::new();
            let mut c: usize = 0;
            while c < COIN_COUNT
                invariant
                    c <= COIN_COUNT,
                    row@.len() == c,
                    forall|j: int| 0 <= j < c ==> row@[j] == zero_user(*acc),
                decreases COIN_COUNT - c,
            {
                row.push(UserInfo::zero(acc));
                c = c + 1;
            }
            assert(row@ =~= zero_user_row(*acc));
            row
        },
    }
}

/// Stores `row` as the balance rows of `acc`.
pub fn put_user_row(ledger: &mut Vec<UserRecord>, idx: Option<usize>, acc: &String, row: Vec<UserInfo>)
    requires
        keys_unique(old(ledger)@),
        match idx {
            Some(i) => has_key(old(ledger)@, acc@) && i == key_index(old(ledger)@, acc@) && i
                < old(ledger)@.len(),
            None => !has_key(old(ledger)@, acc@),
        },
    ensures
        user_put(old(ledger)@, final(ledger)@, *acc, row@),
        keys_unique(final(ledger)@),
        forall|k: Seq<char>| has_key(final(ledger)@, k) == (has_key(old(ledger)@, k) || k == acc@),
{
    match idx {
        Some(i) => {
            let account = ledger[i].account.clone();
            let rec = UserRecord { account, coins: row };
            proof {
                lemma_update_same_key(ledger@, i as int, rec);
            }
            ledger[i] = rec;
        },
        None => {
            let rec = UserRecord { account: acc.clone(), coins: row };
            proof {
                lemma_push_new_key(ledger@, rec);
            }
            ledger.push(rec);
            proof {
                let s = old(ledger)@;
                let t = final(ledger)@;
                assert forall|k: Seq<char>| has_key(t, k) == (has_key(s, k) || k == acc@) by {
                    if has_key(s, k) {
                        let j = choose|j: int| 0 <= j < s.len() && #[trigger] s[j].key() == k;
                        assert(t[j].key() == k);
                    }
                    if k == acc@ {
                        assert(t[s.len() as int].key() == k);
                    }
                    if has_key(t, k) && k != acc@ {
                        let j = choose|j: int| 0 <= j < t.len() && #[trigger] t[j].key() == k;
                        assert(s[j].key() == k);
                    }
                }
            }
        },
    }
}

/// An empty qualification row of account `acc`.
pub open spec fn zero_pot(acc: String) -> PotInfo {
    PotInfo { account: acc, amount: 0, qualified_amount: 0 }
}

/// The qualification rows of an account without any record.
pub open spec fn zero_pot_row(acc: String) -> Seq<PotInfo> {
    Seq::new(COIN_COUNT as nat, |i: int| zero_pot(acc))
}

/// The qualification rows of `acc` in ledger `s`, empty rows where it has none.
pub open spec fn pot_row(s: Seq<PotRecord>, acc: String) -> Seq<PotInfo> {
    if has_key(s, acc@) {
        s[key_index(s, acc@)].coins@
    } else {
        zero_pot_row(acc)
    }
}

/// A qualification ledger: unique accounts, one row per coin.
pub open spec fn pot_ledger_wf(s: Seq<PotRecord>) -> bool {
    &&& keys_unique(s)
    &&& forall|k: int| 0 <= k < s.len() ==> (#[trigger] s[k]).coins@.len() == COIN_COUNT
}

/// `new` is `old` with the qualification rows of `acc` set to `row`.
pub open spec fn pot_put(old: Seq<PotRecord>, new: Seq<PotRecord>, acc: String, row: Seq<PotInfo>) -> bool {
    if has_key(old, acc@) {
        let i = key_index(old, acc@);
        &&& new.len() == old.len()
        &&& forall|k: int| 0 <= k < old.len() && k != i ==> new[k] == old[k]
        &&& new[i].account == old[i].account
        &&& new[i].coins@ == row
    } else {
        &&& new.len() == old.len() + 1
        &&& forall|k: int| 0 <= k < old.len() ==> new[k] == old[k]
        &&& new[old.len() as int].account == acc
        &&& new[old.len() as int].coins@ == row
    }
}

/// The qualification row after a deposit of `amount`.
pub open spec fn pot_deposited(p: PotInfo, amount: u128, qualified: bool) -> PotInfo {
    if qualified {
        PotInfo { qualified_amount: (p.qualified_amount + amount) as u128, ..p }
    } else {
        PotInfo { amount: (p.amount + amount) as u128, ..p }
    }
}

/// A qualification deposit stays within `u128`.
pub open spec fn pot_deposit_fits(p: PotInfo, amount: u128, qualified: bool) -> bool {
    if qualified {
        p.qualified_amount + amount <= u128::MAX
    } else {
        p.amount + amount <= u128::MAX
    }
}

/// The qualification row after a withdrawal of `amount`: taken from the
/// qualified part where it suffices; otherwise the qualified part is emptied
/// and the whole `amount` is taken from the unqualified part, floored at zero.
pub open spec fn pot_withdrawn(p: PotInfo, amount: u128) -> PotInfo {
    if p.qualified_amount >= amount {
        PotInfo { qualified_amount: (p.qualified_amount - amount) as u128, ..p }
    } else if p.amount >= amount {
        PotInfo { qualified_amount: 0, amount: (p.amount - amount) as u128, ..p }
    } else {
        PotInfo { qualified_amount: 0, amount: 0, ..p }
    }
}

/// The qualification rows of `acc`, read from `ledger[idx]` or empty.
pub fn pot_row_of(ledger: &Vec<PotRecord>, idx: Option<usize>, acc: &String) -> (r: Vec<PotInfo>)
    requires
        match idx {
            Some(i) => has_key(ledger@, acc@) && i == key_index(ledger@, acc@) && i < ledger@.len(),
            None => !has_key(ledger@, acc@),
        },
    ensures
        r@ == pot_row(ledger@, *acc),
{
    match idx {
        Some(i) => crate::msg::copy_pot_row(&ledger[i].coins),
        None => {
            let mut row: Vec<PotInfo> = Vec::new();
            let mut c: usize = 0;
            while c < COIN_COUNT
                invariant
                    c <= COIN_COUNT,
                    row@.len() == c,
                    forall|j: int| 0 <= j < c ==> row@[j] == zero_pot(*acc),
                decreases COIN_COUNT - c,
            {
                row.push(PotInfo::zero(acc));
                c = c + 1;
            }
            assert(row@ =~= zero_pot_row(*acc));
            row
        },
    }
}

/// Stores `row` as the qualification rows of `acc`.
pub fn put_pot_row(ledger: &mut Vec<PotRecord>, idx: Option<usize>, acc: &String, row: Vec<PotInfo>)
    requires
        keys_unique(old(ledger)@),
        match idx {
            Some(i) => has_key(old(ledger)@, acc@) && i == key_index(old(ledger)@, acc@) && i
                < old(ledger)@.len(),
            None => !has_key(old(ledger)@, acc@),
        },
    ensures
        pot_put(old(ledger)@, final(ledger)@, *acc, row@),
        keys_unique(final(ledger)@),
{
    match idx {
        Some(i) => {
            let account = ledger[i].account.clone();
            let rec = PotRecord { account, coins: row };
            proof {
                lemma_update_same_key(ledger@, i as int, rec);
            }
            ledger[i] = rec;
        },
        None => {
            let rec = PotRecord { account: acc.clone(), coins: row };
            proof {
                lemma_push_new_key(ledger@, rec);
            }
            ledger.push(rec);
        },
    }
}

} // verus!

verus! {

/// Whether principal plus reward of `u` covers `amount`.
pub fn covers(u: &UserInfo, amount: u128) -> (r: bool)
    ensures
        r == (amount <= u.amount + u.reward_amount),
{
    u.amount >= amount || amount - u.amount <= u.reward_amount
}

/// A qualification record survives an epoch where some coin row holds an
/// unqualified amount.
pub open spec fn pot_keeps(row: Seq<PotInfo>) -> bool {
    exists|c: int| 0 <= c < row.len() && (#[trigger] row[c]).amount != 0
}

/// Rows after an epoch: each unqualified amount becomes the qualified one,
/// and the unqualified part is emptied.
pub open spec fn promoted(row: Seq<PotInfo>) -> Seq<PotInfo> {
    Seq::new(row.len(), |c: int| PotInfo { account: row[c].account, amount: 0, qualified_amount: row[c].amount })
}

/// Positions, in order, of the records among the first `n` of `s` that
/// survive an epoch.
pub open spec fn pot_survivors(s: Seq<PotRecord>, n: nat) -> Seq<int>
    decreases n,
{
    if n == 0 {
        Seq::empty()
    } else {
        let t = pot_survivors(s, (n - 1) as nat);
        if pot_keeps(s[n - 1].coins@) {
            t.push(n - 1)
        } else {
            t
        }
    }
}

/// Survivor positions are below `n`, strictly increasing, and hold exactly
/// the records that keep.
pub proof fn lemma_pot_survivors(s: Seq<PotRecord>, n: nat)
    ensures
        forall|j: int| 0 <= j < pot_survivors(s, n).len() ==> 0 <= #[trigger] pot_survivors(s, n)[j] < n,
        forall|i: int, j: int|
            0 <= i < j < pot_survivors(s, n).len() ==> #[trigger] pot_survivors(s, n)[i] < #[trigger] pot_survivors(s, n)[j],
        forall|k: int|
            0 <= k < n ==> (pot_keeps(#[trigger] s[k].coins@) <==> exists|j: int|
                0 <= j < pot_survivors(s, n).len() && pot_survivors(s, n)[j] == k),
    decreases n,
{
    if n > 0 {
        lemma_pot_survivors(s, (n - 1) as nat);
        let t = pot_survivors(s, (n - 1) as nat);
        let u = pot_survivors(s, n);
        assert forall|k: int|
            0 <= k < n implies (pot_keeps(#[trigger] s[k].coins@) <==> exists|j: int|
                0 <= j < u.len() && u[j] == k) by {
            if k < n - 1 {
                if pot_keeps(s[k].coins@) {
                    let j = choose|j: int| 0 <= j < t.len() && t[j] == k;
                    assert(u[j] == k);
                }
                if exists|j: int| 0 <= j < u.len() && u[j] == k {
                    let j = choose|j: int| 0 <= j < u.len() && u[j] == k;
                    if j < t.len() {
                        assert(t[j] == k);
                    }
                }
            } else {
                if pot_keeps(s[k].coins@) {
                    assert(u[t.len() as int] == k);
                }
                if exists|j: int| 0 <= j < u.len() && u[j] == k {
                    let j = choose|j: int| 0 <= j < u.len() && u[j] == k;
                    if j < t.len() {
                        assert(t[j] == k);
                    }
                }
            }
        }
    }
}

} // verus!
