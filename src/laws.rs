use vstd::prelude::*;
use crate::accrual::{lemma_rewards_sweep_idle, rewards_sweep};
use crate::coins::COIN_COUNT;
use crate::keyed::{has_key, key_index, keys_unique, lemma_key_index, Keyed};
use crate::ledger::{
    accrual_open, accrued_row, deposited, drawn_from_principal, lemma_pot_survivors, pot_keeps,
    pot_survivors, promoted, reserve_ok, reserved, user_put, user_row, withdrawn,
};
use crate::msg::{PotRecord, UserInfo, UserRecord};
use crate::pool::Pool;

verus! {

/// In a well-formed pool, and so after every operation, each reservation is
/// covered by the principal and reward of its row.
pub proof fn reserve_within_balance(p: Pool, k: int, c: int)
    requires
        p.wf(),
        0 <= k < p.user_infos@.len(),
        0 <= c < COIN_COUNT,
    ensures
        p.user_infos@[k].coins@[c].withdraw_reserve <= p.user_infos@[k].coins@[c].amount
            + p.user_infos@[k].coins@[c].reward_amount,
{
    assert(reserve_ok(p.user_infos@[k].coins@[c]));
}

/// After the rows of `acc` were stored as `row`, they read back as `row`.
pub proof fn lemma_user_row_put(old: Seq<UserRecord>, new: Seq<UserRecord>, acc: String, row: Seq<UserInfo>)
    requires
        keys_unique(new),
        user_put(old, new, acc, row),
    ensures
        has_key(new, acc@),
        user_row(new, acc) == row,
{
    if has_key(old, acc@) {
        let i = key_index(old, acc@);
        assert(0 <= i < old.len() && old[i].key() == acc@);
        assert(new[i].key() == acc@);
        lemma_key_index(new, i);
    } else {
        assert(new[old.len() as int].key() == acc@);
        lemma_key_index(new, old.len() as int);
    }
}

/// A deposit, a reservation of the same amount and its withdrawal leave the
/// principal of the row as it was, the whole amount being drawn from it.
pub proof fn deposit_withdraw_round_trip(
    p: Pool,
    q: Pool,
    q2: Pool,
    r: Pool,
    acc: String,
    c: int,
    amount: u128,
    qualified: bool,
    prices: Seq<u128>,
    now: u64,
    later: u64,
)
    requires
        p.wf(),
        q.wf(),
        q2.wf(),
        r.wf(),
        0 <= c < COIN_COUNT,
        p.deposit_fits(acc, c, amount, qualified),
        Pool::deposit_applied(q, p, acc, c, amount, qualified, now),
        user_put(
            q.user_infos@,
            q2.user_infos@,
            acc,
            user_row(q.user_infos@, acc).update(c, reserved(user_row(q.user_infos@, acc)[c], amount)),
        ),
        Pool::withdraw_applied(r, q2, acc, c, amount, prices, later),
    ensures
        user_row(r.user_infos@, acc)[c].amount == user_row(p.user_infos@, acc)[c].amount,
        drawn_from_principal(user_row(q2.user_infos@, acc)[c], amount) == amount,
{
    let row = user_row(p.user_infos@, acc);
    lemma_user_row_put(p.user_infos@, q.user_infos@, acc, row.update(c, deposited(row[c], amount, now)));
    let row1 = user_row(q.user_infos@, acc);
    lemma_user_row_put(q.user_infos@, q2.user_infos@, acc, row1.update(c, reserved(row1[c], amount)));
    let row2 = user_row(q2.user_infos@, acc);
    lemma_user_row_put(q2.user_infos@, r.user_infos@, acc, row2.update(c, withdrawn(row2[c], amount)));
}

/// Accrual at a time when no row's reward window has passed changes
/// nothing: every row and every total stays, and no sample is due. In
/// particular a second accrual changes nothing when it comes before the
/// window of any row has passed.
pub proof fn accrual_within_window_is_idle(p: Pool, now: u64)
    requires
        p.wf(),
        forall|k: int, c: int|
            0 <= k < p.user_infos@.len() && 0 <= c < COIN_COUNT ==> !accrual_open(
                #[trigger] p.user_infos@[k].coins@[c],
                now,
            ),
    ensures
        rewards_sweep(p.user_infos@, p.apr@, now, p.total_rewards@, p.user_infos@.len()) == Some(
            (p.total_rewards@, false),
        ),
        forall|k: int|
            0 <= k < p.user_infos@.len() ==> accrued_row(#[trigger] p.user_infos@[k].coins@, p.apr@, now)
                == p.user_infos@[k].coins@,
{
    lemma_rewards_sweep_idle(p.user_infos@, p.apr@, now, p.total_rewards@, p.user_infos@.len());
    assert forall|k: int| 0 <= k < p.user_infos@.len() implies accrued_row(
        #[trigger] p.user_infos@[k].coins@,
        p.apr@,
        now,
    ) == p.user_infos@[k].coins@ by {
        let row = p.user_infos@[k].coins@;
        assert(crate::ledger::user_row_wf(row));
        assert(accrued_row(row, p.apr@, now) =~= row);
    }
}

/// A qualification epoch deletes exactly the records with no unqualified
/// amount, and a surviving record has each unqualified amount promoted to
/// qualified and its unqualified part emptied.
pub proof fn pot_epoch_promotes_or_removes(s: Seq<PotRecord>, k: int)
    requires
        0 <= k < s.len(),
    ensures
        pot_keeps(s[k].coins@) <==> exists|j: int|
            0 <= j < pot_survivors(s, s.len()).len() && pot_survivors(s, s.len())[j] == k,
        !pot_keeps(s[k].coins@) ==> forall|c: int| 0 <= c < s[k].coins@.len() ==> (#[trigger] s[k].coins@[c]).amount == 0,
        forall|c: int|
            0 <= c < s[k].coins@.len() ==> (#[trigger] promoted(s[k].coins@)[c]).amount == 0
                && promoted(s[k].coins@)[c].qualified_amount == s[k].coins@[c].amount,
{
    lemma_pot_survivors(s, s.len());
    assert(pot_keeps(s[k].coins@) <==> exists|j: int|
        0 <= j < pot_survivors(s, s.len()).len() && pot_survivors(s, s.len())[j] == k);
}

} // verus!
