use vstd::prelude::*;
use crate::coins::COIN_COUNT;
use crate::msg::{copy_u128s, AmountInfo};

verus! {

/// Most samples the history keeps; the oldest is evicted beyond this.
pub const HISTORY_CAP: usize = 12;

/// Every sample holds one amount and one reward per coin, and the window
/// holds at most `HISTORY_CAP` samples.
pub open spec fn history_wf(h: Seq<AmountInfo>) -> bool {
    &&& h.len() <= HISTORY_CAP
    &&& forall|i: int|
        0 <= i < h.len() ==> (#[trigger] h[i]).amount@.len() == COIN_COUNT && h[i].reward@.len()
            == COIN_COUNT
}

/// `h` with `x` appended, the oldest sample dropped once over the cap.
pub open spec fn capped_push(h: Seq<AmountInfo>, x: AmountInfo) -> Seq<AmountInfo> {
    if h.len() + 1 > HISTORY_CAP {
        h.push(x).drop_first()
    } else {
        h.push(x)
    }
}

/// Appends a sample and evicts the oldest one once the window is over its cap.
pub fn push_capped(h: &mut Vec<AmountInfo>, x: AmountInfo)
    ensures
        final(h)@ == capped_push(old(h)@, x),
{
    h.push(x);
    if h.len() > HISTORY_CAP {
        h.remove(0);
        assert(final(h)@ =~= old(h)@.push(x).drop_first());
    }
}

/// Per-coin totals of the latest sample, zero where there is none yet.
pub open spec fn last_amounts(h: Seq<AmountInfo>) -> Seq<u128> {
    if h.len() == 0 {
        Seq::new(COIN_COUNT as nat, |i: int| 0u128)
    } else {
        h.last().amount@
    }
}

/// Deposited total of coin `c` after moving `amount` in (`add`) or out.
pub open spec fn moved_total(h: Seq<AmountInfo>, c: int, amount: u128, add: bool) -> int {
    if add {
        last_amounts(h)[c] + amount
    } else {
        last_amounts(h)[c] - amount
    }
}

/// The moved total stays within `u128`.
pub open spec fn move_fits(h: Seq<AmountInfo>, c: int, amount: u128, add: bool) -> bool {
    0 <= moved_total(h, c, amount, add) <= u128::MAX
}

/// `s` is the sample that records a move of `amount` of coin `c` at `now`:
/// the latest totals with coin `c` moved, and the latest rewards with coin
/// `c` stamped to `total_reward` (all rewards zero in the first sample).
pub open spec fn is_move_sample(
    h: Seq<AmountInfo>,
    c: int,
    amount: u128,
    add: bool,
    total_reward: u128,
    now: u64,
    s: AmountInfo,
) -> bool {
    &&& s.time == now
    &&& s.amount@ == last_amounts(h).update(c, moved_total(h, c, amount, add) as u128)
    &&& s.reward@ == if h.len() == 0 {
        Seq::new(COIN_COUNT as nat, |i: int| 0u128)
    } else {
        h.last().reward@.update(c, total_reward)
    }
}

/// Builds the sample that records a move of `amount` of coin `c`; `None`
/// where the coin's deposited total would leave `u128`.
pub fn move_sample(
    h: &Vec<AmountInfo>,
    c: usize,
    amount: u128,
    add: bool,
    total_reward: u128,
    now: u64,
) -> (r: Option<AmountInfo>)
    requires
        history_wf(h@),
        c < COIN_COUNT,
    ensures
        match r {
            Some(s) => move_fits(h@, c as int, amount, add) && is_move_sample(
                h@,
                c as int,
                amount,
                add,
                total_reward,
                now,
                s,
            ),
            None => !move_fits(h@, c as int, amount, add),
        },
{
    let empty = h.len() == 0;
    let mut amounts: Vec<u128>;
    let mut rewards: Vec<u128>;
    if empty {
        amounts = vec![0u128; COIN_COUNT];
        rewards = vec![0u128; COIN_COUNT];
        assert(amounts@ =~= last_amounts(h@));
    } else {
        let last = &h[h.len() - 1];
        amounts = copy_u128s(&last.amount);
        rewards = copy_u128s(&last.reward);
    }
    let base = amounts[c];
    let moved: u128;
    if add {
        match base.checked_add(amount) {
            Some(v) => {
                moved = v;
            },
            None => {
                return None;
            },
        }
    } else {
        if base < amount {
            return None;
        }
        moved = base - amount;
    }
    amounts[c] = moved;
    if !empty {
        rewards[c] = total_reward;
    }
    proof {
        if empty {
            assert(rewards@ =~= Seq::new(COIN_COUNT as nat, |i: int| 0u128));
        }
    }
    Some(AmountInfo { amount: amounts, reward: rewards, time: now })
}

/// `s` is the sample that stamps new cumulative rewards on the latest sample,
/// keeping its totals and time.
pub open spec fn is_reward_sample(h: Seq<AmountInfo>, totals: Seq<u128>, s: AmountInfo) -> bool {
    &&& s.amount@ == h.last().amount@
    &&& s.reward@ == totals
    &&& s.time == h.last().time
}

/// Builds the sample that stamps `totals` on the latest sample.
pub fn reward_sample(h: &Vec<AmountInfo>, totals: &Vec<u128>) -> (r: AmountInfo)
    requires
        h@.len() > 0,
    ensures
        is_reward_sample(h@, totals@, r),
{
    let last = &h[h.len() - 1];
    AmountInfo { amount: copy_u128s(&last.amount), reward: copy_u128s(totals), time: last.time }
}

/// Appending keeps the window within its cap, and once over it the oldest
/// sample is the one evicted.
pub proof fn lemma_history_window(h: Seq<AmountInfo>, x: AmountInfo)
    requires
        h.len() <= HISTORY_CAP,
    ensures
        capped_push(h, x).len() <= HISTORY_CAP,
        capped_push(h, x).last() == x,
        h.len() == HISTORY_CAP ==> capped_push(h, x) == h.drop_first().push(x),
        h.len() < HISTORY_CAP ==> capped_push(h, x) == h.push(x),
{
    if h.len() == HISTORY_CAP {
        assert(h.push(x).drop_first() =~= h.drop_first().push(x));
    }
}

} // verus!
