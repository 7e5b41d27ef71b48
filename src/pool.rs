use vstd::prelude::*;
use crate::accrual::{lemma_rewards_sweep_fails, row_accrual_fits, row_accrues, row_totals, rewards_sweep};
use crate::coins::{coin_index, getcoin_id, is_coin, COIN_COUNT};
use crate::error::PoolError;
use crate::farm::{
    capped_withdraw_value, farm_active, farm_cut, farm_cut_of, farm_price_from, farm_price_of,
    farm_sweep, farm_upsert, lemma_farm_sweep_fails, row_share, row_share_of, update_farm_info,
    usd_total, usd_total_of, FARM_AMOUNT, FARM_PERIOD,
};
use crate::history::{
    capped_push, history_wf, is_move_sample, is_reward_sample, move_fits, move_sample,
    push_capped, reward_sample,
};
use crate::keyed::{find_key, has_key, key_index, keys_unique, Keyed};
use crate::ledger::{
    accrual_due, accrual_fits, accrue_one, accrued, accrued_row, covers, deposited,
    drawn_from_principal, lemma_pot_survivors, pot_deposit_fits, pot_deposited, pot_keeps,
    pot_ledger_wf, pot_put, pot_row, pot_row_of, pot_survivors, pot_withdrawn, promoted,
    put_pot_row, put_user_row, reserve_ok, reserved, user_ledger_wf, user_put, user_row,
    user_row_of, user_row_wf, withdrawn,
};
use crate::msg::{
    copy_farms, copy_pot_row, copy_u128s, copy_user_row, AmountInfo, FarmInfo, PotInfo,
    PotRecord, Status, UserInfo, UserRecord,
};

verus! {

/// Initial yearly rate, in basis points, of the four stablecoin slots.
pub const DEFAULT_APR_STABLE: u32 = 1487;
/// Initial yearly rate, in basis points, of the three other slots.
pub const DEFAULT_APR_VOLATILE: u32 = 987;
/// Initial unit price of the farmed token.
pub const FARM_BASE_PRICE: u128 = 25;

/// An outbound transfer that the host is to perform: `amount` of the token
/// contract `token`, to `receiver`.
pub struct Transfer {
    pub token: String,
    pub receiver: String,
    pub amount: u128,
}

/// The whole state of the pool.
pub struct Pool {
    pub owner: String,
    pub treasury: String,
    /// Yearly rate per coin, in basis points.
    pub apr: Vec<u32>,
    pub user_infos: Vec<UserRecord>,
    /// Cumulative reward accrued per coin.
    pub total_rewards: Vec<u128>,
    pub amount_history: Vec<AmountInfo>,
    pub farm_starttime: u64,
    pub farm_price: u128,
    pub farm_infos: Vec<FarmInfo>,
    pub total_farmed: u128,
    pub pot_infos: Vec<PotRecord>,
    /// Token contract of each coin.
    pub token_address: Vec<String>,
}

impl Pool {
    /// Per-coin tables have one slot per coin, every ledger has unique
    /// accounts, no reservation exceeds principal plus reward, and the history
    /// is within its cap.
    pub open spec fn wf(&self) -> bool {
        &&& self.apr@.len() == COIN_COUNT
        &&& self.total_rewards@.len() == COIN_COUNT
        &&& self.token_address@.len() == COIN_COUNT
        &&& user_ledger_wf(self.user_infos@)
        &&& pot_ledger_wf(self.pot_infos@)
        &&& keys_unique(self.farm_infos@)
        &&& history_wf(self.amount_history@)
    }

    /// Everything but the three ledgers and the history is as in `p`.
    pub open spec fn same_settings(&self, p: Pool) -> bool {
        &&& self.owner == p.owner
        &&& self.treasury == p.treasury
        &&& self.apr == p.apr
        &&& self.token_address == p.token_address
        &&& self.farm_starttime == p.farm_starttime
        &&& self.farm_price == p.farm_price
    }

    /// A fresh pool. Without an explicit owner, `current_account` (the pool's
    /// own account) owns it; the farming campaign starts at `now`.
    pub fn new(owner: Option<String>, treasury: String, current_account: String, now: u64) -> (r: Pool)
        ensures
            r.wf(),
            r.owner == match owner {
                Some(o) => o,
                None => current_account,
            },
            r.treasury == treasury,
            r.apr@ == seq![1487u32, 1487, 1487, 1487, 987, 987, 987],
            r.user_infos@.len() == 0,
            r.total_rewards@ == Seq::new(COIN_COUNT as nat, |i: int| 0u128),
            r.amount_history@.len() == 0,
            r.farm_starttime == now,
            r.farm_price == FARM_BASE_PRICE,
            r.farm_infos@.len() == 0,
            r.total_farmed == 0,
            r.pot_infos@.len() == 0,
            r.token_address@.len() == COIN_COUNT,
            forall|i: int| 0 <= i < COIN_COUNT ==> (#[trigger] r.token_address@[i])@ == "ft.alenzertest.testnet"@,
    {
        let owner = match owner {
            Some(o) => o,
            None => current_account,
        };
        let mut token_address: Vec<String> = Vec::new();
        let mut i: usize = 0;
        while i < COIN_COUNT
            invariant
                i <= COIN_COUNT,
                token_address@.len() == i,
                forall|j: int| 0 <= j < i ==> (#[trigger] token_address@[j])@ == "ft.alenzertest.testnet"@,
            decreases COIN_COUNT - i,
        {
            token_address.push("ft.alenzertest.testnet".to_owned());
            i = i + 1;
        }
        let apr = vec![
            DEFAULT_APR_STABLE,
            DEFAULT_APR_STABLE,
            DEFAULT_APR_STABLE,
            DEFAULT_APR_STABLE,
            DEFAULT_APR_VOLATILE,
            DEFAULT_APR_VOLATILE,
            DEFAULT_APR_VOLATILE,
        ];
        let total_rewards = vec![0u128; COIN_COUNT];
        assert(total_rewards@ =~= Seq::new(COIN_COUNT as nat, |i: int| 0u128));
        assert(apr@ =~= seq![1487u32, 1487, 1487, 1487, 987, 987, 987]);
        Pool {
            owner,
            treasury,
            apr,
            user_infos: Vec::new(),
            total_rewards,
            amount_history: Vec::new(),
            farm_starttime: now,
            farm_price: FARM_BASE_PRICE,
            farm_infos: Vec::new(),
            total_farmed: 0,
            pot_infos: Vec::new(),
            token_address,
        }
    }

    /// Empties the history and the balance and qualification ledgers.
    pub fn delete_all(&mut self)
        requires
            old(self).wf(),
        ensures
            final(self).wf(),
            final(self).same_settings(*old(self)),
            final(self).amount_history@.len() == 0,
            final(self).user_infos@.len() == 0,
            final(self).pot_infos@.len() == 0,
            final(self).farm_infos == old(self).farm_infos,
            final(self).total_rewards == old(self).total_rewards,
            final(self).total_farmed == old(self).total_farmed,
    {
        self.amount_history.clear();
        self.user_infos.clear();
        self.pot_infos.clear();
    }

    /// Succeeds only for the owner.
    pub fn check_onlyowner(&self, caller: &String) -> (r: Result<(), PoolError>)
        ensures
            r.is_ok() <==> caller@ == self.owner@,
            r.is_err() ==> r == Err::<(), PoolError>(PoolError::Unauthorized),
    {
        if *caller == self.owner {
            Ok(())
        } else {
            Err(PoolError::Unauthorized)
        }
    }

    /// Succeeds only for the treasury.
    pub fn check_onlytreasury(&self, caller: &String) -> (r: Result<(), PoolError>)
        ensures
            r.is_ok() <==> caller@ == self.treasury@,
            r.is_err() ==> r == Err::<(), PoolError>(PoolError::Unauthorized),
    {
        if *caller == self.treasury {
            Ok(())
        } else {
            Err(PoolError::Unauthorized)
        }
    }

    /// The owner replaces the owner and/or the treasury account.
    pub fn set_config(&mut self, caller: &String, owner: Option<String>, treasury: Option<String>) -> (r:
        Result<(), PoolError>)
        requires
            old(self).wf(),
        ensures
            final(self).wf(),
            r.is_ok() <==> caller@ == old(self).owner@,
            r.is_err() ==> r == Err::<(), PoolError>(PoolError::Unauthorized) && *final(self) == *old(self),
            r.is_ok() ==> {
                &&& final(self).owner == match owner {
                    Some(o) => o,
                    None => old(self).owner,
                }
                &&& final(self).treasury == match treasury {
                    Some(t) => t,
                    None => old(self).treasury,
                }
                &&& *final(self) == (Pool { owner: final(self).owner, treasury: final(self).treasury, ..*old(self) })
            },
    {
        self.check_onlyowner(caller)?;
        if let Some(account) = owner {
            self.owner = account;
        }
        if let Some(account) = treasury {
            self.treasury = account;
        }
        Ok(())
    }

    /// The owner sets the token contract of every coin.
    pub fn set_tokenaddress(&mut self, caller: &String, token: [String; COIN_COUNT]) -> (r: Result<(), PoolError>)
        requires
            old(self).wf(),
        ensures
            final(self).wf(),
            r.is_ok() <==> caller@ == old(self).owner@,
            r.is_err() ==> r == Err::<(), PoolError>(PoolError::Unauthorized) && *final(self) == *old(self),
            r.is_ok() ==> final(self).token_address@ == token@ && *final(self) == (Pool {
                token_address: final(self).token_address,
                ..*old(self)
            }),
    {
        self.check_onlyowner(caller)?;
        let mut addresses: Vec<String> = Vec::new();
        let mut i: usize = 0;
        while i < COIN_COUNT
            invariant
                i <= COIN_COUNT,
                addresses@ == token@.take(i as int),
            decreases COIN_COUNT - i,
        {
            addresses.push(token[i].clone());
            assert(token@.take(i + 1) =~= token@.take(i as int).push(token@[i as int]));
            i = i + 1;
        }
        assert(token@.take(COIN_COUNT as int) =~= token@);
        self.token_address = addresses;
        Ok(())
    }

    /// The owner sets the yearly rate of one coin.
    pub fn set_apr(&mut self, caller: &String, coin: String, apr: u32) -> (r: Result<(), PoolError>)
        requires
            old(self).wf(),
        ensures
            final(self).wf(),
            caller@ != old(self).owner@ ==> r == Err::<(), PoolError>(PoolError::Unauthorized),
            caller@ == old(self).owner@ && !is_coin(coin@) ==> r == Err::<(), PoolError>(
                PoolError::UnknownCoin,
            ),
            r.is_ok() <==> caller@ == old(self).owner@ && is_coin(coin@),
            r.is_err() ==> *final(self) == *old(self),
            r.is_ok() ==> final(self).apr@ == old(self).apr@.update(coin_index(coin@), apr)
                && *final(self) == (Pool { apr: final(self).apr, ..*old(self) }),
    {
        self.check_onlyowner(caller)?;
        let c = getcoin_id(coin)?;
        self.apr[c] = apr;
        Ok(())
    }

    /// The account reserves `amount` of a coin for its next executed
    /// withdrawal, replacing any earlier reservation.
    pub fn withdraw_reserve(&mut self, account: &String, coin: String, amount: u128) -> (r: Result<
        (),
        PoolError,
    >)
        requires
            old(self).wf(),
        ensures
            final(self).wf(),
            !crate::keyed::has_key(old(self).user_infos@, account@) ==> r == Err::<(), PoolError>(
                PoolError::UnknownAccount,
            ),
            crate::keyed::has_key(old(self).user_infos@, account@) && !is_coin(coin@) ==> r == Err::<
                (),
                PoolError,
            >(PoolError::UnknownCoin),
            crate::keyed::has_key(old(self).user_infos@, account@) && is_coin(coin@) ==> {
                let u = user_row(old(self).user_infos@, *account)[coin_index(coin@)];
                if amount > u.amount + u.reward_amount {
                    r == Err::<(), PoolError>(PoolError::InsufficientBalance)
                } else {
                    r.is_ok()
                }
            },
            r.is_err() ==> *final(self) == *old(self),
            r.is_ok() ==> {
                let row = user_row(old(self).user_infos@, *account);
                let c = coin_index(coin@);
                &&& user_put(old(self).user_infos@, final(self).user_infos@, *account, row.update(c, reserved(row[c], amount)))
                &&& *final(self) == (Pool { user_infos: final(self).user_infos, ..*old(self) })
            },
    {
        let idx = match find_key(&self.user_infos, account) {
            Some(i) => i,
            None => {
                return Err(PoolError::UnknownAccount);
            },
        };
        let c = getcoin_id(coin)?;
        let mut row = user_row_of(&self.user_infos, Some(idx), account);
        let u = row[c].copy();
        if !covers(&u, amount) {
            return Err(PoolError::InsufficientBalance);
        }
        row[c] = UserInfo { withdraw_reserve: amount, ..u };
        let ghost old_ledger = self.user_infos@;
        put_user_row(&mut self.user_infos, Some(idx), account, row);
        proof {
            let new_ledger = self.user_infos@;
            assert forall|k: int| 0 <= k < new_ledger.len() implies user_row_wf(#[trigger] new_ledger[k].coins@) by {
                if k != idx {
                    assert(new_ledger[k] == old_ledger[k]);
                } else {
                    assert forall|j: int| 0 <= j < new_ledger[k].coins@.len() implies reserve_ok(
                        #[trigger] new_ledger[k].coins@[j],
                    ) by {
                        if j != c {
                            assert(new_ledger[k].coins@[j] == old_ledger[k].coins@[j]);
                        }
                    }
                }
            }
        }
        Ok(())
    }

    /// A deposit of `amount` of coin `c` by `acc` stays within `u128` in
    /// the balance row, the coin's deposited total and the qualification row.
    pub open spec fn deposit_fits(&self, acc: String, c: int, amount: u128, qualified: bool) -> bool {
        &&& user_row(self.user_infos@, acc)[c].amount + amount <= u128::MAX
        &&& move_fits(self.amount_history@, c, amount, true)
        &&& pot_deposit_fits(pot_row(self.pot_infos@, acc)[c], amount, qualified)
    }

    /// `q` is `p` after `acc` deposited `amount` of coin `c` at `now`.
    pub open spec fn deposit_applied(
        q: Pool,
        p: Pool,
        acc: String,
        c: int,
        amount: u128,
        qualified: bool,
        now: u64,
    ) -> bool {
        let row = user_row(p.user_infos@, acc);
        let prow = pot_row(p.pot_infos@, acc);
        &&& user_put(p.user_infos@, q.user_infos@, acc, row.update(c, deposited(row[c], amount, now)))
        &&& q.amount_history@ == capped_push(p.amount_history@, q.amount_history@.last())
        &&& is_move_sample(p.amount_history@, c, amount, true, p.total_rewards@[c], now, q.amount_history@.last())
        &&& pot_put(p.pot_infos@, q.pot_infos@, acc, prow.update(c, pot_deposited(prow[c], amount, qualified)))
        &&& q == (Pool { user_infos: q.user_infos, amount_history: q.amount_history, pot_infos: q.pot_infos, ..p })
    }

    /// Appends `sample` to the history window.
    pub fn push_sample(&mut self, sample: AmountInfo)
        requires
            old(self).wf(),
            sample.amount@.len() == COIN_COUNT,
            sample.reward@.len() == COIN_COUNT,
        ensures
            final(self).wf(),
            final(self).amount_history@ == capped_push(old(self).amount_history@, sample),
            *final(self) == (Pool { amount_history: final(self).amount_history, ..*old(self) }),
    {
        let ghost sample_v = sample;
        push_capped(&mut self.amount_history, sample);
        proof {
            crate::history::lemma_history_window(old(self).amount_history@, sample_v);
            let h = self.amount_history@;
            assert forall|i: int| 0 <= i < h.len() implies (#[trigger] h[i]).amount@.len() == COIN_COUNT
                && h[i].reward@.len() == COIN_COUNT by {
                if old(self).amount_history@.len() + 1 > crate::history::HISTORY_CAP {
                    assert(h[i] == old(self).amount_history@.push(sample_v)[i + 1]);
                } else {
                    assert(h[i] == old(self).amount_history@.push(sample_v)[i]);
                }
            }
        }
    }

    /// Records `amount` of coin `c` moving in (`add`) or out of the pool as a
    /// new history sample.
    pub fn append_amount_history(&mut self, c: usize, amount: u128, add: bool, now: u64) -> (r: Result<(), PoolError>)
        requires
            old(self).wf(),
            c < COIN_COUNT,
        ensures
            final(self).wf(),
            r.is_ok() <==> move_fits(old(self).amount_history@, c as int, amount, add),
            r.is_err() ==> r == Err::<(), PoolError>(PoolError::ArithmeticOverflow) && *final(self) == *old(self),
            r.is_ok() ==> {
                &&& final(self).amount_history@ == capped_push(old(self).amount_history@, final(self).amount_history@.last())
                &&& is_move_sample(old(self).amount_history@, c as int, amount, add, old(self).total_rewards@[c as int], now, final(self).amount_history@.last())
                &&& *final(self) == (Pool { amount_history: final(self).amount_history, ..*old(self) })
            },
    {
        let sample = match move_sample(&self.amount_history, c, amount, add, self.total_rewards[c], now) {
            Some(s) => s,
            None => {
                return Err(PoolError::ArithmeticOverflow);
            },
        };
        self.push_sample(sample);
        Ok(())
    }

    /// Adds `amount` of coin `c` to the qualification row of `account`, to
    /// the qualified part where `qualified`.
    pub fn deposit_potinfo(&mut self, account: &String, c: usize, amount: u128, qualified: bool)
        requires
            old(self).wf(),
            c < COIN_COUNT,
            pot_deposit_fits(pot_row(old(self).pot_infos@, *account)[c as int], amount, qualified),
        ensures
            final(self).wf(),
            ({
                let prow = pot_row(old(self).pot_infos@, *account);
                pot_put(old(self).pot_infos@, final(self).pot_infos@, *account, prow.update(c as int, pot_deposited(prow[c as int], amount, qualified)))
            }),
            *final(self) == (Pool { pot_infos: final(self).pot_infos, ..*old(self) }),
    {
        let idx = find_key(&self.pot_infos, account);
        let mut row = pot_row_of(&self.pot_infos, idx, account);
        let p = row[c].copy();
        if qualified {
            row[c] = PotInfo { qualified_amount: p.qualified_amount + amount, ..p };
        } else {
            row[c] = PotInfo { amount: p.amount + amount, ..p };
        }
        let ghost old_ledger = self.pot_infos@;
        let ghost row_v = row@;
        put_pot_row(&mut self.pot_infos, idx, account, row);
        proof {
            let t = self.pot_infos@;
            assert forall|k: int| 0 <= k < t.len() implies (#[trigger] t[k]).coins@.len() == COIN_COUNT by {
                if k < old_ledger.len() && t[k] == old_ledger[k] {
                } else {
                    assert(t[k].coins@ == row_v);
                }
            }
        }
    }

    /// `account` deposits `amount` of `coin` at `now`; `qualified` says which
    /// part of the qualification row it counts to. Returns the transfer of the
    /// deposit to the treasury that the host is to make.
    pub fn deposit(&mut self, account: &String, coin: String, amount: u128, qualified: bool, now: u64) -> (r: Result<
        Transfer,
        PoolError,
    >)
        requires
            old(self).wf(),
        ensures
            final(self).wf(),
            !is_coin(coin@) ==> r == Err::<Transfer, PoolError>(PoolError::UnknownCoin),
            is_coin(coin@) && amount == 0 ==> r == Err::<Transfer, PoolError>(PoolError::ZeroAmount),
            is_coin(coin@) && amount > 0 ==> if old(self).deposit_fits(*account, coin_index(coin@), amount, qualified) {
                r.is_ok()
            } else {
                r == Err::<Transfer, PoolError>(PoolError::ArithmeticOverflow)
            },
            r.is_err() ==> *final(self) == *old(self),
            r.is_ok() ==> {
                let c = coin_index(coin@);
                let t = r->Ok_0;
                &&& Pool::deposit_applied(*final(self), *old(self), *account, c, amount, qualified, now)
                &&& t.token == old(self).token_address@[c]
                &&& t.receiver == old(self).treasury
                &&& t.amount == amount
            },
    {
        let c = getcoin_id(coin)?;
        if amount == 0 {
            return Err(PoolError::ZeroAmount);
        }
        let uidx = find_key(&self.user_infos, account);
        let mut row = user_row_of(&self.user_infos, uidx, account);
        let u = row[c].copy();
        if u.amount > u128::MAX - amount {
            return Err(PoolError::ArithmeticOverflow);
        }
        let pidx = find_key(&self.pot_infos, account);
        let prow = pot_row_of(&self.pot_infos, pidx, account);
        let fits = if qualified {
            prow[c].qualified_amount <= u128::MAX - amount
        } else {
            prow[c].amount <= u128::MAX - amount
        };
        if !fits {
            return Err(PoolError::ArithmeticOverflow);
        }
        self.append_amount_history(c, amount, true, now)?;
        row[c] = UserInfo { amount: u.amount + amount, deposit_time: now, ..u };
        let ghost old_ledger = self.user_infos@;
        let ghost row_v = row@;
        proof {
            assert(row_v =~= user_row(old_ledger, *account).update(c as int, deposited(user_row(old_ledger, *account)[c as int], amount, now)));
        }
        put_user_row(&mut self.user_infos, uidx, account, row);
        proof {
            let t = self.user_infos@;
            assert forall|k: int| 0 <= k < t.len() implies user_row_wf(#[trigger] t[k].coins@) by {
                if k < old_ledger.len() && t[k] == old_ledger[k] {
                } else {
                    assert(t[k].coins@ == row_v);
                    let base = user_row(old_ledger, *account);
                    assert(user_row_wf(base)) by {
                        if crate::keyed::has_key(old_ledger, account@) {
                            let i = crate::keyed::key_index(old_ledger, account@);
                            assert(user_row_wf(old_ledger[i].coins@));
                        } else {
                            assert(forall|j: int| 0 <= j < COIN_COUNT ==> reserve_ok(#[trigger] base[j]));
                        }
                    }
                    assert forall|j: int| 0 <= j < row_v.len() implies reserve_ok(#[trigger] row_v[j]) by {
                        if j != c {
                            assert(row_v[j] == base[j]);
                        }
                    }
                }
            }
        }
        self.deposit_potinfo(account, c, amount, qualified);
        Ok(Transfer { token: self.token_address[c].clone(), receiver: self.treasury.clone(), amount })
    }

    /// The farm give-back of a withdrawal by `acc` applies: the campaign is
    /// running, `acc` has farmed, and its coins are worth something.
    pub open spec fn farm_claw_applies(&self, acc: String, prices: Seq<u128>, now: u64) -> bool {
        &&& farm_active(self.farm_starttime, now)
        &&& has_key(self.farm_infos@, acc@)
        &&& usd_total(user_row(self.user_infos@, acc), prices, COIN_COUNT as nat) > 0
    }

    /// Farm balance given back when `drawn` of coin `c` leaves `acc`.
    pub open spec fn farm_claw(&self, acc: String, c: int, drawn: u128, prices: Seq<u128>) -> int {
        farm_cut(
            self.farm_infos@[key_index(self.farm_infos@, acc@)].amount,
            usd_total(user_row(self.user_infos@, acc), prices, COIN_COUNT as nat),
            drawn,
            prices[c],
        )
    }

    /// The farm give-back stays within `u128` and within the farmed total.
    pub open spec fn farm_claw_fits(&self, acc: String, c: int, drawn: u128, prices: Seq<u128>, now: u64) -> bool {
        let total = usd_total(user_row(self.user_infos@, acc), prices, COIN_COUNT as nat);
        let f = self.farm_infos@[key_index(self.farm_infos@, acc@)].amount;
        farm_active(self.farm_starttime, now) && has_key(self.farm_infos@, acc@) ==> {
            &&& total <= u128::MAX
            &&& total > 0 ==> {
                &&& capped_withdraw_value(drawn, prices[c], total) * f <= u128::MAX
                &&& self.farm_claw(acc, c, drawn, prices) <= self.total_farmed
            }
        }
    }

    /// `q` is `p` with the farm give-back of a withdrawal applied.
    pub open spec fn farm_claw_applied(q: Pool, p: Pool, acc: String, c: int, drawn: u128, prices: Seq<u128>, now: u64) -> bool {
        if p.farm_claw_applies(acc, prices, now) {
            let i = key_index(p.farm_infos@, acc@);
            let cut = p.farm_claw(acc, c, drawn, prices);
            &&& q.farm_infos@ == p.farm_infos@.update(i, FarmInfo { amount: (p.farm_infos@[i].amount - cut) as u128, ..p.farm_infos@[i] })
            &&& q.total_farmed == p.total_farmed - cut
            &&& q == (Pool { farm_infos: q.farm_infos, total_farmed: q.total_farmed, ..p })
        } else {
            q == p
        }
    }

    /// Gives back farm reward of `account` in proportion to the share of its
    /// value that a withdrawal of `drawn` of coin `c` takes out.
    pub fn farm_withdraw(&mut self, account: &String, c: usize, drawn: u128, price: &[u128; COIN_COUNT], now: u64) -> (r: Result<(), PoolError>)
        requires
            old(self).wf(),
            c < COIN_COUNT,
            has_key(old(self).user_infos@, account@),
        ensures
            final(self).wf(),
            r.is_ok() <==> old(self).farm_claw_fits(*account, c as int, drawn, price@, now),
            r.is_err() ==> r == Err::<(), PoolError>(PoolError::ArithmeticOverflow) && *final(self) == *old(self),
            r.is_ok() ==> Pool::farm_claw_applied(*final(self), *old(self), *account, c as int, drawn, price@, now),
    {
        let start = self.farm_starttime;
        if now < start || now as u128 > start as u128 + FARM_PERIOD as u128 {
            return Ok(());
        }
        let fidx = match find_key(&self.farm_infos, account) {
            Some(i) => i,
            None => {
                return Ok(());
            },
        };
        let uidx = find_key(&self.user_infos, account);
        let row = user_row_of(&self.user_infos, uidx, account);
        proof {
            crate::keyed::lemma_key_index(self.user_infos@, uidx.unwrap() as int);
            assert(user_row_wf(self.user_infos@[uidx.unwrap() as int].coins@));
        }
        let total = match usd_total_of(&row, price) {
            Some(v) => v,
            None => {
                return Err(PoolError::ArithmeticOverflow);
            },
        };
        if total == 0 {
            return Ok(());
        }
        let f = self.farm_infos[fidx].copy();
        let cut = match farm_cut_of(f.amount, total, drawn, price[c]) {
            Some(v) => v,
            None => {
                return Err(PoolError::ArithmeticOverflow);
            },
        };
        if cut > self.total_farmed {
            return Err(PoolError::ArithmeticOverflow);
        }
        let rec = FarmInfo { amount: f.amount - cut, ..f };
        proof {
            crate::keyed::lemma_update_same_key(self.farm_infos@, fidx as int, rec);
        }
        self.farm_infos[fidx] = rec;
        self.total_farmed = self.total_farmed - cut;
        Ok(())
    }

    /// Takes a withdrawal of `amount` (already drawn from principal) off the
    /// qualification row of `account`, where it has one.
    pub fn withdraw_potinfo(&mut self, account: &String, c: usize, amount: u128)
        requires
            old(self).wf(),
            c < COIN_COUNT,
        ensures
            final(self).wf(),
            has_key(old(self).pot_infos@, account@) ==> {
                let prow = pot_row(old(self).pot_infos@, *account);
                pot_put(old(self).pot_infos@, final(self).pot_infos@, *account, prow.update(c as int, pot_withdrawn(prow[c as int], amount)))
            },
            !has_key(old(self).pot_infos@, account@) ==> final(self).pot_infos == old(self).pot_infos,
            *final(self) == (Pool { pot_infos: final(self).pot_infos, ..*old(self) }),
    {
        let idx = match find_key(&self.pot_infos, account) {
            Some(i) => i,
            None => {
                return;
            },
        };
        let mut row = pot_row_of(&self.pot_infos, Some(idx), account);
        let p = row[c].copy();
        if p.qualified_amount >= amount {
            row[c] = PotInfo { qualified_amount: p.qualified_amount - amount, ..p };
        } else if p.amount >= amount {
            row[c] = PotInfo { qualified_amount: 0, amount: p.amount - amount, ..p };
        } else {
            row[c] = PotInfo { qualified_amount: 0, amount: 0, ..p };
        }
        let ghost old_ledger = self.pot_infos@;
        let ghost row_v = row@;
        proof {
            assert(row_v =~= pot_row(old_ledger, *account).update(c as int, pot_withdrawn(pot_row(old_ledger, *account)[c as int], amount)));
        }
        put_pot_row(&mut self.pot_infos, Some(idx), account, row);
        proof {
            let t = self.pot_infos@;
            assert forall|k: int| 0 <= k < t.len() implies (#[trigger] t[k]).coins@.len() == COIN_COUNT by {
                if k != idx {
                    assert(t[k] == old_ledger[k]);
                } else {
                    assert(t[k].coins@ == row_v);
                }
            }
        }
    }

    /// A withdrawal of `amount` of coin `c` by `acc` stays within the range
    /// of every quantity it changes.
    pub open spec fn withdraw_fits(&self, acc: String, c: int, amount: u128, prices: Seq<u128>, now: u64) -> bool {
        let u = user_row(self.user_infos@, acc)[c];
        let d = drawn_from_principal(u, amount);
        let new_total = self.total_rewards@[c] - (amount - d);
        &&& new_total >= 0
        &&& move_fits(self.amount_history@, c, d, false)
        &&& self.farm_claw_fits(acc, c, d, prices, now)
    }

    /// `q` is `p` after the withdrawal of `amount` of coin `c` from `acc`.
    pub open spec fn withdraw_applied(q: Pool, p: Pool, acc: String, c: int, amount: u128, prices: Seq<u128>, now: u64) -> bool {
        let row = user_row(p.user_infos@, acc);
        let prow = pot_row(p.pot_infos@, acc);
        let u = row[c];
        let d = drawn_from_principal(u, amount);
        &&& user_put(p.user_infos@, q.user_infos@, acc, row.update(c, withdrawn(u, amount)))
        &&& q.total_rewards@ == p.total_rewards@.update(c, (p.total_rewards@[c] - (amount - d)) as u128)
        &&& q.amount_history@ == capped_push(p.amount_history@, q.amount_history@.last())
        &&& is_move_sample(p.amount_history@, c, d, false, q.total_rewards@[c], now, q.amount_history@.last())
        &&& if has_key(p.pot_infos@, acc@) {
            pot_put(p.pot_infos@, q.pot_infos@, acc, prow.update(c, pot_withdrawn(prow[c], d)))
        } else {
            q.pot_infos == p.pot_infos
        }
        &&& if p.farm_claw_applies(acc, prices, now) {
            let i = key_index(p.farm_infos@, acc@);
            let cut = p.farm_claw(acc, c, d, prices);
            &&& q.farm_infos@ == p.farm_infos@.update(i, FarmInfo { amount: (p.farm_infos@[i].amount - cut) as u128, ..p.farm_infos@[i] })
            &&& q.total_farmed == p.total_farmed - cut
        } else {
            q.farm_infos == p.farm_infos && q.total_farmed == p.total_farmed
        }
        &&& q == (Pool {
            user_infos: q.user_infos,
            total_rewards: q.total_rewards,
            amount_history: q.amount_history,
            pot_infos: q.pot_infos,
            farm_infos: q.farm_infos,
            total_farmed: q.total_farmed,
            ..p
        })
    }

    /// The treasury executes a reserved withdrawal of `amount` of `coin` from
    /// `account`, at oracle prices `price`. Principal goes first, then reward;
    /// the reservation is cleared. Returns the part drawn from principal.
    pub fn withdraw(
        &mut self,
        caller: &String,
        account: &String,
        coin: String,
        amount: u128,
        price: [u128; COIN_COUNT],
        now: u64,
    ) -> (r: Result<u128, PoolError>)
        requires
            old(self).wf(),
        ensures
            final(self).wf(),
            r.is_err() ==> *final(self) == *old(self),
            caller@ != old(self).treasury@ ==> r == Err::<u128, PoolError>(PoolError::Unauthorized),
            caller@ == old(self).treasury@ && !has_key(old(self).user_infos@, account@) ==> r == Err::<u128, PoolError>(PoolError::UnknownAccount),
            caller@ == old(self).treasury@ && has_key(old(self).user_infos@, account@) && !is_coin(coin@) ==> r == Err::<u128, PoolError>(PoolError::UnknownCoin),
            caller@ == old(self).treasury@ && has_key(old(self).user_infos@, account@) && is_coin(coin@) ==> {
                let c = coin_index(coin@);
                let u = user_row(old(self).user_infos@, *account)[c];
                if amount > u.withdraw_reserve {
                    r == Err::<u128, PoolError>(PoolError::ReservationTooSmall)
                } else if amount > u.amount + u.reward_amount {
                    r == Err::<u128, PoolError>(PoolError::InsufficientBalance)
                } else if !old(self).withdraw_fits(*account, c, amount, price@, now) {
                    r == Err::<u128, PoolError>(PoolError::ArithmeticOverflow)
                } else {
                    &&& r == Ok::<u128, PoolError>(drawn_from_principal(u, amount))
                    &&& Pool::withdraw_applied(*final(self), *old(self), *account, c, amount, price@, now)
                }
            },
    {
        self.check_onlytreasury(caller)?;
        let uidx = match find_key(&self.user_infos, account) {
            Some(i) => i,
            None => {
                return Err(PoolError::UnknownAccount);
            },
        };
        let c = getcoin_id(coin)?;
        let mut row = user_row_of(&self.user_infos, Some(uidx), account);
        let u = row[c].copy();
        if u.withdraw_reserve < amount {
            return Err(PoolError::ReservationTooSmall);
        }
        if !covers(&u, amount) {
            return Err(PoolError::InsufficientBalance);
        }
        let drawn = if u.amount >= amount {
            amount
        } else {
            u.amount
        };
        let from_reward = amount - drawn;
        if self.total_rewards[c] < from_reward {
            return Err(PoolError::ArithmeticOverflow);
        }
        let new_total = self.total_rewards[c] - from_reward;
        let sample = match move_sample(&self.amount_history, c, drawn, false, new_total, now) {
            Some(s) => s,
            None => {
                return Err(PoolError::ArithmeticOverflow);
            },
        };
        let ghost p0 = *self;
        self.farm_withdraw(account, c, drawn, &price, now)?;
        let ghost p1 = *self;
        self.total_rewards.set(c, new_total);
        proof {
            assert(self.amount_history == p0.amount_history);
        }
        self.push_sample(sample);
        self.withdraw_potinfo(account, c, drawn);
        if u.amount >= amount {
            row[c] = UserInfo { amount: u.amount - amount, withdraw_reserve: 0, ..u };
        } else {
            row[c] = UserInfo { amount: 0, reward_amount: u.reward_amount - from_reward, withdraw_reserve: 0, ..u };
        }
        let ghost old_ledger = self.user_infos@;
        let ghost row_v = row@;
        proof {
            assert(old_ledger == p0.user_infos@);
            assert(row_v =~= user_row(old_ledger, *account).update(c as int, withdrawn(user_row(old_ledger, *account)[c as int], amount)));
        }
        put_user_row(&mut self.user_infos, Some(uidx), account, row);
        proof {
            let t = self.user_infos@;
            assert forall|k: int| 0 <= k < t.len() implies user_row_wf(#[trigger] t[k].coins@) by {
                if k != uidx {
                    assert(t[k] == old_ledger[k]);
                } else {
                    assert(t[k].coins@ == row_v);
                    let base = old_ledger[k].coins@;
                    assert(user_row_wf(base));
                    assert forall|j: int| 0 <= j < row_v.len() implies reserve_ok(#[trigger] row_v[j]) by {
                        if j != c {
                            assert(row_v[j] == base[j]);
                        }
                    }
                }
            }
            assert(self.total_rewards@ =~= p0.total_rewards@.update(c as int, new_total));
        }
        Ok(drawn)
    }

    /// The treasury accrues reward at `now` on every row of every account
    /// whose reward window has passed; where anything accrued and a history
    /// exists, a sample with the new cumulative rewards is appended.
    pub fn rewards(&mut self, caller: &String, now: u64) -> (r: Result<(), PoolError>)
        requires
            old(self).wf(),
        ensures
            final(self).wf(),
            r.is_err() ==> *final(self) == *old(self),
            caller@ != old(self).treasury@ ==> r == Err::<(), PoolError>(PoolError::Unauthorized),
            caller@ == old(self).treasury@ ==> match rewards_sweep(
                old(self).user_infos@,
                old(self).apr@,
                now,
                old(self).total_rewards@,
                old(self).user_infos@.len(),
            ) {
                None => r == Err::<(), PoolError>(PoolError::ArithmeticOverflow),
                Some(st) => {
                    &&& r.is_ok()
                    &&& final(self).user_infos@.len() == old(self).user_infos@.len()
                    &&& forall|k: int| 0 <= k < old(self).user_infos@.len() ==> {
                        &&& (#[trigger] final(self).user_infos@[k]).account == old(self).user_infos@[k].account
                        &&& final(self).user_infos@[k].coins@ == accrued_row(old(self).user_infos@[k].coins@, old(self).apr@, now)
                    }
                    &&& final(self).total_rewards@ == st.0
                    &&& if st.1 && old(self).amount_history@.len() > 0 {
                        &&& final(self).amount_history@ == capped_push(old(self).amount_history@, final(self).amount_history@.last())
                        &&& is_reward_sample(old(self).amount_history@, st.0, final(self).amount_history@.last())
                    } else {
                        final(self).amount_history == old(self).amount_history
                    }
                    &&& *final(self) == (Pool {
                        user_infos: final(self).user_infos,
                        total_rewards: final(self).total_rewards,
                        amount_history: final(self).amount_history,
                        ..*old(self)
                    })
                },
            },
    {
        self.check_onlytreasury(caller)?;
        let ghost users = self.user_infos@;
        let ghost aprs = self.apr@;
        let ghost totals0 = self.total_rewards@;
        let mut new_users: Vec<UserRecord> = Vec::new();
        let mut totals = copy_u128s(&self.total_rewards);
        let mut modified = false;
        let mut k: usize = 0;
        while k < self.user_infos.len()
            invariant
                *self == *old(self),
                caller@ == self.treasury@,
                self.wf(),
                self.user_infos@ == users,
                self.apr@ == aprs,
                self.total_rewards@ == totals0,
                k <= users.len(),
                totals@.len() == COIN_COUNT,
                rewards_sweep(users, aprs, now, totals0, k as nat) == Some((totals@, modified)),
                new_users@.len() == k,
                forall|j: int, c: int| 0 <= j < k && 0 <= c < COIN_COUNT ==> accrual_fits(#[trigger] users[j].coins@[c], aprs[c], now),
                forall|j: int| 0 <= j < k ==> {
                    &&& (#[trigger] new_users@[j]).account == users[j].account
                    &&& new_users@[j].coins@ == accrued_row(users[j].coins@, aprs, now)
                },
            decreases users.len() - k,
        {
            let ghost t0 = totals@;
            let ghost m0 = modified;
            let ghost row0 = users[k as int].coins@;
            assert(user_row_wf(users[k as int].coins@));
            let mut row: Vec<UserInfo> = Vec::new();
            let mut c: usize = 0;
            while c < COIN_COUNT
                invariant
                    *self == *old(self),
                    caller@ == self.treasury@,
                    self.wf(),
                    self.user_infos@ == users,
                    self.apr@ == aprs,
                    self.total_rewards@ == totals0,
                    k < users.len(),
                    rewards_sweep(users, aprs, now, totals0, k as nat) == Some((t0, m0)),
                    row0 == users[k as int].coins@,
                    row0.len() == COIN_COUNT,
                    c <= COIN_COUNT,
                    t0.len() == COIN_COUNT,
                    totals@.len() == COIN_COUNT,
                    forall|j: int| 0 <= j < COIN_COUNT ==> #[trigger] totals@[j] == if j < c {
                        (t0[j] + accrual_due(row0[j], aprs[j], now)) as u128
                    } else {
                        t0[j]
                    },
                    forall|j: int| 0 <= j < c ==> accrual_fits(#[trigger] row0[j], aprs[j], now) && t0[j] + accrual_due(row0[j], aprs[j], now) <= u128::MAX,
                    row@ == accrued_row(row0, aprs, now).take(c as int),
                    modified == (m0 || exists|j: int| 0 <= j < c && #[trigger] accrual_due(row0[j], aprs[j], now) > 0),
                decreases COIN_COUNT - c,
            {
                let u = self.user_infos[k].coins[c].copy();
                let due = match accrue_one(&u, self.apr[c], now) {
                    Some(d) => d,
                    None => {
                        proof {
                            assert(!row_accrual_fits(row0, aprs, now, t0));
                            lemma_rewards_sweep_fails(users, aprs, now, totals0, (k + 1) as nat, users.len());
                        }
                        return Err(PoolError::ArithmeticOverflow);
                    },
                };
                if totals[c] > u128::MAX - due {
                    proof {
                        assert(!row_accrual_fits(row0, aprs, now, t0));
                        lemma_rewards_sweep_fails(users, aprs, now, totals0, (k + 1) as nat, users.len());
                    }
                    return Err(PoolError::ArithmeticOverflow);
                }
                let t = totals[c] + due;
                totals.set(c, t);
                row.push(UserInfo { reward_amount: u.reward_amount + due, ..u });
                if due > 0 {
                    modified = true;
                }
                proof {
                    assert(accrued_row(row0, aprs, now).take(c + 1) =~= accrued_row(row0, aprs, now).take(c as int).push(accrued(row0[c as int], aprs[c as int], now)));
                }
                c = c + 1;
            }
            proof {
                assert(row_accrual_fits(row0, aprs, now, t0));
                assert(totals@ =~= row_totals(row0, aprs, now, t0));
                assert(row@ =~= accrued_row(row0, aprs, now));
                assert(modified == (m0 || row_accrues(row0, aprs, now)));
                assert forall|j: int, c: int| 0 <= j < k + 1 && 0 <= c < COIN_COUNT implies accrual_fits(#[trigger] users[j].coins@[c], aprs[c], now) by {
                    if j == k {
                        assert(accrual_fits(row0[c], aprs[c], now));
                    }
                }
            }
            let rec = UserRecord { account: self.user_infos[k].account.clone(), coins: row };
            new_users.push(rec);
            k = k + 1;
        }
        proof {
            let t = new_users@;
            assert forall|i: int, j: int| 0 <= i < t.len() && 0 <= j < t.len() && i != j implies #[trigger] t[i].key() != #[trigger] t[j].key() by {
                assert(users[i].key() != users[j].key());
            }
            assert forall|i: int| 0 <= i < t.len() implies user_row_wf(#[trigger] t[i].coins@) by {
                assert(user_row_wf(users[i].coins@));
                assert forall|c: int| 0 <= c < t[i].coins@.len() implies reserve_ok(#[trigger] t[i].coins@[c]) by {
                    assert(reserve_ok(users[i].coins@[c]));
                    assert(t[i].coins@[c] == accrued(users[i].coins@[c], aprs[c], now));
                    assert(accrual_fits(users[i].coins@[c], aprs[c], now));
                }
            }
        }
        self.user_infos = new_users;
        self.total_rewards = totals;
        if modified && self.amount_history.len() > 0 {
            let sample = reward_sample(&self.amount_history, &self.total_rewards);
            proof {
                assert(self.amount_history@[self.amount_history@.len() - 1] == self.amount_history@.last());
            }
            self.push_sample(sample);
        }
        Ok(())
    }

    /// The treasury runs a farm epoch at `now` with oracle prices `price`:
    /// every account earns its farm share, and the unit price follows the
    /// value farmed. Returns `Ok(false)`, changing nothing, outside the
    /// campaign window or once more than the emission was farmed.
    pub fn farm(&mut self, caller: &String, price: [u128; COIN_COUNT], now: u64) -> (r: Result<bool, PoolError>)
        requires
            old(self).wf(),
        ensures
            final(self).wf(),
            r.is_err() ==> *final(self) == *old(self),
            r == Ok::<bool, PoolError>(false) ==> *final(self) == *old(self),
            caller@ != old(self).treasury@ ==> r == Err::<bool, PoolError>(PoolError::Unauthorized),
            caller@ == old(self).treasury@ && (!farm_active(old(self).farm_starttime, now) || old(self).total_farmed > FARM_AMOUNT)
                ==> r == Ok::<bool, PoolError>(false),
            caller@ == old(self).treasury@ && farm_active(old(self).farm_starttime, now) && old(self).total_farmed <= FARM_AMOUNT
                ==> match farm_sweep(old(self).farm_infos@, old(self).user_infos@, price@, old(self).total_farmed as int, old(self).user_infos@.len()) {
                None => r == Err::<bool, PoolError>(PoolError::ArithmeticOverflow),
                Some(st) => match farm_price_of(st.2) {
                    None => r == Err::<bool, PoolError>(PoolError::ArithmeticOverflow),
                    Some(fp) => {
                        &&& r == Ok::<bool, PoolError>(true)
                        &&& final(self).farm_infos@ == st.0
                        &&& final(self).total_farmed == st.1
                        &&& final(self).farm_price == fp
                        &&& *final(self) == (Pool {
                            farm_infos: final(self).farm_infos,
                            total_farmed: final(self).total_farmed,
                            farm_price: final(self).farm_price,
                            ..*old(self)
                        })
                    },
                },
            },
    {
        self.check_onlytreasury(caller)?;
        let start = self.farm_starttime;
        if now < start || now as u128 > start as u128 + FARM_PERIOD as u128 || self.total_farmed > FARM_AMOUNT {
            return Ok(false);
        }
        let ghost users = self.user_infos@;
        let ghost farms0 = self.farm_infos@;
        let ghost total0 = self.total_farmed as int;
        let mut farms = copy_farms(&self.farm_infos);
        let mut total_farm: u128 = self.total_farmed;
        let mut total_usd: u128 = 0;
        let mut k: usize = 0;
        while k < self.user_infos.len()
            invariant
                *self == *old(self),
                caller@ == self.treasury@,
                farm_active(self.farm_starttime, now),
                self.total_farmed <= FARM_AMOUNT,
                self.wf(),
                self.user_infos@ == users,
                self.farm_infos@ == farms0,
                self.total_farmed as int == total0,
                k <= users.len(),
                keys_unique(farms@),
                farm_sweep(farms0, users, price@, total0, k as nat) == Some((farms@, total_farm as int, total_usd as int)),
            decreases users.len() - k,
        {
            assert(user_row_wf(users[k as int].coins@));
            let share = match row_share_of(&self.user_infos[k].coins, &price, total_usd) {
                Some(v) => v,
                None => {
                    proof {
                        lemma_farm_sweep_fails(farms0, users, price@, total0, (k + 1) as nat, users.len());
                    }
                    return Err(PoolError::ArithmeticOverflow);
                },
            };
            let ghost fb = farms@;
            let ghost tu = total_usd;
            proof {
                assert(row_share(users[k as int].coins@, price@, tu as int, COIN_COUNT as nat) == Some((share.0 as int, share.1 as int)));
            }
            if !update_farm_info(&mut farms, &self.user_infos[k].account, share.0) {
                proof {
                    assert(farm_upsert(fb, users[k as int].account, share.0 as int) is None);
                    assert(farm_sweep(farms0, users, price@, total0, (k + 1) as nat) is None);
                    lemma_farm_sweep_fails(farms0, users, price@, total0, (k + 1) as nat, users.len());
                }
                return Err(PoolError::ArithmeticOverflow);
            }
            if total_farm > u128::MAX - share.0 {
                proof {
                    assert(farm_upsert(fb, users[k as int].account, share.0 as int) == Some(farms@));
                    assert(farm_sweep(farms0, users, price@, total0, (k + 1) as nat) is None);
                    lemma_farm_sweep_fails(farms0, users, price@, total0, (k + 1) as nat, users.len());
                }
                return Err(PoolError::ArithmeticOverflow);
            }
            total_farm = total_farm + share.0;
            total_usd = share.1;
            k = k + 1;
        }
        let unit_price = match farm_price_from(total_usd) {
            Some(v) => v,
            None => {
                return Err(PoolError::ArithmeticOverflow);
            },
        };
        self.farm_infos = farms;
        self.total_farmed = total_farm;
        self.farm_price = unit_price;
        Ok(true)
    }

    /// The treasury closes a qualification epoch: every unqualified amount
    /// becomes qualified, and records left with nothing are deleted.
    pub fn pot_process(&mut self, caller: &String) -> (r: Result<(), PoolError>)
        requires
            old(self).wf(),
        ensures
            final(self).wf(),
            r.is_ok() <==> caller@ == old(self).treasury@,
            r.is_err() ==> r == Err::<(), PoolError>(PoolError::Unauthorized) && *final(self) == *old(self),
            r.is_ok() ==> {
                let s = old(self).pot_infos@;
                let sv = pot_survivors(s, s.len());
                &&& final(self).pot_infos@.len() == sv.len()
                &&& forall|j: int| 0 <= j < sv.len() ==> {
                    &&& (#[trigger] final(self).pot_infos@[j]).account == s[sv[j]].account
                    &&& final(self).pot_infos@[j].coins@ == promoted(s[sv[j]].coins@)
                }
                &&& *final(self) == (Pool { pot_infos: final(self).pot_infos, ..*old(self) })
            },
    {
        self.check_onlytreasury(caller)?;
        let ghost s = self.pot_infos@;
        let mut kept: Vec<PotRecord> = Vec::new();
        let mut k: usize = 0;
        while k < self.pot_infos.len()
            invariant
                *self == *old(self),
                self.wf(),
                self.pot_infos@ == s,
                k <= s.len(),
                kept@.len() == pot_survivors(s, k as nat).len(),
                forall|j: int| 0 <= j < kept@.len() ==> {
                    &&& (#[trigger] kept@[j]).account == s[pot_survivors(s, k as nat)[j]].account
                    &&& kept@[j].coins@ == promoted(s[pot_survivors(s, k as nat)[j]].coins@)
                },
            decreases s.len() - k,
        {
            proof {
                lemma_pot_survivors(s, k as nat);
            }
            let ghost row0 = s[k as int].coins@;
            let mut row: Vec<PotInfo> = Vec::new();
            let mut keep = false;
            let mut c: usize = 0;
            while c < self.pot_infos[k].coins.len()
                invariant
                    *self == *old(self),
                    self.pot_infos@ == s,
                    k < s.len(),
                    row0 == s[k as int].coins@,
                    c <= row0.len(),
                    row@ == promoted(row0).take(c as int),
                    keep == exists|j: int| 0 <= j < c && (#[trigger] row0[j]).amount != 0,
                decreases row0.len() - c,
            {
                let p = &self.pot_infos[k].coins[c];
                if p.amount != 0 {
                    keep = true;
                }
                row.push(PotInfo { account: p.account.clone(), amount: 0, qualified_amount: p.amount });
                proof {
                    assert(promoted(row0).take(c + 1) =~= promoted(row0).take(c as int).push(promoted(row0)[c as int]));
                }
                c = c + 1;
            }
            proof {
                assert(row@ =~= promoted(row0));
                assert(keep == pot_keeps(row0));
            }
            if keep {
                kept.push(PotRecord { account: self.pot_infos[k].account.clone(), coins: row });
            }
            k = k + 1;
        }
        proof {
            lemma_pot_survivors(s, s.len());
            let sv = pot_survivors(s, s.len());
            let t = kept@;
            assert forall|i: int, j: int| 0 <= i < t.len() && 0 <= j < t.len() && i != j implies #[trigger] t[i].key() != #[trigger] t[j].key() by {
                if i < j {
                    assert(sv[i] < sv[j]);
                } else {
                    assert(sv[j] < sv[i]);
                }
                assert(s[sv[i]].key() != s[sv[j]].key());
            }
            assert forall|i: int| 0 <= i < t.len() implies (#[trigger] t[i]).coins@.len() == COIN_COUNT by {
                assert(s[sv[i]].coins@.len() == COIN_COUNT);
            }
        }
        self.pot_infos = kept;
        Ok(())
    }

    /// Qualification rows of every account with a record.
    pub fn get_pot_info(&self) -> (r: Vec<Vec<PotInfo>>)
        ensures
            r@.len() == self.pot_infos@.len(),
            forall|k: int| 0 <= k < r@.len() ==> (#[trigger] r@[k])@ == self.pot_infos@[k].coins@,
    {
        let mut r: Vec<Vec<PotInfo>> = Vec::new();
        let mut k: usize = 0;
        while k < self.pot_infos.len()
            invariant
                k <= self.pot_infos@.len(),
                r@.len() == k,
                forall|j: int| 0 <= j < k ==> (#[trigger] r@[j])@ == self.pot_infos@[j].coins@,
            decreases self.pot_infos@.len() - k,
        {
            r.push(copy_pot_row(&self.pot_infos[k].coins));
            k = k + 1;
        }
        r
    }

    /// Farm balances of every account that has farmed.
    pub fn get_farm_info(&self) -> (r: Vec<FarmInfo>)
        ensures
            r@ == self.farm_infos@,
    {
        copy_farms(&self.farm_infos)
    }

    /// The history window, oldest sample first.
    pub fn get_amount_history(&self) -> (r: Vec<AmountInfo>)
        ensures
            r@.len() == self.amount_history@.len(),
            forall|k: int| 0 <= k < r@.len() ==> {
                &&& (#[trigger] r@[k]).amount@ == self.amount_history@[k].amount@
                &&& r@[k].reward@ == self.amount_history@[k].reward@
                &&& r@[k].time == self.amount_history@[k].time
            },
    {
        let mut r: Vec<AmountInfo> = Vec::new();
        let mut k: usize = 0;
        while k < self.amount_history.len()
            invariant
                k <= self.amount_history@.len(),
                r@.len() == k,
                forall|j: int| 0 <= j < k ==> {
                    &&& (#[trigger] r@[j]).amount@ == self.amount_history@[j].amount@
                    &&& r@[j].reward@ == self.amount_history@[j].reward@
                    &&& r@[j].time == self.amount_history@[j].time
                },
            decreases self.amount_history@.len() - k,
        {
            r.push(self.amount_history[k].copy());
            k = k + 1;
        }
        r
    }

    /// Balance rows of `account`, where it has a record.
    pub fn get_user_info(&self, account: &String) -> (r: Option<Vec<UserInfo>>)
        requires
            self.wf(),
        ensures
            match r {
                Some(row) => has_key(self.user_infos@, account@) && row@ == user_row(self.user_infos@, *account),
                None => !has_key(self.user_infos@, account@),
            },
    {
        match find_key(&self.user_infos, account) {
            Some(i) => Some(copy_user_row(&self.user_infos[i].coins)),
            None => None,
        }
    }

    /// Everything the pool holds for `account` (empty rows and a zero farm
    /// balance where it has none), with the pool-wide figures.
    pub fn get_status(&self, account: &String) -> (r: Status)
        requires
            self.wf(),
        ensures
            r.amount_history@.len() == self.amount_history@.len(),
            forall|k: int| 0 <= k < r.amount_history@.len() ==> {
                &&& (#[trigger] r.amount_history@[k]).amount@ == self.amount_history@[k].amount@
                &&& r.amount_history@[k].reward@ == self.amount_history@[k].reward@
                &&& r.amount_history@[k].time == self.amount_history@[k].time
            },
            r.user_info@ == user_row(self.user_infos@, *account),
            r.farm_price == self.farm_price,
            r.farm_info == if has_key(self.farm_infos@, account@) {
                self.farm_infos@[key_index(self.farm_infos@, account@)]
            } else {
                FarmInfo { account: *account, amount: 0 }
            },
            r.farm_starttime == self.farm_starttime,
            r.total_rewards@ == self.total_rewards@,
            r.pot_info@ == pot_row(self.pot_infos@, *account),
    {
        let uidx = find_key(&self.user_infos, account);
        let user_info = user_row_of(&self.user_infos, uidx, account);
        let farm_info = match find_key(&self.farm_infos, account) {
            Some(i) => self.farm_infos[i].copy(),
            None => FarmInfo { account: account.clone(), amount: 0 },
        };
        let pidx = find_key(&self.pot_infos, account);
        let pot_info = pot_row_of(&self.pot_infos, pidx, account);
        Status {
            amount_history: self.get_amount_history(),
            user_info,
            farm_price: self.farm_price,
            farm_info,
            farm_starttime: self.farm_starttime,
            total_rewards: copy_u128s(&self.total_rewards),
            pot_info,
        }
    }
}

} // verus!
