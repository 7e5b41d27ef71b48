use yield_pool::coins::{getcoin_id, COIN_COUNT};
use yield_pool::error::PoolError;
use yield_pool::farm::{FARM_AMOUNT, FARM_PERIOD};
use yield_pool::history::HISTORY_CAP;
use yield_pool::ledger::REWARD_TIME;
use yield_pool::pool::Pool;

fn s(x: &str) -> String {
    x.to_string()
}

fn fresh(now: u64) -> Pool {
    Pool::new(None, s("treasury.testnet"), s("pool.testnet"), now)
}

fn row(pool: &Pool, account: &str, coin: &str) -> (u128, u128, u64, u128) {
    let st = pool.get_status(&s(account));
    let u = &st.user_info[getcoin_id(s(coin)).unwrap()];
    (u.amount, u.reward_amount, u.deposit_time, u.withdraw_reserve)
}

#[test]
fn main_test() {
    let alice = s("alice.testnet");
    let treasury = s("treasury.testnet");
    let mut pool = Pool::new(None, treasury.clone(), s("pool.testnet"), 12345678);
    assert_eq!(pool.owner, s("pool.testnet"));

    let t = pool.deposit(&alice, s("wBTC"), 100_000_000, true, 12345678).unwrap();
    assert_eq!(t.receiver, treasury);
    assert_eq!(t.amount, 100_000_000);
    assert_eq!(t.token, s("ft.alenzertest.testnet"));

    pool.rewards(&treasury, 13355678).unwrap();
    // 100_000_000 * 987 / 10_000 / 365
    assert_eq!(row(&pool, "alice.testnet", "wBTC"), (100_000_000, 27041, 12345678, 0));

    let price: [u128; 7] = [500000; 7];
    // nothing was reserved
    assert_eq!(
        pool.withdraw(&treasury, &alice, s("wBTC"), 50_000_000, price, 13355678),
        Err(PoolError::ReservationTooSmall)
    );

    assert_eq!(pool.farm(&treasury, price, 14345678), Ok(true));
    let coin_id = getcoin_id(s("wBTC")).unwrap();
    assert_eq!(coin_id, 4);
    let res = pool.get_status(&alice);
    assert_eq!(res.user_info[coin_id].amount, 100_000_000);
    // 100_000_000 * 500_000 * 24 / 10^8 / 10^5
    assert_eq!(res.farm_info.amount, 120);
    assert_eq!(res.farm_price, 25);
    assert_eq!(pool.total_farmed, 120);
}

#[test]
fn coin_registry() {
    let names = ["USDC", "USDT", "DAI", "USN", "wBTC", "ETH", "wNEAR"];
    for (i, n) in names.iter().enumerate() {
        assert_eq!(getcoin_id(s(n)), Ok(i));
    }
    assert_eq!(getcoin_id(s("BTC")), Err(PoolError::UnknownCoin));
    assert_eq!(getcoin_id(s("usdc")), Err(PoolError::UnknownCoin));
    assert_eq!(yield_pool::coins::decimals_of(6), 24);
    assert_eq!(yield_pool::coins::coin_unit(4), 100_000_000);
}

#[test]
fn accrual_scenario_one_window_later() {
    let treasury = s("treasury.testnet");
    let mut pool = fresh(0);
    pool.deposit(&s("a"), s("USDC"), 100, false, 0).unwrap();
    pool.rewards(&treasury, REWARD_TIME).unwrap();
    let st = pool.get_status(&s("a"));
    assert_eq!(st.user_info[0].reward_amount, 100 * 1487 / 10000 / 365);
    for c in 1..COIN_COUNT {
        assert_eq!(st.user_info[c].reward_amount, 0);
    }
}

#[test]
fn accrual_adds_daily_share_of_rate() {
    let treasury = s("treasury.testnet");
    let mut pool = fresh(0);
    pool.deposit(&s("a"), s("USDC"), 1_000_000, false, 0).unwrap();
    pool.deposit(&s("a"), s("ETH"), 1_000_000, false, 0).unwrap();
    pool.rewards(&treasury, REWARD_TIME).unwrap();
    assert_eq!(row(&pool, "a", "USDC").1, 407);
    assert_eq!(row(&pool, "a", "ETH").1, 270);
    assert_eq!(pool.total_rewards[0], 407);
    assert_eq!(pool.total_rewards[5], 270);
    // the sample appended after accrual carries the new totals
    let h = pool.get_amount_history();
    assert_eq!(h.len(), 3);
    assert_eq!(h[2].reward[0], 407);
    assert_eq!(h[2].reward[5], 270);
    assert_eq!(h[2].amount[0], 1_000_000);
}

#[test]
fn accrual_before_window_changes_nothing() {
    let treasury = s("treasury.testnet");
    let mut pool = fresh(0);
    pool.deposit(&s("a"), s("USDC"), 1_000_000, false, 1000).unwrap();
    pool.rewards(&treasury, 1000 + REWARD_TIME - 1).unwrap();
    let before = row(&pool, "a", "USDC");
    let hist = pool.get_amount_history().len();
    pool.rewards(&treasury, 1000 + REWARD_TIME - 1).unwrap();
    assert_eq!(row(&pool, "a", "USDC"), before);
    assert_eq!(before.1, 0);
    assert_eq!(pool.get_amount_history().len(), hist);
    assert_eq!(pool.total_rewards[0], 0);
}

#[test]
fn reservation_too_small_then_mixed_draw() {
    let treasury = s("treasury.testnet");
    let a = s("a");
    let prices = [1u128; 7];
    let mut pool = fresh(0);
    pool.deposit(&a, s("DAI"), 40, false, 0).unwrap();
    // give the row 20 of reward
    let c = getcoin_id(s("DAI")).unwrap();
    pool.user_infos[0].coins[c].reward_amount = 20;
    pool.total_rewards[c] = 20;

    pool.withdraw_reserve(&a, s("DAI"), 50).unwrap();
    assert_eq!(
        pool.withdraw(&treasury, &a, s("DAI"), 60, prices, 0),
        Err(PoolError::ReservationTooSmall)
    );
    assert_eq!(row(&pool, "a", "DAI"), (40, 20, 0, 50));

    assert_eq!(pool.withdraw(&treasury, &a, s("DAI"), 50, prices, 0), Ok(40));
    assert_eq!(row(&pool, "a", "DAI"), (0, 10, 0, 0));
    assert_eq!(pool.total_rewards[c], 10);
    let h = pool.get_amount_history();
    assert_eq!(h[h.len() - 1].amount[c], 0);
}

#[test]
fn reserve_beyond_balance_is_refused() {
    let a = s("a");
    let mut pool = fresh(0);
    assert_eq!(pool.withdraw_reserve(&a, s("USDC"), 1), Err(PoolError::UnknownAccount));
    pool.deposit(&a, s("USDC"), 10, false, 0).unwrap();
    assert_eq!(pool.withdraw_reserve(&a, s("USDC"), 11), Err(PoolError::InsufficientBalance));
    assert_eq!(pool.withdraw_reserve(&a, s("XYZ"), 1), Err(PoolError::UnknownCoin));
    pool.withdraw_reserve(&a, s("USDC"), 7).unwrap();
    pool.withdraw_reserve(&a, s("USDC"), 3).unwrap();
    assert_eq!(row(&pool, "a", "USDC").3, 3);
}

#[test]
fn deposit_then_full_withdrawal_restores_principal() {
    let treasury = s("treasury.testnet");
    let a = s("a");
    let prices = [2u128; 7];
    let mut pool = fresh(0);
    pool.deposit(&a, s("USDT"), 500, false, 0).unwrap();
    let before = row(&pool, "a", "USDT").0;
    pool.deposit(&a, s("USDT"), 123, true, 5).unwrap();
    pool.withdraw_reserve(&a, s("USDT"), 123).unwrap();
    assert_eq!(pool.withdraw(&treasury, &a, s("USDT"), 123, prices, 6), Ok(123));
    assert_eq!(row(&pool, "a", "USDT").0, before);
    assert_eq!(row(&pool, "a", "USDT").3, 0);
}

#[test]
fn reservation_never_exceeds_balance() {
    let treasury = s("treasury.testnet");
    let a = s("a");
    let prices = [1u128; 7];
    let mut pool = fresh(0);
    pool.deposit(&a, s("USN"), 100, false, 0).unwrap();
    pool.withdraw_reserve(&a, s("USN"), 100).unwrap();
    pool.withdraw(&treasury, &a, s("USN"), 30, prices, 1).unwrap();
    pool.rewards(&treasury, REWARD_TIME * 3).unwrap();
    pool.deposit(&a, s("USN"), 5, false, REWARD_TIME * 3).unwrap();
    for rec in pool.user_infos.iter() {
        for u in rec.coins.iter() {
            assert!(u.withdraw_reserve <= u.amount + u.reward_amount);
        }
    }
}

#[test]
fn unauthorized_callers_are_refused() {
    let mut pool = fresh(0);
    let mallory = s("mallory");
    assert_eq!(pool.rewards(&mallory, 1), Err(PoolError::Unauthorized));
    assert_eq!(pool.farm(&mallory, [1; 7], 1), Err(PoolError::Unauthorized));
    assert_eq!(pool.pot_process(&mallory), Err(PoolError::Unauthorized));
    assert_eq!(
        pool.withdraw(&mallory, &mallory, s("USDC"), 1, [1; 7], 1),
        Err(PoolError::Unauthorized)
    );
    assert_eq!(pool.set_apr(&mallory, s("USDC"), 5), Err(PoolError::Unauthorized));
    assert_eq!(pool.set_config(&mallory, Some(s("x")), None), Err(PoolError::Unauthorized));
    assert_eq!(pool.owner, s("pool.testnet"));
}

#[test]
fn owner_configures_pool() {
    let owner = s("pool.testnet");
    let mut pool = fresh(0);
    pool.set_apr(&owner, s("wNEAR"), 42).unwrap();
    assert_eq!(pool.apr[6], 42);
    assert_eq!(pool.set_apr(&owner, s("NOPE"), 1), Err(PoolError::UnknownCoin));
    let tokens = ["t0", "t1", "t2", "t3", "t4", "t5", "t6"].map(|t| t.to_string());
    pool.set_tokenaddress(&owner, tokens).unwrap();
    assert_eq!(pool.token_address[3], s("t3"));
    let t = pool.deposit(&s("a"), s("USN"), 9, false, 0).unwrap();
    assert_eq!(t.token, s("t3"));
    pool.set_config(&owner, None, Some(s("vault"))).unwrap();
    assert_eq!(pool.treasury, s("vault"));
    pool.set_config(&owner, Some(s("boss")), None).unwrap();
    assert_eq!(pool.owner, s("boss"));
    let p2 = Pool::new(Some(s("me")), s("t"), s("pool"), 0);
    assert_eq!(p2.owner, s("me"));
}

#[test]
fn deposit_errors() {
    let mut pool = fresh(0);
    let a = s("a");
    assert_eq!(pool.deposit(&a, s("DOGE"), 5, false, 0).map(|_| ()), Err(PoolError::UnknownCoin));
    assert_eq!(pool.deposit(&a, s("USDC"), 0, false, 0).map(|_| ()), Err(PoolError::ZeroAmount));
    pool.deposit(&a, s("USDC"), u128::MAX, false, 0).unwrap();
    assert_eq!(
        pool.deposit(&a, s("USDC"), 1, false, 0).map(|_| ()),
        Err(PoolError::ArithmeticOverflow)
    );
    // the refused deposit changed nothing
    assert_eq!(row(&pool, "a", "USDC").0, u128::MAX);
    assert_eq!(pool.get_amount_history().len(), 1);
}

#[test]
fn withdraw_errors() {
    let treasury = s("treasury.testnet");
    let a = s("a");
    let mut pool = fresh(0);
    assert_eq!(
        pool.withdraw(&treasury, &a, s("USDC"), 1, [1; 7], 0),
        Err(PoolError::UnknownAccount)
    );
    pool.deposit(&a, s("USDC"), 10, false, 0).unwrap();
    assert_eq!(pool.withdraw(&treasury, &a, s("XX"), 1, [1; 7], 0), Err(PoolError::UnknownCoin));
    pool.withdraw_reserve(&a, s("USDC"), 10).unwrap();
    // the balance shrinks below the reservation only through the fields
    pool.user_infos[0].coins[0].amount = 5;
    pool.user_infos[0].coins[0].withdraw_reserve = 10;
    assert_eq!(
        pool.withdraw(&treasury, &a, s("USDC"), 10, [1; 7], 0),
        Err(PoolError::InsufficientBalance)
    );
}

#[test]
fn pot_tracks_qualified_and_unqualified() {
    let treasury = s("treasury.testnet");
    let a = s("a");
    let mut pool = fresh(0);
    pool.deposit(&a, s("USDC"), 30, true, 0).unwrap();
    pool.deposit(&a, s("USDC"), 50, false, 0).unwrap();
    let st = pool.get_status(&a);
    assert_eq!((st.pot_info[0].amount, st.pot_info[0].qualified_amount), (50, 30));
    // a shortfall empties the qualified part and takes the whole amount
    // from the unqualified part
    pool.withdraw_reserve(&a, s("USDC"), 40).unwrap();
    pool.withdraw(&treasury, &a, s("USDC"), 40, [1; 7], 0).unwrap();
    let st = pool.get_status(&a);
    assert_eq!((st.pot_info[0].amount, st.pot_info[0].qualified_amount), (10, 0));
    pool.withdraw_reserve(&a, s("USDC"), 20).unwrap();
    pool.withdraw(&treasury, &a, s("USDC"), 20, [1; 7], 0).unwrap();
    let st = pool.get_status(&a);
    assert_eq!((st.pot_info[0].amount, st.pot_info[0].qualified_amount), (0, 0));
}

#[test]
fn pot_epoch_promotes_or_removes() {
    let treasury = s("treasury.testnet");
    let mut pool = fresh(0);
    pool.deposit(&s("idle"), s("USDC"), 30, true, 0).unwrap();
    pool.deposit(&s("busy"), s("ETH"), 70, false, 0).unwrap();
    pool.deposit(&s("busy"), s("DAI"), 5, true, 0).unwrap();
    pool.pot_process(&treasury).unwrap();
    let info = pool.get_pot_info();
    assert_eq!(info.len(), 1);
    assert_eq!(info[0][0].account, s("busy"));
    assert_eq!((info[0][5].amount, info[0][5].qualified_amount), (0, 70));
    assert_eq!((info[0][2].amount, info[0][2].qualified_amount), (0, 0));
    // the idle account reads as empty rows
    let st = pool.get_status(&s("idle"));
    assert_eq!(st.pot_info.len(), COIN_COUNT);
    assert!(st.pot_info.iter().all(|p| p.amount == 0 && p.qualified_amount == 0));
    // a second epoch with no new deposits removes the rest
    pool.pot_process(&treasury).unwrap();
    assert_eq!(pool.get_pot_info().len(), 0);
}

#[test]
fn history_window_evicts_oldest() {
    let mut pool = fresh(0);
    let a = s("a");
    for i in 0..(HISTORY_CAP as u64 + 3) {
        pool.deposit(&a, s("USDC"), 1, false, i).unwrap();
        assert!(pool.get_amount_history().len() <= HISTORY_CAP);
    }
    let h = pool.get_amount_history();
    assert_eq!(h.len(), HISTORY_CAP);
    assert_eq!(h[0].time, 3);
    assert_eq!(h[HISTORY_CAP - 1].time, HISTORY_CAP as u64 + 2);
    assert_eq!(h[HISTORY_CAP - 1].amount[0], HISTORY_CAP as u128 + 3);
}

#[test]
fn farm_epoch_guards() {
    let treasury = s("treasury.testnet");
    let prices = [1_000_000u128; 7];
    let mut pool = fresh(1_000);
    pool.deposit(&s("a"), s("USDC"), 1_000_000_000, false, 1_000).unwrap();
    assert_eq!(pool.farm(&treasury, prices, 999), Ok(false));
    assert_eq!(pool.total_farmed, 0);
    assert_eq!(pool.farm(&treasury, prices, 1_000 + FARM_PERIOD + 1), Ok(false));
    assert_eq!(pool.total_farmed, 0);
    pool.total_farmed = FARM_AMOUNT + 1;
    assert_eq!(pool.farm(&treasury, prices, 2_000), Ok(false));
    assert_eq!(pool.total_farmed, FARM_AMOUNT + 1);
    assert_eq!(pool.get_farm_info().len(), 0);
}

#[test]
fn farm_epoch_shares_and_price_steps() {
    let treasury = s("treasury.testnet");
    let mut pool = fresh(0);
    // 50_000_000 whole USDC at a price of 100 (one dollar in cents)
    pool.deposit(&s("a"), s("USDC"), 50_000_000_000_000, false, 0).unwrap();
    let mut prices = [0u128; 7];
    prices[0] = 100;
    assert_eq!(pool.farm(&treasury, prices, 10), Ok(true));
    // 5e13 * 100 * 24 / 10^6 / 10^5
    assert_eq!(pool.get_farm_info()[0].amount, 1_200_000);
    // usd 50_000_000 -> two steps: 25 * 144 / 100
    assert_eq!(pool.farm_price, 36);
    assert_eq!(pool.total_farmed, 1_200_000);

    // a withdrawal of half the value gives back half the farm balance
    pool.withdraw_reserve(&s("a"), s("USDC"), 25_000_000_000_000).unwrap();
    pool.withdraw(&treasury, &s("a"), s("USDC"), 25_000_000_000_000, prices, 20).unwrap();
    assert_eq!(pool.get_farm_info()[0].amount, 600_000);
    assert_eq!(pool.total_farmed, 600_000);
}

#[test]
fn delete_all_clears_ledgers() {
    let mut pool = fresh(0);
    pool.deposit(&s("a"), s("USDC"), 3, true, 0).unwrap();
    pool.delete_all();
    assert_eq!(pool.get_amount_history().len(), 0);
    assert_eq!(pool.get_pot_info().len(), 0);
    assert_eq!(pool.get_user_info(&s("a")).is_none(), true);
    let st = pool.get_status(&s("a"));
    assert_eq!(st.user_info.len(), COIN_COUNT);
    assert_eq!(st.farm_info.amount, 0);
    assert_eq!(st.farm_info.account, s("a"));
}
