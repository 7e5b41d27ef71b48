use vstd::prelude::*;
use crate::coins::COIN_COUNT;

verus! {

/// An annual rate in basis points together with the time it was set.
pub struct AprInfo {
    pub apr: u16,
    pub time: u64,
}

/// Balance of one account in one coin.
pub struct UserInfo {
    pub account: String,
    /// Deposited amount not yet withdrawn.
    pub amount: u128,
    /// Accrued yield, spent after the principal on withdrawal.
    pub reward_amount: u128,
    /// Time of the last deposit; also the clock of reward accrual.
    pub deposit_time: u64,
    /// Amount pre-authorised for the next executed withdrawal.
    pub withdraw_reserve: u128,
}

/// One sample of the pool-wide history: deposited totals and cumulative
/// rewards, per coin.
pub struct AmountInfo {
    pub amount: Vec<u128>,
    pub reward: Vec<u128>,
    pub time: u64,
}

/// An account's share of the farming campaign.
pub struct FarmInfo {
    pub account: String,
    pub amount: u128,
}

/// Qualification record of one account in one coin.
pub struct PotInfo {
    pub account: String,
    /// Deposits since the last epoch, not yet qualified.
    pub amount: u128,
    /// Deposits promoted to qualified status.
    pub qualified_amount: u128,
}

/// What a deposit message names: the coin and whether it counts as qualified.
pub struct DepositParam {
    pub coin: String,
    pub qualified: bool,
}

/// What a withdrawal request names: account, coin and the oracle prices.
pub struct WithdrawParam {
    pub account: String,
    pub coin: String,
    pub price: [u128; COIN_COUNT],
}

/// All balance rows of one account, one per coin slot.
pub struct UserRecord {
    pub account: String,
    pub coins: Vec<UserInfo>,
}

/// All qualification rows of one account, one per coin slot.
pub struct PotRecord {
    pub account: String,
    pub coins: Vec<PotInfo>,
}

/// Read model of one account together with the pool-wide figures.
pub struct Status {
    pub amount_history: Vec<AmountInfo>,
    pub user_info: Vec<UserInfo>,
    pub farm_price: u128,
    pub farm_info: FarmInfo,
    pub farm_starttime: u64,
    pub total_rewards: Vec<u128>,
    pub pot_info: Vec<PotInfo>,
}

impl UserInfo {
    /// An empty balance row of `account`.
    pub fn zero(account: &String) -> (r: UserInfo)
        ensures
            r.account == *account,
            r.amount == 0,
            r.reward_amount == 0,
            r.deposit_time == 0,
            r.withdraw_reserve == 0,
    {
        UserInfo {
            account: account.clone(),
            amount: 0,
            reward_amount: 0,
            deposit_time: 0,
            withdraw_reserve: 0,
        }
    }

    /// A field-by-field copy.
    pub fn copy(&self) -> (r: UserInfo)
        ensures
            r == *self,
    {
        UserInfo {
            account: self.account.clone(),
            amount: self.amount,
            reward_amount: self.reward_amount,
            deposit_time: self.deposit_time,
            withdraw_reserve: self.withdraw_reserve,
        }
    }
}

impl PotInfo {
    /// An empty qualification row of `account`.
    pub fn zero(account: &String) -> (r: PotInfo)
        ensures
            r.account == *account,
            r.amount == 0,
            r.qualified_amount == 0,
    {
        PotInfo { account: account.clone(), amount: 0, qualified_amount: 0 }
    }

    /// A field-by-field copy.
    pub fn copy(&self) -> (r: PotInfo)
        ensures
            r == *self,
    {
        PotInfo {
            account: self.account.clone(),
            amount: self.amount,
            qualified_amount: self.qualified_amount,
        }
    }
}

impl FarmInfo {
    /// A field-by-field copy.
    pub fn copy(&self) -> (r: FarmInfo)
        ensures
            r == *self,
    {
        FarmInfo { account: self.account.clone(), amount: self.amount }
    }
}

/// A copy of a row vector of balances.
pub fn copy_user_row(v: &Vec<UserInfo>) -> (r: Vec<UserInfo>)
    ensures
        r@ == v@,
{
    let mut r: Vec<UserInfo> = Vec::new();
    let mut i: usize = 0;
    while i < v.len()
        invariant
            i <= v.len(),
            r@ == v@.take(i as int),
        decreases v.len() - i,
    {
        r.push(v[i].copy());
        proof {
            assert(v@.take(i + 1) =~= v@.take(i as int).push(v@[i as int]));
        }
        i = i + 1;
    }
    assert(v@.take(v.len() as int) =~= v@);
    r
}

/// A copy of a row vector of qualification records.
pub fn copy_pot_row(v: &Vec<PotInfo>) -> (r: Vec<PotInfo>)
    ensures
        r@ == v@,
{
    let mut r: Vec<PotInfo> = Vec::new();
    let mut i: usize = 0;
    while i < v.len()
        invariant
            i <= v.len(),
            r@ == v@.take(i as int),
        decreases v.len() - i,
    {
        r.push(v[i].copy());
        proof {
            assert(v@.take(i + 1) =~= v@.take(i as int).push(v@[i as int]));
        }
        i = i + 1;
    }
    assert(v@.take(v.len() as int) =~= v@);
    r
}

/// A copy of a vector of integers.
pub fn copy_u128s(v: &Vec<u128>) -> (r: Vec<u128>)
    ensures
        r@ == v@,
{
    let mut r: Vec<u128> = Vec::new();
    let mut i: usize = 0;
    while i < v.len()
        invariant
            i <= v.len(),
            r@ == v@.take(i as int),
        decreases v.len() - i,
    {
        r.push(v[i]);
        proof {
            assert(v@.take(i + 1) =~= v@.take(i as int).push(v@[i as int]));
        }
        i = i + 1;
    }
    assert(v@.take(v.len() as int) =~= v@);
    r
}

impl AmountInfo {
    /// A copy whose vectors hold the same values.
    pub fn copy(&self) -> (r: AmountInfo)
        ensures
            r.amount@ == self.amount@,
            r.reward@ == self.reward@,
            r.time == self.time,
    {
        AmountInfo {
            amount: copy_u128s(&self.amount),
            reward: copy_u128s(&self.reward),
            time: self.time,
        }
    }
}

/// A copy of a farm ledger.
pub fn copy_farms(v: &Vec<FarmInfo>) -> (r: Vec<FarmInfo>)
    ensures
        r@ == v@,
{
    let mut r: Vec<FarmInfo> = Vec::new();
    let mut i: usize = 0;
    while i < v.len()
        invariant
            i <= v.len(),
            r@ == v@.take(i as int),
        decreases v.len() - i,
    {
        r.push(v[i].copy());
        proof {
            assert(v@.take(i + 1) =~= v@.take(i as int).push(v@[i as int]));
        }
        i = i + 1;
    }
    assert(v@.take(v.len() as int) =~= v@);
    r
}

} // verus!
