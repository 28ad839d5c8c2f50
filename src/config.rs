use vstd::prelude::*;
use crate::error::ContractError;
use crate::payment::{BankTransfer, transfers_total, transfers_upto};
use crate::state::Coin;
use crate::text::{str_equals, to_owned_string};

verus! {

pub const CREATE_COLLECTION_FEE: &'static str = "CREATE_COLLECTION_FEE";

pub const CREATE_ITEM_FEE: &'static str = "CREATE_ITEM_FEE";

pub const NFT_MINTING_FEE: &'static str = "NFT_MINTING_FEE";

pub const SIMPLE_NFT_MINTING_FEE: &'static str = "SIMPLE_NFT_MINTING_FEE";

/// A named fee that the contract charges.
#[derive(Debug, PartialEq)]
pub struct Fee {
    pub name: String,
    pub value: Coin,
}

/// The contract-level configuration: admins, the wallets that collect the contract's
/// fees, and the fee schedule.
#[derive(Debug, PartialEq)]
pub struct ContractInfo {
    pub allowed_admins: Vec<String>,
    pub treasuries: Vec<String>,
    pub fees: Vec<Fee>,
    pub log_last_payment: bool,
}

/// The first fee of the schedule with the given name.
pub open spec fn fee_named(fees: Seq<Fee>, name: Seq<char>) -> Option<Fee>
    decreases fees.len(),
{
    if fees.len() == 0 {
        None
    } else if fees[0].name@ == name {
        Some(fees[0])
    } else {
        fee_named(fees.drop_first(), name)
    }
}

/// The amount that wallet `i` of `n` receives when `amount` is shared equally,
/// the first one also taking what the division leaves over.
pub open spec fn equal_share(amount: int, n: int, i: int) -> int {
    amount / n + if i == 0 {
        amount % n
    } else {
        0
    }
}

/// Whether the first attached fund covers `required`: the same denomination and at
/// least the amount.
pub open spec fn funds_cover(funds: Seq<Coin>, required: Coin) -> bool {
    funds.len() > 0 && funds[0].denom@ == required.denom@ && funds[0].amount >= required.amount
}

proof fn lemma_equal_sum(r: Seq<BankTransfer>, amount: int, n: int, k: int)
    requires
        n > 0,
        0 <= k <= r.len(),
        forall|i: int| 0 <= i < r.len() ==> (#[trigger] r[i]).amount == equal_share(amount, n, i),
    ensures
        k > 0 ==> transfers_upto(r, k) == k * (amount / n) + amount % n,
    decreases k,
{
    if k > 1 {
        lemma_equal_sum(r, amount, n, k - 1);
        assert(k * (amount / n) == (k - 1) * (amount / n) + amount / n) by (nonlinear_arith);
    } else if k == 1 {
        assert(transfers_upto(r, 0) == 0);
    }
}

/// Shares `fee` equally among `wallets`, the first wallet taking what the division
/// leaves over, so that the transfers add up to the fee.
pub fn split_equally(wallets: &Vec<String>, fee: &Coin) -> (r: Vec<BankTransfer>)
    requires
        wallets@.len() > 0,
    ensures
        r@.len() == wallets@.len(),
        forall|i: int|
            0 <= i < r@.len() ==> {
                &&& (#[trigger] r@[i]).to_address@ == wallets@[i]@
                &&& r@[i].denom@ == fee.denom@
                &&& r@[i].amount == equal_share(fee.amount as int, wallets@.len() as int, i)
            },
        transfers_total(r@) == fee.amount,
{
    let n = wallets.len();
    let each = fee.amount / (n as u128);
    let extra = fee.amount % (n as u128);
    assert(each + extra <= fee.amount) by (nonlinear_arith)
        requires
            n >= 1,
            each == (fee.amount as int) / (n as int),
            extra == (fee.amount as int) % (n as int),
    {
        assert(fee.amount == (n as int) * each + extra);
        assert((n as int) * each >= each);
    }
    let mut r: Vec<BankTransfer> = Vec::new();
    let mut i: usize = 0;
    while i < n
        invariant
            n == wallets@.len(),
            n > 0,
            each == (fee.amount as int) / (n as int),
            extra == (fee.amount as int) % (n as int),
            each + extra <= fee.amount,
            i <= n,
            r@.len() == i,
            forall|k: int|
                0 <= k < i ==> {
                    &&& (#[trigger] r@[k]).to_address@ == wallets@[k]@
                    &&& r@[k].denom@ == fee.denom@
                    &&& r@[k].amount == equal_share(fee.amount as int, n as int, k)
                },
        decreases n - i,
    {
        let amount = if i == 0 { each + extra } else { each };
        r.push(BankTransfer { to_address: wallets[i].clone(), amount, denom: fee.denom.clone() });
        i = i + 1;
    }
    proof {
        lemma_equal_sum(r@, fee.amount as int, n as int, n as int);
        assert(n * ((fee.amount as int) / (n as int)) + (fee.amount as int) % (n as int) == fee.amount) by (nonlinear_arith)
            requires
                n > 0,
        ;
    }
    r
}

/// Charging the named fee succeeds: there is no such fee, or the funds cover it and
/// there is a treasury to receive it.
pub open spec fn fee_payable(info: ContractInfo, funds: Seq<Coin>, name: Seq<char>) -> bool {
    match fee_named(info.fees@, name) {
        None => true,
        Some(f) => funds_cover(funds, f.value) && info.treasuries@.len() > 0,
    }
}

/// How many transfers charging the named fee makes: one per contract treasury when the
/// schedule has such a fee, none otherwise.
pub open spec fn fee_count(info: ContractInfo, name: Seq<char>) -> int {
    match fee_named(info.fees@, name) {
        None => 0,
        Some(_) => info.treasuries@.len() as int,
    }
}

/// The transfers that charging the named fee makes: none without such a fee, else the
/// fee shared equally among the contract's treasuries.
pub open spec fn fee_transfers(info: ContractInfo, name: Seq<char>, t: Seq<BankTransfer>) -> bool {
    match fee_named(info.fees@, name) {
        None => t.len() == 0,
        Some(f) => {
            &&& t.len() == info.treasuries@.len()
            &&& transfers_total(t) == f.value.amount
            &&& forall|i: int|
                0 <= i < t.len() ==> {
                    &&& (#[trigger] t[i]).to_address@ == info.treasuries@[i]@
                    &&& t[i].denom@ == f.value.denom@
                    &&& t[i].amount == equal_share(
                        f.value.amount as int,
                        info.treasuries@.len() as int,
                        i,
                    )
                }
        },
    }
}

/// The error that charging the named fee fails with.
pub open spec fn fee_failure(info: ContractInfo, funds: Seq<Coin>, name: Seq<char>, e: ContractError) -> bool {
    match fee_named(info.fees@, name) {
        None => false,
        Some(f) => if !funds_cover(funds, f.value) {
            e is InsufficientFund
        } else {
            e is FailedToMakePayment
        },
    }
}

impl ContractInfo {
    /// The fee of the given name, if the schedule has one.
    pub fn fee_by_name(&self, name: &str) -> (r: Option<Coin>)
        ensures
            match fee_named(self.fees@, name@) {
                Some(f) => r == Some(f.value),
                None => r is None,
            },
    {
        let mut i: usize = 0;
        assert(self.fees@.subrange(0, self.fees@.len() as int) =~= self.fees@);
        while i < self.fees.len()
            invariant
                i <= self.fees@.len(),
                fee_named(self.fees@, name@) == fee_named(
                    self.fees@.subrange(i as int, self.fees@.len() as int),
                    name@,
                ),
            decreases self.fees.len() - i,
        {
            if str_equals(&self.fees[i].name, name) {
                return Some(self.fees[i].value.clone());
            }
            assert(self.fees@.subrange(i as int, self.fees@.len() as int).drop_first()
                =~= self.fees@.subrange(i + 1, self.fees@.len() as int));
            i = i + 1;
        }
        None
    }

    /// Charges the named fee: transfers that share it equally among the contract's
    /// treasuries. Nothing is charged when the schedule has no such fee. It fails when
    /// the attached funds do not cover the fee, or when there is no treasury to pay.
    pub fn try_paying_contract_treasuries(&self, funds: &Vec<Coin>, fee_name: &str) -> (r: Result<
        Vec<BankTransfer>,
        ContractError,
    >)
        ensures
            fee_payable(*self, funds@, fee_name@) ==> (r matches Ok(t) && fee_transfers(
                *self,
                fee_name@,
                t@,
            )),
            !fee_payable(*self, funds@, fee_name@) ==> (r matches Err(e) && fee_failure(
                *self,
                funds@,
                fee_name@,
                e,
            )),
    {
        match self.fee_by_name(fee_name) {
            None => Ok(Vec::new()),
            Some(fee) => {
                if funds.len() == 0 || funds[0].amount < fee.amount || funds[0].denom != fee.denom {
                    return Err(
                        ContractError::InsufficientFund {
                            text: to_owned_string("The attached funds do not cover the fee"),
                        },
                    );
                }
                if self.treasuries.len() == 0 {
                    return Err(
                        ContractError::FailedToMakePayment {
                            text: to_owned_string("No contract treasury to receive the fee"),
                        },
                    );
                }
                Ok(split_equally(&self.treasuries, &fee))
            },
        }
    }
}

} // verus!
