use vstd::prelude::*;
use crate::error::ContractError;
use crate::payment::{pct_sum, pct_upto};
use crate::state::{
    Coin, Collection, PaymentByPercentage, Royalty, Treasury, COLLECTION_STATUS_ACTIVATED,
    COLLECTION_STATUS_DEACTIVATED, COLLECTION_STATUS_DRAFT, DEFAULT_DENOM, payment_share,
    payment_shares, treasury_share, treasury_shares,
};
use crate::config::funds_cover;
use crate::text::to_owned_string;
use crate::utils::{decimal_of, u128_to_string};
use vstd::string::StringExecFns;

verus! {

/// Sum of the percentages of the first `n` treasuries.
pub open spec fn treasury_pct_upto(s: Seq<Treasury>, n: int) -> int
    decreases n,
{
    if n <= 0 {
        0
    } else {
        treasury_pct_upto(s, n - 1) + s[n - 1].percentage
    }
}

/// Sum of the percentages of the first `n` royalties.
pub open spec fn royalty_pct_upto(s: Seq<Royalty>, n: int) -> int
    decreases n,
{
    if n <= 0 {
        0
    } else {
        royalty_pct_upto(s, n - 1) + s[n - 1].percentage
    }
}

pub open spec fn spec_status_valid(status: u8) -> bool {
    status == COLLECTION_STATUS_DRAFT || status == COLLECTION_STATUS_ACTIVATED || status
        == COLLECTION_STATUS_DEACTIVATED
}

/// Treasuries, when given, must share out exactly 100 percent.
pub open spec fn treasuries_ok(t: Option<Vec<Treasury>>) -> bool {
    match t {
        Some(v) => treasury_pct_upto(v@, v@.len() as int) == 100,
        None => true,
    }
}

/// Royalties, when given, may take at most 15 percent in all.
pub open spec fn royalties_ok(r: Option<Vec<Royalty>>) -> bool {
    match r {
        Some(v) => royalty_pct_upto(v@, v@.len() as int) <= 15,
        None => true,
    }
}

proof fn lemma_treasury_pct_monotone(s: Seq<Treasury>, i: int, j: int)
    requires
        0 <= i <= j <= s.len(),
    ensures
        treasury_pct_upto(s, i) <= treasury_pct_upto(s, j),
    decreases j - i,
{
    if i < j {
        lemma_treasury_pct_monotone(s, i, j - 1);
    }
}

proof fn lemma_royalty_pct_monotone(s: Seq<Royalty>, i: int, j: int)
    requires
        0 <= i <= j <= s.len(),
    ensures
        royalty_pct_upto(s, i) <= royalty_pct_upto(s, j),
    decreases j - i,
{
    if i < j {
        lemma_royalty_pct_monotone(s, i, j - 1);
    }
}

pub fn is_status_valid(status: u8) -> (r: bool)
    ensures
        r == spec_status_valid(status),
{
    status == COLLECTION_STATUS_DRAFT || status == COLLECTION_STATUS_ACTIVATED || status
        == COLLECTION_STATUS_DEACTIVATED
}

/// Resolves an optional status: a given one must be one of the three known values;
/// none given means draft.
pub fn check_if_collection_status_valid(status: Option<u8>) -> (r: Result<u8, ContractError>)
    ensures
        match status {
            None => r == Ok::<u8, ContractError>(COLLECTION_STATUS_DRAFT),
            Some(s) => if spec_status_valid(s) {
                r == Ok::<u8, ContractError>(s)
            } else {
                r matches Err(ContractError::InvalidCollectionStatus { .. })
            },
        },
{
    match status {
        Some(stat) => {
            if !is_status_valid(stat) {
                return Err(
                    ContractError::InvalidCollectionStatus {
                        text: to_owned_string("Invalid collection status"),
                    },
                );
            }
            Ok(stat)
        },
        None => Ok(COLLECTION_STATUS_DRAFT),
    }
}

/// `Ok(false)` when no treasuries are given, `Ok(true)` when their percentages add up to
/// exactly 100, an allocation error otherwise.
pub fn are_treasuries_valid(treasuries: &Option<Vec<Treasury>>) -> (r: Result<bool, ContractError>)
    ensures
        match treasuries {
            None => r == Ok::<bool, ContractError>(false),
            Some(t) => if treasury_pct_upto(t@, t@.len() as int) == 100 {
                r == Ok::<bool, ContractError>(true)
            } else {
                r matches Err(ContractError::InvalidAllocationsForTreasuries { .. })
            },
        },
{
    match treasuries {
        None => Ok(false),
        Some(ts) => {
            let mut total: u32 = 0;
            let mut i: usize = 0;
            while i < ts.len()
                invariant
                    *treasuries == Some(*ts),
                    i <= ts@.len(),
                    total == treasury_pct_upto(ts@, i as int),
                    total <= 100,
                decreases ts.len() - i,
            {
                total = total + ts[i].percentage as u32;
                i = i + 1;
                if total > 100 {
                    proof {
                        lemma_treasury_pct_monotone(ts@, i as int, ts@.len() as int);
                    }
                    return Err(
                        ContractError::InvalidAllocationsForTreasuries {
                            message: to_owned_string("Treasury percentages must total 100"),
                        },
                    );
                }
            }
            if total != 100 {
                return Err(
                    ContractError::InvalidAllocationsForTreasuries {
                        message: to_owned_string("Treasury percentages must total 100"),
                    },
                );
            }
            Ok(true)
        },
    }
}

/// `Ok(false)` when no royalties are given, `Ok(true)` when their percentages add up to
/// at most 15, an allocation error otherwise.
pub fn are_royalties_valid(royalties: &Option<Vec<Royalty>>) -> (r: Result<bool, ContractError>)
    ensures
        match royalties {
            None => r == Ok::<bool, ContractError>(false),
            Some(t) => if royalty_pct_upto(t@, t@.len() as int) <= 15 {
                r == Ok::<bool, ContractError>(true)
            } else {
                r matches Err(ContractError::InvalidAllocationsForRoyalties { .. })
            },
        },
{
    match royalties {
        None => Ok(false),
        Some(rs) => {
            let mut total: u32 = 0;
            let mut i: usize = 0;
            while i < rs.len()
                invariant
                    *royalties == Some(*rs),
                    i <= rs@.len(),
                    total == royalty_pct_upto(rs@, i as int),
                    total <= 15,
                decreases rs.len() - i,
            {
                total = total + rs[i].percentage as u32;
                i = i + 1;
                if total > 15 {
                    proof {
                        lemma_royalty_pct_monotone(rs@, i as int, rs@.len() as int);
                    }
                    return Err(
                        ContractError::InvalidAllocationsForRoyalties {
                            message: to_owned_string("Royalty percentages may total 15 at most"),
                        },
                    );
                }
            }
            Ok(true)
        },
    }
}

/// Compares the first attached fund with what is required: whether it covers it, and
/// the fund that was looked at (a zero coin when nothing was attached).
pub fn is_fund_sufficient(funds: &Vec<Coin>, required: &Coin) -> (r: (bool, Coin))
    ensures
        r.0 == funds_cover(funds@, *required),
        funds@.len() > 0 ==> r.1 == funds@[0],
        funds@.len() == 0 ==> r.1.amount == 0 && r.1.denom@ == DEFAULT_DENOM@,
{
    if funds.len() == 0 {
        return (false, Coin { amount: 0, denom: to_owned_string(DEFAULT_DENOM) });
    }
    let first = &funds[0];
    if first.amount < required.amount || first.denom != required.denom {
        (false, first.clone())
    } else {
        (true, first.clone())
    }
}

/// The first attached fund as text (amount in decimal, then denomination); a zero amount
/// of the default denomination when nothing is attached.
pub open spec fn sent_text(funds: Seq<Coin>) -> Seq<char> {
    if funds.len() > 0 {
        decimal_of(funds[0].amount as nat) + funds[0].denom@
    } else {
        decimal_of(0) + DEFAULT_DENOM@
    }
}

/// Fails with `InsufficientFund` unless the first attached fund covers `required`; the
/// error reports the fund sent and the amount required.
pub fn check_if_fund_sufficient(funds: &Vec<Coin>, required: &Coin) -> (r: Result<(), ContractError>)
    ensures
        r is Ok <==> funds_cover(funds@, *required),
        r is Err ==> (r matches Err(ContractError::InsufficientFund { text }) && text@
            == "Insufficient fund: sent:"@ + sent_text(funds@) + ", required: "@ + decimal_of(
            required.amount as nat,
        ) + required.denom@ + "!"@),
{
    let checked = is_fund_sufficient(funds, required);
    if !checked.0 {
        let text = to_owned_string("Insufficient fund: sent:").concat(coin_text(&checked.1).as_str()).concat(
            ", required: ",
        ).concat(coin_text(required).as_str()).concat("!");
        return Err(ContractError::InsufficientFund { text });
    }
    Ok(())
}

/// A coin as text: its amount in decimal followed by its denomination.
pub fn coin_text(c: &Coin) -> (r: String)
    ensures
        r@ == decimal_of(c.amount as nat) + c.denom@,
{
    u128_to_string(c.amount).concat(c.denom.as_str())
}

/// The payment shares of a collection whose treasuries are valid, or which has none
/// but an owner, share out exactly 100 percent.
pub proof fn lemma_shares_total(c: Collection, p: Seq<PaymentByPercentage>)
    requires
        payment_shares(p) == c.spec_shares(),
        treasuries_ok(c.treasuries),
        c.owner is Some,
    ensures
        pct_sum(p) == 100,
{
    assert(payment_shares(p).len() == p.len());
    match c.treasuries {
        Some(t) => {
            assert(treasury_shares(t@).len() == t@.len());
            assert forall|n: int| 0 <= n <= p.len() implies pct_upto(p, n) == treasury_pct_upto(t@, n) by {
                lemma_pct_matches(p, t@, n);
            }
        },
        None => {
            assert(p.len() == 1);
            assert(payment_shares(p)[0] == payment_share(p[0]));
            assert(pct_upto(p, 0) == 0);
        },
    }
}

proof fn lemma_pct_matches(p: Seq<PaymentByPercentage>, t: Seq<Treasury>, n: int)
    requires
        payment_shares(p) == treasury_shares(t),
        0 <= n <= p.len(),
    ensures
        pct_upto(p, n) == treasury_pct_upto(t, n),
    decreases n,
{
    assert(payment_shares(p).len() == p.len());
    assert(treasury_shares(t).len() == t.len());
    if n > 0 {
        lemma_pct_matches(p, t, n - 1);
        assert(payment_shares(p)[n - 1] == payment_share(p[n - 1]));
        assert(treasury_shares(t)[n - 1] == treasury_share(t[n - 1]));
    }
}

} // verus!
