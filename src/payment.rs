use vstd::prelude::*;
use crate::state::{Coin, PaymentByPercentage};

verus! {

/// An outgoing bank transfer: `amount` of `denom` to `to_address`.
#[derive(Debug, PartialEq)]
pub struct BankTransfer {
    pub to_address: String,
    pub amount: u128,
    pub denom: String,
}

/// Sum of the percentages of the first `n` entries.
pub open spec fn pct_upto(s: Seq<PaymentByPercentage>, n: int) -> int
    decreases n,
{
    if n <= 0 {
        0
    } else {
        pct_upto(s, n - 1) + s[n - 1].percentage
    }
}

pub open spec fn pct_sum(s: Seq<PaymentByPercentage>) -> int {
    pct_upto(s, s.len() as int)
}

/// What a share of `pct` percent of `total` comes to, rounded down.
pub open spec fn share(total: int, pct: int) -> int {
    total * pct / 100
}

/// Sum of the rounded-down shares of the first `n` entries.
pub open spec fn shares_upto(s: Seq<PaymentByPercentage>, total: int, n: int) -> int
    decreases n,
{
    if n <= 0 {
        0
    } else {
        shares_upto(s, total, n - 1) + share(total, s[n - 1].percentage as int)
    }
}

/// What rounding down leaves undistributed; it goes to the first recipient.
pub open spec fn split_remainder(s: Seq<PaymentByPercentage>, total: int) -> int {
    total - shares_upto(s, total, s.len() as int)
}

/// The amount that entry `i` receives when `total` is split by percentage.
pub open spec fn split_amount(s: Seq<PaymentByPercentage>, total: int, i: int) -> int {
    share(total, s[i].percentage as int) + if i == 0 {
        split_remainder(s, total)
    } else {
        0
    }
}

/// Sum of what the first `n` entries receive.
pub open spec fn split_upto(s: Seq<PaymentByPercentage>, total: int, n: int) -> int
    decreases n,
{
    if n <= 0 {
        0
    } else {
        split_upto(s, total, n - 1) + split_amount(s, total, n - 1)
    }
}

/// `t` is what splitting `total` by the percentages of `s` hands out: one transfer per
/// entry, to its wallet, in the total's denomination, of `split_amount`.
pub open spec fn split_of(s: Seq<PaymentByPercentage>, total: Coin, t: Seq<BankTransfer>) -> bool {
    &&& t.len() == s.len()
    &&& forall|i: int|
        0 <= i < t.len() ==> {
            &&& (#[trigger] t[i]).to_address@ == s[i].wallet@
            &&& t[i].denom@ == total.denom@
            &&& t[i].amount == split_amount(s, total.amount as int, i)
        }
}

/// Sum of the amounts of the first `n` transfers.
pub open spec fn transfers_upto(r: Seq<BankTransfer>, n: int) -> int
    decreases n,
{
    if n <= 0 {
        0
    } else {
        transfers_upto(r, n - 1) + r[n - 1].amount
    }
}

pub open spec fn transfers_total(r: Seq<BankTransfer>) -> int {
    transfers_upto(r, r.len() as int)
}

proof fn lemma_pct_monotone(s: Seq<PaymentByPercentage>, i: int, j: int)
    requires
        0 <= i <= j <= s.len(),
    ensures
        pct_upto(s, i) <= pct_upto(s, j),
    decreases j - i,
{
    if i < j {
        lemma_pct_monotone(s, i, j - 1);
    }
}

proof fn lemma_share_bounds(total: int, pct: int)
    requires
        total >= 0,
        0 <= pct,
    ensures
        0 <= share(total, pct),
        share(total, pct) * 100 <= total * pct,
        pct <= 100 ==> share(total, pct) <= total,
{
    assert(total * pct >= 0) by (nonlinear_arith)
        requires
            total >= 0,
            pct >= 0,
    ;
    let x = total * pct;
    assert((x / 100) * 100 <= x) by (nonlinear_arith)
        requires
            x >= 0,
    ;
    if pct <= 100 {
        assert(total * pct <= total * 100) by (nonlinear_arith)
            requires
                total >= 0,
                pct <= 100,
        ;
    }
}

proof fn lemma_shares_bound(s: Seq<PaymentByPercentage>, total: int, n: int)
    requires
        total >= 0,
        0 <= n <= s.len(),
    ensures
        0 <= shares_upto(s, total, n),
        shares_upto(s, total, n) * 100 <= total * pct_upto(s, n),
    decreases n,
{
    if n > 0 {
        lemma_shares_bound(s, total, n - 1);
        lemma_share_bounds(total, s[n - 1].percentage as int);
        assert(total * pct_upto(s, n) == total * pct_upto(s, n - 1) + total * s[n
            - 1].percentage) by (nonlinear_arith)
            requires
                pct_upto(s, n) == pct_upto(s, n - 1) + s[n - 1].percentage,
        ;
    }
}

proof fn lemma_shares_monotone(s: Seq<PaymentByPercentage>, total: int, i: int, j: int)
    requires
        total >= 0,
        0 <= i <= j <= s.len(),
    ensures
        shares_upto(s, total, i) <= shares_upto(s, total, j),
    decreases j - i,
{
    if i < j {
        lemma_shares_monotone(s, total, i, j - 1);
        lemma_share_bounds(total, s[j - 1].percentage as int);
    }
}

proof fn lemma_split_upto(s: Seq<PaymentByPercentage>, total: int, n: int)
    requires
        0 < n <= s.len(),
    ensures
        split_upto(s, total, n) == shares_upto(s, total, n) + split_remainder(s, total),
    decreases n,
{
    if n > 1 {
        lemma_split_upto(s, total, n - 1);
    } else {
        assert(split_upto(s, total, 0) == 0);
        assert(shares_upto(s, total, 0) == 0);
    }
}

/// Splitting by a non-empty list of percentages that sum to at most 100 (a treasury list
/// summing to exactly 100, a royalty list summing to at most 15) hands out the whole
/// total: what the recipients receive adds up to it exactly, rounding leaving nothing
/// behind and creating nothing.
pub proof fn lemma_split_is_exact(s: Seq<PaymentByPercentage>, total: u128)
    requires
        s.len() > 0,
        pct_sum(s) <= 100,
    ensures
        split_upto(s, total as int, s.len() as int) == total,
        split_remainder(s, total as int) >= 0,
{
    lemma_split_upto(s, total as int, s.len() as int);
    lemma_shares_bound(s, total as int, s.len() as int);
    let t = total as int;
    assert(t * pct_sum(s) <= t * 100) by (nonlinear_arith)
        requires
            t >= 0,
            pct_sum(s) <= 100,
    ;
}

/// Splits `total` across `payments` by their percentages, rounding each share down and
/// giving what rounding leaves over to the first recipient.
pub fn pay_by_percentage(payments: &Vec<PaymentByPercentage>, total: &Coin) -> (r: Vec<BankTransfer>)
    requires
        pct_sum(payments@) <= 100,
    ensures
        split_of(payments@, *total, r@),
        payments@.len() > 0 ==> transfers_total(r@) == total.amount,
{
    let ghost s = payments@;
    let ghost t = total.amount as int;
    let n = payments.len();
    let mut shares: Vec<u128> = Vec::new();
    let mut sum: u128 = 0;
    let mut i: usize = 0;
    while i < n
        invariant
            n == s.len(),
            s == payments@,
            t == total.amount,
            pct_sum(s) <= 100,
            i <= n,
            shares@.len() == i,
            forall|k: int| 0 <= k < i ==> #[trigger] shares@[k] == share(t, s[k].percentage as int),
            sum == shares_upto(s, t, i as int),
        decreases n - i,
    {
        proof {
            lemma_pct_monotone(s, i + 1, n as int);
            lemma_pct_monotone(s, i as int, i + 1);
            lemma_pct_monotone(s, 0, i as int);
            lemma_shares_bound(s, t, i + 1);
            lemma_share_bounds(t, s[i as int].percentage as int);
            assert(t * pct_upto(s, i + 1) <= t * 100) by (nonlinear_arith)
                requires
                    t >= 0,
                    pct_upto(s, i + 1) <= 100,
            ;
        }
        let pct = payments[i].percentage as u128;
        let q = total.amount / 100;
        let rem = total.amount % 100;
        assert(q * pct + rem * pct / 100 == share(t, pct as int)) by (nonlinear_arith)
            requires
                t == 100 * q + rem,
                0 <= rem < 100,
                pct >= 0,
        ;
        assert(q * pct <= t) by (nonlinear_arith)
            requires
                q * pct + rem * pct / 100 <= t,
                rem * pct >= 0,
        ;
        assert(rem * pct <= 100 * 100) by (nonlinear_arith)
            requires
                rem < 100,
                pct <= 100,
                rem >= 0,
        ;
        let part = q * pct + rem * pct / 100;
        shares.push(part);
        sum = sum + part;
        i = i + 1;
    }
    proof {
        lemma_shares_bound(s, t, n as int);
        assert(t * pct_sum(s) <= t * 100) by (nonlinear_arith)
            requires
                t >= 0,
                pct_sum(s) <= 100,
        ;
    }
    let leftover = total.amount - sum;
    let mut r: Vec<BankTransfer> = Vec::new();
    let mut j: usize = 0;
    while j < n
        invariant
            n == s.len(),
            s == payments@,
            t == total.amount,
            shares@.len() == n,
            forall|k: int| 0 <= k < n ==> #[trigger] shares@[k] == share(t, s[k].percentage as int),
            leftover == split_remainder(s, t),
            0 <= leftover,
            j <= n,
            r@.len() == j,
            forall|k: int|
                0 <= k < j ==> {
                    &&& (#[trigger] r@[k]).to_address@ == s[k].wallet@
                    &&& r@[k].denom@ == total.denom@
                    &&& r@[k].amount == split_amount(s, t, k)
                },
            transfers_upto(r@, j as int) == split_upto(s, t, j as int),
        decreases n - j,
    {
        let amount = if j == 0 {
            proof {
                lemma_shares_monotone(s, t, 1, n as int);
                assert(shares_upto(s, t, 0) == 0);
                assert(shares_upto(s, t, 1) == share(t, s[0].percentage as int));
            }
            shares[j] + leftover
        } else {
            shares[j]
        };
        let ghost prev = r@;
        r.push(
            BankTransfer { to_address: payments[j].wallet.clone(), amount, denom: total.denom.clone() },
        );
        proof {
            assert(r@.drop_last() =~= prev);
            assert forall|k: int| 0 <= k < j implies transfers_upto(r@, k) == transfers_upto(prev, k) by {
                lemma_transfers_prefix(r@, prev, k);
            }
            lemma_transfers_prefix(r@, prev, j as int);
        }
        j = j + 1;
    }
    proof {
        if n > 0 {
            lemma_split_is_exact(s, total.amount);
        }
    }
    r
}

proof fn lemma_transfers_prefix(a: Seq<BankTransfer>, b: Seq<BankTransfer>, k: int)
    requires
        0 <= k <= b.len(),
        b.len() <= a.len(),
        forall|i: int| 0 <= i < b.len() ==> a[i] == b[i],
    ensures
        transfers_upto(a, k) == transfers_upto(b, k),
    decreases k,
{
    if k > 0 {
        lemma_transfers_prefix(a, b, k - 1);
    }
}

} // verus!
