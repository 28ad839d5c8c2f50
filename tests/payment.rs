use pix0_collection_contract::config::{split_equally, ContractInfo, Fee};
use pix0_collection_contract::payment::pay_by_percentage;
use pix0_collection_contract::state::{Coin, PaymentByPercentage};

fn wallet(name: &str, percentage: u8) -> PaymentByPercentage {
    PaymentByPercentage { wallet: name.to_string(), percentage }
}

fn uconst(amount: u128) -> Coin {
    Coin { amount, denom: "uconst".to_string() }
}

#[test]
fn test_pay_by_percentage() {
    let wallets = vec![wallet("Michael", 25), wallet("Nick", 35), wallet("Jack", 40)];
    let total = uconst(13500000);
    let res = pay_by_percentage(&wallets, &total);
    let acc_total: u128 = res.iter().map(|t| t.amount).sum();
    assert_eq!(acc_total, 13500000);
    assert!(res.iter().all(|t| t.denom == "uconst"));
    assert_eq!(res[0].to_address, "Michael");
    assert_eq!(res[0].amount, 3375000);
    assert_eq!(res[1].amount, 4725000);
    assert_eq!(res[2].amount, 5400000);
}

#[test]
fn split_remainder_goes_to_first_recipient() {
    let wallets = vec![wallet("a", 33), wallet("b", 33), wallet("c", 34)];
    let res = pay_by_percentage(&wallets, &uconst(10));
    let amounts: Vec<u128> = res.iter().map(|t| t.amount).collect();
    assert_eq!(amounts, vec![4, 3, 3]);
}

#[test]
fn split_seventy_thirty_is_exact() {
    let wallets = vec![wallet("A", 70), wallet("B", 30)];
    let res = pay_by_percentage(&wallets, &uconst(123900));
    let amounts: Vec<u128> = res.iter().map(|t| t.amount).collect();
    assert_eq!(amounts, vec![86730, 37170]);
}

#[test]
fn split_of_zero_is_all_zero() {
    let wallets = vec![wallet("a", 50), wallet("b", 50)];
    let res = pay_by_percentage(&wallets, &uconst(0));
    assert_eq!(res.len(), 2);
    assert!(res.iter().all(|t| t.amount == 0));
}

#[test]
fn split_among_nobody_is_empty() {
    let res = pay_by_percentage(&Vec::new(), &uconst(500));
    assert!(res.is_empty());
}

#[test]
fn split_of_largest_amount_is_exact() {
    let wallets = vec![wallet("a", 1), wallet("b", 99)];
    let res = pay_by_percentage(&wallets, &uconst(u128::MAX));
    let sum = res[0].amount.checked_add(res[1].amount).unwrap();
    assert_eq!(sum, u128::MAX);
}

#[test]
fn equal_split_gives_remainder_to_first() {
    let wallets = vec!["t1".to_string(), "t2".to_string(), "t3".to_string()];
    let res = split_equally(&wallets, &uconst(3500));
    let amounts: Vec<u128> = res.iter().map(|t| t.amount).collect();
    assert_eq!(amounts, vec![1168, 1166, 1166]);
    assert_eq!(res[2].to_address, "t3");
}

#[test]
fn fee_without_schedule_entry_charges_nothing() {
    let info = ContractInfo {
        allowed_admins: vec!["admin".to_string()],
        treasuries: vec!["t1".to_string()],
        fees: vec![Fee { name: "OTHER".to_string(), value: uconst(10) }],
        log_last_payment: false,
    };
    let r = info.try_paying_contract_treasuries(&vec![uconst(5)], "NFT_MINTING_FEE").unwrap();
    assert!(r.is_empty());
}

#[test]
fn fee_not_covered_by_funds_fails() {
    let info = ContractInfo {
        allowed_admins: vec!["admin".to_string()],
        treasuries: vec!["t1".to_string()],
        fees: vec![Fee { name: "NFT_MINTING_FEE".to_string(), value: uconst(10) }],
        log_last_payment: false,
    };
    let r = info.try_paying_contract_treasuries(&vec![uconst(5)], "NFT_MINTING_FEE");
    assert_eq!(r.unwrap_err().kind(), "InsufficientFund");
    let wrong_denom = vec![Coin { amount: 50, denom: "uatom".to_string() }];
    let r = info.try_paying_contract_treasuries(&wrong_denom, "NFT_MINTING_FEE");
    assert_eq!(r.unwrap_err().kind(), "InsufficientFund");
}

#[test]
fn fee_without_treasuries_fails() {
    let info = ContractInfo {
        allowed_admins: vec!["admin".to_string()],
        treasuries: vec![],
        fees: vec![Fee { name: "NFT_MINTING_FEE".to_string(), value: uconst(10) }],
        log_last_payment: false,
    };
    let r = info.try_paying_contract_treasuries(&vec![uconst(50)], "NFT_MINTING_FEE");
    assert_eq!(r.unwrap_err().kind(), "FailedToMakePayment");
}

#[test]
fn royalty_split_hands_out_the_whole_total() {
    let wallets = vec![wallet("artist", 10), wallet("label", 5)];
    let res = pay_by_percentage(&wallets, &uconst(1000));
    let amounts: Vec<u128> = res.iter().map(|t| t.amount).collect();
    assert_eq!(amounts, vec![950, 50]);
}
