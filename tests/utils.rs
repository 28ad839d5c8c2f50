use pix0_collection_contract::checks::coin_text;
use pix0_collection_contract::state::Coin;
use pix0_collection_contract::text::{collection_id, str_lt};
use pix0_collection_contract::utils::{
    nft_token_id, str_to_num, str_to_u128, str_to_u64, u128_to_string, u64_to_hex,
};

#[test]
fn parses_numbers_or_falls_back() {
    assert_eq!(str_to_num("42".to_string()), 42);
    assert_eq!(str_to_num("-17".to_string()), -17);
    assert_eq!(str_to_num("x1".to_string()), -1);
    assert_eq!(str_to_num("".to_string()), -1);
    assert_eq!(str_to_num("99999999999".to_string()), -1);
    assert_eq!(str_to_u64("20502".to_string(), 7), 20502);
    assert_eq!(str_to_u64("+8".to_string(), 7), 8);
    assert_eq!(str_to_u64("-8".to_string(), 7), 7);
    assert_eq!(str_to_u64("seed".to_string(), 20502), 20502);
    assert_eq!(str_to_u128("340282366920938463463374607431768211455".to_string(), 0), u128::MAX);
    assert_eq!(str_to_u128("340282366920938463463374607431768211456".to_string(), 3), 3);
}

#[test]
fn collection_id_joins_name_and_symbol() {
    assert_eq!(collection_id("Test Collection".to_string(), "TC1".to_string()), "Test Collection-TC1");
    assert_eq!(collection_id(String::new(), String::new()), "-");
}

#[test]
fn lexicographic_order() {
    assert!(str_lt("Item #001", "Item #0010"));
    assert!(str_lt("Item #0010", "Item #002"));
    assert!(!str_lt("abc", "abc"));
    assert!(str_lt("", "a"));
    assert!(!str_lt("b", "a"));
}

#[test]
fn hex_is_sixteen_lowercase_digits() {
    assert_eq!(u64_to_hex(0), "0000000000000000");
    assert_eq!(u64_to_hex(255), "00000000000000ff");
    assert_eq!(u64_to_hex(u64::MAX), "ffffffffffffffff");
    assert_eq!(u64_to_hex(0x0123456789abcdef), "0123456789abcdef");
}

#[test]
fn token_id_is_derived_from_the_item() {
    let a = nft_token_id("Item #001", "owner", "Test Collection", "TC1");
    let b = nft_token_id("Item #001", "owner", "Test Collection", "TC1");
    let c = nft_token_id("Item #002", "owner", "Test Collection", "TC1");
    assert_eq!(a, b);
    assert_ne!(a, c);
    assert!(a.starts_with("Nft"));
    assert_eq!(a.len(), 19);
    assert!(a[3..].chars().all(|ch| ch.is_ascii_hexdigit() && !ch.is_ascii_uppercase()));
}

#[test]
fn decimal_text_of_amounts() {
    assert_eq!(u128_to_string(0), "0");
    assert_eq!(u128_to_string(1500), "1500");
    assert_eq!(u128_to_string(u128::MAX), "340282366920938463463374607431768211455");
    assert_eq!(coin_text(&Coin { amount: 123900, denom: "uconst".to_string() }), "123900uconst");
}
