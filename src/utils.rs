use vstd::prelude::*;
use vstd::string::StrSliceExecFns;
use vstd::string::StringExecFns;
use crate::text::to_owned_string;

verus! {

pub open spec fn is_digit(c: char) -> bool {
    '0' <= c && c <= '9'
}

/// The number that a run of decimal digits spells.
pub open spec fn digits_value(d: Seq<char>) -> int
    decreases d.len(),
{
    if d.len() == 0 {
        0
    } else {
        digits_value(d.drop_last()) * 10 + (d.last() as int - '0' as int)
    }
}

pub open spec fn all_digits(d: Seq<char>) -> bool {
    d.len() > 0 && forall|i: int| 0 <= i < d.len() ==> is_digit(#[trigger] d[i])
}

/// The value of an optional `+` followed by one or more decimal digits.
pub open spec fn unsigned_decimal(s: Seq<char>) -> Option<int> {
    let d = if s.len() > 0 && s[0] == '+' {
        s.drop_first()
    } else {
        s
    };
    if all_digits(d) {
        Some(digits_value(d))
    } else {
        None
    }
}

/// The value of an optional `+` or `-` followed by one or more decimal digits.
pub open spec fn signed_decimal(s: Seq<char>) -> Option<int> {
    if s.len() > 0 && s[0] == '-' {
        if all_digits(s.drop_first()) {
            Some(-digits_value(s.drop_first()))
        } else {
            None
        }
    } else {
        unsigned_decimal(s)
    }
}

/// Relies on `str::parse::<i32>`: accepts an optional sign and decimal digits whose
/// value fits in an `i32`, and fails on anything else.
#[verifier::external_body]
fn parse_i32(s: &str) -> (r: Option<i32>)
    ensures
        r == match signed_decimal(s@) {
            Some(v) => if i32::MIN <= v <= i32::MAX {
                Some(v as i32)
            } else {
                None
            },
            None => None,
        },
{
    s.parse::<i32>().ok()
}

/// Relies on `str::parse::<u64>`: accepts an optional `+` and decimal digits whose value
/// fits in a `u64`, and fails on anything else.
#[verifier::external_body]
fn parse_u64(s: &str) -> (r: Option<u64>)
    ensures
        r == match unsigned_decimal(s@) {
            Some(v) => if v <= u64::MAX {
                Some(v as u64)
            } else {
                None
            },
            None => None,
        },
{
    s.parse::<u64>().ok()
}

/// Relies on `str::parse::<u128>`: accepts an optional `+` and decimal digits whose
/// value fits in a `u128`, and fails on anything else.
#[verifier::external_body]
fn parse_u128(s: &str) -> (r: Option<u128>)
    ensures
        r == match unsigned_decimal(s@) {
            Some(v) => if v <= u128::MAX {
                Some(v as u128)
            } else {
                None
            },
            None => None,
        },
{
    s.parse::<u128>().ok()
}

/// The decimal number in `num_str`, or -1 when it is not one that fits in an `i32`.
pub fn str_to_num(num_str: String) -> (r: i32)
    ensures
        r == match signed_decimal(num_str@) {
            Some(v) => if i32::MIN <= v <= i32::MAX {
                v as i32
            } else {
                -1i32
            },
            None => -1i32,
        },
{
    match parse_i32(num_str.as_str()) {
        Some(v) => v,
        None => -1,
    }
}

/// The decimal number in `num_str`, or `default` when it is not one that fits in a `u64`.
pub fn str_to_u64(num_str: String, default: u64) -> (r: u64)
    ensures
        r == match unsigned_decimal(num_str@) {
            Some(v) => if v <= u64::MAX {
                v as u64
            } else {
                default
            },
            None => default,
        },
{
    match parse_u64(num_str.as_str()) {
        Some(v) => v,
        None => default,
    }
}

/// The decimal number in `num_str`, or `null_replace_by` when it is not one that fits in
/// a `u128`.
pub fn str_to_u128(num_str: String, null_replace_by: u128) -> (r: u128)
    ensures
        r == match unsigned_decimal(num_str@) {
            Some(v) => if v <= u128::MAX {
                v as u128
            } else {
                null_replace_by
            },
            None => null_replace_by,
        },
{
    match parse_u128(num_str.as_str()) {
        Some(v) => v,
        None => null_replace_by,
    }
}

/// The hash of a token's identifying strings, as `DefaultHasher` computes it.
pub uninterp spec fn token_key_hash(
    item_name: Seq<char>,
    owner: Seq<char>,
    collection_name: Seq<char>,
    collection_symbol: Seq<char>,
) -> u64;

/// Relies on `BuildHasher::hash_one` with std's `DefaultHasher`, whose keys are fixed,
/// so that the result depends on the four strings alone. std may change the algorithm
/// between Rust releases: token ids are stable for one build of the toolchain.
#[verifier::external_body]
fn hash_token_key(item_name: &str, owner: &str, collection_name: &str, collection_symbol: &str) -> (r: u64)
    ensures
        r == token_key_hash(item_name@, owner@, collection_name@, collection_symbol@),
{
    std::hash::BuildHasher::hash_one(
        &std::hash::BuildHasherDefault::<std::collections::hash_map::DefaultHasher>::default(),
        (item_name, owner, collection_name, collection_symbol),
    )
}

pub const HEX_DIGITS: &'static str = "0123456789abcdef";

/// The last `n` hexadecimal digits of `v`, most significant first, in lower case.
pub open spec fn hex_digits(v: nat, n: nat) -> Seq<char>
    decreases n,
{
    if n == 0 {
        Seq::empty()
    } else {
        hex_digits(v / 16, (n - 1) as nat).push(HEX_DIGITS@[(v % 16) as int])
    }
}

/// The 16 hexadecimal digits of `v`.
pub fn u64_to_hex(v: u64) -> (r: String)
    ensures
        r@ == hex_digits(v as nat, 16),
{
    proof {
        reveal_strlit("0123456789abcdef");
    }
    let mut digits: [u8; 16] = [0u8; 16];
    let mut x: u64 = v;
    let mut k: usize = 16;
    assert(pow16(0) == 1);
    assert((v as nat) / 1 == v as nat);
    while k > 0
        invariant
            k <= 16,
            x as nat == (v as nat) / pow16((16 - k) as nat),
            forall|j: int|
                k <= j < 16 ==> #[trigger] digits@[j] as nat == ((v as nat) / pow16((15 - j) as nat)) % 16,
        decreases k,
    {
        k = k - 1;
        digits[k] = (x % 16) as u8;
        proof {
            lemma_pow16_step((16 - k - 1) as nat, v as nat);
        }
        x = x / 16;
    }
    let mut r = to_owned_string("");
    proof {
        reveal_strlit("");
    }
    let mut i: usize = 0;
    while i < 16
        invariant
            i <= 16,
            HEX_DIGITS@.len() == 16,
            is_ascii_hex(),
            forall|j: int| 0 <= j < 16 ==> #[trigger] digits@[j] as nat == ((v as nat) / pow16((15 - j) as nat)) % 16,
            r@ == hex_digits((v as nat) / pow16((16 - i) as nat), i as nat),
        decreases 16 - i,
    {
        let d = digits[i] as usize;
        let piece = HEX_DIGITS.substring_ascii(d, d + 1);
        proof {
            lemma_pow16_step((15 - i) as nat, v as nat);
            assert(piece@ =~= seq![HEX_DIGITS@[d as int]]);
        }
        r.append(piece);
        i = i + 1;
    }
    proof {
        assert(pow16(0) == 1);
    }
    r
}

pub open spec fn pow16(n: nat) -> nat
    decreases n,
{
    if n == 0 {
        1
    } else {
        16 * pow16((n - 1) as nat)
    }
}

proof fn lemma_pow16_step(n: nat, v: nat)
    ensures
        pow16(n) > 0,
        v / pow16(n + 1) == (v / pow16(n)) / 16,
    decreases n,
{
    if n > 0 {
        lemma_pow16_step((n - 1) as nat, v);
    }
    assert(pow16(n + 1) == 16 * pow16(n));
    vstd::arithmetic::div_mod::lemma_div_denominator(v as int, pow16(n) as int, 16);
    assert(pow16(n) * 16 == 16 * pow16(n)) by (nonlinear_arith);
}

spec fn is_ascii_hex() -> bool {
    vstd::string::is_ascii(HEX_DIGITS)
}

pub const DECIMAL_DIGITS: &'static str = "0123456789";

/// The decimal digits of `v`, most significant first, without leading zeros.
pub open spec fn decimal_of(v: nat) -> Seq<char>
    decreases v,
{
    if v < 10 {
        seq![DECIMAL_DIGITS@[v as int]]
    } else {
        decimal_of(v / 10).push(DECIMAL_DIGITS@[(v % 10) as int])
    }
}

/// The decimal form of `v`.
pub fn u128_to_string(v: u128) -> (r: String)
    ensures
        r@ == decimal_of(v as nat),
    decreases v,
{
    proof {
        reveal_strlit("0123456789");
    }
    assert(vstd::string::is_ascii(DECIMAL_DIGITS));
    let d = (v % 10) as usize;
    let digit = DECIMAL_DIGITS.substring_ascii(d, d + 1);
    assert(digit@ =~= seq![DECIMAL_DIGITS@[d as int]]);
    if v < 10 {
        to_owned_string(digit)
    } else {
        let mut s = u128_to_string(v / 10);
        s.append(digit);
        s
    }
}

/// The token id of a minted item: "Nft" followed by the hexadecimal hash of the item's
/// name and its collection's owner, name and symbol.
pub fn nft_token_id(item_name: &str, owner: &str, collection_name: &str, collection_symbol: &str) -> (r: String)
    ensures
        r@ == "Nft"@ + hex_digits(
            token_key_hash(item_name@, owner@, collection_name@, collection_symbol@) as nat,
            16,
        ),
{
    let h = hash_token_key(item_name, owner, collection_name, collection_symbol);
    let hex = u64_to_hex(h);
    let prefix = to_owned_string("Nft");
    prefix.concat(hex.as_str())
}

} // verus!
