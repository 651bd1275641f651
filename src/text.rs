//! Decimal numerals and JSON argument strings of the calls that deliver assets.
use vstd::prelude::*;

use crate::{AccountId, PublicKey, TokenId};

verus! {

/// The character of a decimal digit.
pub open spec fn digit_char(d: nat) -> char
    recommends
        d < 10,
{
    seq!['0', '1', '2', '3', '4', '5', '6', '7', '8', '9'][d as int]
}

pub open spec fn is_digit(c: char) -> bool {
    '0' <= c && c <= '9'
}

/// The value of a decimal digit character.
pub open spec fn digit_value(c: char) -> nat {
    (c as u32 - '0' as u32) as nat
}

/// The number that a sequence of decimal digits writes, most significant first.
pub open spec fn decimal_value(s: Seq<char>) -> nat
    decreases s.len(),
{
    if s.len() == 0 {
        0
    } else {
        decimal_value(s.drop_last()) * 10 + digit_value(s.last())
    }
}

/// The decimal numeral of `n`: its digits, with no sign and no leading zero.
pub open spec fn decimal_of(n: nat) -> Seq<char>
    decreases n,
{
    if n < 10 {
        seq![digit_char(n)]
    } else {
        decimal_of(n / 10).push(digit_char(n % 10))
    }
}

/// Digits only, at least one.
pub open spec fn is_decimal(s: Seq<char>) -> bool {
    s.len() > 0 && forall|i: int| 0 <= i < s.len() ==> is_digit(#[trigger] s[i])
}

/// What reading an unsigned 128-bit integer from `s` gives: an optional `+`
/// and then decimal digits, whose value must fit.
pub open spec fn parsed_u128(s: Seq<char>) -> Option<u128> {
    let d = if s.len() > 0 && s[0] == '+' { s.drop_first() } else { s };
    if is_decimal(d) && decimal_value(d) <= u128::MAX {
        Some(decimal_value(d) as u128)
    } else {
        None
    }
}

/// Relies on `str::parse::<u128>`: it accepts an optional `+` followed by
/// decimal digits only, and fails on anything else and on overflow.
#[verifier::external_body]
fn parse_u128(s: &str) -> (r: Option<u128>)
    ensures
        r == parsed_u128(s@),
{
    s.parse::<u128>().ok()
}

/// Relies on `ToString::to_string` through `u128`'s `Display`: the decimal
/// numeral of the value.
#[verifier::external_body]
fn u128_to_decimal(n: u128) -> (r: String)
    ensures
        r@ == decimal_of(n as nat),
{
    n.to_string()
}

/// The number that `s` writes, if it is a valid unsigned 128-bit numeral.
pub fn parse_amount(s: &String) -> (r: Option<u128>)
    ensures
        r == parsed_u128(s@),
{
    parse_u128(s.as_str())
}

/// The decimal numeral of an amount.
pub fn amount_to_string(n: u128) -> (r: String)
    ensures
        r@ == decimal_of(n as nat),
{
    u128_to_decimal(n)
}

proof fn lemma_digit_char(d: nat)
    requires
        d < 10,
    ensures
        is_digit(digit_char(d)),
        digit_value(digit_char(d)) == d,
        digit_char(d) != '+',
{
    let t = seq!['0', '1', '2', '3', '4', '5', '6', '7', '8', '9'];
    assert(t[0] == '0' && t[1] == '1' && t[2] == '2' && t[3] == '3' && t[4] == '4');
    assert(t[5] == '5' && t[6] == '6' && t[7] == '7' && t[8] == '8' && t[9] == '9');
}

/// The numeral of `n` is digits only, and reads back as `n`.
pub proof fn lemma_decimal_of(n: nat)
    ensures
        is_decimal(decimal_of(n)),
        decimal_value(decimal_of(n)) == n,
        decimal_of(n)[0] != '+',
    decreases n,
{
    if n < 10 {
        lemma_digit_char(n);
        assert(decimal_of(n).drop_last() =~= Seq::<char>::empty());
        assert(decimal_value(decimal_of(n)) == decimal_value(Seq::<char>::empty()) * 10 + digit_value(digit_char(n)));
    } else {
        lemma_decimal_of(n / 10);
        lemma_digit_char(n % 10);
        let s = decimal_of(n);
        assert(s.drop_last() =~= decimal_of(n / 10));
        assert(s.last() == digit_char(n % 10));
        assert(decimal_value(s) == decimal_value(decimal_of(n / 10)) * 10 + digit_value(s.last()));
        assert((n / 10) * 10 + n % 10 == n);
        assert forall|i: int| 0 <= i < s.len() implies is_digit(#[trigger] s[i]) by {
            if i < s.len() - 1 {
                assert(s[i] == decimal_of(n / 10)[i]);
            }
        }
    }
}

/// Reading back the numeral of an amount gives the amount.
pub proof fn lemma_parse_decimal_of(n: u128)
    ensures
        parsed_u128(decimal_of(n as nat)) == Some(n),
{
    lemma_decimal_of(n as nat);
}

/// The JSON string literal of `s`: quoted, with the characters that JSON asks
/// for escaped.
pub uninterp spec fn json_string_of(s: Seq<char>) -> Seq<char>;

/// Relies on `serde_json::to_string` on a `str`: the JSON string literal of
/// the text. Serialising a string does not fail.
#[verifier::external_body]
fn json_quote(s: &str) -> (r: String)
    ensures
        r@ == json_string_of(s@),
{
    serde_json::to_string(s).unwrap_or_default()
}

pub open spec fn storage_deposit_args_of(receiver: Seq<char>) -> Seq<char> {
    "{\"account_id\":"@ + json_string_of(receiver) + "}"@
}

pub open spec fn ft_transfer_args_of(receiver: Seq<char>, amount: u128) -> Seq<char> {
    "{\"amount\":"@ + json_string_of(decimal_of(amount as nat)) + ",\"memo\":\"Keypom FT Tokens\",\"receiver_id\":"@
        + json_string_of(receiver) + "}"@
}

pub open spec fn nft_transfer_args_of(receiver: Seq<char>, token: Seq<char>) -> Seq<char> {
    "{\"receiver_id\":"@ + json_string_of(receiver) + ",\"token_id\":"@ + json_string_of(token) + "}"@
}

pub open spec fn create_account_args_of(account: Seq<char>, key: Seq<char>) -> Seq<char> {
    "{\"new_account_id\":"@ + json_string_of(account) + ",\"new_public_key\":"@ + json_string_of(key) + "}"@
}

/// Arguments of the creation of `account` with the full-access key `key`, as a JSON object.
pub fn create_account_args(account: &AccountId, key: &PublicKey) -> (r: String)
    ensures
        r@ == create_account_args_of(account@, key@),
{
    let mut r = String::from_str("{\"new_account_id\":");
    let qa = json_quote(account.as_str());
    r.append(qa.as_str());
    r.append(",\"new_public_key\":");
    let qk = json_quote(key.as_str());
    r.append(qk.as_str());
    r.append("}");
    r
}

/// Arguments of the registration of `receiver` on a token contract, as a JSON object.
pub fn storage_deposit_args(receiver: &AccountId) -> (r: String)
    ensures
        r@ == storage_deposit_args_of(receiver@),
{
    let mut r = String::from_str("{\"account_id\":");
    let q = json_quote(receiver.as_str());
    r.append(q.as_str());
    r.append("}");
    r
}

/// Arguments of a transfer of `amount` fungible tokens to `receiver`, as a JSON
/// object whose keys are in order.
pub fn ft_transfer_args(receiver: &AccountId, amount: u128) -> (r: String)
    ensures
        r@ == ft_transfer_args_of(receiver@, amount),
{
    let mut r = String::from_str("{\"amount\":");
    let digits = u128_to_decimal(amount);
    let qa = json_quote(digits.as_str());
    r.append(qa.as_str());
    r.append(",\"memo\":\"Keypom FT Tokens\",\"receiver_id\":");
    let qr = json_quote(receiver.as_str());
    r.append(qr.as_str());
    r.append("}");
    r
}

/// Arguments of a transfer of the token `token` to `receiver`, as a JSON object.
pub fn nft_transfer_args(receiver: &AccountId, token: &TokenId) -> (r: String)
    ensures
        r@ == nft_transfer_args_of(receiver@, token@),
{
    let mut r = String::from_str("{\"receiver_id\":");
    let qr = json_quote(receiver.as_str());
    r.append(qr.as_str());
    r.append(",\"token_id\":");
    let qt = json_quote(token.as_str());
    r.append(qt.as_str());
    r.append("}");
    r
}

} // verus!
