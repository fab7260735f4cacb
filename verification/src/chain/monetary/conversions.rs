//! Amounts as text, and the checks on amounts and fees.

use crate::chain::monetary::{
    DUST_THRESHOLD, MAX_TRANSACTION_FEE, MIN_TRANSACTION_FEE, SATOSHIS_PER_COIN,
};
use crate::error::{decimal_text, spec_decimal};
use vstd::prelude::*;
use vstd::string::*;

verus! {

/// The digit of `n` that counts `unit`, as a character.
pub open spec fn spec_digit_at(n: nat, unit: nat) -> char {
    seq!['0', '1', '2', '3', '4', '5', '6', '7', '8', '9'][(n / unit % 10) as int]
}

/// The eight decimal digits of a number below a hundred million, zeros in
/// front.
pub open spec fn spec_eight_digits(n: nat) -> Seq<char> {
    seq![
        spec_digit_at(n, 10_000_000),
        spec_digit_at(n, 1_000_000),
        spec_digit_at(n, 100_000),
        spec_digit_at(n, 10_000),
        spec_digit_at(n, 1_000),
        spec_digit_at(n, 100),
        spec_digit_at(n, 10),
        spec_digit_at(n, 1),
    ]
}

/// An amount in coins with eight decimals, followed by the word coins.
pub open spec fn spec_format_satoshis(satoshis: u64) -> Seq<char> {
    spec_decimal((satoshis / SATOSHIS_PER_COIN) as nat) + "."@ + spec_eight_digits(
        (satoshis % SATOSHIS_PER_COIN) as nat,
    ) + " coins"@
}

/// Formats `n` with `format!("{:08}", n)`: for a number below a hundred
/// million, its decimal digits with zeros in front up to eight places.
#[verifier::external_body]
fn eight_digits(n: u64) -> (text: String)
    requires
        n < 100_000_000,
    ensures
        text@ == spec_eight_digits(n as nat),
{
    format!("{:08}", n)
}

/// The amount in coins with eight decimals, as in `"1.00000000 coins"`.
pub fn format_satoshis(satoshis: u64) -> (text: String)
    ensures
        text@ == spec_format_satoshis(satoshis),
{
    let whole = decimal_text(satoshis / SATOSHIS_PER_COIN);
    let fraction = eight_digits(satoshis % SATOSHIS_PER_COIN);
    let text = whole.concat(".").concat(fraction.as_str()).concat(" coins");
    assert(text@ =~= spec_format_satoshis(satoshis));
    text
}

/// Whether `amount` is at least the dust threshold.
pub fn is_above_dust_threshold(amount: u64) -> (ok: bool)
    ensures
        ok == (amount >= DUST_THRESHOLD),
{
    amount >= DUST_THRESHOLD
}

/// Whether `fee` lies between the minimum and the maximum fee, both included.
pub fn is_valid_fee(fee: u64) -> (ok: bool)
    ensures
        ok == (MIN_TRANSACTION_FEE <= fee <= MAX_TRANSACTION_FEE),
{
    MIN_TRANSACTION_FEE <= fee && fee <= MAX_TRANSACTION_FEE
}

} // verus!
