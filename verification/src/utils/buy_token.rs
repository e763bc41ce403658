//! The conversion of currency paid into sale tokens.

use crate::errors::ErrorMessage;
use vstd::arithmetic::div_mod::{lemma_basic_div, lemma_div_is_ordered};
use vstd::arithmetic::mul::lemma_mul_inequality;
use vstd::arithmetic::power::{lemma_pow0, lemma_pow_increases, lemma_pow_positive, pow};
use vstd::prelude::*;

verus! {

/// The scale of a fixed-point rate with `decimals` fractional digits: `10^decimals`.
pub open spec fn rate_scale(decimals: nat) -> nat {
    pow(10, decimals) as nat
}

/// The sale tokens bought with `amount` units of currency at the fixed-point
/// rate `rate / 10^decimals`, rounded down.
pub open spec fn tokens_for(amount: nat, rate: nat, decimals: nat) -> nat {
    (amount * rate) / rate_scale(decimals)
}

/// What a conversion yields: the rounded-down token amount, or
/// `ArithmeticOverflow` when the product `amount * rate` leaves 128 bits or
/// the token amount leaves 64 bits.
pub open spec fn conversion(amount: nat, rate: nat, decimals: nat) -> Result<u64, ErrorMessage> {
    if amount * rate > u128::MAX || tokens_for(amount, rate, decimals) > u64::MAX {
        Err(ErrorMessage::ArithmeticOverflow)
    } else {
        Ok(tokens_for(amount, rate, decimals) as u64)
    }
}

/// The scale is never zero.
pub proof fn lemma_rate_scale_positive(decimals: nat)
    ensures
        rate_scale(decimals) >= 1,
{
    lemma_pow_positive(10, decimals);
}

/// Paying more never buys less: at a fixed rate the token amount is monotonic
/// in the amount paid, and a payment that converts without overflow leaves
/// every smaller payment convertible too.
pub proof fn lemma_conversion_monotonic(paid_low: nat, paid_high: nat, rate: nat, decimals: nat)
    requires
        paid_low <= paid_high,
    ensures
        tokens_for(paid_low, rate, decimals) <= tokens_for(paid_high, rate, decimals),
        conversion(paid_high, rate, decimals) is Ok ==> conversion(paid_low, rate, decimals) is Ok,
        conversion(paid_low, rate, decimals) is Ok && conversion(paid_high, rate, decimals) is Ok
            ==> conversion(paid_low, rate, decimals)->Ok_0 <= conversion(
            paid_high,
            rate,
            decimals,
        )->Ok_0,
{
    lemma_rate_scale_positive(decimals);
    lemma_mul_inequality(paid_low as int, paid_high as int, rate as int);
    lemma_div_is_ordered(
        (paid_low * rate) as int,
        (paid_high * rate) as int,
        rate_scale(decimals) as int,
    );
}

/// Paying nothing buys nothing, whatever the rate.
pub proof fn lemma_conversion_of_zero(rate: nat, decimals: nat)
    ensures
        conversion(0, rate, decimals) == Ok::<u64, ErrorMessage>(0),
{
    lemma_rate_scale_positive(decimals);
    lemma_basic_div(0, rate_scale(decimals) as int);
}

/// `10^decimals` if it fits in 128 bits.
fn checked_rate_scale(decimals: u8) -> (scale: Option<u128>)
    ensures
        match scale {
            Some(s) => s == rate_scale(decimals as nat),
            None => rate_scale(decimals as nat) > u128::MAX,
        },
{
    let mut scale: u128 = 1;
    let mut done: u8 = 0;
    proof {
        lemma_pow0(10);
    }
    while done < decimals
        invariant
            done <= decimals,
            scale == rate_scale(done as nat),
        decreases decimals - done,
    {
        proof {
            reveal(pow);
            lemma_pow_positive(10, done as nat);
        }
        match scale.checked_mul(10) {
            Some(next) => {
                scale = next;
                done = done + 1;
            },
            None => {
                proof {
                    lemma_pow_increases(10, (done + 1) as nat, decimals as nat);
                }
                return None;
            },
        }
    }
    Some(scale)
}

/// Converts a paid currency amount into sale tokens at the fixed-point rate
/// `token_rate / 10^token_rate_decimals`.
///
/// The product is formed in 128 bits and the quotient is rounded down, so a
/// buyer never gains from rounding.
pub fn calculate_buy_token(amount: u128, token_rate: u128, token_rate_decimals: u8) -> (amount_out:
    Result<u64, ErrorMessage>)
    ensures
        amount_out == conversion(amount as nat, token_rate as nat, token_rate_decimals as nat),
{
    let product = match amount.checked_mul(token_rate) {
        Some(p) => p,
        None => {
            return Err(ErrorMessage::ArithmeticOverflow);
        },
    };
    let quotient = match checked_rate_scale(token_rate_decimals) {
        Some(scale) => {
            proof {
                lemma_rate_scale_positive(token_rate_decimals as nat);
            }
            product / scale
        },
        None => {
            proof {
                lemma_basic_div(product as int, rate_scale(token_rate_decimals as nat) as int);
            }
            0
        },
    };
    if quotient > u64::MAX as u128 {
        Err(ErrorMessage::ArithmeticOverflow)
    } else {
        Ok(quotient as u64)
    }
}

} // verus!
