//! Integer helpers shared by the margin calculations.
//!
//! Each `checked_*` function answers `None` exactly where the value it computes
//! leaves its integer type.
use vstd::prelude::*;

use crate::protocol::{MARGIN_PRECISION_I128, MARGIN_PRECISION_U128};

verus! {

/// `2^128`, the number of values of a `u128`.
pub open spec fn two_pow_128() -> int {
    u128::MAX + 1
}

/// The signed number with the same 128 bits as the unsigned number `value`.
pub open spec fn signed_bits(value: int) -> int {
    if value <= i128::MAX {
        value
    } else {
        value - two_pow_128()
    }
}

/// The signed number with the same 64 bits as the unsigned number `value`.
pub open spec fn signed_bits_64(value: int) -> int {
    if value <= i64::MAX {
        value
    } else {
        value - u64::MAX - 1
    }
}

/// `value` cut off at the bounds of an `i128`.
pub open spec fn clamp_i128(value: int) -> int {
    if value > i128::MAX {
        i128::MAX as int
    } else if value < i128::MIN {
        i128::MIN as int
    } else {
        value
    }
}

pub open spec fn abs(value: int) -> int {
    if value < 0 {
        -value
    } else {
        value
    }
}

/// Whether `value` is an `i128`.
pub open spec fn fits_i128(value: int) -> bool {
    i128::MIN <= value <= i128::MAX
}

/// Whether `value` is a `u128`.
pub open spec fn fits_u128(value: int) -> bool {
    0 <= value <= u128::MAX
}

/// `amount` as a signed number with the same bits.
pub fn to_signed(amount: u128) -> (r: i128)
    ensures
        r == signed_bits(amount as int),
{
    if amount <= 0x7fff_ffff_ffff_ffff_ffff_ffff_ffff_ffff {
        amount as i128
    } else {
        -((u128::MAX - amount) as i128) - 1
    }
}

/// `seconds` as a signed number with the same bits.
pub fn to_signed_64(seconds: u64) -> (r: i64)
    ensures
        r == signed_bits_64(seconds as int),
{
    if seconds <= 0x7fff_ffff_ffff_ffff {
        seconds as i64
    } else {
        -((u64::MAX - seconds) as i64) - 1
    }
}

/// The distance of `value` from zero.
pub fn magnitude(value: i128) -> (r: u128)
    ensures
        r == abs(value as int),
{
    if value >= 0 {
        value as u128
    } else {
        (-(value + 1)) as u128 + 1
    }
}

/// `a + b`, cut off at the bounds of the type.
pub fn saturating_sum(a: i128, b: i128) -> (r: i128)
    ensures
        r == clamp_i128(a + b),
{
    match a.checked_add(b) {
        Some(sum) => sum,
        None => if b > 0 {
            i128::MAX
        } else {
            i128::MIN
        },
    }
}

/// `a - b`, cut off at the bounds of the type.
pub fn saturating_difference(a: i128, b: i128) -> (r: i128)
    ensures
        r == clamp_i128(a - b),
{
    match a.checked_sub(b) {
        Some(difference) => difference,
        None => if b < 0 {
            i128::MAX
        } else {
            i128::MIN
        },
    }
}

/// The part of `amount` that a margin buffer of `margin_buffer` adds, rounded
/// down; nothing where the product with the buffer is no `u128`.
pub open spec fn buffer_share(amount: int, margin_buffer: u32) -> Option<int> {
    if fits_u128(amount * margin_buffer) {
        Some(amount * margin_buffer / MARGIN_PRECISION_U128 as int)
    } else {
        None
    }
}

/// What a margin buffer of `margin_buffer` takes from the loss `-loss`: the
/// (negative) product over the margin precision, rounded towards zero; nothing
/// where the product is no `i128`.
pub open spec fn loss_share(loss: int, margin_buffer: u32) -> Option<int> {
    if fits_i128(loss * margin_buffer) {
        Some(-(-(loss * margin_buffer) / MARGIN_PRECISION_I128 as int))
    } else {
        None
    }
}

pub fn checked_buffer_share(amount: u128, margin_buffer: u32) -> (r: Option<u128>)
    ensures
        match r {
            Some(share) => buffer_share(amount as int, margin_buffer) == Some(share as int),
            None => buffer_share(amount as int, margin_buffer) is None,
        },
{
    match amount.checked_mul(margin_buffer as u128) {
        Some(product) => {
            assert(product == amount * margin_buffer);
            Some(product / MARGIN_PRECISION_U128)
        },
        None => None,
    }
}

pub fn checked_loss_share(loss: i128, margin_buffer: u32) -> (r: Option<i128>)
    requires
        loss <= 0,
    ensures
        match r {
            Some(share) => loss_share(loss as int, margin_buffer) == Some(share as int),
            None => loss_share(loss as int, margin_buffer) is None,
        },
{
    match loss.checked_mul(margin_buffer as i128) {
        Some(product) => {
            assert(product == loss * margin_buffer);
            assert(product <= 0) by (nonlinear_arith)
                requires
                    product == loss * margin_buffer,
                    loss <= 0,
                    0 <= margin_buffer,
            ;
            Some(-((magnitude(product) / MARGIN_PRECISION_U128) as i128))
        },
        None => None,
    }
}

/// A larger buffer takes no less from an amount.
pub proof fn lemma_buffer_share_monotone(amount: int, low: u32, high: u32)
    requires
        0 <= amount,
        low <= high,
        buffer_share(amount, high) is Some,
    ensures
        buffer_share(amount, low) is Some,
        0 <= buffer_share(amount, low)->0 <= buffer_share(amount, high)->0,
{
    assert(0 <= amount * low <= amount * high) by (nonlinear_arith)
        requires
            0 <= amount,
            0 <= low <= high,
    ;
}

/// A larger buffer takes no less from a loss.
pub proof fn lemma_loss_share_monotone(loss: int, low: u32, high: u32)
    requires
        loss <= 0,
        low <= high,
        loss_share(loss, high) is Some,
    ensures
        loss_share(loss, low) is Some,
        loss_share(loss, high)->0 <= loss_share(loss, low)->0 <= 0,
{
    assert(loss * high <= loss * low <= 0) by (nonlinear_arith)
        requires
            loss <= 0,
            0 <= low <= high,
    ;
}

} // verus!
