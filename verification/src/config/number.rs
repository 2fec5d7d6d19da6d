//! Floating-point settings, held as the bits of an IEEE-754 `f64`.
//!
//! The library never computes with these numbers; it compares them against
//! the documented ranges and carries them through to the renderer. Comparison
//! on the bit pattern is exact: for two numbers that are not NaN, the order of
//! their values is the order of their sign-magnitude keys.

use vstd::prelude::*;
use crate::text::string_from;

verus! {

/// The sign bit of an `f64`.
pub const SIGN_BIT: u64 = 0x8000_0000_0000_0000;

/// The magnitude bits of an infinity: every exponent bit set, no mantissa.
pub const INFINITY_BITS: u64 = 0x7ff0_0000_0000_0000;

/// A floating-point setting: the bits of its `f64`, and the text it prints as.
#[derive(Debug, Clone, PartialEq, Eq)]
pub struct Real {
    /// `f64::to_bits` of the value.
    pub bits: u64,
    /// The value the way `f64`'s `Display` prints it (`1.4`, `0`, `-0.1`).
    pub text: String,
}

/// A [`Real`] as plain values.
pub ghost struct RealModel {
    pub bits: u64,
    pub text: Seq<char>,
}

impl View for Real {
    type V = RealModel;

    open spec fn view(&self) -> RealModel {
        RealModel { bits: self.bits, text: self.text@ }
    }
}

/// The bits without the sign.
pub open spec fn magnitude(bits: u64) -> int {
    if bits >= SIGN_BIT {
        bits - SIGN_BIT
    } else {
        bits as int
    }
}

/// Not a number: every exponent bit set and some mantissa bit too.
pub open spec fn is_nan(bits: u64) -> bool {
    magnitude(bits) > INFINITY_BITS
}

/// Neither infinite nor NaN.
pub open spec fn is_finite(bits: u64) -> bool {
    magnitude(bits) < INFINITY_BITS
}

/// The key whose integer order is the order of the values; both zeros map
/// to zero.
pub open spec fn order_key(bits: u64) -> int {
    if bits >= SIGN_BIT {
        -magnitude(bits)
    } else {
        bits as int
    }
}

/// `a < b` as `f64` compares them: false whenever either is NaN.
pub open spec fn real_lt(a: u64, b: u64) -> bool {
    !is_nan(a) && !is_nan(b) && order_key(a) < order_key(b)
}

/// `a <= b` as `f64` compares them: false whenever either is NaN.
pub open spec fn real_le(a: u64, b: u64) -> bool {
    !is_nan(a) && !is_nan(b) && order_key(a) <= order_key(b)
}

/// `a == b` as `f64` compares them: `0.0 == -0.0`, and NaN equals nothing.
pub open spec fn real_eq(a: u64, b: u64) -> bool {
    !is_nan(a) && !is_nan(b) && order_key(a) == order_key(b)
}

fn magnitude_exec(bits: u64) -> (m: u64)
    ensures
        m == magnitude(bits),
{
    if bits >= SIGN_BIT {
        bits - SIGN_BIT
    } else {
        bits
    }
}

fn order_key_exec(bits: u64) -> (k: i128)
    ensures
        k == order_key(bits),
{
    if bits >= SIGN_BIT {
        -((bits - SIGN_BIT) as i128)
    } else {
        bits as i128
    }
}

/// Whether the value is finite.
pub fn finite(bits: u64) -> (r: bool)
    ensures
        r == is_finite(bits),
{
    magnitude_exec(bits) < INFINITY_BITS
}

fn not_nan(bits: u64) -> (r: bool)
    ensures
        r == !is_nan(bits),
{
    magnitude_exec(bits) <= INFINITY_BITS
}

/// `a < b` on `f64` values.
pub fn lt(a: u64, b: u64) -> (r: bool)
    ensures
        r == real_lt(a, b),
{
    not_nan(a) && not_nan(b) && order_key_exec(a) < order_key_exec(b)
}

/// `a <= b` on `f64` values.
pub fn le(a: u64, b: u64) -> (r: bool)
    ensures
        r == real_le(a, b),
{
    not_nan(a) && not_nan(b) && order_key_exec(a) <= order_key_exec(b)
}

/// `a == b` on `f64` values.
pub fn eq(a: u64, b: u64) -> (r: bool)
    ensures
        r == real_eq(a, b),
{
    not_nan(a) && not_nan(b) && order_key_exec(a) == order_key_exec(b)
}

/// The next representable value above a positive finite `end`: one more in
/// the last place, so a documented inclusive maximum stays legal under a
/// half-open range.
pub fn next_after(end: u64) -> (r: u64)
    requires
        end < INFINITY_BITS,
    ensures
        r == end + 1,
        order_key(r) == order_key(end) + 1,
{
    end + 1
}

impl Real {
    /// The value with these bits, printed as `text`.
    pub fn new(bits: u64, text: String) -> (r: Real)
        ensures
            r@ == (RealModel { bits, text: text@ }),
    {
        Real { bits, text }
    }

    /// A value written in the library's own source, such as a bound.
    pub fn literal(bits: u64, text: &str) -> (r: Real)
        ensures
            r@ == (RealModel { bits, text: text@ }),
    {
        Real { bits, text: string_from(text) }
    }
}

} // verus!
