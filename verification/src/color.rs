//! Mapping of JSON color channel values to bytes.
//!
//! A channel written as an integer means 0-255 and is clamped there; a
//! channel written as a fraction means 0-1 and is scaled by 255, rounded
//! half away from zero, and clamped. The scaling is computed exactly on
//! the decimal the producer wrote, in integer arithmetic.

use vstd::prelude::*;
use crate::json::JNum;

verus! {

pub open spec fn pow10(e: nat) -> int
    decreases e,
{
    if e == 0 {
        1
    } else {
        10 * pow10((e - 1) as nat)
    }
}

pub proof fn lemma_pow10_pos(e: nat)
    ensures
        pow10(e) >= 1,
    decreases e,
{
    if e > 0 {
        lemma_pow10_pos((e - 1) as nat);
    }
}

pub proof fn lemma_pow10_mono(a: nat, b: nat)
    requires
        a <= b,
    ensures
        pow10(a) <= pow10(b),
    decreases b,
{
    if a < b {
        lemma_pow10_mono(a, (b - 1) as nat);
        lemma_pow10_pos((b - 1) as nat);
    }
}

fn pow10_u128(e: u32) -> (r: u128)
    requires
        e <= 21,
    ensures
        r as int == pow10(e as nat),
    decreases e,
{
    if e == 0 {
        1
    } else {
        let p = pow10_u128(e - 1);
        proof {
            lemma_pow10_mono((e - 1) as nat, 20);
            assert(pow10(20) == 100000000000000000000) by {
                reveal_with_fuel(pow10, 21);
            }
        }
        10 * p
    }
}

/// The byte a JSON color channel value decodes to: an integer is clamped
/// to 0-255; any other number `v` becomes `round(v * 255)` clamped to
/// 0-255, computed exactly on the decimal's significand and exponent.
pub open spec fn spec_channel(n: JNum) -> u8 {
    if n.uval_ok {
        if n.uval >= 255 {
            255
        } else {
            n.uval as u8
        }
    } else if n.neg || n.mant == 0 {
        0
    } else if n.exp10 >= 0 {
        255
    } else {
        let d = -(n.exp10 as int);
        let q = (510 * (n.mant as int) + pow10(d as nat)) / (2 * pow10(d as nat));
        if q >= 255 {
            255
        } else {
            q as u8
        }
    }
}

/// Decodes one channel value.
pub(crate) fn channel(n: &JNum) -> (r: u8)
    ensures
        r == spec_channel(*n),
{
    if n.uval_ok {
        if n.uval >= 255 {
            255
        } else {
            n.uval as u8
        }
    } else if n.neg || n.mant == 0 {
        0
    } else if n.exp10 >= 0 {
        255
    } else if n.exp10 <= -22 {
        proof {
            let d = -(n.exp10 as int) as nat;
            lemma_pow10_mono(22, d);
            lemma_pow10_pos(d);
            assert(pow10(22) == 10000000000000000000000) by {
                reveal_with_fuel(pow10, 23);
            }
            let p = pow10(d);
            assert(510 * (n.mant as int) < p);
            assert(510 * (n.mant as int) + p < 2 * p);
            vstd::arithmetic::div_mod::lemma_basic_div(510 * (n.mant as int) + p, 2 * p);
        }
        0
    } else {
        let d = (-n.exp10) as u32;
        let p = pow10_u128(d);
        proof {
            lemma_pow10_pos(d as nat);
            lemma_pow10_mono(d as nat, 21);
            assert(pow10(21) == 1000000000000000000000) by {
                reveal_with_fuel(pow10, 22);
            }
        }
        let q = (510u128 * (n.mant as u128) + p) / (2 * p);
        if q >= 255 {
            255
        } else {
            q as u8
        }
    }
}

/// Clamping law: a channel value at or above one whole unit (an integer
/// 255 or more, or a fraction at or above 1) becomes 255; a negative or
/// zero value becomes 0. No value overflows the byte.
pub proof fn lemma_channel_clamped(n: JNum)
    ensures
        n.uval_ok && n.uval >= 255 ==> spec_channel(n) == 255,
        !n.uval_ok && !n.neg && n.mant > 0 && n.exp10 >= 0 ==> spec_channel(n) == 255,
        !n.uval_ok && (n.neg || n.mant == 0) ==> spec_channel(n) == 0,
        spec_channel(n) <= 255,
{
}

} // verus!
