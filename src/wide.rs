//! Unsigned integers too wide for `u128`: the squares of `u128` values and
//! sums of many of them, kept exactly.

use vstd::prelude::*;
use vstd::arithmetic::div_mod::lemma_fundamental_div_mod;

verus! {

/// 2^64.
pub open spec fn base64() -> int {
    0x1_0000_0000_0000_0000
}

/// 2^128.
pub open spec fn base128() -> int {
    base64() * base64()
}

/// An exact sum of squares: `top * 2^256 + hi * 2^128 + lo`.
#[derive(Clone, Copy, Debug, PartialEq, Eq, Structural)]
pub struct WideSum {
    pub lo: u128,
    pub hi: u128,
    pub top: u128,
}

impl WideSum {
    pub open spec fn value(self) -> int {
        self.top * base128() * base128() + self.hi * base128() + self.lo
    }

    pub fn zero() -> (r: Self)
        ensures
            r.lo == 0,
            r.hi == 0,
            r.top == 0,
            r.value() == 0,
    {
        WideSum { lo: 0, hi: 0, top: 0 }
    }

    /// Adds `d * d`.
    pub fn add_square(&mut self, d: u128)
        requires
            old(self).top < u128::MAX,
        ensures
            final(self).value() == old(self).value() + d * d,
            final(self).top <= old(self).top + 1,
    {
        let (sq_hi, sq_lo) = square(d);
        let (lo, c1) = add_with_carry(self.lo, sq_lo, 0);
        let (hi, c2) = add_with_carry(self.hi, sq_hi, c1);
        let ghost old_self = *self;
        self.lo = lo;
        self.hi = hi;
        self.top = self.top + c2;
        proof {
            let b = base128();
            let t = old_self.top as int;
            assert(self.value() == (t + c2) * b * b + hi * b + lo);
            assert((t + c2) * b * b == t * b * b + c2 * b * b) by (nonlinear_arith);
            assert((hi + c2 * b) * b == hi * b + c2 * b * b) by (nonlinear_arith);
            assert((old_self.hi + sq_hi + c1) * b == old_self.hi * b + sq_hi * b + c1 * b) by (nonlinear_arith);
        }
    }
}

/// `a + b + carry_in` as a low word and a carry.
fn add_with_carry(a: u128, b: u128, carry_in: u128) -> (r: (u128, u128))
    requires
        carry_in <= 1,
    ensures
        r.0 + r.1 * base128() == a + b + carry_in,
        r.1 <= 1,
{
    let room = u128::MAX - a;
    if b < room {
        (a + b + carry_in, 0)
    } else if b == room {
        if carry_in == 1 {
            (0, 1)
        } else {
            (u128::MAX, 0)
        }
    } else {
        (b - room - 1 + carry_in, 1)
    }
}

/// `d * d` as a high and a low word: `d * d == hi * 2^128 + lo`.
fn square(d: u128) -> (r: (u128, u128))
    ensures
        r.0 * base128() + r.1 == d * d,
{
    let dh: u128 = d / 0x1_0000_0000_0000_0000;
    let dl: u128 = d % 0x1_0000_0000_0000_0000;
    let ghost b64 = base64();
    proof {
        lemma_fundamental_div_mod(d as int, b64);
        assert(dh < b64) by (nonlinear_arith)
            requires d == b64 * dh + dl, 0 <= dl, d < base128(), base128() == b64 * b64, dh >= 0, b64 > 0;
    }
    assert(dl * dl < base128()) by (nonlinear_arith)
        requires dl < b64, dl >= 0, base128() == b64 * b64;
    assert(dh * dh < base128()) by (nonlinear_arith)
        requires dh < b64, dh >= 0, base128() == b64 * b64;
    assert(dh * dl < base128()) by (nonlinear_arith)
        requires dh < b64, dl < b64, dh >= 0, dl >= 0, base128() == b64 * b64;
    let low = dl * dl;
    let high = dh * dh;
    let cross = dh * dl;
    let ch: u128 = cross / 0x1_0000_0000_0000_0000;
    let cl: u128 = cross % 0x1_0000_0000_0000_0000;
    proof {
        lemma_fundamental_div_mod(cross as int, b64);
        assert(ch < b64) by (nonlinear_arith)
            requires cross == b64 * ch + cl, 0 <= cl, cross < base128(), base128() == b64 * b64, ch >= 0, b64 > 0;
        assert(cl * b64 < base128()) by (nonlinear_arith)
            requires cl < b64, cl >= 0, base128() == b64 * b64;
    }
    let shifted = cl * 0x1_0000_0000_0000_0000;
    let (lo1, c1) = add_with_carry(low, shifted, 0);
    let (lo2, c2) = add_with_carry(lo1, shifted, 0);
    proof {
        let b = base128();
        // d^2 = dh^2 b + 2 dh dl b64 + dl^2, and dh dl b64 = ch b + cl b64.
        assert(d * d == dh * dh * b + 2 * (dh * dl) * b64 + dl * dl) by (nonlinear_arith)
            requires d == b64 * dh + dl, b == b64 * b64;
        assert((dh * dl) * b64 == ch * b + cl * b64) by (nonlinear_arith)
            requires cross == dh * dl, cross == b64 * ch + cl, b == b64 * b64;
        assert(d * d == (high + 2 * ch + c1 + c2) * b + lo2) by (nonlinear_arith)
            requires
                d * d == dh * dh * b + 2 * (dh * dl) * b64 + dl * dl,
                (dh * dl) * b64 == ch * b + cl * b64,
                high == dh * dh, low == dl * dl, shifted == cl * b64,
                lo1 + c1 * b == low + shifted,
                lo2 + c2 * b == lo1 + shifted;
        assert(d * d < b * b) by (nonlinear_arith)
            requires d < b, d >= 0;
        assert(high + 2 * ch + c1 + c2 < b) by (nonlinear_arith)
            requires
                d * d == (high + 2 * ch + c1 + c2) * b + lo2,
                d * d < b * b, lo2 >= 0, b > 0, high >= 0, ch >= 0, c1 >= 0, c2 >= 0;
    }
    (high + ch + ch + c1 + c2, lo2)
}

} // verus!
