//! Saturating binary fixed-point scalars.
//!
//! An `Fx` stores the real number `raw / 2^32`; `FX_ONE` raw units make 1.0.
//! Multiplication and division truncate toward zero, and every operation
//! saturates at the ends of the `i64` range instead of overflowing, so each
//! operation is total and its contract states the exact raw value produced.

use vstd::prelude::*;

verus! {

/// Number of raw units in 1.0.
pub const FX_ONE: i64 = 0x1_0000_0000;

/// Largest representable raw value.
pub const FX_MAX: i64 = 0x7fff_ffff_ffff_ffff;

/// Smallest representable raw value.
pub const FX_MIN: i64 = -0x7fff_ffff_ffff_ffff - 1;

/// A fixed-point scalar with 32 fractional bits.
#[derive(Clone, Copy, PartialEq, Eq, Structural, Debug)]
pub struct Fx {
    pub raw: i64,
}

impl View for Fx {
    type V = int;

    open spec fn view(&self) -> int {
        self.raw as int
    }
}

/// Absolute value of a mathematical integer.
pub open spec fn abs_i(x: int) -> int {
    if x >= 0 {
        x
    } else {
        -x
    }
}

/// Saturate an unbounded integer into the representable raw range.
pub open spec fn clip(x: int) -> int {
    if x > FX_MAX as int {
        FX_MAX as int
    } else if x < FX_MIN as int {
        FX_MIN as int
    } else {
        x
    }
}

/// Division truncating toward zero, as the executable code computes it.
pub open spec fn tdiv(x: int, d: int) -> int {
    if (x >= 0) == (d >= 0) {
        abs_i(x) / abs_i(d)
    } else {
        -(abs_i(x) / abs_i(d))
    }
}

/// Raw value of a fixed-point product.
pub open spec fn fx_mul_raw(a: int, b: int) -> int {
    clip(tdiv(a * b, FX_ONE as int))
}

/// Raw value of a fixed-point quotient.
pub open spec fn fx_div_raw(a: int, b: int) -> int {
    clip(tdiv(a * FX_ONE as int, b))
}

/// Raw value of a fixed-point sum.
pub open spec fn fx_add_raw(a: int, b: int) -> int {
    clip(a + b)
}

/// Raw value of a fixed-point difference.
pub open spec fn fx_sub_raw(a: int, b: int) -> int {
    clip(a - b)
}

/// Raw value of the smaller operand.
pub open spec fn fx_min_raw(a: int, b: int) -> int {
    if a <= b {
        a
    } else {
        b
    }
}

/// Raw value of the larger operand.
pub open spec fn fx_max_raw(a: int, b: int) -> int {
    if a >= b {
        a
    } else {
        b
    }
}

pub proof fn lemma_mul_abs_sign(a: int, b: int)
    ensures
        abs_i(a * b) == abs_i(a) * abs_i(b),
        ((a < 0) != (b < 0)) ==> a * b <= 0,
        !((a < 0) != (b < 0)) ==> a * b >= 0,
{
    assert(abs_i(a * b) == abs_i(a) * abs_i(b) && (((a < 0) != (b < 0)) ==> a * b <= 0)
        && (!((a < 0) != (b < 0)) ==> a * b >= 0)) by (nonlinear_arith);
}

impl Fx {
    /// The scalar 0.
    pub fn zero() -> (r: Fx)
        ensures
            r@ == 0,
    {
        Fx { raw: 0 }
    }

    /// The scalar 1.
    pub fn one() -> (r: Fx)
        ensures
            r@ == FX_ONE as int,
    {
        Fx { raw: FX_ONE }
    }

    /// The scalar `v`, exactly.
    pub fn from_int(v: i32) -> (r: Fx)
        ensures
            r@ == v as int * FX_ONE as int,
    {
        proof {
            assert(-0x8000_0000 * 0x1_0000_0000 >= FX_MIN as int && 0x7fff_ffff * 0x1_0000_0000
                <= FX_MAX as int) by (nonlinear_arith);
            assert(v as int * FX_ONE as int >= -0x8000_0000 * 0x1_0000_0000 && v as int
                * FX_ONE as int <= 0x7fff_ffff * 0x1_0000_0000) by (nonlinear_arith)
                requires
                    -0x8000_0000 <= v as int <= 0x7fff_ffff,
            ;
        }
        Fx { raw: (v as i64) * FX_ONE }
    }

    /// The rational `num / den`, truncated toward zero at the 32nd
    /// fractional bit and saturated into the representable range.
    pub fn from_ratio(num: i64, den: i64) -> (r: Fx)
        requires
            den != 0,
        ensures
            r@ == clip(tdiv(num as int * FX_ONE as int, den as int)),
    {
        fx_div(Fx { raw: num }, Fx { raw: den })
    }
}

fn abs_u(x: i64) -> (r: u64)
    ensures
        r as int == abs_i(x as int),
{
    if x >= 0 {
        x as u64
    } else {
        (-(x as i128)) as u64
    }
}

fn clip_mag(q: u128, neg: bool) -> (r: i64)
    ensures
        r as int == clip(
            if neg {
                -(q as int)
            } else {
                q as int
            },
        ),
{
    if neg {
        if q > 0x8000_0000_0000_0000u128 {
            FX_MIN
        } else {
            (-(q as i128)) as i64
        }
    } else {
        if q >= 0x8000_0000_0000_0000u128 {
            FX_MAX
        } else {
            q as i64
        }
    }
}

/// Fixed-point product, truncated toward zero and saturated.
pub fn fx_mul(a: Fx, b: Fx) -> (r: Fx)
    ensures
        r@ == fx_mul_raw(a@, b@),
{
    let neg: bool = (a.raw < 0) != (b.raw < 0);
    let ma: u128 = abs_u(a.raw) as u128;
    let mb: u128 = abs_u(b.raw) as u128;
    proof {
        assert(ma * mb <= 0x8000_0000_0000_0000u128 * 0x8000_0000_0000_0000u128)
            by (nonlinear_arith)
            requires
                ma <= 0x8000_0000_0000_0000u128,
                mb <= 0x8000_0000_0000_0000u128,
        ;
    }
    let p: u128 = ma * mb;
    let q: u128 = p / 0x1_0000_0000u128;
    proof {
        let ai: int = a.raw as int;
        let bi: int = b.raw as int;
        lemma_mul_abs_sign(ai, bi);
        assert(p as int == abs_i(ai * bi));
        if ai * bi == 0 {
            assert(q == 0);
            assert(tdiv(ai * bi, FX_ONE as int) == 0);
        } else if neg {
            assert(ai * bi < 0);
            assert(tdiv(ai * bi, FX_ONE as int) == -(q as int));
        } else {
            assert(ai * bi > 0);
            assert(tdiv(ai * bi, FX_ONE as int) == q as int);
        }
    }
    Fx { raw: clip_mag(q, neg) }
}

/// Fixed-point quotient, truncated toward zero and saturated.
pub fn fx_div(a: Fx, b: Fx) -> (r: Fx)
    requires
        b@ != 0,
    ensures
        r@ == fx_div_raw(a@, b@),
{
    let neg: bool = (a.raw < 0) != (b.raw < 0);
    let ma: u128 = abs_u(a.raw) as u128;
    let mb: u128 = abs_u(b.raw) as u128;
    proof {
        assert(ma * 0x1_0000_0000u128 <= 0x8000_0000_0000_0000u128 * 0x1_0000_0000u128)
            by (nonlinear_arith)
            requires
                ma <= 0x8000_0000_0000_0000u128,
        ;
    }
    let p: u128 = ma * 0x1_0000_0000u128;
    let q: u128 = p / mb;
    proof {
        let ai: int = a.raw as int;
        let bi: int = b.raw as int;
        lemma_mul_abs_sign(ai, FX_ONE as int);
        assert(p as int == abs_i(ai * FX_ONE as int));
        if ai == 0 {
            assert(ai * FX_ONE as int == 0);
            assert(q == 0);
            assert(tdiv(ai * FX_ONE as int, bi) == 0);
        } else if neg {
            assert(tdiv(ai * FX_ONE as int, bi) == -(q as int));
        } else {
            assert(tdiv(ai * FX_ONE as int, bi) == q as int);
        }
    }
    Fx { raw: clip_mag(q, neg) }
}

/// Fixed-point sum, saturated.
pub fn fx_add(a: Fx, b: Fx) -> (r: Fx)
    ensures
        r@ == fx_add_raw(a@, b@),
{
    let s: i128 = a.raw as i128 + b.raw as i128;
    if s > 0x7fff_ffff_ffff_ffffi128 {
        Fx { raw: FX_MAX }
    } else if s < -0x8000_0000_0000_0000i128 {
        Fx { raw: FX_MIN }
    } else {
        Fx { raw: s as i64 }
    }
}

/// Fixed-point difference, saturated.
pub fn fx_sub(a: Fx, b: Fx) -> (r: Fx)
    ensures
        r@ == fx_sub_raw(a@, b@),
{
    let s: i128 = a.raw as i128 - b.raw as i128;
    if s > 0x7fff_ffff_ffff_ffffi128 {
        Fx { raw: FX_MAX }
    } else if s < -0x8000_0000_0000_0000i128 {
        Fx { raw: FX_MIN }
    } else {
        Fx { raw: s as i64 }
    }
}

/// The smaller of two scalars.
pub fn fx_min(a: Fx, b: Fx) -> (r: Fx)
    ensures
        r@ == fx_min_raw(a@, b@),
{
    if a.raw <= b.raw {
        a
    } else {
        b
    }
}

/// The larger of two scalars.
pub fn fx_max(a: Fx, b: Fx) -> (r: Fx)
    ensures
        r@ == fx_max_raw(a@, b@),
{
    if a.raw >= b.raw {
        a
    } else {
        b
    }
}

/// Floor square root of a natural number, defined by counting up.
pub open spec fn isqrt_rec(n: nat) -> nat
    decreases n,
{
    if n == 0 {
        0
    } else {
        let r: nat = isqrt_rec((n - 1) as nat);
        if (r + 1) * (r + 1) <= n {
            r + 1
        } else {
            r
        }
    }
}

pub proof fn lemma_isqrt_rec(n: nat)
    ensures
        isqrt_rec(n) * isqrt_rec(n) <= n,
        n < (isqrt_rec(n) + 1) * (isqrt_rec(n) + 1),
    decreases n,
{
    if n == 0 {
        assert(isqrt_rec(0) == 0);
        assert((isqrt_rec(0) + 1) * (isqrt_rec(0) + 1) == 1) by (nonlinear_arith)
            requires
                isqrt_rec(0) == 0,
        ;
    } else {
        let m: nat = (n - 1) as nat;
        lemma_isqrt_rec(m);
        let r: nat = isqrt_rec(m);
        if (r + 1) * (r + 1) <= n {
            assert(isqrt_rec(n) == r + 1);
            assert(n <= (r + 1) * (r + 1));
            assert(n == (r + 1) * (r + 1));
            assert((r + 1) * (r + 1) < (r + 1 + 1) * (r + 1 + 1)) by (nonlinear_arith);
            assert(n < (isqrt_rec(n) + 1) * (isqrt_rec(n) + 1));
        } else {
            assert(isqrt_rec(n) == r);
            assert(r * r <= m);
        }
    }
}

pub proof fn lemma_isqrt_unique(n: nat, r: nat)
    requires
        r * r <= n,
        n < (r + 1) * (r + 1),
    ensures
        r == isqrt_rec(n),
{
    lemma_isqrt_rec(n);
    let s: nat = isqrt_rec(n);
    if r < s {
        assert((r + 1) * (r + 1) <= s * s) by (nonlinear_arith)
            requires
                r + 1 <= s,
        ;
    }
    if s < r {
        assert((s + 1) * (s + 1) <= r * r) by (nonlinear_arith)
            requires
                s + 1 <= r,
        ;
    }
}

/// Floor square root of a 128-bit integer, by binary search.
pub fn isqrt128(n: u128) -> (r: u128)
    ensures
        r as nat == isqrt_rec(n as nat),
{
    let mut lo: u128 = 0;
    let mut hi: u128 = 0x1_0000_0000_0000_0000u128;
    proof {
        assert((n as int) < 0x1_0000_0000_0000_0000 * 0x1_0000_0000_0000_0000)
            by (nonlinear_arith)
            requires
                n <= 0xffff_ffff_ffff_ffff_ffff_ffff_ffff_ffffu128,
        ;
    }
    while lo + 1 < hi
        invariant
            (lo as int) * (lo as int) <= n as int,
            (n as int) < (hi as int) * (hi as int),
            lo < hi,
            hi <= 0x1_0000_0000_0000_0000u128,
        decreases hi - lo,
    {
        let mid: u128 = lo + (hi - lo) / 2;
        proof {
            assert(lo < mid < hi);
            assert((mid as int) * (mid as int) <= 0xffff_ffff_ffff_ffff * 0xffff_ffff_ffff_ffff)
                by (nonlinear_arith)
                requires
                    mid <= 0xffff_ffff_ffff_ffffu128,
            ;
        }
        if mid * mid <= n {
            lo = mid;
        } else {
            hi = mid;
        }
    }
    proof {
        lemma_isqrt_unique(n as nat, lo as nat);
    }
    lo
}

/// Multiplication by zero is exactly zero.
pub proof fn lemma_fx_mul_zero(a: int)
    ensures
        fx_mul_raw(a, 0) == 0,
        fx_mul_raw(0, a) == 0,
{
    assert(a * 0 == 0) by (nonlinear_arith);
    assert(0 * a == 0) by (nonlinear_arith);
    vstd::arithmetic::div_mod::lemma_div_multiples_vanish(0, FX_ONE as int);
    assert(FX_ONE as int * 0 == 0) by (nonlinear_arith);
    assert(tdiv(0, FX_ONE as int) == 0);
}

/// Multiplication by one returns a representable raw value unchanged.
pub proof fn lemma_fx_mul_one(a: int)
    requires
        FX_MIN as int <= a <= FX_MAX as int,
    ensures
        fx_mul_raw(FX_ONE as int, a) == a,
        fx_mul_raw(a, FX_ONE as int) == a,
{
    lemma_mul_abs_sign(FX_ONE as int, a);
    vstd::arithmetic::div_mod::lemma_div_multiples_vanish(abs_i(a), FX_ONE as int);
    assert(abs_i(FX_ONE as int) == FX_ONE as int);
    assert(abs_i(FX_ONE as int * a) == FX_ONE as int * abs_i(a));
    if a >= 0 {
        assert(FX_ONE as int * a >= 0);
        assert(tdiv(FX_ONE as int * a, FX_ONE as int) == a);
    } else {
        assert((FX_ONE as int * a) < 0) by (nonlinear_arith)
            requires
                a < 0,
        ;
        assert(tdiv(FX_ONE as int * a, FX_ONE as int) == -abs_i(a));
        assert(tdiv(FX_ONE as int * a, FX_ONE as int) == a);
    }
    assert(a * FX_ONE as int == FX_ONE as int * a);
    assert(clip(a) == a);
}

/// Products of nonnegative scalars stay nonnegative through truncation.
pub proof fn lemma_fx_mul_nonneg(a: int, b: int)
    requires
        a >= 0,
        b >= 0,
    ensures
        fx_mul_raw(a, b) >= 0,
{
    lemma_mul_abs_sign(a, b);
    assert(tdiv(a * b, FX_ONE as int) == abs_i(a * b) / (FX_ONE as int));
    assert(abs_i(a * b) / (FX_ONE as int) >= 0) by (nonlinear_arith)
        requires
            abs_i(a * b) >= 0,
    ;
}

/// The floor square root is at least any number whose square fits under `n`.
pub proof fn lemma_isqrt_lower(n: nat, b: nat)
    requires
        b * b <= n,
    ensures
        isqrt_rec(n) >= b,
{
    lemma_isqrt_rec(n);
    let s: nat = isqrt_rec(n);
    if s < b {
        assert((s + 1) * (s + 1) <= b * b) by (nonlinear_arith)
            requires
                s + 1 <= b,
        ;
    }
}

pub(crate) fn square_mag(a: i64) -> (r: u128)
    ensures
        r as int == (a as int) * (a as int),
        r <= 0x4000_0000_0000_0000_0000_0000_0000_0000u128,
{
    let m: u128 = abs_u(a) as u128;
    proof {
        assert(m * m <= 0x8000_0000_0000_0000u128 * 0x8000_0000_0000_0000u128)
            by (nonlinear_arith)
            requires
                m <= 0x8000_0000_0000_0000u128,
        ;
        lemma_mul_abs_sign(a as int, a as int);
        assert((a as int * a as int) >= 0);
        assert(abs_i(a as int * a as int) == a as int * a as int);
    }
    m * m
}

pub(crate) fn scale_div_mag(a: i64, d: u128) -> (r: i64)
    requires
        d > 0,
    ensures
        r as int == clip(tdiv(a as int * FX_ONE as int, d as int)),
{
    let neg: bool = a < 0;
    let ma: u128 = abs_u(a) as u128;
    proof {
        assert(ma * 0x1_0000_0000u128 <= 0x8000_0000_0000_0000u128 * 0x1_0000_0000u128)
            by (nonlinear_arith)
            requires
                ma <= 0x8000_0000_0000_0000u128,
        ;
    }
    let p: u128 = ma * 0x1_0000_0000u128;
    let q: u128 = p / d;
    proof {
        let ai: int = a as int;
        lemma_mul_abs_sign(ai, FX_ONE as int);
        assert(p as int == abs_i(ai * FX_ONE as int));
        if ai == 0 {
            assert(ai * FX_ONE as int == 0);
            assert(q == 0);
            assert(tdiv(ai * FX_ONE as int, d as int) == 0);
        } else if neg {
            assert((ai * FX_ONE as int) < 0);
            assert(tdiv(ai * FX_ONE as int, d as int) == -(q as int));
        } else {
            assert((ai * FX_ONE as int) > 0);
            assert(tdiv(ai * FX_ONE as int, d as int) == q as int);
        }
    }
    clip_mag(q, neg)
}

/// Raw value of a fixed-point floor square root.
pub open spec fn fx_sqrt_raw(a: int) -> int {
    isqrt_rec((a * FX_ONE as int) as nat) as int
}

/// Fixed-point floor square root of a nonnegative scalar.
pub fn fx_sqrt(a: Fx) -> (r: Fx)
    requires
        a@ >= 0,
    ensures
        r@ == fx_sqrt_raw(a@),
{
    proof {
        assert(a.raw as int * FX_ONE as int <= 0x8000_0000_0000_0000 * 0x1_0000_0000)
            by (nonlinear_arith)
            requires
                0 <= a.raw as int <= 0x8000_0000_0000_0000,
        ;
        assert(a.raw as int * FX_ONE as int >= 0) by (nonlinear_arith)
            requires
                a.raw as int >= 0,
        ;
    }
    let p: u128 = (a.raw as u128) * 0x1_0000_0000u128;
    let s: u128 = isqrt128(p);
    proof {
        lemma_isqrt_rec(p as nat);
        let r: nat = isqrt_rec(p as nat);
        assert(r < 0x1_0000_0000_0000) by (nonlinear_arith)
            requires
                r * r <= p as nat,
                p as nat <= 0x8000_0000_0000_0000 * 0x1_0000_0000,
        ;
    }
    Fx { raw: s as i64 }
}

} // verus!
