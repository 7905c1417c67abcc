//! Integer helpers shared by the emitters.
use vstd::prelude::*;

verus! {

/// The smaller of two integers.
pub open spec fn smaller(a: int, b: int) -> int {
    if a <= b { a } else { b }
}

/// The larger of two integers.
pub open spec fn larger(a: int, b: int) -> int {
    if a >= b { a } else { b }
}

/// `a / b` rounded up, for a non-zero divisor.
pub open spec fn ceil_div(a: int, b: int) -> int {
    (a + b - 1) / b
}

pub fn min_u32(a: u32, b: u32) -> (r: u32)
    ensures
        r == smaller(a as int, b as int),
{
    if a <= b { a } else { b }
}

pub fn max_u32(a: u32, b: u32) -> (r: u32)
    ensures
        r == larger(a as int, b as int),
{
    if a >= b { a } else { b }
}

pub fn max_u64(a: u64, b: u64) -> (r: u64)
    ensures
        r == larger(a as int, b as int),
{
    if a >= b { a } else { b }
}

/// `v` held between `lo` and `hi`.
pub fn clamp_u32(v: u32, lo: u32, hi: u32) -> (r: u32)
    requires
        lo <= hi,
    ensures
        r == larger(lo as int, smaller(v as int, hi as int)),
{
    max_u32(lo, min_u32(v, hi))
}

/// `ceil_div` is the least quotient that covers the dividend.
pub proof fn ceil_div_bounds(a: int, b: int)
    requires
        a >= 0,
        b > 0,
    ensures
        ceil_div(a, b) * b >= a,
        (ceil_div(a, b) - 1) * b < a,
        0 <= ceil_div(a, b) <= a,
        a > 0 ==> ceil_div(a, b) >= 1,
{
    let q = ceil_div(a, b);
    vstd::arithmetic::div_mod::lemma_fundamental_div_mod(a + b - 1, b);
    assert(q * b == b * q) by (nonlinear_arith);
    assert((q - 1) * b == q * b - b) by (nonlinear_arith);
    assert(0 <= q <= a) by (nonlinear_arith)
        requires
            q * b >= a,
            q * b - b < a,
            a >= 0,
            b > 0,
    ;
    assert(a > 0 ==> q >= 1) by (nonlinear_arith)
        requires
            q * b >= a,
            b > 0,
    ;
}

/// `a / b` rounded up.
pub fn div_ceil(a: u32, b: u32) -> (r: u32)
    requires
        b > 0,
    ensures
        r == ceil_div(a as int, b as int),
        r <= a,
{
    let r: u64 = (a as u64 + b as u64 - 1) / (b as u64);
    proof {
        ceil_div_bounds(a as int, b as int);
    }
    r as u32
}

/// `a / b` rounded up, at sixty-four bits.
pub fn div_ceil_u64(a: u64, b: u64) -> (r: u64)
    requires
        b > 0,
    ensures
        r == ceil_div(a as int, b as int),
        r <= a,
{
    let r: u128 = (a as u128 + b as u128 - 1) / (b as u128);
    proof {
        ceil_div_bounds(a as int, b as int);
    }
    r as u64
}

/// Euclid's greatest common divisor; `gcd_of(0, 0)` is `0`.
pub open spec fn gcd_of(a: nat, b: nat) -> nat
    decreases b,
{
    if b == 0 { a } else { gcd_of(b, a % b) }
}

/// Whether `d` divides `n`.
pub open spec fn divides(d: int, n: int) -> bool {
    exists|q: int| n == #[trigger] (d * q)
}

/// The greatest common divisor divides both arguments, and everything that divides both divides
/// it.
pub proof fn gcd_is_greatest(a: nat, b: nat)
    ensures
        divides(gcd_of(a, b) as int, a as int),
        divides(gcd_of(a, b) as int, b as int),
        forall|d: int| divides(d, a as int) && divides(d, b as int) ==> #[trigger] divides(
            d,
            gcd_of(a, b) as int,
        ),
        a + b > 0 ==> gcd_of(a, b) > 0,
    decreases b,
{
    if b == 0 {
        assert(a as int == (a as int) * 1);
        assert(0 == (a as int) * 0);
    } else {
        let r = a % b;
        let g = gcd_of(b, r);
        gcd_is_greatest(b, r);
        vstd::arithmetic::div_mod::lemma_fundamental_div_mod(a as int, b as int);
        let q = a as int / b as int;
        let x = choose|x: int| b as int == #[trigger] (g as int * x);
        let y = choose|y: int| r as int == #[trigger] (g as int * y);
        assert(a as int == g as int * (x * q + y)) by (nonlinear_arith)
            requires
                a as int == b as int * q + r as int,
                b as int == g as int * x,
                r as int == g as int * y,
        ;
        assert forall|d: int| divides(d, a as int) && divides(d, b as int) implies #[trigger] divides(
            d,
            g as int,
        ) by {
            let u = choose|u: int| a as int == #[trigger] (d * u);
            let v = choose|v: int| b as int == #[trigger] (d * v);
            assert(r as int == d * (u - v * q)) by (nonlinear_arith)
                requires
                    a as int == b as int * q + r as int,
                    a as int == d * u,
                    b as int == d * v,
            ;
            assert(divides(d, r as int));
        }
    }
}

/// The greatest common divisor of `a` and `b`, never less than one.
pub fn gcd(a: u32, b: u32) -> (r: u32)
    ensures
        r == larger(gcd_of(a as nat, b as nat) as int, 1),
        divides(r as int, a as int),
        divides(r as int, b as int),
{
    let mut x: u32 = a;
    let mut y: u32 = b;
    while y != 0
        invariant
            gcd_of(x as nat, y as nat) == gcd_of(a as nat, b as nat),
        decreases y,
    {
        let t: u32 = y;
        y = x % y;
        x = t;
    }
    proof {
        gcd_is_greatest(a as nat, b as nat);
        if x == 0 {
            let p = choose|p: int| a as int == #[trigger] (0 * p);
            let q = choose|q: int| b as int == #[trigger] (0 * q);
            assert(a as int == 1 * (a as int));
            assert(b as int == 1 * (b as int));
        }
    }
    max_u32(x, 1)
}

/// Whether `n` is a power of two.
pub open spec fn is_pow2(n: int) -> bool
    decreases n,
{
    n == 1 || (n > 1 && n % 2 == 0 && is_pow2(n / 2))
}

/// The least power of two that is not below `n`.
pub open spec fn next_pow2(n: int) -> int
    decreases n,
{
    if n <= 1 { 1 } else { 2 * next_pow2((n + 1) / 2) }
}

/// `next_pow2(n)` is a power of two, reaches `n`, and half of it does not.
pub proof fn next_pow2_is_least(n: int)
    ensures
        is_pow2(next_pow2(n)),
        next_pow2(n) >= 1,
        next_pow2(n) >= n,
        n > 1 ==> next_pow2(n) < 2 * n,
        forall|p: int| #[trigger] is_pow2(p) && p >= n ==> p >= next_pow2(n),
    decreases n,
{
    if n > 1 {
        let m = (n + 1) / 2;
        next_pow2_is_least(m);
        let h = next_pow2(m);
        assert((2 * h) % 2 == 0 && (2 * h) / 2 == h);
        assert forall|p: int| #[trigger] is_pow2(p) && p >= n implies p >= next_pow2(n) by {
            assert(is_pow2(p / 2) && p / 2 >= m);
        }
        if m > 1 {
            assert(h < 2 * m);
            pow2_even(h, m);
        }
    }
}

/// A power of two below twice a number above one half of it stays within the number's range.
proof fn pow2_even(h: int, m: int)
    requires
        is_pow2(h),
        m > 1,
        m <= h < 2 * m,
    ensures
        h <= 2 * m - 2,
{
    assert(h % 2 == 0);
}

/// Powers of two up to a bound that is itself one stay below it.
pub proof fn next_pow2_monotone(a: int, b: int)
    requires
        a <= b,
    ensures
        next_pow2(a) <= next_pow2(b),
    decreases b,
{
    if b > 1 && a > 1 {
        next_pow2_monotone((a + 1) / 2, (b + 1) / 2);
    } else {
        next_pow2_is_least(b);
    }
}

/// A power of two is its own `next_pow2`.
pub proof fn next_pow2_of_pow2(n: int)
    requires
        is_pow2(n),
    ensures
        next_pow2(n) == n,
    decreases n,
{
    if n > 1 {
        next_pow2_of_pow2(n / 2);
        assert((n + 1) / 2 == n / 2);
    }
}

/// `2^31`, the widest power of two a `u32` holds.
pub const POW2_TOP: u32 = 0x8000_0000;

proof fn pow2_top_is_pow2()
    ensures
        next_pow2(POW2_TOP as int) == POW2_TOP,
{
    reveal_with_fuel(is_pow2, 33);
    next_pow2_of_pow2(POW2_TOP as int);
}

/// The least power of two that is not below `n`.
pub fn next_power_of_two(n: u32) -> (r: u32)
    requires
        n <= POW2_TOP,
    ensures
        r == next_pow2(n as int),
        r <= POW2_TOP,
        r >= 1,
    decreases n,
{
    proof {
        next_pow2_is_least(n as int);
        next_pow2_monotone(n as int, POW2_TOP as int);
        pow2_top_is_pow2();
    }
    if n <= 1 {
        1
    } else {
        let h: u32 = next_power_of_two((n - 1) / 2 + 1);
        2 * h
    }
}

/// Whether `n` is a power of two.
pub fn is_power_of_two(n: u32) -> (r: bool)
    ensures
        r == is_pow2(n as int),
    decreases n,
{
    if n <= 1 {
        n == 1
    } else {
        n % 2 == 0 && is_power_of_two(n / 2)
    }
}

/// Products of bounded factors stay bounded.
pub proof fn mul_le(a: int, b: int, x: int, y: int)
    requires
        0 <= a <= x,
        0 <= b <= y,
    ensures
        0 <= a * b <= x * y,
{
    assert(0 <= a * b <= x * y) by (nonlinear_arith)
        requires
            0 <= a <= x,
            0 <= b <= y,
    ;
}

} // verus!
