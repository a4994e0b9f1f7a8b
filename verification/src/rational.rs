//! Exact nonnegative rational numbers.
//!
//! Intensity scores, plan averages and percentage shares are ratios of
//! integers. They are carried as a numerator and a positive denominator,
//! kept small by dividing out the greatest common divisor, so every
//! arithmetic result in this crate is exact.

use vstd::prelude::*;

verus! {

use vstd::arithmetic::div_mod::{
    lemma_fundamental_div_mod, lemma_add_mod_noop, lemma_mod_multiples_basic, lemma_small_mod,
};

/// A nonnegative rational number: `num / den` with `den > 0`.
#[derive(Clone, Copy, Debug, PartialEq, Eq, Structural)]
pub struct Ratio {
    pub num: u64,
    pub den: u64,
}

impl Ratio {
    /// The pair denotes a rational number: the denominator is positive.
    pub open spec fn wf(self) -> bool {
        self.den > 0
    }
}

/// The two pairs denote the same rational number (cross multiplication).
pub open spec fn rat_eq(n1: int, d1: int, n2: int, d2: int) -> bool {
    n1 * d2 == n2 * d1
}

/// Euclid's greatest common divisor.
pub open spec fn gcd(a: nat, b: nat) -> nat
    decreases b,
{
    if b == 0 {
        a
    } else {
        gcd(b, a % b)
    }
}

/// The pair `(n, d)` with the greatest common divisor divided out.
pub open spec fn reduced(n: nat, d: nat) -> (nat, nat) {
    let g = gcd(n, d);
    if g == 0 {
        (n, d)
    } else {
        (n / g, d / g)
    }
}

/// The greatest common divisor is positive and divides both arguments.
pub proof fn lemma_gcd_divides(a: nat, b: nat)
    requires
        a > 0 || b > 0,
    ensures
        gcd(a, b) > 0,
        a % gcd(a, b) == 0,
        b % gcd(a, b) == 0,
    decreases b,
{
    if b == 0 {
        assert(gcd(a, b) == a);
        assert(a % a == 0) by {
            lemma_mod_multiples_basic(1, a as int);
        }
        assert(0int % a as int == 0) by {
            lemma_small_mod(0, a);
        }
    } else {
        lemma_gcd_divides(b, a % b);
        let g = gcd(b, a % b);
        assert(gcd(a, b) == g);
        // a == b * (a / b) + a % b, and g divides both summands.
        lemma_fundamental_div_mod(a as int, b as int);
        lemma_divides_multiple(b as int, a as int / b as int, g);
        lemma_divides_sum(b as int * (a as int / b as int), a as int % b as int, g);
        assert(a as int == b as int * (a as int / b as int) + a as int % b as int);
    }
}

/// If `g` divides `x`, it divides `x * c`.
proof fn lemma_divides_multiple(x: int, c: int, g: nat)
    requires
        g > 0,
        x % g as int == 0,
    ensures
        (x * c) % g as int == 0,
{
    let gi = g as int;
    lemma_fundamental_div_mod(x, gi);
    assert(x == gi * (x / gi));
    assert(x * c == (x / gi * c) * gi) by (nonlinear_arith)
        requires
            x == gi * (x / gi),
    ;
    lemma_mod_multiples_basic(x / gi * c, gi);
}

/// If `g` divides `x` and `y`, it divides `x + y`.
proof fn lemma_divides_sum(x: int, y: int, g: nat)
    requires
        g > 0,
        x % g as int == 0,
        y % g as int == 0,
    ensures
        (x + y) % g as int == 0,
{
    let gi = g as int;
    lemma_add_mod_noop(x, y, gi);
    assert((x + y) % gi == ((x % gi) + (y % gi)) % gi);
    assert((0int + 0int) % gi == 0) by {
        lemma_small_mod(0, g);
    }
}

/// Dividing numerator and denominator by a common divisor keeps the
/// denominator positive and the rational value unchanged.
pub proof fn lemma_reduce_keeps_value(n: nat, d: nat, g: nat)
    requires
        g > 0,
        d > 0,
        n % g == 0,
        d % g == 0,
    ensures
        d / g > 0,
        rat_eq((n / g) as int, (d / g) as int, n as int, d as int),
{
    let gi = g as int;
    lemma_fundamental_div_mod(n as int, gi);
    lemma_fundamental_div_mod(d as int, gi);
    assert(n as int == gi * (n as int / gi));
    assert(d as int == gi * (d as int / gi));
    assert(d / g > 0) by (nonlinear_arith)
        requires
            d as int == g as int * (d / g) as int,
            d > 0,
            g > 0,
    ;
    assert((n / g) as int * d as int == n as int * (d / g) as int) by (nonlinear_arith)
        requires
            n as int == g as int * (n / g) as int,
            d as int == g as int * (d / g) as int,
    ;
}

/// The reduced form of a pair denotes the same rational number.
pub proof fn lemma_reduced_eq(n: nat, d: nat)
    requires
        d > 0,
    ensures
        reduced(n, d).1 > 0,
        rat_eq(reduced(n, d).0 as int, reduced(n, d).1 as int, n as int, d as int),
{
    lemma_gcd_divides(n, d);
    lemma_reduce_keeps_value(n, d, gcd(n, d));
}

/// Denoting the same rational number is transitive.
pub proof fn lemma_rat_eq_trans(a: int, b: int, c: int, d: int, e: int, f: int)
    requires
        b > 0,
        d > 0,
        f > 0,
        rat_eq(a, b, c, d),
        rat_eq(c, d, e, f),
    ensures
        rat_eq(a, b, e, f),
{
    assert(a * f == e * b) by (nonlinear_arith)
        requires
            a * d == c * b,
            c * f == e * d,
            d > 0,
    ;
}

/// Equal rationals compare the same way against any whole number.
pub proof fn lemma_rat_eq_cmp_int(a: int, b: int, c: int, d: int, k: int)
    requires
        b > 0,
        d > 0,
        rat_eq(a, b, c, d),
    ensures
        (a < k * b) <==> (c < k * d),
        (a > k * b) <==> (c > k * d),
{
    assert(((a < k * b) <==> (c < k * d)) && ((a > k * b) <==> (c > k * d)))
        by (nonlinear_arith)
        requires
            a * d == c * b,
            b > 0,
            d > 0,
    ;
}

/// Adding the same term preserves equality of rationals.
#[verifier::rlimit(50)]
pub proof fn lemma_rat_eq_add(a1: int, b1: int, a2: int, b2: int, c: int, d: int)
    requires
        b1 > 0,
        b2 > 0,
        d > 0,
        rat_eq(a1, b1, a2, b2),
    ensures
        rat_eq(a1 * d + c * b1, b1 * d, a2 * d + c * b2, b2 * d),
{
    assert((a1 * d + c * b1) * (b2 * d) == (a2 * d + c * b2) * (b1 * d)) by (nonlinear_arith)
        requires
            a1 * b2 == a2 * b1,
    ;
}

/// Scaling the denominator by the same factor preserves equality.
pub proof fn lemma_rat_eq_scale_den(a1: int, b1: int, a2: int, b2: int, k: int)
    requires
        b1 > 0,
        b2 > 0,
        k > 0,
        rat_eq(a1, b1, a2, b2),
    ensures
        rat_eq(a1, b1 * k, a2, b2 * k),
{
    assert(a1 * (b2 * k) == a2 * (b1 * k)) by (nonlinear_arith)
        requires
            a1 * b2 == a2 * b1,
    ;
}

/// Euclid's algorithm, matching the `gcd` specification.
pub fn gcd_u128(a: u128, b: u128) -> (g: u128)
    ensures
        g as nat == gcd(a as nat, b as nat),
{
    let mut x: u128 = a;
    let mut y: u128 = b;
    while y != 0
        invariant
            gcd(x as nat, y as nat) == gcd(a as nat, b as nat),
        decreases y,
    {
        let r = x % y;
        x = y;
        y = r;
    }
    x
}

/// The exact sum of two rationals, reduced by the greatest common divisor.
///
/// The result is pinned exactly: it is `reduced` of the cross-multiplied sum.
pub fn ratio_add_reduced(x: &Ratio, y: &Ratio) -> (r: Ratio)
    requires
        x.wf(),
        y.wf(),
        x.num * y.den + y.num * x.den <= u128::MAX,
        reduced((x.num * y.den + y.num * x.den) as nat, (x.den * y.den) as nat).0 <= u64::MAX,
        reduced((x.num * y.den + y.num * x.den) as nat, (x.den * y.den) as nat).1 <= u64::MAX,
    ensures
        r.wf(),
        r.num as nat == reduced((x.num * y.den + y.num * x.den) as nat, (x.den * y.den) as nat).0,
        r.den as nat == reduced((x.num * y.den + y.num * x.den) as nat, (x.den * y.den) as nat).1,
        rat_eq(
            r.num as int,
            r.den as int,
            x.num * y.den + y.num * x.den,
            x.den * y.den,
        ),
{
    proof {
        lemma_u64_products_fit(x.num as int, y.den as int);
        lemma_u64_products_fit(y.num as int, x.den as int);
        lemma_u64_products_fit(x.den as int, y.den as int);
    }
    let s: u128 = (x.num as u128) * (y.den as u128) + (y.num as u128) * (x.den as u128);
    let dd: u128 = (x.den as u128) * (y.den as u128);
    let g: u128 = gcd_u128(s, dd);
    proof {
        assert(dd > 0) by (nonlinear_arith)
            requires
                dd == x.den * y.den,
                x.den > 0,
                y.den > 0,
        ;
        lemma_gcd_divides(s as nat, dd as nat);
        lemma_reduce_keeps_value(s as nat, dd as nat, gcd(s as nat, dd as nat));
    }
    Ratio { num: (s / g) as u64, den: (dd / g) as u64 }
}

/// The product of two 64-bit values fits in 128 bits.
proof fn lemma_u64_products_fit(a: int, b: int)
    requires
        0 <= a <= u64::MAX,
        0 <= b <= u64::MAX,
    ensures
        0 <= a * b <= u64::MAX * u64::MAX,
        a * b <= u128::MAX,
{
    assert(0 <= a * b && a * b <= u64::MAX * u64::MAX) by (nonlinear_arith)
        requires
            0 <= a <= u64::MAX,
            0 <= b <= u64::MAX,
    ;
}

/// The exact quotient of a rational by a positive count, reduced.
pub fn ratio_div_count(x: &Ratio, n: u64) -> (r: Ratio)
    requires
        x.wf(),
        n > 0,
        reduced(x.num as nat, (x.den * n) as nat).0 <= u64::MAX,
        reduced(x.num as nat, (x.den * n) as nat).1 <= u64::MAX,
    ensures
        r.wf(),
        r.num as nat == reduced(x.num as nat, (x.den * n) as nat).0,
        r.den as nat == reduced(x.num as nat, (x.den * n) as nat).1,
        rat_eq(r.num as int, r.den as int, x.num as int, x.den * n),
{
    proof {
        lemma_u64_products_fit(x.den as int, n as int);
    }
    let s: u128 = x.num as u128;
    let dd: u128 = (x.den as u128) * (n as u128);
    let g: u128 = gcd_u128(s, dd);
    proof {
        assert(dd > 0) by (nonlinear_arith)
            requires
                dd == x.den * n,
                x.den > 0,
                n > 0,
        ;
        lemma_gcd_divides(s as nat, dd as nat);
        lemma_reduce_keeps_value(s as nat, dd as nat, gcd(s as nat, dd as nat));
    }
    Ratio { num: (s / g) as u64, den: (dd / g) as u64 }
}

/// Whether the rational is strictly below the whole number `k`.
pub fn ratio_lt_int(x: &Ratio, k: u64) -> (r: bool)
    requires
        x.wf(),
    ensures
        r <==> (x.num as int) < k * x.den,
{
    proof {
        lemma_u64_products_fit(k as int, x.den as int);
    }
    (x.num as u128) < (k as u128) * (x.den as u128)
}

/// Whether the rational is strictly above the whole number `k`.
pub fn ratio_gt_int(x: &Ratio, k: u64) -> (r: bool)
    requires
        x.wf(),
    ensures
        r <==> (x.num as int) > k * x.den,
{
    proof {
        lemma_u64_products_fit(k as int, x.den as int);
    }
    (x.num as u128) > (k as u128) * (x.den as u128)
}

} // verus!
