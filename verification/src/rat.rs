use vstd::prelude::*;
use vstd::arithmetic::div_mod::lemma_div_multiples_vanish;
use vstd::arithmetic::div_mod::lemma_div_pos_is_pos;
use vstd::arithmetic::div_mod::lemma_fundamental_div_mod;
use vstd::arithmetic::div_mod::lemma_mod_multiples_basic;
use vstd::arithmetic::div_mod::lemma_small_mod;
use vstd::math::abs;

verus! {

/// An exact rational number `num / den` with a strictly positive
/// denominator.
///
/// Arithmetic is exact: products and differences are computed in `i128`
/// and reduced to lowest terms before they are stored, so values whose
/// factors cancel (a zoom followed by its inverse, repeated pans) stay
/// small. An operation whose result does not fit in `i64` components
/// even in lowest terms reports `None` rather than rounding.
#[derive(Clone, Copy, Debug)]
pub struct Rat {
    pub num: i64,
    pub den: i64,
}

/// Greatest common divisor, by Euclid's algorithm.
pub open spec fn gcd_nat(a: nat, b: nat) -> nat
    decreases b,
{
    if b == 0 {
        a
    } else {
        gcd_nat(b, a % b)
    }
}

/// The factor the rational `n / d` is reduced by: `gcd(|n|, d)`.
pub open spec fn spec_gcd(n: int, d: int) -> int {
    gcd_nat(abs(n) as nat, d as nat) as int
}

/// Numerator of `n / d` in lowest terms.
pub open spec fn red_num(n: int, d: int) -> int {
    n / spec_gcd(n, d)
}

/// Denominator of `n / d` in lowest terms.
pub open spec fn red_den(n: int, d: int) -> int {
    d / spec_gcd(n, d)
}

/// The rational `n / d` in lowest terms, meaningful for `d > 0`.
pub open spec fn spec_reduce(n: int, d: int) -> Rat {
    Rat { num: red_num(n, d) as i64, den: red_den(n, d) as i64 }
}

/// Both components of `n / d` in lowest terms fit in `i64`.
pub open spec fn red_fits(n: int, d: int) -> bool {
    &&& -0x7fff_ffff_ffff_ffff <= red_num(n, d) <= 0x7fff_ffff_ffff_ffff
    &&& red_den(n, d) <= 0x7fff_ffff_ffff_ffff
}

/// The exact product of `a` and `b` fits in `i64` in lowest terms.
pub open spec fn mul_fits(a: Rat, b: Rat) -> bool {
    red_fits(a.num * b.num, a.den * b.den)
}

/// The exact product of `a` and `b`, in lowest terms.
pub open spec fn spec_mul(a: Rat, b: Rat) -> Rat {
    spec_reduce(a.num * b.num, a.den * b.den)
}

/// The exact difference `a - b` fits in `i64` in lowest terms.
pub open spec fn sub_fits(a: Rat, b: Rat) -> bool {
    red_fits(a.num * b.den - b.num * a.den, a.den * b.den)
}

/// The exact difference `a - b`, in lowest terms.
pub open spec fn spec_sub(a: Rat, b: Rat) -> Rat {
    spec_reduce(a.num * b.den - b.num * a.den, a.den * b.den)
}

/// Euclid's algorithm computes `gcd_nat`, the gcd is positive when
/// either argument is, and it divides both arguments.
proof fn lemma_gcd_props(a: nat, b: nat)
    ensures
        a > 0 || b > 0 ==> gcd_nat(a, b) > 0,
        gcd_nat(a, b) > 0 ==> a % gcd_nat(a, b) == 0 && b % gcd_nat(a, b) == 0,
    decreases b,
{
    let g = gcd_nat(a, b);
    if b == 0 {
        if a > 0 {
            lemma_mod_multiples_basic(1, a as int);
            lemma_small_mod(0, a);
        }
    } else {
        lemma_gcd_props(b, a % b);
        assert(g > 0);
        let r = a % b;
        lemma_fundamental_div_mod(a as int, b as int);
        lemma_fundamental_div_mod(b as int, g as int);
        lemma_fundamental_div_mod(r as int, g as int);
        let qb = b as int / g as int;
        let qr = r as int / g as int;
        let qa = a as int / b as int;
        assert(a as int == (qb * qa + qr) * g) by (nonlinear_arith)
            requires
                a as int == b as int * qa + r as int,
                b as int == g as int * qb,
                r as int == g as int * qr,
        ;
        lemma_mod_multiples_basic(qb * qa + qr, g as int);
    }
}

/// Reduction keeps the rational value: `n / d` and its lowest-terms form
/// are equal as rationals, and the reduced denominator stays positive.
pub proof fn lemma_reduce_eqv(n: int, d: int)
    requires
        d > 0,
    ensures
        spec_gcd(n, d) >= 1,
        red_den(n, d) >= 1,
        n == spec_gcd(n, d) * red_num(n, d),
        d == spec_gcd(n, d) * red_den(n, d),
        red_num(n, d) * d == n * red_den(n, d),
{
    let g = spec_gcd(n, d);
    lemma_gcd_props(abs(n) as nat, d as nat);
    assert(g >= 1);
    let qd = red_den(n, d);
    lemma_fundamental_div_mod(d, g);
    assert(d == g * qd);
    let an = abs(n) as int;
    lemma_fundamental_div_mod(an, g);
    let qan = an / g;
    assert(an == g * qan);
    if n >= 0 {
        assert(n == g * red_num(n, d));
    } else {
        assert(n == g * (-qan)) by (nonlinear_arith)
            requires
                n == -an,
                an == g * qan,
        ;
        lemma_div_multiples_vanish(-qan, g);
        assert(n == g * red_num(n, d));
    }
    assert(qd >= 1) by (nonlinear_arith)
        requires
            d > 0,
            g > 0,
            d == g * qd,
    ;
    assert(red_num(n, d) * d == n * qd) by (nonlinear_arith)
        requires
            n == g * red_num(n, d),
            d == g * qd,
    ;
}

/// The product of an `i64`-range value and a positive `i64`-range value
/// stays well inside `i128`, far enough that two such products can be
/// subtracted without overflow.
proof fn lemma_num_den_prod_bounds(x: int, y: int)
    by (nonlinear_arith)
    requires
        -0x8000_0000_0000_0000 <= x <= 0x7fff_ffff_ffff_ffff,
        1 <= y <= 0x7fff_ffff_ffff_ffff,
    ensures
        -0x3fff_ffff_ffff_ffff_8000_0000_0000_0000 <= x * y
            <= 0x3fff_ffff_ffff_ffff_8000_0000_0000_0000,
{
}

/// The product of two `i64`-range values stays inside `i128`.
proof fn lemma_i64_prod_bounds(x: int, y: int)
    by (nonlinear_arith)
    requires
        -0x8000_0000_0000_0000 <= x <= 0x7fff_ffff_ffff_ffff,
        -0x8000_0000_0000_0000 <= y <= 0x7fff_ffff_ffff_ffff,
    ensures
        -0x4000_0000_0000_0000_0000_0000_0000_0000 <= x * y
            <= 0x4000_0000_0000_0000_0000_0000_0000_0000,
{
}

fn gcd_u128(a: u128, b: u128) -> (g: u128)
    ensures
        g as nat == gcd_nat(a as nat, b as nat),
    decreases b,
{
    if b == 0 {
        a
    } else {
        gcd_u128(b, a % b)
    }
}

/// Reduces `n / d` to lowest terms and packs it into `i64` components,
/// or reports `None` when even the lowest-terms form does not fit.
fn pack_reduced(n: i128, d: i128) -> (r: Option<Rat>)
    requires
        n > i128::MIN,
        0 < d,
    ensures
        r is Some <==> red_fits(n as int, d as int),
        r matches Some(p) ==> p == spec_reduce(n as int, d as int) && p.wf(),
{
    proof {
        lemma_reduce_eqv(n as int, d as int);
    }
    let neg: bool = n < 0;
    let an: u128 = if neg {
        (-n) as u128
    } else {
        n as u128
    };
    let ad: u128 = d as u128;
    let g: u128 = gcd_u128(an, ad);
    proof {
        assert(g as int == spec_gcd(n as int, d as int));
        lemma_div_pos_is_pos(an as int, g as int);
        // the divisions below are exact, so they match the spec's
        // reduced components up to the sign split
        lemma_div_multiples_vanish(red_den(n as int, d as int), g as int);
        if neg {
            lemma_div_multiples_vanish(-red_num(n as int, d as int), g as int);
            assert(an as int == g * (-red_num(n as int, d as int))) by (nonlinear_arith)
                requires
                    an as int == -(n as int),
                    n as int == g as int * red_num(n as int, d as int),
            ;
        } else {
            lemma_div_multiples_vanish(red_num(n as int, d as int), g as int);
        }
    }
    let mn: u128 = an / g;
    let md: u128 = ad / g;
    if mn <= 0x7fff_ffff_ffff_ffff && md <= 0x7fff_ffff_ffff_ffff {
        let num: i64 = if neg {
            -(mn as i64)
        } else {
            mn as i64
        };
        Some(Rat { num, den: md as i64 })
    } else {
        None
    }
}

impl Rat {
    /// The denominator is strictly positive.
    pub open spec fn wf(self) -> bool {
        0 < self.den
    }

    /// `self` and `other` denote the same rational value.
    pub open spec fn eqv(self, other: Rat) -> bool {
        self.num * other.den == other.num * self.den
    }

    pub fn new(num: i64, den: i64) -> (r: Rat)
        requires
            0 < den,
        ensures
            r == (Rat { num, den }),
            r.wf(),
    {
        Rat { num, den }
    }

    pub fn from_int(v: i64) -> (r: Rat)
        ensures
            r == (Rat { num: v, den: 1 }),
            r.wf(),
    {
        Rat { num: v, den: 1 }
    }

    /// The exact product in lowest terms, or `None` when even reduced it
    /// overflows `i64`. A `Some` result equals the exact product as a
    /// rational: `p.num * (a.den * b.den) == (a.num * b.num) * p.den`.
    pub fn checked_mul(self, other: Rat) -> (r: Option<Rat>)
        requires
            self.wf(),
            other.wf(),
        ensures
            r is Some <==> mul_fits(self, other),
            r matches Some(p) ==> p == spec_mul(self, other) && p.wf() && p.num * (self.den
                * other.den) == (self.num * other.num) * p.den,
    {
        proof {
            lemma_i64_prod_bounds(self.num as int, other.num as int);
            lemma_num_den_prod_bounds(self.den as int, other.den as int);
            assert(self.den * other.den > 0) by (nonlinear_arith)
                requires
                    self.den > 0,
                    other.den > 0,
            ;
            lemma_reduce_eqv(self.num as int * other.num as int, self.den as int * other.den as int);
        }
        let pn: i128 = (self.num as i128) * (other.num as i128);
        let pd: i128 = (self.den as i128) * (other.den as i128);
        pack_reduced(pn, pd)
    }

    /// The exact difference in lowest terms, or `None` when even reduced
    /// it overflows `i64`. A `Some` result equals the exact difference
    /// as a rational:
    /// `p.num * (a.den * b.den) == (a.num * b.den - b.num * a.den) * p.den`.
    pub fn checked_sub(self, other: Rat) -> (r: Option<Rat>)
        requires
            self.wf(),
            other.wf(),
        ensures
            r is Some <==> sub_fits(self, other),
            r matches Some(p) ==> p == spec_sub(self, other) && p.wf() && p.num * (self.den
                * other.den) == (self.num * other.den - other.num * self.den) * p.den,
    {
        proof {
            lemma_num_den_prod_bounds(self.num as int, other.den as int);
            lemma_num_den_prod_bounds(other.num as int, self.den as int);
            lemma_num_den_prod_bounds(self.den as int, other.den as int);
            assert(self.den * other.den > 0) by (nonlinear_arith)
                requires
                    self.den > 0,
                    other.den > 0,
            ;
            lemma_reduce_eqv(
                self.num as int * other.den as int - other.num as int * self.den as int,
                self.den as int * other.den as int,
            );
        }
        let t1: i128 = (self.num as i128) * (other.den as i128);
        let t2: i128 = (other.num as i128) * (self.den as i128);
        let dn: i128 = t1 - t2;
        let dd: i128 = (self.den as i128) * (other.den as i128);
        pack_reduced(dn, dd)
    }

    /// Exact semantic equality of the two rational values.
    pub fn eq_rat(&self, other: &Rat) -> (r: bool)
        requires
            self.wf(),
            other.wf(),
        ensures
            r == self.eqv(*other),
    {
        proof {
            lemma_num_den_prod_bounds(self.num as int, other.den as int);
            lemma_num_den_prod_bounds(other.num as int, self.den as int);
        }
        (self.num as i128) * (other.den as i128) == (other.num as i128) * (self.den as i128)
    }
}

} // verus!
