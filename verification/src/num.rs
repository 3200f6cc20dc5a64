//! Exact rational numbers for literal values in symbolic expressions.
//!
//! A literal is kept as a sign, a magnitude and a positive denominator, reduced
//! by their greatest common divisor. Arithmetic is exact; a result whose
//! reduced form does not fit the representation is reported as `None`.
use vstd::prelude::*;

verus! {

/// Greatest common divisor, by Euclid's recurrence.
pub open spec fn gcd(a: nat, b: nat) -> nat
    decreases b,
{
    if b == 0 {
        a
    } else {
        gcd(b, a % b)
    }
}

pub open spec fn abs_int(n: int) -> nat {
    if n < 0 { (-n) as nat } else { n as nat }
}

pub proof fn lemma_gcd_pos(a: nat, b: nat)
    requires
        a > 0 || b > 0,
    ensures
        gcd(a, b) > 0,
    decreases b,
{
    if b != 0 {
        lemma_gcd_pos(b, a % b);
    }
}

pub proof fn lemma_gcd_divides(a: nat, b: nat)
    requires
        a > 0 || b > 0,
    ensures
        gcd(a, b) > 0,
        a % gcd(a, b) == 0,
        b % gcd(a, b) == 0,
    decreases b,
{
    lemma_gcd_pos(a, b);
    if b == 0 {
        vstd::arithmetic::div_mod::lemma_mod_self_0(a as int);
    } else {
        let r = a % b;
        lemma_gcd_divides(b, r);
        let g = gcd(a, b);
        assert(g == gcd(b, r));
        vstd::arithmetic::div_mod::lemma_fundamental_div_mod(a as int, b as int);
        vstd::arithmetic::div_mod::lemma_fundamental_div_mod(b as int, g as int);
        vstd::arithmetic::div_mod::lemma_fundamental_div_mod(r as int, g as int);
        let q = a / b;
        let k1 = b / g;
        let k2 = r / g;
        assert(b == g * k1);
        assert(r == g * k2);
        assert(a == b * q + r);
        assert(a == g * (k1 * q + k2)) by (nonlinear_arith)
            requires
                a == b * q + r,
                b == g * k1,
                r == g * k2,
        ;
        vstd::arithmetic::div_mod::lemma_mod_multiples_basic((k1 * q + k2) as int, g as int);
        assert((k1 * q + k2) * g == g * (k1 * q + k2)) by (nonlinear_arith);
    }
}

pub proof fn lemma_mul_u64_fits(a: u64, b: u64)
    ensures
        (a as int) * (b as int) <= u128::MAX,
        a > 0 && b > 0 ==> (a as int) * (b as int) > 0,
{
    assert((a as int) * (b as int) <= (u64::MAX as int) * (u64::MAX as int)) by (nonlinear_arith)
        requires
            a <= u64::MAX,
            b <= u64::MAX,
    ;
    assert(a > 0 && b > 0 ==> (a as int) * (b as int) > 0) by (nonlinear_arith);
}

/// An exact rational literal: `(-1)^neg * mag / den`.
#[derive(Clone, Copy, Debug, PartialEq, Eq, Structural)]
pub struct Num {
    pub neg: bool,
    pub mag: u64,
    pub den: u64,
}

/// The reduced literal for the fraction `n / d`, when it fits.
pub open spec fn spec_make(n: int, d: int) -> Option<Num> {
    if d <= 0 || abs_int(n) > u128::MAX || d > u128::MAX {
        None
    } else {
        let g = gcd(abs_int(n), d as nat);
        let m = abs_int(n) / g;
        let q = d / g as int;
        if m <= u64::MAX && q <= u64::MAX {
            Some(Num { neg: n < 0, mag: m as u64, den: q as u64 })
        } else {
            None
        }
    }
}

/// Two fractions with positive denominators denote the same rational.
pub open spec fn same_ratio(n1: int, d1: int, n2: int, d2: int) -> bool {
    n1 * d2 == n2 * d1
}

pub proof fn lemma_make_value(n: int, d: int)
    requires
        spec_make(n, d) is Some,
    ensures
        spec_make(n, d).unwrap().wf(),
        same_ratio(spec_make(n, d).unwrap().numer(), spec_make(n, d).unwrap().den as int, n, d),
{
    let a = abs_int(n);
    lemma_gcd_divides(a, d as nat);
    let g = gcd(a, d as nat);
    vstd::arithmetic::div_mod::lemma_fundamental_div_mod(a as int, g as int);
    vstd::arithmetic::div_mod::lemma_fundamental_div_mod(d, g as int);
    let m = a / g;
    let q = d / (g as int);
    assert(a == g * m);
    assert(d == g * q);
    assert(q > 0) by (nonlinear_arith)
        requires
            d == g * q,
            d > 0,
            g > 0,
    ;
    assert(m * d == a * q) by (nonlinear_arith)
        requires
            a == g * m,
            d == g * q,
    ;
    let c = spec_make(n, d).unwrap();
    if n < 0 {
        assert(c.numer() == -m);
        assert(-m * d == n * q) by (nonlinear_arith)
            requires
                m * d == a * q,
                a == -n,
        ;
    } else {
        assert(c.numer() == m);
    }
    if m == 0 {
        assert(a == 0) by (nonlinear_arith)
            requires
                a == g * m,
                m == 0,
        ;
    }
}

impl Num {
    /// Signed numerator.
    pub open spec fn numer(self) -> int {
        if self.neg {
            -(self.mag as int)
        } else {
            self.mag as int
        }
    }

    pub open spec fn wf(self) -> bool {
        &&& self.den > 0
        &&& (self.mag == 0 ==> !self.neg)
    }

    /// `self` and `other` denote the same rational.
    pub open spec fn same_value(self, other: Num) -> bool {
        same_ratio(self.numer(), self.den as int, other.numer(), other.den as int)
    }

    pub open spec fn spec_add(self, other: Num) -> Option<Num> {
        spec_make(
            self.numer() * other.den + other.numer() * self.den,
            self.den * other.den,
        )
    }

    pub open spec fn spec_neg(self) -> Num {
        if self.mag == 0 {
            self
        } else {
            Num { neg: !self.neg, ..self }
        }
    }

    pub open spec fn spec_sub(self, other: Num) -> Option<Num> {
        self.spec_add(other.spec_neg())
    }

    pub open spec fn spec_mul(self, other: Num) -> Option<Num> {
        spec_make(self.numer() * other.numer(), self.den * other.den)
    }

    pub open spec fn spec_div(self, other: Num) -> Option<Num> {
        if other.mag == 0 {
            None
        } else if other.neg {
            spec_make(-(self.numer() * other.den), self.den * other.mag)
        } else {
            spec_make(self.numer() * other.den, self.den * other.mag)
        }
    }

    pub open spec fn spec_lt(self, other: Num) -> bool {
        self.numer() * other.den < other.numer() * self.den
    }

    pub open spec fn spec_abs(self) -> Num {
        Num { neg: false, ..self }
    }

    pub open spec fn spec_min(self, other: Num) -> Num {
        if other.spec_lt(self) {
            other
        } else {
            self
        }
    }

    pub open spec fn spec_max(self, other: Num) -> Num {
        if self.spec_lt(other) {
            other
        } else {
            self
        }
    }

    pub open spec fn is_positive(self) -> bool {
        self.numer() > 0
    }

    pub open spec fn is_zero(self) -> bool {
        self.mag == 0
    }

    /// The literal denotes a whole number.
    pub open spec fn is_integral(self) -> bool {
        self.mag % self.den == 0
    }

    /// The whole number denoted by an integral literal.
    pub open spec fn spec_whole(self) -> int {
        self.numer() / (self.den as int)
    }

    /// The literal `0`.
    pub open spec fn spec_zero() -> Num {
        Num { neg: false, mag: 0, den: 1 }
    }

    /// The literal `1`.
    pub open spec fn spec_one() -> Num {
        Num { neg: false, mag: 1, den: 1 }
    }

    pub fn zero() -> (r: Num)
        ensures
            r == Num::spec_zero(),
    {
        Num { neg: false, mag: 0, den: 1 }
    }

    pub fn one() -> (r: Num)
        ensures
            r == Num::spec_one(),
    {
        Num { neg: false, mag: 1, den: 1 }
    }

    /// The whole number `v` as a literal.
    pub fn whole(v: i64) -> (r: Num)
        ensures
            r.wf(),
            r.numer() == v,
            r.den == 1,
    {
        if v < 0 {
            let m: i128 = -(v as i128);
            Num { neg: true, mag: m as u64, den: 1 }
        } else {
            Num { neg: false, mag: v as u64, den: 1 }
        }
    }

    /// The reduced literal `n / d`; `None` when `d` is zero.
    pub fn ratio(n: i64, d: u64) -> (r: Option<Num>)
        ensures
            r == spec_make(n as int, d as int),
    {
        if d == 0 {
            return None;
        }
        if n < 0 {
            let m: i128 = -(n as i128);
            make(true, m as u128, d as u128)
        } else {
            make(false, n as u128, d as u128)
        }
    }

    pub fn neg(self) -> (r: Num)
        ensures
            r == self.spec_neg(),
    {
        if self.mag == 0 {
            self
        } else {
            Num { neg: !self.neg, ..self }
        }
    }

    pub fn abs(self) -> (r: Num)
        ensures
            r == self.spec_abs(),
    {
        Num { neg: false, ..self }
    }

    pub fn add(self, other: Num) -> (r: Option<Num>)
        requires
            self.wf(),
            other.wf(),
        ensures
            r == self.spec_add(other),
    {
        proof {
            lemma_mul_u64_fits(self.mag, other.den);
            lemma_mul_u64_fits(other.mag, self.den);
            lemma_mul_u64_fits(self.den, other.den);
        }
        let x: u128 = self.mag as u128 * other.den as u128;
        let y: u128 = other.mag as u128 * self.den as u128;
        let d: u128 = self.den as u128 * other.den as u128;
        proof {
            assert(self.numer() * other.den == if self.neg { -(x as int) } else { x as int })
                by (nonlinear_arith)
                requires
                    x == self.mag * other.den,
                    self.numer() == if self.neg { -(self.mag as int) } else { self.mag as int },
            ;
            assert(other.numer() * self.den == if other.neg { -(y as int) } else { y as int })
                by (nonlinear_arith)
                requires
                    y == other.mag * self.den,
                    other.numer() == if other.neg { -(other.mag as int) } else { other.mag as int },
            ;
        }
        if self.neg == other.neg {
            match x.checked_add(y) {
                Some(s) => make(self.neg, s, d),
                None => None,
            }
        } else if x >= y {
            make(self.neg, x - y, d)
        } else {
            make(other.neg, y - x, d)
        }
    }

    pub fn sub(self, other: Num) -> (r: Option<Num>)
        requires
            self.wf(),
            other.wf(),
        ensures
            r == self.spec_sub(other),
    {
        self.add(other.neg())
    }

    pub fn mul(self, other: Num) -> (r: Option<Num>)
        requires
            self.wf(),
            other.wf(),
        ensures
            r == self.spec_mul(other),
    {
        proof {
            lemma_mul_u64_fits(self.mag, other.mag);
            lemma_mul_u64_fits(self.den, other.den);
        }
        let m: u128 = self.mag as u128 * other.mag as u128;
        let d: u128 = self.den as u128 * other.den as u128;
        proof {
            assert(self.numer() * other.numer() == if self.neg != other.neg {
                -(m as int)
            } else {
                m as int
            }) by (nonlinear_arith)
                requires
                    m == self.mag * other.mag,
                    self.numer() == if self.neg { -(self.mag as int) } else { self.mag as int },
                    other.numer() == if other.neg { -(other.mag as int) } else { other.mag as int },
            ;
        }
        make(self.neg != other.neg, m, d)
    }

    pub fn div(self, other: Num) -> (r: Option<Num>)
        requires
            self.wf(),
            other.wf(),
        ensures
            r == self.spec_div(other),
    {
        if other.mag == 0 {
            return None;
        }
        proof {
            lemma_mul_u64_fits(self.mag, other.den);
            lemma_mul_u64_fits(self.den, other.mag);
        }
        let m: u128 = self.mag as u128 * other.den as u128;
        let d: u128 = self.den as u128 * other.mag as u128;
        proof {
            assert(self.numer() * other.den == if self.neg { -(m as int) } else { m as int })
                by (nonlinear_arith)
                requires
                    m == self.mag * other.den,
                    self.numer() == if self.neg { -(self.mag as int) } else { self.mag as int },
            ;
            assert(d > 0) by (nonlinear_arith)
                requires
                    d == self.den * other.mag,
                    self.den > 0,
                    other.mag > 0,
            ;
        }
        make(self.neg != other.neg, m, d)
    }

    pub fn lt(self, other: Num) -> (r: bool)
        ensures
            r == self.spec_lt(other),
    {
        proof {
            lemma_mul_u64_fits(self.mag, other.den);
            lemma_mul_u64_fits(other.mag, self.den);
            lemma_mul_u64_fits(self.den, other.den);
        }
        let x: u128 = self.mag as u128 * other.den as u128;
        let y: u128 = other.mag as u128 * self.den as u128;
        proof {
            assert(self.numer() * other.den == if self.neg { -(x as int) } else { x as int })
                by (nonlinear_arith)
                requires
                    x == self.mag * other.den,
                    self.numer() == if self.neg { -(self.mag as int) } else { self.mag as int },
            ;
            assert(other.numer() * self.den == if other.neg { -(y as int) } else { y as int })
                by (nonlinear_arith)
                requires
                    y == other.mag * self.den,
                    other.numer() == if other.neg { -(other.mag as int) } else { other.mag as int },
            ;
        }
        match (self.neg, other.neg) {
            (false, false) => x < y,
            (true, true) => y < x,
            (true, false) => !(x == 0 && y == 0),
            (false, true) => false,
        }
    }

    pub fn min(self, other: Num) -> (r: Num)
        requires
            self.wf(),
            other.wf(),
        ensures
            r == self.spec_min(other),
    {
        if other.lt(self) {
            other
        } else {
            self
        }
    }

    pub fn max(self, other: Num) -> (r: Num)
        requires
            self.wf(),
            other.wf(),
        ensures
            r == self.spec_max(other),
    {
        if self.lt(other) {
            other
        } else {
            self
        }
    }

    pub fn is_positive_exec(&self) -> (r: bool)
        requires
            self.wf(),
        ensures
            r == self.is_positive(),
    {
        !self.neg && self.mag != 0
    }

    pub fn is_integral_exec(&self) -> (r: bool)
        requires
            self.wf(),
        ensures
            r == self.is_integral(),
    {
        self.mag % self.den == 0
    }

    /// Structural equality of two literals (the same representation).
    pub fn same_repr(&self, other: &Num) -> (r: bool)
        ensures
            r == (*self == *other),
    {
        self.neg == other.neg && self.mag == other.mag && self.den == other.den
    }
}

pub fn gcd_u128(a: u128, b: u128) -> (g: u128)
    ensures
        g == gcd(a as nat, b as nat),
{
    let mut x = a;
    let mut y = b;
    while y != 0
        invariant
            gcd(x as nat, y as nat) == gcd(a as nat, b as nat),
        decreases y,
    {
        let r = x % y;
        x = y;
        y = r;
    }
    x
}

/// The reduced literal `(-1)^neg * mag / den`, when it fits.
pub fn make(neg: bool, mag: u128, den: u128) -> (r: Option<Num>)
    requires
        den > 0,
    ensures
        r == spec_make(if neg { -(mag as int) } else { mag as int }, den as int),
{
    let ghost n: int = if neg { -(mag as int) } else { mag as int };
    assert(abs_int(n) == mag);
    let g = gcd_u128(mag, den);
    proof {
        lemma_gcd_pos(mag as nat, den as nat);
    }
    let m = mag / g;
    let q = den / g;
    if m <= u64::MAX as u128 && q <= u64::MAX as u128 {
        Some(Num { neg: neg && mag != 0, mag: m as u64, den: q as u64 })
    } else {
        None
    }
}

} // verus!
