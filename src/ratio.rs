//! Exact fractions in `[0, 1]`: how far a countdown has come.
use vstd::prelude::*;
use vstd::arithmetic::div_mod::*;
use vstd::arithmetic::mul::*;

verus! {

/// The fraction `num / den`.
#[derive(Clone, Copy, Debug, PartialEq, Eq, Structural)]
pub struct Ratio {
    pub num: u64,
    pub den: u64,
}

impl Ratio {
    /// A fraction between zero and one with a positive denominator.
    pub open spec fn wf(&self) -> bool {
        0 < self.den && self.num <= self.den
    }

    /// `self <= other` as fractions.
    pub open spec fn le(&self, other: Ratio) -> bool {
        self.num * other.den <= other.num * self.den
    }

    pub fn new(num: u64, den: u64) -> (r: Ratio)
        requires
            0 < den,
            num <= den,
        ensures
            r.num == num,
            r.den == den,
            r.wf(),
    {
        Ratio { num, den }
    }

    pub open spec fn zero_spec() -> Ratio {
        Ratio { num: 0, den: 1 }
    }

    pub open spec fn one_spec() -> Ratio {
        Ratio { num: 1, den: 1 }
    }

    /// The fraction zero.
    #[verifier::when_used_as_spec(zero_spec)]
    pub fn zero() -> (r: Ratio)
        ensures
            r.num == 0,
            r.den == 1,
            r.wf(),
    {
        Ratio { num: 0, den: 1 }
    }

    /// The fraction one.
    #[verifier::when_used_as_spec(one_spec)]
    pub fn one() -> (r: Ratio)
        ensures
            r.num == 1,
            r.den == 1,
            r.wf(),
    {
        Ratio { num: 1, den: 1 }
    }
}

/// `r * m`, rounded down.
pub open spec fn scale(r: Ratio, m: nat) -> nat {
    ((r.num * m) / (r.den as int)) as nat
}

/// A fraction of `m` stays between zero and `m`; zero and one give those ends.
pub proof fn lemma_scale_bounds(r: Ratio, m: nat)
    requires
        r.wf(),
    ensures
        scale(r, m) <= m,
        r.num == 0 ==> scale(r, m) == 0,
        r.num == r.den ==> scale(r, m) == m,
{
    let d = r.den as int;
    lemma_mul_inequality(r.num as int, d, m as int);
    lemma_div_is_ordered(r.num * m, d * m, d);
    lemma_div_multiples_vanish(m as int, d);
    lemma_div_pos_is_pos(r.num * m, d);
    assert(d * m == m * d) by (nonlinear_arith);
    if r.num == 0 {
        assert(r.num * m == 0);
    }
}

/// A larger fraction takes no less of `m`.
pub proof fn lemma_scale_monotone(r1: Ratio, r2: Ratio, m: nat)
    requires
        r1.wf(),
        r2.wf(),
        r1.le(r2),
    ensures
        scale(r1, m) <= scale(r2, m),
{
    let n1 = r1.num as int;
    let d1 = r1.den as int;
    let n2 = r2.num as int;
    let d2 = r2.den as int;
    let mi = m as int;
    let q1 = (n1 * mi) / d1;
    lemma_fundamental_div_mod(n1 * mi, d1);
    lemma_mod_pos_bound(n1 * mi, d1);
    lemma_div_pos_is_pos(n1 * mi, d1);
    assert(q1 * d1 <= n1 * mi);
    assert(q1 * d1 * d2 <= n1 * mi * d2) by (nonlinear_arith)
        requires
            q1 * d1 <= n1 * mi,
            d2 > 0,
    ;
    assert(n1 * mi * d2 <= n2 * mi * d1) by (nonlinear_arith)
        requires
            n1 * d2 <= n2 * d1,
            mi >= 0,
    ;
    assert(q1 * d2 <= n2 * mi) by (nonlinear_arith)
        requires
            q1 * d1 * d2 <= n2 * mi * d1,
            d1 > 0,
    ;
    lemma_div_is_ordered(q1 * d2, n2 * mi, d2);
    lemma_div_multiples_vanish(q1, d2);
    assert(q1 * d2 == d2 * q1) by (nonlinear_arith);
}

/// `r * m` rounded down, computed without overflow.
pub fn scale_floor(r: Ratio, m: u128) -> (q: u128)
    requires
        r.wf(),
    ensures
        q == scale(r, m as nat),
        q <= m,
{
    let num = r.num as u128;
    let den = r.den as u128;
    let q0 = m / den;
    let rem = m % den;
    proof {
        lemma_fundamental_div_mod(m as int, den as int);
        lemma_mod_pos_bound(m as int, den as int);
        lemma_div_pos_is_pos(m as int, den as int);
        assert(num * q0 <= den * q0) by (nonlinear_arith)
            requires
                num <= den,
                q0 >= 0,
        ;
        assert(num * rem <= 0xffff_ffff_ffff_ffffu128 * 0xffff_ffff_ffff_ffffu128) by (
        nonlinear_arith)
            requires
                num <= 0xffff_ffff_ffff_ffffu128,
                rem <= 0xffff_ffff_ffff_ffffu128,
        ;
    }
    let a = num * q0;
    let b = num * rem;
    let c = b / den;
    proof {
        let x = (num * m) as int;
        lemma_fundamental_div_mod(b as int, den as int);
        lemma_mod_pos_bound(b as int, den as int);
        assert(x == (a + c) * den + b % den) by (nonlinear_arith)
            requires
                m == den * q0 + rem,
                b == num * rem,
                a == num * q0,
                b == den * c + b % den,
                x == num * m,
        ;
        lemma_fundamental_div_mod_converse(x, den as int, (a + c) as int, (b % den) as int);
        lemma_scale_bounds(r, m as nat);
    }
    a + c
}

} // verus!
