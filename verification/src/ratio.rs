//! Exact fractions.

use vstd::prelude::*;

verus! {

/// The fraction `num / den`.
#[derive(Clone, Copy, Debug, PartialEq, Eq, Structural)]
pub struct Ratio {
    pub num: u128,
    pub den: u128,
}

impl Ratio {
    /// The fraction lies between zero and one.
    pub open spec fn in_unit(self) -> bool {
        self.den > 0 && self.num <= self.den
    }

    /// The fraction `self` is at most the fraction `other`.
    pub open spec fn at_most(self, other: Ratio) -> bool {
        self.num * other.den <= other.num * self.den
    }

    /// The fraction is `i / n` or more.
    pub open spec fn reaches(self, i: int, n: int) -> bool {
        i * self.den <= n * self.num
    }

    /// Tells whether the fraction is `i / n` or more.
    pub fn is_at_least(&self, i: u128, n: u128) -> (yes: bool)
        requires
            self.in_unit(),
            i <= n,
            0 < n <= u64::MAX,
        ensures
            yes == self.reaches(i as int, n as int),
    {
        let whole: u128 = self.den / n;
        let rest: u128 = self.den % n;
        proof {
            let den: int = self.den as int;
            let num: int = self.num as int;
            let w: int = whole as int;
            let r: int = rest as int;
            let k: int = i as int;
            let m: int = n as int;
            assert(den == m * w + r && 0 <= r < m) by {
                vstd::arithmetic::div_mod::lemma_fundamental_div_mod(den, m);
                vstd::arithmetic::div_mod::lemma_mod_bound(den, m);
            }
            assert(0 <= k * w <= m * w) by (nonlinear_arith)
                requires
                    0 <= k <= m,
                    0 <= w,
            ;
            assert(0 <= k * r <= m * r) by (nonlinear_arith)
                requires
                    0 <= k <= m,
                    0 <= r,
            ;
            assert(m * r <= 0xffff_ffff_ffff_ffff * 0xffff_ffff_ffff_ffff) by (nonlinear_arith)
                requires
                    0 <= r < m,
                    m <= 0xffff_ffff_ffff_ffff,
            ;
            // The rounded-up part of the rest is at most the rest.
            let c: int = (k * r + m - 1) / m;
            assert(m * c >= k * r && m * c <= k * r + m - 1 && 0 <= c <= r) by (nonlinear_arith)
                requires
                    c == (k * r + m - 1) / m,
                    0 <= k * r <= m * r,
                    m > 0,
            ;
            assert(k * den == m * (k * w) + k * r) by (nonlinear_arith)
                requires
                    den == m * w + r,
            ;
            assert(k * w + c <= num <==> k * den <= m * num) by (nonlinear_arith)
                requires
                    k * den == m * (k * w) + k * r,
                    m * c >= k * r,
                    m * c <= k * r + m - 1,
                    m > 0,
            ;
        }
        let reach: u128 = i * whole + (i * rest + n - 1) / n;
        reach <= self.num
    }
}

/// What `is_at_least` tells: `i` parts of `n` are at most the fraction.
pub proof fn law_is_at_least(ratio: Ratio, i: u128, n: u128, yes: bool)
    requires
        ratio.den > 0,
        ratio.num <= ratio.den,
        i <= n,
        0 < n <= u64::MAX,
        call_ensures(Ratio::is_at_least, (&ratio, i, n), yes),
    ensures
        yes <==> i * ratio.den <= n * ratio.num,
{
}

} // verus!
