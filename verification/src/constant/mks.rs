//! MKS units as tuples of integer exponents.

use vstd::prelude::*;

pub mod list;

verus! {

/// An MKS unit: the integer powers of meter, kilogram, second and ampere.
#[derive(Clone, Copy, Debug, PartialEq, Eq, Structural)]
pub struct MksUnit {
    m: i8,
    k: i8,
    s: i8,
    a: i8,
}

impl MksUnit {
    /// The meter exponent.
    pub closed spec fn spec_m(self) -> int {
        self.m as int
    }

    /// The kilogram exponent.
    pub closed spec fn spec_k(self) -> int {
        self.k as int
    }

    /// The second exponent.
    pub closed spec fn spec_s(self) -> int {
        self.s as int
    }

    /// The ampere exponent.
    pub closed spec fn spec_a(self) -> int {
        self.a as int
    }

    /// A unit from its four exponents.
    pub fn new(m: i8, k: i8, s: i8, a: i8) -> (r: Self)
        ensures
            r.spec_m() == m,
            r.spec_k() == k,
            r.spec_s() == s,
            r.spec_a() == a,
    {
        MksUnit { m, k, s, a }
    }

    /// The unit of a product of two quantities: exponents add.
    pub fn mul(self, rhs: Self) -> (r: Self)
        requires
            i8::MIN <= self.spec_m() + rhs.spec_m() <= i8::MAX,
            i8::MIN <= self.spec_k() + rhs.spec_k() <= i8::MAX,
            i8::MIN <= self.spec_s() + rhs.spec_s() <= i8::MAX,
            i8::MIN <= self.spec_a() + rhs.spec_a() <= i8::MAX,
        ensures
            r.spec_m() == self.spec_m() + rhs.spec_m(),
            r.spec_k() == self.spec_k() + rhs.spec_k(),
            r.spec_s() == self.spec_s() + rhs.spec_s(),
            r.spec_a() == self.spec_a() + rhs.spec_a(),
    {
        MksUnit {
            m: self.m + rhs.m,
            k: self.k + rhs.k,
            s: self.s + rhs.s,
            a: self.a + rhs.a,
        }
    }

    /// The unit of a quotient of two quantities: exponents subtract.
    pub fn div(self, rhs: Self) -> (r: Self)
        requires
            i8::MIN <= self.spec_m() - rhs.spec_m() <= i8::MAX,
            i8::MIN <= self.spec_k() - rhs.spec_k() <= i8::MAX,
            i8::MIN <= self.spec_s() - rhs.spec_s() <= i8::MAX,
            i8::MIN <= self.spec_a() - rhs.spec_a() <= i8::MAX,
        ensures
            r.spec_m() == self.spec_m() - rhs.spec_m(),
            r.spec_k() == self.spec_k() - rhs.spec_k(),
            r.spec_s() == self.spec_s() - rhs.spec_s(),
            r.spec_a() == self.spec_a() - rhs.spec_a(),
    {
        MksUnit {
            m: self.m - rhs.m,
            k: self.k - rhs.k,
            s: self.s - rhs.s,
            a: self.a - rhs.a,
        }
    }
}

} // verus!
