//! Exact rational magnitudes with checked 64-bit arithmetic.
use vstd::prelude::*;

verus! {

/// Whether a mathematical integer can be stored in an `i64`.
pub open spec fn fits(x: int) -> bool {
    i64::MIN <= x <= i64::MAX
}

/// A rational number `num / den`, kept with a positive denominator.
///
/// Fractions are not reduced: `2/4` and `1/2` are different representations
/// of the same value, and `==` compares values.
#[derive(Clone, Copy, Debug)]
pub struct Number {
    pub num: i64,
    pub den: i64,
}

/// The quotient of two rationals, with the sign moved to the numerator.
pub open spec fn div_parts(a: Number, b: Number) -> (int, int) {
    if b.num < 0 {
        (-(a.num * b.den), -(a.den * b.num))
    } else {
        (a.num * b.den, a.den * b.num)
    }
}

impl Number {
    pub open spec fn wf(self) -> bool {
        self.den > 0
    }

    /// Two representations denote the same rational value.
    pub open spec fn same_value(self, o: Number) -> bool {
        self.num * o.den == o.num * self.den
    }

    pub open spec fn spec_mul(self, o: Number) -> Option<Number> {
        if fits(self.num * o.num) && fits(self.den * o.den) {
            Some(Number { num: (self.num * o.num) as i64, den: (self.den * o.den) as i64 })
        } else {
            None
        }
    }

    pub open spec fn spec_add(self, o: Number) -> Option<Number> {
        let p = self.num * o.den;
        let q = o.num * self.den;
        if fits(p) && fits(q) && fits(p + q) && fits(self.den * o.den) {
            Some(Number { num: (p + q) as i64, den: (self.den * o.den) as i64 })
        } else {
            None
        }
    }

    pub open spec fn spec_sub(self, o: Number) -> Option<Number> {
        let p = self.num * o.den;
        let q = o.num * self.den;
        if fits(p) && fits(q) && fits(p - q) && fits(self.den * o.den) {
            Some(Number { num: (p - q) as i64, den: (self.den * o.den) as i64 })
        } else {
            None
        }
    }

    /// Division by a nonzero value.
    pub open spec fn spec_div(self, o: Number) -> Option<Number> {
        let (n, d) = div_parts(self, o);
        if fits(self.num * o.den) && fits(self.den * o.num) && fits(n) && fits(d) {
            Some(Number { num: n as i64, den: d as i64 })
        } else {
            None
        }
    }

    pub open spec fn spec_neg(self) -> Option<Number> {
        if fits(-self.num) {
            Some(Number { num: (-self.num) as i64, den: self.den })
        } else {
            None
        }
    }

    /// The same value with a positive denominator; `None` when the denominator
    /// is zero or the sign cannot be moved within the `i64` range.
    pub open spec fn spec_normalize(self) -> Option<Number> {
        if self.den > 0 {
            Some(self)
        } else if self.den < 0 && fits(-self.num) && fits(-self.den) {
            Some(Number { num: (-self.num) as i64, den: (-self.den) as i64 })
        } else {
            None
        }
    }

    pub fn normalize(&self) -> (r: Option<Number>)
        ensures
            r == self.spec_normalize(),
            r is Some ==> r->0.wf(),
    {
        if self.den > 0 {
            Some(*self)
        } else if self.den < 0 && self.num != i64::MIN && self.den != i64::MIN {
            Some(Number { num: -self.num, den: -self.den })
        } else {
            None
        }
    }

    /// The integer `n` as a rational.
    pub fn from_integer(n: i64) -> (r: Number)
        ensures
            r.wf(),
            r.num == n,
            r.den == 1,
    {
        Number { num: n, den: 1 }
    }

    /// The fraction `num / den`; `None` when `den` is not positive.
    pub fn ratio(num: i64, den: i64) -> (r: Option<Number>)
        ensures
            r is Some <==> den > 0,
            r is Some ==> r->0 == (Number { num, den }),
    {
        if den > 0 {
            Some(Number { num, den })
        } else {
            None
        }
    }

    pub fn is_zero(&self) -> (r: bool)
        ensures
            r == (self.num == 0),
    {
        self.num == 0
    }

    /// Product; `None` when a component leaves the `i64` range.
    pub fn mul(&self, o: &Number) -> (r: Option<Number>)
        requires
            self.wf(),
            o.wf(),
        ensures
            r == self.spec_mul(*o),
            r is Some ==> r->0.wf(),
    {
        let n = self.num.checked_mul(o.num);
        let d = self.den.checked_mul(o.den);
        match (n, d) {
            (Some(n), Some(d)) => {
                proof {
                    vstd::arithmetic::mul::lemma_mul_strictly_positive(self.den as int, o.den as int);
                }
                Some(Number { num: n, den: d })
            },
            _ => None,
        }
    }

    /// Sum; `None` when a component leaves the `i64` range.
    pub fn add(&self, o: &Number) -> (r: Option<Number>)
        requires
            self.wf(),
            o.wf(),
        ensures
            r == self.spec_add(*o),
            r is Some ==> r->0.wf(),
    {
        let p = self.num.checked_mul(o.den);
        let q = o.num.checked_mul(self.den);
        let d = self.den.checked_mul(o.den);
        match (p, q, d) {
            (Some(p), Some(q), Some(d)) => match p.checked_add(q) {
                Some(n) => {
                    proof {
                        vstd::arithmetic::mul::lemma_mul_strictly_positive(self.den as int, o.den as int);
                    }
                    Some(Number { num: n, den: d })
                },
                None => None,
            },
            _ => None,
        }
    }

    /// Difference; `None` when a component leaves the `i64` range.
    pub fn sub(&self, o: &Number) -> (r: Option<Number>)
        requires
            self.wf(),
            o.wf(),
        ensures
            r == self.spec_sub(*o),
            r is Some ==> r->0.wf(),
    {
        let p = self.num.checked_mul(o.den);
        let q = o.num.checked_mul(self.den);
        let d = self.den.checked_mul(o.den);
        match (p, q, d) {
            (Some(p), Some(q), Some(d)) => match p.checked_sub(q) {
                Some(n) => {
                    proof {
                        vstd::arithmetic::mul::lemma_mul_strictly_positive(self.den as int, o.den as int);
                    }
                    Some(Number { num: n, den: d })
                },
                None => None,
            },
            _ => None,
        }
    }

    /// Quotient by a nonzero value; `None` when a component leaves the `i64` range.
    pub fn div(&self, o: &Number) -> (r: Option<Number>)
        requires
            self.wf(),
            o.wf(),
            o.num != 0,
        ensures
            r == self.spec_div(*o),
            r is Some ==> r->0.wf(),
    {
        let n = self.num.checked_mul(o.den);
        let d = self.den.checked_mul(o.num);
        match (n, d) {
            (Some(n), Some(d)) => {
                if o.num < 0 {
                    proof {
                        vstd::arithmetic::mul::lemma_mul_strictly_positive(self.den as int, -o.num);
                        vstd::arithmetic::mul::lemma_mul_unary_negation(self.den as int, o.num as int);
                    }
                    if n == i64::MIN || d == i64::MIN {
                        None
                    } else {
                        Some(Number { num: -n, den: -d })
                    }
                } else {
                    proof {
                        vstd::arithmetic::mul::lemma_mul_strictly_positive(self.den as int, o.num as int);
                    }
                    Some(Number { num: n, den: d })
                }
            },
            _ => None,
        }
    }

    /// Negation; `None` for the one numerator that has no `i64` negation.
    pub fn neg(&self) -> (r: Option<Number>)
        requires
            self.wf(),
        ensures
            r == self.spec_neg(),
            r is Some ==> r->0.wf(),
    {
        if self.num == i64::MIN {
            None
        } else {
            Some(Number { num: -self.num, den: self.den })
        }
    }

    /// Whether the two values are equal as rationals.
    pub fn equals(&self, o: &Number) -> (r: bool)
        ensures
            r == self.same_value(*o),
    {
        proof {
            lemma_i64_product_fits_i128(self.num, o.den);
            lemma_i64_product_fits_i128(o.num, self.den);
        }
        let l: i128 = (self.num as i128) * (o.den as i128);
        let rr: i128 = (o.num as i128) * (self.den as i128);
        l == rr
    }
}

proof fn lemma_i64_product_fits_i128(a: i64, b: i64)
    ensures
        i128::MIN <= a * b <= i128::MAX,
{
    assert(-0x4000_0000_0000_0000_0000_0000_0000_0000 <= a * b <= 0x4000_0000_0000_0000_0000_0000_0000_0000)
        by (nonlinear_arith)
        requires
            -0x8000_0000_0000_0000 <= a <= 0x7fff_ffff_ffff_ffff,
            -0x8000_0000_0000_0000 <= b <= 0x7fff_ffff_ffff_ffff,
    ;
}

impl PartialEq for Number {
    fn eq(&self, o: &Number) -> (r: bool) {
        self.equals(o)
    }
}

impl vstd::std_specs::cmp::PartialEqSpecImpl for Number {
    open spec fn obeys_eq_spec() -> bool {
        true
    }

    open spec fn eq_spec(&self, o: &Number) -> bool {
        self.same_value(*o)
    }
}

impl Eq for Number {
}

} // verus!
