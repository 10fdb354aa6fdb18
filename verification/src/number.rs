//! The numeric part of a dimension: a rational number kept as a signed
//! numerator over a positive denominator. Arithmetic is checked: an
//! operation whose mathematical result does not fit the machine word
//! reports `None` instead of wrapping.

use vstd::prelude::*;

verus! {

/// The product of two values in the machine-word range stays well inside
/// the doubled word.
pub proof fn lemma_word_product_bounds(a: int, b: int)
    requires
        -0x8000_0000_0000_0000 <= a <= 0x7fff_ffff_ffff_ffff,
        -0x8000_0000_0000_0000 <= b <= 0x7fff_ffff_ffff_ffff,
    ensures
        -0x4000_0000_0000_0000_0000_0000_0000_0000 <= a * b
            <= 0x4000_0000_0000_0000_0000_0000_0000_0000,
{
    assert(-0x4000_0000_0000_0000_0000_0000_0000_0000 <= a * b
        <= 0x4000_0000_0000_0000_0000_0000_0000_0000) by (nonlinear_arith)
        requires
            -0x8000_0000_0000_0000 <= a <= 0x7fff_ffff_ffff_ffff,
            -0x8000_0000_0000_0000 <= b <= 0x7fff_ffff_ffff_ffff,
    ;
}

/// The product of a word-range value and a positive word-range value stays
/// strictly inside the square of the word range, so two such products can
/// be added without leaving the doubled word.
proof fn lemma_word_product_denom_bounds(a: int, b: int)
    requires
        -0x8000_0000_0000_0000 <= a <= 0x7fff_ffff_ffff_ffff,
        1 <= b <= 0x7fff_ffff_ffff_ffff,
    ensures
        -0x4000_0000_0000_0000_0000_0000_0000_0000 < a * b
            < 0x4000_0000_0000_0000_0000_0000_0000_0000,
{
    assert(-0x4000_0000_0000_0000_0000_0000_0000_0000 < a * b
        < 0x4000_0000_0000_0000_0000_0000_0000_0000) by (nonlinear_arith)
        requires
            -0x8000_0000_0000_0000 <= a <= 0x7fff_ffff_ffff_ffff,
            1 <= b <= 0x7fff_ffff_ffff_ffff,
    ;
}

/// A rational number `numer / denom`.
#[derive(Clone, Copy, Debug)]
pub struct Number {
    pub numer: i64,
    pub denom: i64,
}

impl Number {
    /// Well-formedness: the denominator is positive.
    pub open spec fn inv(self) -> bool {
        self.denom >= 1
    }

    /// Two numbers stand for the same rational.
    pub open spec fn same_value(self, other: Number) -> bool {
        self.numer * other.denom == other.numer * self.denom
    }

    pub open spec fn spec_is_zero(self) -> bool {
        self.numer == 0
    }

    pub open spec fn spec_is_positive(self) -> bool {
        self.numer > 0
    }

    /// A whole number: the denominator divides the numerator.
    pub open spec fn spec_is_integer(self) -> bool {
        self.numer % self.denom == 0
    }

    pub fn from_integer(i: i64) -> (n: Number)
        ensures
            n.inv(),
            n.numer == i,
            n.denom == 1,
    {
        Number { numer: i, denom: 1 }
    }

    pub fn zero() -> (n: Number)
        ensures
            n.inv(),
            n.numer == 0,
            n.denom == 1,
    {
        Number { numer: 0, denom: 1 }
    }

    pub fn one() -> (n: Number)
        ensures
            n.inv(),
            n.numer == 1,
            n.denom == 1,
    {
        Number { numer: 1, denom: 1 }
    }

    pub fn is_zero(&self) -> (r: bool)
        ensures
            r == self.spec_is_zero(),
    {
        self.numer == 0
    }

    pub fn is_positive(&self) -> (r: bool)
        ensures
            r == self.spec_is_positive(),
    {
        self.numer > 0
    }

    /// Whether the number has a fractional part.
    pub fn is_decimal(&self) -> (r: bool)
        requires
            self.inv(),
        ensures
            r == !self.spec_is_integer(),
    {
        let neg: bool = self.numer < 0;
        let xa: i128 = if neg {
            -(self.numer as i128)
        } else {
            self.numer as i128
        };
        let rem: i128 = xa % (self.denom as i128);
        proof {
            let x = self.numer as int;
            let d = self.denom as int;
            vstd::arithmetic::div_mod::lemma_fundamental_div_mod(x, d);
            vstd::arithmetic::div_mod::lemma_mod_division_less_than_divisor(x, d);
            let k = x / d;
            let m = x % d;
            if neg {
                if m == 0 {
                    assert(xa == (-k) * d + 0) by (nonlinear_arith)
                        requires
                            xa == -x,
                            x == d * k + m,
                            m == 0,
                    ;
                    vstd::arithmetic::div_mod::lemma_fundamental_div_mod_converse(
                        xa as int,
                        d,
                        -k,
                        0,
                    );
                } else {
                    assert(xa == (-k - 1) * d + (d - m)) by (nonlinear_arith)
                        requires
                            xa == -x,
                            x == d * k + m,
                    ;
                    vstd::arithmetic::div_mod::lemma_fundamental_div_mod_converse(
                        xa as int,
                        d,
                        -k - 1,
                        d - m,
                    );
                }
            }
        }
        rem != 0
    }

    /// The whole number this stands for, characterized by the product with
    /// the denominator.
    pub fn to_integer(&self) -> (r: i64)
        requires
            self.inv(),
            self.spec_is_integer(),
        ensures
            r * self.denom == self.numer,
            r == self.numer / self.denom,
    {
        let ghost k: int = self.numer as int / self.denom as int;
        proof {
            vstd::arithmetic::div_mod::lemma_fundamental_div_mod(
                self.numer as int,
                self.denom as int,
            );
            assert(self.numer == self.denom * k);
        }
        let neg: bool = self.numer < 0;
        let xa: i128 = if neg {
            -(self.numer as i128)
        } else {
            self.numer as i128
        };
        proof {
            if neg {
                assert(xa == self.denom * (-k)) by (nonlinear_arith)
                    requires
                        xa == -(self.numer as int),
                        self.numer == self.denom * k,
                ;
                vstd::arithmetic::div_mod::lemma_div_multiples_vanish(-k, self.denom as int);
            } else {
                vstd::arithmetic::div_mod::lemma_div_multiples_vanish(k, self.denom as int);
            }
        }
        let q: i128 = xa / (self.denom as i128);
        proof {
            assert(q == if neg { -k } else { k });
            assert(-0x8000_0000_0000_0000 <= k <= 0x7fff_ffff_ffff_ffff) by (nonlinear_arith)
                requires
                    self.numer == self.denom * k,
                    1 <= self.denom,
                    -0x8000_0000_0000_0000 <= self.numer <= 0x7fff_ffff_ffff_ffff,
            ;
        }
        let r: i64 = if neg {
            (-q) as i64
        } else {
            q as i64
        };
        proof {
            assert(r == k);
            assert(r * self.denom == self.numer) by (nonlinear_arith)
                requires
                    r == k,
                    self.numer == self.denom * k,
            ;
        }
        r
    }

    /// Structural equality of two numbers as rationals.
    pub fn same_value_as(&self, other: &Number) -> (r: bool)
        ensures
            r == self.same_value(*other),
    {
        proof {
            lemma_word_product_bounds(self.numer as int, other.denom as int);
            lemma_word_product_bounds(other.numer as int, self.denom as int);
        }
        let l: i128 = (self.numer as i128) * (other.denom as i128);
        let rr: i128 = (other.numer as i128) * (self.denom as i128);
        l == rr
    }

    /// Whether `self <= other` as rationals.
    pub fn le(&self, other: &Number) -> (r: bool)
        ensures
            r == (self.numer * other.denom <= other.numer * self.denom),
    {
        proof {
            lemma_word_product_bounds(self.numer as int, other.denom as int);
            lemma_word_product_bounds(other.numer as int, self.denom as int);
        }
        let l: i128 = (self.numer as i128) * (other.denom as i128);
        let rr: i128 = (other.numer as i128) * (self.denom as i128);
        l <= rr
    }

    /// The absolute value.
    pub fn abs(&self) -> (r: Number)
        requires
            self.inv(),
            self.numer > i64::MIN,
        ensures
            r.inv(),
            r.denom == self.denom,
            r.numer == if self.numer >= 0 {
                self.numer as int
            } else {
                -self.numer as int
            },
    {
        if self.numer >= 0 {
            *self
        } else {
            Number { numer: -self.numer, denom: self.denom }
        }
    }

    /// The sum, over the product of the denominators; `None` when a field
    /// would not fit the machine word.
    pub fn checked_add(&self, other: &Number) -> (r: Option<Number>)
        requires
            self.inv(),
            other.inv(),
        ensures
            ({
                let n = self.numer * other.denom + other.numer * self.denom;
                let d = self.denom * other.denom;
                if i64::MIN <= n <= i64::MAX && d <= i64::MAX {
                    r == Some(Number { numer: n as i64, denom: d as i64 })
                } else {
                    r is None
                }
            }),
            r matches Some(n) ==> n.inv(),
    {
        proof {
            lemma_word_product_denom_bounds(self.numer as int, other.denom as int);
            lemma_word_product_denom_bounds(other.numer as int, self.denom as int);
            lemma_word_product_bounds(self.denom as int, other.denom as int);
            assert(self.denom * other.denom >= 1) by (nonlinear_arith)
                requires
                    self.denom >= 1,
                    other.denom >= 1,
            ;
        }
        let n: i128 = (self.numer as i128) * (other.denom as i128) + (other.numer as i128)
            * (self.denom as i128);
        let d: i128 = (self.denom as i128) * (other.denom as i128);
        if n < i64::MIN as i128 || n > i64::MAX as i128 || d > i64::MAX as i128 {
            None
        } else {
            Some(Number { numer: n as i64, denom: d as i64 })
        }
    }

    /// The difference; `None` when a field would not fit the machine word.
    pub fn checked_sub(&self, other: &Number) -> (r: Option<Number>)
        requires
            self.inv(),
            other.inv(),
        ensures
            ({
                let n = self.numer * other.denom - other.numer * self.denom;
                let d = self.denom * other.denom;
                if i64::MIN <= n <= i64::MAX && d <= i64::MAX {
                    r == Some(Number { numer: n as i64, denom: d as i64 })
                } else {
                    r is None
                }
            }),
            r matches Some(n) ==> n.inv(),
    {
        proof {
            lemma_word_product_denom_bounds(self.numer as int, other.denom as int);
            lemma_word_product_denom_bounds(other.numer as int, self.denom as int);
            lemma_word_product_bounds(self.denom as int, other.denom as int);
            assert(self.denom * other.denom >= 1) by (nonlinear_arith)
                requires
                    self.denom >= 1,
                    other.denom >= 1,
            ;
        }
        let n: i128 = (self.numer as i128) * (other.denom as i128) - (other.numer as i128)
            * (self.denom as i128);
        let d: i128 = (self.denom as i128) * (other.denom as i128);
        if n < i64::MIN as i128 || n > i64::MAX as i128 || d > i64::MAX as i128 {
            None
        } else {
            Some(Number { numer: n as i64, denom: d as i64 })
        }
    }

    /// The product; `None` when a field would not fit the machine word.
    pub fn checked_mul(&self, other: &Number) -> (r: Option<Number>)
        ensures
            ({
                let n = self.numer * other.numer;
                let d = self.denom * other.denom;
                if i64::MIN <= n <= i64::MAX && d <= i64::MAX {
                    r == Some(Number { numer: n as i64, denom: d as i64 })
                } else {
                    r is None
                }
            }),
            r matches Some(n) ==> (self.inv() && other.inv() ==> n.inv()),
    {
        proof {
            lemma_word_product_bounds(self.numer as int, other.numer as int);
            lemma_word_product_bounds(self.denom as int, other.denom as int);
            if self.denom >= 1 && other.denom >= 1 {
                assert(self.denom * other.denom >= 1) by (nonlinear_arith)
                    requires
                        self.denom >= 1,
                        other.denom >= 1,
                ;
            }
        }
        let n: i128 = (self.numer as i128) * (other.numer as i128);
        let d: i128 = (self.denom as i128) * (other.denom as i128);
        if n < i64::MIN as i128 || n > i64::MAX as i128 || d > i64::MAX as i128 {
            None
        } else {
            Some(Number { numer: n as i64, denom: d as i64 })
        }
    }

    /// The quotient `self / other`; `None` on division by zero or when a
    /// field would not fit the machine word.
    pub fn checked_div(&self, other: &Number) -> (r: Option<Number>)
        ensures
            other.spec_is_zero() ==> r is None,
            !other.spec_is_zero() ==> ({
                let n0 = self.numer * other.denom;
                let d0 = self.denom * other.numer;
                let n = if d0 < 0 { -n0 } else { n0 };
                let d = if d0 < 0 { -d0 } else { d0 };
                if i64::MIN <= n <= i64::MAX && d <= i64::MAX {
                    r == Some(Number { numer: n as i64, denom: d as i64 })
                } else {
                    r is None
                }
            }),
            r matches Some(n) ==> (self.inv() && other.inv() ==> n.inv()),
    {
        if other.numer == 0 {
            return None;
        }
        proof {
            lemma_word_product_bounds(self.numer as int, other.denom as int);
            lemma_word_product_bounds(self.denom as int, other.numer as int);
            if self.denom >= 1 {
                assert(self.denom * other.numer != 0) by (nonlinear_arith)
                    requires
                        self.denom >= 1,
                        other.numer != 0,
                ;
            }
        }
        let mut n: i128 = (self.numer as i128) * (other.denom as i128);
        let mut d: i128 = (self.denom as i128) * (other.numer as i128);
        if d < 0 {
            n = -n;
            d = -d;
        }
        if n < i64::MIN as i128 || n > i64::MAX as i128 || d > i64::MAX as i128 {
            None
        } else {
            Some(Number { numer: n as i64, denom: d as i64 })
        }
    }
}

} // verus!
