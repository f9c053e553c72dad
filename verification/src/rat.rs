//! Exact rational numbers: the executable `Rat` holds an `i128` numerator
//! and a positive `i128` denominator, and every operation is specified
//! against the unbounded mathematical rational `SpecRat`. Results are not
//! reduced, apart from exact zeroes, which collapse to `0/1`; each operation
//! states exactly which products must stay in machine range, and one that
//! would leave it reports that instead of wrapping.

use vstd::prelude::*;

verus! {

/// The mathematical value of a rational, as an unbounded numerator and
/// denominator. Well-formed values keep the denominator positive; the
/// numerator alone carries the sign.
pub struct SpecRat {
    pub n: int,
    pub d: int,
}

impl SpecRat {
    pub open spec fn wf(self) -> bool {
        self.d > 0
    }

    pub open spec fn from_int(i: int) -> SpecRat {
        SpecRat { n: i, d: 1 }
    }

    pub open spec fn zero() -> SpecRat {
        SpecRat { n: 0, d: 1 }
    }

    pub open spec fn one() -> SpecRat {
        SpecRat { n: 1, d: 1 }
    }

    /// Value equality: `a/b == c/d` exactly when `a*d == c*b` (denominators positive).
    pub open spec fn eq_val(self, o: SpecRat) -> bool {
        self.n * o.d == o.n * self.d
    }

    pub open spec fn le_val(self, o: SpecRat) -> bool {
        self.n * o.d <= o.n * self.d
    }

    pub open spec fn lt_val(self, o: SpecRat) -> bool {
        self.n * o.d < o.n * self.d
    }

    pub open spec fn neg(self) -> SpecRat {
        SpecRat { n: -self.n, d: self.d }
    }

    /// A zero result is canonicalized to `0/1`, which keeps denominators
    /// from growing through values that are exactly zero.
    pub open spec fn add(self, o: SpecRat) -> SpecRat {
        let n = self.n * o.d + o.n * self.d;
        if n == 0 {
            SpecRat::zero()
        } else {
            SpecRat { n, d: self.d * o.d }
        }
    }

    pub open spec fn sub(self, o: SpecRat) -> SpecRat {
        let n = self.n * o.d - o.n * self.d;
        if n == 0 {
            SpecRat::zero()
        } else {
            SpecRat { n, d: self.d * o.d }
        }
    }

    pub open spec fn mul(self, o: SpecRat) -> SpecRat {
        let n = self.n * o.n;
        if n == 0 {
            SpecRat::zero()
        } else {
            SpecRat { n, d: self.d * o.d }
        }
    }

    /// Division keeps the denominator positive by moving the divisor's sign
    /// into the numerator. Meaningful only for a divisor with nonzero value.
    pub open spec fn div(self, o: SpecRat) -> SpecRat {
        let n0 = self.n * o.d;
        if n0 == 0 {
            SpecRat::zero()
        } else if o.n >= 0 {
            SpecRat { n: n0, d: self.d * o.n }
        } else {
            SpecRat { n: -n0, d: -(self.d * o.n) }
        }
    }
}

pub open spec fn fits_i128(x: int) -> bool {
    i128::MIN <= x <= i128::MAX
}

/// Whether an addition stays within machine range, intermediate products
/// included.
pub open spec fn add_fits(a: SpecRat, b: SpecRat) -> bool {
    &&& fits_i128(a.n * b.d)
    &&& fits_i128(b.n * a.d)
    &&& fits_i128(a.n * b.d + b.n * a.d)
    &&& a.n * b.d + b.n * a.d != 0 ==> fits_i128(a.d * b.d)
}

/// Whether a subtraction stays within machine range, intermediate products
/// included.
pub open spec fn sub_fits(a: SpecRat, b: SpecRat) -> bool {
    &&& fits_i128(a.n * b.d)
    &&& fits_i128(b.n * a.d)
    &&& fits_i128(a.n * b.d - b.n * a.d)
    &&& a.n * b.d - b.n * a.d != 0 ==> fits_i128(a.d * b.d)
}

/// Whether a multiplication stays within machine range.
pub open spec fn mul_fits(a: SpecRat, b: SpecRat) -> bool {
    &&& fits_i128(a.n * b.n)
    &&& a.n * b.n != 0 ==> fits_i128(a.d * b.d)
}

/// Whether a division stays within machine range, the sign flip included.
pub open spec fn div_fits(a: SpecRat, b: SpecRat) -> bool {
    &&& fits_i128(a.n * b.d)
    &&& a.n * b.d != 0 ==> {
        &&& fits_i128(a.d * b.n)
        &&& b.n < 0 ==> fits_i128(-(a.n * b.d)) && fits_i128(-(a.d * b.n))
    }
}

/// An exact rational held in machine words. The denominator is positive for
/// every value built by this module's functions.
#[derive(Clone, Copy, Debug, PartialEq, Eq, Structural)]
pub struct Rat {
    pub num: i128,
    pub den: i128,
}

impl View for Rat {
    type V = SpecRat;

    open spec fn view(&self) -> SpecRat {
        SpecRat { n: self.num as int, d: self.den as int }
    }
}

pub proof fn lemma_pos_mul_pos(a: int, b: int)
    by (nonlinear_arith)
    requires
        a > 0,
        b > 0,
    ensures
        a * b > 0,
{
}

impl Rat {
    pub fn new(num: i128, den: i128) -> (r: Rat)
        requires
            den > 0,
        ensures
            r@ == (SpecRat { n: num as int, d: den as int }),
            r@.wf(),
    {
        Rat { num, den }
    }

    pub fn from_int(i: i64) -> (r: Rat)
        ensures
            r@ == SpecRat::from_int(i as int),
            r@.wf(),
    {
        Rat { num: i as i128, den: 1 }
    }

    pub fn zero() -> (r: Rat)
        ensures
            r@ == SpecRat::zero(),
            r@.wf(),
    {
        Rat { num: 0, den: 1 }
    }

    pub fn one() -> (r: Rat)
        ensures
            r@ == SpecRat::one(),
            r@.wf(),
    {
        Rat { num: 1, den: 1 }
    }

    pub fn eq_val(&self, o: &Rat) -> (r: bool)
        requires
            self@.wf(),
            o@.wf(),
            fits_i128(self@.n * o@.d),
            fits_i128(o@.n * self@.d),
        ensures
            r == self@.eq_val(o@),
    {
        self.num * o.den == o.num * self.den
    }

    pub fn le_val(&self, o: &Rat) -> (r: bool)
        requires
            self@.wf(),
            o@.wf(),
            fits_i128(self@.n * o@.d),
            fits_i128(o@.n * self@.d),
        ensures
            r == self@.le_val(o@),
    {
        self.num * o.den <= o.num * self.den
    }

    pub fn lt_val(&self, o: &Rat) -> (r: bool)
        requires
            self@.wf(),
            o@.wf(),
            fits_i128(self@.n * o@.d),
            fits_i128(o@.n * self@.d),
        ensures
            r == self@.lt_val(o@),
    {
        self.num * o.den < o.num * self.den
    }

    pub fn checked_add(&self, o: &Rat) -> (r: Option<Rat>)
        requires
            self@.wf(),
            o@.wf(),
        ensures
            r is Some <==> add_fits(self@, o@),
            r is Some ==> r.unwrap()@ == self@.add(o@) && r.unwrap()@.wf(),
    {
        let n1 = match self.num.checked_mul(o.den) {
            Some(t) => t,
            None => { return None; },
        };
        let n2 = match o.num.checked_mul(self.den) {
            Some(t) => t,
            None => { return None; },
        };
        let n = match n1.checked_add(n2) {
            Some(t) => t,
            None => { return None; },
        };
        if n == 0 {
            return Some(Rat { num: 0, den: 1 });
        }
        let d = match self.den.checked_mul(o.den) {
            Some(t) => t,
            None => { return None; },
        };
        proof {
            lemma_pos_mul_pos(self.den as int, o.den as int);
        }
        Some(Rat { num: n, den: d })
    }

    pub fn checked_sub(&self, o: &Rat) -> (r: Option<Rat>)
        requires
            self@.wf(),
            o@.wf(),
        ensures
            r is Some <==> sub_fits(self@, o@),
            r is Some ==> r.unwrap()@ == self@.sub(o@) && r.unwrap()@.wf(),
    {
        let n1 = match self.num.checked_mul(o.den) {
            Some(t) => t,
            None => { return None; },
        };
        let n2 = match o.num.checked_mul(self.den) {
            Some(t) => t,
            None => { return None; },
        };
        let n = match n1.checked_sub(n2) {
            Some(t) => t,
            None => { return None; },
        };
        if n == 0 {
            return Some(Rat { num: 0, den: 1 });
        }
        let d = match self.den.checked_mul(o.den) {
            Some(t) => t,
            None => { return None; },
        };
        proof {
            lemma_pos_mul_pos(self.den as int, o.den as int);
        }
        Some(Rat { num: n, den: d })
    }

    pub fn checked_mul(&self, o: &Rat) -> (r: Option<Rat>)
        requires
            self@.wf(),
            o@.wf(),
        ensures
            r is Some <==> mul_fits(self@, o@),
            r is Some ==> r.unwrap()@ == self@.mul(o@) && r.unwrap()@.wf(),
    {
        let n = match self.num.checked_mul(o.num) {
            Some(t) => t,
            None => { return None; },
        };
        if n == 0 {
            return Some(Rat { num: 0, den: 1 });
        }
        let d = match self.den.checked_mul(o.den) {
            Some(t) => t,
            None => { return None; },
        };
        proof {
            lemma_pos_mul_pos(self.den as int, o.den as int);
        }
        Some(Rat { num: n, den: d })
    }

    pub fn checked_div(&self, o: &Rat) -> (r: Option<Rat>)
        requires
            self@.wf(),
            o@.wf(),
            o@.n != 0,
        ensures
            r is Some <==> div_fits(self@, o@),
            r is Some ==> r.unwrap()@ == self@.div(o@) && r.unwrap()@.wf(),
    {
        let n0 = match self.num.checked_mul(o.den) {
            Some(t) => t,
            None => { return None; },
        };
        if n0 == 0 {
            return Some(Rat { num: 0, den: 1 });
        }
        let d0 = match self.den.checked_mul(o.num) {
            Some(t) => t,
            None => { return None; },
        };
        if o.num < 0 {
            if n0 == i128::MIN || d0 == i128::MIN {
                return None;
            }
            proof {
                lemma_pos_mul_pos(self.den as int, -(o.num as int));
                assert((self.den as int) * (o.num as int) == -((self.den as int) * -(
                o.num as int))) by (nonlinear_arith);
            }
            Some(Rat { num: -n0, den: -d0 })
        } else {
            proof {
                lemma_pos_mul_pos(self.den as int, o.num as int);
            }
            Some(Rat { num: n0, den: d0 })
        }
    }
}

} // verus!
