//! The recursive position estimator: a scalar Kalman filter over exact
//! rationals. `predict` advances the believed position by the (assumed
//! known) velocity and grows the error covariance by the process noise;
//! `update` folds in a measurement weighted by the Kalman gain. The gain
//! always lies in `[0, 1]` and the covariance never increases in `update`.

use vstd::prelude::*;

use crate::rat::{add_fits, div_fits, mul_fits, sub_fits, Rat, SpecRat};

verus! {

/// The filter's belief: position and (never re-estimated) velocity.
#[derive(Clone, Copy, Debug)]
pub struct State {
    pub x: Rat,
    pub v: Rat,
}

/// Mathematical model of the whole filter.
pub struct SpecFilter {
    pub x: SpecRat,
    pub v: SpecRat,
    pub p: SpecRat,
    pub r: SpecRat,
    pub q: SpecRat,
    pub k: SpecRat,
}

impl SpecFilter {
    /// The filter invariant: all parts well-formed, covariance nonnegative,
    /// measurement noise variance positive, process noise variance nonnegative.
    pub open spec fn wf(self) -> bool {
        &&& self.x.wf()
        &&& self.v.wf()
        &&& self.p.wf()
        &&& self.r.wf()
        &&& self.q.wf()
        &&& self.k.wf()
        &&& SpecRat::zero().le_val(self.p)
        &&& SpecRat::zero().lt_val(self.r)
        &&& SpecRat::zero().le_val(self.q)
    }

    pub open spec fn init(x0: SpecRat, v0: SpecRat, r: SpecRat, q: SpecRat) -> SpecFilter {
        SpecFilter {
            x: x0,
            v: v0,
            p: SpecRat::one(),
            r,
            q,
            k: SpecRat::zero(),
        }
    }

    /// One predict step: constant-velocity motion, covariance grown by Q.
    pub open spec fn predict(self, dt: SpecRat) -> SpecFilter {
        SpecFilter {
            x: self.x.add(self.v.mul(dt)),
            p: self.p.add(self.q),
            ..self
        }
    }

    /// One update step: gain `K = P/(P+R)`, position corrected toward the
    /// measurement by `K`, covariance contracted by `1 - K`.
    pub open spec fn update(self, z: SpecRat) -> SpecFilter {
        let k = self.p.div(self.p.add(self.r));
        SpecFilter {
            x: self.x.add(k.mul(z.sub(self.x))),
            p: self.p.mul(SpecRat::one().sub(k)),
            k,
            ..self
        }
    }
}

/// Whether one predict step stays within machine range.
pub open spec fn predict_fits(f: SpecFilter, dt: SpecRat) -> bool {
    &&& mul_fits(f.v, dt)
    &&& add_fits(f.x, f.v.mul(dt))
    &&& add_fits(f.p, f.q)
}

/// Whether one update step stays within machine range.
pub open spec fn update_fits(f: SpecFilter, z: SpecRat) -> bool {
    let s = f.p.add(f.r);
    let k = f.p.div(s);
    &&& add_fits(f.p, f.r)
    &&& div_fits(f.p, s)
    &&& sub_fits(z, f.x)
    &&& mul_fits(k, z.sub(f.x))
    &&& add_fits(f.x, k.mul(z.sub(f.x)))
    &&& sub_fits(SpecRat::one(), k)
    &&& mul_fits(f.p, SpecRat::one().sub(k))
}

proof fn lemma_gain_ints(pn: int, pd: int, rn: int, rd: int)
    by (nonlinear_arith)
    requires
        pd > 0,
        rd > 0,
        pn >= 0,
        rn > 0,
    ensures
        pn * rd + rn * pd > 0,
        pd * rd > 0,
        pn * (pd * rd) >= 0,
        pd * (pn * rd + rn * pd) > 0,
        pn * (pd * rd) < pd * (pn * rd + rn * pd),
{
}

proof fn lemma_contract_ints(pn: int, pd: int, kn: int, kd: int)
    by (nonlinear_arith)
    requires
        pd > 0,
        kd > 0,
        pn >= 0,
        kn >= 0,
        kn <= kd,
    ensures
        pn * (kd - kn) >= 0,
        pd * kd > 0,
        (pn * (kd - kn)) * pd <= pn * (pd * kd),
        pn > 0 && kn < kd ==> pn * (kd - kn) > 0,
{
}

proof fn lemma_contract_vs_r_ints(pn: int, pd: int, rn: int, rd: int, kn: int, kd: int)
    by (nonlinear_arith)
    requires
        pd > 0,
        rd > 0,
        rn > 0,
        pn >= 0,
        kn == pn * (pd * rd),
        kd == pd * (pn * rd + rn * pd),
    ensures
        (pn * (kd - kn)) * rd <= rn * (pd * kd),
{
}

/// The Kalman gain of a well-formed filter lies in `[0, 1]`, and the
/// covariance never increases across an update: `P' = P * R / (P + R)`,
/// which is nonnegative and at most both `P` and `R`.
pub proof fn lemma_update_bounds(f: SpecFilter, z: SpecRat)
    requires
        f.wf(),
    ensures
        SpecRat::zero().lt_val(f.p.add(f.r)),
        f.p.add(f.r).n > 0,
        ({
            let k = f.p.div(f.p.add(f.r));
            &&& k.wf()
            &&& SpecRat::zero().le_val(k)
            &&& k.le_val(SpecRat::one())
        }),
        ({
            let u = f.update(z);
            &&& u.p.wf()
            &&& SpecRat::zero().le_val(u.p)
            &&& u.p.le_val(f.p)
            &&& u.p.le_val(f.r)
        }),
{
    let p = f.p;
    let r = f.r;
    let s = p.add(r);
    lemma_gain_ints(p.n, p.d, r.n, r.d);
    assert(s.n == p.n * r.d + r.n * p.d);
    assert(s.d == p.d * r.d);
    let k = p.div(s);
    let omk = SpecRat::one().sub(k);
    let u = f.update(z);
    if p.n == 0 {
        assert(p.n * s.d == 0) by (nonlinear_arith)
            requires
                p.n == 0,
        ;
        assert(k == SpecRat::zero());
        assert(omk == SpecRat::one());
        assert(u.p == p.mul(omk));
        assert(u.p == SpecRat::zero());
        assert(u.p.le_val(f.r));
    } else {
        assert(p.n > 0);
        assert(p.n * s.d != 0) by (nonlinear_arith)
            requires
                p.n > 0,
                s.d > 0,
        ;
        assert(k.n == p.n * (p.d * r.d));
        assert(k.d == p.d * (p.n * r.d + r.n * p.d));
        assert(SpecRat::zero().le_val(k));
        assert(k.le_val(SpecRat::one()));
        assert(k.n < k.d);
        assert(omk.n == k.d - k.n);
        assert(omk.d == k.d);
        assert(u.p == p.mul(omk));
        lemma_contract_ints(p.n, p.d, k.n, k.d);
        lemma_contract_vs_r_ints(p.n, p.d, r.n, r.d, k.n, k.d);
        assert(u.p.n == p.n * (k.d - k.n));
        assert(u.p.d == p.d * k.d);
    }
}

/// A sum of nonnegative rationals is nonnegative, and adding rationals keeps
/// well-formedness.
pub proof fn lemma_add_keeps_sign(a: SpecRat, b: SpecRat)
    by (nonlinear_arith)
    requires
        a.wf(),
        b.wf(),
    ensures
        a.add(b).wf(),
        SpecRat::zero().le_val(a) && SpecRat::zero().le_val(b) ==> SpecRat::zero().le_val(
            a.add(b),
        ),
{
}

/// The estimator: filter state plus its tuned noise variances; `k` records
/// the gain of the latest update, for inspection only.
#[derive(Clone, Copy, Debug)]
pub struct KalmanFilter {
    pub state: State,
    pub p: Rat,
    pub r: Rat,
    pub q: Rat,
    pub k: Rat,
}

impl View for KalmanFilter {
    type V = SpecFilter;

    open spec fn view(&self) -> SpecFilter {
        SpecFilter {
            x: self.state.x@,
            v: self.state.v@,
            p: self.p@,
            r: self.r@,
            q: self.q@,
            k: self.k@,
        }
    }
}

impl KalmanFilter {
    /// A fresh filter: belief set to the given position and velocity, error
    /// covariance fixed at 1, gain cleared.
    pub fn new(initial_position: Rat, initial_velocity: Rat, r: Rat, q: Rat) -> (f: KalmanFilter)
        requires
            initial_position@.wf(),
            initial_velocity@.wf(),
            r@.wf(),
            q@.wf(),
            SpecRat::zero().lt_val(r@),
            SpecRat::zero().le_val(q@),
        ensures
            f@ == SpecFilter::init(initial_position@, initial_velocity@, r@, q@),
            f@.wf(),
    {
        KalmanFilter {
            state: State { x: initial_position, v: initial_velocity },
            p: Rat::one(),
            r,
            q,
            k: Rat::zero(),
        }
    }

    /// Advances the belief one timestep: position by `v * dt`, covariance by
    /// `Q`. Reports `false`, leaving the filter untouched, where the exact
    /// result would leave the machine range.
    pub fn predict(&mut self, dt: Rat) -> (ok: bool)
        requires
            old(self)@.wf(),
            dt@.wf(),
        ensures
            ok <==> predict_fits(old(self)@, dt@),
            ok ==> final (self)@ == old(self)@.predict(dt@) && final (self)@.wf(),
            !ok ==> *final (self) == *old(self),
    {
        let vdt = match self.state.v.checked_mul(&dt) {
            Some(t) => t,
            None => { return false; },
        };
        let x2 = match self.state.x.checked_add(&vdt) {
            Some(t) => t,
            None => { return false; },
        };
        let p2 = match self.p.checked_add(&self.q) {
            Some(t) => t,
            None => { return false; },
        };
        proof {
            lemma_add_keeps_sign(self@.p, self@.q);
        }
        self.state.x = x2;
        self.p = p2;
        true
    }

    /// Folds one measurement into the belief. Reports `false`, leaving the
    /// filter untouched, where the exact result would leave the machine
    /// range; otherwise the gain lies in `[0, 1]` and the covariance ends
    /// at most its prior value and at most the measurement noise variance.
    pub fn update(&mut self, measured_position: Rat) -> (ok: bool)
        requires
            old(self)@.wf(),
            measured_position@.wf(),
        ensures
            ok <==> update_fits(old(self)@, measured_position@),
            ok ==> final (self)@ == old(self)@.update(measured_position@) && final (self)@.wf(),
            ok ==> SpecRat::zero().le_val(final (self)@.k) && final (self)@.k.le_val(
                SpecRat::one(),
            ),
            ok ==> final (self)@.p.le_val(old(self)@.p),
            ok ==> final (self)@.p.le_val(old(self)@.r),
            !ok ==> *final (self) == *old(self),
    {
        proof {
            lemma_update_bounds(old(self)@, measured_position@);
        }
        let s = match self.p.checked_add(&self.r) {
            Some(t) => t,
            None => { return false; },
        };
        let k = match self.p.checked_div(&s) {
            Some(t) => t,
            None => { return false; },
        };
        let innov = match measured_position.checked_sub(&self.state.x) {
            Some(t) => t,
            None => { return false; },
        };
        let corr = match k.checked_mul(&innov) {
            Some(t) => t,
            None => { return false; },
        };
        let x2 = match self.state.x.checked_add(&corr) {
            Some(t) => t,
            None => { return false; },
        };
        let omk = match Rat::one().checked_sub(&k) {
            Some(t) => t,
            None => { return false; },
        };
        let p2 = match self.p.checked_mul(&omk) {
            Some(t) => t,
            None => { return false; },
        };
        self.state.x = x2;
        self.p = p2;
        self.k = k;
        true
    }
}

} // verus!
