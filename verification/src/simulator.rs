//! The fixed-timestep simulation loop: synthesizes ground truth for a
//! constant-velocity object, perturbs it with an injected noise sequence,
//! drives the estimator once per tick, and collects the trace. The whole
//! trace is pinned to a mathematical recurrence over exact rationals, so a
//! run is a pure function of its parameters and its noise sequence.

use vstd::prelude::*;

use crate::estimator::{lemma_add_keeps_sign, predict_fits, update_fits, KalmanFilter, SpecFilter};
use crate::rat::{add_fits, fits_i128, mul_fits, Rat, SpecRat};

verus! {

/// The two rejected parameter classes, and the report that an exact
/// intermediate value left the machine range.
#[derive(Clone, Copy, Debug, PartialEq, Eq, Structural)]
pub enum SimError {
    InvalidTimeStep,
    InvalidNoiseModel,
    Overflow,
}

/// One recorded instant of the simulation.
#[derive(Clone, Copy, Debug)]
pub struct SimulateTick {
    pub time: Rat,
    pub true_position: Rat,
    pub measured_position: Rat,
    pub estimated_position: Rat,
}

/// Mathematical model of one tick.
pub struct SpecTick {
    pub time: SpecRat,
    pub true_position: SpecRat,
    pub measured_position: SpecRat,
    pub estimated_position: SpecRat,
}

impl View for SimulateTick {
    type V = SpecTick;

    open spec fn view(&self) -> SpecTick {
        SpecTick {
            time: self.time@,
            true_position: self.true_position@,
            measured_position: self.measured_position@,
            estimated_position: self.estimated_position@,
        }
    }
}

/// The full trace, in time order.
pub struct SimulateResult {
    pub ticks: Vec<SimulateTick>,
}

/// The fixed parameters of a run, as mathematical rationals.
pub struct SpecSimParams {
    pub dt: SpecRat,
    pub velocity: SpecRat,
    pub r: SpecRat,
    pub q: SpecRat,
}

/// The views of an injected noise sequence.
pub open spec fn noise_views(s: Seq<Rat>) -> Seq<SpecRat> {
    s.map_values(|x: Rat| x@)
}

/// The tick count: `floor(total_time / dt)`; a final partial interval is
/// dropped.
pub open spec fn spec_steps(total_time: SpecRat, dt: SpecRat) -> int {
    (total_time.n * dt.d) / (total_time.d * dt.n)
}

/// Whether the step count itself can be computed in machine words.
pub open spec fn steps_fits(total_time: SpecRat, dt: SpecRat) -> bool {
    fits_i128(total_time.n * dt.d) && fits_i128(total_time.d * dt.n)
}

/// A run is accepted exactly when both time parameters are positive and the
/// assumed measurement noise variance is positive.
pub open spec fn sim_params_valid(total_time: SpecRat, dt: SpecRat, r: SpecRat) -> bool {
    &&& SpecRat::zero().lt_val(total_time)
    &&& SpecRat::zero().lt_val(dt)
    &&& SpecRat::zero().lt_val(r)
}

/// The simulation state after `i` steps: accumulated true position and the
/// filter. Truth starts at zero and the filter believes zero position.
pub open spec fn spec_sim_state(p: SpecSimParams, ns: Seq<SpecRat>, i: nat) -> (SpecRat,
    SpecFilter)
    decreases i,
{
    if i == 0 {
        (
            SpecRat::zero(),
            SpecFilter::init(SpecRat::zero(), p.velocity, p.r, p.q),
        )
    } else {
        let (tp, f) = spec_sim_state(p, ns, (i - 1) as nat);
        let tp2 = tp.add(p.velocity.mul(p.dt));
        let z = tp2.add(ns[i - 1]);
        let f2 = f.predict(p.dt).update(z);
        (tp2, f2)
    }
}

/// The tick recorded at step `i` (counting from zero).
pub open spec fn spec_tick_at(p: SpecSimParams, ns: Seq<SpecRat>, i: nat) -> SpecTick {
    let (tp, f) = spec_sim_state(p, ns, i);
    let tp2 = tp.add(p.velocity.mul(p.dt));
    let z = tp2.add(ns[i as int]);
    let f2 = f.predict(p.dt).update(z);
    SpecTick {
        time: SpecRat::from_int(i as int).mul(p.dt),
        true_position: tp2,
        measured_position: z,
        estimated_position: f2.x,
    }
}

/// Whether step `i` stays within machine range throughout.
pub open spec fn spec_step_fits(p: SpecSimParams, ns: Seq<SpecRat>, i: nat) -> bool {
    let (tp, f) = spec_sim_state(p, ns, i);
    let vdt = p.velocity.mul(p.dt);
    let tp2 = tp.add(vdt);
    let z = tp2.add(ns[i as int]);
    &&& i <= i64::MAX
    &&& mul_fits(p.velocity, p.dt)
    &&& add_fits(tp, vdt)
    &&& add_fits(tp2, ns[i as int])
    &&& mul_fits(SpecRat::from_int(i as int), p.dt)
    &&& predict_fits(f, p.dt)
    &&& update_fits(f.predict(p.dt), z)
}

/// Whether a whole run of `n` steps stays within machine range.
pub open spec fn spec_run_fits(p: SpecSimParams, ns: Seq<SpecRat>, n: nat) -> bool {
    forall|j: nat| j < n ==> #[trigger] spec_step_fits(p, ns, j)
}

proof fn lemma_div_bounds(x: int, d: int)
    by (nonlinear_arith)
    requires
        x >= 0,
        d > 0,
    ensures
        0 <= x / d <= x,
{
}

proof fn lemma_pos_prod(a: int, b: int)
    by (nonlinear_arith)
    requires
        a > 0,
        b > 0,
    ensures
        a * b > 0,
{
}

/// Runs the simulation against an explicitly injected noise sequence, one
/// sample per step. The result is a pure function of the arguments: the
/// trace length equals `floor(total_time / dt)` and every tick matches the
/// recurrence `spec_tick_at`. Rejects a non-positive timestep or total time
/// before a non-positive noise variance, and either before any arithmetic;
/// reports `Overflow` exactly when some exact intermediate value of the run
/// leaves the machine range.
pub fn simulate_with_noise(
    total_time: Rat,
    dt: Rat,
    velocity: Rat,
    r: Rat,
    q: Rat,
    noise: &Vec<Rat>,
) -> (res: Result<SimulateResult, SimError>)
    requires
        total_time@.wf(),
        dt@.wf(),
        velocity@.wf(),
        r@.wf(),
        q@.wf(),
        SpecRat::zero().le_val(q@),
        forall|i: int| 0 <= i < noise@.len() ==> (#[trigger] noise@[i])@.wf(),
        sim_params_valid(total_time@, dt@, r@) ==> noise@.len() >= spec_steps(total_time@, dt@),
    ensures
        res == Err::<SimulateResult, SimError>(SimError::InvalidTimeStep) <==> !(
        SpecRat::zero().lt_val(total_time@) && SpecRat::zero().lt_val(dt@)),
        SpecRat::zero().lt_val(total_time@) && SpecRat::zero().lt_val(dt@) ==> (res == Err::<
            SimulateResult,
            SimError,
        >(SimError::InvalidNoiseModel) <==> !SpecRat::zero().lt_val(r@)),
        sim_params_valid(total_time@, dt@, r@) ==> {
            let p = SpecSimParams { dt: dt@, velocity: velocity@, r: r@, q: q@ };
            let ns = noise_views(noise@);
            let n = spec_steps(total_time@, dt@);
            &&& (res is Ok <==> steps_fits(total_time@, dt@) && spec_run_fits(p, ns, n as nat))
            &&& (res is Err ==> res == Err::<SimulateResult, SimError>(SimError::Overflow))
            &&& (res matches Ok(out) ==> {
                &&& out.ticks@.len() == n
                &&& forall|j: int|
                    0 <= j < n ==> #[trigger] out.ticks@[j]@ == spec_tick_at(p, ns, j as nat)
            })
        },
{
    let zero = Rat::zero();
    if !zero.lt_val(&total_time) || !zero.lt_val(&dt) {
        return Err(SimError::InvalidTimeStep);
    }
    if !zero.lt_val(&r) {
        return Err(SimError::InvalidNoiseModel);
    }
    let ghost p = SpecSimParams { dt: dt@, velocity: velocity@, r: r@, q: q@ };
    let ghost ns = noise_views(noise@);

    let cap = noise.len();
    let steps = match compute_steps(&total_time, &dt) {
        Some(s) => s,
        None => {
            proof {
                if steps_fits(total_time@, dt@) {
                    assert(noise@.len() >= spec_steps(total_time@, dt@));
                    assert(false);
                }
            }
            return Err(SimError::Overflow);
        },
    };
    if steps > cap {
        proof {
            assert(false);
        }
        return Err(SimError::Overflow);
    }

    let mut kalman = KalmanFilter::new(Rat::zero(), velocity, r, q);
    let mut true_position = Rat::zero();
    let mut ticks: Vec<SimulateTick> = Vec::new();
    let mut step: usize = 0;

    while step < steps
        invariant
            0 <= step <= steps,
            steps as int == spec_steps(total_time@, dt@),
            steps <= noise@.len(),
            total_time@.wf(),
            dt@.wf(),
            velocity@.wf(),
            r@.wf(),
            q@.wf(),
            SpecRat::zero().lt_val(total_time@),
            SpecRat::zero().lt_val(dt@),
            SpecRat::zero().lt_val(r@),
            SpecRat::zero().le_val(q@),
            p == (SpecSimParams { dt: dt@, velocity: velocity@, r: r@, q: q@ }),
            ns == noise_views(noise@),
            forall|i: int| 0 <= i < noise@.len() ==> (#[trigger] noise@[i])@.wf(),
            ticks@.len() == step,
            forall|j: int| 0 <= j < step ==> #[trigger] ticks@[j]@ == spec_tick_at(p, ns, j as nat),
            forall|j: nat| j < step ==> #[trigger] spec_step_fits(p, ns, j),
            true_position@ == spec_sim_state(p, ns, step as nat).0,
            kalman@ == spec_sim_state(p, ns, step as nat).1,
            true_position@.wf(),
            kalman@.wf(),
        decreases steps - step,
    {
        if step as u64 > i64::MAX as u64 {
            assert(!spec_step_fits(p, ns, step as nat));
            return Err(SimError::Overflow);
        }
        let vdt = match velocity.checked_mul(&dt) {
            Some(t) => t,
            None => {
                assert(!spec_step_fits(p, ns, step as nat));
                return Err(SimError::Overflow);
            },
        };
        let tp2 = match true_position.checked_add(&vdt) {
            Some(t) => t,
            None => {
                assert(!spec_step_fits(p, ns, step as nat));
                return Err(SimError::Overflow);
            },
        };
        let z = match tp2.checked_add(&noise[step]) {
            Some(t) => t,
            None => {
                assert(!spec_step_fits(p, ns, step as nat));
                return Err(SimError::Overflow);
            },
        };
        let time = match Rat::from_int(step as i64).checked_mul(&dt) {
            Some(t) => t,
            None => {
                assert(!spec_step_fits(p, ns, step as nat));
                return Err(SimError::Overflow);
            },
        };
        if !kalman.predict(dt) {
            assert(!spec_step_fits(p, ns, step as nat));
            return Err(SimError::Overflow);
        }
        if !kalman.update(z) {
            assert(!spec_step_fits(p, ns, step as nat));
            return Err(SimError::Overflow);
        }
        let tick = SimulateTick {
            time,
            true_position: tp2,
            measured_position: z,
            estimated_position: kalman.state.x,
        };
        ticks.push(tick);
        true_position = tp2;
        proof {
            assert(spec_step_fits(p, ns, step as nat));
            assert(spec_sim_state(p, ns, (step + 1) as nat).0 == true_position@);
            assert(spec_sim_state(p, ns, (step + 1) as nat).1 == kalman@);
            assert(ticks@[step as int]@ == spec_tick_at(p, ns, step as nat));
        }
        step = step + 1;
    }
    Ok(SimulateResult { ticks })
}

/// One sample per step: strictly inside `(-stddev, stddev)` for a positive
/// width, and exactly zero for a zero width.
pub open spec fn noise_within(ns: Seq<SpecRat>, sd: SpecRat) -> bool {
    forall|i: int|
        0 <= i < ns.len() ==> {
            &&& (#[trigger] ns[i]).wf()
            &&& SpecRat::zero().lt_val(sd) ==> sd.neg().lt_val(ns[i]) && ns[i].lt_val(sd)
            &&& sd.eq_val(SpecRat::zero()) ==> ns[i] == SpecRat::zero()
        }
}

/// Granularity of a drawn noise sample: the draw picks an integer numerator
/// below this denominator.
pub const NOISE_GRAIN: i64 = 1000;

/// Relies on rand::random_range over `lo..hi`: a sample uniformly drawn from
/// the half-open range; panics only on an empty range, which the
/// precondition rules out.
#[verifier::external_body]
fn random_in(lo: i64, hi: i64) -> (r: i64)
    requires
        lo < hi,
    ensures
        lo <= r < hi,
{
    rand::random_range(lo..hi)
}

proof fn lemma_noise_bounds(sn: int, sd: int, k: int, m: int)
    by (nonlinear_arith)
    requires
        sn > 0,
        sd > 0,
        m > 0,
        -m < k < m,
    ensures
        (sn * k) * sd < sn * (sd * m),
        (-sn) * (sd * m) < (sn * k) * sd,
        sd * m > 0,
{
}

/// Draws one measurement-noise sample: a rational strictly inside
/// `(-stddev, stddev)` with denominator grain `NOISE_GRAIN`, or zero where
/// the width is zero or the sample would leave the machine range.
fn draw_noise(stddev: &Rat) -> (r: Rat)
    requires
        stddev@.wf(),
        SpecRat::zero().le_val(stddev@),
    ensures
        r@.wf(),
        SpecRat::zero().lt_val(stddev@) ==> stddev@.neg().lt_val(r@) && r@.lt_val(stddev@),
        stddev@.eq_val(SpecRat::zero()) ==> r@ == SpecRat::zero(),
{
    if stddev.num == 0 {
        return Rat::zero();
    }
    let k = random_in(-(NOISE_GRAIN - 1), NOISE_GRAIN);
    proof {
        lemma_noise_bounds(stddev.num as int, stddev.den as int, k as int, NOISE_GRAIN as int);
    }
    let n = match stddev.num.checked_mul(k as i128) {
        Some(t) => t,
        None => { return Rat::zero(); },
    };
    let d = match stddev.den.checked_mul(NOISE_GRAIN as i128) {
        Some(t) => t,
        None => { return Rat::zero(); },
    };
    Rat { num: n, den: d }
}

/// The tick count as a machine word, or `None` where it exceeds what a
/// trace can hold.
fn compute_steps(total_time: &Rat, dt: &Rat) -> (s: Option<usize>)
    requires
        total_time@.wf(),
        dt@.wf(),
        SpecRat::zero().lt_val(total_time@),
        SpecRat::zero().lt_val(dt@),
    ensures
        s matches Some(v) ==> v as int == spec_steps(total_time@, dt@) && steps_fits(
            total_time@,
            dt@,
        ),
        s is None <==> !steps_fits(total_time@, dt@) || spec_steps(total_time@, dt@)
            > usize::MAX,
{
    let num_w = match total_time.num.checked_mul(dt.den) {
        Some(t) => t,
        None => { return None; },
    };
    let den_w = match total_time.den.checked_mul(dt.num) {
        Some(t) => t,
        None => { return None; },
    };
    proof {
        lemma_pos_prod(total_time.num as int, dt.den as int);
        lemma_pos_prod(total_time.den as int, dt.num as int);
        lemma_div_bounds(num_w as int, den_w as int);
    }
    let q = match num_w.checked_div(den_w) {
        Some(q) => q,
        None => {
            proof {
                assert(false);
            }
            return None;
        },
    };
    if q > usize::MAX as i128 {
        None
    } else {
        Some(q as usize)
    }
}

/// Runs the simulation with freshly drawn measurement noise, as the
/// original pipeline does. Parameter rejection is as for
/// `simulate_with_noise`; any successful trace is one that
/// `simulate_with_noise` produces for some noise sequence bounded by the
/// given width, so every per-tick guarantee holds of it.
pub fn simulate(
    total_time: Rat,
    dt: Rat,
    velocity: Rat,
    sensor_noise_stddev: Rat,
    r: Rat,
    q: Rat,
) -> (res: Result<SimulateResult, SimError>)
    requires
        total_time@.wf(),
        dt@.wf(),
        velocity@.wf(),
        sensor_noise_stddev@.wf(),
        r@.wf(),
        q@.wf(),
        SpecRat::zero().le_val(q@),
        SpecRat::zero().le_val(sensor_noise_stddev@),
    ensures
        res == Err::<SimulateResult, SimError>(SimError::InvalidTimeStep) <==> !(
        SpecRat::zero().lt_val(total_time@) && SpecRat::zero().lt_val(dt@)),
        SpecRat::zero().lt_val(total_time@) && SpecRat::zero().lt_val(dt@) ==> (res == Err::<
            SimulateResult,
            SimError,
        >(SimError::InvalidNoiseModel) <==> !SpecRat::zero().lt_val(r@)),
        sim_params_valid(total_time@, dt@, r@) ==> (res is Err ==> res == Err::<
            SimulateResult,
            SimError,
        >(SimError::Overflow)),
        sim_params_valid(total_time@, dt@, r@) && sensor_noise_stddev@.eq_val(SpecRat::zero())
            ==> {
            let p = SpecSimParams { dt: dt@, velocity: velocity@, r: r@, q: q@ };
            let n = spec_steps(total_time@, dt@);
            let zs = Seq::new(n as nat, |j: int| SpecRat::zero());
            &&& (res is Ok <==> steps_fits(total_time@, dt@) && n <= usize::MAX
                && spec_run_fits(p, zs, n as nat))
            &&& (res matches Ok(out) ==> {
                &&& out.ticks@.len() == n
                &&& forall|j: int|
                    0 <= j < n ==> #[trigger] out.ticks@[j]@ == spec_tick_at(p, zs, j as nat)
            })
        },
        sim_params_valid(total_time@, dt@, r@) ==> (res matches Ok(out) ==> exists|ns: Seq<
            SpecRat,
        >|
            {
                let p = SpecSimParams { dt: dt@, velocity: velocity@, r: r@, q: q@ };
                let n = spec_steps(total_time@, dt@);
                &&& ns.len() == n
                &&& #[trigger] noise_within(ns, sensor_noise_stddev@)
                &&& out.ticks@.len() == n
                &&& forall|j: int|
                    0 <= j < n ==> #[trigger] out.ticks@[j]@ == spec_tick_at(p, ns, j as nat)
            }),
{
    let zero = Rat::zero();
    if !zero.lt_val(&total_time) || !zero.lt_val(&dt) {
        return Err(SimError::InvalidTimeStep);
    }
    if !zero.lt_val(&r) {
        return Err(SimError::InvalidNoiseModel);
    }
    let steps = match compute_steps(&total_time, &dt) {
        Some(s) => s,
        None => { return Err(SimError::Overflow); },
    };
    let mut nv: Vec<Rat> = Vec::new();
    let mut i: usize = 0;
    while i < steps
        invariant
            0 <= i <= steps,
            nv@.len() == i,
            sensor_noise_stddev@.wf(),
            SpecRat::zero().le_val(sensor_noise_stddev@),
            forall|j: int|
                0 <= j < i ==> {
                    &&& (#[trigger] nv@[j])@.wf()
                    &&& SpecRat::zero().lt_val(sensor_noise_stddev@) ==> sensor_noise_stddev@.neg().lt_val(nv@[j]@) && nv@[j]@.lt_val(sensor_noise_stddev@)
                    &&& sensor_noise_stddev@.eq_val(SpecRat::zero()) ==> nv@[j]@ == SpecRat::zero()
                },
        decreases steps - i,
    {
        let sample = draw_noise(&sensor_noise_stddev);
        nv.push(sample);
        i = i + 1;
    }
    let res = simulate_with_noise(total_time, dt, velocity, r, q, &nv);
    proof {
        if sensor_noise_stddev@.eq_val(SpecRat::zero()) {
            let n = spec_steps(total_time@, dt@);
            let zs = Seq::new(n as nat, |j: int| SpecRat::zero());
            assert(noise_views(nv@) =~= zs);
        }
        if res is Ok {
            let ns0 = noise_views(nv@);
            assert(noise_within(ns0, sensor_noise_stddev@));
            let p = SpecSimParams { dt: dt@, velocity: velocity@, r: r@, q: q@ };
            let n = spec_steps(total_time@, dt@);
            let out = res->Ok_0;
            assert(ns0.len() == n && noise_within(ns0, sensor_noise_stddev@) && out.ticks@.len()
                == n && forall|j: int|
                0 <= j < n ==> #[trigger] out.ticks@[j]@ == spec_tick_at(p, ns0, j as nat));
        }
    }
    res
}

/// A sum with a zero-valued term keeps its value.
proof fn lemma_add_zero_val(a: SpecRat, w: SpecRat)
    by (nonlinear_arith)
    requires
        a.wf(),
        w.wf(),
        SpecRat::zero().eq_val(w),
    ensures
        a.add(w).eq_val(a),
{
}

/// The accumulated true position is well-formed at every step.
pub proof fn lemma_true_pos_wf(p: SpecSimParams, ns: Seq<SpecRat>, i: nat)
    requires
        p.dt.wf(),
        p.velocity.wf(),
    ensures
        spec_sim_state(p, ns, i).0.wf(),
    decreases i,
{
    if i > 0 {
        lemma_true_pos_wf(p, ns, (i - 1) as nat);
        crate::rat::lemma_pos_mul_pos(p.velocity.d, p.dt.d);
        crate::rat::lemma_pos_mul_pos(spec_sim_state(p, ns, (i - 1) as nat).0.d, p.velocity.mul(p.dt).d);
    }
}

/// Where a step's noise sample has value zero, the recorded measured
/// position equals the true position exactly.
pub proof fn lemma_zero_noise_measures_truth(p: SpecSimParams, ns: Seq<SpecRat>, i: nat)
    requires
        p.dt.wf(),
        p.velocity.wf(),
        i < ns.len(),
        ns[i as int].wf(),
        SpecRat::zero().eq_val(ns[i as int]),
    ensures
        spec_tick_at(p, ns, i).measured_position.eq_val(spec_tick_at(p, ns, i).true_position),
{
    lemma_true_pos_wf(p, ns, i);
    let tp = spec_sim_state(p, ns, i).0;
    crate::rat::lemma_pos_mul_pos(p.velocity.d, p.dt.d);
    crate::rat::lemma_pos_mul_pos(tp.d, p.velocity.mul(p.dt).d);
    lemma_add_zero_val(tp.add(p.velocity.mul(p.dt)), ns[i as int]);
}

/// Value equality of rationals is transitive across well-formed values.
proof fn lemma_eq_val_trans(a: SpecRat, b: SpecRat, c: SpecRat)
    by (nonlinear_arith)
    requires
        a.wf(),
        b.wf(),
        c.wf(),
        a.eq_val(b),
        b.eq_val(c),
    ensures
        a.eq_val(c),
{
}

proof fn lemma_add_congruence_core(an: int, ad: int, bn: int, bd: int, cn: int, cd: int)
    by (nonlinear_arith)
    requires
        ad > 0,
        bd > 0,
        cd > 0,
        an * bd == bn * ad,
    ensures
        (an * cd + cn * ad) * (bd * cd) == (bn * cd + cn * bd) * (ad * cd),
        ad * cd > 0,
        bd * cd > 0,
        (an * cd + cn * ad == 0) <==> (bn * cd + cn * bd == 0),
{
}

/// Adding the same term to value-equal rationals keeps them value-equal.
proof fn lemma_add_congruence(a: SpecRat, b: SpecRat, c: SpecRat)
    requires
        a.wf(),
        b.wf(),
        c.wf(),
        a.eq_val(b),
    ensures
        a.add(c).eq_val(b.add(c)),
{
    lemma_add_congruence_core(a.n, a.d, b.n, b.d, c.n, c.d);
    let s1 = a.n * c.d + c.n * a.d;
    let s2 = b.n * c.d + c.n * b.d;
    if s1 == 0 {
        assert(a.add(c) == SpecRat::zero());
        assert(b.add(c) == SpecRat::zero());
    } else {
        assert(a.add(c) == (SpecRat { n: s1, d: a.d * c.d }));
        assert(b.add(c) == (SpecRat { n: s2, d: b.d * c.d }));
    }
}

/// With a noise sequence of zeroes the filter tracks the truth exactly: it
/// starts on the true position with the true velocity, so every innovation
/// is zero and the estimate equals the true position after every step.
pub proof fn lemma_zero_noise_estimate_tracks_truth(p: SpecSimParams, ns: Seq<SpecRat>, i: nat)
    requires
        p.dt.wf(),
        p.velocity.wf(),
        i <= ns.len(),
        forall|j: int| 0 <= j < i ==> (#[trigger] ns[j]).wf() && SpecRat::zero().eq_val(ns[j]),
    ensures
        spec_sim_state(p, ns, i).1.x.wf(),
        spec_sim_state(p, ns, i).1.x.eq_val(spec_sim_state(p, ns, i).0),
        spec_sim_state(p, ns, i).1.v == p.velocity,
    decreases i,
{
    if i > 0 {
        lemma_zero_noise_estimate_tracks_truth(p, ns, (i - 1) as nat);
        lemma_true_pos_wf(p, ns, (i - 1) as nat);
        let (tp, f) = spec_sim_state(p, ns, (i - 1) as nat);
        let vdt = p.velocity.mul(p.dt);
        crate::rat::lemma_pos_mul_pos(p.velocity.d, p.dt.d);
        let xp = f.x.add(vdt);
        let tp2 = tp.add(vdt);
        lemma_add_keeps_sign(f.x, vdt);
        lemma_add_keeps_sign(tp, vdt);
        lemma_add_congruence(f.x, tp, vdt);
        let z = tp2.add(ns[i - 1]);
        lemma_add_zero_val(tp2, ns[i - 1]);
        lemma_add_keeps_sign(tp2, ns[i - 1]);
        let f1 = f.predict(p.dt);
        assert(f1.x == xp);
        lemma_eq_val_trans(z, tp2, xp);
        let innov = z.sub(f1.x);
        assert(z.n * f1.x.d - f1.x.n * z.d == 0);
        assert(innov == SpecRat::zero());
        let k1 = f1.p.div(f1.p.add(f1.r));
        let corr = k1.mul(innov);
        assert(k1.n * innov.n == 0) by (nonlinear_arith)
            requires
                innov.n == 0,
        ;
        assert(corr == SpecRat::zero());
        let x2 = f1.x.add(corr);
        lemma_add_zero_val(xp, SpecRat::zero());
        lemma_add_keeps_sign(xp, SpecRat::zero());
        lemma_eq_val_trans(x2, xp, tp2);
        assert(spec_sim_state(p, ns, i).1.x == x2);
        assert(spec_sim_state(p, ns, i).0 == tp2);
    }
}

/// With a noise sequence of zeroes, every recorded tick's estimated
/// position equals its true position exactly.
pub proof fn lemma_zero_noise_estimates_truth_at_tick(p: SpecSimParams, ns: Seq<SpecRat>, i: nat)
    requires
        p.dt.wf(),
        p.velocity.wf(),
        i < ns.len(),
        forall|j: int| 0 <= j <= i ==> (#[trigger] ns[j]).wf() && SpecRat::zero().eq_val(ns[j]),
    ensures
        spec_tick_at(p, ns, i).estimated_position.eq_val(spec_tick_at(p, ns, i).true_position),
{
    lemma_zero_noise_estimate_tracks_truth(p, ns, (i + 1) as nat);
    assert(spec_tick_at(p, ns, i).estimated_position == spec_sim_state(p, ns, (i + 1) as nat).1.x);
    assert(spec_tick_at(p, ns, i).true_position == spec_sim_state(p, ns, (i + 1) as nat).0);
}

/// A total time of exactly one timestep yields one tick, and any total time
/// at least one but strictly under two timesteps still yields exactly one:
/// the final partial interval is dropped.
pub proof fn lemma_steps_boundary(total_time: SpecRat, dt: SpecRat)
    requires
        total_time.wf(),
        dt.wf(),
        SpecRat::zero().lt_val(dt),
        dt.le_val(total_time),
        total_time.lt_val(dt.add(dt)),
    ensures
        spec_steps(total_time, dt) == 1,
{
    let a = total_time.n * dt.d;
    let b = total_time.d * dt.n;
    crate::rat::lemma_pos_mul_pos(dt.n, total_time.d);
    crate::rat::lemma_pos_mul_pos(dt.n, dt.d);
    assert(dt.n * dt.d + dt.n * dt.d != 0);
    assert(b > 0 && b <= a && a < 2 * b) by (nonlinear_arith)
        requires
            total_time.d > 0,
            dt.d > 0,
            0 < dt.n * total_time.d,
            dt.n * total_time.d <= total_time.n * dt.d,
            total_time.n * (dt.d * dt.d) < (dt.n * dt.d + dt.n * dt.d) * total_time.d,
            a == total_time.n * dt.d,
            b == total_time.d * dt.n,
    ;
    assert(a / b == 1) by (nonlinear_arith)
        requires
            b > 0,
            b <= a,
            a < 2 * b,
    ;
}

/// Determinism: any two traces that both satisfy the per-tick recurrence for
/// the same parameters and the same noise sequence are identical.
pub proof fn lemma_runs_deterministic(
    p: SpecSimParams,
    ns: Seq<SpecRat>,
    a: Seq<SpecTick>,
    b: Seq<SpecTick>,
    n: nat,
)
    requires
        a.len() == n,
        b.len() == n,
        forall|j: int| 0 <= j < n ==> #[trigger] a[j] == spec_tick_at(p, ns, j as nat),
        forall|j: int| 0 <= j < n ==> #[trigger] b[j] == spec_tick_at(p, ns, j as nat),
    ensures
        a =~= b,
{
}

} // verus!
