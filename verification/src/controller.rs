//! The per-tick control decision: hysteresis and idle-settle state handling
//! around the curve lookup, the step shaper and the channel quantizer.

use vstd::prelude::*;
use crate::curve::{curve_lookup, lemma_lookup_in_range, wf_curve, CurvePoint, CurveTable};
use crate::errors::ControlError;
use crate::quantize::{quantize, spec_quantize};
use crate::shaper::{shaped_duty, spec_shaped_duty, spec_step_fraction, step_fraction};
use crate::units::{abs, abs_diff, MAX_DUTY, SCALE};

verus! {

/// A temperature→duty curve fit to drive the controller: valid as a curve,
/// with every output a duty percentage the hardware accepts.
pub open spec fn duty_curve_ok(ps: Seq<CurvePoint>) -> bool {
    &&& wf_curve(ps)
    &&& forall|i: int| 0 <= i < ps.len() ==> 0 <= #[trigger] ps[i].y <= MAX_DUTY
}

/// A gap→fraction shaping curve fit to drive the controller: valid as a
/// curve, with every output a fraction between 0 and 1 in micro-units.
pub open spec fn step_curve_ok(ps: Seq<CurvePoint>) -> bool {
    &&& wf_curve(ps)
    &&& forall|i: int| 0 <= i < ps.len() ==> 0 <= #[trigger] ps[i].y <= SCALE
}

/// When a configuration is accepted.
pub open spec fn spec_config_ok(
    curve_points: Seq<CurvePoint>,
    step_points: Seq<CurvePoint>,
    min_delta_threshold: int,
    settle_epsilon: int,
) -> bool {
    &&& duty_curve_ok(curve_points)
    &&& step_curve_ok(step_points)
    &&& min_delta_threshold >= 0
    &&& settle_epsilon >= 0
}

/// The built-in temperature→duty curve, in micro-units: 43 percent at 40
/// degrees Celsius, rising to full duty at 81 degrees.
pub open spec fn standard_curve_points() -> Seq<CurvePoint> {
    seq![
        CurvePoint { x: 40_000_000, y: 43_000_000 },
        CurvePoint { x: 63_000_000, y: 60_000_000 },
        CurvePoint { x: 75_000_000, y: 83_000_000 },
        CurvePoint { x: 81_000_000, y: 100_000_000 },
    ]
}

/// The built-in gap→fraction shaping curve: a one-point gap moves a fifth
/// of the way, a six-point gap moves all the way.
pub open spec fn standard_step_points() -> Seq<CurvePoint> {
    seq![
        CurvePoint { x: 1_000_000, y: 200_000 },
        CurvePoint { x: 6_000_000, y: 1_000_000 },
    ]
}

/// The controller's static configuration, validated once at construction.
#[derive(Debug)]
pub struct ControllerConfig {
    /// Temperature (micro-degrees) → duty (micro-percent).
    pub curve: CurveTable,
    /// Absolute duty gap (micro-percent) → step fraction (micro-units).
    pub step_curve: CurveTable,
    /// While damping, gaps at or below this are suppressed (micro-percent).
    pub min_delta_threshold: i64,
    /// Once settled, gaps at or below this are suppressed (micro-percent).
    pub settle_epsilon: i64,
    /// Quiet time after which the controller counts as settled.
    pub idle_settle_timeout_ms: u64,
    /// The polling interval between ticks.
    pub update_delay_ms: u64,
}

impl ControllerConfig {
    /// The invariant every constructed configuration satisfies.
    pub open spec fn wf(&self) -> bool {
        spec_config_ok(
            self.curve@,
            self.step_curve@,
            self.min_delta_threshold as int,
            self.settle_epsilon as int,
        )
    }

    /// Validates and assembles a configuration; anything out of shape is
    /// rejected with `ConfigInvalid`, which is fatal at startup.
    pub fn new(
        curve_points: Vec<CurvePoint>,
        step_points: Vec<CurvePoint>,
        min_delta_threshold: i64,
        settle_epsilon: i64,
        idle_settle_timeout_ms: u64,
        update_delay_ms: u64,
    ) -> (r: Result<ControllerConfig, ControlError>)
        ensures
            r matches Ok(c) ==> {
                &&& c.wf()
                &&& c.curve@ == curve_points@
                &&& c.step_curve@ == step_points@
                &&& c.min_delta_threshold == min_delta_threshold
                &&& c.settle_epsilon == settle_epsilon
                &&& c.idle_settle_timeout_ms == idle_settle_timeout_ms
                &&& c.update_delay_ms == update_delay_ms
            },
            r is Ok <==> spec_config_ok(
                curve_points@,
                step_points@,
                min_delta_threshold as int,
                settle_epsilon as int,
            ),
            r matches Err(e) ==> e == ControlError::ConfigInvalid,
    {
        if min_delta_threshold < 0 || settle_epsilon < 0 {
            return Err(ControlError::ConfigInvalid);
        }
        if !duty_range_ok(&curve_points, MAX_DUTY) {
            return Err(ControlError::ConfigInvalid);
        }
        if !duty_range_ok(&step_points, SCALE) {
            return Err(ControlError::ConfigInvalid);
        }
        let curve = match CurveTable::new(curve_points) {
            Ok(t) => t,
            Err(e) => { return Err(e) },
        };
        let step_curve = match CurveTable::new(step_points) {
            Ok(t) => t,
            Err(e) => { return Err(e) },
        };
        Ok(
            ControllerConfig {
                curve,
                step_curve,
                min_delta_threshold,
                settle_epsilon,
                idle_settle_timeout_ms,
                update_delay_ms,
            },
        )
    }

    /// The built-in configuration: the standard curves, a damping threshold
    /// of 2.1 duty points, a settle epsilon of 0.05 duty points, an
    /// idle-settle timeout of 13 seconds and a polling interval of 0.8
    /// seconds.
    pub fn standard() -> (c: ControllerConfig)
        ensures
            c.wf(),
            c.curve@ == standard_curve_points(),
            c.step_curve@ == standard_step_points(),
            c.min_delta_threshold == 2_100_000i64,
            c.settle_epsilon == 50_000i64,
            c.idle_settle_timeout_ms == 13_000u64,
            c.update_delay_ms == 800u64,
    {
        let mut curve_points: Vec<CurvePoint> = Vec::new();
        curve_points.push(CurvePoint { x: 40_000_000, y: 43_000_000 });
        curve_points.push(CurvePoint { x: 63_000_000, y: 60_000_000 });
        curve_points.push(CurvePoint { x: 75_000_000, y: 83_000_000 });
        curve_points.push(CurvePoint { x: 81_000_000, y: 100_000_000 });
        let mut step_points: Vec<CurvePoint> = Vec::new();
        step_points.push(CurvePoint { x: 1_000_000, y: 200_000 });
        step_points.push(CurvePoint { x: 6_000_000, y: 1_000_000 });
        proof {
            assert(curve_points@ =~= standard_curve_points());
            assert(step_points@ =~= standard_step_points());
        }
        let built = ControllerConfig::new(curve_points, step_points, 2_100_000, 50_000, 13_000, 800);
        match built {
            Ok(c) => c,
            Err(_) => vstd::pervasive::unreached(),
        }
    }
}

/// Whether every output of a breakpoint list lies between 0 and `hi`.
fn duty_range_ok(points: &Vec<CurvePoint>, hi: i64) -> (r: bool)
    ensures
        r == forall|i: int| 0 <= i < points@.len() ==> 0 <= #[trigger] points@[i].y <= hi,
{
    let n = points.len();
    let mut k: usize = 0;
    while k < n
        invariant
            n == points@.len(),
            k <= n,
            forall|i: int| 0 <= i < k ==> 0 <= #[trigger] points@[i].y <= hi,
        decreases n - k,
    {
        let p = points[k];
        if p.y < 0 || p.y > hi {
            return false;
        }
        k = k + 1;
    }
    true
}

/// The state the control loop owns, mutated once per tick.
pub struct ControllerState {
    /// The last commanded duty, in micro-percent; starts cold at 0.
    pub current_duty: i64,
    /// When the controller last actuated, in loop-clock milliseconds.
    pub last_actuation_at_ms: u64,
    /// The lowest duty a shaped step may land on: the primary curve's first
    /// output.
    pub min_duty_floor: i64,
}

impl ControllerState {
    /// The invariant every reachable state satisfies.
    pub open spec fn wf(&self) -> bool {
        &&& 0 <= self.current_duty <= MAX_DUTY
        &&& 0 <= self.min_duty_floor <= MAX_DUTY
    }

    /// The cold-start state: duty 0, the clock at loop start, the floor
    /// taken from the primary curve's first breakpoint.
    pub fn init(cfg: &ControllerConfig, now_ms: u64) -> (s: ControllerState)
        requires
            cfg.wf(),
        ensures
            s.current_duty == 0,
            s.last_actuation_at_ms == now_ms,
            s.min_duty_floor == cfg.curve@[0].y,
            s.wf(),
    {
        let floor = cfg.curve.point(0);
        ControllerState {
            current_duty: 0,
            last_actuation_at_ms: now_ms,
            min_duty_floor: floor.y,
        }
    }
}

/// What one tick does: either leave everything alone, or drive the duty to
/// `target` by setting the two hardware channels.
#[derive(Clone, Copy, Debug, PartialEq, Eq, Structural)]
pub enum TickAction {
    /// The change was suppressed; no actuation this tick.
    Hold,
    /// Actuate: command the two channels and, on success, commit `target`.
    Actuate { target: i64, channel_a: u8, channel_b: u8 },
}

/// Whether the controller counts as settled: more than the idle-settle
/// timeout has passed since the last actuation.
pub open spec fn spec_settled(cfg: ControllerConfig, st: ControllerState, now_ms: int) -> bool {
    now_ms - st.last_actuation_at_ms > cfg.idle_settle_timeout_ms
}

/// The suppression threshold active this tick: the tiny settle epsilon once
/// settled, the damping threshold otherwise.
pub open spec fn spec_threshold(cfg: ControllerConfig, settled: bool) -> int {
    if settled {
        cfg.settle_epsilon as int
    } else {
        cfg.min_delta_threshold as int
    }
}

/// The duty this tick would command: the desired duty itself once settled
/// (the bypass that lets the controller converge exactly), otherwise one
/// shaped step toward it.
pub open spec fn spec_candidate(
    cfg: ControllerConfig,
    st: ControllerState,
    desired: int,
    settled: bool,
) -> int {
    if settled {
        desired
    } else {
        spec_shaped_duty(
            st.current_duty as int,
            desired,
            spec_step_fraction(cfg.step_curve@, st.current_duty as int, desired),
            st.min_duty_floor as int,
        )
    }
}

/// The whole decision: `Some(target)` when the gap to the desired duty
/// clears the active threshold, `None` when the change is suppressed.
pub open spec fn spec_decision(
    cfg: ControllerConfig,
    st: ControllerState,
    desired: int,
    now_ms: int,
) -> Option<int> {
    let settled = spec_settled(cfg, st, now_ms);
    if abs(desired - st.current_duty) > spec_threshold(cfg, settled) {
        Some(spec_candidate(cfg, st, desired, settled))
    } else {
        None
    }
}

/// How a `TickAction` realizes a decision: `Hold` for a suppressed change,
/// otherwise the decided target with its two quantized channel duties.
pub open spec fn action_matches_decision(
    a: TickAction,
    decision: Option<int>,
    min_duty_floor: int,
) -> bool {
    match decision {
        None => a == TickAction::Hold,
        Some(t) => a matches TickAction::Actuate { target, channel_a, channel_b } && target == t
            && (channel_a as int, channel_b as int) == spec_quantize(t, min_duty_floor),
    }
}

/// Decides one tick, given the desired duty the curve asks for.
pub fn decide(cfg: &ControllerConfig, st: &ControllerState, desired: i64, now_ms: u64) -> (a:
    TickAction)
    requires
        cfg.wf(),
        st.wf(),
        0 <= desired <= MAX_DUTY,
        st.last_actuation_at_ms <= now_ms,
    ensures
        action_matches_decision(
            a,
            spec_decision(*cfg, *st, desired as int, now_ms as int),
            st.min_duty_floor as int,
        ),
        a matches TickAction::Actuate { target, .. } ==> 0 <= target <= MAX_DUTY,
{
    let elapsed = now_ms - st.last_actuation_at_ms;
    let settled = elapsed > cfg.idle_settle_timeout_ms;
    let threshold = if settled {
        cfg.settle_epsilon
    } else {
        cfg.min_delta_threshold
    };
    let delta = abs_diff(desired, st.current_duty);
    if delta <= threshold {
        return TickAction::Hold;
    }
    let candidate = if settled {
        desired
    } else {
        proof {
            lemma_lookup_in_range(
                cfg.step_curve@,
                abs(desired - st.current_duty),
                0,
                SCALE as int,
            );
        }
        let frac = step_fraction(&cfg.step_curve, st.current_duty, desired);
        shaped_duty(st.current_duty, desired, frac, st.min_duty_floor)
    };
    let (channel_a, channel_b) = quantize(candidate, st.min_duty_floor);
    TickAction::Actuate { target: candidate, channel_a, channel_b }
}

/// One full tick from a temperature sample: look the desired duty up in the
/// primary curve, then decide.
pub fn tick(cfg: &ControllerConfig, st: &ControllerState, temp: i64, now_ms: u64) -> (a:
    TickAction)
    requires
        cfg.wf(),
        st.wf(),
        st.last_actuation_at_ms <= now_ms,
    ensures
        action_matches_decision(
            a,
            spec_decision(*cfg, *st, curve_lookup(cfg.curve@, temp as int), now_ms as int),
            st.min_duty_floor as int,
        ),
        a matches TickAction::Actuate { target, .. } ==> 0 <= target <= MAX_DUTY,
{
    proof {
        lemma_lookup_in_range(cfg.curve@, temp as int, 0, MAX_DUTY as int);
    }
    let desired = cfg.curve.lookup(temp);
    decide(cfg, st, desired, now_ms)
}

/// Records a successful actuation: the commanded duty becomes current and
/// the settle clock restarts.
pub fn commit(st: &mut ControllerState, target: i64, now_ms: u64)
    requires
        old(st).wf(),
        0 <= target <= MAX_DUTY,
    ensures
        final(st).current_duty == target,
        final(st).last_actuation_at_ms == now_ms,
        final(st).min_duty_floor == old(st).min_duty_floor,
        final(st).wf(),
{
    st.current_duty = target;
    st.last_actuation_at_ms = now_ms;
}

/// While damping, a gap that does not clear the damping threshold is
/// suppressed: no actuation and no state change, whatever the gap's sign.
pub proof fn lemma_damping_suppression(
    cfg: ControllerConfig,
    st: ControllerState,
    desired: int,
    now_ms: int,
)
    requires
        now_ms - st.last_actuation_at_ms <= cfg.idle_settle_timeout_ms,
        abs(desired - st.current_duty) <= cfg.min_delta_threshold,
    ensures
        spec_decision(cfg, st, desired, now_ms) is None,
{
}

/// Once the idle-settle timeout has elapsed with no actuation, the next
/// desired value is applied directly — bypassing the step shaper — even when
/// the gap is smaller than the damping threshold, as long as it clears the
/// settle epsilon.
pub proof fn lemma_settle_bypass(
    cfg: ControllerConfig,
    st: ControllerState,
    desired: int,
    now_ms: int,
)
    requires
        now_ms - st.last_actuation_at_ms > cfg.idle_settle_timeout_ms,
        abs(desired - st.current_duty) > cfg.settle_epsilon,
    ensures
        spec_decision(cfg, st, desired, now_ms) == Some(desired),
{
}

/// Once the duty sits within the settle epsilon of the desired duty — and
/// the epsilon is no larger than the damping threshold — a tick never
/// actuates, at any time: repeated ticks with an unchanged temperature
/// leave the state untouched and emit no duplicate actuation.
pub proof fn lemma_tick_idempotent(
    cfg: ControllerConfig,
    st: ControllerState,
    desired: int,
    now1_ms: int,
    now2_ms: int,
)
    requires
        cfg.settle_epsilon <= cfg.min_delta_threshold,
        abs(desired - st.current_duty) <= cfg.settle_epsilon,
    ensures
        spec_decision(cfg, st, desired, now1_ms) is None,
        spec_decision(cfg, st, desired, now2_ms) is None,
{
}

} // verus!
