//! Piecewise-linear curves: ordered breakpoint tables and clamped
//! interpolating lookup.

use vstd::prelude::*;
use vstd::arithmetic::div_mod::{
    lemma_div_is_ordered, lemma_div_multiples_vanish, lemma_div_pos_is_pos,
};
use vstd::arithmetic::mul::{lemma_mul_inequality, lemma_mul_upper_bound};
use crate::errors::ControlError;
use crate::units::{COORD_LIMIT, MAX_DUTY};

verus! {

/// One breakpoint of a piecewise-linear curve, in micro-units.
#[derive(Clone, Copy, Debug, PartialEq, Eq, Structural)]
pub struct CurvePoint {
    pub x: i64,
    pub y: i64,
}

/// A coordinate small enough for the interpolation arithmetic.
pub open spec fn coord_ok(v: int) -> bool {
    -COORD_LIMIT <= v <= COORD_LIMIT
}

/// A breakpoint whose coordinates are both in range.
pub open spec fn point_ok(p: CurvePoint) -> bool {
    coord_ok(p.x as int) && coord_ok(p.y as int)
}

/// What a valid breakpoint table is: at least two breakpoints, strictly
/// increasing in `x`, every coordinate bounded.
pub open spec fn wf_curve(ps: Seq<CurvePoint>) -> bool {
    &&& ps.len() >= 2
    &&& forall|i: int| 0 <= i < ps.len() - 1 ==> #[trigger] ps[i].x < ps[i + 1].x
    &&& forall|i: int| 0 <= i < ps.len() ==> point_ok(#[trigger] ps[i])
}

/// Linear interpolation between breakpoints `p` and `q`, evaluated at `x`;
/// the quotient is truncated toward zero.
pub open spec fn seg_interp(p: CurvePoint, q: CurvePoint, x: int) -> int
    recommends
        p.x < q.x,
        p.x <= x <= q.x,
{
    let dx = q.x - p.x;
    if q.y >= p.y {
        p.y + ((q.y - p.y) * (x - p.x)) / dx
    } else {
        p.y - (((p.y - q.y) * (x - p.x)) / dx)
    }
}

/// The segment scan: the first segment `[ps[i], ps[i+1]]` whose span contains
/// `x` decides the result. If no segment matches — impossible for a valid
/// table, but kept as a deliberate fail-safe — the result is the maximum
/// duty, preferring over-cooling to under-cooling on internal inconsistency.
pub open spec fn scan_lookup(ps: Seq<CurvePoint>, x: int, i: int) -> int
    decreases ps.len() - i,
{
    if i < 0 || i + 1 >= ps.len() {
        MAX_DUTY as int
    } else if ps[i].x <= x && x <= ps[i + 1].x {
        seg_interp(ps[i], ps[i + 1], x)
    } else {
        scan_lookup(ps, x, i + 1)
    }
}

/// What a curve lookup returns: clamp outside the first and last
/// breakpoints, interpolate linearly inside.
pub open spec fn curve_lookup(ps: Seq<CurvePoint>, x: int) -> int
    recommends
        ps.len() >= 2,
{
    if x <= ps[0].x {
        ps[0].y as int
    } else if x >= ps[ps.len() - 1].x {
        ps[ps.len() - 1].y as int
    } else {
        scan_lookup(ps, x, 0)
    }
}

/// An ordered, immutable breakpoint table.
///
/// Tables that are empty, too short, unordered or out of range are rejected
/// at construction, so every `CurveTable` satisfies [`wf_curve`].
#[derive(Debug)]
pub struct CurveTable {
    points: Vec<CurvePoint>,
}

impl View for CurveTable {
    type V = Seq<CurvePoint>;

    closed spec fn view(&self) -> Seq<CurvePoint> {
        self.points@
    }
}

impl CurveTable {
    /// Every table that can be built is well formed.
    pub open spec fn wf(&self) -> bool {
        wf_curve(self@)
    }

    /// Builds a table from breakpoints; invalid breakpoint lists are
    /// rejected with `ConfigInvalid`.
    pub fn new(points: Vec<CurvePoint>) -> (r: Result<CurveTable, ControlError>)
        ensures
            r matches Ok(t) ==> t@ == points@ && wf_curve(points@),
            r matches Err(e) ==> e == ControlError::ConfigInvalid && !wf_curve(points@),
    {
        let n = points.len();
        if n < 2 {
            return Err(ControlError::ConfigInvalid);
        }
        let mut i: usize = 0;
        while i + 1 < n
            invariant
                n == points@.len(),
                n >= 2,
                i < n,
                forall|j: int| 0 <= j < i ==> #[trigger] points@[j].x < points@[j + 1].x,
            decreases n - i,
        {
            if points[i].x >= points[i + 1].x {
                return Err(ControlError::ConfigInvalid);
            }
            i = i + 1;
        }
        let mut k: usize = 0;
        while k < n
            invariant
                n == points@.len(),
                k <= n,
                forall|j: int| 0 <= j < k ==> point_ok(#[trigger] points@[j]),
            decreases n - k,
        {
            let p = points[k];
            if p.x < -COORD_LIMIT || p.x > COORD_LIMIT || p.y < -COORD_LIMIT || p.y > COORD_LIMIT {
                return Err(ControlError::ConfigInvalid);
            }
            k = k + 1;
        }
        Ok(CurveTable { points })
    }

    /// How many breakpoints the table holds.
    pub fn len(&self) -> (n: usize)
        ensures
            n == self@.len(),
    {
        self.points.len()
    }

    /// The breakpoint at a given position.
    pub fn point(&self, i: usize) -> (p: CurvePoint)
        requires
            i < self@.len(),
        ensures
            p == self@[i as int],
    {
        self.points[i]
    }

    /// Piecewise-linear lookup with clamped extrapolation: at or below the
    /// first breakpoint the first output, at or above the last breakpoint
    /// the last output, linear interpolation in between.
    pub fn lookup(&self, x: i64) -> (y: i64)
        requires
            self.wf(),
        ensures
            y == curve_lookup(self@, x as int),
    {
        let n = self.points.len();
        if x <= self.points[0].x {
            return self.points[0].y;
        }
        if x >= self.points[n - 1].x {
            return self.points[n - 1].y;
        }
        let mut i: usize = 0;
        while i + 1 < n
            invariant
                self.wf(),
                n == self@.len(),
                i + 1 <= n,
                self@[0].x < x < self@[n - 1].x,
                scan_lookup(self@, x as int, 0) == scan_lookup(self@, x as int, i as int),
            decreases n - i,
        {
            let p = self.points[i];
            let q = self.points[i + 1];
            if p.x <= x && x <= q.x {
                proof {
                    assert(point_ok(self@[i as int]));
                    assert(point_ok(self@[i as int + 1]));
                    assert(scan_lookup(self@, x as int, i as int) == seg_interp(p, q, x as int));
                }
                return interp_segment(p, q, x);
            }
            proof {
                assert(scan_lookup(self@, x as int, i as int) == scan_lookup(
                    self@,
                    x as int,
                    i as int + 1,
                ));
            }
            i = i + 1;
        }
        MAX_DUTY
    }
}

/// Evaluates one segment of the curve at `x`.
fn interp_segment(p: CurvePoint, q: CurvePoint, x: i64) -> (y: i64)
    requires
        coord_ok(p.x as int),
        coord_ok(p.y as int),
        coord_ok(q.x as int),
        coord_ok(q.y as int),
        p.x < q.x,
        p.x <= x <= q.x,
    ensures
        y == seg_interp(p, q, x as int),
{
    let dx = q.x - p.x;
    let off = x - p.x;
    if q.y >= p.y {
        let dy = q.y - p.y;
        proof {
            lemma_mul_upper_bound(dy as int, 2 * (COORD_LIMIT as int), off as int, 2 * (
            COORD_LIMIT as int));
        }
        let num: u128 = (dy as u128) * (off as u128);
        let quot: u128 = num / (dx as u128);
        proof {
            lemma_interp_quotient_bounds(dy as int, off as int, dx as int);
        }
        p.y + (quot as i64)
    } else {
        let dy = p.y - q.y;
        proof {
            lemma_mul_upper_bound(dy as int, 2 * (COORD_LIMIT as int), off as int, 2 * (
            COORD_LIMIT as int));
        }
        let num: u128 = (dy as u128) * (off as u128);
        let quot: u128 = num / (dx as u128);
        proof {
            lemma_interp_quotient_bounds(dy as int, off as int, dx as int);
        }
        p.y - (quot as i64)
    }
}

/// A curve whose outputs never decrease from one breakpoint to the next.
pub open spec fn y_nondecreasing(ps: Seq<CurvePoint>) -> bool {
    forall|i: int| 0 <= i < ps.len() - 1 ==> #[trigger] ps[i].y <= ps[i + 1].y
}

/// The index of the segment the scan settles on: the first segment at or
/// after `i` whose span contains `x`.
pub open spec fn seg_of(ps: Seq<CurvePoint>, x: int, i: int) -> int
    decreases ps.len() - i,
{
    if i < 0 || i + 1 >= ps.len() {
        i
    } else if ps[i].x <= x && x <= ps[i + 1].x {
        i
    } else {
        seg_of(ps, x, i + 1)
    }
}

/// In a valid table the breakpoint inputs grow with the index.
pub proof fn lemma_x_chain(ps: Seq<CurvePoint>, i: int, j: int)
    requires
        wf_curve(ps),
        0 <= i <= j < ps.len(),
    ensures
        ps[i].x <= ps[j].x,
    decreases j - i,
{
    if i < j {
        lemma_x_chain(ps, i, j - 1);
        assert(ps[j - 1].x < ps[j].x);
    }
}

/// In a table with non-decreasing outputs the outputs grow with the index.
pub proof fn lemma_y_chain(ps: Seq<CurvePoint>, i: int, j: int)
    requires
        y_nondecreasing(ps),
        0 <= i <= j < ps.len(),
    ensures
        ps[i].y <= ps[j].y,
    decreases j - i,
{
    if i < j {
        lemma_y_chain(ps, i, j - 1);
        assert(ps[j - 1].y <= ps[j].y);
    }
}

/// For an input strictly inside a valid table, the scan always settles on a
/// real segment — the fail-safe branch is unreachable — and that segment's
/// span contains the input.
pub proof fn lemma_scan_characterize(ps: Seq<CurvePoint>, x: int, i: int)
    requires
        wf_curve(ps),
        0 <= i < ps.len() - 1,
        ps[i].x < x,
        x < ps[ps.len() - 1].x,
    ensures
        ({
            let j = seg_of(ps, x, i);
            &&& i <= j < ps.len() - 1
            &&& ps[j].x < x <= ps[j + 1].x
            &&& scan_lookup(ps, x, i) == seg_interp(ps[j], ps[j + 1], x)
        }),
    decreases ps.len() - i,
{
    if ps[i].x <= x && x <= ps[i + 1].x {
    } else {
        assert(x > ps[i + 1].x);
        assert(i + 1 < ps.len() - 1);
        lemma_scan_characterize(ps, x, i + 1);
    }
}

/// A segment's interpolation stays between its two endpoint outputs.
pub proof fn lemma_seg_interp_bounds(p: CurvePoint, q: CurvePoint, x: int)
    requires
        p.x < q.x,
        p.x <= x <= q.x,
    ensures
        p.y <= q.y ==> p.y <= seg_interp(p, q, x) <= q.y,
        p.y > q.y ==> q.y <= seg_interp(p, q, x) <= p.y,
{
    if p.y <= q.y {
        lemma_interp_quotient_bounds(q.y - p.y, x - p.x, q.x - p.x);
    } else {
        lemma_interp_quotient_bounds(p.y - q.y, x - p.x, q.x - p.x);
    }
}

/// On a rising segment, interpolation is non-decreasing in the input.
pub proof fn lemma_seg_interp_monotone(p: CurvePoint, q: CurvePoint, xa: int, xb: int)
    requires
        p.x < q.x,
        p.y <= q.y,
        p.x <= xa <= xb <= q.x,
    ensures
        seg_interp(p, q, xa) <= seg_interp(p, q, xb),
{
    let dy = q.y - p.y;
    let dx = q.x - p.x;
    lemma_mul_inequality(xa - p.x, xb - p.x, dy);
    assert(dy * (xa - p.x) == (xa - p.x) * dy) by (nonlinear_arith);
    assert(dy * (xb - p.x) == (xb - p.x) * dy) by (nonlinear_arith);
    lemma_div_is_ordered(dy * (xa - p.x), dy * (xb - p.x), dx);
}

/// Looking a breakpoint's own input up returns that breakpoint's output
/// exactly: no interpolation error at the table's nodes.
pub proof fn lemma_lookup_at_breakpoint(ps: Seq<CurvePoint>, i: int)
    requires
        wf_curve(ps),
        0 <= i < ps.len(),
    ensures
        curve_lookup(ps, ps[i].x as int) == ps[i].y,
{
    let x = ps[i].x as int;
    let last = ps.len() - 1;
    if i == 0 {
    } else if i == last {
        lemma_x_chain(ps, 0, last - 1);
        assert(ps[last - 1].x < ps[last].x);
    } else {
        lemma_x_chain(ps, 0, i - 1);
        assert(ps[i - 1].x < ps[i].x);
        assert(ps[i].x < ps[i + 1].x);
        lemma_x_chain(ps, i + 1, last);
        lemma_scan_characterize(ps, x, 0);
        let j = seg_of(ps, x, 0);
        if j + 1 < i {
            lemma_x_chain(ps, j + 1, i - 1);
            assert(false);
        }
        if j + 1 > i {
            lemma_x_chain(ps, i, j);
            assert(false);
        }
        lemma_seg_interp_at_right_end(ps[j], ps[j + 1]);
    }
}

/// Evaluated at its right endpoint, a segment returns that endpoint's
/// output exactly.
proof fn lemma_seg_interp_at_right_end(p: CurvePoint, q: CurvePoint)
    requires
        p.x < q.x,
    ensures
        seg_interp(p, q, q.x as int) == q.y,
{
    let dx = q.x - p.x;
    if q.y >= p.y {
        assert((q.y - p.y) * dx == dx * (q.y - p.y)) by (nonlinear_arith);
        lemma_div_multiples_vanish(q.y - p.y, dx);
    } else {
        assert((p.y - q.y) * dx == dx * (p.y - q.y)) by (nonlinear_arith);
        lemma_div_multiples_vanish(p.y - q.y, dx);
    }
}

/// A lookup never leaves the range spanned by the table's outputs.
pub proof fn lemma_lookup_in_range(ps: Seq<CurvePoint>, x: int, lo: int, hi: int)
    requires
        wf_curve(ps),
        forall|i: int| 0 <= i < ps.len() ==> lo <= #[trigger] ps[i].y <= hi,
    ensures
        lo <= curve_lookup(ps, x) <= hi,
{
    if x <= ps[0].x {
    } else if x >= ps[ps.len() - 1].x {
    } else {
        lemma_scan_characterize(ps, x, 0);
        let j = seg_of(ps, x, 0);
        lemma_seg_interp_bounds(ps[j], ps[j + 1], x);
    }
}

/// For every table whose outputs never decrease, the lookup is
/// non-decreasing in its input: a hotter reading never asks for less duty.
pub proof fn lemma_lookup_monotone(ps: Seq<CurvePoint>, x1: int, x2: int)
    requires
        wf_curve(ps),
        y_nondecreasing(ps),
        x1 <= x2,
    ensures
        curve_lookup(ps, x1) <= curve_lookup(ps, x2),
{
    let last = ps.len() - 1;
    if x1 <= ps[0].x {
        assert forall|i: int| 0 <= i < ps.len() implies ps[0].y <= #[trigger] ps[i].y
            <= ps[last].y by {
            lemma_y_chain(ps, 0, i);
            lemma_y_chain(ps, i, last);
        }
        lemma_lookup_in_range(ps, x2, ps[0].y as int, ps[last].y as int);
    } else if x1 >= ps[last].x {
        assert(x2 >= ps[last].x);
    } else if x2 >= ps[last].x {
        lemma_scan_characterize(ps, x1, 0);
        let j1 = seg_of(ps, x1, 0);
        lemma_y_chain(ps, j1, j1 + 1);
        lemma_seg_interp_bounds(ps[j1], ps[j1 + 1], x1);
        lemma_y_chain(ps, j1 + 1, last);
    } else {
        lemma_scan_characterize(ps, x1, 0);
        lemma_scan_characterize(ps, x2, 0);
        let j1 = seg_of(ps, x1, 0);
        let j2 = seg_of(ps, x2, 0);
        if j2 < j1 {
            lemma_x_chain(ps, j2 + 1, j1);
            assert(false);
        }
        if j1 == j2 {
            lemma_y_chain(ps, j1, j1 + 1);
            lemma_seg_interp_monotone(ps[j1], ps[j1 + 1], x1, x2);
        } else {
            lemma_y_chain(ps, j1, j1 + 1);
            lemma_y_chain(ps, j2, j2 + 1);
            lemma_seg_interp_bounds(ps[j1], ps[j1 + 1], x1);
            lemma_seg_interp_bounds(ps[j2], ps[j2 + 1], x2);
            lemma_y_chain(ps, j1 + 1, j2);
        }
    }
}

/// Scaling a non-negative rise `dy` by a part `off` of a whole `dx` and
/// truncating keeps the result between 0 and `dy`.
pub proof fn lemma_interp_quotient_bounds(dy: int, off: int, dx: int)
    requires
        0 <= dy,
        0 < dx,
        0 <= off <= dx,
    ensures
        0 <= (dy * off) / dx <= dy,
{
    lemma_div_pos_is_pos(dy * off, dx);
    lemma_mul_inequality(off, dx, dy);
    assert(dy * off == off * dy) by (nonlinear_arith);
    assert(dy * dx == dx * dy) by (nonlinear_arith);
    lemma_div_is_ordered(dy * off, dx * dy, dx);
    lemma_div_multiples_vanish(dy, dx);
}

} // verus!
