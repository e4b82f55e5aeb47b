//! Piecewise cubic Bezier paths in fixed-point arithmetic.
//!
//! A path is a closed loop of control points; a parameter in `[0, UNIT)`
//! selects a segment and a local position on it, and the segment is
//! evaluated with the standard cubic Bernstein basis. All arithmetic is
//! exact integer arithmetic: a weighted numerator is accumulated in wide
//! integers and floor-divided by the basis scale once per axis.

use vstd::prelude::*;
use vstd::arithmetic::div_mod::{lemma_div_is_ordered, lemma_div_multiples_vanish};
use crate::range01::UNIT;
use crate::geom::{Vec3, COORD_LIMIT};

verus! {

/// The scale of a degree-two Bernstein numerator: `UNIT` squared.
pub const UNIT2: i64 = 12960000;

/// The scale of a degree-three Bernstein numerator: `UNIT` cubed.
pub const UNIT3: i64 = 46656000000;

/// Numerator of linear interpolation between `p1` and `p2` at `t`.
pub open spec fn linear_num(p1: int, p2: int, t: int) -> int {
    (UNIT - t) * p1 + t * p2
}

/// Linear interpolation between `p1` and `p2` at `t`, on the `UNIT` scale.
pub open spec fn linear_val(p1: int, p2: int, t: int) -> int {
    linear_num(p1, p2, t) / (UNIT as int)
}

/// Numerator of the quadratic Bernstein combination at `t`.
pub open spec fn quadratic_num(p1: int, p2: int, p3: int, t: int) -> int {
    let c = UNIT - t;
    c * c * p1 + 2 * c * t * p2 + t * t * p3
}

/// Quadratic Bezier value at `t`, on the `UNIT` scale.
pub open spec fn quadratic_val(p1: int, p2: int, p3: int, t: int) -> int {
    quadratic_num(p1, p2, p3, t) / (UNIT2 as int)
}

/// Numerator of the cubic Bernstein combination at `t`.
pub open spec fn cubic_num(p1: int, p2: int, p3: int, p4: int, t: int) -> int {
    let c = UNIT - t;
    c * c * c * p1 + 3 * c * c * t * p2 + 3 * c * t * t * p3 + t * t * t * p4
}

/// Cubic Bezier value at `t`, on the `UNIT` scale.
pub open spec fn cubic_val(p1: int, p2: int, p3: int, p4: int, t: int) -> int {
    cubic_num(p1, p2, p3, p4, t) / (UNIT3 as int)
}

/// A nonnegative weighted sum of bounded values is bounded by the weight
/// total times the value bound.
proof fn lemma_weighted_sum_bound(
    w1: int, w2: int, w3: int, w4: int,
    p1: int, p2: int, p3: int, p4: int,
    l: int,
)
    requires
        w1 >= 0,
        w2 >= 0,
        w3 >= 0,
        w4 >= 0,
        -l <= p1 <= l,
        -l <= p2 <= l,
        -l <= p3 <= l,
        -l <= p4 <= l,
    ensures
        -((w1 + w2 + w3 + w4) * l) <= w1 * p1 + w2 * p2 + w3 * p3 + w4 * p4
            <= (w1 + w2 + w3 + w4) * l,
{
    assert(-(w1 * l) <= w1 * p1 <= w1 * l) by (nonlinear_arith)
        requires w1 >= 0, -l <= p1 <= l;
    assert(-(w2 * l) <= w2 * p2 <= w2 * l) by (nonlinear_arith)
        requires w2 >= 0, -l <= p2 <= l;
    assert(-(w3 * l) <= w3 * p3 <= w3 * l) by (nonlinear_arith)
        requires w3 >= 0, -l <= p3 <= l;
    assert(-(w4 * l) <= w4 * p4 <= w4 * l) by (nonlinear_arith)
        requires w4 >= 0, -l <= p4 <= l;
    assert((w1 + w2 + w3 + w4) * l == w1 * l + w2 * l + w3 * l + w4 * l) by (nonlinear_arith);
}

/// The cubic Bernstein weights partition the cube of the whole range.
proof fn lemma_cube_partition(c: int, t: int, s: int)
    requires
        c == s - t,
    ensures
        c * c * c + 3 * c * c * t + 3 * c * t * t + t * t * t == s * s * s,
{
    assert(c * c * c + 3 * c * c * t + 3 * c * t * t + t * t * t == s * s * s)
        by (nonlinear_arith)
        requires c == s - t;
}

/// The quadratic Bernstein weights partition the square of the whole range.
proof fn lemma_square_partition(c: int, t: int, s: int)
    requires
        c == s - t,
    ensures
        c * c + 2 * c * t + t * t == s * s,
{
    assert(c * c + 2 * c * t + t * t == s * s) by (nonlinear_arith)
        requires c == s - t;
}

/// The cubic Bernstein weights at a parameter inside the range are all
/// nonnegative.
proof fn lemma_cubic_weights_nonneg(c: int, t: int)
    requires
        c >= 0,
        t >= 0,
    ensures
        c * c * c >= 0,
        3 * c * c * t >= 0,
        3 * c * t * t >= 0,
        t * t * t >= 0,
{
    assert(c * c * c >= 0 && 3 * c * c * t >= 0 && 3 * c * t * t >= 0 && t * t * t >= 0)
        by (nonlinear_arith)
        requires c >= 0, t >= 0;
}

/// A cubic Bernstein numerator of bounded control values is bounded by the
/// full scale times that bound.
proof fn lemma_cubic_num_bound(p1: int, p2: int, p3: int, p4: int, t: int, l: int)
    requires
        0 <= t <= UNIT,
        0 <= l,
        -l <= p1 <= l,
        -l <= p2 <= l,
        -l <= p3 <= l,
        -l <= p4 <= l,
    ensures
        -((UNIT3 as int) * l) <= cubic_num(p1, p2, p3, p4, t) <= (UNIT3 as int) * l,
{
    let c = (UNIT as int) - t;
    lemma_cubic_weights_nonneg(c, t);
    lemma_cube_partition(c, t, UNIT as int);
    lemma_weighted_sum_bound(c * c * c, 3 * c * c * t, 3 * c * t * t, t * t * t,
        p1, p2, p3, p4, l);
}

/// A cubic Bezier value stays within the bound of its control values.
pub proof fn lemma_cubic_val_bound(p1: int, p2: int, p3: int, p4: int, t: int, l: int)
    requires
        0 <= t <= UNIT,
        0 <= l,
        -l <= p1 <= l,
        -l <= p2 <= l,
        -l <= p3 <= l,
        -l <= p4 <= l,
    ensures
        -l <= cubic_val(p1, p2, p3, p4, t) <= l,
{
    lemma_cubic_num_bound(p1, p2, p3, p4, t, l);
    let num = cubic_num(p1, p2, p3, p4, t);
    lemma_div_is_ordered(num, (UNIT3 as int) * l, UNIT3 as int);
    lemma_div_is_ordered((UNIT3 as int) * (-l), num, UNIT3 as int);
    lemma_div_multiples_vanish(l, UNIT3 as int);
    lemma_div_multiples_vanish(-l, UNIT3 as int);
}

/// A linear interpolation of values inside the turn range stays inside
/// the turn range.
pub proof fn lemma_linear_val_range(p1: int, p2: int, t: int)
    requires
        0 <= t <= UNIT,
        0 <= p1 <= UNIT,
        0 <= p2 <= UNIT,
    ensures
        0 <= linear_val(p1, p2, t) <= UNIT,
{
    let c = (UNIT as int) - t;
    assert(c * p1 >= 0 && t * p2 >= 0) by (nonlinear_arith)
        requires c >= 0, t >= 0, p1 >= 0, p2 >= 0;
    assert(c * p1 <= c * (UNIT as int) && t * p2 <= t * (UNIT as int)) by (nonlinear_arith)
        requires c >= 0, t >= 0, p1 <= UNIT as int, p2 <= UNIT as int;
    let num = linear_num(p1, p2, t);
    lemma_div_is_ordered(0, num, UNIT as int);
    lemma_div_is_ordered(num, (UNIT as int) * (UNIT as int), UNIT as int);
    lemma_div_multiples_vanish(UNIT as int, UNIT as int);
    lemma_div_multiples_vanish(0, UNIT as int);
}

/// At the ends of its parameter range a cubic Bezier meets its first and
/// last control value exactly.
pub proof fn lemma_cubic_val_ends(p1: int, p2: int, p3: int, p4: int)
    ensures
        cubic_val(p1, p2, p3, p4, 0) == p1,
        cubic_val(p1, p2, p3, p4, UNIT as int) == p4,
{
    let u = UNIT as int;
    assert(u * u * u * p1 == 46656000000 * p1) by (nonlinear_arith)
        requires u == 3600;
    assert(3 * u * u * 0 * p2 == 0 && 3 * u * 0 * 0 * p3 == 0 && 0 * 0 * 0 * p4 == 0)
        by (nonlinear_arith);
    assert(cubic_num(p1, p2, p3, p4, 0) == (UNIT3 as int) * p1);
    assert(0 * 0 * 0 * p1 == 0 && 3 * 0 * 0 * u * p2 == 0 && 3 * 0 * u * u * p3 == 0)
        by (nonlinear_arith);
    assert(u * u * u * p4 == 46656000000 * p4) by (nonlinear_arith)
        requires u == 3600;
    assert(cubic_num(p1, p2, p3, p4, u) == (UNIT3 as int) * p4);
    lemma_div_multiples_vanish(p1, UNIT3 as int);
    lemma_div_multiples_vanish(p4, UNIT3 as int);
}

/// Product of a small nonnegative weight and a bounded value, in wide
/// arithmetic.
fn mul_weight(w: u64, p: i64) -> (r: i128)
    requires
        w <= 3 * (UNIT3 as int),
        -COORD_LIMIT <= p <= COORD_LIMIT,
    ensures
        r == w * p,
        -(3 * (UNIT3 as int) * (COORD_LIMIT as int)) <= r
            <= 3 * (UNIT3 as int) * (COORD_LIMIT as int),
{
    proof {
        assert(-(3 * (UNIT3 as int) * (COORD_LIMIT as int)) <= (w as int) * (p as int)
            <= 3 * (UNIT3 as int) * (COORD_LIMIT as int)) by (nonlinear_arith)
            requires
                0 <= w as int <= 3 * (UNIT3 as int),
                -(COORD_LIMIT as int) <= p as int <= COORD_LIMIT as int,
        ;
    }
    (w as i128) * (p as i128)
}

/// Floor division of a wide numerator by a positive scale, with the
/// quotient known to fit the coordinate type.
fn div_scale(num: i128, scale: i64) -> (r: i64)
    requires
        scale > 0,
        i64::MIN <= (num as int) / (scale as int) <= i64::MAX,
    ensures
        r == (num as int) / (scale as int),
{
    match num.checked_div_euclid(scale as i128) {
        Some(q) => q as i64,
        None => {
            proof {
                assert(false);
            }
            0
        }
    }
}

/// Linear interpolation from `p1` to `p2` at `t` on the `UNIT` scale.
pub fn linear(p1: i64, p2: i64, t: u32) -> (r: i64)
    requires
        t <= UNIT,
        -COORD_LIMIT <= p1 <= COORD_LIMIT,
        -COORD_LIMIT <= p2 <= COORD_LIMIT,
    ensures
        r == linear_val(p1 as int, p2 as int, t as int),
        -COORD_LIMIT <= r <= COORD_LIMIT,
{
    let c: u32 = UNIT - t;
    let num = mul_weight(c as u64, p1) + mul_weight(t as u64, p2);
    proof {
        lemma_weighted_sum_bound(c as int, t as int, 0, 0, p1 as int, p2 as int, 0, 0,
            COORD_LIMIT as int);
        assert(num == linear_num(p1 as int, p2 as int, t as int));
        lemma_div_is_ordered(num as int, (UNIT as int) * (COORD_LIMIT as int), UNIT as int);
        lemma_div_is_ordered((UNIT as int) * (-(COORD_LIMIT as int)), num as int, UNIT as int);
        lemma_div_multiples_vanish(COORD_LIMIT as int, UNIT as int);
        lemma_div_multiples_vanish(-(COORD_LIMIT as int), UNIT as int);
    }
    div_scale(num, UNIT as i64)
}

/// Quadratic Bezier value at `t` on the `UNIT` scale.
pub fn quadratic(p1: i64, p2: i64, p3: i64, t: u32) -> (r: i64)
    requires
        t <= UNIT,
        -COORD_LIMIT <= p1 <= COORD_LIMIT,
        -COORD_LIMIT <= p2 <= COORD_LIMIT,
        -COORD_LIMIT <= p3 <= COORD_LIMIT,
    ensures
        r == quadratic_val(p1 as int, p2 as int, p3 as int, t as int),
        -COORD_LIMIT <= r <= COORD_LIMIT,
{
    let c: u32 = UNIT - t;
    let cw: u64 = c as u64;
    let tw: u64 = t as u64;
    proof {
        assert(cw * cw <= 12960000 && cw * tw <= 12960000 && tw * tw <= 12960000)
            by (nonlinear_arith)
            requires 0 <= cw as int <= 3600, 0 <= tw as int <= 3600;
    }
    let w1: u64 = cw * cw;
    let w2: u64 = 2 * (cw * tw);
    let w3: u64 = tw * tw;
    let num = mul_weight(w1, p1) + mul_weight(w2, p2) + mul_weight(w3, p3);
    proof {
        let ci = c as int;
        let ti = t as int;
        assert(2 * (ci * ti) == 2 * ci * ti) by (nonlinear_arith);
        assert(num == quadratic_num(p1 as int, p2 as int, p3 as int, ti));
        lemma_cubic_weights_nonneg(ci, ti);
        assert(ci * ci >= 0 && 2 * ci * ti >= 0 && ti * ti >= 0) by (nonlinear_arith)
            requires ci >= 0, ti >= 0;
        lemma_square_partition(ci, ti, UNIT as int);
        lemma_weighted_sum_bound(ci * ci, 2 * ci * ti, ti * ti, 0,
            p1 as int, p2 as int, p3 as int, 0, COORD_LIMIT as int);
        lemma_div_is_ordered(num as int, (UNIT2 as int) * (COORD_LIMIT as int), UNIT2 as int);
        lemma_div_is_ordered((UNIT2 as int) * (-(COORD_LIMIT as int)), num as int,
            UNIT2 as int);
        lemma_div_multiples_vanish(COORD_LIMIT as int, UNIT2 as int);
        lemma_div_multiples_vanish(-(COORD_LIMIT as int), UNIT2 as int);
    }
    div_scale(num, UNIT2)
}

/// Cubic Bezier value at `t` on the `UNIT` scale.
pub fn cubic(p1: i64, p2: i64, p3: i64, p4: i64, t: u32) -> (r: i64)
    requires
        t <= UNIT,
        -COORD_LIMIT <= p1 <= COORD_LIMIT,
        -COORD_LIMIT <= p2 <= COORD_LIMIT,
        -COORD_LIMIT <= p3 <= COORD_LIMIT,
        -COORD_LIMIT <= p4 <= COORD_LIMIT,
    ensures
        r == cubic_val(p1 as int, p2 as int, p3 as int, p4 as int, t as int),
        -COORD_LIMIT <= r <= COORD_LIMIT,
{
    let c: u32 = UNIT - t;
    let cw: u64 = c as u64;
    let tw: u64 = t as u64;
    proof {
        assert(cw * cw <= 12960000 && cw * tw <= 12960000 && tw * tw <= 12960000)
            by (nonlinear_arith)
            requires 0 <= cw as int <= 3600, 0 <= tw as int <= 3600;
    }
    let c2: u64 = cw * cw;
    let ct: u64 = cw * tw;
    let t2: u64 = tw * tw;
    proof {
        assert(c2 * cw <= 3 * 46656000000 && 3 * (ct * cw) <= 3 * 46656000000
            && 3 * (ct * tw) <= 3 * 46656000000 && t2 * tw <= 3 * 46656000000)
            by (nonlinear_arith)
            requires
                0 <= cw as int <= 3600,
                0 <= tw as int <= 3600,
                c2 == cw as int * cw as int,
                ct == cw as int * tw as int,
                t2 == tw as int * tw as int,
        ;
    }
    let w1: u64 = c2 * cw;
    let w2: u64 = 3 * (ct * cw);
    let w3: u64 = 3 * (ct * tw);
    let w4: u64 = t2 * tw;
    let num = mul_weight(w1, p1) + mul_weight(w2, p2) + mul_weight(w3, p3)
        + mul_weight(w4, p4);
    proof {
        let ci = c as int;
        let ti = t as int;
        assert(3 * ((ci * ti) * ci) == 3 * ci * ci * ti) by (nonlinear_arith);
        assert(3 * ((ci * ti) * ti) == 3 * ci * ti * ti) by (nonlinear_arith);
        assert(num == cubic_num(p1 as int, p2 as int, p3 as int, p4 as int, ti));
        lemma_cubic_val_bound(p1 as int, p2 as int, p3 as int, p4 as int, ti,
            COORD_LIMIT as int);
    }
    div_scale(num, UNIT3)
}

/// One control point of a path: the point the curve passes through,
/// together with its incoming and outgoing tangent handle points.
#[derive(Clone, Copy, Debug, PartialEq, Eq, Structural)]
pub struct ControlPoint {
    pub backward: Vec3,
    pub origin: Vec3,
    pub forward: Vec3,
}

impl ControlPoint {
    /// All three points within the geometry bound.
    pub open spec fn in_limit(self) -> bool {
        self.backward.in_limit() && self.origin.in_limit() && self.forward.in_limit()
    }

    /// The mirror image of a control point: tangent roles swapped.
    pub open spec fn flipped(self) -> ControlPoint {
        ControlPoint { backward: self.forward, origin: self.origin, forward: self.backward }
    }
}

/// A closed piecewise-cubic Bezier path through a loop of control points.
#[derive(Clone, Debug)]
pub struct Path {
    pub cp: Vec<ControlPoint>,
}

/// A path is well formed when it has at least one control point, few
/// enough for index arithmetic, all within the geometry bound.
pub open spec fn path_wf(s: Seq<ControlPoint>) -> bool {
    &&& 1 <= s.len() <= 1000
    &&& forall|i: int| 0 <= i < s.len() ==> (#[trigger] s[i]).in_limit()
}

/// The control point a segment leads to: the next one around the loop.
pub open spec fn next_cp(s: Seq<ControlPoint>, i: int) -> ControlPoint {
    if i >= s.len() - 1 {
        s[0]
    } else {
        s[i + 1]
    }
}

/// Which segment a path parameter falls in.
pub open spec fn seg_index(s: Seq<ControlPoint>, t: int) -> int {
    ((t * s.len()) / (UNIT as int)) % (s.len() as int)
}

/// The local Bezier parameter within the segment.
pub open spec fn seg_local(s: Seq<ControlPoint>, t: int) -> int {
    (t * s.len()) % (UNIT as int)
}

/// X coordinate of the cubic Bezier between two control points, taking
/// the outgoing tangent of `from` and the incoming tangent of `to`.
pub open spec fn segment_x(from: ControlPoint, to: ControlPoint, u: int) -> int {
    cubic_val(from.origin.x as int, from.forward.x as int, to.backward.x as int,
        to.origin.x as int, u)
}

/// Y coordinate of the segment curve.
pub open spec fn segment_y(from: ControlPoint, to: ControlPoint, u: int) -> int {
    cubic_val(from.origin.y as int, from.forward.y as int, to.backward.y as int,
        to.origin.y as int, u)
}

/// Z coordinate of the segment curve.
pub open spec fn segment_z(from: ControlPoint, to: ControlPoint, u: int) -> int {
    cubic_val(from.origin.z as int, from.forward.z as int, to.backward.z as int,
        to.origin.z as int, u)
}

/// X coordinate of the whole path at a parameter in `[0, UNIT)`.
pub open spec fn path_eval_x(s: Seq<ControlPoint>, t: int) -> int {
    segment_x(s[seg_index(s, t)], next_cp(s, seg_index(s, t)), seg_local(s, t))
}

/// Y coordinate of the whole path at a parameter.
pub open spec fn path_eval_y(s: Seq<ControlPoint>, t: int) -> int {
    segment_y(s[seg_index(s, t)], next_cp(s, seg_index(s, t)), seg_local(s, t))
}

/// Z coordinate of the whole path at a parameter.
pub open spec fn path_eval_z(s: Seq<ControlPoint>, t: int) -> int {
    segment_z(s[seg_index(s, t)], next_cp(s, seg_index(s, t)), seg_local(s, t))
}

/// The reversed path: control points in opposite order, each with its
/// tangent roles swapped.
pub open spec fn reverse_spec(s: Seq<ControlPoint>) -> Seq<ControlPoint> {
    Seq::new(s.len(), |i: int| s[s.len() - 1 - i].flipped())
}

/// Evaluate the cubic segment between two control points.
pub fn segment_point(from: &ControlPoint, to: &ControlPoint, u: u32) -> (r: Vec3)
    requires
        u <= UNIT,
        from.in_limit(),
        to.in_limit(),
    ensures
        r.x == segment_x(*from, *to, u as int),
        r.y == segment_y(*from, *to, u as int),
        r.z == segment_z(*from, *to, u as int),
        r.in_limit(),
{
    Vec3 {
        x: cubic(from.origin.x, from.forward.x, to.backward.x, to.origin.x, u),
        y: cubic(from.origin.y, from.forward.y, to.backward.y, to.origin.y, u),
        z: cubic(from.origin.z, from.forward.z, to.backward.z, to.origin.z, u),
    }
}

impl Path {
    /// Evaluate the path at a parameter in `[0, UNIT)`: pick the segment
    /// the parameter falls in and evaluate its cubic at the local offset.
    pub fn evaluate(&self, t: u32) -> (r: Vec3)
        requires
            path_wf(self.cp@),
            t < UNIT,
        ensures
            r.x == path_eval_x(self.cp@, t as int),
            r.y == path_eval_y(self.cp@, t as int),
            r.z == path_eval_z(self.cp@, t as int),
            r.in_limit(),
    {
        let n = self.cp.len();
        proof {
            assert((t as int) * (n as int) <= 3600 * 1000) by (nonlinear_arith)
                requires 0 <= t as int <= 3600, 0 <= n as int <= 1000;
        }
        let m: u64 = (t as u64) * (n as u64);
        let i: usize = ((m / (UNIT as u64)) % (n as u64)) as usize;
        let u: u32 = (m % (UNIT as u64)) as u32;
        let from = &self.cp[i];
        let to = if i >= n - 1 {
            &self.cp[0]
        } else {
            &self.cp[i + 1]
        };
        segment_point(from, to, u)
    }

    /// Reverse the path in place: opposite point order, each point's
    /// tangent roles swapped. Used once at setup to derive a mirrored
    /// track without re-specifying its constants.
    pub fn reverse(&mut self)
        ensures
            final(self).cp@ == reverse_spec(old(self).cp@),
    {
        let n = self.cp.len();
        let mut out: Vec<ControlPoint> = Vec::new();
        let mut i: usize = n;
        while i > 0
            invariant
                i <= n,
                self.cp@ == old(self).cp@,
                n == self.cp@.len(),
                out@.len() == n - i,
                forall|k: int| 0 <= k < out@.len()
                    ==> out@[k] == (#[trigger] self.cp@[n - 1 - k]).flipped(),
            decreases i,
        {
            i = i - 1;
            let c = self.cp[i];
            out.push(ControlPoint { backward: c.forward, origin: c.origin, forward: c.backward });
        }
        self.cp = out;
        proof {
            assert(self.cp@ =~= reverse_spec(old(self).cp@));
        }
    }
}

/// Reversing a path twice restores every control point exactly, so the
/// doubly reversed path evaluates to the same positions as the original.
pub proof fn lemma_reverse_involution(s: Seq<ControlPoint>)
    ensures
        reverse_spec(reverse_spec(s)) == s,
{
    assert(reverse_spec(reverse_spec(s)) =~= s);
}

/// A well-formed loop of control points is a closed curve: the path
/// starts at the first control point's origin, and each segment — the
/// wrap-around segment included — ends exactly at the origin of the
/// control point the next segment starts from.
pub proof fn lemma_path_closure(s: Seq<ControlPoint>)
    requires
        path_wf(s),
    ensures
        path_eval_x(s, 0) == s[0].origin.x,
        path_eval_y(s, 0) == s[0].origin.y,
        path_eval_z(s, 0) == s[0].origin.z,
        forall|i: int| 0 <= i < s.len()
            ==> segment_x(s[i], #[trigger] next_cp(s, i), UNIT as int) == next_cp(s, i).origin.x
                && segment_y(s[i], next_cp(s, i), UNIT as int) == next_cp(s, i).origin.y
                && segment_z(s[i], next_cp(s, i), UNIT as int) == next_cp(s, i).origin.z,
{
    assert((0int) * (s.len() as int) == 0) by (nonlinear_arith);
    vstd::arithmetic::div_mod::lemma_small_mod(0nat, s.len());
    assert(seg_index(s, 0) == 0);
    assert(seg_local(s, 0) == 0);
    lemma_cubic_val_ends(s[0].origin.x as int, s[0].forward.x as int,
        next_cp(s, 0).backward.x as int, next_cp(s, 0).origin.x as int);
    lemma_cubic_val_ends(s[0].origin.y as int, s[0].forward.y as int,
        next_cp(s, 0).backward.y as int, next_cp(s, 0).origin.y as int);
    lemma_cubic_val_ends(s[0].origin.z as int, s[0].forward.z as int,
        next_cp(s, 0).backward.z as int, next_cp(s, 0).origin.z as int);
    assert forall|i: int| 0 <= i < s.len()
        implies segment_x(s[i], #[trigger] next_cp(s, i), UNIT as int) == next_cp(s, i).origin.x
            && segment_y(s[i], next_cp(s, i), UNIT as int) == next_cp(s, i).origin.y
            && segment_z(s[i], next_cp(s, i), UNIT as int) == next_cp(s, i).origin.z by {
        lemma_cubic_val_ends(s[i].origin.x as int, s[i].forward.x as int,
            next_cp(s, i).backward.x as int, next_cp(s, i).origin.x as int);
        lemma_cubic_val_ends(s[i].origin.y as int, s[i].forward.y as int,
            next_cp(s, i).backward.y as int, next_cp(s, i).origin.y as int);
        lemma_cubic_val_ends(s[i].origin.z as int, s[i].forward.z as int,
            next_cp(s, i).backward.z as int, next_cp(s, i).origin.z as int);
    }
}

} // verus!
