//! Exact 2D segment relationship tests.
//!
//! Coordinates are integers, so every test here is exact: the perpendicular
//! dot products, interval comparisons and squared distances are computed in
//! wide integers with no rounding.

use vstd::prelude::*;

verus! {

/// A 2D point with integer coordinates.
#[derive(Clone, Copy, PartialEq, Eq, Structural, Debug)]
pub struct Point {
    pub x: i32,
    pub y: i32,
}

/// A line segment between two points. Two segments that connect the same two
/// points in swapped order denote the same geometry; deduplication treats
/// them as equal.
#[derive(Clone, Copy, PartialEq, Eq, Structural, Debug)]
pub struct Segment {
    pub a: Point,
    pub b: Point,
}

/// The 2D perpendicular dot product ("cross") of vectors (ax, ay) and (bx, by).
pub open spec fn perp(ax: int, ay: int, bx: int, by: int) -> int {
    ax * by - ay * bx
}

/// Squared Euclidean distance between two points.
pub open spec fn dist2(a: Point, b: Point) -> int {
    (a.x - b.x) * (a.x - b.x) + (a.y - b.y) * (a.y - b.y)
}

/// Whether the exact rational num/den lies in the closed interval [0, 1],
/// for den != 0.
pub open spec fn in_unit_interval(num: int, den: int) -> bool {
    if den > 0 {
        0 <= num <= den
    } else {
        den <= num <= 0
    }
}

/// The coarse bounding-interval separation test for two collinear segments
/// (p, p2) and (q, q2): on each axis, record whether each endpoint of one
/// segment lies below each endpoint of the other; the segments count as
/// overlapping unless one axis separates them cleanly with all four
/// comparisons agreeing. This is deliberately the coarse test, not an exact
/// collinear-overlap computation.
pub open spec fn overlap_spec(p: Point, p2: Point, q: Point, q2: Point) -> bool {
    let x_all = ((q.x < p2.x) == (q.x < p.x)) && ((q2.x < p.x) == (q.x < p.x)) && ((q2.x < p2.x)
        == (q.x < p.x));
    let y_all = ((q.y < p2.y) == (q.y < p.y)) && ((q2.y < p.y) == (q.y < p.y)) && ((q2.y < p2.y)
        == (q.y < p.y));
    !x_all || !y_all
}

/// The parametric segment-segment intersection test on segments
/// l1 = (p, p2) and l2 = (q, q2), with r = p2 - p and s = q2 - q:
/// - collinear (both cross products zero): true iff the segments share an
///   endpoint exactly or their bounding intervals overlap;
/// - parallel but not collinear: false;
/// - otherwise: true iff the infinite-line intersection point lies within
///   both finite segments, i.e. the parameters t and u lie in [0, 1].
pub open spec fn lines_intersect(l1: Segment, l2: Segment) -> bool {
    let rx = l1.b.x - l1.a.x;
    let ry = l1.b.y - l1.a.y;
    let sx = l2.b.x - l2.a.x;
    let sy = l2.b.y - l2.a.y;
    let u_num = perp(l2.a.x - l1.a.x, l2.a.y - l1.a.y, rx, ry);
    let den = perp(rx, ry, sx, sy);
    if u_num == 0 && den == 0 {
        l1.a == l2.a || l1.a == l2.b || l1.b == l2.a || l1.b == l2.b || overlap_spec(
            l1.a,
            l1.b,
            l2.a,
            l2.b,
        )
    } else if den == 0 {
        false
    } else {
        let t_num = perp(l2.a.x - l1.a.x, l2.a.y - l1.a.y, sx, sy);
        in_unit_interval(t_num, den) && in_unit_interval(u_num, den)
    }
}

/// A product of two factors bounded by m in magnitude is bounded by m * m.
pub proof fn lemma_mul_bound(a: int, b: int, m: int)
    by (nonlinear_arith)
    requires
        -m <= a <= m,
        -m <= b <= m,
        0 <= m,
    ensures
        -(m * m) <= a * b <= m * m,
{
}

/// The perpendicular dot product, computed exactly in 128-bit arithmetic.
fn perp_exec(ax: i64, ay: i64, bx: i64, by: i64) -> (r: i128)
    requires
        -0x1_0000_0000 <= ax <= 0x1_0000_0000,
        -0x1_0000_0000 <= ay <= 0x1_0000_0000,
        -0x1_0000_0000 <= bx <= 0x1_0000_0000,
        -0x1_0000_0000 <= by <= 0x1_0000_0000,
    ensures
        r == perp(ax as int, ay as int, bx as int, by as int),
{
    proof {
        lemma_mul_bound(ax as int, by as int, 0x1_0000_0000);
        lemma_mul_bound(ay as int, bx as int, 0x1_0000_0000);
    }
    (ax as i128) * (by as i128) - (ay as i128) * (bx as i128)
}

/// Squared Euclidean distance, computed exactly in 128-bit arithmetic.
pub fn squared_distance(a: Point, b: Point) -> (r: i128)
    ensures
        r == dist2(a, b),
{
    let dx: i64 = (a.x as i64) - (b.x as i64);
    let dy: i64 = (a.y as i64) - (b.y as i64);
    proof {
        lemma_mul_bound(dx as int, dx as int, 0x1_0000_0000);
        lemma_mul_bound(dy as int, dy as int, 0x1_0000_0000);
    }
    (dx as i128) * (dx as i128) + (dy as i128) * (dy as i128)
}

/// The collinear-overlap sub-test: decides `overlap_spec` on the four
/// endpoints of two collinear segments.
pub fn overlap(p: Point, p2: Point, q: Point, q2: Point) -> (r: bool)
    ensures
        r == overlap_spec(p, p2, q, q2),
{
    let start_x = q.x < p.x;
    let x_all = ((q.x < p2.x) == start_x) && ((q2.x < p.x) == start_x) && ((q2.x < p2.x)
        == start_x);

    let start_y = q.y < p.y;
    let y_all = ((q.y < p2.y) == start_y) && ((q2.y < p.y) == start_y) && ((q2.y < p2.y)
        == start_y);

    !x_all || !y_all
}

/// The segment-segment intersection test: decides `lines_intersect` exactly.
pub fn do_lines_intersect(line1: &Segment, line2: &Segment) -> (r: bool)
    ensures
        r == lines_intersect(*line1, *line2),
{
    let rx: i64 = (line1.b.x as i64) - (line1.a.x as i64);
    let ry: i64 = (line1.b.y as i64) - (line1.a.y as i64);
    let sx: i64 = (line2.b.x as i64) - (line2.a.x as i64);
    let sy: i64 = (line2.b.y as i64) - (line2.a.y as i64);
    let qpx: i64 = (line2.a.x as i64) - (line1.a.x as i64);
    let qpy: i64 = (line2.a.y as i64) - (line1.a.y as i64);

    let u_num = perp_exec(qpx, qpy, rx, ry);
    let den = perp_exec(rx, ry, sx, sy);

    if u_num == 0 && den == 0 {
        if line1.a == line2.a || line1.a == line2.b || line1.b == line2.a || line1.b == line2.b {
            return true;
        }
        return overlap(line1.a, line1.b, line2.a, line2.b);
    }

    if den == 0 {
        return false;
    }

    let t_num = perp_exec(qpx, qpy, sx, sy);

    let t_ok = if den > 0 {
        0 <= t_num && t_num <= den
    } else {
        den <= t_num && t_num <= 0
    };
    let u_ok = if den > 0 {
        0 <= u_num && u_num <= den
    } else {
        den <= u_num && u_num <= 0
    };
    t_ok && u_ok
}

} // verus!
