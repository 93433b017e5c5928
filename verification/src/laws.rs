//! The library's laws: properties of the occlusion set, the intersection
//! test and the visibility query, stated over the same spec functions that
//! the executable functions' contracts use.

use crate::collider::{
    count_hits, exposed_seq, is_diagonal, nonadjacent, occlusion_ok, polygon_ok, rev, seg,
};
use crate::geometry::{dist2, lines_intersect, overlap_spec, Point, Segment};
use vstd::prelude::*;

verus! {

broadcast use vstd::seq_lib::lemma_seq_contains_after_push;

/// Adjacency exclusion: the occlusion set of a well-formed polygon never
/// holds a segment between a vertex and one of its two cyclic neighbours,
/// in either endpoint order, nor a degenerate segment from a vertex to
/// itself.
pub proof fn lemma_adjacency_exclusion(ps: Seq<Point>, rays: Seq<Segment>, k: int, i: int)
    requires
        polygon_ok(ps),
        occlusion_ok(ps, rays),
        0 <= k < rays.len(),
        0 <= i < ps.len(),
    ensures
        rays[k] != seg(ps[i], ps[(i + 1) % (ps.len() as int)]),
        rays[k] != seg(ps[(i + 1) % (ps.len() as int)], ps[i]),
        rays[k] != seg(ps[i], ps[i]),
{
    let n = ps.len() as int;
    let succ = (i + 1) % n;
    if i + 1 < n {
        vstd::arithmetic::div_mod::lemma_small_mod((i + 1) as nat, n as nat);
        assert(succ == i + 1);
    } else {
        vstd::arithmetic::div_mod::lemma_mod_self_0(n);
        assert(succ == 0);
    }
    assert(is_diagonal(ps, rays[k]));
    let (a, b) = choose|a: int, b: int|
        nonadjacent(a, b, ps.len() as int) && rays[k] == #[trigger] seg(ps[a], ps[b]);
    assert(ps[a] == rays[k].a && ps[b] == rays[k].b);
    lemma_distinct_index(ps, a, a);
    if rays[k] == seg(ps[i], ps[succ]) {
        lemma_distinct_index(ps, a, i);
        lemma_distinct_index(ps, b, succ);
    }
    if rays[k] == seg(ps[succ], ps[i]) {
        lemma_distinct_index(ps, a, succ);
        lemma_distinct_index(ps, b, i);
    }
    if rays[k] == seg(ps[i], ps[i]) {
        lemma_distinct_index(ps, a, i);
        lemma_distinct_index(ps, b, i);
    }
}

/// In a list of pairwise distinct points, equal points have equal indices.
proof fn lemma_distinct_index(ps: Seq<Point>, a: int, b: int)
    requires
        crate::collider::pts_distinct(ps),
        0 <= a < ps.len(),
        0 <= b < ps.len(),
        ps[a] == ps[b],
    ensures
        a == b,
{
}

/// Deduplication: no two entries of the occlusion set connect the same two
/// points, neither in the same endpoint order nor in swapped order.
pub proof fn lemma_occlusion_dedup(ps: Seq<Point>, rays: Seq<Segment>, k1: int, k2: int)
    requires
        occlusion_ok(ps, rays),
        0 <= k1 < rays.len(),
        0 <= k2 < rays.len(),
        k1 != k2,
    ensures
        rays[k1] != rays[k2],
        !(rays[k1].a == rays[k2].b && rays[k1].b == rays[k2].a),
{
    assert(rays[k1] != rev(rays[k2]));
}

/// Range cutoff: a vertex farther from the light than the falloff radius
/// never appears among the exposed vertices, whatever the occlusion set
/// holds.
pub proof fn lemma_range_cutoff(
    verts: Seq<Point>,
    rays: Seq<Segment>,
    light: Point,
    falloff: int,
    v: Point,
)
    requires
        dist2(v, light) > falloff * falloff,
    ensures
        !exposed_seq(verts, rays, light, falloff).contains(v),
    decreases verts.len(),
{
    if verts.len() == 0 {
    } else {
        lemma_range_cutoff(verts.drop_last(), rays, light, falloff, v);
        let init = exposed_seq(verts.drop_last(), rays, light, falloff);
        if crate::collider::is_exposed(verts.last(), light, falloff, rays) {
            assert(verts.last() != v);
            assert(!init.push(verts.last()).contains(v));
        }
    }
}

/// A product with a nonzero factor only vanishes when the other factor
/// does: for a vector (vx, vy) parallel to a nonzero direction (rx, ry),
/// each component of the vector is pinned by the other.
proof fn lemma_axis_diff(vx: int, vy: int, rx: int, ry: int)
    by (nonlinear_arith)
    requires
        vx * ry == vy * rx,
        rx != 0 || ry != 0,
    ensures
        rx == 0 ==> vx == 0,
        rx != 0 && vx == 0 ==> vy == 0,
        ry == 0 ==> vy == 0,
        ry != 0 && vy == 0 ==> vx == 0,
{
}

/// Symmetry of intersection: swapping the two segments does not change the
/// outcome of the intersection test, provided neither segment is degenerate.
/// (A zero-length segment can steer the two orders of the test into
/// different branches with different outcomes, so it is excluded here.)
pub proof fn lemma_intersect_symmetric(l1: Segment, l2: Segment)
    requires
        l1.a != l1.b,
        l2.a != l2.b,
    ensures
        lines_intersect(l1, l2) == lines_intersect(l2, l1),
{
    let px = l1.a.x as int;
    let py = l1.a.y as int;
    let p2x = l1.b.x as int;
    let p2y = l1.b.y as int;
    let qx = l2.a.x as int;
    let qy = l2.a.y as int;
    let q2x = l2.b.x as int;
    let q2y = l2.b.y as int;
    let rx = p2x - px;
    let ry = p2y - py;
    let sx = q2x - qx;
    let sy = q2y - qy;
    let wx = qx - px;
    let wy = qy - py;
    let u = wx * ry - wy * rx;
    let d = rx * sy - ry * sx;
    let t = wx * sy - wy * sx;

    assert(rx != 0 || ry != 0);
    assert(sx != 0 || sy != 0);

    // The swapped test computes the negations of t, d and u, with the roles
    // of t and u exchanged.
    assert((-wx) * sy - (-wy) * sx == -t) by (nonlinear_arith)
        requires
            t == wx * sy - wy * sx,
    ;
    assert(sx * ry - sy * rx == -d) by (nonlinear_arith)
        requires
            d == rx * sy - ry * sx,
    ;
    assert((-wx) * ry - (-wy) * rx == -u) by (nonlinear_arith)
        requires
            u == wx * ry - wy * rx,
    ;

    if d == 0 {
        // With parallel directions, u and t vanish together.
        assert(u * sx == t * rx && u * sy == t * ry) by (nonlinear_arith)
            requires
                d == 0,
                d == rx * sy - ry * sx,
                u == wx * ry - wy * rx,
                t == wx * sy - wy * sx,
        ;
        if u == 0 {
            assert(t == 0) by (nonlinear_arith)
                requires
                    t * rx == 0,
                    t * ry == 0,
                    rx != 0 || ry != 0,
            ;
            // Both orders take the collinear branch. The shared-endpoint
            // disjunction is symmetric; otherwise the interval test sees
            // each axis either with every difference zero, or with every
            // difference nonzero and merely negated.
            if !(l1.a == l2.a || l1.a == l2.b || l1.b == l2.a || l1.b == l2.b) {
                assert(wx * ry == wy * rx);
                assert((wx - rx) * ry == (wy - ry) * rx) by (nonlinear_arith)
                    requires
                        wx * ry == wy * rx,
                ;
                assert((wx + sx) * ry == (wy + sy) * rx) by (nonlinear_arith)
                    requires
                        wx * ry == wy * rx,
                        rx * sy - ry * sx == 0,
                ;
                assert((wx + sx - rx) * ry == (wy + sy - ry) * rx) by (nonlinear_arith)
                    requires
                        wx * ry == wy * rx,
                        rx * sy - ry * sx == 0,
                ;
                lemma_axis_diff(wx, wy, rx, ry);
                lemma_axis_diff(wx - rx, wy - ry, rx, ry);
                lemma_axis_diff(wx + sx, wy + sy, rx, ry);
                lemma_axis_diff(wx + sx - rx, wy + sy - ry, rx, ry);
                // No endpoint pair coincides, so none of the four difference
                // vectors is the zero vector.
                assert(!(wx == 0 && wy == 0));
                assert(!(wx - rx == 0 && wy - ry == 0));
                assert(!(wx + sx == 0 && wy + sy == 0));
                assert(!(wx + sx - rx == 0 && wy + sy - ry == 0));
                if rx == 0 {
                    assert(wx == 0 && wx - rx == 0 && wx + sx == 0 && wx + sx - rx == 0);
                } else {
                    assert(wx != 0 && wx - rx != 0 && wx + sx != 0 && wx + sx - rx != 0);
                }
                if ry == 0 {
                    assert(wy == 0 && wy - ry == 0 && wy + sy == 0 && wy + sy - ry == 0);
                } else {
                    assert(wy != 0 && wy - ry != 0 && wy + sy != 0 && wy + sy - ry != 0);
                }
                assert(overlap_spec(l1.a, l1.b, l2.a, l2.b) == overlap_spec(
                    l2.a,
                    l2.b,
                    l1.a,
                    l1.b,
                ));
            }
        } else {
            // Parallel but not collinear, in both orders: t cannot vanish
            // when u does not.
            assert(t != 0) by {
                if t == 0 {
                    assert(u == 0) by (nonlinear_arith)
                        requires
                            u * sx == 0,
                            u * sy == 0,
                            sx != 0 || sy != 0,
                    ;
                }
            }
        }
    }
}

/// The vertices within the falloff radius, in their original order.
pub open spec fn in_range_seq(verts: Seq<Point>, light: Point, falloff: int) -> Seq<Point>
    decreases verts.len(),
{
    if verts.len() == 0 {
        Seq::empty()
    } else {
        let init = in_range_seq(verts.drop_last(), light, falloff);
        if dist2(verts.last(), light) <= falloff * falloff {
            init.push(verts.last())
        } else {
            init
        }
    }
}

/// Full visibility at low crossing counts: when the sight ray of every
/// vertex crosses at most one occlusion segment — as for a convex polygon
/// lit from outside, where a ray meets at most the one diagonal ending at
/// its target corner — the exposed vertices are exactly the vertices in
/// range of the light.
pub proof fn lemma_low_crossings_full_visibility(
    verts: Seq<Point>,
    rays: Seq<Segment>,
    light: Point,
    falloff: int,
)
    requires
        forall|k: int|
            0 <= k < verts.len() ==> count_hits(rays, seg(light, #[trigger] verts[k])) <= 1,
    ensures
        exposed_seq(verts, rays, light, falloff) == in_range_seq(verts, light, falloff),
    decreases verts.len(),
{
    if verts.len() == 0 {
    } else {
        assert(forall|k: int|
            0 <= k < verts.drop_last().len() ==> count_hits(
                rays,
                seg(light, #[trigger] verts.drop_last()[k]),
            ) <= 1);
        lemma_low_crossings_full_visibility(verts.drop_last(), rays, light, falloff);
        assert(count_hits(rays, seg(light, verts.last())) <= 1);
    }
}

} // verus!
