//! The polygon visibility index: a collider that owns a polygon's vertex
//! list and its precomputed occlusion set, and answers per-light visibility
//! queries.

use crate::geometry::{
    dist2, do_lines_intersect, lines_intersect, squared_distance, Point, Segment,
};
use vstd::prelude::*;

verus! {

broadcast use vstd::seq_lib::lemma_seq_contains_after_push;

/// Why a vertex list was rejected as a polygon.
#[derive(Clone, Copy, PartialEq, Eq, Structural, Debug)]
pub enum PolygonError {
    /// A polygon needs at least three vertices.
    TooFewVertices,
    /// Two vertices coincide exactly.
    DuplicateVertex,
}

/// The shape carried by a collider. The circle variant is a placeholder: no
/// query logic exists for it and it exposes no vertices.
#[derive(Debug)]
pub enum Collider2DShape {
    Polygon { internal_rays: Vec<Segment>, verticies: Vec<Point> },
    Circle(Point, i32),
    Unset,
}

/// A 2D collider component: set a polygon once, then query which of its
/// vertices are exposed to a light.
#[derive(Debug)]
pub struct Collider2D {
    pub shape: Collider2DShape,
}

/// No two vertices coincide.
pub open spec fn pts_distinct(ps: Seq<Point>) -> bool {
    forall|i: int, j: int| 0 <= i < j < ps.len() ==> ps[i] != ps[j]
}

/// A well-formed polygon: at least three pairwise distinct vertices.
pub open spec fn polygon_ok(ps: Seq<Point>) -> bool {
    ps.len() >= 3 && pts_distinct(ps)
}

/// Index pair (i, j), i < j, of a cyclic vertex list of length n that names
/// two non-adjacent vertices: neither consecutive nor the closing edge
/// between the first and last vertex.
pub open spec fn nonadjacent(i: int, j: int, n: int) -> bool {
    0 <= i < j < n && j - i != 1 && !(i == 0 && j == n - 1)
}

/// The segment from a to b.
pub open spec fn seg(a: Point, b: Point) -> Segment {
    Segment { a, b }
}

/// The same segment with its endpoints swapped.
pub open spec fn rev(s: Segment) -> Segment {
    Segment { a: s.b, b: s.a }
}

/// A segment joining some non-adjacent vertex pair of `ps`.
pub open spec fn is_diagonal(ps: Seq<Point>, r: Segment) -> bool {
    exists|i: int, j: int|
        nonadjacent(i, j, ps.len() as int) && r == #[trigger] seg(ps[i], ps[j])
}

/// The occlusion set of a polygon: `rays` holds exactly the segments joining
/// non-adjacent vertex pairs, each unordered pair once.
pub open spec fn occlusion_ok(ps: Seq<Point>, rays: Seq<Segment>) -> bool {
    &&& forall|k: int| 0 <= k < rays.len() ==> is_diagonal(ps, #[trigger] rays[k])
    &&& forall|i: int, j: int|
        nonadjacent(i, j, ps.len() as int) ==> rays.contains(#[trigger] seg(ps[i], ps[j]))
    &&& forall|k1: int, k2: int|
        0 <= k1 < rays.len() && 0 <= k2 < rays.len() && k1 != k2 ==> rays[k1] != rays[k2]
            && rays[k1] != rev(rays[k2])
}

/// A segment joins some non-adjacent vertex pair (a, b) of `ps` that the
/// construction scan has already visited: a pair lexicographically before
/// the scan position (lim_i, lim_j).
spec fn ray_from(ps: Seq<Point>, r: Segment, lim_i: int, lim_j: int) -> bool {
    exists|a: int, b: int|
        nonadjacent(a, b, ps.len() as int) && (a < lim_i || (a == lim_i && b < lim_j)) && r
            == #[trigger] seg(ps[a], ps[b])
}

proof fn lemma_ray_from_weaken(ps: Seq<Point>, r: Segment, i1: int, j1: int, i2: int, j2: int)
    requires
        ray_from(ps, r, i1, j1),
        i1 < i2 || (i1 == i2 && j1 <= j2),
    ensures
        ray_from(ps, r, i2, j2),
{
    let (a, b) = choose|a: int, b: int|
        nonadjacent(a, b, ps.len() as int) && (a < i1 || (a == i1 && b < j1)) && r == #[trigger] seg(
            ps[a],
            ps[b],
        );
    assert(nonadjacent(a, b, ps.len() as int) && (a < i2 || (a == i2 && b < j2)) && r == seg(
        ps[a],
        ps[b],
    ));
}

/// How many of the given occlusion segments the ray intersects.
pub open spec fn count_hits(rays: Seq<Segment>, ray: Segment) -> int
    decreases rays.len(),
{
    if rays.len() == 0 {
        0
    } else {
        count_hits(rays.drop_last(), ray) + if lines_intersect(ray, rays.last()) {
            1int
        } else {
            0int
        }
    }
}

/// A vertex is exposed to a light when it lies within the falloff radius and
/// the ray from the light to it either is degenerate (the light sits on the
/// vertex) or crosses at most one occlusion segment. A single crossing is
/// tolerated because a ray to a vertex generically grazes a diagonal that
/// ends at that very vertex.
pub open spec fn is_exposed(v: Point, light: Point, falloff: int, rays: Seq<Segment>) -> bool {
    &&& dist2(v, light) <= falloff * falloff
    &&& (v == light || count_hits(rays, seg(light, v)) <= 1)
}

/// The exposed vertices among `verts`, in their original order.
pub open spec fn exposed_seq(
    verts: Seq<Point>,
    rays: Seq<Segment>,
    light: Point,
    falloff: int,
) -> Seq<Point>
    decreases verts.len(),
{
    if verts.len() == 0 {
        Seq::empty()
    } else {
        let init = exposed_seq(verts.drop_last(), rays, light, falloff);
        if is_exposed(verts.last(), light, falloff, rays) {
            init.push(verts.last())
        } else {
            init
        }
    }
}

/// Whether the ray crosses more than one of the internal occlusion segments:
/// the threshold above which a vertex counts as occluded.
pub fn ray_traverses_body(ray: &Segment, internal_rays: &Vec<Segment>) -> (r: bool)
    ensures
        r == (count_hits(internal_rays@, *ray) > 1),
{
    let mut count: usize = 0;
    let mut idx: usize = 0;
    while idx < internal_rays.len()
        invariant
            idx <= internal_rays@.len(),
            count <= idx,
            count == count_hits(internal_rays@.take(idx as int), *ray),
        decreases internal_rays@.len() - idx,
    {
        if do_lines_intersect(ray, &internal_rays[idx]) {
            count = count + 1;
        }
        proof {
            let s = internal_rays@;
            assert(s.take(idx + 1).drop_last() =~= s.take(idx as int));
            assert(s.take(idx + 1).last() == s[idx as int]);
        }
        idx = idx + 1;
    }
    proof {
        assert(internal_rays@.take(internal_rays@.len() as int) =~= internal_rays@);
    }
    count > 1
}

impl Collider2D {
    /// Stores the vertex list as the polygon shape and precomputes its
    /// occlusion set: every segment between two non-adjacent vertices, each
    /// unordered pair recorded once. A list of fewer than three vertices, or
    /// one in which two vertices coincide, is rejected and the collider is
    /// left unchanged.
    #[verifier::loop_isolation(false)]
    pub fn set_polygon(&mut self, points: Vec<Point>) -> (result: Result<(), PolygonError>)
        ensures
            match result {
                Ok(()) => match final (self).shape {
                    Collider2DShape::Polygon { internal_rays, verticies } => {
                        &&& polygon_ok(points@)
                        &&& verticies@ == points@
                        &&& occlusion_ok(points@, internal_rays@)
                    },
                    _ => false,
                },
                Err(e) => {
                    &&& *final (self) == *old(self)
                    &&& !polygon_ok(points@)
                    &&& (e == PolygonError::TooFewVertices <==> points@.len() < 3)
                    &&& (e == PolygonError::DuplicateVertex <==> points@.len() >= 3
                        && !pts_distinct(points@))
                },
            },
    {
        let n = points.len();
        if n < 3 {
            return Err(PolygonError::TooFewVertices);
        }
        let mut i: usize = 0;
        while i < n
            invariant
                i <= n,
                forall|a: int, b: int| 0 <= a < b < n && a < i ==> points@[a] != points@[b],
            decreases n - i,
        {
            let mut j: usize = i + 1;
            while j < n
                invariant
                    i < n,
                    i + 1 <= j <= n,
                    forall|a: int, b: int| 0 <= a < b < n && a < i ==> points@[a] != points@[b],
                    forall|b: int| i < b < j ==> points@[i as int] != points@[b],
                decreases n - j,
            {
                if points[i] == points[j] {
                    proof {
                        assert(points@[i as int] == points@[j as int]);
                    }
                    return Err(PolygonError::DuplicateVertex);
                }
                j = j + 1;
            }
            i = i + 1;
        }
        assert(pts_distinct(points@));

        let mut rays: Vec<Segment> = Vec::new();
        let mut i: usize = 0;
        while i < n
            invariant
                i <= n,
                forall|k: int|
                    0 <= k < rays@.len() ==> ray_from(points@, #[trigger] rays@[k], i as int, i + 1),
                forall|a: int, b: int|
                    nonadjacent(a, b, n as int) && a < i ==> rays@.contains(
                        #[trigger] seg(points@[a], points@[b]),
                    ),
                forall|k1: int, k2: int|
                    0 <= k1 < rays@.len() && 0 <= k2 < rays@.len() && k1 != k2 ==> rays@[k1]
                        != rays@[k2] && rays@[k1] != rev(rays@[k2]),
            decreases n - i,
        {
            let mut j: usize = i + 1;
            while j < n
                invariant
                    i < n,
                    i + 1 <= j <= n,
                    forall|k: int|
                        0 <= k < rays@.len() ==> ray_from(
                            points@,
                            #[trigger] rays@[k],
                            i as int,
                            j as int,
                        ),
                    forall|a: int, b: int|
                        nonadjacent(a, b, n as int) && (a < i || (a == i && b < j))
                            ==> rays@.contains(#[trigger] seg(points@[a], points@[b])),
                    forall|k1: int, k2: int|
                        0 <= k1 < rays@.len() && 0 <= k2 < rays@.len() && k1 != k2 ==> rays@[k1]
                            != rays@[k2] && rays@[k1] != rev(rays@[k2]),
                decreases n - j,
            {
                let adjacent = (j - i == 1) || (i == 0 && j == n - 1);
                if !adjacent {
                    let s = Segment { a: points[i], b: points[j] };
                    let ghost pre = rays@;
                    proof {
                        let ps = points@;
                        assert(nonadjacent(i as int, j as int, n as int));
                        assert(s == seg(ps[i as int], ps[j as int]));
                        assert forall|k: int| 0 <= k < pre.len() implies pre[k] != s && pre[k]
                            != rev(s) && s != rev(pre[k]) by {
                            let (a, b) = choose|a: int, b: int|
                                nonadjacent(a, b, ps.len() as int) && (a < i || (a == i && b < j))
                                    && pre[k] == #[trigger] seg(ps[a], ps[b]);
                        }
                    }
                    rays.push(s);
                    proof {
                        let ps = points@;
                        assert(rays@ == pre.push(s));
                        assert(rays@[pre.len() as int] == s);
                        assert(ray_from(ps, s, i as int, j + 1)) by {
                            assert(nonadjacent(i as int, j as int, ps.len() as int) && s == seg(
                                ps[i as int],
                                ps[j as int],
                            ));
                        }
                        assert forall|k: int| 0 <= k < rays@.len() implies ray_from(
                            ps,
                            #[trigger] rays@[k],
                            i as int,
                            j + 1,
                        ) by {
                            if k < pre.len() {
                                assert(rays@[k] == pre[k]);
                                lemma_ray_from_weaken(ps, pre[k], i as int, j as int, i as int, j + 1);
                            } else {
                                assert(rays@[k] == s);
                            }
                        }
                        assert forall|k1: int, k2: int|
                            0 <= k1 < rays@.len() && 0 <= k2 < rays@.len() && k1 != k2 implies rays@[k1]
                            != rays@[k2] && rays@[k1] != rev(rays@[k2]) by {
                            if k1 < pre.len() && k2 < pre.len() {
                                assert(rays@[k1] == pre[k1] && rays@[k2] == pre[k2]);
                            } else if k1 < pre.len() {
                                assert(rays@[k1] == pre[k1] && rays@[k2] == s);
                            } else {
                                assert(rays@[k1] == s && rays@[k2] == pre[k2]);
                            }
                        }
                        assert forall|a: int, b: int|
                            nonadjacent(a, b, n as int) && (a < i || (a == i && b < j + 1))
                                implies rays@.contains(#[trigger] seg(ps[a], ps[b])) by {
                            if a < i || (a == i && b < j) {
                                assert(pre.contains(seg(ps[a], ps[b])));
                            } else {
                                assert(a == i && b == j);
                                assert(rays@[pre.len() as int] == seg(ps[a], ps[b]));
                            }
                        }
                    }
                } else {
                    proof {
                        assert forall|k: int| 0 <= k < rays@.len() implies ray_from(
                            points@,
                            #[trigger] rays@[k],
                            i as int,
                            j + 1,
                        ) by {
                            lemma_ray_from_weaken(
                                points@,
                                rays@[k],
                                i as int,
                                j as int,
                                i as int,
                                j + 1,
                            );
                        }
                        assert(!nonadjacent(i as int, j as int, n as int));
                    }
                }
                j = j + 1;
            }
            proof {
                assert forall|k: int| 0 <= k < rays@.len() implies ray_from(
                    points@,
                    #[trigger] rays@[k],
                    i + 1,
                    i + 2,
                ) by {
                    lemma_ray_from_weaken(points@, rays@[k], i as int, n as int, i + 1, i + 2);
                }
            }
            i = i + 1;
        }
        proof {
            let ps = points@;
            assert forall|k: int| 0 <= k < rays@.len() implies is_diagonal(
                ps,
                #[trigger] rays@[k],
            ) by {
                assert(ray_from(ps, rays@[k], i as int, i + 1));
                let (a, b) = choose|a: int, b: int|
                    nonadjacent(a, b, ps.len() as int) && (a < i || (a == i && b < i + 1))
                        && rays@[k] == #[trigger] seg(ps[a], ps[b]);
                assert(nonadjacent(a, b, ps.len() as int) && rays@[k] == seg(ps[a], ps[b]));
            }
        }
        self.shape = Collider2DShape::Polygon { internal_rays: rays, verticies: points };
        Ok(())
    }

    /// The exposed vertices of the polygon, in vertex order, for a light at
    /// `point` with the given falloff radius. A vertex farther from the
    /// light than the falloff is excluded; a vertex coinciding with the
    /// light is exposed outright; any other vertex is exposed unless the ray
    /// from the light to it crosses more than one occlusion segment. The
    /// circle and unset shapes expose no vertices.
    pub fn get_exposed_verticies(&self, point: &Point, falloff: i32) -> (res: Vec<Point>)
        requires
            falloff >= 0,
        ensures
            match self.shape {
                Collider2DShape::Polygon { internal_rays, verticies } => res@ == exposed_seq(
                    verticies@,
                    internal_rays@,
                    *point,
                    falloff as int,
                ),
                _ => res@ == Seq::<Point>::empty(),
            },
    {
        match &self.shape {
            Collider2DShape::Polygon { internal_rays, verticies } => {
                let mut res: Vec<Point> = Vec::new();
                let mut idx: usize = 0;
                proof {
                    crate::geometry::lemma_mul_bound(falloff as int, falloff as int, 0x8000_0000);
                }
                let f2: i128 = (falloff as i128) * (falloff as i128);
                while idx < verticies.len()
                    invariant
                        idx <= verticies@.len(),
                        falloff >= 0,
                        f2 == (falloff as int) * (falloff as int),
                        res@ == exposed_seq(
                            verticies@.take(idx as int),
                            internal_rays@,
                            *point,
                            falloff as int,
                        ),
                    decreases verticies@.len() - idx,
                {
                    let vertex = verticies[idx];
                    let d2 = squared_distance(vertex, *point);
                    if d2 <= f2 {
                        if vertex == *point {
                            res.push(vertex);
                        } else {
                            let ray = Segment { a: *point, b: vertex };
                            if !ray_traverses_body(&ray, internal_rays) {
                                res.push(vertex);
                            }
                        }
                    }
                    proof {
                        let vs = verticies@;
                        assert(vs.take(idx + 1).drop_last() =~= vs.take(idx as int));
                        assert(vs.take(idx + 1).last() == vs[idx as int]);
                    }
                    idx = idx + 1;
                }
                proof {
                    assert(verticies@.take(verticies@.len() as int) =~= verticies@);
                }
                res
            },
            Collider2DShape::Circle(_, _) => Vec::new(),
            Collider2DShape::Unset => Vec::new(),
        }
    }
}

impl Default for Collider2D {
    /// A fresh collider carries no shape yet.
    fn default() -> (r: Self)
        ensures
            r.shape is Unset,
    {
        Collider2D { shape: Collider2DShape::Unset }
    }
}

/// A point light's query parameters: only the falloff radius; its position
/// comes from the caller's transform.
#[derive(Clone, Copy, Debug)]
pub struct Light2D {
    pub falloff: i32,
}

impl Default for Light2D {
    /// The demo default: a falloff radius of 100.
    fn default() -> (r: Self)
        ensures
            r.falloff == 100,
    {
        Light2D { falloff: 100 }
    }
}

} // verus!
