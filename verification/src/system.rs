//! The per-pass visibility system: evaluates every collider against every
//! light and collects the exposed vertices of each pairing.

use crate::collider::{exposed_seq, Collider2D, Collider2DShape, Light2D};
use crate::geometry::Point;
use vstd::prelude::*;

verus! {

/// What a single visibility query returns for one collider and one light:
/// the exposed vertices of a polygon shape, nothing for the placeholder
/// shapes.
pub open spec fn query_spec(c: Collider2D, light: Point, falloff: int) -> Seq<Point> {
    match c.shape {
        Collider2DShape::Polygon { internal_rays, verticies } => exposed_seq(
            verticies@,
            internal_rays@,
            light,
            falloff,
        ),
        _ => Seq::empty(),
    }
}

/// Evaluates polygon visibility for every (collider, light) pairing of a
/// scene.
pub struct VolumetricLightsSystem;

impl VolumetricLightsSystem {
    /// One evaluation pass. Each light is given as its query parameters and
    /// its position; the result holds, for each collider in order and then
    /// for each light in order, the exposed vertices of that collider under
    /// that light.
    #[verifier::loop_isolation(false)]
    pub fn run(&self, colliders: &Vec<Collider2D>, lights: &Vec<(Light2D, Point)>) -> (res: Vec<
        Vec<Point>,
    >)
        requires
            forall|li: int| 0 <= li < lights@.len() ==> (#[trigger] lights@[li]).0.falloff >= 0,
        ensures
            res@.len() == colliders@.len() * lights@.len(),
            forall|ci: int, li: int|
                0 <= ci < colliders@.len() && 0 <= li < lights@.len() ==> (#[trigger] res@[ci
                    * lights@.len() + li])@ == query_spec(
                    colliders@[ci],
                    lights@[li].1,
                    lights@[li].0.falloff as int,
                ),
    {
        let nc = colliders.len();
        let nl = lights.len();
        let mut res: Vec<Vec<Point>> = Vec::new();
        let mut ci: usize = 0;
        while ci < nc
            invariant
                ci <= nc,
                res@.len() == ci * nl,
                forall|c: int, l: int|
                    0 <= c < ci && 0 <= l < nl ==> (#[trigger] res@[c * nl + l])@ == query_spec(
                        colliders@[c],
                        lights@[l].1,
                        lights@[l].0.falloff as int,
                    ),
            decreases nc - ci,
        {
            let mut li: usize = 0;
            while li < nl
                invariant
                    ci < nc,
                    li <= nl,
                    res@.len() == ci * nl + li,
                    forall|c: int, l: int|
                        0 <= c < ci && 0 <= l < nl ==> (#[trigger] res@[c * nl + l])@ == query_spec(
                            colliders@[c],
                            lights@[l].1,
                            lights@[l].0.falloff as int,
                        ),
                    forall|l: int|
                        0 <= l < li ==> (#[trigger] res@[ci * nl + l])@ == query_spec(
                            colliders@[ci as int],
                            lights@[l].1,
                            lights@[l].0.falloff as int,
                        ),
                decreases nl - li,
            {
                let pair = &lights[li];
                let pts = colliders[ci].get_exposed_verticies(&pair.1, pair.0.falloff);
                res.push(pts);
                proof {
                    assert forall|c: int, l: int| 0 <= c < ci && 0 <= l < nl implies (
                    #[trigger] res@[c * nl + l])@ == query_spec(
                        colliders@[c],
                        lights@[l].1,
                        lights@[l].0.falloff as int,
                    ) by {
                        assert(0 <= c * nl + l && c * nl + l < ci * nl) by (nonlinear_arith)
                            requires
                                0 <= c < ci,
                                0 <= l < nl,
                        ;
                    }
                }
                li = li + 1;
            }
            proof {
                assert((ci + 1) * nl == ci * nl + nl) by (nonlinear_arith);
            }
            ci = ci + 1;
        }
        res
    }
}

} // verus!
