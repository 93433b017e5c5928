use volumetric_lights::collider::{Collider2D, Collider2DShape, Light2D};
use volumetric_lights::geometry::Point;
use volumetric_lights::system::VolumetricLightsSystem;

fn pt(x: i32, y: i32) -> Point {
    Point { x, y }
}

fn square_collider() -> Collider2D {
    let mut collider = Collider2D::default();
    collider.set_polygon(vec![pt(0, 0), pt(10, 0), pt(10, 10), pt(0, 10)]).unwrap();
    collider
}

#[test]
fn square_near_corners_exposed_far_corners_occluded() {
    // Light to the left of the square. The rays to the two near corners
    // touch at most one diagonal (the one ending at that corner), so they
    // stay exposed. The rays to the two far corners cross the opposite
    // diagonal in the interior and also touch the diagonal ending at the
    // target corner: two intersections, which the more-than-one-crossing
    // threshold counts as occluded.
    let collider = square_collider();
    let exposed = collider.get_exposed_verticies(&pt(-5, 5), 100);
    assert_eq!(exposed, vec![pt(0, 0), pt(0, 10)]);
}

#[test]
fn light_on_a_vertex_exposes_that_vertex() {
    let collider = square_collider();
    let exposed = collider.get_exposed_verticies(&pt(0, 0), 100);
    assert!(exposed.contains(&pt(0, 0)));
}

#[test]
fn light_out_of_range_exposes_nothing() {
    let collider = square_collider();
    let exposed = collider.get_exposed_verticies(&pt(1000, 1000), 10);
    assert!(exposed.is_empty());
}

#[test]
fn vertex_beyond_falloff_is_cut_off() {
    // A triangle has no diagonals, so only the range check decides. From
    // (-3, 0) with falloff 12, the vertex (10, 0) lies at distance 13 and
    // is cut off; the other two are in range.
    let mut collider = Collider2D::default();
    collider.set_polygon(vec![pt(0, 0), pt(10, 0), pt(0, 10)]).unwrap();
    let exposed = collider.get_exposed_verticies(&pt(-3, 0), 12);
    assert_eq!(exposed, vec![pt(0, 0), pt(0, 10)]);
}

#[test]
fn notch_vertex_is_occluded() {
    // A concave pentagon with a deep notch at (5, 2): the ray from a light
    // above the shape down to the notch vertex crosses several diagonals,
    // so the notch vertex is treated as blocked.
    let mut collider = Collider2D::default();
    collider
        .set_polygon(vec![pt(0, 0), pt(10, 0), pt(10, 10), pt(5, 2), pt(0, 10)])
        .unwrap();
    let exposed = collider.get_exposed_verticies(&pt(5, 20), 100);
    assert!(!exposed.contains(&pt(5, 2)));
}

#[test]
fn unset_and_circle_shapes_expose_nothing() {
    let unset = Collider2D::default();
    assert!(unset.get_exposed_verticies(&pt(0, 0), 100).is_empty());
    let circle = Collider2D { shape: Collider2DShape::Circle(pt(0, 0), 5) };
    assert!(circle.get_exposed_verticies(&pt(0, 0), 100).is_empty());
}

#[test]
fn default_light_falloff_is_100() {
    let light = Light2D::default();
    assert_eq!(light.falloff, 100);
}

#[test]
fn system_runs_every_collider_against_every_light() {
    let colliders = vec![square_collider(), Collider2D::default()];
    let lights = vec![
        (Light2D::default(), pt(-5, 5)),
        (Light2D { falloff: 10 }, pt(1000, 1000)),
    ];
    let system = VolumetricLightsSystem;
    let results = system.run(&colliders, &lights);
    assert_eq!(results.len(), 4);
    // Square seen by the near light: the two near corners.
    assert_eq!(results[0], vec![pt(0, 0), pt(0, 10)]);
    // Square seen by the far, weak light: nothing in range.
    assert!(results[1].is_empty());
    // The unset collider exposes nothing to either light.
    assert!(results[2].is_empty());
    assert!(results[3].is_empty());
}

#[test]
fn system_with_no_lights_returns_nothing() {
    let colliders = vec![square_collider()];
    let system = VolumetricLightsSystem;
    let results = system.run(&colliders, &vec![]);
    assert!(results.is_empty());
}
