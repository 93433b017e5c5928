use volumetric_lights::collider::{ray_traverses_body, Collider2D, Collider2DShape, PolygonError};
use volumetric_lights::geometry::{Point, Segment};

fn pt(x: i32, y: i32) -> Point {
    Point { x, y }
}

fn square() -> Vec<Point> {
    vec![pt(0, 0), pt(10, 0), pt(10, 10), pt(0, 10)]
}

fn square_collider() -> Collider2D {
    let mut collider = Collider2D::default();
    collider.set_polygon(square()).unwrap();
    collider
}

#[test]
fn too_few_vertices_rejected() {
    let mut collider = Collider2D::default();
    assert_eq!(collider.set_polygon(vec![pt(0, 0), pt(1, 0)]), Err(PolygonError::TooFewVertices));
    assert!(matches!(collider.shape, Collider2DShape::Unset));
}

#[test]
fn duplicate_vertices_rejected() {
    let mut collider = Collider2D::default();
    let points = vec![pt(0, 0), pt(5, 0), pt(5, 5), pt(0, 0)];
    assert_eq!(collider.set_polygon(points), Err(PolygonError::DuplicateVertex));
    assert!(matches!(collider.shape, Collider2DShape::Unset));
}

#[test]
fn square_occlusion_set_is_the_two_diagonals() {
    let collider = square_collider();
    match &collider.shape {
        Collider2DShape::Polygon { internal_rays, verticies } => {
            assert_eq!(*verticies, square());
            assert_eq!(internal_rays.len(), 2);
            assert_eq!(internal_rays[0], Segment { a: pt(0, 0), b: pt(10, 10) });
            assert_eq!(internal_rays[1], Segment { a: pt(10, 0), b: pt(0, 10) });
        },
        other => panic!("expected a polygon shape, got {:?}", other),
    }
}

#[test]
fn triangle_occlusion_set_is_empty() {
    // Every vertex pair of a triangle is adjacent, so no diagonal exists.
    let mut collider = Collider2D::default();
    collider.set_polygon(vec![pt(0, 0), pt(4, 0), pt(0, 4)]).unwrap();
    match &collider.shape {
        Collider2DShape::Polygon { internal_rays, .. } => assert!(internal_rays.is_empty()),
        other => panic!("expected a polygon shape, got {:?}", other),
    }
}

#[test]
fn occlusion_set_never_holds_adjacent_or_duplicate_pairs() {
    // A hexagon: the occlusion set holds every unordered non-adjacent pair
    // once: 6 vertices give 9 diagonals.
    let mut collider = Collider2D::default();
    let hexagon = vec![pt(2, 0), pt(1, 2), pt(-1, 2), pt(-2, 0), pt(-1, -2), pt(1, -2)];
    collider.set_polygon(hexagon.clone()).unwrap();
    match &collider.shape {
        Collider2DShape::Polygon { internal_rays, .. } => {
            assert_eq!(internal_rays.len(), 9);
            for (k, ray) in internal_rays.iter().enumerate() {
                let n = hexagon.len();
                for i in 0..n {
                    let next = hexagon[(i + 1) % n];
                    assert_ne!(*ray, Segment { a: hexagon[i], b: next });
                    assert_ne!(*ray, Segment { a: next, b: hexagon[i] });
                    assert_ne!(*ray, Segment { a: hexagon[i], b: hexagon[i] });
                }
                for (k2, other) in internal_rays.iter().enumerate() {
                    if k != k2 {
                        assert_ne!(*ray, *other);
                        assert!(!(ray.a == other.b && ray.b == other.a));
                    }
                }
            }
        },
        other => panic!("expected a polygon shape, got {:?}", other),
    }
}

#[test]
fn ray_crossing_both_diagonals_traverses() {
    let diagonals = vec![
        Segment { a: pt(0, 0), b: pt(10, 10) },
        Segment { a: pt(10, 0), b: pt(0, 10) },
    ];
    // Straight through the middle of the square: hits both diagonals.
    let through = Segment { a: pt(5, -5), b: pt(5, 15) };
    assert!(ray_traverses_body(&through, &diagonals));
    // Clips only one diagonal.
    let clip = Segment { a: pt(-5, 4), b: pt(5, 4) };
    assert!(!ray_traverses_body(&clip, &diagonals));
    // Far away from both.
    let far = Segment { a: pt(20, 0), b: pt(30, 0) };
    assert!(!ray_traverses_body(&far, &diagonals));
}
