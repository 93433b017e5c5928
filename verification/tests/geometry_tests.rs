use volumetric_lights::geometry::{do_lines_intersect, overlap, squared_distance, Point, Segment};

fn pt(x: i32, y: i32) -> Point {
    Point { x, y }
}

fn sg(ax: i32, ay: i32, bx: i32, by: i32) -> Segment {
    Segment { a: pt(ax, ay), b: pt(bx, by) }
}

#[test]
fn crossing_segments_intersect() {
    let vertical = sg(0, -1, 0, 1);
    let horizontal = sg(-1, 0, 1, 0);
    assert!(do_lines_intersect(&vertical, &horizontal));
}

#[test]
fn crossing_point_outside_extents_does_not_intersect() {
    let vertical = sg(0, 5, 0, 10);
    let horizontal = sg(-1, 0, 1, 0);
    assert!(!do_lines_intersect(&vertical, &horizontal));
}

#[test]
fn parallel_segments_do_not_intersect() {
    let one = sg(0, 0, 10, 0);
    let other = sg(0, 1, 10, 1);
    assert!(!do_lines_intersect(&one, &other));
}

#[test]
fn collinear_sharing_endpoint_intersect() {
    // Two collinear occlusion segments sharing an endpoint: the
    // exact-equality shortcut fires before the overlap heuristic.
    let one = sg(0, 0, 1, 0);
    let other = sg(1, 0, 2, 0);
    assert!(do_lines_intersect(&one, &other));
}

#[test]
fn collinear_disjoint_do_not_intersect() {
    let one = sg(0, 0, 1, 0);
    let other = sg(3, 0, 4, 0);
    assert!(!do_lines_intersect(&one, &other));
}

#[test]
fn collinear_overlapping_intersect() {
    let one = sg(0, 0, 5, 0);
    let other = sg(3, 0, 8, 0);
    assert!(do_lines_intersect(&one, &other));
}

#[test]
fn intersection_is_symmetric_on_sample_pairs() {
    let pairs = [
        (sg(0, -1, 0, 1), sg(-1, 0, 1, 0)),
        (sg(0, 0, 10, 0), sg(0, 1, 10, 1)),
        (sg(0, 0, 1, 0), sg(1, 0, 2, 0)),
        (sg(0, 0, 1, 0), sg(3, 0, 4, 0)),
        (sg(0, 0, 5, 5), sg(5, 0, 0, 5)),
        (sg(-3, 7, 4, -2), sg(1, 1, 6, 9)),
    ];
    for (a, b) in pairs.iter() {
        assert_eq!(do_lines_intersect(a, b), do_lines_intersect(b, a));
    }
}

#[test]
fn degenerate_segment_can_break_symmetry() {
    // A zero-length segment steers the two argument orders into different
    // branches of the test: parallel in one order, collinear in the other.
    // This boundary is why the symmetry law excludes degenerate segments.
    let span = sg(-1, 0, 1, 0);
    let point_like = sg(0, 5, 0, 5);
    assert!(!do_lines_intersect(&span, &point_like));
    assert!(do_lines_intersect(&point_like, &span));
}

#[test]
fn overlap_separated_collinear_points() {
    assert!(!overlap(pt(0, 0), pt(1, 0), pt(3, 0), pt(4, 0)));
    assert!(overlap(pt(0, 0), pt(2, 0), pt(1, 0), pt(3, 0)));
}

#[test]
fn squared_distance_exact_value() {
    assert_eq!(squared_distance(pt(3, 4), pt(0, 0)), 25);
    assert_eq!(squared_distance(pt(-2, 1), pt(1, 5)), 25);
    assert_eq!(squared_distance(pt(7, -3), pt(7, -3)), 0);
}
