use sat::collider::BoxCollider;
use sat::{overlap, InvalidPolygon, Polygon, Projection, Vec2};

#[test]
fn boxes_interpenetrate() {
    // A 1x2 box and a 1x1 box shifted by half a unit, at double scale.
    let a = BoxCollider::new(0, 0, 2, 4);
    let b = BoxCollider::new(1, 1, 2, 2);
    assert!(overlap(&a, &b));
}

#[test]
fn collider_method_reports_overlap() {
    // The same pair through the `Polygon` method rather than the free function.
    let collider1 = BoxCollider::new(0, 0, 2, 4);
    let collider2 = BoxCollider::new(1, 1, 2, 2);
    assert!(collider1.overlap(&collider2));
    assert!(collider2.overlap(&collider1));
}

#[test]
fn boxes_disjoint() {
    let a = BoxCollider::new(0, 0, 1, 1);
    let b = BoxCollider::new(2, 2, 1, 1);
    assert!(!overlap(&a, &b));
}

#[test]
fn boxes_touching_edges_do_not_overlap() {
    let a = BoxCollider::new(0, 0, 1, 1);
    let b = BoxCollider::new(1, 0, 1, 1);
    assert!(!overlap(&a, &b));
}

#[test]
fn boxes_partial_overlap() {
    let a = BoxCollider::new(0, 0, 2, 2);
    let b = BoxCollider::new(1, 1, 2, 2);
    assert!(overlap(&a, &b));
}

#[test]
fn box_vertices_in_winding_order() {
    let a = BoxCollider::new(3, -2, 4, 5);
    let expected = [
        Vec2 { x: 3, y: -2 },
        Vec2 { x: 3, y: 3 },
        Vec2 { x: 7, y: 3 },
        Vec2 { x: 7, y: -2 },
    ];
    assert_eq!(a.vertices(), &expected[..]);
}

#[test]
fn touching_projections_do_not_overlap() {
    // Intervals [0, 1] and [1, 2] on the x axis.
    let axis = Vec2 { x: 1, y: 0 };
    let a = BoxCollider::new(0, 0, 1, 1);
    let b = BoxCollider::new(1, 0, 1, 1);
    let pa = Projection::project(&axis, &a).unwrap();
    let pb = Projection::project(&axis, &b).unwrap();
    assert_eq!(pa.min, 0);
    assert_eq!(pa.max, 1);
    assert_eq!(pb.min, 1);
    assert_eq!(pb.max, 2);
    assert!(!pa.overlap(&pb));
    assert!(!pb.overlap(&pa));
}

#[test]
fn overlapping_projections_overlap() {
    // Intervals [0, 2] and [1, 3] on the x axis.
    let axis = Vec2 { x: 1, y: 0 };
    let a = BoxCollider::new(0, 0, 2, 1);
    let b = BoxCollider::new(1, 0, 2, 1);
    let pa = Projection::project(&axis, &a).unwrap();
    let pb = Projection::project(&axis, &b).unwrap();
    assert_eq!(pa.min, 0);
    assert_eq!(pa.max, 2);
    assert_eq!(pb.min, 1);
    assert_eq!(pb.max, 3);
    assert!(pa.overlap(&pb));
    assert!(pb.overlap(&pa));
}

#[test]
fn zero_vertices_is_invalid() {
    let axis = Vec2 { x: 1, y: 0 };
    let empty: Vec<Vec2> = Vec::new();
    assert_eq!(Projection::project(&axis, &empty), Err(InvalidPolygon));
}

#[test]
fn single_vertex_projects_to_a_point() {
    let axis = Vec2 { x: 1, y: 0 };
    let point: Vec<Vec2> = vec![Vec2 { x: 2, y: 3 }];
    let p = Projection::project(&axis, &point).unwrap();
    assert_eq!(p.min, 2);
    assert_eq!(p.max, 2);
}

#[test]
fn projection_follows_the_given_axis() {
    // On the diagonal axis (1, 1) the unit box at the origin spans [0, 2].
    let axis = Vec2 { x: 1, y: 1 };
    let a = BoxCollider::new(0, 0, 1, 1);
    let p = Projection::project(&axis, &a).unwrap();
    assert_eq!(p.min, 0);
    assert_eq!(p.max, 2);
    assert_eq!(p.axis, axis);
}

#[test]
fn overlap_is_symmetric_on_samples() {
    let a = BoxCollider::new(0, 0, 3, 2);
    let b = BoxCollider::new(2, 1, 3, 2);
    let c = BoxCollider::new(9, 9, 1, 1);
    assert_eq!(overlap(&a, &b), overlap(&b, &a));
    assert_eq!(overlap(&a, &c), overlap(&c, &a));
}

#[test]
fn box_overlaps_itself() {
    let a = BoxCollider::new(-3, 2, 5, 1);
    assert!(overlap(&a, &a));
}

#[test]
fn translation_preserves_non_overlap() {
    let a = BoxCollider::new(0, 0, 1, 1);
    let b = BoxCollider::new(5, 5, 1, 1);
    assert!(!overlap(&a, &b));
    let a_moved = BoxCollider::new(7, -3, 1, 1);
    let b_moved = BoxCollider::new(12, 2, 1, 1);
    assert!(!overlap(&a_moved, &b_moved));
}

#[test]
fn sliding_box_crosses_overlap_once_each_way() {
    let a = BoxCollider::new(0, 0, 2, 2);
    assert!(!overlap(&a, &BoxCollider::new(-3, 0, 2, 2)));
    assert!(!overlap(&a, &BoxCollider::new(-2, 0, 2, 2)));
    assert!(overlap(&a, &BoxCollider::new(-1, 0, 2, 2)));
    assert!(overlap(&a, &BoxCollider::new(0, 0, 2, 2)));
    assert!(overlap(&a, &BoxCollider::new(1, 0, 2, 2)));
    assert!(!overlap(&a, &BoxCollider::new(2, 0, 2, 2)));
    assert!(!overlap(&a, &BoxCollider::new(3, 0, 2, 2)));
}

#[test]
fn negative_coordinates_work() {
    let a = BoxCollider::new(-4, -4, 2, 2);
    let b = BoxCollider::new(-3, -3, 2, 2);
    let c = BoxCollider::new(-1, -1, 2, 2);
    assert!(overlap(&a, &b));
    assert!(!overlap(&a, &c));
}

#[test]
fn hull_and_box_overlap() {
    // A triangle handed to the engine as a bare vertex list.
    let tri: Vec<Vec2> = vec![Vec2 { x: 0, y: 0 }, Vec2 { x: 4, y: 0 }, Vec2 { x: 0, y: 4 }];
    let near = BoxCollider::new(1, 1, 1, 1);
    assert!(overlap(&tri, &near));
    let far = BoxCollider::new(5, 5, 1, 1);
    assert!(!overlap(&tri, &far));
}

#[test]
fn diagonal_axis_separates_where_bounding_boxes_touch() {
    // The box sits inside the triangle's bounding box but beyond its
    // hypotenuse: only the diagonal edge normal separates them.
    let tri: Vec<Vec2> = vec![Vec2 { x: 0, y: 0 }, Vec2 { x: 4, y: 0 }, Vec2 { x: 0, y: 4 }];
    let b = BoxCollider::new(3, 3, 1, 1);
    assert!(!overlap(&tri, &b));
}

#[test]
fn hull_overlaps_itself() {
    let tri: Vec<Vec2> = vec![Vec2 { x: 0, y: 0 }, Vec2 { x: 4, y: 0 }, Vec2 { x: 0, y: 4 }];
    assert!(overlap(&tri, &tri));
}
