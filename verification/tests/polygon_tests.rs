use world_study::polygon::{Polygon, Ring};
use world_study::position::{Envelope, Position, COORD_LIMIT};

fn pts(raw: &[(i64, i64)]) -> Vec<Position> {
    raw.iter().map(|&(x, y)| Position::new(x, y)).collect()
}

fn square(x: i64, y: i64, side: i64) -> Vec<Position> {
    pts(&[(x, y), (x + side, y), (x + side, y + side), (x, y + side), (x, y)])
}

#[test]
fn ring_needs_four_points_and_closure() {
    assert!(Ring::new(pts(&[(0, 0), (1, 0), (1, 1), (0, 0)])).is_some());
    assert!(Ring::new(pts(&[(0, 0), (1, 0), (0, 0)])).is_none());
    assert!(Ring::new(pts(&[])).is_none());
    assert!(Ring::new(pts(&[(0, 0), (1, 0), (1, 1), (0, 1)])).is_none());
    assert!(Ring::new(pts(&[(0, 0), (1, 0), (1, 1), (0, 1)])).is_none());
    assert!(Ring::new(pts(&[(0, 0), (1, 0), (1, 1), (1, 0)])).is_none());
}

#[test]
fn ring_rejects_points_out_of_range() {
    let l = COORD_LIMIT;
    assert!(Ring::new(pts(&[(l, l), (-l, l), (-l, -l), (l, l)])).is_some());
    assert!(Ring::new(pts(&[(0, 0), (l + 1, 0), (1, 1), (0, 0)])).is_none());
    assert!(Ring::new(pts(&[(0, 0), (1, -l - 1), (1, 1), (0, 0)])).is_none());
    assert!(Ring::new(pts(&[(0, 0), (1, 1), (i64::MIN, 1), (0, 0)])).is_none());
}

#[test]
fn ring_keeps_its_points() {
    let points = square(2, 3, 4);
    let ring = Ring::new(points.clone()).unwrap();
    assert_eq!(ring.points(), &points);
    assert_eq!(ring.len(), 5);
    assert_eq!(ring.clone().points(), &points);
}

#[test]
fn ring_envelope_is_the_bounding_box() {
    let ring = Ring::new(pts(&[(3, -2), (10, 4), (-5, 7), (0, -9), (3, -2)])).unwrap();
    assert_eq!(ring.envelope(), Envelope { min_x: -5, min_y: -9, max_x: 10, max_y: 7 });
}

#[test]
fn envelope_covers_its_border() {
    let e = Envelope { min_x: 0, min_y: 0, max_x: 10, max_y: 5 };
    assert!(e.contains_position(Position::new(0, 0)));
    assert!(e.contains_position(Position::new(10, 5)));
    assert!(e.contains_position(Position::new(4, 5)));
    assert!(!e.contains_position(Position::new(11, 5)));
    assert!(!e.contains_position(Position::new(4, -1)));
}

#[test]
fn position_range_check() {
    assert!(Position::new(COORD_LIMIT, -COORD_LIMIT).is_in_range());
    assert!(!Position::new(COORD_LIMIT + 1, 0).is_in_range());
    assert!(!Position::new(0, -COORD_LIMIT - 1).is_in_range());
}

#[test]
fn first_ring_is_outer_and_the_rest_are_holes() {
    let outer = square(0, 0, 10);
    let hole_a = square(1, 1, 2);
    let hole_b = square(5, 5, 3);
    let polygon = Polygon::from_rings(vec![outer.clone(), hole_a.clone(), hole_b.clone()]).unwrap();
    assert_eq!(polygon.exterior().points(), &outer);
    assert_eq!(polygon.interiors().len(), 2);
    assert_eq!(polygon.interiors()[0].points(), &hole_a);
    assert_eq!(polygon.interiors()[1].points(), &hole_b);
}

#[test]
fn polygon_needs_valid_rings() {
    assert!(Polygon::from_rings(vec![]).is_none());
    assert!(Polygon::from_rings(vec![pts(&[(0, 0), (1, 1), (0, 0)])]).is_none());
    assert!(Polygon::from_rings(vec![square(0, 0, 10), pts(&[(1, 1)])]).is_none());
    assert!(Polygon::from_rings(vec![pts(&[(1, 1)]), square(0, 0, 10)]).is_none());
    assert!(Polygon::from_rings(vec![square(0, 0, 10)]).is_some());
}

#[test]
fn polygon_new_takes_rings_as_given() {
    let outer = Ring::new(square(0, 0, 10)).unwrap();
    let hole = Ring::new(square(2, 2, 3)).unwrap();
    let polygon = Polygon::new(outer, vec![hole]);
    assert_eq!(polygon.exterior().points(), &square(0, 0, 10));
    assert_eq!(polygon.interiors()[0].points(), &square(2, 2, 3));
}

#[test]
fn polygon_envelope_ignores_holes() {
    let polygon = Polygon::from_rings(vec![square(-4, 2, 10), square(0, 5, 2)]).unwrap();
    assert_eq!(polygon.envelope(), Envelope { min_x: -4, min_y: 2, max_x: 6, max_y: 12 });
}

#[test]
fn scaling_multiplies_every_coordinate() {
    let polygon = Polygon::from_rings(vec![square(0, 0, 10), square(2, 3, 4)]).unwrap();
    let scaled = polygon.scale(2).unwrap();
    assert_eq!(scaled.exterior().points(), &square(0, 0, 20));
    assert_eq!(scaled.interiors()[0].points(), &pts(&[(4, 6), (12, 6), (12, 14), (4, 14), (4, 6)]));
    let moved = Polygon::from_rings(vec![square(-3, 5, 10)]).unwrap().scale(3).unwrap();
    assert_eq!(
        moved.exterior().points(),
        &pts(&[(-9, 15), (21, 15), (21, 45), (-9, 45), (-9, 15)])
    );
}

#[test]
fn scaling_by_one_changes_nothing_and_by_zero_collapses() {
    let polygon = Polygon::from_rings(vec![square(1, 2, 10)]).unwrap();
    assert_eq!(polygon.scale(1).unwrap().exterior().points(), &square(1, 2, 10));
    assert_eq!(polygon.scale(0).unwrap().exterior().points(), &pts(&[(0, 0); 5]));
}

#[test]
fn scaling_out_of_range_gives_nothing() {
    let l = COORD_LIMIT;
    let big = Polygon::from_rings(vec![pts(&[(0, 0), (l / 2 + 1, 0), (1, 1), (0, 0)])]).unwrap();
    assert!(big.scale(2).is_none());
    assert!(big.scale(u32::MAX).is_none());
    let edge = Polygon::from_rings(vec![pts(&[(0, 0), (l / 2, 0), (1, -l / 2), (0, 0)])]).unwrap();
    assert_eq!(
        edge.scale(2).unwrap().exterior().points(),
        &pts(&[(0, 0), (l, 0), (2, -l), (0, 0)])
    );
    let hole_out = Polygon::from_rings(vec![
        square(0, 0, 10),
        pts(&[(1, 1), (2, 1), (2, l), (1, 1)]),
    ])
    .unwrap();
    assert!(hole_out.scale(2).is_none());
}

#[test]
fn ring_scaling_matches_polygon_scaling() {
    let ring = Ring::new(square(1, 1, 2)).unwrap();
    assert_eq!(
        ring.scale(5).unwrap().points(),
        &pts(&[(5, 5), (15, 5), (15, 15), (5, 15), (5, 5)])
    );
}

#[test]
fn polygon_clone_is_equal() {
    let polygon = Polygon::from_rings(vec![square(0, 0, 10), square(2, 3, 4)]).unwrap();
    let copy = polygon.clone();
    assert_eq!(copy.exterior().points(), polygon.exterior().points());
    assert_eq!(copy.interiors()[0].points(), polygon.interiors()[0].points());
}

#[test]
fn simplified_rings_are_taken_over_only_if_valid() {
    let polygon = Polygon::from_rings(vec![
        pts(&[(0, 0), (5, 0), (10, 0), (10, 10), (0, 10), (0, 0)]),
        square(2, 2, 3),
    ])
    .unwrap();
    let kept = polygon.accept_simplified(vec![square(0, 0, 10), square(2, 2, 3)]);
    assert_eq!(kept.exterior().points(), &square(0, 0, 10));
    assert_eq!(kept.interiors().len(), 1);
    let dropped_hole = polygon.accept_simplified(vec![square(0, 0, 10)]);
    assert!(dropped_hole.interiors().is_empty());
    for broken in [
        vec![],
        vec![pts(&[(0, 0), (10, 10), (0, 0)])],
        vec![pts(&[(0, 0), (10, 0), (10, 10), (0, 10)])],
        vec![square(0, 0, 10), pts(&[(2, 2), (2, 2)])],
        vec![pts(&[(0, 0), (i64::MAX, 0), (10, 10), (0, 0)])],
    ] {
        let same = polygon.accept_simplified(broken);
        assert_eq!(same.exterior().points(), polygon.exterior().points());
        assert_eq!(same.interiors().len(), 1);
        assert_eq!(same.interiors()[0].points(), &square(2, 2, 3));
    }
}

#[test]
fn simplification_keeps_rings_closed() {
    let dense: Vec<Position> = (0..=40)
        .map(|i| Position::new(i * 25, 0))
        .chain((1..=40).map(|i| Position::new(1000, i * 25)))
        .chain((1..=40).map(|i| Position::new(1000 - i * 25, 1000)))
        .chain((1..=40).map(|i| Position::new(0, 1000 - i * 25)))
        .collect();
    let polygon = Polygon::from_rings(vec![dense.clone()]).unwrap();
    let as_float = geo::Polygon::new(
        geo::LineString::from(dense.iter().map(|p| (p.x as f64, p.y as f64)).collect::<Vec<_>>()),
        vec![],
    );
    let simplified = geo::SimplifyVw::simplify_vw(&as_float, &1.0);
    let rings = vec![simplified
        .exterior()
        .coords()
        .map(|c| Position::new(c.x as i64, c.y as i64))
        .collect::<Vec<_>>()];
    let thinned = polygon.accept_simplified(rings);
    let points = thinned.exterior().points();
    assert!(points.len() >= 4);
    assert!(points.len() < dense.len());
    assert_eq!(points.first(), points.last());
    assert_eq!(thinned.envelope(), polygon.envelope());
}
