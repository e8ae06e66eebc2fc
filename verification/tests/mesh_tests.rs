use world_study::meshes::{
    triangle_indices, Color, CountryMeshes, Mesh, TriangulationError, Vertex,
};
use world_study::polygon::Polygon;
use world_study::position::Position;

const DEFAULT: Color = Color { r: 222, g: 163, b: 139 };
const HOVERED: Color = Color { r: 249, g: 130, b: 132 };
const SELECTED: Color = Color { r: 255, g: 196, b: 132 };

fn pts(raw: &[(i64, i64)]) -> Vec<Position> {
    raw.iter().map(|&(x, y)| Position::new(x, y)).collect()
}

fn square(x: i64, y: i64, side: i64) -> Vec<Position> {
    pts(&[(x, y), (x + side, y), (x + side, y + side), (x, y + side), (x, y)])
}

fn earcut(polygon: &Polygon) -> Result<Vec<usize>, TriangulationError> {
    let input = polygon.mesh_input();
    let flat: Vec<f64> = input.coordinates.iter().map(|&c| c as f64).collect();
    earcutr::earcut(&flat, &input.hole_indices, 2).map_err(|_| TriangulationError::Failed)
}

fn doubled_area(ring: &[Position]) -> i64 {
    let mut sum = 0;
    for i in 0..ring.len() - 1 {
        sum += ring[i].x * ring[i + 1].y - ring[i + 1].x * ring[i].y;
    }
    sum.abs()
}

fn doubled_mesh_area(mesh: &Mesh) -> i64 {
    let mut sum = 0;
    for t in mesh.indices.chunks(3) {
        let a = mesh.vertices[t[0] as usize].pos;
        let b = mesh.vertices[t[1] as usize].pos;
        let c = mesh.vertices[t[2] as usize].pos;
        sum += ((b.x - a.x) * (c.y - a.y) - (c.x - a.x) * (b.y - a.y)).abs();
    }
    sum
}

#[test]
fn mesh_input_lists_outer_ring_then_holes() {
    let polygon =
        Polygon::from_rings(vec![square(0, 0, 10), square(1, 1, 2), square(5, 5, 3)]).unwrap();
    let input = polygon.mesh_input();
    let mut all = square(0, 0, 10);
    all.extend(square(1, 1, 2));
    all.extend(square(5, 5, 3));
    assert_eq!(input.points, all);
    assert_eq!(input.hole_indices, vec![5, 10]);
    assert_eq!(input.coordinates.len(), 30);
    assert_eq!(&input.coordinates[..6], &[0, 0, 10, 0, 10, 10]);
    assert_eq!(&input.coordinates[10..14], &[1, 1, 3, 1]);
    for (i, p) in input.points.iter().enumerate() {
        assert_eq!(input.coordinates[2 * i], p.x);
        assert_eq!(input.coordinates[2 * i + 1], p.y);
    }
}

#[test]
fn mesh_input_without_holes_has_no_hole_index() {
    let input = Polygon::from_rings(vec![square(0, 0, 10)]).unwrap().mesh_input();
    assert!(input.hole_indices.is_empty());
    assert_eq!(input.points, square(0, 0, 10));
}

#[test]
fn whole_triangles_are_kept_and_the_rest_dropped() {
    assert_eq!(triangle_indices(4, &Ok(vec![0, 1, 2, 2, 3, 0])), Ok(vec![0, 1, 2, 2, 3, 0]));
    assert_eq!(triangle_indices(4, &Ok(vec![0, 1, 2, 2, 3])), Ok(vec![0, 1, 2]));
    assert_eq!(triangle_indices(4, &Ok(vec![0, 1, 2, 2])), Ok(vec![0, 1, 2]));
    assert_eq!(triangle_indices(4, &Ok(vec![0, 1])), Ok(vec![]));
    assert_eq!(triangle_indices(4, &Ok(vec![])), Ok(vec![]));
}

#[test]
fn triangulation_errors_are_told_apart() {
    assert_eq!(
        triangle_indices(4, &Err(TriangulationError::Failed)),
        Err(TriangulationError::Failed)
    );
    assert_eq!(
        triangle_indices(4, &Err(TriangulationError::Missing)),
        Err(TriangulationError::Missing)
    );
    assert_eq!(
        triangle_indices(4, &Ok(vec![0, 1, 4])),
        Err(TriangulationError::IndexOutOfRange)
    );
    assert_eq!(
        triangle_indices(0, &Ok(vec![0])),
        Err(TriangulationError::IndexOutOfRange)
    );
    assert_eq!(triangle_indices(4, &Ok(vec![0, 1, 3])), Ok(vec![0, 1, 3]));
}

#[test]
fn colored_mesh_has_one_vertex_per_point() {
    let points = pts(&[(0, 0), (4, 0), (4, 4)]);
    let mesh = Mesh::colored(&points, &vec![0, 1, 2], HOVERED);
    assert_eq!(
        mesh.vertices,
        vec![
            Vertex { pos: Position::new(0, 0), color: HOVERED },
            Vertex { pos: Position::new(4, 0), color: HOVERED },
            Vertex { pos: Position::new(4, 4), color: HOVERED },
        ]
    );
    assert_eq!(mesh.indices, vec![0, 1, 2]);
    assert_eq!(mesh.triangle_count(), 1);
}

#[test]
fn scaled_square_gives_two_triangles_of_area_400() {
    let square10 = Polygon::from_rings(vec![square(0, 0, 10)]).unwrap();
    let scaled = square10.scale(2).unwrap();
    // Simplification with tolerance 0 removes no corner of a square.
    let as_float = geo::Polygon::new(
        geo::LineString::from(
            scaled.exterior().points().iter().map(|p| (p.x as f64, p.y as f64)).collect::<Vec<_>>(),
        ),
        vec![],
    );
    let simplified = geo::SimplifyVw::simplify_vw(&as_float, &0.0);
    let kept: Vec<Position> =
        simplified.exterior().coords().map(|c| Position::new(c.x as i64, c.y as i64)).collect();
    let polygon = Polygon::from_rings(vec![kept]).unwrap();
    assert_eq!(polygon.exterior().points(), &square(0, 0, 20));
    let envelope = polygon.envelope();
    assert_eq!(envelope.max_x - envelope.min_x, 20);
    assert_eq!(envelope.max_y - envelope.min_y, 20);

    let meshes = CountryMeshes::build(&vec![polygon.clone()], &vec![earcut(&polygon)]);
    assert_eq!(meshes.default.len(), 1);
    assert_eq!(meshes.default[0].triangle_count(), 2);
    assert_eq!(meshes.default[0].indices.len(), 6);
    assert_eq!(doubled_mesh_area(&meshes.default[0]), 2 * 400);
}

#[test]
fn triangles_cover_outer_area_minus_holes() {
    let outer = square(0, 0, 100);
    let hole_a = square(10, 10, 20);
    let hole_b = pts(&[(50, 50), (90, 50), (70, 80), (50, 50)]);
    let polygon = Polygon::from_rings(vec![outer.clone(), hole_a.clone(), hole_b.clone()]).unwrap();
    let meshes = CountryMeshes::build(&vec![polygon.clone()], &vec![earcut(&polygon)]);
    assert_eq!(meshes.default.len(), 1);
    let expected = doubled_area(&outer) - doubled_area(&hole_a) - doubled_area(&hole_b);
    assert_eq!(expected, 2 * (10000 - 400 - 600));
    assert_eq!(doubled_mesh_area(&meshes.default[0]), expected);
    assert_eq!(doubled_mesh_area(&meshes.hovered[0]), expected);
    assert_eq!(doubled_mesh_area(&meshes.selected[0]), expected);
}

#[test]
fn concave_ring_is_covered_exactly() {
    let ring = pts(&[(0, 0), (10, 0), (10, 10), (5, 3), (0, 10), (0, 0)]);
    let polygon = Polygon::from_rings(vec![ring.clone()]).unwrap();
    let meshes = CountryMeshes::build(&vec![polygon.clone()], &vec![earcut(&polygon)]);
    assert_eq!(doubled_mesh_area(&meshes.default[0]), doubled_area(&ring));
    assert_eq!(meshes.default[0].triangle_count(), 3);
}

#[test]
fn variants_share_topology_and_differ_in_color() {
    let polygon = Polygon::from_rings(vec![square(0, 0, 10), square(2, 2, 3)]).unwrap();
    let meshes = CountryMeshes::build(&vec![polygon.clone()], &vec![earcut(&polygon)]);
    assert_eq!(meshes.default.len(), 1);
    assert_eq!(meshes.hovered.len(), 1);
    assert_eq!(meshes.selected.len(), 1);
    let (d, h, s) = (&meshes.default[0], &meshes.hovered[0], &meshes.selected[0]);
    assert_eq!(d.indices, h.indices);
    assert_eq!(d.indices, s.indices);
    assert_eq!(d.vertices.len(), 10);
    for i in 0..d.vertices.len() {
        assert_eq!(d.vertices[i].pos, polygon.mesh_input().points[i]);
        assert_eq!(h.vertices[i].pos, d.vertices[i].pos);
        assert_eq!(s.vertices[i].pos, d.vertices[i].pos);
        assert_eq!(d.vertices[i].color, DEFAULT);
        assert_eq!(h.vertices[i].color, HOVERED);
        assert_eq!(s.vertices[i].color, SELECTED);
    }
}

#[test]
fn failed_polygon_adds_nothing_and_spares_its_siblings() {
    let a = Polygon::from_rings(vec![square(0, 0, 10)]).unwrap();
    let b = Polygon::from_rings(vec![square(20, 0, 10)]).unwrap();
    let c = Polygon::from_rings(vec![square(40, 0, 10)]).unwrap();
    let polygons = vec![a.clone(), b, c.clone()];
    let triangulations = vec![earcut(&a), Err(TriangulationError::Failed), earcut(&c)];
    let meshes = CountryMeshes::build(&polygons, &triangulations);
    assert_eq!(meshes.default.len(), 2);
    assert_eq!(meshes.hovered.len(), 2);
    assert_eq!(meshes.selected.len(), 2);
    assert_eq!(meshes.default[0].vertices[0].pos, Position::new(0, 0));
    assert_eq!(meshes.default[1].vertices[0].pos, Position::new(40, 0));
}

#[test]
fn missing_or_unusable_triangulation_adds_nothing() {
    let a = Polygon::from_rings(vec![square(0, 0, 10)]).unwrap();
    let b = Polygon::from_rings(vec![square(20, 0, 10)]).unwrap();
    let polygons = vec![a.clone(), b];
    let short = CountryMeshes::build(&polygons, &vec![earcut(&a)]);
    assert_eq!(short.default.len(), 1);
    let none = CountryMeshes::build(&polygons, &vec![]);
    assert!(none.default.is_empty() && none.hovered.is_empty() && none.selected.is_empty());
    let bad = CountryMeshes::build(&polygons, &vec![Ok(vec![0, 1, 5]), Ok(vec![0, 1, 4])]);
    assert_eq!(bad.default.len(), 1);
    assert_eq!(bad.default[0].vertices[0].pos, Position::new(20, 0));
    assert_eq!(bad.default[0].indices, vec![0, 1, 4]);
}

#[test]
fn no_polygon_gives_no_mesh() {
    let meshes = CountryMeshes::build(&vec![], &vec![]);
    assert!(meshes.default.is_empty());
    assert!(meshes.hovered.is_empty());
    assert!(meshes.selected.is_empty());
}
