//! Triangle meshes of polygons in three colours.
//!
//! The triangulation itself is made elsewhere: [`Polygon::mesh_input`] lays a
//! polygon out for it, and [`triangle_indices`] checks what it hands back.

use vstd::prelude::*;
use crate::country::Country;
use crate::data_map::{distinct_ids, holds_id, index_of, DataMap, HasId};
use crate::keyed::Keyed;
use crate::polygon::{Polygon, PolygonView};
use crate::position::Position;

verus! {

/// A flat fill colour.
#[derive(Clone, Copy, Debug, PartialEq, Eq, Structural)]
pub struct Color {
    pub r: u8,
    pub g: u8,
    pub b: u8,
}

/// Fill of a region that is neither hovered nor selected.
pub open spec fn default_fill() -> Color {
    Color { r: 222, g: 163, b: 139 }
}

/// Fill of the region under the pointer.
pub open spec fn hovered_fill() -> Color {
    Color { r: 249, g: 130, b: 132 }
}

/// Fill of the selected region.
pub open spec fn selected_fill() -> Color {
    Color { r: 255, g: 196, b: 132 }
}

/// One corner of a triangle mesh.
#[derive(Clone, Copy, Debug, PartialEq, Eq, Structural)]
pub struct Vertex {
    pub pos: Position,
    pub color: Color,
}

/// Why a polygon has no mesh.
#[derive(Clone, Copy, Debug, PartialEq, Eq, Structural)]
pub enum TriangulationError {
    /// The triangulator could not handle the polygon.
    Failed,
    /// The triangulator named a vertex that the polygon does not have, or
    /// the polygon has more vertices than an index can name.
    IndexOutOfRange,
    /// No triangulation was supplied for the polygon.
    Missing,
}

/// What a triangulator is given for one polygon.
#[derive(Debug)]
pub struct MeshInput {
    /// The vertices: the outer ring's points, then each hole's in turn.
    pub points: Vec<Position>,
    /// The same points as `x, y, x, y, ...`.
    pub coordinates: Vec<i64>,
    /// For each hole, the index in `points` of its first vertex.
    pub hole_indices: Vec<usize>,
}

/// `coordinates` lists the points as `x, y, x, y, ...`.
pub open spec fn flattened(points: Seq<Position>, coordinates: Seq<i64>) -> bool {
    &&& coordinates.len() == 2 * points.len()
    &&& forall|i: int|
        0 <= i < points.len() ==> coordinates[2 * i] == (#[trigger] points[i]).x && coordinates[2
            * i + 1] == points[i].y
}

impl MeshInput {
    /// The input is the layout of `polygon`: its points, outer ring first,
    /// the same points flattened, and where each hole starts.
    pub open spec fn lays_out(&self, polygon: PolygonView) -> bool {
        &&& self.points@ == polygon.all_points()
        &&& flattened(self.points@, self.coordinates@)
        &&& self.hole_indices@.len() == polygon.interiors.len()
        &&& forall|k: int|
            0 <= k < polygon.interiors.len() ==> (#[trigger] self.hole_indices@[k]) as int
                == polygon.hole_start(k)
    }
}

impl Polygon {
    /// Lays the polygon out for a triangulator that cuts holes by the index
    /// at which each of them starts.
    pub fn mesh_input(&self) -> (input: MeshInput)
        ensures
            input.lays_out(self@),
    {
        let mut points: Vec<Position> = Vec::new();
        let mut coordinates: Vec<i64> = Vec::new();
        let mut hole_indices: Vec<usize> = Vec::new();
        let outer = self.exterior().points();
        let n = outer.len();
        let mut i: usize = 0;
        while i < n
            invariant
                i <= n,
                n == outer@.len(),
                points@ == outer@.take(i as int),
                flattened(points@, coordinates@),
            decreases n - i,
        {
            let p = outer[i];
            points.push(p);
            coordinates.push(p.x);
            coordinates.push(p.y);
            proof {
                assert(outer@.take(i + 1) =~= outer@.take(i as int).push(p));
            }
            i += 1;
        }
        proof {
            assert(outer@.take(n as int) =~= outer@);
            assert(self@.interiors.take(0) =~= Seq::<Seq<Position>>::empty());
            assert(self@.interiors.take(0).flatten() =~= Seq::<Position>::empty());
            assert(points@ =~= self@.exterior + self@.interiors.take(0).flatten());
        }
        let holes = self.interiors();
        let m = holes.len();
        let mut k: usize = 0;
        while k < m
            invariant
                k <= m,
                m == holes@.len(),
                holes@.map_values(|r: crate::polygon::Ring| r@) == self@.interiors,
                points@ == self@.exterior + self@.interiors.take(k as int).flatten(),
                flattened(points@, coordinates@),
                hole_indices@.len() == k,
                forall|j: int|
                    0 <= j < k ==> (#[trigger] hole_indices@[j]) as int == self@.hole_start(j),
            decreases m - k,
        {
            hole_indices.push(points.len());
            let ring = holes[k].points();
            assert(ring@ == self@.interiors[k as int]);
            let ghost base = points@;
            let len = ring.len();
            let mut i: usize = 0;
            while i < len
                invariant
                    i <= len,
                    len == ring@.len(),
                    points@ == base + ring@.take(i as int),
                    flattened(points@, coordinates@),
                decreases len - i,
            {
                let p = ring[i];
                points.push(p);
                coordinates.push(p.x);
                coordinates.push(p.y);
                proof {
                    assert(base + ring@.take(i + 1) =~= (base + ring@.take(i as int)).push(p));
                }
                i += 1;
            }
            proof {
                assert(ring@.take(len as int) =~= ring@);
                let upto = self@.interiors.take(k as int);
                assert(self@.interiors.take(k + 1) =~= upto.push(ring@));
                upto.lemma_flatten_push(ring@);
                assert(points@ =~= self@.exterior + self@.interiors.take(k + 1).flatten());
            }
            k += 1;
        }
        proof {
            assert(self@.interiors.take(m as int) =~= self@.interiors);
        }
        MeshInput { points, coordinates, hole_indices }
    }
}

/// Whether a triangulation names only vertices that exist, for a polygon
/// whose vertices an index can name.
pub open spec fn usable_indices(point_count: nat, indices: Seq<usize>) -> bool {
    &&& point_count <= u32::MAX
    &&& forall|i: int| 0 <= i < indices.len() ==> (#[trigger] indices[i]) < point_count
}

/// The indices of the whole triangles of a triangulation: all of them but
/// the one or two left over where the count is no multiple of three.
pub open spec fn whole_triangles(indices: Seq<usize>) -> Seq<u32> {
    Seq::new((indices.len() - indices.len() % 3) as nat, |i: int| indices[i] as u32)
}

/// The index buffer that a triangulation gives for a polygon of
/// `point_count` vertices, or why there is none.
pub open spec fn index_buffer(
    point_count: nat,
    triangulation: Result<Vec<usize>, TriangulationError>,
) -> Result<Seq<u32>, TriangulationError> {
    match triangulation {
        Err(e) => Err(e),
        Ok(indices) => if usable_indices(point_count, indices@) {
            Ok(whole_triangles(indices@))
        } else {
            Err(TriangulationError::IndexOutOfRange)
        },
    }
}

/// Checks a triangulation against the number of vertices and keeps its
/// whole triangles.
pub fn triangle_indices(
    point_count: usize,
    triangulation: &Result<Vec<usize>, TriangulationError>,
) -> (buffer: Result<Vec<u32>, TriangulationError>)
    ensures
        match index_buffer(point_count as nat, *triangulation) {
            Ok(expected) => buffer is Ok && buffer.unwrap()@ == expected,
            Err(e) => buffer == Err::<Vec<u32>, TriangulationError>(e),
        },
{
    match triangulation {
        Err(e) => Err(*e),
        Ok(indices) => {
            if point_count > 0xffff_ffff {
                return Err(TriangulationError::IndexOutOfRange);
            }
            let n = indices.len();
            let mut i: usize = 0;
            while i < n
                invariant
                    i <= n,
                    n == indices@.len(),
                    *triangulation == Ok::<Vec<usize>, TriangulationError>(*indices),
                    forall|k: int| 0 <= k < i ==> (#[trigger] indices@[k]) < point_count,
                decreases n - i,
            {
                if indices[i] >= point_count {
                    proof {
                        assert(!(indices@[i as int] < point_count));
                        assert(!usable_indices(point_count as nat, indices@));
                    }
                    return Err(TriangulationError::IndexOutOfRange);
                }
                i += 1;
            }
            let whole = n - n % 3;
            let mut buffer: Vec<u32> = Vec::new();
            let mut i: usize = 0;
            while i < whole
                invariant
                    i <= whole <= n,
                    n == indices@.len(),
                    point_count <= 0xffff_ffff,
                    forall|k: int| 0 <= k < n ==> (#[trigger] indices@[k]) < point_count,
                    buffer@.len() == i,
                    forall|k: int| 0 <= k < i ==> (#[trigger] buffer@[k]) == indices@[k] as u32,
                decreases whole - i,
            {
                buffer.push(indices[i] as u32);
                i += 1;
            }
            proof {
                assert(buffer@ =~= whole_triangles(indices@));
            }
            Ok(buffer)
        },
    }
}

/// What proofs see of a mesh.
pub struct MeshView {
    pub vertices: Seq<Vertex>,
    pub indices: Seq<u32>,
}

/// A triangle list: every three indices name the corners of one triangle.
#[derive(Debug)]
pub struct Mesh {
    pub vertices: Vec<Vertex>,
    pub indices: Vec<u32>,
}

impl View for Mesh {
    type V = MeshView;

    open spec fn view(&self) -> MeshView {
        MeshView { vertices: self.vertices@, indices: self.indices@ }
    }
}

/// The mesh of the given points and index buffer in one colour: one vertex
/// per point, in order.
pub open spec fn colored_mesh(points: Seq<Position>, indices: Seq<u32>, color: Color) -> MeshView {
    MeshView { vertices: points.map_values(|p: Position| Vertex { pos: p, color }), indices }
}

impl Mesh {
    /// Every index names a vertex, and the indices come in threes.
    pub open spec fn wf(&self) -> bool {
        &&& self.indices@.len() % 3 == 0
        &&& forall|i: int| 0 <= i < self.indices@.len() ==> (#[trigger] self.indices@[i])
            < self.vertices@.len()
    }

    /// Number of triangles.
    pub fn triangle_count(&self) -> (n: usize)
        ensures
            n == self.indices@.len() / 3,
    {
        self.indices.len() / 3
    }

    /// Builds the mesh of `points` and `indices` in one colour.
    pub fn colored(points: &Vec<Position>, indices: &Vec<u32>, color: Color) -> (mesh: Mesh)
        ensures
            mesh@ == colored_mesh(points@, indices@, color),
    {
        let mut vertices: Vec<Vertex> = Vec::new();
        let n = points.len();
        let mut i: usize = 0;
        while i < n
            invariant
                i <= n,
                n == points@.len(),
                vertices@.len() == i,
                forall|k: int|
                    0 <= k < i ==> (#[trigger] vertices@[k]) == (Vertex {
                        pos: points@[k],
                        color,
                    }),
            decreases n - i,
        {
            vertices.push(Vertex { pos: points[i], color });
            i += 1;
        }
        let mut copied: Vec<u32> = Vec::new();
        let m = indices.len();
        let mut j: usize = 0;
        while j < m
            invariant
                j <= m,
                m == indices@.len(),
                copied@ == indices@.take(j as int),
            decreases m - j,
        {
            copied.push(indices[j]);
            proof {
                assert(indices@.take(j + 1) =~= indices@.take(j as int).push(indices@[j as int]));
            }
            j += 1;
        }
        proof {
            assert(indices@.take(m as int) =~= indices@);
            assert(vertices@ =~= points@.map_values(|p: Position| Vertex { pos: p, color }));
        }
        Mesh { vertices, indices: copied }
    }
}

/// The triangulation supplied for polygon `k`, or the note that there is none.
pub open spec fn triangulation_at(
    triangulations: Seq<Result<Vec<usize>, TriangulationError>>,
    k: int,
) -> Result<Vec<usize>, TriangulationError> {
    if 0 <= k < triangulations.len() {
        triangulations[k]
    } else {
        Err(TriangulationError::Missing)
    }
}

/// The mesh of one polygon in one colour, where its triangulation gives one.
pub open spec fn polygon_mesh(
    polygon: PolygonView,
    triangulation: Result<Vec<usize>, TriangulationError>,
    color: Color,
) -> Option<MeshView> {
    match index_buffer(polygon.all_points().len(), triangulation) {
        Ok(indices) => Some(colored_mesh(polygon.all_points(), indices, color)),
        Err(_) => None,
    }
}

/// The meshes of the first `count` polygons in one colour, in the polygons'
/// order. A polygon without a usable triangulation has none.
pub open spec fn polygon_meshes(
    polygons: Seq<Polygon>,
    triangulations: Seq<Result<Vec<usize>, TriangulationError>>,
    color: Color,
    count: nat,
) -> Seq<MeshView>
    decreases count,
{
    if count == 0 {
        Seq::empty()
    } else {
        let before = polygon_meshes(polygons, triangulations, color, (count - 1) as nat);
        match polygon_mesh(
            polygons[count - 1]@,
            triangulation_at(triangulations, count - 1),
            color,
        ) {
            Some(mesh) => before.push(mesh),
            None => before,
        }
    }
}

/// The drawable meshes of one region, in three colours that share vertices
/// and triangles.
#[derive(Debug)]
pub struct CountryMeshes {
    pub default: Vec<Mesh>,
    pub hovered: Vec<Mesh>,
    pub selected: Vec<Mesh>,
}

/// The views of a list of meshes.
pub open spec fn mesh_views(meshes: Seq<Mesh>) -> Seq<MeshView> {
    meshes.map_values(|m: Mesh| m@)
}

impl CountryMeshes {
    /// The meshes are those of `polygons` under `triangulations`.
    pub open spec fn built_from(
        &self,
        polygons: Seq<Polygon>,
        triangulations: Seq<Result<Vec<usize>, TriangulationError>>,
    ) -> bool {
        &&& mesh_views(self.default@) == polygon_meshes(
            polygons,
            triangulations,
            default_fill(),
            polygons.len(),
        )
        &&& mesh_views(self.hovered@) == polygon_meshes(
            polygons,
            triangulations,
            hovered_fill(),
            polygons.len(),
        )
        &&& mesh_views(self.selected@) == polygon_meshes(
            polygons,
            triangulations,
            selected_fill(),
            polygons.len(),
        )
    }

    /// Builds the three mesh lists of one region. `triangulations[k]` is what
    /// the triangulator made of `polygons[k].mesh_input()`. A polygon whose
    /// triangulation failed, is missing or names a vertex that does not exist
    /// adds nothing to any list; the other polygons are not affected.
    pub fn build(
        polygons: &Vec<Polygon>,
        triangulations: &Vec<Result<Vec<usize>, TriangulationError>>,
    ) -> (meshes: CountryMeshes)
        ensures
            meshes.built_from(polygons@, triangulations@),
    {
        let mut default_meshes: Vec<Mesh> = Vec::new();
        let mut hovered_meshes: Vec<Mesh> = Vec::new();
        let mut selected_meshes: Vec<Mesh> = Vec::new();
        let n = polygons.len();
        let mut k: usize = 0;
        while k < n
            invariant
                k <= n,
                n == polygons@.len(),
                mesh_views(default_meshes@) == polygon_meshes(
                    polygons@,
                    triangulations@,
                    default_fill(),
                    k as nat,
                ),
                mesh_views(hovered_meshes@) == polygon_meshes(
                    polygons@,
                    triangulations@,
                    hovered_fill(),
                    k as nat,
                ),
                mesh_views(selected_meshes@) == polygon_meshes(
                    polygons@,
                    triangulations@,
                    selected_fill(),
                    k as nat,
                ),
            decreases n - k,
        {
            let input = polygons[k].mesh_input();
            let missing: Result<Vec<usize>, TriangulationError> = Err(TriangulationError::Missing);
            let triangulation = if k < triangulations.len() {
                &triangulations[k]
            } else {
                &missing
            };
            assert(*triangulation == triangulation_at(triangulations@, k as int));
            let ghost d0 = default_meshes@;
            let ghost h0 = hovered_meshes@;
            let ghost s0 = selected_meshes@;
            if let Ok(indices) = triangle_indices(input.points.len(), triangulation) {
                let d = Mesh::colored(
                    &input.points,
                    &indices,
                    Color { r: 222, g: 163, b: 139 },
                );
                let h = Mesh::colored(
                    &input.points,
                    &indices,
                    Color { r: 249, g: 130, b: 132 },
                );
                let s = Mesh::colored(
                    &input.points,
                    &indices,
                    Color { r: 255, g: 196, b: 132 },
                );
                default_meshes.push(d);
                hovered_meshes.push(h);
                selected_meshes.push(s);
                proof {
                    assert(mesh_views(default_meshes@) =~= mesh_views(d0).push(d@));
                    assert(mesh_views(hovered_meshes@) =~= mesh_views(h0).push(h@));
                    assert(mesh_views(selected_meshes@) =~= mesh_views(s0).push(s@));
                }
            }
            k += 1;
        }
        CountryMeshes {
            default: default_meshes,
            hovered: hovered_meshes,
            selected: selected_meshes,
        }
    }
}

/// The three mesh lists of a region have the same number of meshes, and
/// meshes at the same place have the same triangles.
pub proof fn lemma_variants_share_topology(
    polygons: Seq<Polygon>,
    triangulations: Seq<Result<Vec<usize>, TriangulationError>>,
    a: Color,
    b: Color,
    count: nat,
)
    requires
        count <= polygons.len(),
    ensures
        polygon_meshes(polygons, triangulations, a, count).len() == polygon_meshes(
            polygons,
            triangulations,
            b,
            count,
        ).len(),
        forall|i: int|
            0 <= i < polygon_meshes(polygons, triangulations, a, count).len() ==> {
                let ma = #[trigger] polygon_meshes(polygons, triangulations, a, count)[i];
                let mb = polygon_meshes(polygons, triangulations, b, count)[i];
                &&& ma.indices == mb.indices
                &&& ma.vertices.len() == mb.vertices.len()
                &&& forall|v: int|
                    0 <= v < ma.vertices.len() ==> (#[trigger] ma.vertices[v]).pos
                        == mb.vertices[v].pos && ma.vertices[v].color == a && mb.vertices[v].color
                        == b
            },
    decreases count,
{
    if count > 0 {
        lemma_variants_share_topology(polygons, triangulations, a, b, (count - 1) as nat);
    }
}

/// Every mesh made of a polygon is well formed: its indices come in threes
/// and name vertices of the mesh.
pub proof fn lemma_polygon_mesh_wf(
    polygon: PolygonView,
    triangulation: Result<Vec<usize>, TriangulationError>,
    color: Color,
)
    requires
        polygon_mesh(polygon, triangulation, color) is Some,
    ensures
        ({
            let mesh = polygon_mesh(polygon, triangulation, color).unwrap();
            &&& mesh.vertices.len() == polygon.all_points().len()
            &&& mesh.indices.len() % 3 == 0
            &&& forall|i: int|
                0 <= i < mesh.indices.len() ==> (#[trigger] mesh.indices[i]) < mesh.vertices.len()
        }),
{
    let n = triangulation.unwrap()@.len();
    assert((n - n % 3) % 3 == 0) by (nonlinear_arith)
        requires
            n >= 0,
    ;
}

/// The triangulations supplied for the polygons of country `i`; none where
/// the list is too short.
pub open spec fn triangulations_for(
    triangulations: Seq<Vec<Result<Vec<usize>, TriangulationError>>>,
    i: int,
) -> Seq<Result<Vec<usize>, TriangulationError>> {
    if 0 <= i < triangulations.len() {
        triangulations[i]@
    } else {
        Seq::empty()
    }
}

/// The meshes of every region, by region code.
pub struct CountryMeshesMap(DataMap<Keyed<CountryMeshes>>);

impl View for CountryMeshesMap {
    type V = Seq<Keyed<CountryMeshes>>;

    closed spec fn view(&self) -> Seq<Keyed<CountryMeshes>> {
        self.0@
    }
}

impl CountryMeshesMap {
    /// The map holds, in the countries' order and under their codes, the
    /// meshes of each country's polygons.
    pub open spec fn built_from(
        &self,
        countries: Seq<Country>,
        triangulations: Seq<Vec<Result<Vec<usize>, TriangulationError>>>,
    ) -> bool {
        &&& self@.len() == countries.len()
        &&& forall|i: int|
            0 <= i < countries.len() ==> (#[trigger] self@[i]).key@ == countries[i].code@
                && self@[i].value.built_from(
                countries[i].polygons@,
                triangulations_for(triangulations, i),
            )
    }

    /// A map without regions.
    pub fn new() -> (map: Self)
        ensures
            map@.len() == 0,
    {
        CountryMeshesMap(DataMap::new())
    }

    /// The meshes stored under `country_code`, if any.
    pub fn get(&self, country_code: &str) -> (found: Option<&CountryMeshes>)
        ensures
            found is Some <==> holds_id(self@, country_code@),
            found is Some ==> *found.unwrap() == self@[index_of(self@, country_code@)].value,
    {
        match self.0.get(country_code) {
            Some(entry) => Some(&entry.value),
            None => None,
        }
    }

    /// Builds the meshes of every country. `triangulations[i][k]` is what the
    /// triangulator made of polygon `k` of country `i`, laid out by
    /// [`Polygon::mesh_input`].
    pub fn build(
        countries: &DataMap<Country>,
        triangulations: &Vec<Vec<Result<Vec<usize>, TriangulationError>>>,
    ) -> (map: Self)
        ensures
            map.built_from(countries@, triangulations@),
    {
        let mut map: DataMap<Keyed<CountryMeshes>> = DataMap::new();
        let records = countries.iter();
        let none: Vec<Result<Vec<usize>, TriangulationError>> = Vec::new();
        let n = records.len();
        let mut i: usize = 0;
        while i < n
            invariant
                i <= n,
                n == records@.len(),
                distinct_ids(records@),
                none@.len() == 0,
                map@.len() == i,
                forall|k: int|
                    0 <= k < i ==> (#[trigger] map@[k]).key@ == records@[k].code@
                        && map@[k].value.built_from(
                        records@[k].polygons@,
                        triangulations_for(triangulations@, k),
                    ),
            decreases n - i,
        {
            let country = &records[i];
            let supplied = if i < triangulations.len() {
                &triangulations[i]
            } else {
                &none
            };
            assert(supplied@ =~= triangulations_for(triangulations@, i as int));
            let meshes = CountryMeshes::build(&country.polygons, supplied);
            let entry = Keyed { key: country.code.clone(), value: meshes };
            let ghost before = map@;
            proof {
                if holds_id(before, entry.spec_id()) {
                    let k = choose|k: int|
                        0 <= k < before.len() && (#[trigger] before[k]).spec_id()
                            == entry.spec_id();
                    assert(records@[k].spec_id() != records@[i as int].spec_id());
                }
            }
            map.add(entry);
            proof {
                assert(map@ == before.push(entry));
                assert forall|k: int| 0 <= k < i + 1 implies (#[trigger] map@[k]).key@
                    == records@[k].code@ && map@[k].value.built_from(
                    records@[k].polygons@,
                    triangulations_for(triangulations@, k),
                ) by {
                    if k < i {
                        assert(map@[k] == before[k]);
                    }
                }
            }
            i += 1;
        }
        CountryMeshesMap(map)
    }
}

} // verus!
