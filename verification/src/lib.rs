//! Geospatial engine of a world-map study application, with the state
//! machines of its quizzes.
//!
//! Region outlines are traced from drawing commands into closed rings, grouped
//! into polygons, scaled, indexed for point queries and turned into coloured
//! triangle meshes. Coordinates are whole numbers of a fixed-point unit that
//! the caller chooses, so every geometric statement made here is exact.
//!
//! Three things are left to the caller because they work on numbers with a
//! fraction: reading drawing commands from text, thinning out the points of
//! a polygon, and cutting a polygon into triangles. The library says what it
//! hands to a triangulator ([`polygon::Polygon::mesh_input`]) and checks what
//! comes back ([`meshes::triangle_indices`]).
//!
//! What is taken on trust: `rstar`'s tree ([`rtree`]), `geo`'s point-in-polygon
//! test ([`identified_polygon::geo_contains`]), the case mappings of `str`
//! ([`text`]) and `rand`'s choices ([`quiz`], [`views`]). Everything else is
//! proved.

pub mod capital;
pub mod country;
pub mod data_map;
pub mod identified_polygon;
pub mod keyed;
pub mod meshes;
pub mod models;
pub mod outlines;
pub mod path;
pub mod persistence;
pub mod polygon;
pub mod polygon_tree;
pub mod position;
pub mod quiz;
pub mod records;
pub mod rtree;
pub mod styles;
pub mod text;
pub mod views;
pub mod world_data;
