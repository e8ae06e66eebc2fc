//! Polygons that carry the identifier of what they outline, and the test
//! whether such a polygon contains a point.

use vstd::prelude::*;
use crate::polygon::{valid_polygon, Polygon, PolygonView, Ring};
use crate::position::{Envelope, Position};

verus! {

/// What an indexed polygon outlines.
#[derive(Debug, Copy, Clone, PartialEq, Eq, Structural)]
pub enum IdentifiedPolygonType {
    Country,
    Capital,
}

/// Whether the polygon with the given outer ring and holes contains `point`
/// in its interior, as `geo`'s `Contains` decides it: the point lies inside
/// the outer ring, on no boundary, and in no hole.
pub uninterp spec fn geo_contains(
    exterior: Seq<Position>,
    interiors: Seq<Seq<Position>>,
    point: Position,
) -> bool;

/// `geo::Contains::contains` of a `geo::Polygon` for a `geo::Point`, on a
/// polygon built from the same rings. With integer coordinates `geo` decides
/// by exact orientation tests whose products fit `i64` as long as every
/// coordinate is in range, which the `requires` demands.
#[verifier::external_body]
fn polygon_contains(polygon: &Polygon, point: Position) -> (inside: bool)
    requires
        valid_polygon(polygon@),
        point.in_range(),
    ensures
        inside == geo_contains(polygon@.exterior, polygon@.interiors, point),
{
    let line = |ring: &Ring|
        geo::LineString::from(
            ring.points().iter().map(|p| (p.x, p.y)).collect::<Vec<(i64, i64)>>(),
        );
    let shape = geo::Polygon::new(
        line(polygon.exterior()),
        polygon.interiors().iter().map(line).collect(),
    );
    geo::Contains::contains(&shape, &geo::Point::new(point.x, point.y))
}

/// What proofs see of an indexed polygon.
pub struct IdentifiedPolygonView {
    pub id: Seq<char>,
    pub priority: bool,
    pub polygon: PolygonView,
    pub polygon_type: IdentifiedPolygonType,
}

impl IdentifiedPolygonView {
    /// The polygon contains the point.
    pub open spec fn contains(self, point: Position) -> bool {
        point.in_range() && geo_contains(self.polygon.exterior, self.polygon.interiors, point)
    }

    /// The polygon contains the point, which also lies in the bounding box
    /// `envelope` of its outer ring: what a query asks of a candidate.
    pub open spec fn hit(self, envelope: Envelope, point: Position) -> bool {
        envelope.covers(point) && self.contains(point)
    }

    /// The polygon takes precedence where polygons share a point: it has
    /// the priority flag, or it marks a capital.
    pub open spec fn wins(self) -> bool {
        self.priority || self.polygon_type == IdentifiedPolygonType::Capital
    }
}

/// A polygon with the identifier of what it outlines.
#[derive(Debug)]
pub struct IdentifiedPolygon {
    id: String,
    priority: bool,
    polygon: Polygon,
    polygon_type: IdentifiedPolygonType,
}

impl View for IdentifiedPolygon {
    type V = IdentifiedPolygonView;

    closed spec fn view(&self) -> IdentifiedPolygonView {
        IdentifiedPolygonView {
            id: self.id@,
            priority: self.priority,
            polygon: self.polygon@,
            polygon_type: self.polygon_type,
        }
    }
}

impl IdentifiedPolygon {
    /// Holds of every identified polygon that exists.
    #[verifier::type_invariant]
    pub open spec fn wf(&self) -> bool {
        valid_polygon(self@.polygon)
    }

    /// The polygon under the given identifier.
    pub fn new(
        id: String,
        polygon: Polygon,
        priority: bool,
        polygon_type: IdentifiedPolygonType,
    ) -> (entry: Self)
        ensures
            entry@ == (IdentifiedPolygonView {
                id: id@,
                priority,
                polygon: polygon@,
                polygon_type,
            }),
    {
        proof {
            use_type_invariant(&polygon);
        }
        IdentifiedPolygon { id, priority, polygon, polygon_type }
    }

    /// The identifier of what the polygon outlines.
    pub fn id(&self) -> (id: &str)
        ensures
            id@ == self@.id,
    {
        self.id.as_str()
    }

    /// The priority flag.
    pub fn priority(&self) -> (priority: bool)
        ensures
            priority == self@.priority,
    {
        self.priority
    }

    /// What the polygon outlines.
    pub fn polygon_type(&self) -> (polygon_type: IdentifiedPolygonType)
        ensures
            polygon_type == self@.polygon_type,
    {
        self.polygon_type
    }

    /// The polygon itself.
    pub fn polygon(&self) -> (polygon: &Polygon)
        ensures
            polygon@ == self@.polygon,
            valid_polygon(polygon@),
    {
        proof {
            use_type_invariant(self);
        }
        &self.polygon
    }

    /// Whether the polygon takes precedence where polygons share a point.
    pub fn wins(&self) -> (wins: bool)
        ensures
            wins == self@.wins(),
    {
        self.priority || match self.polygon_type {
            IdentifiedPolygonType::Capital => true,
            IdentifiedPolygonType::Country => false,
        }
    }

    /// The bounding box of the outer ring; holes play no part in it.
    pub fn envelope(&self) -> (e: Envelope)
        ensures
            e.bounds(self@.polygon.exterior),
            e.ordered(),
            e.in_range(),
    {
        self.polygon.envelope()
    }

    /// Whether the polygon contains the point. A point in a hole, on a
    /// boundary or outside the coordinate range is not contained.
    pub fn contains_point(&self, point: Position) -> (inside: bool)
        ensures
            inside == self@.contains(point),
    {
        proof {
            use_type_invariant(self);
        }
        if !point.is_in_range() {
            return false;
        }
        polygon_contains(&self.polygon, point)
    }
}

} // verus!
