//! Points and bounding boxes.

use vstd::prelude::*;

verus! {

/// Largest magnitude a coordinate of stored geometry may have.
///
/// Orientation tests on three points multiply coordinate differences; with this
/// limit every such product stays far inside the range of `i64`.
pub const COORD_LIMIT: i64 = 536_870_912;

/// A point of the plane in fixed-point units.
#[derive(Clone, Copy, Debug, PartialEq, Eq, Structural)]
pub struct Position {
    pub x: i64,
    pub y: i64,
}

/// Whether `v` is a coordinate that stored geometry may hold.
pub open spec fn coord_in_range(v: int) -> bool {
    -(COORD_LIMIT as int) <= v <= COORD_LIMIT as int
}

impl Position {
    /// Both coordinates are within [`COORD_LIMIT`] of zero.
    pub open spec fn in_range(self) -> bool {
        coord_in_range(self.x as int) && coord_in_range(self.y as int)
    }

    /// The point `(x, y)`.
    pub fn new(x: i64, y: i64) -> (p: Position)
        ensures
            p.x == x,
            p.y == y,
    {
        Position { x, y }
    }

    /// Whether stored geometry may hold the point.
    pub fn is_in_range(&self) -> (ok: bool)
        ensures
            ok == self.in_range(),
    {
        -COORD_LIMIT <= self.x && self.x <= COORD_LIMIT && -COORD_LIMIT <= self.y && self.y
            <= COORD_LIMIT
    }
}

/// An axis-aligned bounding box with inclusive borders.
#[derive(Clone, Copy, Debug, PartialEq, Eq, Structural)]
pub struct Envelope {
    pub min_x: i64,
    pub min_y: i64,
    pub max_x: i64,
    pub max_y: i64,
}

impl Envelope {
    /// The lower corner does not lie beyond the upper corner.
    pub open spec fn ordered(self) -> bool {
        self.min_x <= self.max_x && self.min_y <= self.max_y
    }

    /// The point lies in the box, borders included.
    pub open spec fn covers(self, p: Position) -> bool {
        self.min_x <= p.x <= self.max_x && self.min_y <= p.y <= self.max_y
    }

    /// Both corners are within [`COORD_LIMIT`] of zero.
    pub open spec fn in_range(self) -> bool {
        coord_in_range(self.min_x as int) && coord_in_range(self.min_y as int) && coord_in_range(
            self.max_x as int,
        ) && coord_in_range(self.max_y as int)
    }

    /// The smallest box around every point of `points`.
    pub open spec fn bounds(self, points: Seq<Position>) -> bool {
        &&& forall|i: int| 0 <= i < points.len() ==> self.covers(#[trigger] points[i])
        &&& exists|i: int| 0 <= i < points.len() && (#[trigger] points[i]).x == self.min_x
        &&& exists|i: int| 0 <= i < points.len() && (#[trigger] points[i]).x == self.max_x
        &&& exists|i: int| 0 <= i < points.len() && (#[trigger] points[i]).y == self.min_y
        &&& exists|i: int| 0 <= i < points.len() && (#[trigger] points[i]).y == self.max_y
    }

    /// Whether the point lies in the box, borders included.
    pub fn contains_position(&self, p: Position) -> (inside: bool)
        ensures
            inside == self.covers(p),
    {
        self.min_x <= p.x && p.x <= self.max_x && self.min_y <= p.y && p.y <= self.max_y
    }
}

/// A box that bounds a sequence of points is determined by the sequence.
pub proof fn lemma_bounds_unique(a: Envelope, b: Envelope, points: Seq<Position>)
    requires
        a.bounds(points),
        b.bounds(points),
    ensures
        a == b,
{
}

/// The bounding box of `points`, where they have one (they do unless there
/// are none).
pub open spec fn bounding_box(points: Seq<Position>) -> Envelope {
    choose|e: Envelope| e.bounds(points)
}

/// A box that bounds `points` is their bounding box.
pub proof fn lemma_bounding_box(e: Envelope, points: Seq<Position>)
    requires
        e.bounds(points),
    ensures
        bounding_box(points) == e,
{
    lemma_bounds_unique(e, bounding_box(points), points);
}

} // verus!
