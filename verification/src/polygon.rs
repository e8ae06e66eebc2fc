//! Rings and polygons in fixed-point coordinates.

use vstd::prelude::*;
use crate::position::{coord_in_range, Envelope, Position};

verus! {

/// What a sequence of points needs in order to be a ring: it returns to its
/// first point, holds at least three points before doing so, and stays in range.
pub open spec fn valid_ring(points: Seq<Position>) -> bool {
    &&& points.len() >= 4
    &&& points[0] == points[points.len() - 1]
    &&& forall|i: int| 0 <= i < points.len() ==> (#[trigger] points[i]).in_range()
}

/// A closed boundary loop.
#[derive(Debug)]
pub struct Ring {
    points: Vec<Position>,
}

impl View for Ring {
    type V = Seq<Position>;

    closed spec fn view(&self) -> Seq<Position> {
        self.points@
    }
}

impl Ring {
    /// Holds of every ring that exists.
    #[verifier::type_invariant]
    pub open spec fn wf(&self) -> bool {
        valid_ring(self@)
    }

    /// Accepts `points` as a ring exactly when they form one.
    pub fn new(points: Vec<Position>) -> (ring: Option<Ring>)
        ensures
            ring is Some <==> valid_ring(points@),
            ring is Some ==> ring.unwrap()@ == points@,
    {
        let n = points.len();
        if n < 4 {
            return None;
        }
        if !(points[0].x == points[n - 1].x && points[0].y == points[n - 1].y) {
            return None;
        }
        let mut i: usize = 0;
        while i < n
            invariant
                i <= n,
                n == points.len(),
                forall|k: int| 0 <= k < i ==> (#[trigger] points@[k]).in_range(),
            decreases n - i,
        {
            if !points[i].is_in_range() {
                return None;
            }
            i += 1;
        }
        Some(Ring { points })
    }

    /// The points of the ring, the last of which is the first again.
    pub fn points(&self) -> (points: &Vec<Position>)
        ensures
            points@ == self@,
            valid_ring(points@),
    {
        proof {
            use_type_invariant(self);
        }
        &self.points
    }

    /// Number of points, counting the closing one.
    pub fn len(&self) -> (n: usize)
        ensures
            n == self@.len(),
            n >= 4,
    {
        proof {
            use_type_invariant(self);
        }
        self.points.len()
    }

    /// The bounding box of the ring's points.
    pub fn envelope(&self) -> (e: Envelope)
        ensures
            e.bounds(self@),
            e.ordered(),
            e.in_range(),
    {
        proof {
            use_type_invariant(self);
        }
        let first = self.points[0];
        let mut e = Envelope { min_x: first.x, min_y: first.y, max_x: first.x, max_y: first.y };
        let n = self.points.len();
        let mut i: usize = 1;
        proof {
            assert(self.points@.take(1)[0] == first);
        }
        while i < n
            invariant
                1 <= i <= n,
                n == self.points.len(),
                e.bounds(self.points@.take(i as int)),
            decreases n - i,
        {
            let p = self.points[i];
            let ghost before = e;
            let ghost prefix = self.points@.take(i as int);
            let ghost grown = self.points@.take(i + 1);
            if p.x < e.min_x {
                e.min_x = p.x;
            }
            if p.x > e.max_x {
                e.max_x = p.x;
            }
            if p.y < e.min_y {
                e.min_y = p.y;
            }
            if p.y > e.max_y {
                e.max_y = p.y;
            }
            proof {
                assert(grown[i as int] == p);
                assert forall|k: int| 0 <= k < grown.len() implies e.covers(
                    #[trigger] grown[k],
                ) by {
                    if k < i {
                        assert(grown[k] == prefix[k]);
                        assert(before.covers(prefix[k]));
                    }
                }
                let wx0 = choose|k: int|
                    0 <= k < prefix.len() && (#[trigger] prefix[k]).x == before.min_x;
                let wx1 = choose|k: int|
                    0 <= k < prefix.len() && (#[trigger] prefix[k]).x == before.max_x;
                let wy0 = choose|k: int|
                    0 <= k < prefix.len() && (#[trigger] prefix[k]).y == before.min_y;
                let wy1 = choose|k: int|
                    0 <= k < prefix.len() && (#[trigger] prefix[k]).y == before.max_y;
                assert(grown[wx0] == prefix[wx0] && grown[wx1] == prefix[wx1]);
                assert(grown[wy0] == prefix[wy0] && grown[wy1] == prefix[wy1]);
            }
            i += 1;
        }
        proof {
            assert(self.points@.take(n as int) =~= self.points@);
            let k = choose|k: int| 0 <= k < self@.len() && (#[trigger] self@[k]).x == e.min_x;
            assert(self@[k].in_range());
            let k = choose|k: int| 0 <= k < self@.len() && (#[trigger] self@[k]).x == e.max_x;
            assert(self@[k].in_range());
            let k = choose|k: int| 0 <= k < self@.len() && (#[trigger] self@[k]).y == e.min_y;
            assert(self@[k].in_range());
            let k = choose|k: int| 0 <= k < self@.len() && (#[trigger] self@[k]).y == e.max_y;
            assert(self@[k].in_range());
            assert(e.covers(self@[0]));
        }
        e
    }
}

/// Whether every point of `points` stays in range when multiplied by `factor`.
pub open spec fn scalable(points: Seq<Position>, factor: int) -> bool {
    forall|i: int|
        0 <= i < points.len() ==> coord_in_range((#[trigger] points[i]).x * factor)
            && coord_in_range(points[i].y * factor)
}

/// `scaled` is `points` with every coordinate multiplied by `factor`.
pub open spec fn scaled_by(points: Seq<Position>, factor: int, scaled: Seq<Position>) -> bool {
    &&& scaled.len() == points.len()
    &&& forall|i: int|
        0 <= i < points.len() ==> (#[trigger] scaled[i]).x == points[i].x * factor && scaled[i].y
            == points[i].y * factor
}

impl Clone for Ring {
    fn clone(&self) -> (copy: Ring)
        ensures
            copy@ == self@,
    {
        let mut points: Vec<Position> = Vec::new();
        let n = self.points.len();
        let mut i: usize = 0;
        while i < n
            invariant
                i <= n,
                n == self.points.len(),
                points@ == self.points@.take(i as int),
            decreases n - i,
        {
            points.push(self.points[i]);
            proof {
                assert(self.points@.take(i + 1) =~= self.points@.take(i as int).push(
                    self.points@[i as int],
                ));
            }
            i += 1;
        }
        proof {
            use_type_invariant(self);
            assert(self.points@.take(n as int) =~= self.points@);
        }
        Ring { points }
    }
}

impl Ring {
    /// Multiplies every coordinate by `factor`; `None` exactly when some
    /// product leaves the coordinate range.
    pub fn scale(&self, factor: u32) -> (scaled: Option<Ring>)
        ensures
            scaled is Some <==> scalable(self@, factor as int),
            scaled is Some ==> scaled_by(self@, factor as int, scaled.unwrap()@),
    {
        proof {
            use_type_invariant(self);
        }
        let mut points: Vec<Position> = Vec::new();
        let n = self.points.len();
        let mut i: usize = 0;
        while i < n
            invariant
                i <= n,
                n == self.points.len(),
                valid_ring(self.points@),
                points@.len() == i,
                scalable(self.points@.take(i as int), factor as int),
                scaled_by(self.points@.take(i as int), factor as int, points@),
                forall|k: int| 0 <= k < i ==> (#[trigger] points@[k]).in_range(),
            decreases n - i,
        {
            let p = self.points[i];
            assert(p.in_range());
            assert(-0x2000_0000 * 0x1_0000_0000 <= p.x * factor <= 0x2000_0000 * 0x1_0000_0000
                && -0x2000_0000 * 0x1_0000_0000 <= p.y * factor <= 0x2000_0000 * 0x1_0000_0000)
                by (nonlinear_arith)
                requires
                    -0x2000_0000 <= p.x <= 0x2000_0000,
                    -0x2000_0000 <= p.y <= 0x2000_0000,
                    0 <= factor < 0x1_0000_0000,
            ;
            let q = Position { x: p.x * (factor as i64), y: p.y * (factor as i64) };
            if !q.is_in_range() {
                return None;
            }
            let ghost before = points@;
            points.push(q);
            proof {
                let grown = self.points@.take(i + 1);
                assert forall|k: int| 0 <= k < grown.len() implies coord_in_range(
                    (#[trigger] grown[k]).x * factor,
                ) && coord_in_range(grown[k].y * factor) by {
                    if k < i {
                        assert(grown[k] == self.points@.take(i as int)[k]);
                    }
                }
                assert forall|k: int| 0 <= k < grown.len() implies (#[trigger] points@[k]).x
                    == grown[k].x * factor && points@[k].y == grown[k].y * factor by {
                    if k < i {
                        assert(points@[k] == before[k]);
                        assert(grown[k] == self.points@.take(i as int)[k]);
                    }
                }
            }
            i += 1;
        }
        proof {
            assert(self.points@.take(n as int) =~= self.points@);
        }
        Some(Ring { points })
    }
}

/// What proofs see of a polygon: its outer ring and its holes, as points.
pub struct PolygonView {
    pub exterior: Seq<Position>,
    pub interiors: Seq<Seq<Position>>,
}

impl PolygonView {
    /// Every point of the polygon: the outer ring's, then each hole's in turn.
    pub open spec fn all_points(self) -> Seq<Position> {
        self.exterior + self.interiors.flatten()
    }

    /// Index in [`all_points`](Self::all_points) at which hole `k` starts.
    pub open spec fn hole_start(self, k: int) -> int {
        (self.exterior.len() + self.interiors.take(k).flatten().len()) as int
    }
}

/// One outer ring and the holes cut out of it.
#[derive(Debug)]
pub struct Polygon {
    exterior: Ring,
    interiors: Vec<Ring>,
}

impl View for Polygon {
    type V = PolygonView;

    closed spec fn view(&self) -> PolygonView {
        PolygonView {
            exterior: self.exterior@,
            interiors: self.interiors@.map_values(|r: Ring| r@),
        }
    }
}

impl Clone for Polygon {
    fn clone(&self) -> (copy: Polygon)
        ensures
            copy@ == self@,
    {
        let mut interiors: Vec<Ring> = Vec::new();
        let n = self.interiors.len();
        let mut i: usize = 0;
        while i < n
            invariant
                i <= n,
                n == self.interiors.len(),
                interiors@.len() == i,
                forall|k: int| 0 <= k < i ==> (#[trigger] interiors@[k])@ == self.interiors@[k]@,
            decreases n - i,
        {
            interiors.push(self.interiors[i].clone());
            i += 1;
        }
        let exterior = self.exterior.clone();
        proof {
            use_type_invariant(self);
            assert forall|k: int| 0 <= k < interiors@.len() implies valid_ring(
                #[trigger] interiors@[k]@,
            ) by {
                assert(self@.interiors[k] == self.interiors@[k]@);
            }
        }
        let copy = Polygon { exterior, interiors };
        proof {
            assert(copy@.interiors =~= self@.interiors);
        }
        copy
    }
}

/// The outer ring and every hole of `polygon` are rings.
pub open spec fn valid_polygon(polygon: PolygonView) -> bool {
    &&& valid_ring(polygon.exterior)
    &&& forall|k: int|
        0 <= k < polygon.interiors.len() ==> valid_ring(#[trigger] polygon.interiors[k])
}

impl Polygon {
    /// Holds of every polygon that exists.
    #[verifier::type_invariant]
    pub open spec fn wf(&self) -> bool {
        valid_polygon(self@)
    }

    /// A polygon of the given outer ring and holes.
    pub fn new(exterior: Ring, interiors: Vec<Ring>) -> (polygon: Polygon)
        ensures
            polygon@.exterior == exterior@,
            polygon@.interiors == interiors@.map_values(|r: Ring| r@),
    {
        proof {
            use_type_invariant(&exterior);
        }
        let n = interiors.len();
        let mut k: usize = 0;
        while k < n
            invariant
                k <= n,
                n == interiors@.len(),
                forall|j: int| 0 <= j < k ==> valid_ring(#[trigger] interiors@[j]@),
            decreases n - k,
        {
            let ring = &interiors[k];
            proof {
                use_type_invariant(ring);
            }
            k += 1;
        }
        Polygon { exterior, interiors }
    }

    /// Reads rings by position: the first is the outer ring, the others are
    /// holes. `None` exactly when there is no ring or one of them is not valid.
    pub fn from_rings(rings: Vec<Vec<Position>>) -> (polygon: Option<Polygon>)
        ensures
            polygon is Some <==> rings@.len() >= 1 && forall|k: int|
                0 <= k < rings@.len() ==> valid_ring(#[trigger] rings@[k]@),
            polygon is Some ==> {
                &&& polygon.unwrap()@.exterior == rings@[0]@
                &&& polygon.unwrap()@.interiors == rings@.skip(1).map_values(
                    |r: Vec<Position>| r@,
                )
            },
    {
        let ghost given = rings@;
        let mut pending = rings;
        let mut interiors: Vec<Ring> = Vec::new();
        // Rings are taken from the back, so the holes are gathered in reverse.
        while pending.len() > 1
            invariant
                given == rings@,
                pending@.len() <= given.len(),
                pending@ == given.take(pending@.len() as int),
                given.len() >= 1 ==> pending@.len() >= 1,
                interiors@.len() == given.len() - pending@.len(),
                forall|k: int|
                    0 <= k < interiors@.len() ==> valid_ring((#[trigger] interiors@[k])@)
                        && interiors@[k]@ == given[given.len() - 1 - k]@,
            decreases pending@.len(),
        {
            let ghost at = pending@.len() - 1;
            let points = pending.pop().unwrap();
            assert(points@ == given[at]@);
            match Ring::new(points) {
                Some(ring) => {
                    interiors.push(ring);
                },
                None => {
                    proof {
                        assert(!valid_ring(given[at]@));
                    }
                    return None;
                },
            }
            proof {
                assert(pending@ =~= given.take(pending@.len() as int));
            }
        }
        if pending.len() == 0 {
            return None;
        }
        let points = pending.pop().unwrap();
        assert(points@ == given[0]@);
        let exterior = match Ring::new(points) {
            Some(ring) => ring,
            None => {
                proof {
                    assert(!valid_ring(given[0]@));
                }
                return None;
            },
        };
        let ghost gathered = interiors@;
        let mut ordered: Vec<Ring> = Vec::new();
        while interiors.len() > 0
            invariant
                interiors@.len() <= gathered.len(),
                interiors@ == gathered.take(interiors@.len() as int),
                ordered@.len() == gathered.len() - interiors@.len(),
                gathered.len() == given.len() - 1,
                forall|k: int|
                    0 <= k < gathered.len() ==> valid_ring((#[trigger] gathered[k])@)
                        && gathered[k]@ == given[given.len() - 1 - k]@,
                forall|k: int|
                    0 <= k < ordered@.len() ==> valid_ring((#[trigger] ordered@[k])@)
                        && ordered@[k]@ == given[k + 1]@,
            decreases interiors@.len(),
        {
            let ghost at = interiors@.len() - 1;
            let ring = interiors.pop().unwrap();
            assert(ring == gathered[at]);
            ordered.push(ring);
            proof {
                assert(interiors@ =~= gathered.take(interiors@.len() as int));
            }
        }
        let polygon = Polygon { exterior, interiors: ordered };
        proof {
            assert(polygon@.interiors =~= given.skip(1).map_values(|r: Vec<Position>| r@));
            assert forall|k: int| 0 <= k < given.len() implies valid_ring(
                #[trigger] given[k]@,
            ) by {
                if k > 0 {
                    assert(valid_ring(ordered@[k - 1]@));
                }
            }
        }
        Some(polygon)
    }

    /// Takes over what a simplifier made of the polygon: the rings that it
    /// handed back, read by position, if they still form a polygon; else the
    /// polygon as it was. So whatever the simplifier does, every ring stays
    /// closed, in range and of three points or more.
    pub fn accept_simplified(&self, rings: Vec<Vec<Position>>) -> (polygon: Polygon)
        ensures
            polygon@ == if rings@.len() >= 1 && forall|k: int|
                0 <= k < rings@.len() ==> valid_ring(#[trigger] rings@[k]@) {
                PolygonView {
                    exterior: rings@[0]@,
                    interiors: rings@.skip(1).map_values(|r: Vec<Position>| r@),
                }
            } else {
                self@
            },
    {
        match Polygon::from_rings(rings) {
            Some(polygon) => polygon,
            None => self.clone(),
        }
    }

    /// The outer ring.
    pub fn exterior(&self) -> (ring: &Ring)
        ensures
            ring@ == self@.exterior,
            valid_ring(ring@),
    {
        proof {
            use_type_invariant(self);
        }
        &self.exterior
    }

    /// The holes.
    pub fn interiors(&self) -> (rings: &Vec<Ring>)
        ensures
            rings@.map_values(|r: Ring| r@) == self@.interiors,
            forall|k: int| 0 <= k < rings@.len() ==> valid_ring(#[trigger] rings@[k]@),
    {
        proof {
            use_type_invariant(self);
            assert forall|k: int| 0 <= k < self.interiors@.len() implies valid_ring(
                #[trigger] self.interiors@[k]@,
            ) by {
                assert(self@.interiors[k] == self.interiors@[k]@);
            }
        }
        &self.interiors
    }

    /// The bounding box of the outer ring; holes play no part in it.
    pub fn envelope(&self) -> (e: Envelope)
        ensures
            e.bounds(self@.exterior),
            e.ordered(),
            e.in_range(),
    {
        self.exterior.envelope()
    }

    /// Multiplies every coordinate of every ring by `factor`; `None` exactly
    /// when some product leaves the coordinate range.
    pub fn scale(&self, factor: u32) -> (scaled: Option<Polygon>)
        ensures
            scaled is Some <==> scalable(self@.all_points(), factor as int),
            scaled is Some ==> {
                &&& scaled_by(self@.exterior, factor as int, scaled.unwrap()@.exterior)
                &&& scaled.unwrap()@.interiors.len() == self@.interiors.len()
                &&& forall|k: int|
                    0 <= k < self@.interiors.len() ==> scaled_by(
                        #[trigger] self@.interiors[k],
                        factor as int,
                        scaled.unwrap()@.interiors[k],
                    )
            },
    {
        let exterior = match self.exterior.scale(factor) {
            Some(ring) => ring,
            None => {
                proof {
                    lemma_scalable_parts(self@, factor as int);
                }
                return None;
            },
        };
        let mut interiors: Vec<Ring> = Vec::new();
        let n = self.interiors.len();
        let mut i: usize = 0;
        while i < n
            invariant
                i <= n,
                n == self.interiors.len(),
                interiors@.len() == i,
                forall|k: int|
                    0 <= k < i ==> valid_ring((#[trigger] interiors@[k])@) && scalable(
                        self@.interiors[k],
                        factor as int,
                    ) && scaled_by(self@.interiors[k], factor as int, interiors@[k]@),
            decreases n - i,
        {
            assert(self@.interiors[i as int] == self.interiors@[i as int]@);
            match self.interiors[i].scale(factor) {
                Some(ring) => {
                    proof {
                        use_type_invariant(&ring);
                    }
                    interiors.push(ring);
                },
                None => {
                    proof {
                        lemma_scalable_parts(self@, factor as int);
                    }
                    return None;
                },
            }
            i += 1;
        }
        proof {
            use_type_invariant(&exterior);
        }
        let scaled = Polygon { exterior, interiors };
        proof {
            lemma_scalable_parts(self@, factor as int);
            assert forall|k: int| 0 <= k < self@.interiors.len() implies scaled_by(
                #[trigger] self@.interiors[k],
                factor as int,
                scaled@.interiors[k],
            ) by {
                assert(scaled_by(self@.interiors[k], factor as int, interiors@[k]@));
            }
        }
        Some(scaled)
    }
}

/// A polygon's points can be scaled exactly when those of its outer ring and
/// of each of its holes can.
pub proof fn lemma_scalable_parts(polygon: PolygonView, factor: int)
    ensures
        scalable(polygon.all_points(), factor) <==> scalable(polygon.exterior, factor) && forall|
            k: int,
        |
            0 <= k < polygon.interiors.len() ==> scalable(#[trigger] polygon.interiors[k], factor),
{
    lemma_scalable_flatten(polygon.interiors, factor);
    let all = polygon.all_points();
    let inner = polygon.interiors.flatten();
    if scalable(all, factor) {
        assert forall|i: int| 0 <= i < polygon.exterior.len() implies coord_in_range(
            (#[trigger] polygon.exterior[i]).x * factor,
        ) && coord_in_range(polygon.exterior[i].y * factor) by {
            assert(all[i] == polygon.exterior[i]);
        }
        assert forall|i: int| 0 <= i < inner.len() implies coord_in_range(
            (#[trigger] inner[i]).x * factor,
        ) && coord_in_range(inner[i].y * factor) by {
            assert(all[polygon.exterior.len() + i] == inner[i]);
        }
    }
    if scalable(polygon.exterior, factor) && scalable(inner, factor) {
        assert forall|i: int| 0 <= i < all.len() implies coord_in_range(
            (#[trigger] all[i]).x * factor,
        ) && coord_in_range(all[i].y * factor) by {
            if i >= polygon.exterior.len() {
                assert(all[i] == inner[i - polygon.exterior.len()]);
            } else {
                assert(all[i] == polygon.exterior[i]);
            }
        }
    }
}

/// The points of several rings laid end to end can be scaled exactly when
/// each ring's can.
pub proof fn lemma_scalable_flatten(rings: Seq<Seq<Position>>, factor: int)
    ensures
        scalable(rings.flatten(), factor) <==> forall|k: int|
            0 <= k < rings.len() ==> scalable(#[trigger] rings[k], factor),
    decreases rings.len(),
{
    if rings.len() == 0 {
        assert(rings.flatten() =~= Seq::<Position>::empty());
    } else {
        let head = rings.first();
        let rest = rings.drop_first();
        lemma_scalable_flatten(rest, factor);
        let all = rings.flatten();
        assert(all =~= head + rest.flatten());
        if scalable(all, factor) {
            assert forall|i: int| 0 <= i < head.len() implies coord_in_range(
                (#[trigger] head[i]).x * factor,
            ) && coord_in_range(head[i].y * factor) by {
                assert(all[i] == head[i]);
            }
            assert forall|i: int| 0 <= i < rest.flatten().len() implies coord_in_range(
                (#[trigger] rest.flatten()[i]).x * factor,
            ) && coord_in_range(rest.flatten()[i].y * factor) by {
                assert(all[head.len() + i] == rest.flatten()[i]);
            }
            assert forall|k: int| 0 <= k < rings.len() implies scalable(
                #[trigger] rings[k],
                factor,
            ) by {
                if k > 0 {
                    assert(rings[k] == rest[k - 1]);
                }
            }
        }
        if forall|k: int| 0 <= k < rings.len() ==> scalable(#[trigger] rings[k], factor) {
            assert(scalable(head, factor));
            assert forall|k: int| 0 <= k < rest.len() implies scalable(
                #[trigger] rest[k],
                factor,
            ) by {
                assert(rest[k] == rings[k + 1]);
            }
            assert forall|i: int| 0 <= i < all.len() implies coord_in_range(
                (#[trigger] all[i]).x * factor,
            ) && coord_in_range(all[i].y * factor) by {
                if i >= head.len() {
                    assert(all[i] == rest.flatten()[i - head.len()]);
                } else {
                    assert(all[i] == head[i]);
                }
            }
        }
    }
}

} // verus!
