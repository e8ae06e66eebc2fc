//! The outlines of countries as line strips.

use vstd::prelude::*;
use crate::country::Country;
use crate::data_map::{distinct_ids, holds_id, DataMap, HasId};
use crate::keyed::Keyed;
use crate::meshes::Color;
use crate::position::Position;

verus! {

/// A line strip to draw: the points in order, in one colour.
#[derive(Debug)]
pub struct OutlineShape {
    pub points: Vec<Position>,
    pub stroke: Color,
}

/// The colour in which outlines are drawn.
pub open spec fn outline_stroke() -> Color {
    Color { r: 108, g: 86, b: 113 }
}

/// `shapes` are the outlines of `country`: one line strip per polygon, along
/// its outer ring.
pub open spec fn outlines_of(shapes: Seq<OutlineShape>, country: Country) -> bool {
    &&& shapes.len() == country.polygons@.len()
    &&& forall|k: int|
        0 <= k < shapes.len() ==> (#[trigger] shapes[k]).points@ == country.polygons@[k]@.exterior
            && shapes[k].stroke == outline_stroke()
}

/// `map` holds, in the countries' order and under their codes, the outlines
/// of each country.
pub open spec fn outlines_built(
    map: Seq<Keyed<Vec<OutlineShape>>>,
    countries: Seq<Country>,
) -> bool {
    &&& map.len() == countries.len()
    &&& forall|i: int|
        0 <= i < countries.len() ==> (#[trigger] map[i]).key@ == countries[i].code@ && outlines_of(
            map[i].value@,
            countries[i],
        )
}

/// The outline shapes of one country.
pub fn country_outlines(country: &Country) -> (shapes: Vec<OutlineShape>)
    ensures
        outlines_of(shapes@, *country),
{
    let mut shapes: Vec<OutlineShape> = Vec::new();
    let n = country.polygons.len();
    let mut k: usize = 0;
    while k < n
        invariant
            k <= n,
            n == country.polygons@.len(),
            shapes@.len() == k,
            forall|j: int|
                0 <= j < k ==> (#[trigger] shapes@[j]).points@ == country.polygons@[j]@.exterior
                    && shapes@[j].stroke == outline_stroke(),
        decreases n - k,
    {
        let ring = country.polygons[k].exterior().points();
        let mut points: Vec<Position> = Vec::new();
        let len = ring.len();
        let mut i: usize = 0;
        while i < len
            invariant
                i <= len,
                len == ring@.len(),
                points@ == ring@.take(i as int),
            decreases len - i,
        {
            points.push(ring[i]);
            proof {
                assert(ring@.take(i + 1) =~= ring@.take(i as int).push(ring@[i as int]));
            }
            i += 1;
        }
        proof {
            assert(ring@.take(len as int) =~= ring@);
        }
        shapes.push(OutlineShape { points, stroke: Color { r: 108, g: 86, b: 113 } });
        k += 1;
    }
    shapes
}

/// Builds the outline shapes of every country, by country code.
pub fn build_country_outlines(countries: &DataMap<Country>) -> (map: DataMap<
    Keyed<Vec<OutlineShape>>,
>)
    ensures
        outlines_built(map@, countries@),
{
    let mut map: DataMap<Keyed<Vec<OutlineShape>>> = DataMap::new();
    let records = countries.iter();
    let n = records.len();
    let mut i: usize = 0;
    while i < n
        invariant
            i <= n,
            n == records@.len(),
            distinct_ids(records@),
            map@.len() == i,
            forall|k: int|
                0 <= k < i ==> (#[trigger] map@[k]).key@ == records@[k].code@ && outlines_of(
                    map@[k].value@,
                    records@[k],
                ),
        decreases n - i,
    {
        let country = &records[i];
        let entry = Keyed { key: country.code.clone(), value: country_outlines(country) };
        let ghost before = map@;
        proof {
            if holds_id(before, entry.spec_id()) {
                let k = choose|k: int|
                    0 <= k < before.len() && (#[trigger] before[k]).spec_id() == entry.spec_id();
                assert(records@[k].spec_id() != records@[i as int].spec_id());
            }
        }
        map.add(entry);
        proof {
            assert(map@ == before.push(entry));
            assert forall|k: int| 0 <= k < i + 1 implies (#[trigger] map@[k]).key@
                == records@[k].code@ && outlines_of(map@[k].value@, records@[k]) by {
                if k < i {
                    assert(map@[k] == before[k]);
                }
            }
        }
        i += 1;
    }
    map
}

} // verus!
