//! From raw records to the registry of countries.

use vstd::prelude::*;
use crate::country::{country_views, polygon_views, Country, CountryView};
use crate::data_map::{distinct_ids, holds_id, DataMap, HasId};
use crate::path::{parse_svg_path, ring_views, traced_rings, ParseError, PathCommand};
use crate::polygon::{scalable, scaled_by, valid_ring, Polygon, PolygonView};
use crate::position::Position;
use crate::text::{clone_texts, text_views, to_uppercase, uppercased};

verus! {

/// What is known of a country apart from its outline.
#[derive(Debug)]
pub struct CountryEntry {
    /// The country's code, in any case.
    pub code: String,
    pub name: String,
    pub long_name: String,
    pub region: String,
    pub is_enclave: bool,
    /// The names of the country's capitals.
    pub capitals: Vec<String>,
    pub flag_svg: Vec<u8>,
}

/// Where the rings of an outline element come from.
#[derive(Debug)]
pub enum OutlineSource {
    /// Drawing commands to be traced, or why they could not be read.
    Commands(Result<Vec<PathCommand>, ParseError>),
    /// Rings that were read before.
    Rings(Vec<Vec<Position>>),
}

/// One element of an outline: the code of the country it belongs to, in any
/// case, and where its rings come from.
#[derive(Debug)]
pub struct OutlinePath {
    pub id: String,
    pub source: OutlineSource,
}

/// The rings of an outline element; `None` if its drawing commands could not
/// be read or traced.
pub open spec fn source_rings(source: OutlineSource) -> Option<Seq<Seq<Position>>> {
    match source {
        OutlineSource::Commands(Err(_)) => None,
        OutlineSource::Commands(Ok(commands)) => traced_rings(commands@),
        OutlineSource::Rings(rings) => Some(ring_views(rings@)),
    }
}

/// The factor by which the outline of the country with the given code is
/// enlarged: some countries are too small to be seen at their true size.
pub open spec fn scaling_factor_of(code: Seq<char>) -> u32 {
    if code == "VA"@ {
        115
    } else if code == "SM"@ {
        2
    } else if code == "MC"@ {
        3
    } else if code == "TV"@ {
        5
    } else if code == "NR"@ {
        2
    } else {
        1
    }
}

/// Whether the country with the given code is left off the map.
pub open spec fn is_excluded_code(code: Seq<char>) -> bool {
    code == "AQ"@
}

/// The factor by which the outline of the country with the given code is
/// enlarged.
pub fn scaling_factor(code: &str) -> (factor: u32)
    ensures
        factor == scaling_factor_of(code@),
{
    let code = code.to_owned();
    if code == "VA".to_owned() {
        115
    } else if code == "SM".to_owned() {
        2
    } else if code == "MC".to_owned() {
        3
    } else if code == "TV".to_owned() {
        5
    } else if code == "NR".to_owned() {
        2
    } else {
        1
    }
}

/// Whether the country with the given code is left off the map.
pub fn is_excluded(code: &str) -> (excluded: bool)
    ensures
        excluded == is_excluded_code(code@),
{
    code.to_owned() == "AQ".to_owned()
}

/// `points` with every coordinate multiplied by `factor`.
pub open spec fn scaled_points(points: Seq<Position>, factor: int) -> Seq<Position> {
    points.map_values(|p: Position| Position { x: (p.x * factor) as i64, y: (p.y * factor) as i64 })
}

/// The polygon with every coordinate multiplied by `factor`, unless that
/// takes a point out of the coordinate range.
pub open spec fn scaled_polygon(polygon: PolygonView, factor: int) -> Option<PolygonView> {
    if scalable(polygon.all_points(), factor) {
        Some(
            PolygonView {
                exterior: scaled_points(polygon.exterior, factor),
                interiors: polygon.interiors.map_values(
                    |ring: Seq<Position>| scaled_points(ring, factor),
                ),
            },
        )
    } else {
        None
    }
}

/// The polygon that rings make by their position: the first is the outer
/// ring, the others are holes. There is none without a ring or with a ring
/// that is not valid.
pub open spec fn polygon_of_rings(rings: Seq<Seq<Position>>) -> Option<PolygonView> {
    if rings.len() >= 1 && forall|k: int| 0 <= k < rings.len() ==> valid_ring(#[trigger] rings[k]) {
        Some(PolygonView { exterior: rings[0], interiors: rings.skip(1) })
    } else {
        None
    }
}

/// The polygons of the country `code` among the first `count` outline
/// elements, enlarged by `factor`: one per element of that country, in
/// order, leaving out an element whose rings make no valid polygon or cannot
/// be enlarged. `None` if an element of that country could not be read or
/// traced.
pub open spec fn region_polygons(
    paths: Seq<OutlinePath>,
    code: Seq<char>,
    factor: int,
    count: nat,
) -> Option<Seq<PolygonView>>
    decreases count,
{
    if count == 0 {
        Some(Seq::empty())
    } else {
        match region_polygons(paths, code, factor, (count - 1) as nat) {
            None => None,
            Some(before) => {
                let path = paths[count - 1];
                if uppercased(path.id@) != code {
                    Some(before)
                } else {
                    match source_rings(path.source) {
                        None => None,
                        Some(rings) => match polygon_of_rings(rings) {
                            None => Some(before),
                            Some(polygon) => match scaled_polygon(polygon, factor) {
                                None => Some(before),
                                Some(scaled) => Some(before.push(scaled)),
                            },
                        },
                    }
                }
            },
        }
    }
}

/// The polygons of the country `code`: none at all where one of its outline
/// elements could not be read or traced.
pub open spec fn outline_polygons(paths: Seq<OutlinePath>, code: Seq<char>) -> Seq<PolygonView> {
    match region_polygons(paths, code, scaling_factor_of(code) as int, paths.len()) {
        Some(polygons) => polygons,
        None => Seq::empty(),
    }
}

/// The country that an entry describes, with its outline.
pub open spec fn entry_country(entry: CountryEntry, paths: Seq<OutlinePath>) -> CountryView {
    CountryView {
        code: uppercased(entry.code@),
        name: entry.name@,
        long_name: entry.long_name@,
        region: entry.region@,
        polygons: outline_polygons(paths, uppercased(entry.code@)),
        is_enclave: entry.is_enclave,
        capitals: text_views(entry.capitals@),
        flag_svg: entry.flag_svg@,
    }
}

/// Whether a country of `countries` has the code `code`.
pub open spec fn has_code(countries: Seq<CountryView>, code: Seq<char>) -> bool {
    exists|i: int| 0 <= i < countries.len() && (#[trigger] countries[i]).code == code
}

/// `countries` with `country` stored under its code: in place of the
/// country that had that code, or at the end.
pub open spec fn put_country(countries: Seq<CountryView>, country: CountryView) -> Seq<
    CountryView,
> {
    if has_code(countries, country.code) {
        countries.update(
            choose|i: int|
                0 <= i < countries.len() && (#[trigger] countries[i]).code == country.code,
            country,
        )
    } else {
        countries.push(country)
    }
}

/// The registry that the first `count` entries make: every entry but those
/// of excluded countries, each stored under its code in upper case.
pub open spec fn parsed_countries(
    entries: Seq<CountryEntry>,
    paths: Seq<OutlinePath>,
    count: nat,
) -> Seq<CountryView>
    decreases count,
{
    if count == 0 {
        Seq::empty()
    } else {
        let before = parsed_countries(entries, paths, (count - 1) as nat);
        let country = entry_country(entries[count - 1], paths);
        if is_excluded_code(country.code) {
            before
        } else {
            put_country(before, country)
        }
    }
}

/// The outline of a country depends on the elements that carry its code
/// and on no other: whatever stands in place of an element of another
/// country, be it one that could not be read, the country's polygons are
/// the same.
pub proof fn lemma_other_outlines_do_not_matter(
    paths: Seq<OutlinePath>,
    code: Seq<char>,
    k: int,
    other: OutlinePath,
)
    requires
        0 <= k < paths.len(),
        uppercased(paths[k].id@) != code,
        uppercased(other.id@) != code,
    ensures
        outline_polygons(paths.update(k, other), code) == outline_polygons(paths, code),
{
    lemma_region_polygons_skip(
        paths,
        code,
        scaling_factor_of(code) as int,
        k,
        other,
        paths.len(),
    );
}

proof fn lemma_region_polygons_skip(
    paths: Seq<OutlinePath>,
    code: Seq<char>,
    factor: int,
    k: int,
    other: OutlinePath,
    count: nat,
)
    requires
        0 <= k < paths.len(),
        count <= paths.len(),
        uppercased(paths[k].id@) != code,
        uppercased(other.id@) != code,
    ensures
        region_polygons(paths.update(k, other), code, factor, count) == region_polygons(
            paths,
            code,
            factor,
            count,
        ),
    decreases count,
{
    if count > 0 {
        lemma_region_polygons_skip(paths, code, factor, k, other, (count - 1) as nat);
        if count - 1 != k {
            assert(paths.update(k, other)[count - 1] == paths[count - 1]);
        }
    }
}

/// Every country of the registry comes from an entry: it is what that entry
/// describes, its code is in upper case, and it is not an excluded country.
pub proof fn lemma_parsed_countries_come_from_entries(
    entries: Seq<CountryEntry>,
    paths: Seq<OutlinePath>,
    count: nat,
    i: int,
)
    requires
        count <= entries.len(),
        0 <= i < parsed_countries(entries, paths, count).len(),
    ensures
        !is_excluded_code(parsed_countries(entries, paths, count)[i].code),
        exists|k: int|
            0 <= k < count && parsed_countries(entries, paths, count)[i] == entry_country(
                #[trigger] entries[k],
                paths,
            ),
    decreases count,
{
    if count > 0 {
        let before = parsed_countries(entries, paths, (count - 1) as nat);
        let country = entry_country(entries[count - 1], paths);
        let after = parsed_countries(entries, paths, count);
        if is_excluded_code(country.code) {
            lemma_parsed_countries_come_from_entries(entries, paths, (count - 1) as nat, i);
            let k = choose|k: int|
                0 <= k < count - 1 && before[i] == entry_country(#[trigger] entries[k], paths);
            assert(after[i] == entry_country(entries[k], paths));
        } else if has_code(before, country.code) {
            let at = choose|at: int|
                0 <= at < before.len() && (#[trigger] before[at]).code == country.code;
            if i == at {
                assert(after[i] == entry_country(entries[count - 1], paths));
            } else {
                lemma_parsed_countries_come_from_entries(entries, paths, (count - 1) as nat, i);
                let k = choose|k: int|
                    0 <= k < count - 1 && before[i] == entry_country(#[trigger] entries[k], paths);
                assert(after[i] == entry_country(entries[k], paths));
            }
        } else {
            if i == before.len() {
                assert(after[i] == entry_country(entries[count - 1], paths));
            } else {
                lemma_parsed_countries_come_from_entries(entries, paths, (count - 1) as nat, i);
                let k = choose|k: int|
                    0 <= k < count - 1 && before[i] == entry_country(#[trigger] entries[k], paths);
                assert(after[i] == entry_country(entries[k], paths));
            }
        }
    }
}

/// A copy of a list of rings.
fn clone_rings(rings: &Vec<Vec<Position>>) -> (copy: Vec<Vec<Position>>)
    ensures
        ring_views(copy@) == ring_views(rings@),
{
    let mut copy: Vec<Vec<Position>> = Vec::new();
    let n = rings.len();
    let mut k: usize = 0;
    while k < n
        invariant
            k <= n,
            n == rings@.len(),
            copy@.len() == k,
            forall|j: int| 0 <= j < k ==> (#[trigger] copy@[j])@ == rings@[j]@,
        decreases n - k,
    {
        let ring = &rings[k];
        let mut points: Vec<Position> = Vec::new();
        let len = ring.len();
        let mut i: usize = 0;
        while i < len
            invariant
                i <= len,
                len == ring@.len(),
                points@ == ring@.take(i as int),
            decreases len - i,
        {
            points.push(ring[i]);
            proof {
                assert(ring@.take(i + 1) =~= ring@.take(i as int).push(ring@[i as int]));
            }
            i += 1;
        }
        proof {
            assert(ring@.take(len as int) =~= ring@);
        }
        copy.push(points);
        k += 1;
    }
    proof {
        assert(ring_views(copy@) =~= ring_views(rings@));
    }
    copy
}

/// The polygon of one outline element, enlarged by `factor`.
fn path_polygon(source: &OutlineSource, factor: u32) -> (polygon: Result<
    Option<Polygon>,
    ParseError,
>)
    ensures
        match source_rings(*source) {
            None => polygon is Err,
            Some(rings) => polygon is Ok && match polygon_of_rings(rings) {
                None => polygon.unwrap() is None,
                Some(made) => match scaled_polygon(made, factor as int) {
                    None => polygon.unwrap() is None,
                    Some(scaled) => polygon.unwrap() is Some && polygon.unwrap().unwrap()@
                        == scaled,
                },
            },
        },
{
    let rings = match source {
        OutlineSource::Commands(Err(e)) => {
            return Err(*e);
        },
        OutlineSource::Commands(Ok(commands)) => match parse_svg_path(commands) {
            Ok(rings) => rings,
            Err(e) => {
                return Err(e);
            },
        },
        OutlineSource::Rings(rings) => clone_rings(rings),
    };
    let ghost traced = ring_views(rings@);
    assert(traced == source_rings(*source).unwrap());
    assert(traced.len() == rings@.len());
    assert forall|k: int| 0 <= k < rings@.len() implies traced[k] == (#[trigger] rings@[k])@ by {}
    let made = match Polygon::from_rings(rings) {
        Some(made) => made,
        None => {
            proof {
                if traced.len() >= 1 && forall|k: int|
                    0 <= k < traced.len() ==> valid_ring(#[trigger] traced[k]) {
                    assert forall|k: int| 0 <= k < rings@.len() implies valid_ring(
                        #[trigger] rings@[k]@,
                    ) by {
                        assert(valid_ring(traced[k]));
                    }
                }
            }
            return Ok(None);
        },
    };
    proof {
        assert forall|k: int| 0 <= k < traced.len() implies valid_ring(#[trigger] traced[k]) by {
            assert(valid_ring(rings@[k]@));
        }
        assert(made@.interiors =~= traced.skip(1));
    }
    match made.scale(factor) {
        None => Ok(None),
        Some(scaled) => {
            proof {
                let want = scaled_polygon(made@, factor as int).unwrap();
                assert(scaled@.exterior =~= want.exterior);
                assert forall|k: int| 0 <= k < want.interiors.len() implies scaled@.interiors[k]
                    == #[trigger] want.interiors[k] by {
                    assert(scaled_by(made@.interiors[k], factor as int, scaled@.interiors[k]));
                    assert(scaled@.interiors[k] =~= want.interiors[k]);
                }
                assert(scaled@.interiors =~= want.interiors);
            }
            Ok(Some(scaled))
        },
    }
}

/// The polygons of the country `code` among the outline elements.
pub fn country_polygons(paths: &Vec<OutlinePath>, code: &str) -> (polygons: Vec<Polygon>)
    ensures
        polygon_views(polygons@) == outline_polygons(paths@, code@),
{
    let factor = scaling_factor(code);
    let key = code.to_owned();
    let mut polygons: Vec<Polygon> = Vec::new();
    let n = paths.len();
    let mut i: usize = 0;
    while i < n
        invariant
            i <= n,
            n == paths@.len(),
            key@ == code@,
            factor == scaling_factor_of(code@),
            region_polygons(paths@, code@, factor as int, i as nat) == Some(
                polygon_views(polygons@),
            ),
        decreases n - i,
    {
        let path = &paths[i];
        if to_uppercase(path.id.as_str()) == key {
            match path_polygon(&path.source, factor) {
                Err(_) => {
                    proof {
                        lemma_region_fails_onward(
                            paths@,
                            code@,
                            factor as int,
                            (i + 1) as nat,
                            n as nat,
                        );
                    }
                    return Vec::new();
                },
                Ok(None) => {},
                Ok(Some(polygon)) => {
                    let ghost before = polygons@;
                    polygons.push(polygon);
                    proof {
                        assert(polygon_views(polygons@) =~= polygon_views(before).push(polygon@));
                    }
                },
            }
        }
        i += 1;
    }
    polygons
}

proof fn lemma_region_fails_onward(
    paths: Seq<OutlinePath>,
    code: Seq<char>,
    factor: int,
    failed: nat,
    count: nat,
)
    requires
        failed <= count,
        region_polygons(paths, code, factor, failed) is None,
    ensures
        region_polygons(paths, code, factor, count) is None,
    decreases count,
{
    if count > failed {
        lemma_region_fails_onward(paths, code, factor, failed, (count - 1) as nat);
    }
}

/// Builds the registry from what is known of each country and from the
/// outline elements.
///
/// A country is stored under its code in upper case; an excluded country is
/// left out; of two entries with one code the later replaces the earlier.
/// The outline of a country is made of the elements that carry its code:
/// each gives rings, traced from drawing commands or read before, of which
/// the first is the outer ring and the others are holes, and is enlarged by
/// the country's factor. An element whose rings are not valid or cannot be
/// enlarged adds no polygon; an element that could not be read or traced
/// leaves its country without polygons, and no other country is affected.
pub fn parse_countries(entries: &Vec<CountryEntry>, paths: &Vec<OutlinePath>) -> (countries:
    DataMap<Country>)
    ensures
        country_views(countries@) == parsed_countries(entries@, paths@, entries@.len()),
{
    let mut countries: DataMap<Country> = DataMap::new();
    let n = entries.len();
    let mut i: usize = 0;
    proof {
        assert(country_views(countries@) =~= Seq::<CountryView>::empty());
    }
    while i < n
        invariant
            i <= n,
            n == entries@.len(),
            country_views(countries@) == parsed_countries(entries@, paths@, i as nat),
        decreases n - i,
    {
        let entry = &entries[i];
        let code = to_uppercase(entry.code.as_str());
        if !is_excluded(code.as_str()) {
            let polygons = country_polygons(paths, code.as_str());
            let flag_svg = entry.flag_svg.clone();
            assert(flag_svg@ =~= entry.flag_svg@);
            let country = Country {
                code,
                name: entry.name.clone(),
                long_name: entry.long_name.clone(),
                region: entry.region.clone(),
                polygons,
                is_enclave: entry.is_enclave,
                capitals: clone_texts(&entry.capitals),
                flag_svg,
            };
            assert(country@ == entry_country(*entry, paths@));
            let ghost before = countries@;
            proof {
                use_type_invariant(&countries);
            }
            countries.add(country);
            proof {
                lemma_put(before, country, countries@);
            }
        }
        i += 1;
    }
    countries
}

/// What storing a country does to the registry, as its views show it.
proof fn lemma_put(before: Seq<Country>, country: Country, after: Seq<Country>)
    requires
        distinct_ids(before),
        !holds_id(before, country.spec_id()) ==> after == before.push(country),
        forall|i: int|
            0 <= i < before.len() && (#[trigger] before[i]).spec_id() == country.spec_id()
                ==> after == before.update(i, country),
    ensures
        country_views(after) == put_country(country_views(before), country@),
{
    let views = country_views(before);
    if has_code(views, country@.code) {
        let i = choose|i: int| 0 <= i < views.len() && (#[trigger] views[i]).code == country@.code;
        assert(before[i].spec_id() == country.spec_id());
        assert(country_views(after) =~= views.update(i, country@));
    } else {
        if holds_id(before, country.spec_id()) {
            let i = choose|i: int|
                0 <= i < before.len() && (#[trigger] before[i]).spec_id() == country.spec_id();
            assert(views[i].code == country@.code);
        }
        assert(country_views(after) =~= views.push(country@));
    }
}

} // verus!
