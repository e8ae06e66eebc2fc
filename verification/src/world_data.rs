//! The registry of countries and everything that is derived from it.

use vstd::prelude::*;
use crate::capital::Capital;
use crate::country::Country;
use crate::data_map::{distinct_ids, holds_id, index_of, DataMap};
use crate::identified_polygon::{IdentifiedPolygon, IdentifiedPolygonView};
use crate::keyed::Keyed;
use crate::meshes::{CountryMeshes, CountryMeshesMap, MeshInput, TriangulationError};
use crate::outlines::{build_country_outlines, outlines_built, OutlineShape};
use crate::polygon_tree::{answer, build_polygon_tree, index_entries, PolygonTree};
use crate::position::Position;
use crate::text::{text_views, to_uppercase, uppercased};

verus! {

/// The codes of those of the first `count` countries whose enclave flag is
/// `enclave`, in the countries' order.
pub open spec fn codes_where(countries: Seq<Country>, enclave: bool, count: nat) -> Seq<Seq<char>>
    decreases count,
{
    if count == 0 {
        Seq::empty()
    } else {
        let before = codes_where(countries, enclave, (count - 1) as nat);
        if countries[count - 1].is_enclave == enclave {
            before.push(countries[count - 1].code@)
        } else {
            before
        }
    }
}

/// The country codes in drawing order: enclaves last, so that they are drawn
/// on top; otherwise in the countries' order.
pub open spec fn priority_last(countries: Seq<Country>) -> Seq<Seq<char>> {
    codes_where(countries, false, countries.len()) + codes_where(countries, true, countries.len())
}

/// The regions that the first `count` countries lie in, each named once,
/// in the order in which they first occur.
pub open spec fn distinct_regions(countries: Seq<Country>, count: nat) -> Seq<Seq<char>>
    decreases count,
{
    if count == 0 {
        Seq::empty()
    } else {
        let before = distinct_regions(countries, (count - 1) as nat);
        let region = countries[count - 1].region@;
        if before.contains(region) {
            before
        } else {
            before.push(region)
        }
    }
}

/// The countries stored under the first `count` codes, whatever the case in
/// which a code is written, in the order of the codes. A code under which
/// nothing is stored adds nothing.
pub open spec fn countries_found(countries: Seq<Country>, codes: Seq<&str>, count: nat) -> Seq<
    Country,
>
    decreases count,
{
    if count == 0 {
        Seq::empty()
    } else {
        let before = countries_found(countries, codes, (count - 1) as nat);
        let key = uppercased(codes[count - 1]@);
        if holds_id(countries, key) {
            before.push(countries[index_of(countries, key)])
        } else {
            before
        }
    }
}

/// The place of the first among the first `count` capitals whose name in
/// upper case is `key`.
pub open spec fn capital_index(capitals: Seq<Capital>, key: Seq<char>, count: nat) -> Option<int>
    decreases count,
{
    if count == 0 {
        None
    } else {
        match capital_index(capitals, key, (count - 1) as nat) {
            Some(i) => Some(i),
            None => if uppercased(capitals[count - 1].name@) == key {
                Some(count - 1)
            } else {
                None
            },
        }
    }
}

/// The capitals that the first `count` names name, whatever the case in
/// which a name is written, in the order of the names. A name that no
/// capital has adds nothing.
pub open spec fn capitals_found(capitals: Seq<Capital>, names: Seq<Seq<char>>, count: nat) -> Seq<
    Capital,
>
    decreases count,
{
    if count == 0 {
        Seq::empty()
    } else {
        let before = capitals_found(capitals, names, (count - 1) as nat);
        match capital_index(capitals, uppercased(names[count - 1]), capitals.len()) {
            Some(i) => before.push(capitals[i]),
            None => before,
        }
    }
}

/// The names of the capitals of the country stored under `code`, whatever
/// the case in which the code is written; none where no country is.
pub open spec fn capital_names_of(countries: Seq<Country>, code: Seq<char>) -> Seq<Seq<char>> {
    if holds_id(countries, uppercased(code)) {
        text_views(countries[index_of(countries, uppercased(code))].capitals@)
    } else {
        Seq::empty()
    }
}

proof fn lemma_capital_index_stays(capitals: Seq<Capital>, key: Seq<char>, at: nat, count: nat)
    requires
        at <= count,
        capital_index(capitals, key, at) is Some,
    ensures
        capital_index(capitals, key, count) == capital_index(capitals, key, at),
    decreases count,
{
    if count > at {
        lemma_capital_index_stays(capitals, key, at, (count - 1) as nat);
    }
}

/// Every code that [`codes_where`] lists is the code of a country with the
/// enclave flag asked for, and the two lists together name every country
/// once per occurrence.
pub proof fn lemma_codes_where(countries: Seq<Country>, count: nat)
    requires
        count <= countries.len(),
    ensures
        codes_where(countries, false, count).len() + codes_where(countries, true, count).len()
            == count,
        forall|enclave: bool, i: int|
            0 <= i < codes_where(countries, enclave, count).len() ==> exists|j: int|
                0 <= j < count && (#[trigger] countries[j]).is_enclave == enclave
                    && countries[j].code@ == #[trigger] codes_where(countries, enclave, count)[i],
    decreases count,
{
    if count > 0 {
        lemma_codes_where(countries, (count - 1) as nat);
        let last = countries[count - 1];
        assert forall|enclave: bool, i: int|
            0 <= i < codes_where(countries, enclave, count).len() implies exists|j: int|
            0 <= j < count && (#[trigger] countries[j]).is_enclave == enclave && countries[j].code@
                == #[trigger] codes_where(countries, enclave, count)[i] by {
            let before = codes_where(countries, enclave, (count - 1) as nat);
            if i < before.len() {
                assert(codes_where(countries, enclave, count)[i] == before[i]);
                let j = choose|j: int|
                    0 <= j < count - 1 && (#[trigger] countries[j]).is_enclave == enclave
                        && countries[j].code@ == before[i];
                assert(countries[j].is_enclave == enclave);
            } else {
                assert(last.is_enclave == enclave);
                assert(countries[count - 1].code@ == codes_where(countries, enclave, count)[i]);
            }
        }
    }
}

/// In the drawing order every country is named once, and no enclave is
/// named before a country that is none: the first codes are those of the
/// countries that are no enclaves, the others those of the enclaves.
pub proof fn lemma_enclaves_come_last(countries: Seq<Country>)
    ensures
        priority_last(countries).len() == countries.len(),
        forall|i: int|
            0 <= i < priority_last(countries).len() ==> exists|j: int|
                0 <= j < countries.len() && (#[trigger] countries[j]).code@
                    == #[trigger] priority_last(countries)[i] && countries[j].is_enclave == (i
                    >= codes_where(countries, false, countries.len()).len()),
{
    lemma_codes_where(countries, countries.len());
    let plain = codes_where(countries, false, countries.len());
    let enclaves = codes_where(countries, true, countries.len());
    assert forall|i: int| 0 <= i < priority_last(countries).len() implies exists|j: int|
        0 <= j < countries.len() && (#[trigger] countries[j]).code@ == #[trigger] priority_last(
            countries,
        )[i] && countries[j].is_enclave == (i >= plain.len()) by {
        if i < plain.len() {
            assert(priority_last(countries)[i] == plain[i]);
            let j = choose|j: int|
                0 <= j < countries.len() && (#[trigger] countries[j]).is_enclave == false
                    && countries[j].code@ == plain[i];
            assert(countries[j].code@ == priority_last(countries)[i]);
        } else {
            let k = i - plain.len();
            assert(priority_last(countries)[i] == enclaves[k]);
            let j = choose|j: int|
                0 <= j < countries.len() && (#[trigger] countries[j]).is_enclave == true
                    && countries[j].code@ == enclaves[k];
            assert(countries[j].code@ == priority_last(countries)[i]);
        }
    }
}

/// The registry of regions together with what is derived from it: the
/// drawing order, the outline shapes, the meshes and the spatial index.
pub struct WorldStudyData {
    countries: DataMap<Country>,
    capitals: Vec<Capital>,
    country_codes: Vec<String>,
    regions: Vec<String>,
    country_outlines: DataMap<Keyed<Vec<OutlineShape>>>,
    country_meshes: CountryMeshesMap,
    polygon_tree: PolygonTree,
}

impl WorldStudyData {
    /// The regions, in the order of the registry.
    pub closed spec fn countries(&self) -> Seq<Country> {
        self.countries@
    }

    /// The capitals handed in when the derived data was built.
    pub closed spec fn capitals(&self) -> Seq<Capital> {
        self.capitals@
    }

    /// The country codes in drawing order.
    pub closed spec fn codes(&self) -> Seq<Seq<char>> {
        text_views(self.country_codes@)
    }

    /// The regions that countries lie in.
    pub closed spec fn regions(&self) -> Seq<Seq<char>> {
        text_views(self.regions@)
    }

    /// The outline shapes by country code.
    pub closed spec fn outlines(&self) -> Seq<Keyed<Vec<OutlineShape>>> {
        self.country_outlines@
    }

    /// The meshes by country code.
    pub closed spec fn meshes(&self) -> CountryMeshesMap {
        self.country_meshes
    }

    /// The entries of the spatial index.
    pub closed spec fn index(&self) -> Seq<IdentifiedPolygonView> {
        self.polygon_tree@
    }

    /// Nothing has been derived from the registry yet.
    pub open spec fn bare(&self) -> bool {
        &&& self.capitals().len() == 0
        &&& self.codes().len() == 0
        &&& self.regions().len() == 0
        &&& self.outlines().len() == 0
        &&& self.meshes()@.len() == 0
        &&& self.index().len() == 0
    }

    /// Everything derived is that of the registry, the given capitals and
    /// the given triangulations.
    pub open spec fn derived_from(
        &self,
        capitals: Seq<Capital>,
        triangulations: Seq<Vec<Result<Vec<usize>, TriangulationError>>>,
    ) -> bool {
        &&& self.capitals() == capitals
        &&& self.codes() == priority_last(self.countries())
        &&& self.regions() == distinct_regions(self.countries(), self.countries().len())
        &&& outlines_built(self.outlines(), self.countries())
        &&& self.meshes().built_from(self.countries(), triangulations)
        &&& self.index() == index_entries(self.countries(), capitals)
    }

    /// A registry of the given countries with nothing derived yet.
    pub fn build(countries: DataMap<Country>) -> (data: Self)
        ensures
            data.countries() == countries@,
            data.bare(),
    {
        let data = WorldStudyData {
            countries,
            capitals: Vec::new(),
            country_codes: Vec::new(),
            regions: Vec::new(),
            country_outlines: DataMap::new(),
            country_meshes: CountryMeshesMap::new(),
            polygon_tree: PolygonTree::bulk_load(Vec::new()),
        };
        proof {
            assert(data.codes() =~= Seq::<Seq<char>>::empty());
            assert(data.regions() =~= Seq::<Seq<char>>::empty());
            assert(data.index() =~= Seq::<IdentifiedPolygonView>::empty());
        }
        data
    }

    /// What a triangulator is to be given: for every country, in order, the
    /// layout of each of its polygons.
    pub fn mesh_inputs(&self) -> (inputs: Vec<Vec<MeshInput>>)
        ensures
            inputs@.len() == self.countries().len(),
            forall|i: int|
                0 <= i < inputs@.len() ==> (#[trigger] inputs@[i])@.len()
                    == self.countries()[i].polygons@.len(),
            forall|i: int, k: int|
                0 <= i < inputs@.len() && 0 <= k < inputs@[i]@.len() ==> (
                #[trigger] inputs@[i]@[k]).lays_out(self.countries()[i].polygons@[k]@),
    {
        let mut inputs: Vec<Vec<MeshInput>> = Vec::new();
        let records = self.countries.iter();
        let n = records.len();
        let mut i: usize = 0;
        while i < n
            invariant
                i <= n,
                n == records@.len(),
                inputs@.len() == i,
                forall|a: int|
                    0 <= a < i ==> (#[trigger] inputs@[a])@.len() == records@[a].polygons@.len(),
                forall|a: int, k: int|
                    0 <= a < i && 0 <= k < inputs@[a]@.len() ==> (
                    #[trigger] inputs@[a]@[k]).lays_out(records@[a].polygons@[k]@),
            decreases n - i,
        {
            let country = &records[i];
            let mut row: Vec<MeshInput> = Vec::new();
            let m = country.polygons.len();
            let mut k: usize = 0;
            while k < m
                invariant
                    k <= m,
                    m == country.polygons@.len(),
                    row@.len() == k,
                    forall|j: int|
                        0 <= j < k ==> (#[trigger] row@[j]).lays_out(country.polygons@[j]@),
                decreases m - k,
            {
                row.push(country.polygons[k].mesh_input());
                k += 1;
            }
            inputs.push(row);
            i += 1;
        }
        inputs
    }

    /// Derives the drawing order, the outline shapes, the meshes and the
    /// spatial index from the registry. `triangulations[i][k]` is what the
    /// triangulator made of entry `[i][k]` of [`mesh_inputs`](Self::mesh_inputs).
    pub fn initialize(
        &mut self,
        capitals: Vec<Capital>,
        triangulations: &Vec<Vec<Result<Vec<usize>, TriangulationError>>>,
    )
        ensures
            final(self).countries() == old(self).countries(),
            final(self).derived_from(capitals@, triangulations@),
    {
        let mut codes: Vec<String> = Vec::new();
        let records = self.countries.iter();
        let n = records.len();
        let mut i: usize = 0;
        while i < n
            invariant
                i <= n,
                n == records@.len(),
                text_views(codes@) == codes_where(records@, false, i as nat),
            decreases n - i,
        {
            if !records[i].is_enclave {
                let ghost before = codes@;
                let code = records[i].code.clone();
                codes.push(code);
                proof {
                    assert(text_views(codes@) =~= text_views(before).push(code@));
                }
            }
            i += 1;
        }
        let ghost plain = codes@;
        let mut j: usize = 0;
        while j < n
            invariant
                j <= n,
                n == records@.len(),
                text_views(codes@) == text_views(plain) + codes_where(records@, true, j as nat),
            decreases n - j,
        {
            if records[j].is_enclave {
                let ghost before = codes@;
                let code = records[j].code.clone();
                codes.push(code);
                proof {
                    assert(text_views(codes@) =~= text_views(before).push(code@));
                }
            }
            j += 1;
        }
        let mut regions: Vec<String> = Vec::new();
        let mut r: usize = 0;
        while r < n
            invariant
                r <= n,
                n == records@.len(),
                text_views(regions@) == distinct_regions(records@, r as nat),
            decreases n - r,
        {
            let region = &records[r].region;
            let mut known = false;
            let m = regions.len();
            let mut k: usize = 0;
            while k < m
                invariant
                    k <= m,
                    m == regions@.len(),
                    known == text_views(regions@).take(k as int).contains(region@),
                decreases m - k,
            {
                let ghost upto = text_views(regions@).take(k as int);
                let ghost next = text_views(regions@).take(k + 1);
                proof {
                    assert(next =~= upto.push(regions@[k as int]@));
                    if upto.contains(region@) {
                        let w = choose|w: int| 0 <= w < upto.len() && upto[w] == region@;
                        assert(next[w] == region@);
                    }
                    if next.contains(region@) && regions@[k as int]@ != region@ {
                        let w = choose|w: int| 0 <= w < next.len() && next[w] == region@;
                        assert(upto[w] == region@);
                    }
                    if regions@[k as int]@ == region@ {
                        assert(next[k as int] == region@);
                    }
                }
                if regions[k] == *region {
                    known = true;
                }
                k += 1;
            }
            proof {
                assert(text_views(regions@).take(m as int) =~= text_views(regions@));
            }
            if !known {
                let ghost before = regions@;
                let name = region.clone();
                regions.push(name);
                proof {
                    assert(text_views(regions@) =~= text_views(before).push(name@));
                }
            }
            r += 1;
        }
        let outlines = build_country_outlines(&self.countries);
        let meshes = CountryMeshesMap::build(&self.countries, triangulations);
        let tree = build_polygon_tree(&self.countries, &capitals);
        self.country_codes = codes;
        self.regions = regions;
        self.country_outlines = outlines;
        self.country_meshes = meshes;
        self.polygon_tree = tree;
        self.capitals = capitals;
    }

    /// Registry and derived data in one step.
    pub fn load(
        countries: DataMap<Country>,
        capitals: Vec<Capital>,
        triangulations: &Vec<Vec<Result<Vec<usize>, TriangulationError>>>,
    ) -> (data: Self)
        ensures
            data.countries() == countries@,
            data.derived_from(capitals@, triangulations@),
    {
        let mut data = WorldStudyData::build(countries);
        data.initialize(capitals, triangulations);
        data
    }

    /// The country stored under `country_code`, whatever the case in which
    /// the code is written.
    pub fn get_country(&self, country_code: &str) -> (found: Option<&Country>)
        ensures
            found is Some <==> holds_id(self.countries(), uppercased(country_code@)),
            found is Some ==> found.unwrap().code@ == uppercased(country_code@) && *found.unwrap()
                == self.countries()[index_of(self.countries(), uppercased(country_code@))],
    {
        let key = to_uppercase(country_code);
        self.countries.get(key.as_str())
    }

    /// The countries stored under the given codes, whatever the case in
    /// which a code is written. A code under which nothing is stored adds
    /// nothing.
    pub fn get_countries(&self, country_codes: &[&str]) -> (found: Vec<&Country>)
        ensures
            found@.map_values(|c: &Country| *c) == countries_found(
                self.countries(),
                country_codes@,
                country_codes@.len(),
            ),
    {
        let mut found: Vec<&Country> = Vec::new();
        let n = country_codes.len();
        let mut i: usize = 0;
        proof {
            assert(found@.map_values(|c: &Country| *c) =~= Seq::<Country>::empty());
        }
        while i < n
            invariant
                i <= n,
                n == country_codes@.len(),
                found@.map_values(|c: &Country| *c) == countries_found(
                    self.countries(),
                    country_codes@,
                    i as nat,
                ),
            decreases n - i,
        {
            if let Some(country) = self.get_country(country_codes[i]) {
                let ghost before = found@;
                found.push(country);
                proof {
                    assert(found@.map_values(|c: &Country| *c) =~= before.map_values(
                        |c: &Country| *c,
                    ).push(*country));
                }
            }
            i += 1;
        }
        found
    }

    /// The capital whose name is `capital_name`, whatever the case in which
    /// the name is written; the first of them where several are.
    pub fn get_capital(&self, capital_name: &str) -> (found: Option<&Capital>)
        ensures
            match capital_index(
                self.capitals(),
                uppercased(capital_name@),
                self.capitals().len(),
            ) {
                Some(i) => found is Some && *found.unwrap() == self.capitals()[i],
                None => found is None,
            },
    {
        let key = to_uppercase(capital_name);
        let n = self.capitals.len();
        let mut i: usize = 0;
        while i < n
            invariant
                i <= n,
                n == self.capitals@.len(),
                key@ == uppercased(capital_name@),
                capital_index(self.capitals@, key@, i as nat) is None,
            decreases n - i,
        {
            if to_uppercase(self.capitals[i].name.as_str()) == key {
                proof {
                    assert(capital_index(self.capitals@, key@, (i + 1) as nat) == Some(i as int));
                    lemma_capital_index_stays(self.capitals@, key@, (i + 1) as nat, n as nat);
                }
                return Some(&self.capitals[i]);
            }
            i += 1;
        }
        None
    }

    /// The capitals of the country stored under `country_code`, whatever
    /// the case in which the code is written: those of the capitals at hand
    /// that the country names. An unknown country has none.
    pub fn get_country_capitals(&self, country_code: &str) -> (found: Vec<&Capital>)
        ensures
            found@.map_values(|c: &Capital| *c) == capitals_found(
                self.capitals(),
                capital_names_of(self.countries(), country_code@),
                capital_names_of(self.countries(), country_code@).len(),
            ),
    {
        let mut found: Vec<&Capital> = Vec::new();
        proof {
            assert(found@.map_values(|c: &Capital| *c) =~= Seq::<Capital>::empty());
        }
        let country = match self.get_country(country_code) {
            Some(country) => country,
            None => {
                return found;
            },
        };
        let ghost names = capital_names_of(self.countries(), country_code@);
        assert(names == text_views(country.capitals@));
        let n = country.capitals.len();
        let mut i: usize = 0;
        while i < n
            invariant
                i <= n,
                n == country.capitals@.len(),
                names == text_views(country.capitals@),
                found@.map_values(|c: &Capital| *c) == capitals_found(
                    self.capitals(),
                    names,
                    i as nat,
                ),
            decreases n - i,
        {
            assert(names[i as int] == country.capitals@[i as int]@);
            if let Some(capital) = self.get_capital(country.capitals[i].as_str()) {
                let ghost before = found@;
                found.push(capital);
                proof {
                    assert(found@.map_values(|c: &Capital| *c) =~= before.map_values(
                        |c: &Capital| *c,
                    ).push(*capital));
                }
            }
            i += 1;
        }
        found
    }

    /// The regions that countries lie in, each named once.
    pub fn get_regions(&self) -> (regions: &Vec<String>)
        ensures
            text_views(regions@) == self.regions(),
    {
        &self.regions
    }

    /// Whether a country lies in the region whose name is `region` written
    /// in upper case.
    pub fn region_exists(&self, region: &str) -> (exists: bool)
        ensures
            exists == self.regions().contains(uppercased(region@)),
    {
        let key = to_uppercase(region);
        let n = self.regions.len();
        let mut i: usize = 0;
        while i < n
            invariant
                i <= n,
                n == self.regions@.len(),
                key@ == uppercased(region@),
                forall|k: int| 0 <= k < i ==> (#[trigger] self.regions@[k])@ != key@,
            decreases n - i,
        {
            if self.regions[i] == key {
                proof {
                    assert(0 <= i < self.regions().len() && self.regions()[i as int] == key@);
                }
                return true;
            }
            i += 1;
        }
        proof {
            assert forall|k: int| 0 <= k < self.regions().len() implies self.regions()[k]
                != key@ by {
                assert(self.regions()[k] == self.regions@[k]@);
            }
        }
        false
    }

    /// Every country, in the order of the registry. No two of them share a
    /// code.
    pub fn countries_iter(&self) -> (countries: &Vec<Country>)
        ensures
            countries@ == self.countries(),
            distinct_ids(countries@),
    {
        self.countries.iter()
    }

    /// The country codes in drawing order: enclaves last.
    pub fn get_country_codes(&self) -> (codes: &Vec<String>)
        ensures
            text_views(codes@) == self.codes(),
    {
        &self.country_codes
    }

    /// Whether a country is listed under `country_code`, whatever the case
    /// in which the code is written.
    pub fn country_exists(&self, country_code: &str) -> (exists: bool)
        ensures
            exists == self.codes().contains(uppercased(country_code@)),
    {
        let key = to_uppercase(country_code);
        let n = self.country_codes.len();
        let mut i: usize = 0;
        while i < n
            invariant
                i <= n,
                n == self.country_codes@.len(),
                key@ == uppercased(country_code@),
                forall|k: int| 0 <= k < i ==> (#[trigger] self.country_codes@[k])@ != key@,
            decreases n - i,
        {
            if self.country_codes[i] == key {
                proof {
                    assert(0 <= i < self.codes().len() && self.codes()[i as int] == key@);
                }
                return true;
            }
            i += 1;
        }
        proof {
            assert forall|k: int| 0 <= k < self.codes().len() implies self.codes()[k] != key@ by {
                assert(self.codes()[k] == self.country_codes@[k]@);
            }
        }
        false
    }

    /// The outline shapes stored under exactly `country_code`.
    pub fn get_country_outlines(&self, country_code: &str) -> (found: Option<&Vec<OutlineShape>>)
        ensures
            found is Some <==> holds_id(self.outlines(), country_code@),
            found is Some ==> *found.unwrap() == self.outlines()[index_of(
                self.outlines(),
                country_code@,
            )].value,
    {
        match self.country_outlines.get(country_code) {
            Some(entry) => Some(&entry.value),
            None => None,
        }
    }

    /// The meshes stored under exactly `country_code`.
    pub fn get_country_meshes(&self, country_code: &str) -> (found: Option<&CountryMeshes>)
        ensures
            found is Some <==> holds_id(self.meshes()@, country_code@),
            found is Some ==> *found.unwrap() == self.meshes()@[index_of(
                self.meshes()@,
                country_code@,
            )].value,
    {
        self.country_meshes.get(country_code)
    }

    /// The indexed polygon that a query for the point `(x, y)` answers: the
    /// best match among the polygons that contain the point, if any.
    pub fn get_polygon_id_at_point(&self, x: i64, y: i64) -> (found: Option<&IdentifiedPolygon>)
        ensures
            match answer(self.index(), Position { x, y }) {
                Some(i) => found is Some && found.unwrap()@ == self.index()[i],
                None => found is None,
            },
    {
        self.polygon_tree.find(Position { x, y })
    }

    /// The identifier of what a query for the point `(x, y)` answers.
    pub fn get_country_code_at_point(&self, x: i64, y: i64) -> (found: Option<String>)
        ensures
            match answer(self.index(), Position { x, y }) {
                Some(i) => found is Some && found.unwrap()@ == self.index()[i].id,
                None => found is None,
            },
    {
        match self.polygon_tree.find(Position { x, y }) {
            Some(entry) => {
                let id = entry.id().to_owned();
                Some(id)
            },
            None => None,
        }
    }
}

} // verus!
