//! The record of one country.

use vstd::prelude::*;
use crate::data_map::HasId;
use crate::polygon::{Polygon, PolygonView};
use crate::text::text_views;

verus! {

/// What proofs see of a country.
pub struct CountryView {
    pub code: Seq<char>,
    pub name: Seq<char>,
    pub long_name: Seq<char>,
    pub region: Seq<char>,
    pub polygons: Seq<PolygonView>,
    pub is_enclave: bool,
    pub capitals: Seq<Seq<char>>,
    pub flag_svg: Seq<u8>,
}

/// The views of a list of polygons.
pub open spec fn polygon_views(polygons: Seq<Polygon>) -> Seq<PolygonView> {
    polygons.map_values(|p: Polygon| p@)
}

/// The views of a list of countries.
pub open spec fn country_views(countries: Seq<Country>) -> Seq<CountryView> {
    countries.map_values(|c: Country| c@)
}

/// A region of the map: its code, what it is called, and its outline.
#[derive(Debug)]
pub struct Country {
    /// Short stable code, in upper case.
    pub code: String,
    pub name: String,
    pub long_name: String,
    pub region: String,
    /// One polygon per disjoint part of the outline.
    pub polygons: Vec<Polygon>,
    /// Set for a region that lies inside another and must win a shared point.
    pub is_enclave: bool,
    /// The names of the country's capitals.
    pub capitals: Vec<String>,
    /// The flag image as it was read.
    pub flag_svg: Vec<u8>,
}

impl View for Country {
    type V = CountryView;

    open spec fn view(&self) -> CountryView {
        CountryView {
            code: self.code@,
            name: self.name@,
            long_name: self.long_name@,
            region: self.region@,
            polygons: polygon_views(self.polygons@),
            is_enclave: self.is_enclave,
            capitals: text_views(self.capitals@),
            flag_svg: self.flag_svg@,
        }
    }
}

impl HasId for Country {
    open spec fn spec_id(&self) -> Seq<char> {
        self.code@
    }

    fn id(&self) -> (id: String) {
        self.code.clone()
    }

    fn with_id(self, id: String) -> (out: Self)
        ensures
            out.name == self.name,
            out.long_name == self.long_name,
            out.region == self.region,
            out.polygons == self.polygons,
            out.is_enclave == self.is_enclave,
            out.capitals == self.capitals,
            out.flag_svg == self.flag_svg,
    {
        Country {
            code: id,
            name: self.name,
            long_name: self.long_name,
            region: self.region,
            polygons: self.polygons,
            is_enclave: self.is_enclave,
            capitals: self.capitals,
            flag_svg: self.flag_svg,
        }
    }
}

} // verus!
