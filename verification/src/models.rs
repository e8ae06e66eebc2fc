//! Parts of the table of all countries from which the country data is made.

use vstd::prelude::*;

verus! {

/// The names of a country as a table of all countries gives them.
#[derive(Debug)]
pub struct AllCountriesEntryName {
    pub common: String,
    pub official: String,
}

/// Where maps of a country are found, as a table of all countries gives it.
#[derive(Debug)]
#[allow(non_snake_case)]
pub struct AllCountriesEntryMaps {
    pub googleMaps: String,
    pub openStreetMaps: String,
}

} // verus!
