//! Capital cities as the spatial index sees them.

use vstd::prelude::*;
use crate::polygon::Polygon;
use crate::position::Position;

verus! {

/// A capital city and the small outline under which the pointer finds it.
#[derive(Debug)]
pub struct Capital {
    pub name: String,
    pub coordinates: Position,
    pub outline: Polygon,
}

} // verus!
