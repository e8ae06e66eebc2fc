//! Values stored under a region code.

use vstd::prelude::*;
use crate::data_map::HasId;

verus! {

/// A value stored under a region code.
#[derive(Debug)]
pub struct Keyed<V> {
    pub key: String,
    pub value: V,
}

impl<V> HasId for Keyed<V> {
    open spec fn spec_id(&self) -> Seq<char> {
        self.key@
    }

    fn id(&self) -> (id: String) {
        self.key.clone()
    }

    fn with_id(self, id: String) -> (out: Self)
        ensures
            out.value == self.value,
    {
        Keyed { key: id, value: self.value }
    }
}

} // verus!
