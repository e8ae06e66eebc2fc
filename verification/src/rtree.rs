//! The R-tree of bounding boxes, which is `rstar`'s and taken on trust.

use vstd::prelude::*;
use crate::position::{Envelope, Position};

verus! {

/// A bulk-loaded R-tree of tagged boxes. The tree itself is `rstar`'s; nothing
/// inside it is visible to proofs, which speak of it through [`tree_boxes`].
#[verifier::external_body]
pub struct BoxTree {
    tree: rstar::RTree<
        rstar::primitives::GeomWithData<rstar::primitives::Rectangle<[i64; 2]>, usize>,
    >,
}

/// The boxes that a tree holds: position `i` is the box that carries the tag `i`.
pub uninterp spec fn tree_boxes(tree: BoxTree) -> Seq<Envelope>;

/// `rstar::RTree::bulk_load` on one rectangle per box, each tagged with its
/// position in `boxes`. The tree then holds exactly these boxes.
#[verifier::external_body]
pub(crate) fn load_boxes(boxes: &Vec<Envelope>) -> (tree: BoxTree)
    requires
        forall|i: int| 0 <= i < boxes@.len() ==> (#[trigger] boxes@[i]).ordered(),
    ensures
        tree_boxes(tree) == boxes@,
{
    BoxTree {
        tree: rstar::RTree::bulk_load(
            boxes.iter().enumerate().map(
                |(tag, b)|
                    rstar::primitives::GeomWithData::new(
                        rstar::primitives::Rectangle::from_corners(
                            [b.min_x, b.min_y],
                            [b.max_x, b.max_y],
                        ),
                        tag,
                    ),
            ).collect(),
        ),
    }
}

/// `rstar::RTree::locate_in_envelope_intersecting` with the box that holds
/// only `p`. It hands out the tags of exactly those boxes that cover `p`, in
/// an order that depends on the tree's layout.
#[verifier::external_body]
pub(crate) fn tags_covering(tree: &BoxTree, p: Position) -> (tags: Vec<usize>)
    ensures
        forall|k: int|
            0 <= k < tags@.len() ==> (#[trigger] tags@[k]) < tree_boxes(*tree).len()
                && tree_boxes(*tree)[tags@[k] as int].covers(p),
        forall|i: usize|
            i < tree_boxes(*tree).len() && (#[trigger] tree_boxes(*tree)[i as int]).covers(p)
                ==> tags@.contains(i),
{
    tree.tree.locate_in_envelope_intersecting(&rstar::AABB::from_point([p.x, p.y])).map(
        |item| item.data,
    ).collect()
}

} // verus!
