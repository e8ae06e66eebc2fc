//! The spatial index: which identified polygon a point belongs to.
//!
//! Where several polygons contain a point, one that wins (priority flag or
//! capital) goes before one that does not, and among equals the one entered
//! first is taken. The answer is thus a function of the entries and the
//! point, whatever the layout of the tree.

use vstd::prelude::*;
use crate::capital::Capital;
use crate::country::Country;
use crate::data_map::DataMap;
use crate::identified_polygon::{IdentifiedPolygon, IdentifiedPolygonType, IdentifiedPolygonView};
use crate::polygon::valid_polygon;
use crate::position::{bounding_box, lemma_bounding_box, Envelope, Position};
use crate::rtree::{load_boxes, tags_covering, tree_boxes, BoxTree};

verus! {

/// Entry `i` is a match for the point: its polygon contains the point, which
/// lies in the bounding box of the polygon's outer ring.
pub open spec fn hits(entries: Seq<IdentifiedPolygonView>, point: Position, i: int) -> bool {
    entries[i].hit(bounding_box(entries[i].polygon.exterior), point)
}

/// Entry `j` takes precedence over entry `i`: it wins and `i` does not, or
/// neither differs in that and `j` was entered earlier.
pub open spec fn beats(entries: Seq<IdentifiedPolygonView>, j: int, i: int) -> bool {
    (entries[j].wins() && !entries[i].wins()) || (entries[j].wins() == entries[i].wins() && j
        < i)
}

/// Entry `i` is the match that no other match takes precedence over.
pub open spec fn is_best(entries: Seq<IdentifiedPolygonView>, point: Position, i: int) -> bool {
    &&& 0 <= i < entries.len()
    &&& hits(entries, point, i)
    &&& forall|j: int|
        0 <= j < entries.len() && #[trigger] hits(entries, point, j) ==> !beats(entries, j, i)
}

/// `found` is what a query for `point` answers over `entries`: the best
/// match, or nothing where no entry matches.
pub open spec fn located(
    entries: Seq<IdentifiedPolygonView>,
    point: Position,
    found: Option<int>,
) -> bool {
    match found {
        Some(i) => is_best(entries, point, i),
        None => forall|j: int| 0 <= j < entries.len() ==> !#[trigger] hits(entries, point, j),
    }
}

/// What a query for `point` answers over `entries`: the number of the best
/// match, or nothing where no entry matches.
pub open spec fn answer(entries: Seq<IdentifiedPolygonView>, point: Position) -> Option<int> {
    if exists|i: int| is_best(entries, point, i) {
        Some(choose|i: int| is_best(entries, point, i))
    } else {
        None
    }
}

/// The views of a list of entries.
pub open spec fn entry_views(entries: Seq<IdentifiedPolygon>) -> Seq<IdentifiedPolygonView> {
    entries.map_values(|e: IdentifiedPolygon| e@)
}

/// A spatial index over identified polygons, built once and then only read.
pub struct PolygonTree {
    entries: Vec<IdentifiedPolygon>,
    tree: BoxTree,
}

impl View for PolygonTree {
    type V = Seq<IdentifiedPolygonView>;

    closed spec fn view(&self) -> Seq<IdentifiedPolygonView> {
        entry_views(self.entries@)
    }
}

impl PolygonTree {
    /// The tree holds, for every entry, the bounding box of its outer ring.
    #[verifier::type_invariant]
    closed spec fn wf(&self) -> bool {
        &&& tree_boxes(self.tree).len() == self.entries@.len()
        &&& forall|i: int|
            0 <= i < self.entries@.len() ==> valid_polygon((#[trigger] self.entries@[i])@.polygon)
                && tree_boxes(self.tree)[i].bounds(self.entries@[i]@.polygon.exterior)
    }

    /// Builds the index over `entries` in one go.
    pub fn bulk_load(entries: Vec<IdentifiedPolygon>) -> (index: PolygonTree)
        ensures
            index@ == entry_views(entries@),
    {
        let mut boxes: Vec<Envelope> = Vec::new();
        let n = entries.len();
        let mut i: usize = 0;
        while i < n
            invariant
                i <= n,
                n == entries@.len(),
                boxes@.len() == i,
                forall|k: int|
                    0 <= k < i ==> (#[trigger] boxes@[k]).ordered() && boxes@[k].bounds(
                        entries@[k]@.polygon.exterior,
                    ) && valid_polygon(entries@[k]@.polygon),
            decreases n - i,
        {
            let entry = &entries[i];
            proof {
                use_type_invariant(entry);
            }
            boxes.push(entry.envelope());
            i += 1;
        }
        let tree = load_boxes(&boxes);
        proof {
            assert forall|i: int| 0 <= i < entries@.len() implies valid_polygon(
                (#[trigger] entries@[i])@.polygon,
            ) && tree_boxes(tree)[i].bounds(entries@[i]@.polygon.exterior) by {
                assert(boxes@[i].ordered());
            }
        }
        PolygonTree { entries, tree }
    }

    /// Number of entries.
    pub fn size(&self) -> (n: usize)
        ensures
            n == self@.len(),
    {
        self.entries.len()
    }

    /// Entry `i`.
    pub fn entry(&self, i: usize) -> (entry: &IdentifiedPolygon)
        requires
            i < self@.len(),
        ensures
            entry@ == self@[i as int],
    {
        &self.entries[i]
    }

    /// The entries whose bounding box covers the point, by their numbers, in
    /// no particular order: what the tree leaves to be looked at closely.
    pub fn candidates(&self, point: Position) -> (tags: Vec<usize>)
        ensures
            forall|k: int|
                0 <= k < tags@.len() ==> (#[trigger] tags@[k]) < self@.len() && bounding_box(
                    self@[tags@[k] as int].polygon.exterior,
                ).covers(point),
            forall|i: usize|
                i < self@.len() && bounding_box(
                    (#[trigger] self@[i as int]).polygon.exterior,
                ).covers(point) ==> tags@.contains(i),
    {
        proof {
            use_type_invariant(self);
            assert forall|i: int| 0 <= i < self.entries@.len() implies bounding_box(
                (#[trigger] self@[i]).polygon.exterior,
            ) == tree_boxes(self.tree)[i] by {
                assert(valid_polygon(self.entries@[i]@.polygon));
                lemma_bounding_box(tree_boxes(self.tree)[i], self@[i].polygon.exterior);
            }
        }
        let tags = tags_covering(&self.tree, point);
        proof {
            assert forall|i: usize|
                i < self@.len() && bounding_box(
                    (#[trigger] self@[i as int]).polygon.exterior,
                ).covers(point) implies tags@.contains(i) by {
                assert(tree_boxes(self.tree)[i as int].covers(point));
            }
        }
        tags
    }

    /// The number of the entry that a query for `point` answers.
    ///
    /// Among the entries whose polygon contains the point, one that wins
    /// (priority flag or capital) goes before one that does not; among equals
    /// the one entered first is taken. The answer therefore depends on the
    /// entries and the point alone, not on the layout of the tree.
    pub fn locate(&self, point: Position) -> (found: Option<usize>)
        ensures
            match answer(self@, point) {
                Some(i) => found is Some && found.unwrap() as int == i && i < self@.len(),
                None => found is None,
            },
    {
        let tags = self.candidates(point);
        let ghost entries = self@;
        let size = self.entries.len();
        assert(entries.len() == size);
        let mut best: Option<usize> = None;
        let mut best_wins = false;
        let n = tags.len();
        let mut k: usize = 0;
        while k < n
            invariant
                k <= n,
                n == tags@.len(),
                entries == self@,
                entries.len() <= usize::MAX,
                forall|t: int|
                    0 <= t < tags@.len() ==> (#[trigger] tags@[t]) < entries.len() && bounding_box(
                        entries[tags@[t] as int].polygon.exterior,
                    ).covers(point),
                forall|i: usize|
                    i < entries.len() && bounding_box(
                        (#[trigger] entries[i as int]).polygon.exterior,
                    ).covers(point) ==> tags@.contains(i),
                match best {
                    Some(b) => {
                        &&& b < entries.len()
                        &&& hits(entries, point, b as int)
                        &&& best_wins == entries[b as int].wins()
                        &&& forall|t: int|
                            0 <= t < k && hits(entries, point, (#[trigger] tags@[t]) as int)
                                ==> !beats(entries, tags@[t] as int, b as int)
                    },
                    None => forall|t: int|
                        0 <= t < k ==> !hits(entries, point, (#[trigger] tags@[t]) as int),
                },
            decreases n - k,
        {
            let i = tags[k];
            let entry = &self.entries[i];
            assert(entry@ == entries[i as int]);
            if entry.contains_point(point) {
                let wins = entry.wins();
                let better = match best {
                    None => true,
                    Some(b) => (wins && !best_wins) || (wins == best_wins && i < b),
                };
                if better {
                    best = Some(i);
                    best_wins = wins;
                }
            }
            k += 1;
        }
        proof {
            match best {
                Some(b) => {
                    assert forall|j: int|
                        0 <= j < entries.len() && #[trigger] hits(
                            entries,
                            point,
                            j,
                        ) implies !beats(entries, j, b as int) by {
                        let at = j as usize;
                        assert(bounding_box(entries[at as int].polygon.exterior).covers(point));
                        assert(tags@.contains(at));
                        let t = choose|t: int| 0 <= t < tags@.len() && tags@[t] == at;
                        assert(hits(entries, point, tags@[t] as int));
                    }
                },
                None => {
                    assert forall|j: int| 0 <= j < entries.len() implies !#[trigger] hits(
                        entries,
                        point,
                        j,
                    ) by {
                        if hits(entries, point, j) {
                            let at = j as usize;
                            assert(bounding_box(entries[at as int].polygon.exterior).covers(
                                point,
                            ));
                            assert(tags@.contains(at));
                            let t = choose|t: int| 0 <= t < tags@.len() && tags@[t] == at;
                            assert(!hits(entries, point, tags@[t] as int));
                        }
                    }
                },
            }
            lemma_answer(
                entries,
                point,
                match best {
                    Some(b) => Some(b as int),
                    None => None,
                },
            );
        }
        best
    }

    /// The entry that a query for `point` answers, if any.
    pub fn find(&self, point: Position) -> (found: Option<&IdentifiedPolygon>)
        ensures
            match answer(self@, point) {
                Some(i) => found is Some && found.unwrap()@ == self@[i],
                None => found is None,
            },
    {
        match self.locate(point) {
            Some(i) => {
                assert(self@[i as int] == self.entries@[i as int]@);
                Some(&self.entries[i])
            },
            None => None,
        }
    }
}

/// A query has at most one answer: what satisfies [`located`] is unique.
pub proof fn lemma_answer_is_unique(
    entries: Seq<IdentifiedPolygonView>,
    point: Position,
    first: Option<int>,
    second: Option<int>,
)
    requires
        located(entries, point, first),
        located(entries, point, second),
    ensures
        first == second,
{
    match (first, second) {
        (Some(a), Some(b)) => {
            assert(!beats(entries, a, b));
            assert(!beats(entries, b, a));
        },
        (Some(a), None) => {
            assert(hits(entries, point, a));
        },
        (None, Some(b)) => {
            assert(hits(entries, point, b));
        },
        (None, None) => {},
    }
}

/// What satisfies [`located`] is the answer.
pub proof fn lemma_answer(entries: Seq<IdentifiedPolygonView>, point: Position, found: Option<int>)
    requires
        located(entries, point, found),
    ensures
        answer(entries, point) == found,
{
    match found {
        Some(i) => {
            let chosen = choose|i: int| is_best(entries, point, i);
            lemma_answer_is_unique(entries, point, found, Some(chosen));
        },
        None => {
            if exists|i: int| is_best(entries, point, i) {
                let i = choose|i: int| is_best(entries, point, i);
                assert(hits(entries, point, i));
            }
        },
    }
}

/// The best match among the first `count` entries.
proof fn lemma_best_of_prefix(
    entries: Seq<IdentifiedPolygonView>,
    point: Position,
    count: nat,
) -> (found: Option<int>)
    requires
        count <= entries.len(),
    ensures
        match found {
            Some(i) => 0 <= i < count && hits(entries, point, i) && forall|j: int|
                0 <= j < count && #[trigger] hits(entries, point, j) ==> !beats(entries, j, i),
            None => forall|j: int| 0 <= j < count ==> !#[trigger] hits(entries, point, j),
        },
    decreases count,
{
    if count == 0 {
        None
    } else {
        let before = lemma_best_of_prefix(entries, point, (count - 1) as nat);
        let last = count - 1;
        if !hits(entries, point, last) {
            before
        } else {
            match before {
                None => Some(last),
                Some(b) => if beats(entries, last, b) {
                    Some(last)
                } else {
                    before
                },
            }
        }
    }
}

/// Every query has an answer that satisfies [`located`]: where some entry
/// matches, one of the matches is the best.
pub proof fn lemma_answer_is_located(entries: Seq<IdentifiedPolygonView>, point: Position)
    ensures
        located(entries, point, answer(entries, point)),
{
    let found = lemma_best_of_prefix(entries, point, entries.len());
    lemma_answer(entries, point, found);
}

/// An index that is built again from the same entries answers every query
/// as the first did, however its tree is laid out.
pub proof fn lemma_rebuilt_index_answers_alike(
    first: PolygonTree,
    second: PolygonTree,
    point: Position,
)
    requires
        first@ == second@,
    ensures
        answer(first@, point) == answer(second@, point),
{
}

/// A point that a polygon contains is found: the query answers with an entry
/// that contains the point, and with this polygon's entry unless another one
/// that contains the point takes precedence.
pub proof fn lemma_contained_point_is_found(
    entries: Seq<IdentifiedPolygonView>,
    point: Position,
    i: int,
)
    requires
        0 <= i < entries.len(),
        hits(entries, point, i),
    ensures
        answer(entries, point) is Some,
        hits(entries, point, answer(entries, point).unwrap()),
        answer(entries, point) == Some(i) || beats(entries, answer(entries, point).unwrap(), i),
{
    lemma_answer_is_located(entries, point);
    let found = answer(entries, point);
    if found is Some {
        assert(!beats(entries, i, found.unwrap()));
    }
}

/// A point that a polygon of a region contains, and that no polygon of
/// another region contains, is answered with that region.
pub proof fn lemma_point_in_one_region_finds_it(
    entries: Seq<IdentifiedPolygonView>,
    point: Position,
    i: int,
)
    requires
        0 <= i < entries.len(),
        hits(entries, point, i),
        forall|j: int|
            0 <= j < entries.len() && #[trigger] hits(entries, point, j) ==> entries[j].id
                == entries[i].id,
    ensures
        answer(entries, point) is Some,
        entries[answer(entries, point).unwrap()].id == entries[i].id,
{
    lemma_contained_point_is_found(entries, point, i);
    lemma_answer_is_located(entries, point);
}

/// A point that a polygon does not contain, such as a point in one of its
/// holes, is never answered with that polygon's entry.
pub proof fn lemma_uncontained_point_is_not_found(
    entries: Seq<IdentifiedPolygonView>,
    point: Position,
    k: int,
)
    requires
        0 <= k < entries.len(),
        !entries[k].contains(point),
    ensures
        answer(entries, point) != Some(k),
{
    lemma_answer_is_located(entries, point);
}

/// Where an entry that wins and one that does not both contain the point,
/// the answer is an entry that wins; it is the winning entry itself where
/// no other winning entry contains the point.
pub proof fn lemma_priority_takes_precedence(
    entries: Seq<IdentifiedPolygonView>,
    point: Position,
    a: int,
    b: int,
)
    requires
        0 <= a < entries.len(),
        0 <= b < entries.len(),
        hits(entries, point, a),
        hits(entries, point, b),
        entries[a].wins(),
        !entries[b].wins(),
    ensures
        answer(entries, point) is Some,
        entries[answer(entries, point).unwrap()].wins(),
        answer(entries, point) != Some(b),
        (forall|j: int|
            0 <= j < entries.len() && j != a && #[trigger] hits(entries, point, j)
                ==> !entries[j].wins()) ==> answer(entries, point) == Some(a),
{
    lemma_answer_is_located(entries, point);
    let found = answer(entries, point);
    if found is Some {
        assert(!beats(entries, a, found.unwrap()));
    }
}

/// A point outside every bounding box has no answer.
pub proof fn lemma_point_outside_every_box_is_not_found(
    entries: Seq<IdentifiedPolygonView>,
    point: Position,
)
    requires
        forall|j: int|
            0 <= j < entries.len() ==> !bounding_box(
                (#[trigger] entries[j]).polygon.exterior,
            ).covers(point),
    ensures
        answer(entries, point) is None,
{
    lemma_answer_is_located(entries, point);
    let found = answer(entries, point);
    if found is Some {
        assert(hits(entries, point, found.unwrap()));
    }
}

/// The entry of polygon `k` of a country.
pub open spec fn country_entry(country: Country, k: int) -> IdentifiedPolygonView {
    IdentifiedPolygonView {
        id: country.code@,
        priority: country.is_enclave,
        polygon: country.polygons@[k]@,
        polygon_type: IdentifiedPolygonType::Country,
    }
}

/// The entries of one country: one per polygon, in order.
pub open spec fn country_entries(country: Country) -> Seq<IdentifiedPolygonView> {
    Seq::new(country.polygons@.len(), |k: int| country_entry(country, k))
}

/// The entries of the first `count` countries.
pub open spec fn countries_entries(countries: Seq<Country>, count: nat) -> Seq<
    IdentifiedPolygonView,
>
    decreases count,
{
    if count == 0 {
        Seq::empty()
    } else {
        countries_entries(countries, (count - 1) as nat) + country_entries(countries[count - 1])
    }
}

/// The entry of a capital: its outline under its name, without the
/// priority flag.
pub open spec fn capital_entry(capital: Capital) -> IdentifiedPolygonView {
    IdentifiedPolygonView {
        id: capital.name@,
        priority: false,
        polygon: capital.outline@,
        polygon_type: IdentifiedPolygonType::Capital,
    }
}

/// The entries of an index over countries and capitals: every polygon of
/// every country, then every capital.
pub open spec fn index_entries(countries: Seq<Country>, capitals: Seq<Capital>) -> Seq<
    IdentifiedPolygonView,
> {
    countries_entries(countries, countries.len()) + capitals.map_values(
        |c: Capital| capital_entry(c),
    )
}

/// Builds the index over every polygon of every country and the outline of
/// every capital.
pub fn build_polygon_tree(countries: &DataMap<Country>, capitals: &Vec<Capital>) -> (index:
    PolygonTree)
    ensures
        index@ == index_entries(countries@, capitals@),
{
    let mut polygons: Vec<IdentifiedPolygon> = Vec::new();
    let records = countries.iter();
    let n = records.len();
    let mut i: usize = 0;
    while i < n
        invariant
            i <= n,
            n == records@.len(),
            entry_views(polygons@) == countries_entries(records@, i as nat),
        decreases n - i,
    {
        let country = &records[i];
        let ghost base = polygons@;
        let m = country.polygons.len();
        let mut k: usize = 0;
        while k < m
            invariant
                k <= m,
                m == country.polygons@.len(),
                entry_views(polygons@) == entry_views(base) + country_entries(*country).take(
                    k as int,
                ),
            decreases m - k,
        {
            let ghost before = polygons@;
            let entry = IdentifiedPolygon::new(
                country.code.clone(),
                country.polygons[k].clone(),
                country.is_enclave,
                IdentifiedPolygonType::Country,
            );
            polygons.push(entry);
            proof {
                assert(entry@ == country_entry(*country, k as int));
                assert(entry_views(polygons@) =~= entry_views(before).push(entry@));
                assert(country_entries(*country).take(k + 1) =~= country_entries(*country).take(
                    k as int,
                ).push(entry@));
            }
            k += 1;
        }
        proof {
            assert(country_entries(*country).take(m as int) =~= country_entries(*country));
        }
        i += 1;
    }
    let ghost from_countries = polygons@;
    let c = capitals.len();
    let mut j: usize = 0;
    while j < c
        invariant
            j <= c,
            c == capitals@.len(),
            entry_views(polygons@) == entry_views(from_countries) + capitals@.take(
                j as int,
            ).map_values(|c: Capital| capital_entry(c)),
        decreases c - j,
    {
        let ghost before = polygons@;
        let capital = &capitals[j];
        let entry = IdentifiedPolygon::new(
            capital.name.clone(),
            capital.outline.clone(),
            false,
            IdentifiedPolygonType::Capital,
        );
        polygons.push(entry);
        proof {
            assert(entry@ == capital_entry(*capital));
            assert(entry_views(polygons@) =~= entry_views(before).push(entry@));
            assert(capitals@.take(j + 1).map_values(|c: Capital| capital_entry(c))
                =~= capitals@.take(j as int).map_values(|c: Capital| capital_entry(c)).push(
                entry@,
            ));
        }
        j += 1;
    }
    proof {
        assert(capitals@.take(c as int) =~= capitals@);
    }
    PolygonTree::bulk_load(polygons)
}

} // verus!
