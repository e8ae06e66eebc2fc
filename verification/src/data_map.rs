//! A store of records by their identifier.

use vstd::prelude::*;

verus! {

/// A record that carries the identifier it is stored under.
pub trait HasId: Sized {
    /// The identifier, as proofs see it.
    spec fn spec_id(&self) -> Seq<char>;

    fn id(&self) -> (id: String)
        ensures
            id@ == self.spec_id(),
    ;

    fn with_id(self, id: String) -> (out: Self)
        ensures
            out.spec_id() == id@,
    ;
}

/// Whether some record of `entities` is stored under `id`.
pub open spec fn holds_id<T: HasId>(entities: Seq<T>, id: Seq<char>) -> bool {
    exists|i: int| 0 <= i < entities.len() && (#[trigger] entities[i]).spec_id() == id
}

/// The place of the record stored under `id`, where there is one.
pub open spec fn index_of<T: HasId>(entities: Seq<T>, id: Seq<char>) -> int {
    choose|i: int| 0 <= i < entities.len() && (#[trigger] entities[i]).spec_id() == id
}

/// No two records of `entities` share an identifier.
pub open spec fn distinct_ids<T: HasId>(entities: Seq<T>) -> bool {
    forall|i: int, j: int|
        0 <= i < j < entities.len() ==> (#[trigger] entities[i]).spec_id()
            != (#[trigger] entities[j]).spec_id()
}

/// A keyed store: at most one record per identifier, kept in the order in
/// which the identifiers were first added.
pub struct DataMap<T: HasId> {
    entities: Vec<T>,
}

impl<T: HasId> View for DataMap<T> {
    type V = Seq<T>;

    closed spec fn view(&self) -> Seq<T> {
        self.entities@
    }
}

impl<T: HasId> DataMap<T> {
    /// Holds of every store that exists.
    #[verifier::type_invariant]
    pub open spec fn wf(&self) -> bool {
        distinct_ids(self@)
    }

    /// A store without records.
    pub fn new() -> (map: Self)
        ensures
            map@.len() == 0,
    {
        DataMap { entities: Vec::new() }
    }

    /// Number of records.
    pub fn len(&self) -> (n: usize)
        ensures
            n == self@.len(),
    {
        self.entities.len()
    }

    /// Position of the record stored under `id`, if there is one.
    fn position(&self, id: &String) -> (at: Option<usize>)
        ensures
            match at {
                Some(i) => i < self@.len() && self@[i as int].spec_id() == id@,
                None => !holds_id(self@, id@),
            },
    {
        let n = self.entities.len();
        let mut i: usize = 0;
        while i < n
            invariant
                i <= n,
                n == self.entities.len(),
                forall|k: int| 0 <= k < i ==> (#[trigger] self.entities@[k]).spec_id() != id@,
            decreases n - i,
        {
            let key = self.entities[i].id();
            if key == *id {
                return Some(i);
            }
            i += 1;
        }
        None
    }

    /// The identifiers, in the order of the records.
    pub fn keys(&self) -> (keys: Vec<String>)
        ensures
            keys@.len() == self@.len(),
            forall|i: int| 0 <= i < keys@.len() ==> (#[trigger] keys@[i])@ == self@[i].spec_id(),
    {
        let mut keys: Vec<String> = Vec::new();
        let n = self.entities.len();
        let mut i: usize = 0;
        while i < n
            invariant
                i <= n,
                n == self.entities.len(),
                keys@.len() == i,
                forall|k: int|
                    0 <= k < i ==> (#[trigger] keys@[k])@ == self.entities@[k].spec_id(),
            decreases n - i,
        {
            keys.push(self.entities[i].id());
            i += 1;
        }
        keys
    }

    /// Stores `entity` under its identifier. A record already stored under
    /// that identifier is replaced where it stands; otherwise the new record
    /// goes to the end.
    pub fn add(&mut self, entity: T)
        ensures
            distinct_ids(final(self)@),
            holds_id(final(self)@, entity.spec_id()),
            !holds_id(old(self)@, entity.spec_id()) ==> final(self)@ == old(self)@.push(entity),
            forall|i: int|
                0 <= i < old(self)@.len() && (#[trigger] old(self)@[i]).spec_id()
                    == entity.spec_id() ==> final(self)@ == old(self)@.update(i, entity),
    {
        proof {
            use_type_invariant(&*self);
        }
        let id = entity.id();
        let at = self.position(&id);
        let ghost before = self.entities@;
        // The records are taken out, changed and put back, so that the store
        // holds distinct identifiers at every step.
        let mut entities: Vec<T> = Vec::new();
        core::mem::swap(&mut self.entities, &mut entities);
        match at {
            Some(i) => {
                entities.set(i, entity);
                proof {
                    assert(entities@[i as int] == entity);
                    assert forall|k: int|
                        0 <= k < before.len() && (#[trigger] before[k]).spec_id()
                            == entity.spec_id() implies entities@ == before.update(k, entity) by {
                        if k < i {
                            assert(before[k].spec_id() != before[i as int].spec_id());
                        } else if k > i {
                            assert(before[i as int].spec_id() != before[k].spec_id());
                        }
                    }
                    assert forall|a: int, b: int| 0 <= a < b < entities@.len() implies (
                    #[trigger] entities@[a]).spec_id() != (#[trigger] entities@[b]).spec_id() by {
                        assert(before[a].spec_id() != before[b].spec_id());
                        if a != i {
                            assert(entities@[a] == before[a]);
                        }
                        if b != i {
                            assert(entities@[b] == before[b]);
                        }
                    }
                }
            },
            None => {
                entities.push(entity);
                proof {
                    let end = before.len() as int;
                    assert(entities@[end] == entity);
                    assert forall|a: int, b: int| 0 <= a < b < entities@.len() implies (
                    #[trigger] entities@[a]).spec_id() != (#[trigger] entities@[b]).spec_id() by {
                        assert(entities@[a] == before[a]);
                        if b < end {
                            assert(entities@[b] == before[b]);
                        }
                    }
                }
            },
        }
        self.entities = entities;
    }

    /// The record stored under `id`, if there is one.
    pub fn get(&self, id: &str) -> (found: Option<&T>)
        ensures
            found is Some <==> holds_id(self@, id@),
            found is Some ==> found.unwrap().spec_id() == id@ && *found.unwrap()
                == self@[index_of(self@, id@)],
    {
        let key = id.to_owned();
        match self.position(&key) {
            Some(i) => {
                proof {
                    use_type_invariant(self);
                    lemma_lookup_unique(self@, i as int, index_of(self@, id@));
                }
                Some(&self.entities[i])
            },
            None => None,
        }
    }

    /// Every record, in order.
    pub fn iter(&self) -> (entities: &Vec<T>)
        ensures
            entities@ == self@,
            distinct_ids(entities@),
    {
        proof {
            use_type_invariant(self);
        }
        &self.entities
    }
}

/// What was stored is what is found: after a record has been added, its
/// identifier picks that record.
pub proof fn lemma_added_is_found<T: HasId>(before: Seq<T>, entity: T, after: Seq<T>)
    requires
        distinct_ids(after),
        !holds_id(before, entity.spec_id()) ==> after == before.push(entity),
        forall|i: int|
            0 <= i < before.len() && (#[trigger] before[i]).spec_id() == entity.spec_id()
                ==> after == before.update(i, entity),
    ensures
        holds_id(after, entity.spec_id()),
        after[index_of(after, entity.spec_id())] == entity,
{
    if holds_id(before, entity.spec_id()) {
        let i = choose|i: int|
            0 <= i < before.len() && (#[trigger] before[i]).spec_id() == entity.spec_id();
        assert(after[i] == entity);
        lemma_lookup_unique(after, i, index_of(after, entity.spec_id()));
    } else {
        let at = before.len() as int;
        assert(after[at] == entity);
        lemma_lookup_unique(after, at, index_of(after, entity.spec_id()));
    }
}

/// Under distinct identifiers an identifier picks at most one record.
pub proof fn lemma_lookup_unique<T: HasId>(entities: Seq<T>, i: int, j: int)
    requires
        distinct_ids(entities),
        0 <= i < entities.len(),
        0 <= j < entities.len(),
        entities[i].spec_id() == entities[j].spec_id(),
    ensures
        i == j,
{
    if i < j {
        assert(entities[i].spec_id() != entities[j].spec_id());
    } else if j < i {
        assert(entities[j].spec_id() != entities[i].spec_id());
    }
}

} // verus!
