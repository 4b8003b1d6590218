//! The status store: the authoritative, mutable state of every status seen
//! so far, keyed by id.
//!
//! The store is a sequence of records with pairwise-distinct ids; its
//! mathematical value is the finite map from each id to its record.
//! `upsert` inserts or replaces with last-write-wins semantics, `get` looks
//! a record up, and `update` runs the interaction reducer on one record in
//! place.  Looking up or updating an id that was never upserted is a caller
//! error and is reported as [`StoreError::NotFound`], never absorbed
//! silently.

use vstd::prelude::*;

use crate::status::{
    views_of, iterate_favorite, lemma_favorite_toggle_cycle, spec_reduce, reduce, Interaction,
    SpecStatus, StatusData,
};

verus! {

/// Failure of a store lookup or update: the id was never upserted.
#[derive(Clone, Copy, Debug, PartialEq, Eq, Structural)]
pub enum StoreError {
    NotFound,
}

/// The finite map described by a sequence of records: each id is mapped to
/// the last record in the sequence that carries it.
pub open spec fn map_of(entries: Seq<SpecStatus>) -> Map<Seq<char>, SpecStatus>
    decreases entries.len(),
{
    if entries.len() == 0 {
        Map::empty()
    } else {
        map_of(entries.drop_last()).insert(entries.last().id, entries.last())
    }
}

/// No two records in the sequence share an id.
pub open spec fn unique_ids(entries: Seq<SpecStatus>) -> bool {
    forall|i: int, j: int| 0 <= i < j < entries.len() ==> entries[i].id != entries[j].id
}

/// A key is in the map of a sequence exactly when some record carries it.
proof fn lemma_map_of_contains(entries: Seq<SpecStatus>, key: Seq<char>)
    ensures
        map_of(entries).contains_key(key) <==> exists|i: int|
            0 <= i < entries.len() && entries[i].id == key,
    decreases entries.len(),
{
    if entries.len() > 0 {
        lemma_map_of_contains(entries.drop_last(), key);
        if entries.last().id == key {
            assert(entries[entries.len() - 1].id == key);
        } else {
            if map_of(entries).contains_key(key) {
                let i = choose|i: int|
                    0 <= i < entries.drop_last().len() && entries.drop_last()[i].id == key;
                assert(entries[i].id == key);
            }
            if exists|i: int| 0 <= i < entries.len() && entries[i].id == key {
                let i = choose|i: int| 0 <= i < entries.len() && entries[i].id == key;
                assert(entries.drop_last()[i].id == key);
            }
        }
    }
}

/// With pairwise-distinct ids, the map of a sequence sends each record's id
/// to that record.
proof fn lemma_map_of_index(entries: Seq<SpecStatus>, i: int)
    requires
        unique_ids(entries),
        0 <= i < entries.len(),
    ensures
        map_of(entries).contains_key(entries[i].id),
        map_of(entries)[entries[i].id] == entries[i],
    decreases entries.len(),
{
    if i < entries.len() - 1 {
        assert(unique_ids(entries.drop_last()));
        lemma_map_of_index(entries.drop_last(), i);
        assert(entries.drop_last()[i] == entries[i]);
        assert(entries[i].id != entries.last().id);
    }
}

/// Replacing the record at `i` by one with the same id turns the map of the
/// sequence into the map with that id re-bound.
proof fn lemma_map_of_update(entries: Seq<SpecStatus>, i: int, v: SpecStatus)
    requires
        unique_ids(entries),
        0 <= i < entries.len(),
        v.id == entries[i].id,
    ensures
        map_of(entries.update(i, v)) == map_of(entries).insert(v.id, v),
    decreases entries.len(),
{
    let u = entries.update(i, v);
    if i == entries.len() - 1 {
        assert(u.drop_last() =~= entries.drop_last());
        assert(u.last() == v);
        assert(map_of(entries.drop_last()).insert(v.id, v) =~= map_of(entries).insert(v.id, v));
    } else {
        assert(unique_ids(entries.drop_last()));
        assert(u.drop_last() =~= entries.drop_last().update(i, v));
        assert(entries.drop_last()[i] == entries[i]);
        lemma_map_of_update(entries.drop_last(), i, v);
        assert(u.last() == entries.last());
        assert(v.id != entries.last().id);
        assert(map_of(entries.drop_last()).insert(v.id, v).insert(entries.last().id, entries.last())
            =~= map_of(entries).insert(v.id, v));
    }
}

/// With pairwise-distinct ids, the map of a sequence has exactly one key
/// per record.
proof fn lemma_map_of_dom_len(entries: Seq<SpecStatus>)
    requires
        unique_ids(entries),
    ensures
        map_of(entries).dom().finite(),
        map_of(entries).dom().len() == entries.len(),
    decreases entries.len(),
{
    broadcast use vstd::set::axiom_set_insert_len;

    if entries.len() == 0 {
        assert(map_of(entries).dom() =~= Set::<Seq<char>>::empty());
    } else {
        assert(unique_ids(entries.drop_last()));
        lemma_map_of_dom_len(entries.drop_last());
        lemma_map_of_contains(entries.drop_last(), entries.last().id);
        assert(forall|i: int|
            0 <= i < entries.drop_last().len() ==> (#[trigger] entries.drop_last()[i]).id
                != entries.last().id);
        assert(!map_of(entries.drop_last()).contains_key(entries.last().id));
        assert(map_of(entries).dom() =~= map_of(entries.drop_last()).dom().insert(
            entries.last().id,
        ));
    }
}

/// A well-formed store holds exactly one map key per record, so its record
/// count and its key count agree.
pub proof fn lemma_store_dom_len(s: &StatusStore)
    requires
        s.wf(),
    ensures
        s@.dom().finite(),
        s@.dom().len() == s.spec_entries().len(),
{
    lemma_map_of_dom_len(s.spec_entries());
}

/// Law: running the interaction reducer twice with the same toggle on the
/// same id leaves the store map unchanged, provided the record's count
/// agrees with its flag and has room for one more step.  This is the
/// round-trip law of the reducer carried through the store's `update`
/// contract: two successive `update` calls with `Favorite` (and likewise
/// `Reply` or `Reblog`) on one id rebind that id to its reduced-twice
/// record, which equals the original.
pub proof fn lemma_update_twice_round_trip(
    m: Map<Seq<char>, SpecStatus>,
    id: Seq<char>,
    interaction: Interaction,
)
    requires
        m.contains_key(id),
        m[id].favorites_count <= u32::MAX as nat,
        m[id].is_favorited ==> m[id].favorites_count >= 1,
        !m[id].is_favorited ==> m[id].favorites_count < u32::MAX as nat,
        m[id].replies_count <= u32::MAX as nat,
        m[id].is_replied ==> m[id].replies_count >= 1,
        !m[id].is_replied ==> m[id].replies_count < u32::MAX as nat,
        m[id].reblogs_count <= u32::MAX as nat,
        m[id].is_reblogged ==> m[id].reblogs_count >= 1,
        !m[id].is_reblogged ==> m[id].reblogs_count < u32::MAX as nat,
    ensures
        m.insert(id, spec_reduce(m[id], interaction)).insert(
            id,
            spec_reduce(m.insert(id, spec_reduce(m[id], interaction))[id], interaction),
        ) == m,
{
    let once = spec_reduce(m[id], interaction);
    let twice = spec_reduce(once, interaction);
    assert(twice =~= m[id]);
    assert(m.insert(id, once).insert(id, twice) =~= m);
}

/// The store map after `n` favorite toggles on `id`, each performed as the
/// store's `update` contract describes.
pub open spec fn iterate_favorite_updates(
    m: Map<Seq<char>, SpecStatus>,
    id: Seq<char>,
    n: nat,
) -> Map<Seq<char>, SpecStatus>
    decreases n,
{
    if n == 0 {
        m
    } else {
        let p = iterate_favorite_updates(m, id, (n - 1) as nat);
        p.insert(id, spec_reduce(p[id], Interaction::Favorite))
    }
}

/// Law: any sequence of favorite toggles on one id rebinds that id to the
/// n-fold toggle of its record and touches no other entry; with the count
/// consistent with the flag and below the counter's ceiling, an even
/// number of toggles restores the store map exactly, and an odd number
/// leaves the record a single toggle away.
pub proof fn lemma_favorite_updates_cycle(m: Map<Seq<char>, SpecStatus>, id: Seq<char>, n: nat)
    requires
        m.contains_key(id),
        m[id].favorites_count <= u32::MAX as nat,
        m[id].is_favorited ==> m[id].favorites_count >= 1,
        !m[id].is_favorited ==> m[id].favorites_count < u32::MAX as nat,
    ensures
        iterate_favorite_updates(m, id, n) == m.insert(id, iterate_favorite(m[id], n)),
        n % 2 == 0 ==> iterate_favorite_updates(m, id, n) == m,
        n % 2 == 1 ==> iterate_favorite_updates(m, id, n) == m.insert(
            id,
            spec_reduce(m[id], Interaction::Favorite),
        ),
    decreases n,
{
    lemma_favorite_toggle_cycle(m[id], n);
    if n == 0 {
        assert(m.insert(id, m[id]) =~= m);
    } else {
        lemma_favorite_updates_cycle(m, id, (n - 1) as nat);
        let p = iterate_favorite_updates(m, id, (n - 1) as nat);
        assert(p[id] == iterate_favorite(m[id], (n - 1) as nat));
        assert(p.insert(id, spec_reduce(p[id], Interaction::Favorite)) =~= m.insert(
            id,
            iterate_favorite(m[id], n),
        ));
        if n % 2 == 0 {
            assert(m.insert(id, m[id]) =~= m);
        }
    }
}

/// The store of status records, keyed by id; its mathematical value is the
/// map from each id to its record.
pub struct StatusStore {
    entries: Vec<StatusData>,
}

impl View for StatusStore {
    type V = Map<Seq<char>, SpecStatus>;

    open spec fn view(&self) -> Map<Seq<char>, SpecStatus> {
        map_of(self.spec_entries())
    }
}

impl StatusStore {
    /// The records held by the store, as mathematical values, oldest first.
    pub closed spec fn spec_entries(&self) -> Seq<SpecStatus> {
        views_of(self.entries@)
    }

    /// Well-formed: no two records share an id.  Every constructor
    /// establishes this and every method preserves it.
    pub open spec fn wf(&self) -> bool {
        unique_ids(self.spec_entries())
    }

    /// An empty store.
    pub fn new() -> (s: Self)
        ensures
            s.wf(),
            s@ == Map::<Seq<char>, SpecStatus>::empty(),
            s.spec_entries() == Seq::<SpecStatus>::empty(),
    {
        let s = StatusStore { entries: Vec::new() };
        proof {
            assert(s.spec_entries() =~= Seq::<SpecStatus>::empty());
        }
        s
    }

    /// How many distinct statuses the store holds.
    pub fn len(&self) -> (n: usize)
        ensures
            n == self.spec_entries().len(),
    {
        self.entries.len()
    }

    /// The position of the record carrying `id`, if any.
    fn find_index(&self, id: &String) -> (r: Option<usize>)
        ensures
            match r {
                Some(i) => i < self.spec_entries().len() && self.spec_entries()[i as int].id
                    == id@,
                None => forall|i: int|
                    0 <= i < self.spec_entries().len() ==> self.spec_entries()[i].id != id@,
            },
    {
        let mut i: usize = 0;
        while i < self.entries.len()
            invariant
                i <= self.entries.len(),
                forall|j: int| 0 <= j < i ==> self.spec_entries()[j].id != id@,
            decreases self.entries.len() - i,
        {
            if self.entries[i].id == *id {
                return Some(i);
            }
            i = i + 1;
        }
        None
    }

    /// Whether a record with this id has been upserted.
    pub fn contains(&self, id: &String) -> (r: bool)
        ensures
            r == self@.contains_key(id@),
    {
        proof {
            lemma_map_of_contains(self.spec_entries(), id@);
        }
        self.find_index(id).is_some()
    }

    /// Look the record for `id` up; absence is a caller error, reported as
    /// [`StoreError::NotFound`].
    pub fn get(&self, id: &String) -> (r: Result<&StatusData, StoreError>)
        requires
            self.wf(),
        ensures
            match r {
                Ok(s) => self@.contains_key(id@) && s@ == self@[id@],
                Err(e) => e == StoreError::NotFound && !self@.contains_key(id@),
            },
    {
        match self.find_index(id) {
            Some(i) => {
                proof {
                    lemma_map_of_index(self.spec_entries(), i as int);
                }
                Ok(&self.entries[i])
            },
            None => {
                proof {
                    lemma_map_of_contains(self.spec_entries(), id@);
                }
                Err(StoreError::NotFound)
            },
        }
    }

    /// Insert the record, or replace the one already carrying its id;
    /// last write wins and no error is possible.
    pub fn upsert(&mut self, status: StatusData)
        requires
            old(self).wf(),
        ensures
            final(self).wf(),
            final(self)@ == old(self)@.insert(status.id@, status@),
    {
        let ghost prior = self.spec_entries();
        let ghost v = status@;
        match self.find_index(&status.id) {
            Some(i) => {
                proof {
                    lemma_map_of_update(prior, i as int, v);
                    assert forall|p: int, q: int|
                        0 <= p < q < prior.update(i as int, v).len() implies prior.update(
                        i as int,
                        v,
                    )[p].id != prior.update(i as int, v)[q].id by {
                        assert(prior.update(i as int, v)[p].id == prior[p].id);
                        assert(prior.update(i as int, v)[q].id == prior[q].id);
                    }
                }
                let slot = &mut self.entries[i];
                *slot = status;
                proof {
                    assert(self.spec_entries() =~= prior.update(i as int, v));
                }
            },
            None => {
                self.entries.push(status);
                proof {
                    assert(self.spec_entries() =~= prior.push(v));
                    assert(prior.push(v).drop_last() =~= prior);
                    assert forall|p: int, q: int|
                        0 <= p < q < prior.push(v).len() implies prior.push(v)[p].id != prior.push(
                        v,
                    )[q].id by {
                        if q < prior.len() {
                            assert(prior.push(v)[p].id == prior[p].id);
                            assert(prior.push(v)[q].id == prior[q].id);
                        } else {
                            assert(prior.push(v)[p].id == prior[p].id);
                            assert(prior.push(v)[q] == v);
                        }
                    }
                }
            },
        }
    }

    /// Run the interaction reducer on the record for `id`; an id never
    /// upserted is a caller error, reported as [`StoreError::NotFound`] with
    /// the store left unchanged.
    pub fn update(&mut self, id: &String, interaction: Interaction) -> (r: Result<(), StoreError>)
        requires
            old(self).wf(),
        ensures
            final(self).wf(),
            old(self)@.contains_key(id@) ==> r == Ok::<(), StoreError>(()) && final(self)@
                == old(self)@.insert(id@, spec_reduce(old(self)@[id@], interaction)),
            !old(self)@.contains_key(id@) ==> r == Err::<(), StoreError>(StoreError::NotFound)
                && final(self)@ == old(self)@,
    {
        let ghost prior = self.spec_entries();
        match self.find_index(id) {
            Some(i) => {
                proof {
                    lemma_map_of_index(prior, i as int);
                }
                let ghost v = spec_reduce(prior[i as int], interaction);
                proof {
                    lemma_map_of_update(prior, i as int, v);
                    assert forall|p: int, q: int|
                        0 <= p < q < prior.update(i as int, v).len() implies prior.update(
                        i as int,
                        v,
                    )[p].id != prior.update(i as int, v)[q].id by {
                        assert(prior.update(i as int, v)[p].id == prior[p].id);
                        assert(prior.update(i as int, v)[q].id == prior[q].id);
                    }
                }
                let slot = &mut self.entries[i];
                reduce(slot, interaction);
                proof {
                    assert(self.spec_entries() =~= prior.update(i as int, v));
                }
                Ok(())
            },
            None => {
                proof {
                    lemma_map_of_contains(prior, id@);
                }
                Err(StoreError::NotFound)
            },
        }
    }
}

} // verus!
