//! The timeline: a status store paired with the feed order, the merge step
//! of the timeline loader, and the feed projection.
//!
//! The feed order is the append-only sequence of ids in arrival order; it
//! defines display order, while the store serves lookup and in-place
//! mutation.  The two are kept in sync only inside the loader's merge step.
//! The fetch itself lives outside this crate: the surrounding application
//! performs the request and hands its outcome — a decoded page or a
//! failure — to [`Timeline::apply_load`], which merges in one atomic step.

use vstd::prelude::*;

use crate::status::{views_of, spec_reduce, Interaction, SpecStatus, StatusData};
use crate::store::{StatusStore, StoreError};

verus! {

/// Failure of a timeline load: the request failed or its response could not
/// be decoded.  The timeline is left exactly as it was.
#[derive(Clone, Copy, Debug, PartialEq, Eq, Structural)]
pub enum LoadError {
    LoadFailed,
}

/// Mathematical value of a [`Timeline`]: the store map and the feed order.
#[verifier::ext_equal]
pub struct SpecTimeline {
    pub store: Map<Seq<char>, SpecStatus>,
    pub order: Seq<Seq<char>>,
}

/// The ids of a fetched page, in arrival order.
pub open spec fn page_ids(page: Seq<SpecStatus>) -> Seq<Seq<char>> {
    page.map_values(|s: SpecStatus| s.id)
}

/// The store map after a page is merged: each record of the page upserted
/// in arrival order, so a later record overwrites an earlier one with the
/// same id, and the last occurrence wins.
pub open spec fn merged_store(
    m: Map<Seq<char>, SpecStatus>,
    page: Seq<SpecStatus>,
) -> Map<Seq<char>, SpecStatus>
    decreases page.len(),
{
    if page.len() == 0 {
        m
    } else {
        merged_store(m, page.drop_last()).insert(page.last().id, page.last())
    }
}

/// The feed projection of a timeline value: one record per feed-order id,
/// in feed order, each drawn from the store — defined exactly when every
/// id resolves.  The projection is a function of the store and the order
/// alone.
pub open spec fn spec_projection(t: SpecTimeline) -> Option<Seq<SpecStatus>> {
    if forall|i: int| 0 <= i < t.order.len() ==> t.store.contains_key(#[trigger] t.order[i]) {
        Some(Seq::new(t.order.len(), |i: int| t.store[t.order[i]]))
    } else {
        None
    }
}

/// A status store together with the feed order derived from completed
/// loads.
pub struct Timeline {
    store: StatusStore,
    order: Vec<String>,
}

impl View for Timeline {
    type V = SpecTimeline;

    closed spec fn view(&self) -> SpecTimeline {
        SpecTimeline { store: self.store@, order: self.order@.map_values(|s: String| s@) }
    }
}

impl Timeline {
    /// Well-formed as a store: no two records share an id.
    pub closed spec fn store_wf(&self) -> bool {
        self.store.wf()
    }

    /// Well-formed: the store is well-formed and every id in the feed order
    /// has a record in the store.  Every constructor establishes this and
    /// every method preserves it.
    pub open spec fn wf(&self) -> bool {
        &&& self.store_wf()
        &&& forall|i: int|
            0 <= i < self@.order.len() ==> self@.store.contains_key(#[trigger] self@.order[i])
    }

    /// An empty timeline: nothing fetched yet.
    pub fn new() -> (t: Self)
        ensures
            t.wf(),
            t@.store == Map::<Seq<char>, SpecStatus>::empty(),
            t@.order == Seq::<Seq<char>>::empty(),
    {
        let t = Timeline { store: StatusStore::new(), order: Vec::new() };
        proof {
            assert(t@.order =~= Seq::<Seq<char>>::empty());
        }
        t
    }

    /// How many entries the feed order holds (counting repeats of an id
    /// that arrived in more than one load).
    pub fn order_len(&self) -> (n: usize)
        ensures
            n == self@.order.len(),
    {
        self.order.len()
    }

    /// How many distinct statuses the store holds.
    pub fn store_len(&self) -> (n: usize)
        requires
            self.store_wf(),
        ensures
            n == self@.store.dom().len(),
    {
        proof {
            crate::store::lemma_store_dom_len(&self.store);
        }
        self.store.len()
    }

    /// The feed order: every id appended by completed loads, oldest first.
    pub fn order_ids(&self) -> (r: &Vec<String>)
        ensures
            r@.map_values(|s: String| s@) == self@.order,
    {
        &self.order
    }

    /// Look one status up by id; an id never merged is a caller error,
    /// reported as [`StoreError::NotFound`].
    pub fn get(&self, id: &String) -> (r: Result<&StatusData, StoreError>)
        requires
            self.store_wf(),
        ensures
            match r {
                Ok(s) => self@.store.contains_key(id@) && s@ == self@.store[id@],
                Err(e) => e == StoreError::NotFound && !self@.store.contains_key(id@),
            },
    {
        self.store.get(id)
    }

    /// Apply one interaction toggle to the status with this id.  The feed
    /// order never changes; on an id never merged the timeline is left
    /// unchanged and the error surfaces.
    pub fn apply(&mut self, id: &String, interaction: Interaction) -> (r: Result<
        (),
        StoreError,
    >)
        requires
            old(self).wf(),
        ensures
            final(self).wf(),
            final(self)@.order == old(self)@.order,
            old(self)@.store.contains_key(id@) ==> r == Ok::<(), StoreError>(())
                && final(self)@.store == old(self)@.store.insert(
                id@,
                spec_reduce(old(self)@.store[id@], interaction),
            ),
            !old(self)@.store.contains_key(id@) ==> r == Err::<(), StoreError>(
                StoreError::NotFound,
            ) && final(self)@ == old(self)@,
    {
        let r = self.store.update(id, interaction);
        proof {
            assert forall|i: int| 0 <= i < self@.order.len() implies self@.store.contains_key(
                #[trigger] self@.order[i],
            ) by {
                assert(old(self)@.store.contains_key(old(self)@.order[i]));
            }
        }
        r
    }

    /// Merge one fetched page: for each record, in arrival order, upsert it
    /// into the store and append its id to the feed order.  Ids are
    /// appended unconditionally, so an id arriving in a second load gains a
    /// second feed-order entry while its store record is replaced.
    pub fn merge_page(&mut self, page: Vec<StatusData>)
        requires
            old(self).wf(),
        ensures
            final(self).wf(),
            final(self)@.store == merged_store(old(self)@.store, views_of(page@)),
            final(self)@.order == old(self)@.order + page_ids(views_of(page@)),
    {
        let ghost pv = views_of(page@);
        let mut k: usize = 0;
        while k < page.len()
            invariant
                k <= page.len(),
                pv == views_of(page@),
                self.wf(),
                self@.store == merged_store(old(self)@.store, pv.take(k as int)),
                self@.order == old(self)@.order + page_ids(pv.take(k as int)),
            decreases page.len() - k,
        {
            let ghost before = self@;
            let status = page[k].clone();
            let id = status.id.clone();
            proof {
                assert(status@ == pv[k as int]);
            }
            self.store.upsert(status);
            self.order.push(id);
            proof {
                assert(self@.order =~= before.order.push(pv[k as int].id));
                assert(pv.take(k + 1).drop_last() =~= pv.take(k as int));
                assert(pv.take(k + 1).last() == pv[k as int]);
                assert(page_ids(pv.take(k + 1)) =~= page_ids(pv.take(k as int)).push(
                    pv[k as int].id,
                ));
                assert(self@.order =~= old(self)@.order + page_ids(pv.take(k + 1)));
            }
            k = k + 1;
        }
        proof {
            assert(pv.take(page@.len() as int) =~= pv);
        }
    }

    /// Hand the outcome of one fetch to the timeline.  A successful fetch
    /// is merged as a single atomic step: any observer holding the timeline
    /// sees either the full pre-load state or the full post-load state,
    /// never a partial merge.  A failed fetch leaves the store and the feed
    /// order exactly unchanged and reports [`LoadError::LoadFailed`].
    pub fn apply_load(&mut self, fetched: Result<Vec<StatusData>, LoadError>) -> (r: Result<
        (),
        LoadError,
    >)
        requires
            old(self).wf(),
        ensures
            final(self).wf(),
            fetched is Err ==> r == Err::<(), LoadError>(LoadError::LoadFailed) && final(self)@
                == old(self)@,
            fetched matches Ok(page) ==> r == Ok::<(), LoadError>(()) && final(self)@.store
                == merged_store(old(self)@.store, views_of(page@)) && final(self)@.order
                == old(self)@.order + page_ids(views_of(page@)),
    {
        match fetched {
            Ok(page) => {
                self.merge_page(page);
                Ok(())
            },
            Err(_) => Err(LoadError::LoadFailed),
        }
    }

    /// The feed projection: one status per id in the feed order, in order,
    /// each looked up fresh from the store so interaction updates are
    /// reflected without re-fetching.  Pure and deterministic in the
    /// timeline's value; performs no mutation.  A feed-order id absent from
    /// the store is an invariant violation reported as
    /// [`StoreError::NotFound`], never a silently skipped entry — and on a
    /// well-formed timeline it cannot occur.
    pub fn project(&self) -> (r: Result<Vec<StatusData>, StoreError>)
        requires
            self.store_wf(),
        ensures
            match r {
                Ok(v) => {
                    &&& v@.len() == self@.order.len()
                    &&& forall|i: int|
                        0 <= i < v@.len() ==> self@.store.contains_key(#[trigger] self@.order[i])
                            && v@[i]@ == self@.store[self@.order[i]]
                },
                Err(e) => {
                    &&& e == StoreError::NotFound
                    &&& exists|i: int|
                        0 <= i < self@.order.len() && !self@.store.contains_key(
                            #[trigger] self@.order[i],
                        )
                },
            },
            r is Ok <==> spec_projection(self@) is Some,
            r matches Ok(v) ==> Some(views_of(v@)) == spec_projection(self@),
            self.wf() ==> r is Ok,
    {
        let mut out: Vec<StatusData> = Vec::new();
        let mut k: usize = 0;
        while k < self.order.len()
            invariant
                self.store_wf(),
                k <= self.order.len(),
                out@.len() == k,
                forall|i: int|
                    0 <= i < k ==> self@.store.contains_key(#[trigger] self@.order[i]) && out@[i]@
                        == self@.store[self@.order[i]],
            decreases self.order.len() - k,
        {
            match self.store.get(&self.order[k]) {
                Ok(s) => {
                    let copied = s.clone();
                    out.push(copied);
                },
                Err(_) => {
                    proof {
                        assert(!self@.store.contains_key(self@.order[k as int]));
                    }
                    return Err(StoreError::NotFound);
                },
            }
            k = k + 1;
        }
        proof {
            assert(views_of(out@) =~= Seq::new(
                self@.order.len(),
                |i: int| self@.store[self@.order[i]],
            ));
        }
        Ok(out)
    }
}

/// Law: in a well-formed timeline — in particular after any completed load —
/// every id in the feed order resolves in the store, so a lookup through
/// the feed order can never report a missing record.
pub proof fn lemma_feed_order_resolvable(t: Timeline)
    requires
        t.wf(),
    ensures
        forall|i: int| 0 <= i < t@.order.len() ==> t@.store.contains_key(#[trigger] t@.order[i]),
{
}

} // verus!
