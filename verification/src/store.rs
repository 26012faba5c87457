//! The model of the durable state behind the category resource: a category
//! table keyed by an internal identifier with a unique name per row, and the
//! torrent rows that reference categories by that identifier.
//!
//! The storage backend owns this state in a real deployment; the model here
//! carries the only invariants the service relies on (name uniqueness,
//! identifier freshness) and exposes the three primitives the service
//! consumes: an aggregation count, an insert that detects uniqueness
//! conflicts, and a delete by key.

use vstd::prelude::*;
use crate::error::StorageFailure;

verus! {

/// Mathematical image of one category row.
#[verifier::ext_equal]
pub struct RowView {
    pub id: int,
    pub name: Seq<char>,
}

/// Mathematical image of the whole store: the category rows in table order,
/// the category reference carried by each torrent row, and the next free
/// category identifier.
#[verifier::ext_equal]
pub struct StoreView {
    pub rows: Seq<RowView>,
    pub torrents: Seq<int>,
    pub next_id: int,
}

/// How many torrent rows reference the category identifier `id`.
pub open spec fn count_id(torrents: Seq<int>, id: int) -> nat
    decreases torrents.len(),
{
    if torrents.len() == 0 {
        0
    } else {
        count_id(torrents.drop_last(), id) + if torrents.last() == id {
            1nat
        } else {
            0nat
        }
    }
}

impl StoreView {
    /// The invariants the service relies on: names are unique, identifiers
    /// are unique and were all handed out before `next_id`, and every
    /// torrent's category reference is an identifier that was handed out.
    pub open spec fn wf(self) -> bool {
        &&& 0 <= self.next_id <= u64::MAX as int
        &&& forall|i: int, j: int|
            0 <= i < j < self.rows.len() ==> self.rows[i].name != self.rows[j].name
        &&& forall|i: int, j: int| 0 <= i < j < self.rows.len() ==> self.rows[i].id != self.rows[j].id
        &&& forall|i: int| 0 <= i < self.rows.len() ==> 0 <= #[trigger] self.rows[i].id < self.next_id
        &&& forall|k: int|
            0 <= k < self.torrents.len() ==> 0 <= #[trigger] self.torrents[k] < self.next_id
    }

    /// Whether some row carries the name.
    pub open spec fn contains_name(self, name: Seq<char>) -> bool {
        exists|i: int| 0 <= i < self.rows.len() && #[trigger] self.rows[i].name == name
    }

    /// Whether some row carries the identifier.
    pub open spec fn has_id(self, id: int) -> bool {
        exists|i: int| 0 <= i < self.rows.len() && #[trigger] self.rows[i].id == id
    }
}

/// The store after a successful create: one fresh row appended under the
/// next free identifier, torrents untouched.
pub open spec fn create_transition(v: StoreView, name: Seq<char>) -> StoreView {
    StoreView {
        rows: v.rows.push(RowView { id: v.next_id, name: name }),
        torrents: v.torrents,
        next_id: v.next_id + 1,
    }
}

/// An identifier that no torrent row references has count zero.
pub proof fn lemma_count_id_absent(torrents: Seq<int>, id: int)
    requires
        forall|k: int| 0 <= k < torrents.len() ==> #[trigger] torrents[k] != id,
    ensures
        count_id(torrents, id) == 0,
    decreases torrents.len(),
{
    if torrents.len() > 0 {
        assert(forall|k: int|
            0 <= k < torrents.drop_last().len() ==> #[trigger] torrents.drop_last()[k] != id);
        lemma_count_id_absent(torrents.drop_last(), id);
    }
}

/// A successful create keeps the store well formed: the fresh row's name was
/// absent and its identifier is new.
pub proof fn lemma_create_preserves_wf(v: StoreView, name: Seq<char>)
    requires
        v.wf(),
        !v.contains_name(name),
        v.next_id < u64::MAX as int,
    ensures
        create_transition(v, name).wf(),
{
    let v2 = create_transition(v, name);
    assert forall|i: int, j: int| 0 <= i < j < v2.rows.len() implies v2.rows[i].name
        != v2.rows[j].name by {
        if j == v.rows.len() {
            assert(v2.rows[i] == v.rows[i]);
            assert(v2.rows[j].name == name);
        } else {
            assert(v2.rows[i] == v.rows[i]);
            assert(v2.rows[j] == v.rows[j]);
        }
    }
    assert forall|i: int, j: int| 0 <= i < j < v2.rows.len() implies v2.rows[i].id
        != v2.rows[j].id by {
        if j == v.rows.len() {
            assert(v2.rows[i] == v.rows[i]);
        } else {
            assert(v2.rows[i] == v.rows[i]);
            assert(v2.rows[j] == v.rows[j]);
        }
    }
    assert forall|i: int| 0 <= i < v2.rows.len() implies 0 <= #[trigger] v2.rows[i].id
        < v2.next_id by {
        if i < v.rows.len() {
            assert(v2.rows[i] == v.rows[i]);
        }
    }
}

/// Removing a row keeps the store well formed.
pub proof fn lemma_remove_preserves_wf(v: StoreView, i: int)
    requires
        v.wf(),
        0 <= i < v.rows.len(),
    ensures
        (StoreView { rows: v.rows.remove(i), torrents: v.torrents, next_id: v.next_id }).wf(),
{
    let rows2 = v.rows.remove(i);
    v.rows.remove_ensures(i);
    assert forall|p: int, q: int| 0 <= p < q < rows2.len() implies rows2[p].name != rows2[q].name
        && rows2[p].id != rows2[q].id by {
        let p1: int = if p < i { p } else { p + 1 };
        let q1: int = if q < i { q } else { q + 1 };
        assert(rows2[p] == v.rows[p1]);
        assert(rows2[q] == v.rows[q1]);
    }
    assert forall|p: int| 0 <= p < rows2.len() implies 0 <= #[trigger] rows2[p].id < v.next_id by {
        let p1: int = if p < i { p } else { p + 1 };
        assert(rows2[p] == v.rows[p1]);
    }
}

/// One category row as stored.
#[derive(Debug, Clone)]
pub struct CategoryRow {
    pub id: u64,
    pub name: String,
}

impl View for CategoryRow {
    type V = RowView;

    open spec fn view(&self) -> RowView {
        RowView { id: self.id as int, name: self.name@ }
    }
}

/// The in-memory store: the category table, the category reference of each
/// torrent row, and the next free category identifier.
#[derive(Debug)]
pub struct CategoryStore {
    pub categories: Vec<CategoryRow>,
    pub torrents: Vec<u64>,
    pub next_id: u64,
}

impl View for CategoryStore {
    type V = StoreView;

    open spec fn view(&self) -> StoreView {
        StoreView {
            rows: self.categories@.map_values(|r: CategoryRow| r@),
            torrents: self.torrents@.map_values(|t: u64| t as int),
            next_id: self.next_id as int,
        }
    }
}

impl CategoryStore {
    /// An empty store: no categories, no torrents, identifiers start at zero.
    pub fn new() -> (s: CategoryStore)
        ensures
            s@.wf(),
            s@.rows.len() == 0,
            s@.torrents.len() == 0,
            s@.next_id == 0,
    {
        CategoryStore { categories: Vec::new(), torrents: Vec::new(), next_id: 0 }
    }

    /// The index of the row carrying `name`, if any.
    fn index_of_name(&self, name: &String) -> (r: Option<usize>)
        ensures
            match r {
                Some(i) => i < self@.rows.len() && self@.rows[i as int].name == name@,
                None => !self@.contains_name(name@),
            },
    {
        let mut i: usize = 0;
        while i < self.categories.len()
            invariant
                i <= self.categories.len(),
                forall|j: int| 0 <= j < i ==> #[trigger] self@.rows[j].name != name@,
            decreases self.categories.len() - i,
        {
            if self.categories[i].name == *name {
                return Some(i);
            }
            i = i + 1;
        }
        None
    }

    /// How many torrent rows reference the category identifier.
    pub fn count_torrents(&self, category_id: u64) -> (n: u64)
        ensures
            n as nat == count_id(self@.torrents, category_id as int),
    {
        let ghost all: Seq<int> = self@.torrents;
        let ghost id: int = category_id as int;
        let mut n: u64 = 0;
        let mut k: usize = 0;
        while k < self.torrents.len()
            invariant
                k <= self.torrents.len(),
                all == self@.torrents,
                id == category_id as int,
                n as nat == count_id(all.take(k as int), id),
                n <= k,
            decreases self.torrents.len() - k,
        {
            proof {
                assert(all.take(k as int + 1).drop_last() =~= all.take(k as int));
                assert(all.take(k as int + 1).last() == all[k as int]);
            }
            if self.torrents[k] == category_id {
                n = n + 1;
            }
            k = k + 1;
        }
        proof {
            assert(all.take(self.torrents@.len() as int) =~= all);
        }
        n
    }

    /// The insert primitive: refuses a name that is already present with a
    /// typed uniqueness violation and writes nothing; otherwise appends one
    /// row under a fresh identifier.
    pub fn insert(&mut self, name: String) -> (r: Result<(), StorageFailure>)
        requires
            old(self)@.wf(),
            old(self)@.next_id < u64::MAX as int,
        ensures
            final(self)@.wf(),
            old(self)@.contains_name(name@) ==> r == Err::<(), StorageFailure>(
                StorageFailure::UniqueViolation,
            ) && final(self)@ == old(self)@,
            !old(self)@.contains_name(name@) ==> r == Ok::<(), StorageFailure>(())
                && final(self)@ == create_transition(old(self)@, name@),
    {
        if self.index_of_name(&name).is_some() {
            return Err(StorageFailure::UniqueViolation);
        }
        let id: u64 = self.next_id;
        let ghost pre: StoreView = self@;
        let ghost stored: Seq<char> = name@;
        self.categories.push(CategoryRow { id, name });
        self.next_id = id + 1;
        proof {
            assert(self@.rows =~= pre.rows.push(RowView { id: pre.next_id, name: stored }));
            assert(self@.torrents =~= pre.torrents);
            assert(self@ =~= create_transition(pre, stored));
            lemma_create_preserves_wf(pre, stored);
        }
        Ok(())
    }

    /// The delete-by-key primitive: removes the row carrying `name` if there
    /// is one, and reports nothing either way. Torrent rows keep their
    /// category references.
    pub fn delete_by_name(&mut self, name: &String)
        requires
            old(self)@.wf(),
        ensures
            final(self)@.wf(),
            final(self)@.torrents == old(self)@.torrents,
            final(self)@.next_id == old(self)@.next_id,
            !old(self)@.contains_name(name@) ==> final(self)@ == old(self)@,
            old(self)@.contains_name(name@) ==> exists|i: int|
                0 <= i < old(self)@.rows.len() && old(self)@.rows[i].name == name@
                    && final(self)@.rows == old(self)@.rows.remove(i),
            !final(self)@.contains_name(name@),
    {
        match self.index_of_name(name) {
            None => {
            },
            Some(i) => {
                let ghost pre: StoreView = self@;
                let ghost ii: int = i as int;
                self.categories.remove(i);
                proof {
                    assert(self@.rows =~= pre.rows.remove(ii));
                    assert(self@.torrents =~= pre.torrents);
                    lemma_remove_preserves_wf(pre, ii);
                    assert(self@ =~= (StoreView {
                        rows: pre.rows.remove(ii),
                        torrents: pre.torrents,
                        next_id: pre.next_id,
                    }));
                    pre.rows.remove_ensures(ii);
                    assert forall|j: int| 0 <= j < self@.rows.len() implies #[trigger] self@.rows[j].name
                        != name@ by {
                        if j < ii {
                            assert(self@.rows[j] == pre.rows[j]);
                            if pre.rows[j].name == name@ {
                                assert(pre.rows[j].name == pre.rows[ii].name);
                            }
                        } else {
                            assert(self@.rows[j] == pre.rows[j + 1]);
                            if pre.rows[j + 1].name == name@ {
                                assert(pre.rows[ii].name == pre.rows[j + 1].name);
                            }
                        }
                    }
                }
            },
        }
    }

    /// Records one torrent as referencing the category with the given
    /// identifier. The reference is accepted only when such a category
    /// exists, so the store's invariant is kept; the result says whether it
    /// was accepted.
    pub fn add_torrent(&mut self, category_id: u64) -> (added: bool)
        requires
            old(self)@.wf(),
        ensures
            final(self)@.wf(),
            added == old(self)@.has_id(category_id as int),
            final(self)@.rows == old(self)@.rows,
            final(self)@.next_id == old(self)@.next_id,
            added ==> final(self)@.torrents == old(self)@.torrents.push(category_id as int),
            !added ==> final(self)@.torrents == old(self)@.torrents,
    {
        let mut i: usize = 0;
        let mut found: bool = false;
        while i < self.categories.len()
            invariant
                i <= self.categories.len(),
                !found ==> forall|j: int| 0 <= j < i ==> #[trigger] self@.rows[j].id
                    != category_id as int,
                found ==> old(self)@.has_id(category_id as int),
            decreases self.categories.len() - i,
        {
            if self.categories[i].id == category_id {
                proof {
                    assert(self@.rows[i as int].id == category_id as int);
                }
                found = true;
            }
            i = i + 1;
        }
        if found {
            let ghost pre: StoreView = self@;
            self.torrents.push(category_id);
            proof {
                assert(self@.torrents =~= pre.torrents.push(category_id as int));
                assert(self@.rows =~= pre.rows);
            }
        }
        found
    }
}

} // verus!
