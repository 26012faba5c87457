//! The category resource: list, create and delete.
//!
//! Listing is public. Create and delete run the authorization guard first and
//! mutate nothing when it refuses; create surfaces a uniqueness conflict as
//! `CategoryExists`, and delete of an absent name succeeds without change.

use vstd::prelude::*;
use crate::auth::User;
use crate::auth::authorize;
use crate::error::ServiceError;
use crate::error::classify_create_failure;
use crate::store::CategoryStore;
use crate::store::RowView;
use crate::store::StoreView;
use crate::store::count_id;
use crate::store::create_transition;
use crate::store::lemma_count_id_absent;

verus! {

/// A request body naming one category.
#[derive(Debug, Clone)]
pub struct Category {
    pub name: String,
}

/// One entry of the listing: a category name with the number of torrent
/// rows referencing that category.
#[derive(Debug, Clone, PartialEq)]
pub struct CategoryResponse {
    pub name: String,
    pub num_torrents: u64,
}

/// Lists every category with its torrent count, in table order: one entry
/// per row, carrying the row's name and the number of torrents referencing
/// the row's identifier (zero when none do). On a well formed store the
/// names of the entries are pairwise distinct, so there is exactly one entry
/// per category name.
pub fn get_categories(store: &CategoryStore) -> (r: Vec<CategoryResponse>)
    ensures
        r@.len() == store@.rows.len(),
        forall|i: int|
            #![trigger r@[i]]
            0 <= i < r@.len() ==> r@[i].name@ == store@.rows[i].name && r@[i].num_torrents as nat
                == count_id(store@.torrents, store@.rows[i].id),
        store@.wf() ==> forall|i: int, j: int|
            #![trigger r@[i], r@[j]]
            0 <= i < j < r@.len() ==> r@[i].name@ != r@[j].name@,
{
    let mut out: Vec<CategoryResponse> = Vec::new();
    let mut i: usize = 0;
    while i < store.categories.len()
        invariant
            i <= store.categories.len(),
            out@.len() == i,
            forall|j: int|
                #![trigger out@[j]]
                0 <= j < i ==> out@[j].name@ == store@.rows[j].name && out@[j].num_torrents as nat
                    == count_id(store@.torrents, store@.rows[j].id),
        decreases store.categories.len() - i,
    {
        let n: u64 = store.count_torrents(store.categories[i].id);
        out.push(CategoryResponse { name: store.categories[i].name.clone(), num_torrents: n });
        i = i + 1;
    }
    proof {
        if store@.wf() {
            assert forall|a: int, b: int|
                #![trigger out@[a], out@[b]]
                0 <= a < b < out@.len() implies out@[a].name@ != out@[b].name@ by {
                assert(out@[a].name@ == store@.rows[a].name);
                assert(out@[b].name@ == store@.rows[b].name);
            }
        }
    }
    out
}

/// Creates a category. The guard runs first: no identity is
/// `Unauthenticated`, a non-administrator is `Forbidden`, and either refusal
/// leaves the store untouched. An administrator's request with a name
/// already present fails with `CategoryExists` and writes nothing; with a
/// fresh name it appends one row and echoes the name.
pub fn add_category(store: &mut CategoryStore, identity: Option<User>, payload: Category) -> (r:
    Result<String, ServiceError>)
    requires
        old(store)@.wf(),
        old(store)@.next_id < u64::MAX as int,
    ensures
        final(store)@.wf(),
        identity is None ==> r == Err::<String, ServiceError>(ServiceError::Unauthenticated)
            && final(store)@ == old(store)@,
        identity matches Some(user) ==> (if !user.administrator {
            r == Err::<String, ServiceError>(ServiceError::Forbidden) && final(store)@ == old(
                store,
            )@
        } else if old(store)@.contains_name(payload.name@) {
            r == Err::<String, ServiceError>(ServiceError::CategoryExists) && final(store)@ == old(
                store,
            )@
        } else {
            &&& r matches Ok(echo) && echo@ == payload.name@
            &&& final(store)@ == create_transition(old(store)@, payload.name@)
        }),
{
    if let Err(e) = authorize(identity) {
        return Err(e);
    }
    let echo: String = payload.name.clone();
    match store.insert(payload.name) {
        Ok(()) => Ok(echo),
        Err(failure) => Err(classify_create_failure(failure)),
    }
}

/// Deletes a category by name. The guard runs first, exactly as for create.
/// An administrator's request always succeeds and echoes the name: the
/// matching row is removed when present, and an absent name deletes nothing.
/// Torrent rows are never touched.
pub fn delete_category(store: &mut CategoryStore, identity: Option<User>, payload: Category) -> (r:
    Result<String, ServiceError>)
    requires
        old(store)@.wf(),
    ensures
        final(store)@.wf(),
        identity is None ==> r == Err::<String, ServiceError>(ServiceError::Unauthenticated)
            && final(store)@ == old(store)@,
        identity matches Some(user) ==> (if !user.administrator {
            r == Err::<String, ServiceError>(ServiceError::Forbidden) && final(store)@ == old(
                store,
            )@
        } else {
            &&& r matches Ok(echo) && echo@ == payload.name@
            &&& final(store)@.torrents == old(store)@.torrents
            &&& final(store)@.next_id == old(store)@.next_id
            &&& !old(store)@.contains_name(payload.name@) ==> final(store)@ == old(store)@
            &&& old(store)@.contains_name(payload.name@) ==> exists|i: int|
                0 <= i < old(store)@.rows.len() && old(store)@.rows[i].name == payload.name@
                    && final(store)@.rows == old(store)@.rows.remove(i)
            &&& !final(store)@.contains_name(payload.name@)
        }),
{
    if let Err(e) = authorize(identity) {
        return Err(e);
    }
    store.delete_by_name(&payload.name);
    Ok(payload.name)
}

/// A category created under a fresh name has no referencing torrents: the
/// new store keeps every old row and its count, and its last row carries the
/// new name with a count of zero. So a listing taken after the create shows
/// the old entries unchanged plus the new name with `num_torrents` zero.
pub proof fn lemma_created_category_has_zero_torrents(v: StoreView, name: Seq<char>)
    requires
        v.wf(),
        !v.contains_name(name),
    ensures
        create_transition(v, name).rows.len() == v.rows.len() + 1,
        create_transition(v, name).rows.last().name == name,
        count_id(create_transition(v, name).torrents, create_transition(v, name).rows.last().id)
            == 0,
        forall|i: int|
            0 <= i < v.rows.len() ==> #[trigger] create_transition(v, name).rows[i] == v.rows[i],
        forall|i: int|
            0 <= i < v.rows.len() ==> count_id(
                create_transition(v, name).torrents,
                (#[trigger] v.rows[i]).id,
            ) == count_id(v.torrents, v.rows[i].id),
{
    let v2 = create_transition(v, name);
    assert(v2.rows.last() == RowView { id: v.next_id, name: name });
    assert(forall|k: int| 0 <= k < v.torrents.len() ==> #[trigger] v.torrents[k] != v.next_id);
    lemma_count_id_absent(v.torrents, v.next_id);
}

/// A name occurs on at most one row of a well formed store, so a listing
/// keeps exactly one entry for a name that is already present — a refused
/// duplicate create leaves no second row behind.
pub proof fn lemma_at_most_one_row_per_name(v: StoreView, name: Seq<char>)
    requires
        v.wf(),
    ensures
        forall|i: int, j: int|
            0 <= i < v.rows.len() && 0 <= j < v.rows.len() && (#[trigger] v.rows[i]).name == name
                && (#[trigger] v.rows[j]).name == name ==> i == j,
{
    assert forall|i: int, j: int|
        0 <= i < v.rows.len() && 0 <= j < v.rows.len() && (#[trigger] v.rows[i]).name == name && (
        #[trigger] v.rows[j]).name == name implies i == j by {
        if i < j {
            assert(v.rows[i].name != v.rows[j].name);
        } else if j < i {
            assert(v.rows[j].name != v.rows[i].name);
        }
    }
}

} // verus!
