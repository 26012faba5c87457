use category_service::auth::{authorize, User};
use category_service::category::{add_category, delete_category, get_categories, Category};
use category_service::error::{classify_create_failure, ServiceError, StorageFailure};
use category_service::store::CategoryStore;

fn admin() -> Option<User> {
    Some(User { administrator: true })
}

fn plain_user() -> Option<User> {
    Some(User { administrator: false })
}

fn payload(name: &str) -> Category {
    Category { name: name.to_string() }
}

/// Two categories, three torrents on the first and none on the second: the
/// listing has exactly one entry per category, with counts 3 and 0.
#[test]
fn listing_counts_torrents_per_category() {
    let mut store = CategoryStore::new();
    assert_eq!(add_category(&mut store, admin(), payload("Movies")), Ok("Movies".to_string()));
    assert_eq!(add_category(&mut store, admin(), payload("Books")), Ok("Books".to_string()));
    let movies_id = store.categories[0].id;
    assert!(store.add_torrent(movies_id));
    assert!(store.add_torrent(movies_id));
    assert!(store.add_torrent(movies_id));

    let listing = get_categories(&store);
    assert_eq!(listing.len(), 2);
    assert_eq!(listing[0].name, "Movies");
    assert_eq!(listing[0].num_torrents, 3);
    assert_eq!(listing[1].name, "Books");
    assert_eq!(listing[1].num_torrents, 0);
}

/// A freshly created category appears in the next listing with a torrent
/// count of zero.
#[test]
fn created_category_listed_with_zero_torrents() {
    let mut store = CategoryStore::new();
    assert_eq!(add_category(&mut store, admin(), payload("Music")), Ok("Music".to_string()));
    let listing = get_categories(&store);
    assert_eq!(listing.len(), 1);
    assert_eq!(listing[0].name, "Music");
    assert_eq!(listing[0].num_torrents, 0);
}

/// Creating the same name twice fails with `CategoryExists` and leaves a
/// single row: the listing still has one entry for the name.
#[test]
fn duplicate_create_is_a_conflict() {
    let mut store = CategoryStore::new();
    assert_eq!(add_category(&mut store, admin(), payload("Games")), Ok("Games".to_string()));
    assert_eq!(
        add_category(&mut store, admin(), payload("Games")),
        Err(ServiceError::CategoryExists)
    );
    let listing = get_categories(&store);
    assert_eq!(listing.len(), 1);
    assert_eq!(listing[0].name, "Games");
}

/// Without a resolvable identity both mutations fail with `Unauthenticated`
/// and write nothing.
#[test]
fn mutations_without_identity_are_unauthenticated() {
    let mut store = CategoryStore::new();
    assert_eq!(add_category(&mut store, admin(), payload("Games")), Ok("Games".to_string()));

    assert_eq!(
        add_category(&mut store, None, payload("Music")),
        Err(ServiceError::Unauthenticated)
    );
    assert_eq!(
        delete_category(&mut store, None, payload("Games")),
        Err(ServiceError::Unauthenticated)
    );
    let listing = get_categories(&store);
    assert_eq!(listing.len(), 1);
    assert_eq!(listing[0].name, "Games");
}

/// A resolved non-administrator gets `Forbidden` from both mutations, and
/// nothing is written or removed.
#[test]
fn mutations_by_non_administrator_are_forbidden() {
    let mut store = CategoryStore::new();
    assert_eq!(add_category(&mut store, admin(), payload("Games")), Ok("Games".to_string()));

    assert_eq!(
        add_category(&mut store, plain_user(), payload("Music")),
        Err(ServiceError::Forbidden)
    );
    assert_eq!(
        delete_category(&mut store, plain_user(), payload("Games")),
        Err(ServiceError::Forbidden)
    );
    let listing = get_categories(&store);
    assert_eq!(listing.len(), 1);
    assert_eq!(listing[0].name, "Games");
}

/// Deleting a name that does not exist reports success and changes nothing.
#[test]
fn delete_of_absent_name_succeeds_without_change() {
    let mut store = CategoryStore::new();
    assert_eq!(add_category(&mut store, admin(), payload("Movies")), Ok("Movies".to_string()));
    assert_eq!(
        delete_category(&mut store, admin(), payload("Books")),
        Ok("Books".to_string())
    );
    let listing = get_categories(&store);
    assert_eq!(listing.len(), 1);
    assert_eq!(listing[0].name, "Movies");
}

/// Deleting an existing name removes exactly that row; its torrent rows
/// stay behind with a dangling reference and the other counts are kept.
#[test]
fn delete_removes_only_the_named_row() {
    let mut store = CategoryStore::new();
    assert_eq!(add_category(&mut store, admin(), payload("Movies")), Ok("Movies".to_string()));
    assert_eq!(add_category(&mut store, admin(), payload("Books")), Ok("Books".to_string()));
    let movies_id = store.categories[0].id;
    let books_id = store.categories[1].id;
    assert!(store.add_torrent(movies_id));
    assert!(store.add_torrent(books_id));

    assert_eq!(
        delete_category(&mut store, admin(), payload("Movies")),
        Ok("Movies".to_string())
    );
    let listing = get_categories(&store);
    assert_eq!(listing.len(), 1);
    assert_eq!(listing[0].name, "Books");
    assert_eq!(listing[0].num_torrents, 1);
    assert_eq!(store.torrents.len(), 2);
}

/// The authorization guard alone: each identity maps to its outcome.
#[test]
fn authorize_discriminates_the_three_cases() {
    assert_eq!(authorize(None), Err(ServiceError::Unauthenticated));
    assert_eq!(authorize(plain_user()), Err(ServiceError::Forbidden));
    assert_eq!(authorize(admin()), Ok(User { administrator: true }));
}

/// Storage failure classification: only the uniqueness violation becomes
/// `CategoryExists`; everything else is an internal error.
#[test]
fn create_failures_are_classified() {
    assert_eq!(
        classify_create_failure(StorageFailure::UniqueViolation),
        ServiceError::CategoryExists
    );
    assert_eq!(
        classify_create_failure(StorageFailure::Backend),
        ServiceError::InternalError
    );
}

/// A torrent reference is accepted only for an identifier that some
/// category carries; a reference to an unknown identifier is refused and
/// not recorded.
#[test]
fn torrent_references_require_an_existing_category() {
    let mut store = CategoryStore::new();
    assert_eq!(add_category(&mut store, admin(), payload("Movies")), Ok("Movies".to_string()));
    let movies_id = store.categories[0].id;
    assert!(store.add_torrent(movies_id));
    assert!(!store.add_torrent(movies_id + 1));
    assert_eq!(store.torrents.len(), 1);

    let listing = get_categories(&store);
    assert_eq!(listing[0].num_torrents, 1);
}

/// Creating a name that an earlier, deleted category left dangling torrent
/// references for: the recreated category gets a fresh identifier, so its
/// count starts at zero again.
#[test]
fn recreated_name_does_not_inherit_dangling_references() {
    let mut store = CategoryStore::new();
    assert_eq!(add_category(&mut store, admin(), payload("Games")), Ok("Games".to_string()));
    let old_id = store.categories[0].id;
    assert!(store.add_torrent(old_id));
    assert_eq!(
        delete_category(&mut store, admin(), payload("Games")),
        Ok("Games".to_string())
    );
    assert_eq!(add_category(&mut store, admin(), payload("Games")), Ok("Games".to_string()));

    let listing = get_categories(&store);
    assert_eq!(listing.len(), 1);
    assert_eq!(listing[0].name, "Games");
    assert_eq!(listing[0].num_torrents, 0);
}
