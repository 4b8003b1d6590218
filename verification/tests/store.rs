use mastofeed::status::{Account, Interaction, StatusData};
use mastofeed::store::{StatusStore, StoreError};

fn status(id: &str, content: &str, favorites_count: u32) -> StatusData {
    StatusData {
        id: String::from(id),
        account: Account { username: String::from("a"), avatar: String::from("u") },
        content: String::from(content),
        favorites_count,
        is_favorited: false,
        reblogs_count: 0,
        is_reblogged: false,
        replies_count: 0,
        is_replied: false,
        is_bookmarked: false,
    }
}

#[test]
fn upsert_then_get_returns_the_record() {
    let mut store = StatusStore::new();
    store.upsert(status("1", "hi", 5));
    let got = store.get(&String::from("1")).unwrap();
    assert_eq!(*got, status("1", "hi", 5));
}

#[test]
fn upsert_same_id_replaces_last_write_wins() {
    let mut store = StatusStore::new();
    store.upsert(status("1", "first", 1));
    store.upsert(status("1", "second", 2));
    assert_eq!(store.len(), 1);
    let got = store.get(&String::from("1")).unwrap();
    assert_eq!(got.content, "second");
    assert_eq!(got.favorites_count, 2);
}

#[test]
fn get_unknown_id_reports_not_found() {
    let store = StatusStore::new();
    assert_eq!(store.get(&String::from("404")), Err(StoreError::NotFound));
}

#[test]
fn update_unknown_id_reports_not_found_and_changes_nothing() {
    let mut store = StatusStore::new();
    store.upsert(status("1", "hi", 5));
    let r = store.update(&String::from("404"), Interaction::Favorite);
    assert_eq!(r, Err(StoreError::NotFound));
    assert_eq!(store.len(), 1);
    assert_eq!(*store.get(&String::from("1")).unwrap(), status("1", "hi", 5));
}

#[test]
fn update_changes_one_record_in_place() {
    let mut store = StatusStore::new();
    store.upsert(status("1", "hi", 5));
    store.upsert(status("2", "yo", 9));
    let r = store.update(&String::from("1"), Interaction::Favorite);
    assert_eq!(r, Ok(()));
    let one = store.get(&String::from("1")).unwrap();
    assert!(one.is_favorited);
    assert_eq!(one.favorites_count, 6);
    assert_eq!(*store.get(&String::from("2")).unwrap(), status("2", "yo", 9));
}

#[test]
fn update_twice_returns_to_the_original_record() {
    let mut store = StatusStore::new();
    store.upsert(status("1", "hi", 5));
    store.update(&String::from("1"), Interaction::Reblog).unwrap();
    store.update(&String::from("1"), Interaction::Reblog).unwrap();
    assert_eq!(*store.get(&String::from("1")).unwrap(), status("1", "hi", 5));
}
