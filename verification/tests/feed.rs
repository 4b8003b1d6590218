use mastofeed::feed::{LoadError, Timeline};
use mastofeed::status::{Account, Interaction, StatusData};
use mastofeed::store::StoreError;

fn status(id: &str, content: &str, favorites_count: u32) -> StatusData {
    StatusData {
        id: String::from(id),
        account: Account { username: String::from("a"), avatar: String::from("u") },
        content: String::from(content),
        favorites_count,
        is_favorited: false,
        reblogs_count: 0,
        is_reblogged: false,
        replies_count: 0,
        is_replied: false,
        is_bookmarked: false,
    }
}

#[test]
fn single_status_load_and_favorite_round_trip() {
    let mut timeline = Timeline::new();
    let page = vec![StatusData {
        id: String::from("1"),
        account: Account { username: String::from("a"), avatar: String::from("u") },
        content: String::from("hi"),
        favorites_count: 5,
        is_favorited: false,
        reblogs_count: 0,
        is_reblogged: false,
        replies_count: 0,
        is_replied: false,
        is_bookmarked: false,
    }];
    timeline.apply_load(Ok(page)).unwrap();

    let shown = timeline.project().unwrap();
    assert_eq!(shown.len(), 1);
    assert_eq!(shown[0].favorites_count, 5);
    assert!(!shown[0].is_favorited);

    timeline.apply(&String::from("1"), Interaction::Favorite).unwrap();
    let shown = timeline.project().unwrap();
    assert_eq!(shown[0].favorites_count, 6);
    assert!(shown[0].is_favorited);

    timeline.apply(&String::from("1"), Interaction::Favorite).unwrap();
    let shown = timeline.project().unwrap();
    assert_eq!(shown[0].favorites_count, 5);
    assert!(!shown[0].is_favorited);
}

#[test]
fn every_loaded_id_resolves_in_the_store() {
    let mut timeline = Timeline::new();
    let page = vec![status("1", "one", 0), status("2", "two", 1), status("3", "three", 2)];
    timeline.apply_load(Ok(page)).unwrap();
    let ids: Vec<String> = timeline.order_ids().clone();
    assert_eq!(ids.len(), 3);
    for id in &ids {
        assert!(timeline.get(id).is_ok());
    }
}

#[test]
fn failed_load_leaves_timeline_unchanged() {
    let mut timeline = Timeline::new();
    timeline.apply_load(Ok(vec![status("1", "hi", 5), status("2", "yo", 0)])).unwrap();
    let order_before = timeline.order_ids().clone();
    let shown_before = timeline.project().unwrap();

    let r = timeline.apply_load(Err(LoadError::LoadFailed));
    assert_eq!(r, Err(LoadError::LoadFailed));

    assert_eq!(*timeline.order_ids(), order_before);
    assert_eq!(timeline.project().unwrap(), shown_before);
    assert_eq!(timeline.store_len(), 2);
}

#[test]
fn overlapping_id_replaces_record_and_appends_order_entry() {
    let mut timeline = Timeline::new();
    timeline.apply_load(Ok(vec![status("1", "hi", 5), status("2", "yo", 0)])).unwrap();
    timeline.apply_load(Ok(vec![status("1", "edited", 7)])).unwrap();

    // The store upserts: still one record per id, the later one.
    assert_eq!(timeline.store_len(), 2);
    // The feed order appends unconditionally: "1" now occurs twice.
    assert_eq!(*timeline.order_ids(), vec![
        String::from("1"),
        String::from("2"),
        String::from("1"),
    ]);
    // Both occurrences project to the replaced record, looked up fresh.
    let shown = timeline.project().unwrap();
    assert_eq!(shown.len(), 3);
    assert_eq!(shown[0].content, "edited");
    assert_eq!(shown[0].favorites_count, 7);
    assert_eq!(shown[2], shown[0]);
}

#[test]
fn projection_reflects_interactions_without_refetch() {
    let mut timeline = Timeline::new();
    timeline.apply_load(Ok(vec![status("1", "hi", 5), status("2", "yo", 3)])).unwrap();
    timeline.apply(&String::from("2"), Interaction::Bookmark).unwrap();
    let shown = timeline.project().unwrap();
    assert!(shown[1].is_bookmarked);
    assert!(!shown[0].is_bookmarked);
}

#[test]
fn interactions_on_unknown_id_surface_not_found() {
    let mut timeline = Timeline::new();
    timeline.apply_load(Ok(vec![status("1", "hi", 5)])).unwrap();
    assert_eq!(timeline.apply(&String::from("404"), Interaction::Reply), Err(StoreError::NotFound));
    assert_eq!(timeline.get(&String::from("404")), Err(StoreError::NotFound));
    // The failed update corrupted nothing.
    assert_eq!(timeline.project().unwrap()[0], status("1", "hi", 5));
}

#[test]
fn empty_load_changes_nothing_but_succeeds() {
    let mut timeline = Timeline::new();
    timeline.apply_load(Ok(Vec::new())).unwrap();
    assert_eq!(timeline.order_len(), 0);
    assert_eq!(timeline.store_len(), 0);
    assert_eq!(timeline.project().unwrap(), Vec::<StatusData>::new());
}
