use mastofeed::status::{reduce, toggle, Account, Interaction, StatusData};

fn sample(favorites_count: u32, is_favorited: bool) -> StatusData {
    StatusData {
        id: String::from("1"),
        account: Account { username: String::from("a"), avatar: String::from("u") },
        content: String::from("hi"),
        favorites_count,
        is_favorited,
        reblogs_count: 0,
        is_reblogged: false,
        replies_count: 0,
        is_replied: false,
        is_bookmarked: false,
    }
}

#[test]
fn favorite_even_number_of_toggles_restores() {
    let original = sample(5, false);
    let mut status = sample(5, false);
    for _ in 0..4 {
        reduce(&mut status, Interaction::Favorite);
    }
    assert_eq!(status, original);
}

#[test]
fn favorite_odd_number_of_toggles_increments() {
    let mut status = sample(5, false);
    for _ in 0..3 {
        reduce(&mut status, Interaction::Favorite);
    }
    assert!(status.is_favorited);
    assert_eq!(status.favorites_count, 6);
}

#[test]
fn favorite_round_trip_from_favorited_start() {
    let original = sample(8, true);
    let mut status = sample(8, true);
    reduce(&mut status, Interaction::Favorite);
    assert!(!status.is_favorited);
    assert_eq!(status.favorites_count, 7);
    reduce(&mut status, Interaction::Favorite);
    assert_eq!(status, original);
}

#[test]
fn bookmark_twice_is_identity() {
    let original = sample(2, false);
    let mut status = sample(2, false);
    reduce(&mut status, Interaction::Bookmark);
    assert!(status.is_bookmarked);
    assert_eq!(status.favorites_count, 2);
    reduce(&mut status, Interaction::Bookmark);
    assert_eq!(status, original);
}

#[test]
fn reply_and_reblog_move_their_counters() {
    let mut status = sample(0, false);
    reduce(&mut status, Interaction::Reply);
    assert!(status.is_replied);
    assert_eq!(status.replies_count, 1);
    reduce(&mut status, Interaction::Reblog);
    assert!(status.is_reblogged);
    assert_eq!(status.reblogs_count, 1);
    assert_eq!(status.favorites_count, 0);
    assert!(!status.is_favorited);
}

#[test]
fn toggle_off_clamps_at_zero() {
    let mut flag = true;
    let mut count: u32 = 0;
    toggle(&mut flag, &mut count);
    assert!(!flag);
    assert_eq!(count, 0);
}

#[test]
fn toggle_on_saturates_at_max() {
    let mut flag = false;
    let mut count: u32 = u32::MAX;
    toggle(&mut flag, &mut count);
    assert!(flag);
    assert_eq!(count, u32::MAX);
}

#[test]
fn toggle_moves_count_with_flag() {
    let mut flag = false;
    let mut count: u32 = 41;
    toggle(&mut flag, &mut count);
    assert!(flag);
    assert_eq!(count, 42);
    toggle(&mut flag, &mut count);
    assert!(!flag);
    assert_eq!(count, 41);
}
