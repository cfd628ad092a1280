use blog_server::events::{PostCreated, PostLiked, UserCreated};
use blog_server::service::fetch_post_by_user;
use blog_server::store::{Store, StoreWriteError};

fn key(fill: u8) -> Vec<u8> {
    vec![fill; 32]
}

#[test]
fn user_created_yields_exactly_one_row_with_zero_count() {
    let mut store = Store::new();
    let ev = UserCreated { user: key(7), post_count: 0 };
    assert_eq!(store.create_new_user(&ev), Ok(()));
    assert_eq!(store.users.len(), 1);
    let row = store.get_user(key(7).as_slice()).expect("row must exist");
    assert_eq!(row.address, key(7));
    assert_eq!(row.post_count, 0);
}

#[test]
fn new_user_row_starts_at_zero_posts_whatever_the_event_carries() {
    let mut store = Store::new();
    let ev = UserCreated { user: key(8), post_count: 7 };
    assert_eq!(store.create_new_user(&ev), Ok(()));
    let row = store.get_user(key(8).as_slice()).expect("row must exist");
    assert_eq!(row.post_count, 0);
}

#[test]
fn duplicate_user_is_an_error_and_changes_nothing() {
    let mut store = Store::new();
    let ev = UserCreated { user: key(7), post_count: 0 };
    assert_eq!(store.create_new_user(&ev), Ok(()));
    assert_eq!(store.create_new_user(&ev), Err(StoreWriteError::DuplicateUser));
    assert_eq!(store.users.len(), 1);
}

#[test]
fn post_created_then_liked_updates_likes() {
    let mut store = Store::new();
    let post = PostCreated {
        author: key(9),
        post_index: 3,
        title: b"T".to_vec(),
        content: b"C".to_vec(),
    };
    assert_eq!(store.create_new_post(&post, 1000), Ok(()));
    let like = PostLiked { liker: key(2), author: key(9), post_index: 3, total_likes: 5 };
    assert_eq!(store.like_post(&like), Ok(()));
    let row = fetch_post_by_user(&store, key(9).as_slice(), 3).expect("row must exist");
    assert_eq!(row.likes, 5);
    assert_eq!(row.title, b"T".to_vec());
    assert_eq!(row.content, b"C".to_vec());
    assert_eq!(row.created_at, 1000);
}

#[test]
fn like_total_is_last_write_not_increment() {
    let mut store = Store::new();
    let post = PostCreated {
        author: key(9),
        post_index: 0,
        title: b"t".to_vec(),
        content: b"c".to_vec(),
    };
    assert_eq!(store.create_new_post(&post, 0), Ok(()));
    let like5 = PostLiked { liker: key(2), author: key(9), post_index: 0, total_likes: 5 };
    let like2 = PostLiked { liker: key(3), author: key(9), post_index: 0, total_likes: 2 };
    assert_eq!(store.like_post(&like5), Ok(()));
    assert_eq!(store.like_post(&like2), Ok(()));
    let row = fetch_post_by_user(&store, key(9).as_slice(), 0).expect("row must exist");
    assert_eq!(row.likes, 2);
}

#[test]
fn duplicate_post_is_an_error_and_changes_nothing() {
    let mut store = Store::new();
    let post = PostCreated {
        author: key(9),
        post_index: 3,
        title: b"a".to_vec(),
        content: b"b".to_vec(),
    };
    assert_eq!(store.create_new_post(&post, 0), Ok(()));
    assert_eq!(store.create_new_post(&post, 1), Err(StoreWriteError::DuplicatePost));
    assert_eq!(store.posts.len(), 1);
}

#[test]
fn like_for_missing_post_is_an_error_and_changes_nothing() {
    let mut store = Store::new();
    let like = PostLiked { liker: key(2), author: key(9), post_index: 3, total_likes: 5 };
    assert_eq!(store.like_post(&like), Err(StoreWriteError::MissingPost));
    assert_eq!(store.posts.len(), 0);
}

#[test]
fn same_index_under_different_authors_are_distinct_rows() {
    let mut store = Store::new();
    let a = PostCreated { author: key(1), post_index: 0, title: b"a".to_vec(), content: vec![] };
    let b = PostCreated { author: key(2), post_index: 0, title: b"b".to_vec(), content: vec![] };
    assert_eq!(store.create_new_post(&a, 0), Ok(()));
    assert_eq!(store.create_new_post(&b, 0), Ok(()));
    assert_eq!(store.posts.len(), 2);
    let ra = fetch_post_by_user(&store, key(1).as_slice(), 0).expect("row a");
    let rb = fetch_post_by_user(&store, key(2).as_slice(), 0).expect("row b");
    assert_eq!(ra.title, b"a".to_vec());
    assert_eq!(rb.title, b"b".to_vec());
}
