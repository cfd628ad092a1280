use blog_server::events::{PostCreated, PostLiked, UserCreated};
use blog_server::service::{
    fetch_all_posts_by_user, fetch_post_by_user, fetch_top_k_most_liked_posts, fetch_trending_posts,
    fetch_user_stats, UserStats,
};
use blog_server::store::Store;

fn key(fill: u8) -> Vec<u8> {
    vec![fill; 32]
}

fn seeded_store() -> Store {
    let mut store = Store::new();
    store
        .create_new_user(&UserCreated { user: key(1), post_count: 0 })
        .unwrap();
    // Three posts by author 1 at distinct times, one by author 2.
    for (idx, at) in [(0u64, 100i64), (1, 300), (2, 200)] {
        store
            .create_new_post(
                &PostCreated {
                    author: key(1),
                    post_index: idx,
                    title: format!("post {}", idx).into_bytes(),
                    content: b"body".to_vec(),
                },
                at,
            )
            .unwrap();
    }
    store
        .create_new_post(
            &PostCreated {
                author: key(2),
                post_index: 0,
                title: b"other".to_vec(),
                content: b"body".to_vec(),
            },
            400,
        )
        .unwrap();
    // Likes: post (1,0) -> 150, (1,1) -> 5, (1,2) -> 120, (2,0) -> 80.
    for (author, idx, total) in [(1u8, 0u64, 150u64), (1, 1, 5), (1, 2, 120), (2, 0, 80)] {
        store
            .like_post(&PostLiked {
                liker: key(9),
                author: key(author),
                post_index: idx,
                total_likes: total,
            })
            .unwrap();
    }
    store
}

#[test]
fn posts_by_user_come_most_recent_first() {
    let store = seeded_store();
    let posts = fetch_all_posts_by_user(&store, key(1).as_slice());
    assert_eq!(posts.len(), 3);
    let order: Vec<(u64, i64)> = posts.iter().map(|p| (p.post_index, p.created_at)).collect();
    assert_eq!(order, vec![(1, 300), (2, 200), (0, 100)]);
    for p in posts.iter() {
        assert_eq!(p.user_address, key(1));
    }
}

#[test]
fn posts_by_unknown_user_is_empty() {
    let store = seeded_store();
    let posts = fetch_all_posts_by_user(&store, key(9).as_slice());
    assert!(posts.is_empty());
}

#[test]
fn post_by_user_finds_the_single_row() {
    let store = seeded_store();
    let post = fetch_post_by_user(&store, key(1).as_slice(), 2).expect("row must exist");
    assert_eq!(post.title, b"post 2".to_vec());
    assert_eq!(post.likes, 120);
    assert!(fetch_post_by_user(&store, key(1).as_slice(), 7).is_none());
    assert!(fetch_post_by_user(&store, key(3).as_slice(), 0).is_none());
}

#[test]
fn top_k_returns_k_most_liked_in_descending_order() {
    let store = seeded_store();
    let top = fetch_top_k_most_liked_posts(&store, 3);
    let likes: Vec<u64> = top.iter().map(|p| p.likes).collect();
    assert_eq!(likes, vec![150, 120, 80]);
}

#[test]
fn top_k_with_large_k_returns_all_posts_sorted() {
    let store = seeded_store();
    let top = fetch_top_k_most_liked_posts(&store, 50);
    let likes: Vec<u64> = top.iter().map(|p| p.likes).collect();
    assert_eq!(likes, vec![150, 120, 80, 5]);
}

#[test]
fn top_zero_is_empty() {
    let store = seeded_store();
    assert!(fetch_top_k_most_liked_posts(&store, 0).is_empty());
}

#[test]
fn user_stats_aggregate_count_sum_and_max_index() {
    let store = seeded_store();
    let stats: UserStats = fetch_user_stats(&store, key(1).as_slice()).expect("author has posts");
    assert_eq!(stats.user_address, key(1));
    assert_eq!(stats.total_posts, 3);
    assert_eq!(stats.total_likes, 150 + 5 + 120);
    assert_eq!(stats.latest_post_index, Some(2));
}

#[test]
fn user_stats_for_author_without_posts_is_none() {
    let store = seeded_store();
    assert!(fetch_user_stats(&store, key(3).as_slice()).is_none());
}

#[test]
fn trending_is_strictly_above_threshold_descending() {
    let store = seeded_store();
    let posts = fetch_trending_posts(&store);
    let likes: Vec<u64> = posts.iter().map(|p| p.likes).collect();
    // 150 and 120 are above 100; 80 and 5 are not; 100 itself would not be.
    assert_eq!(likes, vec![150, 120]);
}

#[test]
fn trending_excludes_exactly_one_hundred_likes() {
    let mut store = Store::new();
    store
        .create_new_post(
            &PostCreated {
                author: key(1),
                post_index: 0,
                title: b"edge".to_vec(),
                content: vec![],
            },
            0,
        )
        .unwrap();
    store
        .like_post(&PostLiked { liker: key(9), author: key(1), post_index: 0, total_likes: 100 })
        .unwrap();
    assert!(fetch_trending_posts(&store).is_empty());
}

#[test]
fn empty_store_queries() {
    let store = Store::new();
    assert!(fetch_all_posts_by_user(&store, key(1).as_slice()).is_empty());
    assert!(fetch_post_by_user(&store, key(1).as_slice(), 0).is_none());
    assert!(fetch_top_k_most_liked_posts(&store, 10).is_empty());
    assert!(fetch_user_stats(&store, key(1).as_slice()).is_none());
    assert!(fetch_trending_posts(&store).is_empty());
}
