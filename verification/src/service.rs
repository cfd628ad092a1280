//! Read-side queries over the store: posts by author, a single post, top-K
//! by likes, per-user aggregate stats, and posts above a like threshold.
//!
//! Every query is a pure projection of the store's rows.

use crate::registry::bytes_eq;
use crate::store::{Post, PostView, Store, has_post, post_matches, post_row_index};
use vstd::prelude::*;

verus! {

/// Posts with more likes than this are trending.
pub const TRENDING_LIKES_THRESHOLD: u64 = 100;

/// Which column a query orders by, always descending.
#[derive(Clone, Copy, Debug, PartialEq, Eq, Structural)]
pub enum SortColumn {
    CreatedAt,
    Likes,
}

/// The images of a vector of rows, in order.
pub open spec fn post_views(v: Seq<Post>) -> Seq<PostView> {
    v.map_values(|p: Post| p@)
}

/// The ordering key of a row under a column.
pub open spec fn sort_key_of(p: PostView, c: SortColumn) -> int {
    match c {
        SortColumn::CreatedAt => p.created_at as int,
        SortColumn::Likes => p.likes as int,
    }
}

/// Whether the rows are in descending order of the column.
pub open spec fn sorted_desc(s: Seq<PostView>, c: SortColumn) -> bool {
    forall|i: int, j: int|
        0 <= i < j < s.len() ==> sort_key_of(#[trigger] s[i], c) >= sort_key_of(#[trigger] s[j], c)
}

/// The rows whose author is `author`, in store order.
pub open spec fn by_author(s: Seq<PostView>, author: Seq<u8>) -> Seq<PostView> {
    s.filter(|p: PostView| p.user_address == author)
}

/// The rows with more likes than the trending threshold, in store order.
pub open spec fn trending(s: Seq<PostView>) -> Seq<PostView> {
    s.filter(|p: PostView| p.likes > TRENDING_LIKES_THRESHOLD)
}

fn key_ge(a: &Post, b: &Post, c: SortColumn) -> (r: bool)
    ensures
        r == (sort_key_of(a@, c) >= sort_key_of(b@, c)),
{
    match c {
        SortColumn::CreatedAt => a.created_at >= b.created_at,
        SortColumn::Likes => a.likes >= b.likes,
    }
}

/// Inserting into a sequence adds exactly that element to its multiset.
proof fn lemma_insert_to_multiset(s: Seq<PostView>, i: int, x: PostView)
    requires
        0 <= i <= s.len(),
    ensures
        s.insert(i, x).to_multiset() == s.to_multiset().insert(x),
{
    broadcast use vstd::seq_lib::group_to_multiset_ensures;

    let t = s.insert(i, x);
    assert(t.remove(i) =~= s);
    assert(t[i] == x);
    assert(t.contains(x));
    assert(t.to_multiset().count(x) > 0);
    assert(s.to_multiset() =~= t.to_multiset().remove(x));
    assert(t.to_multiset() =~= s.to_multiset().insert(x));
}

/// The position where a row joins a descending run: the end of the prefix
/// whose keys are at least the row's.
fn insertion_point(out: &Vec<Post>, p: &Post, c: SortColumn) -> (i: usize)
    requires
        sorted_desc(post_views(out@), c),
    ensures
        i <= out@.len(),
        forall|j: int| 0 <= j < i ==> sort_key_of(#[trigger] post_views(out@)[j], c) >= sort_key_of(
            p@,
            c,
        ),
        i < out@.len() ==> sort_key_of(post_views(out@)[i as int], c) < sort_key_of(p@, c),
{
    let mut i: usize = 0;
    while i < out.len()
        invariant
            i <= out@.len(),
            forall|j: int|
                0 <= j < i ==> sort_key_of(#[trigger] post_views(out@)[j], c) >= sort_key_of(
                    p@,
                    c,
                ),
        decreases out@.len() - i,
    {
        if !key_ge(&out[i], p, c) {
            return i;
        }
        i = i + 1;
    }
    i
}

/// Inserts a row into a descending run, keeping it a descending run.
fn insert_sorted(out: &mut Vec<Post>, p: Post, c: SortColumn)
    requires
        sorted_desc(post_views(old(out)@), c),
    ensures
        sorted_desc(post_views(final(out)@), c),
        post_views(final(out)@).to_multiset() == post_views(old(out)@).to_multiset().insert(p@),
        final(out)@.len() == old(out)@.len() + 1,
{
    let i = insertion_point(out, &p, c);
    let ghost ov = post_views(out@);
    out.insert(i, p);
    proof {
        let nv = post_views(out@);
        assert(nv =~= ov.insert(i as int, p@));
        lemma_insert_to_multiset(ov, i as int, p@);
        assert forall|a: int, b: int|
            0 <= a < b < nv.len() implies sort_key_of(#[trigger] nv[a], c) >= sort_key_of(
            #[trigger] nv[b],
            c,
        ) by {
            if b < i {
            } else if a < i && b == i {
                assert(nv[a] == ov[a]);
            } else if a < i && b > i {
                assert(nv[a] == ov[a]);
                assert(nv[b] == ov[b - 1]);
            } else if a == i {
                assert(nv[b] == ov[b - 1]);
                assert(b - 1 >= i);
                assert(sort_key_of(ov[i as int], c) < sort_key_of(p@, c));
                if b - 1 > i {
                    assert(sort_key_of(ov[i as int], c) >= sort_key_of(ov[b - 1], c));
                }
            } else {
                assert(nv[a] == ov[a - 1]);
                assert(nv[b] == ov[b - 1]);
            }
        }
    }
}

/// Sorts rows in descending order of the column; the result is a
/// permutation of the input.
fn sort_posts_desc(v: Vec<Post>, c: SortColumn) -> (r: Vec<Post>)
    ensures
        sorted_desc(post_views(r@), c),
        post_views(r@).to_multiset() == post_views(v@).to_multiset(),
        r@.len() == v@.len(),
{
    broadcast use vstd::seq_lib::group_to_multiset_ensures;

    let ghost orig = post_views(v@);
    let mut rest = v;
    let mut out: Vec<Post> = Vec::new();
    assert(post_views(out@) =~= Seq::<PostView>::empty());
    assert(post_views(out@).to_multiset().add(post_views(rest@).to_multiset()) =~= orig.to_multiset());
    while rest.len() > 0
        invariant
            sorted_desc(post_views(out@), c),
            post_views(out@).to_multiset().add(post_views(rest@).to_multiset())
                == orig.to_multiset(),
            out@.len() + rest@.len() == orig.len(),
        decreases rest@.len(),
    {
        let ghost rv = post_views(rest@);
        let p = rest.pop().unwrap();
        proof {
            broadcast use vstd::seq_lib::group_to_multiset_ensures;

            assert(rv.drop_last() =~= rv.remove(rv.len() - 1));
            assert(post_views(rest@) =~= rv.drop_last());
            assert(rv.drop_last().to_multiset() =~= rv.to_multiset().remove(rv.last()));
            assert(rv.last() == p@);
        }
        insert_sorted(&mut out, p, c);
        proof {
            assert(post_views(out@).to_multiset().add(post_views(rest@).to_multiset())
                =~= orig.to_multiset());
        }
    }
    assert(post_views(rest@) =~= Seq::<PostView>::empty());
    assert(post_views(out@).to_multiset() =~= orig.to_multiset());
    proof {
        assert(orig.len() == orig.to_multiset().len());
        assert(post_views(out@).len() == post_views(out@).to_multiset().len());
    }
    out
}

/// Every post by this author, most recent first.
pub fn fetch_all_posts_by_user(store: &Store, author: &[u8]) -> (r: Vec<Post>)
    requires
        store.wf(),
    ensures
        sorted_desc(post_views(r@), SortColumn::CreatedAt),
        post_views(r@).to_multiset() == by_author(store@.posts, author@).to_multiset(),
        forall|i: int| 0 <= i < r@.len() ==> (#[trigger] post_views(r@)[i]).user_address == author@,
{
    let ghost posts = store@.posts;
    let mut collected: Vec<Post> = Vec::new();
    let mut i: usize = 0;
    proof {
        reveal_with_fuel(Seq::<PostView>::filter, 2);
        assert(posts.take(0) =~= Seq::<PostView>::empty());
        assert(post_views(collected@) =~= by_author(posts.take(0), author@));
    }
    while i < store.posts.len()
        invariant
            store.wf(),
            posts == store@.posts,
            i <= store.posts@.len(),
            posts.len() == store.posts@.len(),
            post_views(collected@) == by_author(posts.take(i as int), author@),
        decreases store.posts@.len() - i,
    {
        proof {
            reveal_with_fuel(Seq::<PostView>::filter, 2);
            assert(posts.take(i + 1).drop_last() =~= posts.take(i as int));
            assert(posts.take(i + 1).last() == posts[i as int]);
        }
        let ghost before = post_views(collected@);
        if bytes_eq(store.posts[i].user_address.as_slice(), author) {
            let d = store.posts[i].duplicate();
            collected.push(d);
            proof {
                reveal_with_fuel(Seq::<PostView>::filter, 2);
                assert(post_views(collected@) =~= before.push(d@));
                assert(d@ == posts[i as int]);
                assert(by_author(posts.take(i + 1), author@) == by_author(
                    posts.take(i as int),
                    author@,
                ).push(posts[i as int]));
                assert(post_views(collected@) == by_author(posts.take(i + 1), author@));
            }
        } else {
            proof {
                reveal_with_fuel(Seq::<PostView>::filter, 2);
                assert(by_author(posts.take(i + 1), author@) == by_author(
                    posts.take(i as int),
                    author@,
                ));
            }
        }
        i = i + 1;
    }
    assert(posts.take(posts.len() as int) =~= posts);
    let r = sort_posts_desc(collected, SortColumn::CreatedAt);
    proof {
        broadcast use vstd::seq_lib::group_to_multiset_ensures;

        let q = by_author(posts, author@);
        assert forall|j: int|
            0 <= j < r@.len() implies (#[trigger] post_views(r@)[j]).user_address == author@ by {
            let e = post_views(r@)[j];
            assert(post_views(r@).contains(e));
            assert(post_views(r@).to_multiset().count(e) > 0);
            assert(q.to_multiset().count(e) > 0);
            assert(q.contains(e));
            let idx = choose|idx: int| 0 <= idx < q.len() && q[idx] == e;
            posts.lemma_filter_pred(|p: PostView| p.user_address == author@, idx);
        }
    }
    r
}

/// The post with this author and index, if one exists; by well-formedness
/// it is the only one.
pub fn fetch_post_by_user(store: &Store, author: &[u8], post_index: u64) -> (r: Option<Post>)
    requires
        store.wf(),
    ensures
        match r {
            Some(p) => has_post(store@, author@, post_index) && p@ == store@.posts[post_row_index(
                store@,
                author@,
                post_index,
            )],
            None => !has_post(store@, author@, post_index),
        },
{
    let mut i: usize = 0;
    while i < store.posts.len()
        invariant
            store.wf(),
            i <= store.posts@.len(),
            store@.posts.len() == store.posts@.len(),
            forall|k: int| 0 <= k < i ==> !post_matches(store@.posts[k], author@, post_index),
        decreases store.posts@.len() - i,
    {
        if bytes_eq(store.posts[i].user_address.as_slice(), author) && store.posts[i].post_index
            == post_index {
            let p = store.posts[i].duplicate();
            proof {
                assert(post_matches(store@.posts[i as int], author@, post_index));
                let c = post_row_index(store@, author@, post_index);
                assert(0 <= c < store@.posts.len() && post_matches(
                    store@.posts[c],
                    author@,
                    post_index,
                ));
                if c != i {
                    assert(false);
                }
            }
            return Some(p);
        }
        i = i + 1;
    }
    None
}

/// The `k` most liked posts, most liked first: a prefix of some full
/// descending ordering of the table.
pub fn fetch_top_k_most_liked_posts(store: &Store, k: usize) -> (r: Vec<Post>)
    requires
        store.wf(),
    ensures
        sorted_desc(post_views(r@), SortColumn::Likes),
        r@.len() == if k <= store@.posts.len() {
            k as int
        } else {
            store@.posts.len() as int
        },
        exists|full: Seq<PostView>|
            #![trigger sorted_desc(full, SortColumn::Likes)]
            full.to_multiset() == store@.posts.to_multiset() && sorted_desc(
                full,
                SortColumn::Likes,
            ) && post_views(r@) == full.take(r@.len() as int),
{
    let mut all: Vec<Post> = Vec::new();
    let ghost posts = store@.posts;
    let mut i: usize = 0;
    assert(post_views(all@) =~= posts.take(0));
    while i < store.posts.len()
        invariant
            store.wf(),
            posts == store@.posts,
            i <= store.posts@.len(),
            posts.len() == store.posts@.len(),
            post_views(all@) == posts.take(i as int),
        decreases store.posts@.len() - i,
    {
        let ghost before = post_views(all@);
        let d = store.posts[i].duplicate();
        all.push(d);
        proof {
            assert(post_views(all@) =~= before.push(d@));
            assert(d@ == posts[i as int]);
            assert(before.push(d@) =~= posts.take(i + 1));
        }
        i = i + 1;
    }
    assert(posts.take(posts.len() as int) =~= posts);
    let mut sorted = sort_posts_desc(all, SortColumn::Likes);
    let ghost full = post_views(sorted@);
    if k < sorted.len() {
        sorted.truncate(k);
    }
    proof {
        assert(post_views(sorted@) =~= full.take(sorted@.len() as int));
        assert(full.to_multiset() == store@.posts.to_multiset() && sorted_desc(
            full,
            SortColumn::Likes,
        ) && post_views(sorted@) == full.take(sorted@.len() as int));
        assert forall|a: int, b: int|
            0 <= a < b < post_views(sorted@).len() implies sort_key_of(
            #[trigger] post_views(sorted@)[a],
            SortColumn::Likes,
        ) >= sort_key_of(#[trigger] post_views(sorted@)[b], SortColumn::Likes) by {
            assert(post_views(sorted@)[a] == full[a]);
            assert(post_views(sorted@)[b] == full[b]);
        }
    }
    sorted
}

/// The sum of like counts over rows.
pub open spec fn sum_likes(s: Seq<PostView>) -> int
    decreases s.len(),
{
    if s.len() == 0 {
        0
    } else {
        sum_likes(s.drop_last()) + s.last().likes
    }
}

/// The greatest post index over rows; below zero on no rows.
pub open spec fn max_post_index(s: Seq<PostView>) -> int
    decreases s.len(),
{
    if s.len() == 0 {
        -1
    } else {
        let m = max_post_index(s.drop_last());
        if s.last().post_index as int > m {
            s.last().post_index as int
        } else {
            m
        }
    }
}

/// Read-time aggregate over one author's posts; not a stored row.
#[derive(Clone, Debug, PartialEq, Eq)]
pub struct UserStats {
    /// 32-byte public key of the author.
    pub user_address: Vec<u8>,
    /// Sum of like counts, saturating at the integer's range.
    pub total_likes: u64,
    pub total_posts: u64,
    pub latest_post_index: Option<u64>,
}

/// Aggregate stats over this author's posts: their count, the sum of their
/// likes and the greatest post index; nothing when the author has no posts.
pub fn fetch_user_stats(store: &Store, user: &[u8]) -> (r: Option<UserStats>)
    requires
        store.wf(),
    ensures
        ({
            let q = by_author(store@.posts, user@);
            match r {
                None => q.len() == 0,
                Some(st) => {
                    &&& q.len() > 0
                    &&& st.user_address@ == user@
                    &&& st.total_posts as int == q.len()
                    &&& st.total_likes as int == if sum_likes(q) <= u64::MAX {
                        sum_likes(q)
                    } else {
                        u64::MAX as int
                    }
                    &&& st.latest_post_index is Some
                    &&& st.latest_post_index.unwrap() as int == max_post_index(q)
                },
            }
        }),
{
    let ghost posts = store@.posts;
    let mut count: u64 = 0;
    let mut likes: u64 = 0;
    let mut latest: Option<u64> = None;
    let mut i: usize = 0;
    proof {
        reveal_with_fuel(Seq::<PostView>::filter, 2);
        assert(posts.take(0) =~= Seq::<PostView>::empty());
    }
    while i < store.posts.len()
        invariant
            store.wf(),
            posts == store@.posts,
            i <= store.posts@.len(),
            posts.len() == store.posts@.len(),
            count as int == by_author(posts.take(i as int), user@).len(),
            likes as int == ({
                let s = sum_likes(by_author(posts.take(i as int), user@));
                if s <= u64::MAX {
                    s
                } else {
                    u64::MAX as int
                }
            }),
            match latest {
                None => by_author(posts.take(i as int), user@).len() == 0,
                Some(m) => by_author(posts.take(i as int), user@).len() > 0 && m as int
                    == max_post_index(by_author(posts.take(i as int), user@)),
            },
        decreases store.posts@.len() - i,
    {
        proof {
            reveal_with_fuel(Seq::<PostView>::filter, 2);
            assert(posts.take(i + 1).drop_last() =~= posts.take(i as int));
            assert(posts.take(i + 1).last() == posts[i as int]);
        }
        let ghost q0 = by_author(posts.take(i as int), user@);
        if bytes_eq(store.posts[i].user_address.as_slice(), user) {
            let ghost q1 = by_author(posts.take(i + 1), user@);
            proof {
                reveal_with_fuel(Seq::<PostView>::filter, 2);
                assert(q1 == q0.push(posts[i as int]));
                assert(q1.drop_last() =~= q0);
                assert(q1.last() == posts[i as int]);
                assert(sum_likes(q1) == sum_likes(q0) + posts[i as int].likes);
                assert(max_post_index(q1) == if posts[i as int].post_index as int > max_post_index(
                    q0,
                ) {
                    posts[i as int].post_index as int
                } else {
                    max_post_index(q0)
                });
            }
            let row_likes = store.posts[i].likes;
            let row_index = store.posts[i].post_index;
            count = count + 1;
            likes = if likes > u64::MAX - row_likes {
                u64::MAX
            } else {
                likes + row_likes
            };
            proof {
                lemma_sum_likes_nonneg(q0);
            }
            latest = match latest {
                None => Some(row_index),
                Some(m) => if row_index > m {
                    Some(row_index)
                } else {
                    Some(m)
                },
            };
        } else {
            proof {
                reveal_with_fuel(Seq::<PostView>::filter, 2);
                assert(by_author(posts.take(i + 1), user@) == q0);
            }
        }
        i = i + 1;
    }
    assert(posts.take(posts.len() as int) =~= posts);
    match latest {
        None => None,
        Some(m) => {
            let mut user_address: Vec<u8> = Vec::new();
            crate::events::extend_bytes(&mut user_address, user);
            assert(user_address@ =~= user@);
            Some(
                UserStats {
                    user_address,
                    total_likes: likes,
                    total_posts: count,
                    latest_post_index: Some(m),
                },
            )
        },
    }
}

/// The sum of like counts is never negative.
proof fn lemma_sum_likes_nonneg(s: Seq<PostView>)
    ensures
        sum_likes(s) >= 0,
    decreases s.len(),
{
    if s.len() > 0 {
        lemma_sum_likes_nonneg(s.drop_last());
    }
}

/// Every post above the trending like threshold, most liked first.
pub fn fetch_trending_posts(store: &Store) -> (r: Vec<Post>)
    requires
        store.wf(),
    ensures
        sorted_desc(post_views(r@), SortColumn::Likes),
        post_views(r@).to_multiset() == trending(store@.posts).to_multiset(),
        forall|i: int| 0 <= i < r@.len() ==> (#[trigger] post_views(r@)[i]).likes
            > TRENDING_LIKES_THRESHOLD,
{
    let ghost posts = store@.posts;
    let mut collected: Vec<Post> = Vec::new();
    let mut i: usize = 0;
    proof {
        reveal_with_fuel(Seq::<PostView>::filter, 2);
        assert(posts.take(0) =~= Seq::<PostView>::empty());
        assert(post_views(collected@) =~= trending(posts.take(0)));
    }
    while i < store.posts.len()
        invariant
            store.wf(),
            posts == store@.posts,
            i <= store.posts@.len(),
            posts.len() == store.posts@.len(),
            post_views(collected@) == trending(posts.take(i as int)),
        decreases store.posts@.len() - i,
    {
        proof {
            reveal_with_fuel(Seq::<PostView>::filter, 2);
            assert(posts.take(i + 1).drop_last() =~= posts.take(i as int));
            assert(posts.take(i + 1).last() == posts[i as int]);
        }
        let ghost before = post_views(collected@);
        if store.posts[i].likes > TRENDING_LIKES_THRESHOLD {
            let d = store.posts[i].duplicate();
            collected.push(d);
            proof {
                reveal_with_fuel(Seq::<PostView>::filter, 2);
                assert(post_views(collected@) =~= before.push(d@));
                assert(d@ == posts[i as int]);
                assert(trending(posts.take(i + 1)) == trending(posts.take(i as int)).push(
                    posts[i as int],
                ));
                assert(post_views(collected@) == trending(posts.take(i + 1)));
            }
        } else {
            proof {
                reveal_with_fuel(Seq::<PostView>::filter, 2);
                assert(trending(posts.take(i + 1)) == trending(posts.take(i as int)));
            }
        }
        i = i + 1;
    }
    assert(posts.take(posts.len() as int) =~= posts);
    let r = sort_posts_desc(collected, SortColumn::Likes);
    proof {
        broadcast use vstd::seq_lib::group_to_multiset_ensures;

        let q = trending(posts);
        assert forall|j: int|
            0 <= j < r@.len() implies (#[trigger] post_views(r@)[j]).likes
            > TRENDING_LIKES_THRESHOLD by {
            let e = post_views(r@)[j];
            assert(post_views(r@).contains(e));
            assert(post_views(r@).to_multiset().count(e) > 0);
            assert(q.to_multiset().count(e) > 0);
            assert(q.contains(e));
            let idx = choose|idx: int| 0 <= idx < q.len() && q[idx] == e;
            posts.lemma_filter_pred(|p: PostView| p.likes > TRENDING_LIKES_THRESHOLD, idx);
        }
    }
    r
}

} // verus!
