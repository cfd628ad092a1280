//! Relational store model: the rows the dispatcher maintains and the
//! idempotence-minded apply operations for each event variant.
//!
//! Rows live in two tables. `users` is keyed by address; `posts` is keyed by
//! `(user_address, post_index)`. Applying an event either changes exactly the
//! row the event names, or fails and leaves the store untouched.

use crate::events::{PostCreated, PostCreatedView, PostLiked, PostLikedView, UserCreated,
    UserCreatedView};
use crate::registry::bytes_eq;
use vstd::prelude::*;

verus! {

/// A row of the `users` table.
#[derive(Clone, Debug, PartialEq, Eq)]
pub struct User {
    /// 32-byte public key, the natural key of the table.
    pub address: Vec<u8>,
    pub post_count: u64,
}

/// A row of the `posts` table.
#[derive(Clone, Debug, PartialEq, Eq)]
pub struct Post {
    /// 32-byte public key of the author; with `post_index` the natural key.
    pub user_address: Vec<u8>,
    pub post_index: u64,
    /// UTF-8 bytes of the title.
    pub title: Vec<u8>,
    /// UTF-8 bytes of the content.
    pub content: Vec<u8>,
    pub likes: u64,
    /// Ingestion-time wall clock, seconds.
    pub created_at: i64,
}

/// Mathematical image of a `users` row.
pub struct UserView {
    pub address: Seq<u8>,
    pub post_count: u64,
}

/// Mathematical image of a `posts` row.
pub struct PostView {
    pub user_address: Seq<u8>,
    pub post_index: u64,
    pub title: Seq<u8>,
    pub content: Seq<u8>,
    pub likes: u64,
    pub created_at: i64,
}

impl View for User {
    type V = UserView;

    open spec fn view(&self) -> UserView {
        UserView { address: self.address@, post_count: self.post_count }
    }
}

impl View for Post {
    type V = PostView;

    open spec fn view(&self) -> PostView {
        PostView {
            user_address: self.user_address@,
            post_index: self.post_index,
            title: self.title@,
            content: self.content@,
            likes: self.likes,
            created_at: self.created_at,
        }
    }
}

impl Post {
    /// A copy of the row that provably carries the same values.
    pub fn duplicate(&self) -> (r: Post)
        ensures
            r@ == self@,
    {
        let mut user_address: Vec<u8> = Vec::new();
        crate::events::extend_bytes(&mut user_address, self.user_address.as_slice());
        let mut title: Vec<u8> = Vec::new();
        crate::events::extend_bytes(&mut title, self.title.as_slice());
        let mut content: Vec<u8> = Vec::new();
        crate::events::extend_bytes(&mut content, self.content.as_slice());
        assert(user_address@ =~= self@.user_address);
        assert(title@ =~= self@.title);
        assert(content@ =~= self@.content);
        Post {
            user_address,
            post_index: self.post_index,
            title,
            content,
            likes: self.likes,
            created_at: self.created_at,
        }
    }
}

/// A persistence failure applying one event; the event's effect is lost and
/// the store is unchanged.
#[derive(Clone, Copy, Debug, PartialEq, Eq, Structural)]
pub enum StoreWriteError {
    /// A `users` row already exists for the address.
    DuplicateUser,
    /// A `posts` row already exists for the (author, index) pair.
    DuplicatePost,
    /// No `posts` row exists for the (author, index) pair a like names.
    MissingPost,
}

/// Mathematical image of the whole store.
pub struct StoreView {
    pub users: Seq<UserView>,
    pub posts: Seq<PostView>,
}

/// Whether a `users` row carries this address.
pub open spec fn user_matches(u: UserView, addr: Seq<u8>) -> bool {
    u.address == addr
}

/// Whether a `posts` row carries this (author, index) key.
pub open spec fn post_matches(p: PostView, addr: Seq<u8>, idx: u64) -> bool {
    p.user_address == addr && p.post_index == idx
}

/// Whether some `users` row carries this address.
pub open spec fn has_user(s: StoreView, addr: Seq<u8>) -> bool {
    exists|i: int| 0 <= i < s.users.len() && #[trigger] user_matches(s.users[i], addr)
}

/// Whether some `posts` row carries this (author, index) key.
pub open spec fn has_post(s: StoreView, addr: Seq<u8>, idx: u64) -> bool {
    exists|i: int| 0 <= i < s.posts.len() && #[trigger] post_matches(s.posts[i], addr, idx)
}

/// The index of the `posts` row carrying this key; meaningful when
/// `has_post` holds and the store is well formed.
pub open spec fn post_row_index(s: StoreView, addr: Seq<u8>, idx: u64) -> int {
    choose|i: int| 0 <= i < s.posts.len() && #[trigger] post_matches(s.posts[i], addr, idx)
}

impl StoreView {
    /// Natural keys are unique and addresses have their fixed length.
    pub open spec fn wf(self) -> bool {
        &&& forall|i: int, j: int|
            0 <= i < j < self.users.len() ==> (#[trigger] self.users[i]).address
                != (#[trigger] self.users[j]).address
        &&& forall|i: int, j: int|
            0 <= i < j < self.posts.len() ==> !(((#[trigger] self.posts[i]).user_address
                == (#[trigger] self.posts[j]).user_address) && self.posts[i].post_index
                == self.posts[j].post_index)
        &&& forall|i: int| 0 <= i < self.users.len() ==> (#[trigger] self.users[i]).address.len()
            == 32
        &&& forall|i: int|
            0 <= i < self.posts.len() ==> (#[trigger] self.posts[i]).user_address.len() == 32
    }
}

/// What applying `UserCreated` does: inserts the user's row with a zero post
/// count, or fails on a duplicate address and changes nothing.
pub open spec fn apply_user_created_spec(s: StoreView, ev: UserCreatedView) -> (StoreView, Result<
    (),
    StoreWriteError,
>) {
    if has_user(s, ev.user) {
        (s, Err(StoreWriteError::DuplicateUser))
    } else {
        (
            StoreView {
                users: s.users.push(UserView { address: ev.user, post_count: 0 }),
                posts: s.posts,
            },
            Ok(()),
        )
    }
}

/// What applying `PostCreated` does: inserts the post's row with zero likes
/// and the ingestion timestamp, or fails on a duplicate key and changes
/// nothing.
pub open spec fn apply_post_created_spec(s: StoreView, ev: PostCreatedView, now: i64) -> (
    StoreView,
    Result<(), StoreWriteError>,
) {
    if has_post(s, ev.author, ev.post_index) {
        (s, Err(StoreWriteError::DuplicatePost))
    } else {
        (
            StoreView {
                users: s.users,
                posts: s.posts.push(
                    PostView {
                        user_address: ev.author,
                        post_index: ev.post_index,
                        title: ev.title,
                        content: ev.content,
                        likes: 0,
                        created_at: now,
                    },
                ),
            },
            Ok(()),
        )
    }
}

/// What applying `PostLiked` does: overwrites the named row's like count with
/// the event's authoritative total, or fails when the row is absent and
/// changes nothing.
pub open spec fn apply_post_liked_spec(s: StoreView, ev: PostLikedView) -> (StoreView, Result<
    (),
    StoreWriteError,
>) {
    if has_post(s, ev.author, ev.post_index) {
        let i = post_row_index(s, ev.author, ev.post_index);
        let row = s.posts[i];
        (
            StoreView {
                users: s.users,
                posts: s.posts.update(i, PostView { likes: ev.total_likes, ..row }),
            },
            Ok(()),
        )
    } else {
        (s, Err(StoreWriteError::MissingPost))
    }
}

/// The store: in-memory image of the two tables.
pub struct Store {
    pub users: Vec<User>,
    pub posts: Vec<Post>,
}

impl View for Store {
    type V = StoreView;

    open spec fn view(&self) -> StoreView {
        StoreView {
            users: self.users@.map_values(|u: User| u@),
            posts: self.posts@.map_values(|p: Post| p@),
        }
    }
}

impl Store {
    pub open spec fn wf(self) -> bool {
        self@.wf()
    }

    /// An empty store.
    pub fn new() -> (r: Store)
        ensures
            r.wf(),
            r@.users == Seq::<UserView>::empty(),
            r@.posts == Seq::<PostView>::empty(),
    {
        let r = Store { users: Vec::new(), posts: Vec::new() };
        assert(r@.users =~= Seq::<UserView>::empty());
        assert(r@.posts =~= Seq::<PostView>::empty());
        r
    }

    /// The index of the `users` row for this address, if one exists.
    fn find_user(&self, addr: &[u8]) -> (r: Option<usize>)
        ensures
            match r {
                Some(i) => 0 <= i < self@.users.len() && user_matches(self@.users[i as int], addr@),
                None => !has_user(self@, addr@),
            },
    {
        let mut i: usize = 0;
        while i < self.users.len()
            invariant
                i <= self.users@.len(),
                self@.users.len() == self.users@.len(),
                forall|k: int| 0 <= k < i ==> !user_matches(self@.users[k], addr@),
            decreases self.users@.len() - i,
        {
            if bytes_eq(self.users[i].address.as_slice(), addr) {
                assert(user_matches(self@.users[i as int], addr@));
                return Some(i);
            }
            i = i + 1;
        }
        None
    }

    /// The index of the `posts` row for this (author, index) key, if one
    /// exists.
    fn find_post(&self, addr: &[u8], idx: u64) -> (r: Option<usize>)
        ensures
            match r {
                Some(i) => 0 <= i < self@.posts.len() && post_matches(
                    self@.posts[i as int],
                    addr@,
                    idx,
                ),
                None => !has_post(self@, addr@, idx),
            },
    {
        let mut i: usize = 0;
        while i < self.posts.len()
            invariant
                i <= self.posts@.len(),
                self@.posts.len() == self.posts@.len(),
                forall|k: int| 0 <= k < i ==> !post_matches(self@.posts[k], addr@, idx),
            decreases self.posts@.len() - i,
        {
            if bytes_eq(self.posts[i].user_address.as_slice(), addr) && self.posts[i].post_index
                == idx {
                assert(post_matches(self@.posts[i as int], addr@, idx));
                return Some(i);
            }
            i = i + 1;
        }
        None
    }

    /// Applies `UserCreated`: one new `users` row with `post_count` zero, or
    /// `DuplicateUser` and no change.
    pub fn create_new_user(&mut self, ev: &UserCreated) -> (r: Result<(), StoreWriteError>)
        requires
            old(self).wf(),
            ev@.wf(),
        ensures
            final(self).wf(),
            (final(self)@, r) == apply_user_created_spec(old(self)@, ev@),
    {
        match self.find_user(ev.user.as_slice()) {
            Some(_) => Err(StoreWriteError::DuplicateUser),
            None => {
                let mut address: Vec<u8> = Vec::new();
                crate::events::extend_bytes(&mut address, ev.user.as_slice());
                assert(address@ =~= ev@.user);
                self.users.push(User { address, post_count: 0 });
                assert(self@.users =~= old(self)@.users.push(
                    UserView { address: ev@.user, post_count: 0 },
                ));
                assert(self@.posts =~= old(self)@.posts);
                proof {
                    let su = self@.users;
                    let ou = old(self)@.users;
                    assert forall|i: int, j: int|
                        0 <= i < j < su.len() implies su[i].address != su[j].address by {
                        if j == ou.len() {
                            assert(!user_matches(ou[i], ev@.user));
                        }
                    }
                }
                Ok(())
            },
        }
    }

    /// Applies `PostCreated`: one new `posts` row with zero likes and the
    /// given ingestion timestamp, or `DuplicatePost` and no change.
    pub fn create_new_post(&mut self, ev: &PostCreated, now: i64) -> (r: Result<
        (),
        StoreWriteError,
    >)
        requires
            old(self).wf(),
            ev@.wf(),
        ensures
            final(self).wf(),
            (final(self)@, r) == apply_post_created_spec(old(self)@, ev@, now),
    {
        match self.find_post(ev.author.as_slice(), ev.post_index) {
            Some(_) => Err(StoreWriteError::DuplicatePost),
            None => {
                let mut user_address: Vec<u8> = Vec::new();
                crate::events::extend_bytes(&mut user_address, ev.author.as_slice());
                assert(user_address@ =~= ev@.author);
                let mut title: Vec<u8> = Vec::new();
                crate::events::extend_bytes(&mut title, ev.title.as_slice());
                assert(title@ =~= ev@.title);
                let mut content: Vec<u8> = Vec::new();
                crate::events::extend_bytes(&mut content, ev.content.as_slice());
                assert(content@ =~= ev@.content);
                self.posts.push(
                    Post {
                        user_address,
                        post_index: ev.post_index,
                        title,
                        content,
                        likes: 0,
                        created_at: now,
                    },
                );
                assert(self@.posts =~= old(self)@.posts.push(
                    PostView {
                        user_address: ev@.author,
                        post_index: ev@.post_index,
                        title: ev@.title,
                        content: ev@.content,
                        likes: 0,
                        created_at: now,
                    },
                ));
                assert(self@.users =~= old(self)@.users);
                proof {
                    let sp = self@.posts;
                    let op = old(self)@.posts;
                    assert forall|i: int, j: int|
                        0 <= i < j < sp.len() implies !((sp[i].user_address == sp[j].user_address)
                        && sp[i].post_index == sp[j].post_index) by {
                        if j == op.len() {
                            assert(!post_matches(op[i], ev@.author, ev@.post_index));
                        }
                    }
                }
                Ok(())
            },
        }
    }

    /// Applies `PostLiked`: overwrites the named row's `likes` with the
    /// event's total, or `MissingPost` and no change.
    pub fn like_post(&mut self, ev: &PostLiked) -> (r: Result<(), StoreWriteError>)
        requires
            old(self).wf(),
            ev@.wf(),
        ensures
            final(self).wf(),
            (final(self)@, r) == apply_post_liked_spec(old(self)@, ev@),
    {
        match self.find_post(ev.author.as_slice(), ev.post_index) {
            None => Err(StoreWriteError::MissingPost),
            Some(i) => {
                let ghost c = post_row_index(old(self)@, ev@.author, ev@.post_index);
                proof {
                    assert(has_post(old(self)@, ev@.author, ev@.post_index));
                    assert(0 <= c < old(self)@.posts.len() && post_matches(
                        old(self)@.posts[c],
                        ev@.author,
                        ev@.post_index,
                    ));
                    if c != i {
                        assert(false);
                    }
                }
                let mut user_address: Vec<u8> = Vec::new();
                crate::events::extend_bytes(&mut user_address, self.posts[i].user_address.as_slice());
                let mut title: Vec<u8> = Vec::new();
                crate::events::extend_bytes(&mut title, self.posts[i].title.as_slice());
                let mut content: Vec<u8> = Vec::new();
                crate::events::extend_bytes(&mut content, self.posts[i].content.as_slice());
                let row = Post {
                    user_address,
                    post_index: self.posts[i].post_index,
                    title,
                    content,
                    likes: ev.total_likes,
                    created_at: self.posts[i].created_at,
                };
                self.posts.set(i, row);
                assert(self@.posts =~= old(self)@.posts.update(
                    c,
                    PostView { likes: ev@.total_likes, ..old(self)@.posts[c] },
                ));
                assert(self@.users =~= old(self)@.users);
                Ok(())
            },
        }
    }

    /// The `users` row for this address, if one exists; by well-formedness it
    /// is the only one.
    pub fn get_user(&self, addr: &[u8]) -> (r: Option<&User>)
        requires
            self.wf(),
        ensures
            match r {
                Some(u) => has_user(self@, addr@) && user_matches(u@, addr@) && (exists|i: int|
                    0 <= i < self@.users.len() && self@.users[i] == u@),
                None => !has_user(self@, addr@),
            },
    {
        match self.find_user(addr) {
            Some(i) => Some(&self.users[i]),
            None => None,
        }
    }
}

} // verus!
