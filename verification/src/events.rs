//! Event variants carried by the log stream, and their strict binary layout.
//!
//! Every field is encoded with a deterministic layout: fixed-width integers
//! little-endian, 32-byte public keys as raw bytes, and strings as a 4-byte
//! little-endian length prefix followed by their raw UTF-8 bytes.

use vstd::bytes::{spec_u32_to_le_bytes, spec_u64_to_le_bytes, u32_to_le_bytes, u64_to_le_bytes};
use vstd::prelude::*;
use vstd::utf8::valid_utf8;

verus! {

/// Length in bytes of a public key.
pub const PUBKEY_LEN: usize = 32;

/// A new user account was created on the ledger.
#[derive(Clone, Debug, PartialEq, Eq)]
pub struct UserCreated {
    /// 32-byte public key of the new user.
    pub user: Vec<u8>,
    pub post_count: u64,
}

/// A post was created by an author.
#[derive(Clone, Debug, PartialEq, Eq)]
pub struct PostCreated {
    /// 32-byte public key of the author.
    pub author: Vec<u8>,
    pub post_index: u64,
    /// UTF-8 bytes of the title.
    pub title: Vec<u8>,
    /// UTF-8 bytes of the content.
    pub content: Vec<u8>,
}

/// A post received a like; carries the authoritative like total.
#[derive(Clone, Debug, PartialEq, Eq)]
pub struct PostLiked {
    /// 32-byte public key of the liker.
    pub liker: Vec<u8>,
    /// 32-byte public key of the post's author.
    pub author: Vec<u8>,
    pub post_index: u64,
    pub total_likes: u64,
}

/// One raw frame extracted from a single log line: an 8-byte discriminator
/// tag and the remaining payload bytes.
#[derive(Clone, Debug, PartialEq, Eq)]
pub struct Event {
    pub discriminator: Vec<u8>,
    pub data: Vec<u8>,
}

/// A decoded event: one of the known variants.
#[derive(Clone, Debug, PartialEq, Eq)]
pub enum BlogEvent {
    UserCreated(UserCreated),
    PostCreated(PostCreated),
    PostLiked(PostLiked),
}

/// Mathematical image of `UserCreated`.
pub struct UserCreatedView {
    pub user: Seq<u8>,
    pub post_count: u64,
}

/// Mathematical image of `PostCreated`.
pub struct PostCreatedView {
    pub author: Seq<u8>,
    pub post_index: u64,
    pub title: Seq<u8>,
    pub content: Seq<u8>,
}

/// Mathematical image of `PostLiked`.
pub struct PostLikedView {
    pub liker: Seq<u8>,
    pub author: Seq<u8>,
    pub post_index: u64,
    pub total_likes: u64,
}

/// Mathematical image of a raw frame.
pub struct FrameView {
    pub discriminator: Seq<u8>,
    pub data: Seq<u8>,
}

/// Mathematical image of a decoded event.
pub enum EventView {
    UserCreated(UserCreatedView),
    PostCreated(PostCreatedView),
    PostLiked(PostLikedView),
}

impl View for UserCreated {
    type V = UserCreatedView;

    open spec fn view(&self) -> UserCreatedView {
        UserCreatedView { user: self.user@, post_count: self.post_count }
    }
}

impl View for PostCreated {
    type V = PostCreatedView;

    open spec fn view(&self) -> PostCreatedView {
        PostCreatedView {
            author: self.author@,
            post_index: self.post_index,
            title: self.title@,
            content: self.content@,
        }
    }
}

impl View for PostLiked {
    type V = PostLikedView;

    open spec fn view(&self) -> PostLikedView {
        PostLikedView {
            liker: self.liker@,
            author: self.author@,
            post_index: self.post_index,
            total_likes: self.total_likes,
        }
    }
}

impl View for Event {
    type V = FrameView;

    open spec fn view(&self) -> FrameView {
        FrameView { discriminator: self.discriminator@, data: self.data@ }
    }
}

impl View for BlogEvent {
    type V = EventView;

    open spec fn view(&self) -> EventView {
        match self {
            BlogEvent::UserCreated(ev) => EventView::UserCreated(ev@),
            BlogEvent::PostCreated(ev) => EventView::PostCreated(ev@),
            BlogEvent::PostLiked(ev) => EventView::PostLiked(ev@),
        }
    }
}

impl UserCreatedView {
    /// The key has its fixed length.
    pub open spec fn wf(self) -> bool {
        self.user.len() == PUBKEY_LEN
    }
}

impl PostCreatedView {
    /// The key has its fixed length; title and content are valid UTF-8 and
    /// short enough for their 4-byte length prefix.
    pub open spec fn wf(self) -> bool {
        &&& self.author.len() == PUBKEY_LEN
        &&& self.title.len() <= u32::MAX
        &&& self.content.len() <= u32::MAX
        &&& valid_utf8(self.title)
        &&& valid_utf8(self.content)
    }
}

impl PostLikedView {
    /// Both keys have their fixed length.
    pub open spec fn wf(self) -> bool {
        &&& self.liker.len() == PUBKEY_LEN
        &&& self.author.len() == PUBKEY_LEN
    }
}

impl FrameView {
    /// The discriminator has its fixed length.
    pub open spec fn wf(self) -> bool {
        self.discriminator.len() == 8
    }
}

impl EventView {
    pub open spec fn wf(self) -> bool {
        match self {
            EventView::UserCreated(ev) => ev.wf(),
            EventView::PostCreated(ev) => ev.wf(),
            EventView::PostLiked(ev) => ev.wf(),
        }
    }
}

impl Event {
    /// A copy of the frame that provably carries the same bytes.
    pub fn duplicate(&self) -> (r: Event)
        ensures
            r@ == self@,
    {
        let mut discriminator: Vec<u8> = Vec::new();
        extend_bytes(&mut discriminator, self.discriminator.as_slice());
        let mut data: Vec<u8> = Vec::new();
        extend_bytes(&mut data, self.data.as_slice());
        assert(discriminator@ =~= self@.discriminator);
        assert(data@ =~= self@.data);
        Event { discriminator, data }
    }
}

/// The binary layout of `UserCreated`: key, then the count.
pub open spec fn encode_user_created(ev: UserCreatedView) -> Seq<u8> {
    ev.user + spec_u64_to_le_bytes(ev.post_count)
}

/// A length-prefixed byte string: 4-byte little-endian length, then the
/// bytes.
pub open spec fn encode_len_prefixed(b: Seq<u8>) -> Seq<u8>
    recommends
        b.len() <= u32::MAX,
{
    spec_u32_to_le_bytes(b.len() as u32) + b
}

/// The binary layout of `PostCreated`: key, index, then the two
/// length-prefixed strings.
pub open spec fn encode_post_created(ev: PostCreatedView) -> Seq<u8> {
    ev.author + spec_u64_to_le_bytes(ev.post_index) + encode_len_prefixed(ev.title)
        + encode_len_prefixed(ev.content)
}

/// The binary layout of `PostLiked`: the two keys, then the two counters.
pub open spec fn encode_post_liked(ev: PostLikedView) -> Seq<u8> {
    ev.liker + ev.author + spec_u64_to_le_bytes(ev.post_index) + spec_u64_to_le_bytes(
        ev.total_likes,
    )
}

/// Appends all of `src` to `dst`.
pub fn extend_bytes(dst: &mut Vec<u8>, src: &[u8])
    ensures
        final(dst)@ == old(dst)@ + src@,
{
    let mut i: usize = 0;
    while i < src.len()
        invariant
            i <= src@.len(),
            dst@ == old(dst)@ + src@.take(i as int),
        decreases src@.len() - i,
    {
        dst.push(src[i]);
        i = i + 1;
        assert(old(dst)@ + src@.take(i - 1) + seq![src@[i - 1]] =~= old(dst)@ + src@.take(
            i as int,
        ));
    }
    assert(old(dst)@ + src@.take(src@.len() as int) =~= old(dst)@ + src@);
}

/// Serializes a `UserCreated` payload.
pub fn encode_user_created_bytes(ev: &UserCreated) -> (r: Vec<u8>)
    ensures
        r@ == encode_user_created(ev@),
{
    let mut out: Vec<u8> = Vec::new();
    extend_bytes(&mut out, ev.user.as_slice());
    let count = u64_to_le_bytes(ev.post_count);
    extend_bytes(&mut out, count.as_slice());
    assert(out@ =~= encode_user_created(ev@));
    out
}

/// Serializes a length-prefixed byte string.
pub fn encode_len_prefixed_bytes(b: &[u8]) -> (r: Vec<u8>)
    requires
        b@.len() <= u32::MAX,
    ensures
        r@ == encode_len_prefixed(b@),
{
    let mut out: Vec<u8> = Vec::new();
    let len_bytes = u32_to_le_bytes(b.len() as u32);
    extend_bytes(&mut out, len_bytes.as_slice());
    extend_bytes(&mut out, b);
    assert(out@ =~= encode_len_prefixed(b@));
    out
}

/// Serializes a `PostCreated` payload.
pub fn encode_post_created_bytes(ev: &PostCreated) -> (r: Vec<u8>)
    requires
        ev@.title.len() <= u32::MAX,
        ev@.content.len() <= u32::MAX,
    ensures
        r@ == encode_post_created(ev@),
{
    let mut out: Vec<u8> = Vec::new();
    extend_bytes(&mut out, ev.author.as_slice());
    let index = u64_to_le_bytes(ev.post_index);
    extend_bytes(&mut out, index.as_slice());
    let title = encode_len_prefixed_bytes(ev.title.as_slice());
    extend_bytes(&mut out, title.as_slice());
    let content = encode_len_prefixed_bytes(ev.content.as_slice());
    extend_bytes(&mut out, content.as_slice());
    assert(out@ =~= encode_post_created(ev@));
    out
}

/// Serializes a `PostLiked` payload.
pub fn encode_post_liked_bytes(ev: &PostLiked) -> (r: Vec<u8>)
    ensures
        r@ == encode_post_liked(ev@),
{
    let mut out: Vec<u8> = Vec::new();
    extend_bytes(&mut out, ev.liker.as_slice());
    extend_bytes(&mut out, ev.author.as_slice());
    let index = u64_to_le_bytes(ev.post_index);
    extend_bytes(&mut out, index.as_slice());
    let likes = u64_to_le_bytes(ev.total_likes);
    extend_bytes(&mut out, likes.as_slice());
    assert(out@ =~= encode_post_liked(ev@));
    out
}

} // verus!
