//! Binary event decoder: strict decoding of a tagged payload into one of the
//! known event variants.
//!
//! Decoding is total and explicit: an unknown tag is reported as
//! `UnknownVariant`, and any truncation, bad length prefix, trailing bytes or
//! invalid UTF-8 under a known tag is reported as `Malformed` with its cause.

use crate::events::{
    BlogEvent, EventView, PostCreated, PostCreatedView, PostLiked, PostLikedView, UserCreated,
    UserCreatedView, encode_post_created, encode_post_liked,
    encode_user_created,
};
use crate::registry::{
    Registry, bytes_eq, known_tag_set, post_created_tag, post_liked_tag, tags_distinct,
    user_created_tag,
};
use vstd::bytes::{
    spec_u32_from_le_bytes, spec_u64_from_le_bytes, u32_from_le_bytes, u64_from_le_bytes,
};
use vstd::prelude::*;
use vstd::slice::{slice_subrange, slice_to_vec};
use vstd::utf8::valid_utf8;

verus! {

/// The known event variants, by name.
#[derive(Clone, Copy, Debug, PartialEq, Eq, Structural)]
pub enum EventKind {
    UserCreated,
    PostCreated,
    PostLiked,
}

/// Why a payload under a known tag failed to decode.
#[derive(Clone, Copy, Debug, PartialEq, Eq, Structural)]
pub enum MalformedCause {
    /// The payload ends before a field does.
    Truncated,
    /// Bytes remain after the last field.
    TrailingData,
    /// A string field is not valid UTF-8.
    InvalidUtf8,
}

/// A decode failure: either the tag is not known, or the payload does not
/// match the variant's layout.
#[derive(Clone, Copy, Debug, PartialEq, Eq, Structural)]
pub enum DecodeError {
    UnknownVariant,
    Malformed(EventKind, MalformedCause),
}

/// Relies on str::from_utf8: it returns `Ok` exactly when the bytes are
/// valid UTF-8.
#[verifier::external_body]
fn utf8_check(b: &[u8]) -> (r: bool)
    ensures
        r == valid_utf8(b@),
{
    core::str::from_utf8(b).is_ok()
}

/// Strict decoding of a `UserCreated` payload: a 32-byte key and a
/// little-endian count, and nothing else.
pub open spec fn decode_user_created_spec(p: Seq<u8>) -> Result<UserCreatedView, MalformedCause> {
    if p.len() < 40 {
        Err(MalformedCause::Truncated)
    } else if p.len() > 40 {
        Err(MalformedCause::TrailingData)
    } else {
        Ok(
            UserCreatedView {
                user: p.take(32),
                post_count: spec_u64_from_le_bytes(p.subrange(32, 40)),
            },
        )
    }
}

/// Strict decoding of a `PostCreated` payload: a 32-byte key, a little-endian
/// index, then two length-prefixed UTF-8 strings, and nothing else.
pub open spec fn decode_post_created_spec(p: Seq<u8>) -> Result<PostCreatedView, MalformedCause> {
    if p.len() < 44 {
        Err(MalformedCause::Truncated)
    } else {
        let tlen = spec_u32_from_le_bytes(p.subrange(40, 44)) as int;
        if p.len() < 44 + tlen {
            Err(MalformedCause::Truncated)
        } else {
            let title = p.subrange(44, 44 + tlen);
            if !valid_utf8(title) {
                Err(MalformedCause::InvalidUtf8)
            } else if p.len() < 48 + tlen {
                Err(MalformedCause::Truncated)
            } else {
                let clen = spec_u32_from_le_bytes(p.subrange(44 + tlen, 48 + tlen)) as int;
                if p.len() < 48 + tlen + clen {
                    Err(MalformedCause::Truncated)
                } else if p.len() > 48 + tlen + clen {
                    Err(MalformedCause::TrailingData)
                } else {
                    let content = p.subrange(48 + tlen, 48 + tlen + clen);
                    if !valid_utf8(content) {
                        Err(MalformedCause::InvalidUtf8)
                    } else {
                        Ok(
                            PostCreatedView {
                                author: p.take(32),
                                post_index: spec_u64_from_le_bytes(p.subrange(32, 40)),
                                title,
                                content,
                            },
                        )
                    }
                }
            }
        }
    }
}

/// Strict decoding of a `PostLiked` payload: two 32-byte keys and two
/// little-endian counters, and nothing else.
pub open spec fn decode_post_liked_spec(p: Seq<u8>) -> Result<PostLikedView, MalformedCause> {
    if p.len() < 80 {
        Err(MalformedCause::Truncated)
    } else if p.len() > 80 {
        Err(MalformedCause::TrailingData)
    } else {
        Ok(
            PostLikedView {
                liker: p.take(32),
                author: p.subrange(32, 64),
                post_index: spec_u64_from_le_bytes(p.subrange(64, 72)),
                total_likes: spec_u64_from_le_bytes(p.subrange(72, 80)),
            },
        )
    }
}

/// What `decode` returns for a tag and a payload: the first known tag equal
/// to `tag` selects the variant layout; any other tag is unknown.
pub open spec fn decode_spec(tag: Seq<u8>, p: Seq<u8>) -> Result<EventView, DecodeError> {
    if tag == user_created_tag() {
        match decode_user_created_spec(p) {
            Ok(v) => Ok(EventView::UserCreated(v)),
            Err(c) => Err(DecodeError::Malformed(EventKind::UserCreated, c)),
        }
    } else if tag == post_created_tag() {
        match decode_post_created_spec(p) {
            Ok(v) => Ok(EventView::PostCreated(v)),
            Err(c) => Err(DecodeError::Malformed(EventKind::PostCreated, c)),
        }
    } else if tag == post_liked_tag() {
        match decode_post_liked_spec(p) {
            Ok(v) => Ok(EventView::PostLiked(v)),
            Err(c) => Err(DecodeError::Malformed(EventKind::PostLiked, c)),
        }
    } else {
        Err(DecodeError::UnknownVariant)
    }
}

/// The image of a decode result, with the decoded event abstracted to its
/// view.
pub open spec fn decode_result_view(r: Result<BlogEvent, DecodeError>) -> Result<
    EventView,
    DecodeError,
> {
    match r {
        Ok(ev) => Ok(ev@),
        Err(e) => Err(e),
    }
}

fn decode_user_created(p: &[u8]) -> (r: Result<UserCreated, MalformedCause>)
    ensures
        match r {
            Ok(ev) => decode_user_created_spec(p@) == Ok::<UserCreatedView, MalformedCause>(ev@),
            Err(c) => decode_user_created_spec(p@) == Err::<UserCreatedView, MalformedCause>(c),
        },
{
    if p.len() < 40 {
        return Err(MalformedCause::Truncated);
    }
    if p.len() > 40 {
        return Err(MalformedCause::TrailingData);
    }
    let user = slice_to_vec(slice_subrange(p, 0, 32));
    let post_count = u64_from_le_bytes(slice_subrange(p, 32, 40));
    assert(p@.subrange(0, 32) =~= p@.take(32));
    Ok(UserCreated { user, post_count })
}

fn decode_post_created(p: &[u8]) -> (r: Result<PostCreated, MalformedCause>)
    ensures
        match r {
            Ok(ev) => decode_post_created_spec(p@) == Ok::<PostCreatedView, MalformedCause>(ev@),
            Err(c) => decode_post_created_spec(p@) == Err::<PostCreatedView, MalformedCause>(c),
        },
{
    if p.len() < 44 {
        return Err(MalformedCause::Truncated);
    }
    let author = slice_to_vec(slice_subrange(p, 0, 32));
    let post_index = u64_from_le_bytes(slice_subrange(p, 32, 40));
    let tlen = u32_from_le_bytes(slice_subrange(p, 40, 44)) as usize;
    if p.len() - 44 < tlen {
        return Err(MalformedCause::Truncated);
    }
    let title = slice_to_vec(slice_subrange(p, 44, 44 + tlen));
    if !utf8_check(title.as_slice()) {
        return Err(MalformedCause::InvalidUtf8);
    }
    if p.len() - 44 - tlen < 4 {
        return Err(MalformedCause::Truncated);
    }
    let clen = u32_from_le_bytes(slice_subrange(p, 44 + tlen, 48 + tlen)) as usize;
    if p.len() - 48 - tlen < clen {
        return Err(MalformedCause::Truncated);
    }
    if p.len() - 48 - tlen > clen {
        return Err(MalformedCause::TrailingData);
    }
    let content = slice_to_vec(slice_subrange(p, 48 + tlen, 48 + tlen + clen));
    if !utf8_check(content.as_slice()) {
        return Err(MalformedCause::InvalidUtf8);
    }
    assert(p@.subrange(0, 32) =~= p@.take(32));
    Ok(PostCreated { author, post_index, title, content })
}

fn decode_post_liked(p: &[u8]) -> (r: Result<PostLiked, MalformedCause>)
    ensures
        match r {
            Ok(ev) => decode_post_liked_spec(p@) == Ok::<PostLikedView, MalformedCause>(ev@),
            Err(c) => decode_post_liked_spec(p@) == Err::<PostLikedView, MalformedCause>(c),
        },
{
    if p.len() < 80 {
        return Err(MalformedCause::Truncated);
    }
    if p.len() > 80 {
        return Err(MalformedCause::TrailingData);
    }
    let liker = slice_to_vec(slice_subrange(p, 0, 32));
    let author = slice_to_vec(slice_subrange(p, 32, 64));
    let post_index = u64_from_le_bytes(slice_subrange(p, 64, 72));
    let total_likes = u64_from_le_bytes(slice_subrange(p, 72, 80));
    assert(p@.subrange(0, 32) =~= p@.take(32));
    Ok(PostLiked { liker, author, post_index, total_likes })
}

/// Decodes a tagged payload. A tag outside the registry's known set is
/// `UnknownVariant` and no field parsing is attempted; a known tag with a
/// payload that fails the variant's strict layout is `Malformed` with its
/// cause.
pub fn decode(reg: &Registry, tag: &[u8], payload: &[u8]) -> (r: Result<BlogEvent, DecodeError>)
    requires
        reg.wf(),
    ensures
        decode_result_view(r) == decode_spec(tag@, payload@),
{
    if bytes_eq(tag, reg.user_created_tag().as_slice()) {
        match decode_user_created(payload) {
            Ok(ev) => Ok(BlogEvent::UserCreated(ev)),
            Err(c) => Err(DecodeError::Malformed(EventKind::UserCreated, c)),
        }
    } else if bytes_eq(tag, reg.post_created_tag().as_slice()) {
        match decode_post_created(payload) {
            Ok(ev) => Ok(BlogEvent::PostCreated(ev)),
            Err(c) => Err(DecodeError::Malformed(EventKind::PostCreated, c)),
        }
    } else if bytes_eq(tag, reg.post_liked_tag().as_slice()) {
        match decode_post_liked(payload) {
            Ok(ev) => Ok(BlogEvent::PostLiked(ev)),
            Err(c) => Err(DecodeError::Malformed(EventKind::PostLiked, c)),
        }
    } else {
        Err(DecodeError::UnknownVariant)
    }
}

/// Encoding a well-formed `UserCreated` and decoding it under its tag
/// reproduces the event, field for field.
pub proof fn lemma_user_created_round_trip(ev: UserCreatedView)
    requires
        ev.wf(),
    ensures
        decode_spec(user_created_tag(), encode_user_created(ev)) == Ok::<EventView, DecodeError>(
            EventView::UserCreated(ev),
        ),
{
    vstd::bytes::lemma_auto_spec_u64_to_from_le_bytes();
    let p = encode_user_created(ev);
    assert(p.len() == 40);
    assert(p.take(32) =~= ev.user);
    assert(p.subrange(32, 40) =~= vstd::bytes::spec_u64_to_le_bytes(ev.post_count));
    assert(decode_user_created_spec(p) == Ok::<UserCreatedView, MalformedCause>(ev));
}

/// Encoding a well-formed `PostCreated` and decoding it under its tag
/// reproduces the event, field for field.
pub proof fn lemma_post_created_round_trip(ev: PostCreatedView)
    requires
        ev.wf(),
        tags_distinct(),
    ensures
        decode_spec(post_created_tag(), encode_post_created(ev)) == Ok::<EventView, DecodeError>(
            EventView::PostCreated(ev),
        ),
{
    vstd::bytes::lemma_auto_spec_u64_to_from_le_bytes();
    vstd::bytes::lemma_auto_spec_u32_to_from_le_bytes();
    let p = encode_post_created(ev);
    let tlen = ev.title.len() as int;
    let clen = ev.content.len() as int;
    assert(p.len() == 48 + tlen + clen);
    assert(p.take(32) =~= ev.author);
    assert(p.subrange(32, 40) =~= vstd::bytes::spec_u64_to_le_bytes(ev.post_index));
    assert(p.subrange(40, 44) =~= vstd::bytes::spec_u32_to_le_bytes(ev.title.len() as u32));
    assert(spec_u32_from_le_bytes(p.subrange(40, 44)) == tlen);
    assert(p.subrange(44, 44 + tlen) =~= ev.title);
    assert(p.subrange(44 + tlen, 48 + tlen) =~= vstd::bytes::spec_u32_to_le_bytes(
        ev.content.len() as u32,
    ));
    assert(spec_u32_from_le_bytes(p.subrange(44 + tlen, 48 + tlen)) == clen);
    assert(p.subrange(48 + tlen, 48 + tlen + clen) =~= ev.content);
    assert(decode_post_created_spec(p) == Ok::<PostCreatedView, MalformedCause>(ev));
}

/// Encoding a well-formed `PostLiked` and decoding it under its tag
/// reproduces the event, field for field.
pub proof fn lemma_post_liked_round_trip(ev: PostLikedView)
    requires
        ev.wf(),
        tags_distinct(),
    ensures
        decode_spec(post_liked_tag(), encode_post_liked(ev)) == Ok::<EventView, DecodeError>(
            EventView::PostLiked(ev),
        ),
{
    vstd::bytes::lemma_auto_spec_u64_to_from_le_bytes();
    let p = encode_post_liked(ev);
    assert(p.len() == 80);
    assert(p.take(32) =~= ev.liker);
    assert(p.subrange(32, 64) =~= ev.author);
    assert(p.subrange(64, 72) =~= vstd::bytes::spec_u64_to_le_bytes(ev.post_index));
    assert(p.subrange(72, 80) =~= vstd::bytes::spec_u64_to_le_bytes(ev.total_likes));
    assert(decode_post_liked_spec(p) == Ok::<PostLikedView, MalformedCause>(ev));
}

/// The minimum payload length of each variant's layout.
pub open spec fn min_payload_len(k: EventKind) -> int {
    match k {
        EventKind::UserCreated => 40,
        EventKind::PostCreated => 48,
        EventKind::PostLiked => 80,
    }
}

/// A payload shorter than a variant's minimum required length never decodes:
/// the variant's strict layout rejects it.
pub proof fn lemma_short_payload_malformed(k: EventKind, p: Seq<u8>)
    requires
        p.len() < min_payload_len(k),
    ensures
        k == EventKind::UserCreated ==> decode_user_created_spec(p) is Err,
        k == EventKind::PostCreated ==> decode_post_created_spec(p) is Err,
        k == EventKind::PostLiked ==> decode_post_liked_spec(p) is Err,
{
}

/// A tag outside the known set decodes to `UnknownVariant`, whatever the
/// payload holds.
pub proof fn lemma_unknown_tag(tag: Seq<u8>, p: Seq<u8>)
    requires
        !known_tag_set().contains(tag),
    ensures
        decode_spec(tag, p) == Err::<EventView, DecodeError>(DecodeError::UnknownVariant),
{
    assert(known_tag_set().contains(user_created_tag()));
    assert(known_tag_set().contains(post_created_tag()));
    assert(known_tag_set().contains(post_liked_tag()));
}

} // verus!
