use blog_server::decoder::{DecodeError, EventKind, MalformedCause, decode};
use blog_server::events::{
    BlogEvent, PostCreated, PostLiked, UserCreated, encode_post_created_bytes,
    encode_post_liked_bytes, encode_user_created_bytes,
};
use blog_server::registry::{Registry, event_discriminator};

fn key(fill: u8) -> Vec<u8> {
    vec![fill; 32]
}

#[test]
fn user_created_tag_matches_reference_digest() {
    let tag = event_discriminator(b"UserCreated");
    assert_eq!(tag, vec![145u8, 177, 42, 214, 0, 65, 40, 69]);
}

#[test]
fn post_created_tag_matches_reference_digest() {
    let tag = event_discriminator(b"PostCreated");
    assert_eq!(tag, vec![209u8, 178, 232, 24, 158, 92, 77, 227]);
}

#[test]
fn post_liked_tag_matches_reference_digest() {
    let tag = event_discriminator(b"PostLiked");
    assert_eq!(tag, vec![73u8, 27, 139, 100, 14, 89, 19, 81]);
}

#[test]
fn discriminator_is_deterministic() {
    assert_eq!(event_discriminator(b"UserCreated"), event_discriminator(b"UserCreated"));
    assert_eq!(event_discriminator(b"PostLiked"), event_discriminator(b"PostLiked"));
}

#[test]
fn registry_tags_are_pairwise_distinct() {
    let reg = Registry::new();
    assert!(reg.check_tags_distinct());
}

#[test]
fn registry_matches_free_derivation() {
    let reg = Registry::new();
    assert_eq!(reg.user_created_tag(), &event_discriminator(b"UserCreated"));
    assert_eq!(reg.post_created_tag(), &event_discriminator(b"PostCreated"));
    assert_eq!(reg.post_liked_tag(), &event_discriminator(b"PostLiked"));
}

#[test]
fn registry_membership() {
    let reg = Registry::new();
    assert!(reg.is_known(event_discriminator(b"UserCreated").as_slice()));
    assert!(reg.is_known(event_discriminator(b"PostCreated").as_slice()));
    assert!(reg.is_known(event_discriminator(b"PostLiked").as_slice()));
    assert!(!reg.is_known(&[0u8; 8]));
    assert!(!reg.is_known(event_discriminator(b"SomethingElse").as_slice()));
}

#[test]
fn user_created_round_trip() {
    let reg = Registry::new();
    let ev = UserCreated { user: key(7), post_count: 123456789012345 };
    let payload = encode_user_created_bytes(&ev);
    assert_eq!(payload.len(), 40);
    let got = decode(&reg, reg.user_created_tag().as_slice(), payload.as_slice());
    match got {
        Ok(BlogEvent::UserCreated(back)) => {
            assert_eq!(back.user, ev.user);
            assert_eq!(back.post_count, ev.post_count);
        }
        other => panic!("expected UserCreated, got {:?}", other),
    }
}

#[test]
fn post_created_round_trip() {
    let reg = Registry::new();
    let ev = PostCreated {
        author: key(9),
        post_index: 3,
        title: b"Hello".to_vec(),
        content: b"World".to_vec(),
    };
    let payload = encode_post_created_bytes(&ev);
    assert_eq!(payload.len(), 32 + 8 + 4 + 5 + 4 + 5);
    let got = decode(&reg, reg.post_created_tag().as_slice(), payload.as_slice());
    match got {
        Ok(BlogEvent::PostCreated(back)) => {
            assert_eq!(back.author, ev.author);
            assert_eq!(back.post_index, 3);
            assert_eq!(back.title, b"Hello".to_vec());
            assert_eq!(back.content, b"World".to_vec());
        }
        other => panic!("expected PostCreated, got {:?}", other),
    }
}

#[test]
fn post_created_round_trip_empty_strings() {
    let reg = Registry::new();
    let ev = PostCreated { author: key(1), post_index: 0, title: Vec::new(), content: Vec::new() };
    let payload = encode_post_created_bytes(&ev);
    assert_eq!(payload.len(), 48);
    let got = decode(&reg, reg.post_created_tag().as_slice(), payload.as_slice());
    match got {
        Ok(BlogEvent::PostCreated(back)) => {
            assert!(back.title.is_empty());
            assert!(back.content.is_empty());
        }
        other => panic!("expected PostCreated, got {:?}", other),
    }
}

#[test]
fn post_liked_round_trip() {
    let reg = Registry::new();
    let ev = PostLiked { liker: key(2), author: key(9), post_index: 3, total_likes: 5 };
    let payload = encode_post_liked_bytes(&ev);
    assert_eq!(payload.len(), 80);
    let got = decode(&reg, reg.post_liked_tag().as_slice(), payload.as_slice());
    match got {
        Ok(BlogEvent::PostLiked(back)) => {
            assert_eq!(back.liker, ev.liker);
            assert_eq!(back.author, ev.author);
            assert_eq!(back.post_index, 3);
            assert_eq!(back.total_likes, 5);
        }
        other => panic!("expected PostLiked, got {:?}", other),
    }
}

#[test]
fn unknown_tag_reports_unknown_variant() {
    let reg = Registry::new();
    let got = decode(&reg, &[0u8; 8], &[1u8, 2, 3]);
    assert_eq!(got, Err(DecodeError::UnknownVariant));
}

#[test]
fn short_user_created_payload_is_malformed() {
    let reg = Registry::new();
    for n in 0..40 {
        let payload = vec![0u8; n];
        let got = decode(&reg, reg.user_created_tag().as_slice(), payload.as_slice());
        assert_eq!(
            got,
            Err(DecodeError::Malformed(EventKind::UserCreated, MalformedCause::Truncated))
        );
    }
}

#[test]
fn long_user_created_payload_is_malformed() {
    let reg = Registry::new();
    let payload = vec![0u8; 41];
    let got = decode(&reg, reg.user_created_tag().as_slice(), payload.as_slice());
    assert_eq!(
        got,
        Err(DecodeError::Malformed(EventKind::UserCreated, MalformedCause::TrailingData))
    );
}

#[test]
fn short_post_created_payload_is_malformed() {
    let reg = Registry::new();
    for n in 0..44 {
        let payload = vec![0u8; n];
        let got = decode(&reg, reg.post_created_tag().as_slice(), payload.as_slice());
        assert_eq!(
            got,
            Err(DecodeError::Malformed(EventKind::PostCreated, MalformedCause::Truncated))
        );
    }
}

#[test]
fn overrunning_length_prefix_is_malformed() {
    let reg = Registry::new();
    // 32-byte key, 8-byte index, then a title length prefix that claims far
    // more bytes than the payload holds.
    let mut payload = vec![0u8; 40];
    payload.extend_from_slice(&[255, 255, 255, 255]);
    let got = decode(&reg, reg.post_created_tag().as_slice(), payload.as_slice());
    assert_eq!(
        got,
        Err(DecodeError::Malformed(EventKind::PostCreated, MalformedCause::Truncated))
    );
}

#[test]
fn invalid_utf8_title_is_malformed() {
    let reg = Registry::new();
    let ev = PostCreated {
        author: key(4),
        post_index: 1,
        // 0xFF is never valid UTF-8.
        title: vec![0xFFu8, 0xFE],
        content: b"ok".to_vec(),
    };
    let payload = encode_post_created_bytes(&ev);
    let got = decode(&reg, reg.post_created_tag().as_slice(), payload.as_slice());
    assert_eq!(
        got,
        Err(DecodeError::Malformed(EventKind::PostCreated, MalformedCause::InvalidUtf8))
    );
}

#[test]
fn invalid_utf8_content_is_malformed() {
    let reg = Registry::new();
    let ev = PostCreated {
        author: key(4),
        post_index: 1,
        title: b"ok".to_vec(),
        content: vec![0x80u8],
    };
    let payload = encode_post_created_bytes(&ev);
    let got = decode(&reg, reg.post_created_tag().as_slice(), payload.as_slice());
    assert_eq!(
        got,
        Err(DecodeError::Malformed(EventKind::PostCreated, MalformedCause::InvalidUtf8))
    );
}

#[test]
fn trailing_bytes_after_post_liked_is_malformed() {
    let reg = Registry::new();
    let ev = PostLiked { liker: key(2), author: key(9), post_index: 3, total_likes: 5 };
    let mut payload = encode_post_liked_bytes(&ev);
    payload.push(0);
    let got = decode(&reg, reg.post_liked_tag().as_slice(), payload.as_slice());
    assert_eq!(
        got,
        Err(DecodeError::Malformed(EventKind::PostLiked, MalformedCause::TrailingData))
    );
}

#[test]
fn little_endian_layout_is_exact() {
    let reg = Registry::new();
    let mut payload = vec![0xABu8; 32];
    payload.extend_from_slice(&[0x01, 0x02, 0x03, 0x04, 0x05, 0x06, 0x07, 0x08]);
    let got = decode(&reg, reg.user_created_tag().as_slice(), payload.as_slice());
    match got {
        Ok(BlogEvent::UserCreated(ev)) => {
            assert_eq!(ev.user, vec![0xABu8; 32]);
            assert_eq!(ev.post_count, 0x0807060504030201);
        }
        other => panic!("expected UserCreated, got {:?}", other),
    }
}
