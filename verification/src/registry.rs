//! Discriminator registry: the fixed 8-byte tags that identify event variants.
//!
//! A variant's tag is the first 8 bytes of the SHA-256 digest of the UTF-8
//! bytes of `"event:" + <variant name>`. The registry derives the tags of the
//! three known variants once at construction and offers membership testing.

use vstd::prelude::*;

verus! {

/// What the SHA-256 digest of a byte sequence is; a fixed function of the
/// input bytes alone.
pub uninterp spec fn sha256_of(bytes: Seq<u8>) -> Seq<u8>;

/// Relies on sha2's `Sha256` through the `Digest` interface: the digest is a
/// function of the input bytes alone, and is always 32 bytes long.
#[verifier::external_body]
fn sha256(input: &[u8]) -> (r: Vec<u8>)
    ensures
        r@ == sha256_of(input@),
        r@.len() == 32,
{
    let digest = <sha2::Sha256 as sha2::Digest>::digest(input);
    digest.to_vec()
}

/// The namespace prefix hashed in front of a variant name: the bytes of
/// `"event:"`.
pub open spec fn event_namespace_prefix() -> Seq<u8> {
    seq![101u8, 118u8, 101u8, 110u8, 116u8, 58u8]
}

/// The tag of a variant name: the first 8 bytes of
/// `sha256("event:" + name)`.
pub open spec fn tag_of_spec(name: Seq<u8>) -> Seq<u8> {
    sha256_of(event_namespace_prefix() + name).take(8)
}

/// The UTF-8 bytes of each known variant's name.
pub open spec fn user_created_name() -> Seq<u8> {
    seq![85u8, 115u8, 101u8, 114u8, 67u8, 114u8, 101u8, 97u8, 116u8, 101u8, 100u8]
}

pub open spec fn post_created_name() -> Seq<u8> {
    seq![80u8, 111u8, 115u8, 116u8, 67u8, 114u8, 101u8, 97u8, 116u8, 101u8, 100u8]
}

pub open spec fn post_liked_name() -> Seq<u8> {
    seq![80u8, 111u8, 115u8, 116u8, 76u8, 105u8, 107u8, 101u8, 100u8]
}

pub open spec fn user_created_tag() -> Seq<u8> {
    tag_of_spec(user_created_name())
}

pub open spec fn post_created_tag() -> Seq<u8> {
    tag_of_spec(post_created_name())
}

pub open spec fn post_liked_tag() -> Seq<u8> {
    tag_of_spec(post_liked_name())
}

/// The full set of known tags, for membership testing.
pub open spec fn known_tag_set() -> Set<Seq<u8>> {
    set![user_created_tag(), post_created_tag(), post_liked_tag()]
}

/// The known tags are pairwise distinct. The hash construction makes a
/// collision overwhelmingly unlikely but not impossible, so this is stated as
/// a predicate that `Registry::check_tags_distinct` decides at run time, not
/// as an axiom.
pub open spec fn tags_distinct() -> bool {
    &&& user_created_tag() != post_created_tag()
    &&& user_created_tag() != post_liked_tag()
    &&& post_created_tag() != post_liked_tag()
}

/// Derives a variant's event tag from its name:
/// `sha256("event:" + name)[..8]`.
pub fn event_discriminator(name: &[u8]) -> (r: Vec<u8>)
    ensures
        r@ == tag_of_spec(name@),
        r@.len() == 8,
{
    let mut input: Vec<u8> = Vec::new();
    input.push(101u8);
    input.push(118u8);
    input.push(101u8);
    input.push(110u8);
    input.push(116u8);
    input.push(58u8);
    let mut i: usize = 0;
    while i < name.len()
        invariant
            i <= name@.len(),
            input@ == event_namespace_prefix() + name@.take(i as int),
        decreases name@.len() - i,
    {
        input.push(name[i]);
        i = i + 1;
        assert(event_namespace_prefix() + name@.take(i - 1) + seq![name@[i - 1]]
            =~= event_namespace_prefix() + name@.take(i as int));
    }
    assert(name@.take(name@.len() as int) =~= name@);
    let digest = sha256(input.as_slice());
    let mut r: Vec<u8> = Vec::new();
    let mut j: usize = 0;
    while j < 8
        invariant
            j <= 8,
            digest@ == sha256_of(event_namespace_prefix() + name@),
            digest@.len() == 32,
            r@ == digest@.take(j as int),
        decreases 8 - j,
    {
        r.push(digest[j]);
        j = j + 1;
        assert(digest@.take(j - 1).push(digest@[j - 1]) =~= digest@.take(j as int));
    }
    assert(r@ =~= tag_of_spec(name@));
    r
}

/// `tag_of_spec` is deterministic: equal variant names always yield equal
/// tags.
pub proof fn lemma_tag_of_deterministic(a: Seq<u8>, b: Seq<u8>)
    requires
        a == b,
    ensures
        tag_of_spec(a) == tag_of_spec(b),
{
}

/// Compares two byte slices for (deep) equality.
pub fn bytes_eq(a: &[u8], b: &[u8]) -> (r: bool)
    ensures
        r == (a@ == b@),
{
    if a.len() != b.len() {
        return false;
    }
    let mut i: usize = 0;
    while i < a.len()
        invariant
            a@.len() == b@.len(),
            i <= a@.len(),
            forall|k: int| 0 <= k < i ==> a@[k] == b@[k],
        decreases a@.len() - i,
    {
        if a[i] != b[i] {
            return false;
        }
        i = i + 1;
    }
    assert(a@ =~= b@);
    true
}

/// Holds the tags of the known event variants; immutable after construction.
pub struct Registry {
    user_created: Vec<u8>,
    post_created: Vec<u8>,
    post_liked: Vec<u8>,
}

impl Registry {
    /// The registry holds exactly the derived tags of the three known
    /// variants.
    pub closed spec fn wf(self) -> bool {
        &&& self.user_created@ == user_created_tag()
        &&& self.post_created@ == post_created_tag()
        &&& self.post_liked@ == post_liked_tag()
    }

    /// Derives the tags of the three known variants.
    pub fn new() -> (r: Registry)
        ensures
            r.wf(),
    {
        let mut user_name: Vec<u8> = Vec::new();
        user_name.push(85u8);
        user_name.push(115u8);
        user_name.push(101u8);
        user_name.push(114u8);
        user_name.push(67u8);
        user_name.push(114u8);
        user_name.push(101u8);
        user_name.push(97u8);
        user_name.push(116u8);
        user_name.push(101u8);
        user_name.push(100u8);
        assert(user_name@ =~= user_created_name());
        let mut post_name: Vec<u8> = Vec::new();
        post_name.push(80u8);
        post_name.push(111u8);
        post_name.push(115u8);
        post_name.push(116u8);
        post_name.push(67u8);
        post_name.push(114u8);
        post_name.push(101u8);
        post_name.push(97u8);
        post_name.push(116u8);
        post_name.push(101u8);
        post_name.push(100u8);
        assert(post_name@ =~= post_created_name());
        let mut liked_name: Vec<u8> = Vec::new();
        liked_name.push(80u8);
        liked_name.push(111u8);
        liked_name.push(115u8);
        liked_name.push(116u8);
        liked_name.push(76u8);
        liked_name.push(105u8);
        liked_name.push(107u8);
        liked_name.push(101u8);
        liked_name.push(100u8);
        assert(liked_name@ =~= post_liked_name());
        Registry {
            user_created: event_discriminator(user_name.as_slice()),
            post_created: event_discriminator(post_name.as_slice()),
            post_liked: event_discriminator(liked_name.as_slice()),
        }
    }

    /// The tag of `UserCreated`.
    pub fn user_created_tag(&self) -> (r: &Vec<u8>)
        requires
            self.wf(),
        ensures
            r@ == user_created_tag(),
    {
        &self.user_created
    }

    /// The tag of `PostCreated`.
    pub fn post_created_tag(&self) -> (r: &Vec<u8>)
        requires
            self.wf(),
        ensures
            r@ == post_created_tag(),
    {
        &self.post_created
    }

    /// The tag of `PostLiked`.
    pub fn post_liked_tag(&self) -> (r: &Vec<u8>)
        requires
            self.wf(),
        ensures
            r@ == post_liked_tag(),
    {
        &self.post_liked
    }

    /// Decides whether the three derived tags are pairwise distinct.
    pub fn check_tags_distinct(&self) -> (r: bool)
        requires
            self.wf(),
        ensures
            r == tags_distinct(),
    {
        !bytes_eq(self.user_created.as_slice(), self.post_created.as_slice()) && !bytes_eq(
            self.user_created.as_slice(),
            self.post_liked.as_slice(),
        ) && !bytes_eq(self.post_created.as_slice(), self.post_liked.as_slice())
    }

    /// Whether `tag` is one of the known variant tags.
    pub fn is_known(&self, tag: &[u8]) -> (r: bool)
        requires
            self.wf(),
        ensures
            r == known_tag_set().contains(tag@),
    {
        let r = bytes_eq(tag, self.user_created.as_slice())
            || bytes_eq(tag, self.post_created.as_slice())
            || bytes_eq(tag, self.post_liked.as_slice());
        assert(known_tag_set().contains(tag@) <==> (tag@ == user_created_tag() || tag@
            == post_created_tag() || tag@ == post_liked_tag()));
        r
    }
}

} // verus!
