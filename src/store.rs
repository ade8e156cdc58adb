//! The transform cache: one artifact per path and variant, computed on a miss from the file's
//! bytes and kept in a bounded cache.
//!
//! Lookups do not refresh an entry, so when the cache is full the entry stored longest ago
//! goes first. The caller canonicalises the path, holds the cache behind a reader/writer
//! lock, and reads the file only when `lookup` misses: `lookup` runs under the shared lock,
//! the read and `compute` run under none, and `store` runs under the exclusive lock (`fill`
//! is `compute` then `store`, for a caller that holds the cache alone). Two requests that miss
//! on one key at once may both compute the artifact; the later `store` then keeps its own,
//! equally valid, result in place of the earlier one.

use vstd::prelude::*;
use vstd::string::StringExecFns;
use crate::cache::{keys_unique, lemma_put_then_lookup, lookup, put_spec, CacheKey, LruCache, Variant};
use crate::picture::decoded_image;
use crate::transform::{
    encodable, kind_for_path_spec, target_dimensions, transform, CachedArtifact, ImageKind, TransformError,
};

verus! {

/// How many artifacts a cache holds unless told otherwise.
pub const DEFAULT_CAPACITY: usize = 1000;

pub open spec fn variant_of(thumbnail: bool) -> Variant {
    if thumbnail {
        Variant::Thumbnail
    } else {
        Variant::Full
    }
}

/// The key for a canonical path and the thumbnail flag.
pub open spec fn key_of(path: Seq<char>, thumbnail: bool) -> (Seq<char>, Variant) {
    (path, variant_of(thumbnail))
}

pub struct TransformCache {
    entries: LruCache<CachedArtifact>,
}

impl View for TransformCache {
    type V = Seq<(CacheKey, CachedArtifact)>;

    /// The stored artifacts, from the one stored longest ago to the latest.
    closed spec fn view(&self) -> Seq<(CacheKey, CachedArtifact)> {
        self.entries@
    }
}

/// What computing the artifact for `path` from the file's `content` gives: a decode error
/// when the bytes are not an image; otherwise the image in the format of the path's
/// extension with the variant's dimensions, which comes exactly when that format can encode
/// an image of those dimensions, and an encode error when it cannot.
pub open spec fn computed(
    path: Seq<char>,
    thumbnail: bool,
    content: Seq<u8>,
    r: Result<CachedArtifact, TransformError>,
) -> bool {
    &&& decoded_image(content) is None ==> r == Err::<CachedArtifact, TransformError>(
        TransformError::DecodeError,
    )
    &&& decoded_image(content) matches Some(d) ==> (r is Ok <==> encodable(
        kind_for_path_spec(path),
        target_dimensions(d.0, d.1, variant_of(thumbnail)).0,
        target_dimensions(d.0, d.1, variant_of(thumbnail)).1,
        d.2,
    ))
    &&& match r {
        Ok(a) => {
            &&& decoded_image(content) matches Some(d) && (a.width, a.height)
                == target_dimensions(d.0, d.1, variant_of(thumbnail))
            &&& a.kind == kind_for_path_spec(path)
        },
        Err(e) => decoded_image(content) is Some ==> e == TransformError::EncodeError,
    }
}

/// `after` is `before` with `artifact` stored (as a copy) as the latest entry for the key.
pub open spec fn stored(
    before: Seq<(CacheKey, CachedArtifact)>,
    after: Seq<(CacheKey, CachedArtifact)>,
    capacity: nat,
    path: Seq<char>,
    thumbnail: bool,
    artifact: CachedArtifact,
) -> bool {
    exists|k: CacheKey, v: CachedArtifact|
        k@ == key_of(path, thumbnail) && v.same_as(&artifact) && after == put_spec(
            before,
            capacity,
            k,
            v,
        )
}

/// What a cache miss does: the artifact computed from `content` is stored, or on an error
/// nothing is.
pub open spec fn fill_result(
    before: Seq<(CacheKey, CachedArtifact)>,
    after: Seq<(CacheKey, CachedArtifact)>,
    capacity: nat,
    path: Seq<char>,
    thumbnail: bool,
    content: Seq<u8>,
    r: Result<CachedArtifact, TransformError>,
) -> bool {
    &&& computed(path, thumbnail, content, r)
    &&& match r {
        Ok(a) => stored(before, after, capacity, path, thumbnail, a),
        Err(_) => after == before,
    }
}

/// Two gets of one path and variant in a row give the same encoded artifact: when the first
/// misses and stores what it computed, the second finds exactly that (a hit leaves the cache
/// unchanged and returns the stored artifact, as `get` states).
pub proof fn lemma_second_get_hits(
    before: Seq<(CacheKey, CachedArtifact)>,
    after: Seq<(CacheKey, CachedArtifact)>,
    capacity: nat,
    path: Seq<char>,
    thumbnail: bool,
    content: Seq<u8>,
    first: Result<CachedArtifact, TransformError>,
)
    requires
        keys_unique(before),
        capacity > 0,
        fill_result(before, after, capacity, path, thumbnail, content, first),
        first is Ok,
    ensures
        lookup(after, key_of(path, thumbnail)) matches Some(a) && a.same_as(&first->Ok_0),
{
    let a = first->Ok_0;
    assert(stored(before, after, capacity, path, thumbnail, a));
    let (k, v) = choose|k: CacheKey, v: CachedArtifact|
        k@ == key_of(path, thumbnail) && v.same_as(&a) && after == put_spec(before, capacity, k, v);
    lemma_put_then_lookup(before, capacity, k, v);
}

impl TransformCache {
    pub closed spec fn spec_capacity(&self) -> nat {
        self.entries.spec_capacity()
    }

    /// An empty cache that holds at most `capacity` artifacts.
    pub fn new(capacity: usize) -> (r: Self)
        ensures
            r@ == Seq::<(CacheKey, CachedArtifact)>::empty(),
            r.spec_capacity() == capacity,
    {
        TransformCache { entries: LruCache::new(capacity) }
    }

    /// An empty cache of `DEFAULT_CAPACITY`.
    pub fn with_default_capacity() -> (r: Self)
        ensures
            r@ == Seq::<(CacheKey, CachedArtifact)>::empty(),
            r.spec_capacity() == DEFAULT_CAPACITY,
    {
        TransformCache::new(DEFAULT_CAPACITY)
    }

    /// The number of stored artifacts, which never exceeds the capacity; no key is held
    /// twice.
    pub fn len(&self) -> (r: usize)
        ensures
            r == self@.len(),
            r <= self.spec_capacity(),
            keys_unique(self@),
    {
        self.entries.len()
    }

    fn key(path: &str, thumbnail: bool) -> (r: CacheKey)
        ensures
            r@ == key_of(path@, thumbnail),
    {
        let variant = if thumbnail {
            Variant::Thumbnail
        } else {
            Variant::Full
        };
        CacheKey::new(String::from_str(path), variant)
    }

    /// The stored artifact for the path and variant, if there is one; the order of the
    /// entries does not change.
    pub fn lookup(&self, path: &str, thumbnail: bool) -> (r: Option<CachedArtifact>)
        ensures
            match lookup(self@, key_of(path@, thumbnail)) {
                Some(a) => r matches Some(b) && b.same_as(&a),
                None => r is None,
            },
    {
        let key = TransformCache::key(path, thumbnail);
        match self.entries.peek(&key) {
            Some(a) => Some(a.duplicate()),
            None => None,
        }
    }

    /// Computes the artifact for `path` from the file's `content`; this touches no cache, so
    /// it may run while no lock is held.
    pub fn compute(path: &str, thumbnail: bool, content: &[u8]) -> (r: Result<
        CachedArtifact,
        TransformError,
    >)
        ensures
            computed(path@, thumbnail, content@, r),
    {
        let variant = if thumbnail {
            Variant::Thumbnail
        } else {
            Variant::Full
        };
        transform(content, ImageKind::for_path(path), variant)
    }

    /// Stores a computed artifact as the latest entry for the path and variant.
    pub fn store(&mut self, path: &str, thumbnail: bool, artifact: CachedArtifact)
        ensures
            final(self).spec_capacity() == old(self).spec_capacity(),
            stored(old(self)@, final(self)@, old(self).spec_capacity(), path@, thumbnail, artifact),
    {
        let key = TransformCache::key(path, thumbnail);
        let ghost k = key;
        let ghost v = artifact;
        self.entries.put(key, artifact);
        assert(k@ == key_of(path@, thumbnail) && v.same_as(&v) && self@ == put_spec(
            old(self)@,
            old(self).spec_capacity(),
            k,
            v,
        ));
    }

    /// Computes the artifact for a miss from the file's `content` and stores it as the latest
    /// entry.
    pub fn fill(&mut self, path: &str, thumbnail: bool, content: &[u8]) -> (r: Result<
        CachedArtifact,
        TransformError,
    >)
        ensures
            final(self).spec_capacity() == old(self).spec_capacity(),
            fill_result(
                old(self)@,
                final(self)@,
                old(self).spec_capacity(),
                path@,
                thumbnail,
                content@,
                r,
            ),
    {
        match TransformCache::compute(path, thumbnail, content) {
            Ok(artifact) => {
                let copy = artifact.duplicate();
                self.store(path, thumbnail, artifact);
                proof {
                    let (k, v) = choose|k: CacheKey, v: CachedArtifact|
                        k@ == key_of(path@, thumbnail) && v.same_as(&artifact) && self@ == put_spec(
                            old(self)@,
                            old(self).spec_capacity(),
                            k,
                            v,
                        );
                    assert(v.same_as(&copy));
                }
                Ok(copy)
            },
            Err(e) => Err(e),
        }
    }

    /// The artifact for the path and variant: the stored one on a hit (the cache is then
    /// unchanged and `content` unused), otherwise the one computed from `content` and stored.
    pub fn get(&mut self, path: &str, thumbnail: bool, content: &[u8]) -> (r: Result<
        CachedArtifact,
        TransformError,
    >)
        ensures
            final(self).spec_capacity() == old(self).spec_capacity(),
            match lookup(old(self)@, key_of(path@, thumbnail)) {
                Some(a) => final(self)@ == old(self)@ && (r matches Ok(b) && b.same_as(&a)),
                None => fill_result(
                    old(self)@,
                    final(self)@,
                    old(self).spec_capacity(),
                    path@,
                    thumbnail,
                    content@,
                    r,
                ),
            },
    {
        match self.lookup(path, thumbnail) {
            Some(a) => Ok(a),
            None => self.fill(path, thumbnail, content),
        }
    }

    /// Drops every stored artifact, thumbnails and full images alike.
    pub fn clear_all(&mut self)
        ensures
            final(self).spec_capacity() == old(self).spec_capacity(),
            final(self)@ == Seq::<(CacheKey, CachedArtifact)>::empty(),
    {
        self.entries.clear();
    }
}

} // verus!
