//! A bounded map from cache keys to values, ordered by recency of insertion, that drops the
//! least recently inserted entry when a new key arrives at capacity.
//!
//! Reading an entry (`peek`) does not refresh it: only `put` moves a key to the most recent
//! place, so the eviction order is the order of last insertion.

use vstd::prelude::*;

verus! {

/// Which derived form of an image an entry holds.
#[derive(Clone, Copy, Debug, PartialEq, Eq, Structural)]
pub enum Variant {
    Full,
    Thumbnail,
}

/// A canonical resource path together with the variant. Two keys are the same entry exactly
/// when both parts are equal; different spellings of one path are different keys.
#[derive(Debug)]
pub struct CacheKey {
    pub path: String,
    pub variant: Variant,
}

impl View for CacheKey {
    type V = (Seq<char>, Variant);

    open spec fn view(&self) -> (Seq<char>, Variant) {
        (self.path@, self.variant)
    }
}

impl CacheKey {
    pub fn new(path: String, variant: Variant) -> (r: Self)
        ensures
            r@ == (path@, variant),
    {
        CacheKey { path, variant }
    }

    /// Both parts are equal.
    pub fn same_as(&self, other: &CacheKey) -> (r: bool)
        ensures
            r == (self@ == other@),
    {
        self.variant == other.variant && self.path == other.path
    }

    /// A copy with the same path and variant.
    pub fn duplicate(&self) -> (r: CacheKey)
        ensures
            r@ == self@,
    {
        CacheKey { path: self.path.clone(), variant: self.variant }
    }
}

/// The position of `k` among the entries, if it is there.
pub open spec fn holds_at<V>(s: Seq<(CacheKey, V)>, k: (Seq<char>, Variant), i: int) -> bool {
    0 <= i < s.len() && s[i].0@ == k
}

pub open spec fn contains_key<V>(s: Seq<(CacheKey, V)>, k: (Seq<char>, Variant)) -> bool {
    exists|i: int| holds_at(s, k, i)
}

/// Each key is held at most once.
pub open spec fn keys_unique<V>(s: Seq<(CacheKey, V)>) -> bool {
    forall|i: int, j: int| 0 <= i < s.len() && 0 <= j < s.len() && s[i].0@ == s[j].0@ ==> i == j
}

/// The value held for `k`.
pub open spec fn lookup<V>(s: Seq<(CacheKey, V)>, k: (Seq<char>, Variant)) -> Option<V> {
    if contains_key(s, k) {
        Some(s[choose|i: int| holds_at(s, k, i)].1)
    } else {
        None
    }
}

/// The entries after inserting `(key, value)` into `s` under `capacity`: a key already held
/// moves to the most recent place with its new value; a new key at capacity first evicts
/// the least recent entry; nothing is held at capacity 0.
pub open spec fn put_spec<V>(s: Seq<(CacheKey, V)>, capacity: nat, key: CacheKey, value: V) -> Seq<
    (CacheKey, V),
> {
    if contains_key(s, key@) {
        s.remove(choose|i: int| holds_at(s, key@, i)).push((key, value))
    } else if capacity == 0 {
        s
    } else if s.len() >= capacity {
        s.drop_first().push((key, value))
    } else {
        s.push((key, value))
    }
}

pub struct LruCache<V> {
    entries: Vec<(CacheKey, V)>,
    capacity: usize,
}

impl<V> View for LruCache<V> {
    type V = Seq<(CacheKey, V)>;

    /// The entries from least to most recently inserted.
    closed spec fn view(&self) -> Seq<(CacheKey, V)> {
        self.entries@
    }
}

impl<V> LruCache<V> {
    pub closed spec fn spec_capacity(&self) -> nat {
        self.capacity as nat
    }

    /// Keys are unique and there are never more entries than the capacity.
    #[verifier::type_invariant]
    closed spec fn inv(&self) -> bool {
        &&& keys_unique(self.entries@)
        &&& self.entries@.len() <= self.capacity
    }

    /// An empty cache that holds at most `capacity` entries.
    pub fn new(capacity: usize) -> (r: Self)
        ensures
            r@ == Seq::<(CacheKey, V)>::empty(),
            r.spec_capacity() == capacity,
    {
        LruCache { entries: Vec::new(), capacity }
    }

    pub fn capacity(&self) -> (r: usize)
        ensures
            r == self.spec_capacity(),
    {
        self.capacity
    }

    /// The number of entries, which never exceeds the capacity; no key is held twice.
    pub fn len(&self) -> (r: usize)
        ensures
            r == self@.len(),
            r <= self.spec_capacity(),
            keys_unique(self@),
    {
        proof {
            use_type_invariant(self);
        }
        self.entries.len()
    }

    /// Where `key` is held, if it is.
    fn position(&self, key: &CacheKey) -> (r: Option<usize>)
        ensures
            r matches Some(i) ==> holds_at(self@, key@, i as int) && (choose|j: int|
                holds_at(self@, key@, j)) == i,
            r is None ==> !contains_key(self@, key@),
    {
        proof {
            use_type_invariant(self);
        }
        let mut i: usize = 0;
        while i < self.entries.len()
            invariant
                i <= self@.len(),
                keys_unique(self@),
                forall|j: int| 0 <= j < i ==> !holds_at(self@, key@, j),
            decreases self@.len() - i,
        {
            if self.entries[i].0.same_as(key) {
                proof {
                    let j = choose|j: int| holds_at(self@, key@, j);
                    assert(holds_at(self@, key@, i as int));
                    assert(self@[j].0@ == self@[i as int].0@);
                }
                return Some(i);
            }
            i = i + 1;
        }
        None
    }

    /// The value held for `key`, without changing the order of the entries.
    pub fn peek(&self, key: &CacheKey) -> (r: Option<&V>)
        ensures
            match lookup(self@, key@) {
                Some(v) => r == Some(&v),
                None => r is None,
            },
    {
        match self.position(key) {
            Some(i) => Some(&self.entries[i].1),
            None => None,
        }
    }

    /// Holds `value` for `key` as the most recent entry, evicting the least recent one when
    /// a new key arrives at capacity.
    pub fn put(&mut self, key: CacheKey, value: V)
        ensures
            final(self).spec_capacity() == old(self).spec_capacity(),
            final(self)@ == put_spec(old(self)@, old(self).spec_capacity(), key, value),
    {
        proof {
            use_type_invariant(&*self);
        }
        let ghost s = self@;
        let ghost k = key@;
        let pos = self.position(&key);
        let mut entries: Vec<(CacheKey, V)> = Vec::new();
        std::mem::swap(&mut entries, &mut self.entries);
        match pos {
            Some(i) => {
                entries.remove(i);
                entries.push((key, value));
                proof {
                    let t = entries@;
                    assert forall|a: int, b: int|
                        0 <= a < t.len() && 0 <= b < t.len() && t[a].0@ == t[b].0@ implies a
                        == b by {
                        if a < t.len() - 1 && b < t.len() - 1 {
                            let a0 = if a < i { a } else { a + 1 };
                            let b0 = if b < i { b } else { b + 1 };
                            assert(t[a] == s[a0]);
                            assert(t[b] == s[b0]);
                        } else if a < t.len() - 1 {
                            let a0 = if a < i { a } else { a + 1 };
                            assert(t[a] == s[a0]);
                            assert(s[a0].0@ == s[i as int].0@);
                        } else if b < t.len() - 1 {
                            let b0 = if b < i { b } else { b + 1 };
                            assert(t[b] == s[b0]);
                            assert(s[b0].0@ == s[i as int].0@);
                        }
                    }
                }
            },
            None => {
                if self.capacity > 0 {
                    if entries.len() >= self.capacity {
                        entries.remove(0);
                    }
                    let ghost mid = entries@;
                    entries.push((key, value));
                    proof {
                        let t = entries@;
                        assert forall|a: int, b: int|
                            0 <= a < t.len() && 0 <= b < t.len() && t[a].0@ == t[b].0@ implies a
                            == b by {
                            if a < t.len() - 1 && b < t.len() - 1 {
                                assert(t[a] == mid[a]);
                                assert(t[b] == mid[b]);
                                if s.len() >= self.capacity {
                                    assert(mid[a] == s[a + 1]);
                                    assert(mid[b] == s[b + 1]);
                                } else {
                                    assert(mid[a] == s[a]);
                                    assert(mid[b] == s[b]);
                                }
                            } else if a < t.len() - 1 {
                                assert(t[a] == mid[a]);
                                if s.len() >= self.capacity {
                                    assert(mid[a] == s[a + 1]);
                                    assert(!holds_at(s, k, a + 1));
                                } else {
                                    assert(!holds_at(s, k, a));
                                }
                            } else if b < t.len() - 1 {
                                assert(t[b] == mid[b]);
                                if s.len() >= self.capacity {
                                    assert(mid[b] == s[b + 1]);
                                    assert(!holds_at(s, k, b + 1));
                                } else {
                                    assert(!holds_at(s, k, b));
                                }
                            }
                        }
                        if s.len() >= self.capacity {
                            assert(mid =~= s.drop_first());
                        }
                    }
                }
            },
        }
        self.entries = entries;
    }

    /// Drops every entry.
    pub fn clear(&mut self)
        ensures
            final(self).spec_capacity() == old(self).spec_capacity(),
            final(self)@ == Seq::<(CacheKey, V)>::empty(),
    {
        self.entries = Vec::new();
    }
}

/// Right after a key is stored, looking it up gives the value just stored: with any
/// capacity above zero, a second request for a key is served from the entry that the first
/// one stored.
pub proof fn lemma_put_then_lookup<V>(s: Seq<(CacheKey, V)>, capacity: nat, key: CacheKey, value: V)
    requires
        keys_unique(s),
        capacity > 0,
    ensures
        lookup(put_spec(s, capacity, key, value), key@) == Some(value),
{
    let t = put_spec(s, capacity, key, value);
    let last = t.len() - 1;
    assert(t[last] == (key, value));
    assert(holds_at(t, key@, last));
    assert forall|j: int| holds_at(t, key@, j) implies j == last by {
        if j < last {
            if contains_key(s, key@) {
                let i = choose|i: int| holds_at(s, key@, i);
                let j0 = if j < i { j } else { j + 1 };
                assert(t[j] == s[j0]);
                assert(s[j0].0@ == s[i].0@);
            } else if s.len() >= capacity {
                assert(t[j] == s[j + 1]);
                assert(holds_at(s, key@, j + 1));
            } else {
                assert(t[j] == s[j]);
                assert(holds_at(s, key@, j));
            }
        }
    }
}

/// The entries after inserting each pair of `items` in turn.
pub open spec fn put_all<V>(s: Seq<(CacheKey, V)>, capacity: nat, items: Seq<(CacheKey, V)>) -> Seq<
    (CacheKey, V),
>
    decreases items.len(),
{
    if items.len() == 0 {
        s
    } else {
        put_all(
            put_spec(s, capacity, items[0].0, items[0].1),
            capacity,
            items.drop_first(),
        )
    }
}

/// While there is room, inserting distinct new keys appends them in order.
proof fn lemma_put_all_fills<V>(s: Seq<(CacheKey, V)>, capacity: nat, items: Seq<(CacheKey, V)>)
    requires
        s.len() + items.len() <= capacity,
        keys_unique(s + items),
    ensures
        put_all(s, capacity, items) == s + items,
    decreases items.len(),
{
    if items.len() == 0 {
        assert(s + items =~= s);
    } else {
        let k = items[0].0;
        assert forall|i: int| !holds_at(s, k@, i) by {
            if holds_at(s, k@, i) {
                assert((s + items)[i].0@ == (s + items)[s.len() as int].0@);
            }
        }
        let s2 = s.push(items[0]);
        assert(s2 + items.drop_first() =~= s + items);
        lemma_put_all_fills(s2, capacity, items.drop_first());
    }
}

/// Inserting `N + 1` distinct keys into an empty cache of capacity `N` leaves exactly `N`
/// entries, and the first key inserted is the one that is gone.
pub proof fn lemma_capacity_bound<V>(capacity: nat, items: Seq<(CacheKey, V)>)
    requires
        items.len() == capacity + 1,
        keys_unique(items),
    ensures
        put_all(Seq::<(CacheKey, V)>::empty(), capacity, items).len() == capacity,
        !contains_key(put_all(Seq::<(CacheKey, V)>::empty(), capacity, items), items[0].0@),
        put_all(Seq::<(CacheKey, V)>::empty(), capacity, items) == items.drop_first(),
{
    let e = Seq::<(CacheKey, V)>::empty();
    let n = capacity as int;
    let first = items.take(n);
    let last = items[n];
    assert(e + first =~= first);
    assert(keys_unique(e + first)) by {
        assert forall|i: int, j: int|
            0 <= i < (e + first).len() && 0 <= j < (e + first).len() && (e + first)[i].0@ == (e
                + first)[j].0@ implies i == j by {
            assert((e + first)[i] == items[i]);
            assert((e + first)[j] == items[j]);
        }
    }
    lemma_put_all_fills(e, capacity, first);
    lemma_put_all_split(e, capacity, items, n);
    assert(items.skip(n) =~= seq![last]);
    assert forall|i: int| !holds_at(first, last.0@, i) by {
        if holds_at(first, last.0@, i) {
            assert(items[i].0@ == items[n].0@);
        }
    }
    assert(seq![last].drop_first() =~= Seq::<(CacheKey, V)>::empty());
    let r = put_spec(first, capacity, last.0, last.1);
    assert(r =~= items.drop_first());
    assert(put_all(first, capacity, seq![last]) == put_all(r, capacity, Seq::<(CacheKey, V)>::empty()));
    assert forall|i: int| !holds_at(r, items[0].0@, i) by {
        if holds_at(r, items[0].0@, i) {
            assert(r[i] == items[i + 1]);
        }
    }
}

/// Inserting a sequence is inserting its first `n` items, then the rest.
proof fn lemma_put_all_split<V>(s: Seq<(CacheKey, V)>, capacity: nat, items: Seq<(CacheKey, V)>, n: int)
    requires
        0 <= n <= items.len(),
    ensures
        put_all(s, capacity, items) == put_all(put_all(s, capacity, items.take(n)), capacity, items.skip(n)),
    decreases n,
{
    if n == 0 {
        assert(items.skip(0) =~= items);
        assert(items.take(0) =~= Seq::<(CacheKey, V)>::empty());
    } else {
        let s2 = put_spec(s, capacity, items[0].0, items[0].1);
        lemma_put_all_split(s2, capacity, items.drop_first(), n - 1);
        assert(items.take(n).drop_first() =~= items.drop_first().take(n - 1));
        assert(items.take(n)[0] == items[0]);
        assert(items.drop_first().skip(n - 1) =~= items.skip(n));
    }
}

} // verus!
