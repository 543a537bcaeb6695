use crate::process_image::{ProcessImage, ProcessImageView};
use vstd::prelude::*;

verus! {

/// The bounded least-recently-used map of the `lru` crate.
#[verifier::external_type_specification]
#[verifier::external_body]
#[verifier::reject_recursive_types(K)]
#[verifier::reject_recursive_types(V)]
#[verifier::reject_recursive_types(S)]
pub struct ExLruCache<K, V, S>(lru::LruCache<K, V, S>);

/// The hasher that an `LruCache` uses where none is named.
#[verifier::external_type_specification]
#[verifier::external_body]
pub struct ExDefaultHasher(lru::DefaultHasher);

/// One entry of the cache: a locator and the image that was loaded from it.
pub type Entry = (Seq<char>, ProcessImageView);

/// What the cache holds, the most recently used entry first.
pub uninterp spec fn cache_entries(cache: lru::LruCache<String, ProcessImage>) -> Seq<Entry>;

/// The number of entries that the cache was made to hold at most.
pub uninterp spec fn cache_capacity(cache: lru::LruCache<String, ProcessImage>) -> nat;

/// The position of the first entry under `key`, or the number of entries if
/// there is none.
pub open spec fn index_of(entries: Seq<Entry>, key: Seq<char>) -> int
    decreases entries.len(),
{
    if entries.len() == 0 {
        0
    } else if entries[0].0 == key {
        0
    } else {
        1 + index_of(entries.drop_first(), key)
    }
}

/// Whether some entry is stored under `key`.
pub open spec fn holds(entries: Seq<Entry>, key: Seq<char>) -> bool {
    index_of(entries, key) < entries.len()
}

/// The entries without the one under `key`.
pub open spec fn without(entries: Seq<Entry>, key: Seq<char>) -> Seq<Entry> {
    if holds(entries, key) {
        entries.remove(index_of(entries, key))
    } else {
        entries
    }
}

/// The entries after a lookup of `key`: a hit moves its entry to the front.
pub open spec fn after_get(entries: Seq<Entry>, key: Seq<char>) -> Seq<Entry> {
    if holds(entries, key) {
        seq![entries[index_of(entries, key)]] + without(entries, key)
    } else {
        entries
    }
}

/// The entries after `value` was put under `key` into a cache of `capacity`:
/// the new entry comes first and replaces an older one under the same key;
/// where the cache was full of other keys, the least recently used entry leaves.
pub open spec fn after_put(
    entries: Seq<Entry>,
    capacity: nat,
    key: Seq<char>,
    value: ProcessImageView,
) -> Seq<Entry> {
    let rest = without(entries, key);
    seq![(key, value)] + if rest.len() >= capacity {
        rest.drop_last()
    } else {
        rest
    }
}

/// No two entries share a key.
pub open spec fn distinct_keys(entries: Seq<Entry>) -> bool {
    forall|i: int, j: int|
        0 <= i < entries.len() && 0 <= j < entries.len() && i != j ==> entries[i].0
            != entries[j].0
}

/// The number of entries under `key`.
pub open spec fn count_key(entries: Seq<Entry>, key: Seq<char>) -> nat
    decreases entries.len(),
{
    if entries.len() == 0 {
        0
    } else {
        count_key(entries.drop_last(), key) + if entries.last().0 == key {
            1nat
        } else {
            0nat
        }
    }
}

/// `LruCache::new` with a capacity that is not zero and small enough to be
/// set aside at once: the new cache is empty and remembers its capacity.
#[verifier::external_body]
fn new_lru(capacity: usize) -> (r: lru::LruCache<String, ProcessImage>)
    requires
        0 < capacity <= MAX_CACHE_CAPACITY,
    ensures
        cache_entries(r) == Seq::<Entry>::empty(),
        cache_capacity(r) == capacity,
{
    lru::LruCache::new(std::num::NonZeroUsize::new(capacity).unwrap())
}

/// `LruCache::get`: a hit hands out the value under the key, here as a copy,
/// and moves the entry to the front; a miss changes nothing.
#[verifier::external_body]
fn lru_get(cache: &mut lru::LruCache<String, ProcessImage>, key: &String) -> (r: Option<ProcessImage>)
    ensures
        cache_entries(*final(cache)) == after_get(cache_entries(*old(cache)), key@),
        cache_capacity(*final(cache)) == cache_capacity(*old(cache)),
        match r {
            Some(image) => holds(cache_entries(*old(cache)), key@) && image@ == cache_entries(
                *old(cache),
            )[index_of(cache_entries(*old(cache)), key@)].1,
            None => !holds(cache_entries(*old(cache)), key@),
        },
    no_unwind
{
    cache.get(key).map(|image| image.duplicate())
}

/// `LruCache::put`: the entry becomes the most recently used one; an entry
/// under the same key is replaced, and where the cache is full of other keys
/// the least recently used entry is dropped.
#[verifier::external_body]
fn lru_put(cache: &mut lru::LruCache<String, ProcessImage>, key: String, value: ProcessImage)
    ensures
        cache_entries(*final(cache)) == after_put(
            cache_entries(*old(cache)),
            cache_capacity(*old(cache)),
            key@,
            value@,
        ),
        cache_capacity(*final(cache)) == cache_capacity(*old(cache)),
    no_unwind
{
    cache.put(key, value);
}

/// `LruCache::len`: the number of entries.
#[verifier::external_body]
fn lru_len(cache: &lru::LruCache<String, ProcessImage>) -> (r: usize)
    ensures
        r == cache_entries(*cache).len(),
{
    cache.len()
}

/// `LruCache::contains`: whether an entry is stored under the key; the order
/// of the entries is left alone.
#[verifier::external_body]
fn lru_contains(cache: &lru::LruCache<String, ProcessImage>, key: &String) -> (r: bool)
    ensures
        r == holds(cache_entries(*cache), key@),
{
    cache.contains(key)
}

/// `index_of` points at an entry under the key or past the end, and no entry
/// before it is under the key.
pub proof fn lemma_index_of(entries: Seq<Entry>, key: Seq<char>)
    ensures
        0 <= index_of(entries, key) <= entries.len(),
        holds(entries, key) ==> entries[index_of(entries, key)].0 == key,
        forall|k: int| 0 <= k < index_of(entries, key) ==> entries[k].0 != key,
    decreases entries.len(),
{
    if entries.len() > 0 && entries[0].0 != key {
        lemma_index_of(entries.drop_first(), key);
        assert forall|k: int| 0 <= k < index_of(entries, key) implies entries[k].0 != key by {
            if k > 0 {
                assert(entries[k] == entries.drop_first()[k - 1]);
            }
        }
    }
}

/// Where keys are distinct, none of the entries left without `key` is under `key`.
pub proof fn lemma_without(entries: Seq<Entry>, key: Seq<char>)
    requires
        distinct_keys(entries),
    ensures
        distinct_keys(without(entries, key)),
        forall|k: int| 0 <= k < without(entries, key).len() ==> without(entries, key)[k].0 != key,
        without(entries, key).len() <= entries.len(),
        holds(entries, key) ==> without(entries, key).len() + 1 == entries.len(),
{
    lemma_index_of(entries, key);
    let rest = without(entries, key);
    let at = index_of(entries, key);
    if holds(entries, key) {
        assert forall|k: int| 0 <= k < rest.len() implies rest[k].0 != key by {
            if k < at {
                assert(rest[k] == entries[k]);
            } else {
                assert(rest[k] == entries[k + 1]);
            }
        }
        assert forall|i: int, j: int| 0 <= i < rest.len() && 0 <= j < rest.len() && i != j implies rest[i].0
            != rest[j].0 by {
            let si = if i < at {
                i
            } else {
                i + 1
            };
            let sj = if j < at {
                j
            } else {
                j + 1
            };
            assert(rest[i] == entries[si]);
            assert(rest[j] == entries[sj]);
        }
    }
}

/// A lookup keeps the keys distinct, the number of entries, and what is
/// stored under each key.
pub proof fn lemma_get_preserves(entries: Seq<Entry>, key: Seq<char>)
    requires
        distinct_keys(entries),
    ensures
        distinct_keys(after_get(entries, key)),
        after_get(entries, key).len() == entries.len(),
        holds(entries, key) ==> after_get(entries, key)[0] == entries[index_of(entries, key)],
{
    lemma_index_of(entries, key);
    lemma_without(entries, key);
    if holds(entries, key) {
        let rest = without(entries, key);
        let now = after_get(entries, key);
        assert forall|i: int, j: int| 0 <= i < now.len() && 0 <= j < now.len() && i != j implies now[i].0
            != now[j].0 by {
            if i > 0 {
                assert(now[i] == rest[i - 1]);
            }
            if j > 0 {
                assert(now[j] == rest[j - 1]);
            }
        }
    }
}

/// After a put the keys are still distinct, the cache is within its
/// capacity, and the new entry is the first one.
pub proof fn lemma_put_preserves(entries: Seq<Entry>, capacity: nat, key: Seq<char>, value: ProcessImageView)
    requires
        distinct_keys(entries),
        entries.len() <= capacity,
        capacity > 0,
    ensures
        distinct_keys(after_put(entries, capacity, key, value)),
        after_put(entries, capacity, key, value).len() <= capacity,
        after_put(entries, capacity, key, value)[0] == (key, value),
        index_of(after_put(entries, capacity, key, value), key) == 0,
        holds(after_put(entries, capacity, key, value), key),
{
    lemma_without(entries, key);
    let rest = without(entries, key);
    let kept = if rest.len() >= capacity {
        rest.drop_last()
    } else {
        rest
    };
    let now = after_put(entries, capacity, key, value);
    assert forall|i: int, j: int| 0 <= i < now.len() && 0 <= j < now.len() && i != j implies now[i].0
        != now[j].0 by {
        if i > 0 {
            assert(now[i] == kept[i - 1]);
            assert(kept[i - 1] == rest[i - 1]);
        }
        if j > 0 {
            assert(now[j] == kept[j - 1]);
            assert(kept[j - 1] == rest[j - 1]);
        }
    }
}

/// Where keys are distinct, a key that is held is held exactly once, and one
/// that is not held, not at all.
pub proof fn lemma_count_key(entries: Seq<Entry>, key: Seq<char>)
    requires
        distinct_keys(entries),
    ensures
        count_key(entries, key) == if holds(entries, key) {
            1nat
        } else {
            0nat
        },
    decreases entries.len(),
{
    lemma_index_of(entries, key);
    if entries.len() > 0 {
        let front = entries.drop_last();
        assert forall|i: int, j: int| 0 <= i < front.len() && 0 <= j < front.len() && i != j implies front[i].0
            != front[j].0 by {
            assert(front[i] == entries[i]);
            assert(front[j] == entries[j]);
        }
        lemma_count_key(front, key);
        lemma_index_of(front, key);
        let last = entries.len() - 1;
        if holds(front, key) {
            let at = index_of(front, key);
            assert(front[at] == entries[at]);
            assert(entries[at].0 == key);
            assert(entries[last].0 != key);
            if index_of(entries, key) >= entries.len() {
                assert(entries[at].0 != key);
            }
        } else {
            assert forall|k: int| 0 <= k < front.len() implies entries[k].0 != key by {
                assert(front[k] == entries[k]);
            }
            if entries[last].0 == key {
                if index_of(entries, key) >= entries.len() {
                    assert(entries[last].0 != key);
                }
            } else {
                if holds(entries, key) {
                    let at = index_of(entries, key);
                    assert(entries[at].0 == key);
                }
            }
        }
    }
}

/// Two puts under one key leave exactly one entry under it: the second one.
/// The first put may have made room; the second changes no other entry.
pub proof fn lemma_put_twice(
    entries: Seq<Entry>,
    capacity: nat,
    key: Seq<char>,
    first: ProcessImageView,
    second: ProcessImageView,
)
    requires
        distinct_keys(entries),
        entries.len() <= capacity,
        capacity > 0,
    ensures
        ({
            let once = after_put(entries, capacity, key, first);
            let twice = after_put(once, capacity, key, second);
            &&& count_key(twice, key) == 1
            &&& twice[0] == (key, second)
            &&& twice.len() == once.len()
            &&& twice.drop_first() == once.drop_first()
        }),
{
    let once = after_put(entries, capacity, key, first);
    lemma_put_preserves(entries, capacity, key, first);
    let twice = after_put(once, capacity, key, second);
    lemma_put_preserves(once, capacity, key, second);
    lemma_count_key(twice, key);
    lemma_without(once, key);
    assert(without(once, key) =~= once.drop_first());
    assert(twice.drop_first() =~= once.drop_first());
}

/// The capacity of the watermark cache.
pub const WATERMARK_CACHE_CAPACITY: usize = 10;

/// The largest capacity that a cache can be made with.
pub const MAX_CACHE_CAPACITY: usize = 65536;

/// The cache of watermark sources: the images that were loaded for
/// watermarks, by locator, of which the least recently used leaves when a
/// new one finds the cache full.
pub struct WatermarkCache {
    inner: lru::LruCache<String, ProcessImage>,
}

impl WatermarkCache {
    #[verifier::type_invariant]
    spec fn well_formed(self) -> bool {
        &&& distinct_keys(cache_entries(self.inner))
        &&& cache_entries(self.inner).len() <= cache_capacity(self.inner)
        &&& cache_capacity(self.inner) > 0
    }

    /// What the cache holds, the most recently used entry first.
    pub closed spec fn entries(&self) -> Seq<Entry> {
        cache_entries(self.inner)
    }

    /// The number of entries that the cache holds at most.
    pub closed spec fn capacity(&self) -> nat {
        cache_capacity(self.inner)
    }

    /// An empty cache of the usual capacity.
    pub fn new() -> (r: Self)
        ensures
            r.entries() == Seq::<Entry>::empty(),
            r.capacity() == WATERMARK_CACHE_CAPACITY,
    {
        WatermarkCache { inner: new_lru(WATERMARK_CACHE_CAPACITY) }
    }

    /// An empty cache of the given capacity, which is between 1 and
    /// `MAX_CACHE_CAPACITY`.
    pub fn with_capacity(capacity: usize) -> (r: Option<Self>)
        ensures
            r is Some <==> 0 < capacity <= MAX_CACHE_CAPACITY,
            r is Some ==> r->0.entries() == Seq::<Entry>::empty() && r->0.capacity() == capacity,
    {
        if capacity == 0 || capacity > MAX_CACHE_CAPACITY {
            None
        } else {
            Some(WatermarkCache { inner: new_lru(capacity) })
        }
    }

    /// The number of entries.
    pub fn len(&self) -> (r: usize)
        ensures
            r == self.entries().len(),
            r <= self.capacity(),
    {
        proof {
            use_type_invariant(self);
        }
        lru_len(&self.inner)
    }

    /// Whether an image is stored under `key`.
    pub fn contains(&self, key: &String) -> (r: bool)
        ensures
            r == holds(self.entries(), key@),
    {
        lru_contains(&self.inner, key)
    }

    /// A copy of the image stored under `key`, if there is one; the entry
    /// becomes the most recently used.
    pub fn get_image_cache(&mut self, key: &String) -> (r: Option<ProcessImage>)
        ensures
            final(self).entries() == after_get(old(self).entries(), key@),
            final(self).capacity() == old(self).capacity(),
            final(self).entries().len() == old(self).entries().len(),
            distinct_keys(final(self).entries()),
            match r {
                Some(image) => holds(old(self).entries(), key@) && image@ == old(self).entries()[index_of(
                    old(self).entries(),
                    key@,
                )].1,
                None => !holds(old(self).entries(), key@),
            },
    {
        proof {
            use_type_invariant(&*self);
            lemma_get_preserves(cache_entries(self.inner), key@);
        }
        lru_get(&mut self.inner, key)
    }

    /// Stores a copy of `v` under `key` as the most recently used entry. It
    /// replaces an entry under the same key; where the cache is full of
    /// other keys, the least recently used entry leaves.
    pub fn set_image_cache(&mut self, key: String, v: &ProcessImage)
        ensures
            final(self).entries() == after_put(old(self).entries(), old(self).capacity(), key@, v@),
            final(self).capacity() == old(self).capacity(),
            final(self).entries().len() <= final(self).capacity(),
            distinct_keys(final(self).entries()),
            holds(final(self).entries(), key@),
            count_key(final(self).entries(), key@) == 1,
    {
        proof {
            use_type_invariant(&*self);
            lemma_put_preserves(cache_entries(self.inner), cache_capacity(self.inner), key@, v@);
            lemma_count_key(
                after_put(cache_entries(self.inner), cache_capacity(self.inner), key@, v@),
                key@,
            );
        }
        lru_put(&mut self.inner, key, v.duplicate());
    }
}

} // verus!
