//! The cache that stands before every download.
//!
//! Payloads are kept under the oid of their object, in a
//! `cached::TimedSizedCache`: it keeps a bounded number of entries, evicts
//! the one unused for longest, and lets an entry expire a fixed time after
//! it was stored. An oid names one content, so whatever is found under it
//! can be served without asking the network again.

use cached::Cached;
use vstd::prelude::*;

use crate::error::IndexError;
use crate::lfs::{bytes_view, clone_bytes};

verus! {

/// How many payloads the cache of a process keeps.
pub const CACHE_CAPACITY: usize = 100;

/// For how many seconds a payload is served from the cache.
pub const CACHE_LIFESPAN: u64 = 1800;

/// The most entries that a cache can be made for.
pub const MAX_CAPACITY: usize = 65536;

/// What a store holds: each key with its payload, from the entry used last
/// to the one unused for longest.
pub uninterp spec fn store_entries(store: cached::TimedSizedCache<String, bytes::Bytes>) -> Seq<
    (Seq<char>, Seq<u8>),
>;

/// How many entries a store was made for.
pub uninterp spec fn store_limit(store: cached::TimedSizedCache<String, bytes::Bytes>) -> nat;

/// A cache as contracts see it: the most entries it keeps, and the entries,
/// from the one used last to the one unused for longest.
pub struct CacheView {
    pub limit: nat,
    pub entries: Seq<(Seq<char>, Seq<u8>)>,
}

impl CacheView {
    /// Whether an entry stands under `key`.
    pub open spec fn has(self, key: Seq<char>) -> bool {
        exists|i: int| 0 <= i < self.entries.len() && (#[trigger] self.entries[i]).0 == key
    }

    /// Where the entry under `key` stands.
    pub open spec fn place(self, key: Seq<char>) -> int {
        choose|i: int| 0 <= i < self.entries.len() && (#[trigger] self.entries[i]).0 == key
    }

    /// The payload kept under `key`.
    pub open spec fn held(self, key: Seq<char>) -> Option<Seq<u8>> {
        if self.has(key) {
            Some(self.entries[self.place(key)].1)
        } else {
            None
        }
    }

    /// The cache after the entry under `key` was used: it is the one used
    /// last.
    pub open spec fn touch(self, key: Seq<char>) -> Self {
        if self.has(key) {
            let at = self.place(key);
            CacheView { entries: seq![self.entries[at]] + self.entries.remove(at), ..self }
        } else {
            self
        }
    }

    /// The cache without the entry under `key`.
    pub open spec fn forget(self, key: Seq<char>) -> Self {
        if self.has(key) {
            CacheView { entries: self.entries.remove(self.place(key)), ..self }
        } else {
            self
        }
    }

    /// The cache after `data` was stored under `key`. A key that is there
    /// keeps its place and gets the new payload. A new key becomes the one
    /// used last, and where that makes one entry too many, the one unused
    /// for longest leaves.
    pub open spec fn insert(self, key: Seq<char>, data: Seq<u8>) -> Self {
        if self.has(key) {
            CacheView { entries: self.entries.update(self.place(key), (key, data)), ..self }
        } else if self.entries.len() + 1 > self.limit {
            CacheView { entries: (seq![(key, data)] + self.entries).drop_last(), ..self }
        } else {
            CacheView { entries: seq![(key, data)] + self.entries, ..self }
        }
    }

    /// The states that a cache can be in: no key stands twice, and no more
    /// entries are kept than the limit allows.
    pub open spec fn wf(self) -> bool {
        &&& self.limit > 0
        &&& self.entries.len() <= self.limit
        &&& forall|i: int, j: int|
            0 <= i < j < self.entries.len() ==> (#[trigger] self.entries[i]).0 != (
            #[trigger] self.entries[j]).0
    }
}

/// `TimedSizedCache::with_size_and_lifespan`: an empty store for `size`
/// entries. It refuses a size of zero.
#[verifier::external_body]
fn new_store(size: usize, seconds: u64) -> (store: cached::TimedSizedCache<String, bytes::Bytes>)
    requires
        0 < size <= MAX_CAPACITY,
    ensures
        store_entries(store) == Seq::<(Seq<char>, Seq<u8>)>::empty(),
        store_limit(store) == size,
{
    cached::TimedSizedCache::with_size_and_lifespan(size, seconds)
}

/// `Cached::cache_get` of `TimedSizedCache`, with the payload cloned. A hit
/// gives the payload that stands under the key and makes its entry the one
/// used last. There is no hit where nothing stands under the key, nor where
/// the entry has outlived its time: then the entry is removed.
#[verifier::external_body]
fn store_get(store: &mut cached::TimedSizedCache<String, bytes::Bytes>, key: &str) -> (hit: Option<
    bytes::Bytes,
>)
    ensures
        store_limit(*final(store)) == store_limit(*old(store)),
        match hit {
            Some(data) => {
                let before = CacheView {
                    limit: store_limit(*old(store)),
                    entries: store_entries(*old(store)),
                };
                &&& before.held(key@) == Some(bytes_view(data))
                &&& store_entries(*final(store)) == before.touch(key@).entries
            },
            None => {
                let before = CacheView {
                    limit: store_limit(*old(store)),
                    entries: store_entries(*old(store)),
                };
                store_entries(*final(store)) == before.forget(key@).entries
            },
        },
{
    store.cache_get(key).cloned()
}

/// `Cached::cache_set` of `TimedSizedCache`: the payload stands under the
/// key afterwards. A key that was there keeps its place; a new one becomes
/// the entry used last, and the entry unused for longest is evicted where
/// the store would else hold more than it was made for.
#[verifier::external_body]
fn store_set(
    store: &mut cached::TimedSizedCache<String, bytes::Bytes>,
    key: String,
    data: bytes::Bytes,
)
    ensures
        store_limit(*final(store)) == store_limit(*old(store)),
        store_entries(*final(store)) == (CacheView {
            limit: store_limit(*old(store)),
            entries: store_entries(*old(store)),
        }).insert(key@, bytes_view(data)).entries,
{
    store.cache_set(key, data);
}

/// The cache of downloaded payloads, by oid.
pub struct FetchCache {
    store: cached::TimedSizedCache<String, bytes::Bytes>,
}

impl View for FetchCache {
    type V = CacheView;

    closed spec fn view(&self) -> CacheView {
        CacheView { limit: store_limit(self.store), entries: store_entries(self.store) }
    }
}

/// Using an entry leaves a cache in order.
pub proof fn touch_keeps_wf(cache: CacheView, key: Seq<char>)
    requires
        cache.wf(),
    ensures
        cache.touch(key).wf(),
{
    if cache.has(key) {
        let at = cache.place(key);
        let after = cache.touch(key).entries;
        assert forall|i: int, j: int| 0 <= i < j < after.len() implies (#[trigger] after[i]).0 != (
        #[trigger] after[j]).0 by {
            let from_i = if i == 0 { at } else if i - 1 < at { i - 1 } else { i };
            let from_j = if j - 1 < at { j - 1 } else { j };
            assert(after[i] == cache.entries[from_i]);
            assert(after[j] == cache.entries[from_j]);
        }
    }
}

/// Removing an entry leaves a cache in order, and nothing under its key.
pub proof fn forget_keeps_wf(cache: CacheView, key: Seq<char>)
    requires
        cache.wf(),
    ensures
        cache.forget(key).wf(),
        !cache.forget(key).has(key),
{
    if cache.has(key) {
        let at = cache.place(key);
        let after = cache.forget(key).entries;
        assert forall|i: int, j: int| 0 <= i < j < after.len() implies (#[trigger] after[i]).0 != (
        #[trigger] after[j]).0 by {
            let from_i = if i < at { i } else { i + 1 };
            let from_j = if j < at { j } else { j + 1 };
            assert(after[i] == cache.entries[from_i]);
            assert(after[j] == cache.entries[from_j]);
        }
        assert forall|i: int| 0 <= i < after.len() implies (#[trigger] after[i]).0 != key by {
            let from_i = if i < at { i } else { i + 1 };
            assert(after[i] == cache.entries[from_i]);
        }
    }
}

/// Storing a payload leaves a cache in order, and the payload under its
/// key.
pub proof fn insert_keeps_wf(cache: CacheView, key: Seq<char>, data: Seq<u8>)
    requires
        cache.wf(),
    ensures
        cache.insert(key, data).wf(),
        cache.insert(key, data).held(key) == Some(data),
{
    let after = cache.insert(key, data).entries;
    if cache.has(key) {
        let at = cache.place(key);
        assert forall|i: int, j: int| 0 <= i < j < after.len() implies (#[trigger] after[i]).0 != (
        #[trigger] after[j]).0 by {
            assert(after[i].0 == cache.entries[i].0);
            assert(after[j].0 == cache.entries[j].0);
        }
        assert(after[at].0 == key);
        let found = cache.insert(key, data).place(key);
        if found != at {
            assert(after[found].0 == cache.entries[found].0);
            if found < at {
                assert(cache.entries[found].0 != cache.entries[at].0);
            } else {
                assert(cache.entries[at].0 != cache.entries[found].0);
            }
        }
    } else {
        assert forall|i: int, j: int| 0 <= i < j < after.len() implies (#[trigger] after[i]).0 != (
        #[trigger] after[j]).0 by {
            assert(after[j] == cache.entries[j - 1]);
            if i > 0 {
                assert(after[i] == cache.entries[i - 1]);
            }
        }
        assert(after[0].0 == key);
        let found = cache.insert(key, data).place(key);
        if found != 0 {
            assert(after[found] == cache.entries[found - 1]);
        }
    }
}

impl FetchCache {
    /// What holds of every cache, whatever was done with it.
    pub closed spec fn wf(&self) -> bool {
        self@.wf()
    }

    /// An empty cache of the size and lifespan that the index uses.
    pub fn new() -> (cache: Self)
        ensures
            cache.wf(),
            cache@ == (CacheView { limit: CACHE_CAPACITY as nat, entries: Seq::empty() }),
    {
        FetchCache { store: new_store(CACHE_CAPACITY, CACHE_LIFESPAN) }
    }

    /// An empty cache for up to `capacity` payloads, each of which is served
    /// for `seconds` seconds after it was stored. There is no cache for no
    /// payload, nor for more than [`MAX_CAPACITY`].
    pub fn with_limits(capacity: usize, seconds: u64) -> (made: Option<Self>)
        ensures
            made is Some <==> 0 < capacity <= MAX_CAPACITY,
            made is Some ==> made->Some_0.wf() && made->Some_0@ == (CacheView {
                limit: capacity as nat,
                entries: Seq::empty(),
            }),
    {
        if capacity == 0 || capacity > MAX_CAPACITY {
            None
        } else {
            Some(FetchCache { store: new_store(capacity, seconds) })
        }
    }

    /// Looks for the payload of `oid`. What is found is what was stored
    /// under that oid, and finding it makes the entry the one used last;
    /// then no download is needed. After a miss nothing stands under the
    /// oid: an entry that has outlived its time is removed.
    pub fn lookup(&mut self, oid: &str) -> (hit: Option<bytes::Bytes>)
        requires
            old(self).wf(),
        ensures
            final(self).wf(),
            match hit {
                Some(data) => {
                    &&& old(self)@.held(oid@) == Some(bytes_view(data))
                    &&& final(self)@ == old(self)@.touch(oid@)
                },
                None => {
                    &&& final(self)@ == old(self)@.forget(oid@)
                    &&& final(self)@.held(oid@) is None
                },
            },
    {
        proof {
            touch_keeps_wf(self@, oid@);
            forget_keeps_wf(self@, oid@);
        }
        store_get(&mut self.store, oid)
    }

    /// Takes the outcome of a download of `oid`. A payload is stored under
    /// the oid and handed on; a failure is handed on and not stored, so that
    /// the next request for the oid asks the network again.
    pub fn settle(&mut self, oid: &str, outcome: Result<bytes::Bytes, IndexError>) -> (served:
        Result<bytes::Bytes, IndexError>)
        requires
            old(self).wf(),
        ensures
            final(self).wf(),
            match outcome {
                Ok(data) => {
                    &&& served is Ok
                    &&& bytes_view(served->Ok_0) == bytes_view(data)
                    &&& final(self)@ == old(self)@.insert(oid@, bytes_view(data))
                    &&& final(self)@.held(oid@) == Some(bytes_view(data))
                },
                Err(e) => {
                    &&& served == Err::<bytes::Bytes, IndexError>(e)
                    &&& final(self)@ == old(self)@
                },
            },
    {
        match outcome {
            Ok(data) => {
                proof {
                    insert_keeps_wf(self@, oid@, bytes_view(data));
                }
                let copy = clone_bytes(&data);
                store_set(&mut self.store, oid.to_owned(), copy);
                Ok(data)
            },
            Err(e) => Err(e),
        }
    }
}

impl CacheView {
    /// The cache after payloads were stored under keys, one after another.
    pub open spec fn fill(self, keys: Seq<Seq<char>>, payloads: Seq<Seq<u8>>) -> Self
        decreases keys.len(),
    {
        if keys.len() == 0 {
            self
        } else {
            self.fill(keys.drop_last(), payloads.drop_last()).insert(keys.last(), payloads.last())
        }
    }
}

/// Whether no key stands twice in `keys`.
pub open spec fn distinct(keys: Seq<Seq<char>>) -> bool {
    forall|i: int, j: int| 0 <= i < j < keys.len() ==> keys[i] != keys[j]
}

/// What an empty cache holds after payloads were stored under distinct
/// keys: the entries stored last, as many as the limit allows, the last one
/// first.
pub proof fn fill_keeps_the_latest(limit: nat, keys: Seq<Seq<char>>, payloads: Seq<Seq<u8>>)
    requires
        limit > 0,
        payloads.len() == keys.len(),
        distinct(keys),
    ensures
        ({
            let cache = (CacheView { limit, entries: Seq::empty() }).fill(keys, payloads);
            &&& cache.limit == limit
            &&& cache.wf()
            &&& cache.entries.len() == if keys.len() <= limit {
                keys.len()
            } else {
                limit
            }
            &&& forall|j: int|
                0 <= j < cache.entries.len() ==> #[trigger] cache.entries[j] == (
                    keys[keys.len() - 1 - j],
                    payloads[keys.len() - 1 - j],
                )
        }),
    decreases keys.len(),
{
    let empty = CacheView { limit, entries: Seq::empty() };
    if keys.len() > 0 {
        let n = keys.len() as int;
        fill_keeps_the_latest(limit, keys.drop_last(), payloads.drop_last());
        let before = empty.fill(keys.drop_last(), payloads.drop_last());
        let after = before.insert(keys.last(), payloads.last());
        assert(!before.has(keys.last())) by {
            if before.has(keys.last()) {
                let at = before.place(keys.last());
                assert(before.entries[at].0 == keys.drop_last()[n - 2 - at]);
            }
        }
        insert_keeps_wf(before, keys.last(), payloads.last());
        assert forall|j: int| 0 <= j < after.entries.len() implies #[trigger] after.entries[j] == (
            keys[n - 1 - j],
            payloads[n - 1 - j],
        ) by {
            if j > 0 {
                assert(after.entries[j] == before.entries[j - 1]);
                assert(keys.drop_last()[n - 1 - j] == keys[n - 1 - j]);
                assert(payloads.drop_last()[n - 1 - j] == payloads[n - 1 - j]);
            }
        }
    }
}

/// Storing one payload more than the cache keeps, each under a key of its
/// own, evicts exactly one entry: the one stored first. The cache then
/// holds nothing under that key, so a lookup of it misses, and it still
/// holds every other payload.
pub proof fn one_too_many_evicts_the_first(
    limit: nat,
    keys: Seq<Seq<char>>,
    payloads: Seq<Seq<u8>>,
)
    requires
        limit > 0,
        keys.len() == limit + 1,
        payloads.len() == keys.len(),
        distinct(keys),
    ensures
        ({
            let cache = (CacheView { limit, entries: Seq::empty() }).fill(keys, payloads);
            &&& cache.entries.len() == limit
            &&& cache.held(keys[0]) is None
            &&& forall|i: int| 1 <= i <= limit ==> cache.held(#[trigger] keys[i]) == Some(payloads[i])
        }),
{
    fill_keeps_the_latest(limit, keys, payloads);
    let cache = (CacheView { limit, entries: Seq::empty() }).fill(keys, payloads);
    if cache.has(keys[0]) {
        let at = cache.place(keys[0]);
        assert(cache.entries[at].0 == keys[limit - at]);
    }
    assert forall|i: int| 1 <= i <= limit implies cache.held(#[trigger] keys[i]) == Some(
        payloads[i],
    ) by {
        assert(cache.entries[limit - i].0 == keys[i]);
        let at = cache.place(keys[i]);
        assert(cache.entries[at].0 == keys[limit - at]);
        assert(at == limit - i);
    }
}

/// What stands under an oid stays there, unchanged, while other entries are
/// used, stored or removed, as long as nothing is evicted: every lookup
/// that hits before the entry expires gives the payload that was stored.
pub proof fn payload_stays(cache: CacheView, oid: Seq<char>, other: Seq<char>, data: Seq<u8>)
    requires
        cache.wf(),
        cache.has(oid),
        other != oid,
    ensures
        cache.touch(oid).held(oid) == cache.held(oid),
        cache.touch(other).held(oid) == cache.held(oid),
        cache.forget(other).held(oid) == cache.held(oid),
        cache.has(other) || cache.entries.len() < cache.limit ==> cache.insert(other, data).held(
            oid,
        ) == cache.held(oid),
{
    let at = cache.place(oid);
    touch_keeps_wf(cache, oid);
    touch_keeps_wf(cache, other);
    forget_keeps_wf(cache, other);
    insert_keeps_wf(cache, other, data);
    same_key_same_place(cache.touch(oid), oid, 0, cache.entries[at]);
    if cache.has(other) {
        let there = cache.place(other);
        let moved = if at < there { at + 1 } else { at };
        assert(cache.touch(other).entries[moved] == cache.entries[at]);
        same_key_same_place(cache.touch(other), oid, moved, cache.entries[at]);
        let left = if at < there { at } else { at - 1 };
        assert(cache.forget(other).entries[left] == cache.entries[at]);
        same_key_same_place(cache.forget(other), oid, left, cache.entries[at]);
        assert(cache.insert(other, data).entries[at] == cache.entries[at]);
        same_key_same_place(cache.insert(other, data), oid, at, cache.entries[at]);
    } else if cache.entries.len() < cache.limit {
        assert(cache.insert(other, data).entries[at + 1] == cache.entries[at]);
        same_key_same_place(cache.insert(other, data), oid, at + 1, cache.entries[at]);
    }
}

/// No key stands twice, so an entry under a key is the one that is held
/// under it.
proof fn same_key_same_place(cache: CacheView, key: Seq<char>, at: int, entry: (Seq<char>, Seq<u8>))
    requires
        cache.wf(),
        0 <= at < cache.entries.len(),
        cache.entries[at] == entry,
        entry.0 == key,
    ensures
        cache.held(key) == Some(entry.1),
{
    let found = cache.place(key);
    assert(cache.entries[at].0 == key);
    if found < at {
        assert(cache.entries[found].0 != cache.entries[at].0);
    } else if at < found {
        assert(cache.entries[at].0 != cache.entries[found].0);
    }
}

} // verus!
