//! Artifact index with a generic resource cache.
//!
//! The index tracks three kinds of artifacts:
//! - web pages → YouTube URLs (page scraping results)
//! - YouTube URLs → audio files (downloaded audio paths)
//! - audio files → SRT files (generated caption paths)

use vstd::prelude::*;

verus! {

/// Cache operation strategy for resource access.
///
/// - `Get`: read-only, fails if not cached
/// - `GetOrInsert`: default behavior, computes if missing
/// - `Replace`: forces recomputation, ignores the cache
#[derive(Clone, Copy, Debug, PartialEq, Eq, Structural)]
pub enum CacheStrategy {
    /// Use existing cached value only (error if missing)
    Get,
    /// Use cache or compute if missing (default)
    GetOrInsert,
    /// Always recompute and update cache
    Replace,
}

impl Default for CacheStrategy {
    fn default() -> (s: Self)
        ensures
            s == CacheStrategy::GetOrInsert,
    {
        CacheStrategy::GetOrInsert
    }
}

/// Keys of a resource cache: two keys are the same key when their views are
/// equal.
pub trait CacheKey: View + Sized {
    fn same_key(&self, other: &Self) -> (r: bool)
        ensures
            r == (self@ == other@),
    ;
}

impl CacheKey for String {
    fn same_key(&self, other: &Self) -> (r: bool) {
        *self == *other
    }
}

impl<'a> CacheKey for &'a str {
    fn same_key(&self, other: &Self) -> (r: bool) {
        let a: String = (*self).to_owned();
        let b: String = (*other).to_owned();
        a == b
    }
}

impl CacheKey for u64 {
    fn same_key(&self, other: &Self) -> (r: bool) {
        *self == *other
    }
}

/// Why an access produced no value.
#[derive(Debug)]
pub enum AccessError<E> {
    /// `Get` found nothing under the key.
    NotCached,
    /// The factory failed.
    Factory(E),
}

/// Whether an access with `op` runs the factory: always for `Replace`, for
/// `GetOrInsert` when the key is absent, never for `Get`.
pub open spec fn calls_factory<K, V>(op: CacheStrategy, cached: Map<K, V>, key: K) -> bool {
    match op {
        CacheStrategy::Get => false,
        CacheStrategy::GetOrInsert => !cached.contains_key(key),
        CacheStrategy::Replace => true,
    }
}

/// What a lookup of `key` gives: the cached value, if any.
pub open spec fn lookup<K, V>(cached: Map<K, V>, key: K) -> Option<V> {
    if cached.contains_key(key) {
        Some(cached[key])
    } else {
        None
    }
}

/// The value an access hands out, taken by value.
pub open spec fn value_of<V, E>(res: Result<&V, AccessError<E>>) -> Result<V, AccessError<E>> {
    match res {
        Ok(v) => Ok(*v),
        Err(e) => Err(e),
    }
}

/// What an access of `key` with `op` does to the cache `before`, leaving
/// `after`, with the result `res`. Without running the factory it hands out the
/// cached value, or `NotCached` when there is none, and changes nothing. When
/// it runs the factory, a value the factory gave is stored under `key` and
/// handed out; a factory failure is handed out and changes nothing.
pub open spec fn access_outcome<K, V, E, F: FnOnce() -> Result<V, E>>(
    op: CacheStrategy,
    before: Map<K, V>,
    key: K,
    factory: F,
    res: Result<V, AccessError<E>>,
    after: Map<K, V>,
) -> bool {
    if !calls_factory(op, before, key) {
        &&& after == before
        &&& res matches Ok(v) ==> lookup(before, key) == Some(v)
        &&& res matches Err(e) ==> e is NotCached && !before.contains_key(key)
        &&& before.contains_key(key) ==> res is Ok
    } else {
        &&& res matches Ok(v) ==> call_ensures(factory, (), Ok::<V, E>(v)) && after == before.insert(key, v)
        &&& res matches Err(e) ==> e matches AccessError::Factory(x) && call_ensures(factory, (), Err::<V, E>(x)) && after == before
    }
}

/// Generic resource cache with a lazy factory; a map from keys to values.
pub struct ResourceCache<K: CacheKey, V> {
    entries: Vec<(K, V)>,
}

impl<K: CacheKey, V> View for ResourceCache<K, V> {
    type V = Map<<K as View>::V, V>;

    closed spec fn view(&self) -> Map<<K as View>::V, V> {
        Map::new(
            |k: <K as View>::V| exists|i: int| 0 <= i < self.entries.len() && (#[trigger] self.entries@[i]).0@ == k,
            |k: <K as View>::V|
                self.entries@[choose|i: int| 0 <= i < self.entries.len() && (#[trigger] self.entries@[i]).0@ == k].1,
        )
    }
}

impl<K: CacheKey, V> ResourceCache<K, V> {
    #[verifier::type_invariant]
    closed spec fn distinct_keys(self) -> bool {
        forall|i: int, j: int|
            0 <= i < self.entries.len() && 0 <= j < self.entries.len() && i != j ==> (
            #[trigger] self.entries@[i]).0@ != (#[trigger] self.entries@[j]).0@
    }

    proof fn lemma_entry(self, i: int)
        requires
            self.distinct_keys(),
            0 <= i < self.entries.len(),
        ensures
            self@.contains_key(self.entries@[i].0@),
            self@[self.entries@[i].0@] == self.entries@[i].1,
    {
        let k = self.entries@[i].0@;
        assert(self@.dom().contains(k));
        let j = choose|j: int| 0 <= j < self.entries.len() && (#[trigger] self.entries@[j]).0@ == k;
        assert(j == i);
    }

    /// Create empty cache
    pub fn new() -> (c: Self)
        ensures
            c@ == Map::<<K as View>::V, V>::empty(),
    {
        let c = Self { entries: Vec::new() };
        assert(c@ =~= Map::<<K as View>::V, V>::empty());
        c
    }

    fn find(&self, key: &K) -> (r: Option<usize>)
        ensures
            r matches Some(i) ==> i < self.entries.len() && self.entries@[i as int].0@ == key@,
            r is None ==> !self@.contains_key(key@),
    {
        let n = self.entries.len();
        for i in 0..n
            invariant
                n == self.entries.len(),
                forall|j: int| 0 <= j < i ==> (#[trigger] self.entries@[j]).0@ != key@,
        {
            if self.entries[i].0.same_key(key) {
                return Some(i);
            }
        }
        None
    }

    /// Get cached value without factory (read-only access).
    pub fn get(&self, key: &K) -> (r: Option<&V>)
        ensures
            r is Some <==> self@.contains_key(key@),
            r matches Some(v) ==> *v == self@[key@],
    {
        proof {
            use_type_invariant(self);
        }
        match self.find(key) {
            Some(i) => {
                proof {
                    self.lemma_entry(i as int);
                }
                Some(&self.entries[i].1)
            },
            None => None,
        }
    }

    /// The cached entries, one per key, in no promised order.
    pub fn entries(&self) -> (es: &Vec<(K, V)>)
        ensures
            forall|i: int, j: int|
                0 <= i < es.len() && 0 <= j < es.len() && i != j ==> (#[trigger] es@[i]).0@
                    != (#[trigger] es@[j]).0@,
            forall|i: int| 0 <= i < es.len() ==> self@.contains_key((#[trigger] es@[i]).0@)
                && self@[es@[i].0@] == es@[i].1,
            forall|k: <K as View>::V| self@.contains_key(k) ==> exists|i: int| 0 <= i < es.len() && (#[trigger] es@[i]).0@ == k,
    {
        proof {
            use_type_invariant(self);
            assert forall|i: int| 0 <= i < self.entries.len() implies self@.contains_key((#[trigger] self.entries@[i]).0@)
                && self@[self.entries@[i].0@] == self.entries@[i].1 by {
                self.lemma_entry(i);
            }
        }
        &self.entries
    }

    /// Stores `value` under `key` and tells where it went.
    fn store(&mut self, key: K, value: V) -> (idx: usize)
        ensures
            final(self)@ == old(self)@.insert(key@, value),
            idx < final(self).entries.len(),
            final(self).entries@[idx as int].1 == value,
    {
        proof {
            use_type_invariant(&*self);
        }
        let ghost old_view = self@;
        let ghost k = key@;
        let found = self.find(&key);
        let mut entries: Vec<(K, V)> = Vec::new();
        std::mem::swap(&mut entries, &mut self.entries);
        let ghost old_entries = entries@;
        let idx = match found {
            Some(i) => {
                entries.set(i, (key, value));
                i
            },
            None => {
                entries.push((key, value));
                entries.len() - 1
            },
        };
        proof {
            assert forall|i: int, j: int|
                0 <= i < entries.len() && 0 <= j < entries.len() && i != j implies (
                #[trigger] entries@[i]).0@ != (#[trigger] entries@[j]).0@ by {
                if i != idx && j != idx {
                    assert(old_entries[i] == entries@[i]);
                    assert(old_entries[j] == entries@[j]);
                }
            }
        }
        self.entries = entries;
        proof {
            let new_view = self@;
            let expected = old_view.insert(k, value);
            assert forall|q: <K as View>::V| #[trigger] new_view.contains_key(q) <==> expected.contains_key(q) by {
                if new_view.contains_key(q) {
                    let i = choose|i: int| 0 <= i < self.entries.len() && (#[trigger] self.entries@[i]).0@ == q;
                    if i != idx {
                        assert(old_entries[i] == self.entries@[i]);
                    }
                }
                if expected.contains_key(q) && q != k {
                    let i = choose|i: int| 0 <= i < old_entries.len() && (#[trigger] old_entries[i]).0@ == q;
                    assert(self.entries@[i] == old_entries[i]);
                }
                if q == k {
                    assert(self.entries@[idx as int].0@ == k);
                }
            }
            assert forall|q: <K as View>::V| #[trigger] new_view.contains_key(q) implies new_view[q] == expected[q] by {
                let i = choose|i: int| 0 <= i < self.entries.len() && (#[trigger] self.entries@[i]).0@ == q;
                self.lemma_entry(i);
                if q == k {
                    assert(i == idx);
                } else {
                    assert(i != idx);
                    assert(old_entries[i] == self.entries@[i]);
                    assert(old_view.contains_key(q));
                    let oi = choose|oi: int| 0 <= oi < old_entries.len() && (#[trigger] old_entries[oi]).0@ == q;
                    assert(oi == i);
                }
            }
            assert(new_view =~= expected);
        }
        idx
    }

    /// Insert or update value.
    pub fn insert(&mut self, key: K, value: V)
        ensures
            final(self)@ == old(self)@.insert(key@, value),
    {
        self.store(key, value);
    }

    /// Access a resource with a cache operation and a factory.
    ///
    /// - `Get`: returns the cached value only (error if missing)
    /// - `GetOrInsert`: returns the cached value, or computes it with the
    ///   factory and caches it
    /// - `Replace`: always computes with the factory and updates the cache
    ///
    /// The factory does all the work and returns the value to be cached; when
    /// it fails, the cache is left as it was.
    pub fn access<F, E>(&mut self, key: K, op: CacheStrategy, factory: F) -> (res: Result<
        &V,
        AccessError<E>,
    >) where F: FnOnce() -> Result<V, E>
        requires
            call_requires(factory, ()),
        ensures
            access_outcome(op, old(self)@, key@, factory, value_of(res), final(self)@),
    {
        proof {
            use_type_invariant(&*self);
        }
        let found = self.find(&key);
        let compute = match op {
            CacheStrategy::Get => false,
            CacheStrategy::GetOrInsert => found.is_none(),
            CacheStrategy::Replace => true,
        };
        if !compute {
            match found {
                Some(i) => {
                    proof {
                        self.lemma_entry(i as int);
                    }
                    return Ok(&self.entries[i].1);
                },
                None => {
                    return Err(AccessError::NotCached);
                },
            }
        }
        match factory() {
            Ok(value) => {
                let idx = self.store(key, value);
                Ok(&self.entries[idx].1)
            },
            Err(e) => Err(AccessError::Factory(e)),
        }
    }
}

/// Reading a key right after writing it gives back the value written, and
/// every other key reads as before.
pub proof fn law_read_after_write<K, V>(before: Map<K, V>, key: K, value: V, other: K)
    ensures
        lookup(before.insert(key, value), key) == Some(value),
        other != key ==> lookup(before.insert(key, value), other) == lookup(before, other),
{
}

/// Once an access has produced a value for a key, a later `GetOrInsert` of
/// that key is answered from the cache with that value, without running its
/// factory.
pub proof fn law_access_then_cached<K, V, E, F: FnOnce() -> Result<V, E>>(
    op: CacheStrategy,
    before: Map<K, V>,
    key: K,
    factory: F,
    value: V,
    after: Map<K, V>,
)
    requires
        access_outcome(op, before, key, factory, Ok(value), after),
    ensures
        !calls_factory(CacheStrategy::GetOrInsert, after, key),
        lookup(after, key) == Some(value),
{
}

/// `Get` never runs the factory and `Replace` always does, whatever is cached.
pub proof fn law_strategy_and_factory<K, V>(cached: Map<K, V>, key: K)
    ensures
        !calls_factory(CacheStrategy::Get, cached, key),
        calls_factory(CacheStrategy::Replace, cached, key),
        calls_factory(CacheStrategy::GetOrInsert, cached, key) <==> !cached.contains_key(key),
{
}

/// Three-level artifact index data.
///
/// - pages: web page URL → resolved YouTube URLs
/// - audio: YouTube URL → downloaded audio path
/// - srt: audio path (canonical) → generated SRT path
pub struct IndexData {
    pub pages: ResourceCache<String, Vec<String>>,
    pub audio: ResourceCache<String, String>,
    pub srt: ResourceCache<String, String>,
}

impl Default for IndexData {
    fn default() -> (d: Self)
        ensures
            d.pages@ == Map::<Seq<char>, Vec<String>>::empty(),
            d.audio@ == Map::<Seq<char>, String>::empty(),
            d.srt@ == Map::<Seq<char>, String>::empty(),
    {
        IndexData { pages: ResourceCache::new(), audio: ResourceCache::new(), srt: ResourceCache::new() }
    }
}

/// Artifact index stored at `path`, with one cache strategy per artifact kind.
pub struct ArtifactCache {
    data: IndexData,
    path: String,
    cache_pages: CacheStrategy,
    cache_audio: CacheStrategy,
    cache_srt: CacheStrategy,
}

impl ArtifactCache {
    pub closed spec fn spec_data(&self) -> &IndexData {
        &self.data
    }

    pub closed spec fn spec_path(&self) -> Seq<char> {
        self.path@
    }

    pub closed spec fn spec_strategies(&self) -> (CacheStrategy, CacheStrategy, CacheStrategy) {
        (self.cache_pages, self.cache_audio, self.cache_srt)
    }

    /// An index over `data`, to be saved at `path`.
    pub fn new(
        data: IndexData,
        path: String,
        cache_pages: CacheStrategy,
        cache_audio: CacheStrategy,
        cache_srt: CacheStrategy,
    ) -> (c: Self)
        ensures
            *c.spec_data() == data,
            c.spec_path() == path@,
            c.spec_strategies() == (cache_pages, cache_audio, cache_srt),
    {
        ArtifactCache { data, path, cache_pages, cache_audio, cache_srt }
    }

    /// The index data.
    pub fn data(&self) -> (d: &IndexData)
        ensures
            d == self.spec_data(),
    {
        &self.data
    }

    /// Where the index is saved.
    pub fn path(&self) -> (p: &str)
        ensures
            p@ == self.spec_path(),
    {
        self.path.as_str()
    }

    /// Access the web page URLs cache with the pages strategy.
    pub fn ensure_pages<F, E>(&mut self, page_url: String, factory: F) -> (res: Result<
        &Vec<String>,
        AccessError<E>,
    >) where F: FnOnce() -> Result<Vec<String>, E>
        requires
            call_requires(factory, ()),
        ensures
            access_outcome(
                old(self).spec_strategies().0,
                old(self).spec_data().pages@,
                page_url@,
                factory,
                value_of(res),
                final(self).spec_data().pages@,
            ),
            final(self).spec_data().audio == old(self).spec_data().audio,
            final(self).spec_data().srt == old(self).spec_data().srt,
            final(self).spec_path() == old(self).spec_path(),
            final(self).spec_strategies() == old(self).spec_strategies(),
    {
        self.data.pages.access(page_url, self.cache_pages, factory)
    }

    /// Access the audio files cache with the audio strategy.
    pub fn ensure_audio<F, E>(&mut self, url: String, factory: F) -> (res: Result<
        &String,
        AccessError<E>,
    >) where F: FnOnce() -> Result<String, E>
        requires
            call_requires(factory, ()),
        ensures
            access_outcome(
                old(self).spec_strategies().1,
                old(self).spec_data().audio@,
                url@,
                factory,
                value_of(res),
                final(self).spec_data().audio@,
            ),
            final(self).spec_data().pages == old(self).spec_data().pages,
            final(self).spec_data().srt == old(self).spec_data().srt,
            final(self).spec_path() == old(self).spec_path(),
            final(self).spec_strategies() == old(self).spec_strategies(),
    {
        self.data.audio.access(url, self.cache_audio, factory)
    }

    /// Access the SRT files cache with the SRT strategy.
    pub fn ensure_srt<F, E>(&mut self, cache_key: String, factory: F) -> (res: Result<
        &String,
        AccessError<E>,
    >) where F: FnOnce() -> Result<String, E>
        requires
            call_requires(factory, ()),
        ensures
            access_outcome(
                old(self).spec_strategies().2,
                old(self).spec_data().srt@,
                cache_key@,
                factory,
                value_of(res),
                final(self).spec_data().srt@,
            ),
            final(self).spec_data().pages == old(self).spec_data().pages,
            final(self).spec_data().audio == old(self).spec_data().audio,
            final(self).spec_path() == old(self).spec_path(),
            final(self).spec_strategies() == old(self).spec_strategies(),
    {
        self.data.srt.access(cache_key, self.cache_srt, factory)
    }
}

} // verus!
