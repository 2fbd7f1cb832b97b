//! A bounded cache of decoded wallpapers that evicts the least recently used
//! image, over `lru::LruCache`.

use vstd::prelude::*;
use vstd::string::StringExecFns;
use crate::canvas::{CanvasView, RgbaCanvas};
use crate::image_ops::{decoded_image, load_image, ImageOpenError};
use crate::text::str_eq;
use lru::LruCache;
use std::collections::hash_map::RandomState;
use std::num::NonZeroUsize;

verus! {

#[verifier::external_type_specification]
#[verifier::external_body]
#[verifier::reject_recursive_types(K)]
#[verifier::reject_recursive_types(V)]
#[verifier::reject_recursive_types(S)]
pub struct ExLruCache<K, V, S>(LruCache<K, V, S>);

/// What an LRU cache of images holds: each path with its image, from the
/// least recently used to the most recently used.
pub uninterp spec fn lru_entries(c: LruCache<String, RgbaCanvas, RandomState>) -> Seq<(Seq<char>, CanvasView)>;

/// The number of entries an LRU cache was made to hold.
pub uninterp spec fn lru_capacity(c: LruCache<String, RgbaCanvas, RandomState>) -> nat;

/// The position of `key` among the entries, or `-1`.
pub open spec fn key_index(es: Seq<(Seq<char>, CanvasView)>, key: Seq<char>) -> int
    decreases es.len(),
{
    if es.len() == 0 {
        -1
    } else if es.last().0 == key {
        es.len() - 1
    } else {
        key_index(es.drop_last(), key)
    }
}

/// No path occurs twice.
pub open spec fn distinct_paths(es: Seq<(Seq<char>, CanvasView)>) -> bool {
    forall|i: int, j: int| 0 <= i < j < es.len() ==> es[i].0 != es[j].0
}

/// The entries after `key` is used: moved to the most recently used end.
pub open spec fn touched(es: Seq<(Seq<char>, CanvasView)>, i: int) -> Seq<(Seq<char>, CanvasView)> {
    es.remove(i).push(es[i])
}

/// The entries after `key` is put with `value` into a cache holding `cap`:
/// a present key takes the value and becomes the most recently used; a new
/// key is added as the most recently used, after the least recently used
/// entry is dropped when the cache is full.
pub open spec fn put_entries(es: Seq<(Seq<char>, CanvasView)>, cap: nat, key: Seq<char>, value: CanvasView) -> Seq<(Seq<char>, CanvasView)> {
    let i = key_index(es, key);
    if i >= 0 {
        es.remove(i).push((key, value))
    } else if es.len() == cap {
        es.drop_first().push((key, value))
    } else {
        es.push((key, value))
    }
}

/// `LruCache::with_hasher` with std's `RandomState`: an empty cache that
/// holds `cap` entries (at least 1).
#[verifier::external_body]
fn lru_new(cap: usize) -> (c: LruCache<String, RgbaCanvas, RandomState>)
    requires
        cap > 0,
    ensures
        lru_entries(c) == Seq::<(Seq<char>, CanvasView)>::empty(),
        lru_capacity(c) == cap,
{
    LruCache::with_hasher(NonZeroUsize::new(cap).unwrap_or(NonZeroUsize::MIN), RandomState::new())
}

/// `LruCache::len`: the number of entries.
#[verifier::external_body]
fn lru_len(c: &LruCache<String, RgbaCanvas, RandomState>) -> (n: usize)
    ensures
        n == lru_entries(*c).len(),
{
    c.len()
}

/// `LruCache::contains`: whether `key` has an entry; the order is kept.
#[verifier::external_body]
fn lru_contains(c: &LruCache<String, RgbaCanvas, RandomState>, key: &str) -> (b: bool)
    ensures
        b == (key_index(lru_entries(*c), key@) >= 0),
{
    c.contains(key)
}

/// `LruCache::get`, the image handed out as a copy: the entry of `key`
/// becomes the most recently used.
#[verifier::external_body]
fn lru_get(c: &mut LruCache<String, RgbaCanvas, RandomState>, key: &str) -> (r: Option<RgbaCanvas>)
    ensures
        lru_capacity(*final(c)) == lru_capacity(*old(c)),
        ({
            let es = lru_entries(*old(c));
            let i = key_index(es, key@);
            if i >= 0 {
                r matches Some(v) && v@ == es[i].1 && lru_entries(*final(c)) == touched(es, i)
            } else {
                r is None && lru_entries(*final(c)) == es
            }
        }),
{
    c.get(key).cloned()
}

/// `LruCache::put`: see `put_entries`; returns the value a present key had.
#[verifier::external_body]
fn lru_put(c: &mut LruCache<String, RgbaCanvas, RandomState>, key: String, value: RgbaCanvas) -> (r: Option<RgbaCanvas>)
    ensures
        lru_capacity(*final(c)) == lru_capacity(*old(c)),
        lru_entries(*final(c)) == put_entries(lru_entries(*old(c)), lru_capacity(*old(c)), key@, value@),
        ({
            let es = lru_entries(*old(c));
            let i = key_index(es, key@);
            if i >= 0 {
                r matches Some(v) && v@ == es[i].1
            } else {
                r is None
            }
        }),
{
    c.put(key, value)
}

/// `LruCache::pop_lru`: removes the least recently used entry and hands
/// out its path.
#[verifier::external_body]
fn lru_pop_lru(c: &mut LruCache<String, RgbaCanvas, RandomState>) -> (r: Option<String>)
    ensures
        lru_capacity(*final(c)) == lru_capacity(*old(c)),
        lru_entries(*old(c)).len() == 0 ==> r is None && lru_entries(*final(c)) == lru_entries(*old(c)),
        lru_entries(*old(c)).len() > 0 ==> (r matches Some(k) && k@ == lru_entries(*old(c))[0].0
            && lru_entries(*final(c)) == lru_entries(*old(c)).drop_first()),
{
    c.pop_lru().map(|(k, _)| k)
}

/// `LruCache::pop`: removes the entry of `key`; says whether there was one.
#[verifier::external_body]
fn lru_pop(c: &mut LruCache<String, RgbaCanvas, RandomState>, key: &str) -> (removed: bool)
    ensures
        lru_capacity(*final(c)) == lru_capacity(*old(c)),
        ({
            let es = lru_entries(*old(c));
            let i = key_index(es, key@);
            if i >= 0 {
                removed && lru_entries(*final(c)) == es.remove(i)
            } else {
                !removed && lru_entries(*final(c)) == es
            }
        }),
{
    c.pop(key).is_some()
}

/// `LruCache::clear`: removes every entry.
#[verifier::external_body]
fn lru_clear(c: &mut LruCache<String, RgbaCanvas, RandomState>)
    ensures
        lru_capacity(*final(c)) == lru_capacity(*old(c)),
        lru_entries(*final(c)) == Seq::<(Seq<char>, CanvasView)>::empty(),
{
    c.clear()
}

// ── Facts about the entries ──────────────────────────────────────────────────

/// `key_index` finds the entry of a key, and only when there is one.
pub proof fn lemma_key_index(es: Seq<(Seq<char>, CanvasView)>, key: Seq<char>)
    ensures
        -1 <= key_index(es, key) < es.len(),
        key_index(es, key) >= 0 ==> es[key_index(es, key)].0 == key,
        key_index(es, key) < 0 ==> forall|i: int| 0 <= i < es.len() ==> es[i].0 != key,
    decreases es.len(),
{
    if es.len() > 0 && es.last().0 != key {
        lemma_key_index(es.drop_last(), key);
        assert forall|i: int| 0 <= i < es.len() - 1 implies es[i] == es.drop_last()[i] by {}
    }
}

/// With distinct paths, the entry found is the only one with that path.
proof fn lemma_key_index_unique(es: Seq<(Seq<char>, CanvasView)>, key: Seq<char>, j: int)
    requires
        distinct_paths(es),
        0 <= j < es.len(),
        es[j].0 == key,
    ensures
        key_index(es, key) == j,
{
    lemma_key_index(es, key);
}

/// Taking an entry out keeps the paths distinct.
proof fn lemma_remove_distinct(es: Seq<(Seq<char>, CanvasView)>, i: int)
    requires
        distinct_paths(es),
        0 <= i < es.len(),
    ensures
        distinct_paths(es.remove(i)),
        forall|k: int| 0 <= k < es.remove(i).len() ==> es.remove(i)[k].0 != es[i].0,
{
    let r = es.remove(i);
    assert forall|a: int, b: int| 0 <= a < b < r.len() implies r[a].0 != r[b].0 by {
        let a2 = if a < i { a } else { a + 1 };
        let b2 = if b < i { b } else { b + 1 };
        assert(r[a] == es[a2] && r[b] == es[b2]);
    }
    assert forall|k: int| 0 <= k < r.len() implies r[k].0 != es[i].0 by {
        let k2 = if k < i { k } else { k + 1 };
        assert(r[k] == es[k2]);
    }
}

/// Adding an entry for a path not present keeps the paths distinct.
proof fn lemma_push_distinct(es: Seq<(Seq<char>, CanvasView)>, e: (Seq<char>, CanvasView))
    requires
        distinct_paths(es),
        forall|k: int| 0 <= k < es.len() ==> es[k].0 != e.0,
    ensures
        distinct_paths(es.push(e)),
{
    let r = es.push(e);
    assert forall|a: int, b: int| 0 <= a < b < r.len() implies r[a].0 != r[b].0 by {
        assert(r[a] == es[a]);
        if b < es.len() {
            assert(r[b] == es[b]);
        }
    }
}

/// Putting keeps the paths distinct and the cache within its capacity.
pub proof fn lemma_put_entries(es: Seq<(Seq<char>, CanvasView)>, cap: nat, key: Seq<char>, value: CanvasView)
    requires
        distinct_paths(es),
        es.len() <= cap,
        cap > 0,
    ensures
        distinct_paths(put_entries(es, cap, key, value)),
        put_entries(es, cap, key, value).len() <= cap,
{
    lemma_key_index(es, key);
    let i = key_index(es, key);
    if i >= 0 {
        lemma_remove_distinct(es, i);
        lemma_push_distinct(es.remove(i), (key, value));
    } else if es.len() == cap {
        let d = es.drop_first();
        assert forall|a: int, b: int| 0 <= a < b < d.len() implies d[a].0 != d[b].0 by {
            assert(d[a] == es[a + 1] && d[b] == es[b + 1]);
        }
        assert forall|k: int| 0 <= k < d.len() implies d[k].0 != key by {
            assert(d[k] == es[k + 1]);
        }
        lemma_push_distinct(d, (key, value));
    } else {
        lemma_push_distinct(es, (key, value));
    }
}

// ── The cache ────────────────────────────────────────────────────────────────

/// How many images a cache holds unless told otherwise.
pub const DEFAULT_CAPACITY: usize = 20;

/// A cache of decoded images by path that holds a bounded number of them,
/// dropping the least recently used one to make room.
pub struct ImageCache {
    inner: LruCache<String, RgbaCanvas, RandomState>,
    capacity: usize,
}

impl View for ImageCache {
    type V = Seq<(Seq<char>, CanvasView)>;

    /// Each cached path with its image, least recently used first.
    closed spec fn view(&self) -> Seq<(Seq<char>, CanvasView)> {
        lru_entries(self.inner)
    }
}

impl ImageCache {
    /// Each path is cached once, and at most as many images as the
    /// capacity, which is at least one.
    pub closed spec fn wf(&self) -> bool {
        &&& self.capacity > 0
        &&& lru_capacity(self.inner) == self.capacity
        &&& lru_entries(self.inner).len() <= self.capacity
        &&& distinct_paths(lru_entries(self.inner))
    }

    /// How many images the cache holds at most.
    pub closed spec fn spec_capacity(&self) -> nat {
        self.capacity as nat
    }

    /// An empty cache of the default capacity.
    pub fn new() -> (c: Self)
        ensures
            c.wf(),
            c@ == Seq::<(Seq<char>, CanvasView)>::empty(),
            c.spec_capacity() == DEFAULT_CAPACITY,
    {
        Self::with_capacity(DEFAULT_CAPACITY)
    }

    /// An empty cache holding up to `capacity` images (at least one).
    pub fn with_capacity(capacity: usize) -> (c: Self)
        ensures
            c.wf(),
            c@ == Seq::<(Seq<char>, CanvasView)>::empty(),
            c.spec_capacity() == (if capacity == 0 { 1 } else { capacity }),
    {
        let cap = if capacity == 0 { 1 } else { capacity };
        ImageCache { inner: lru_new(cap), capacity: cap }
    }

    /// The cached image of `path`, which becomes the most recently used.
    pub fn get(&mut self, path: &str) -> (r: Option<RgbaCanvas>)
        requires
            old(self).wf(),
        ensures
            final(self).wf(),
            final(self).spec_capacity() == old(self).spec_capacity(),
            ({
                let i = key_index(old(self)@, path@);
                if i >= 0 {
                    r matches Some(v) && v@ == old(self)@[i].1 && final(self)@ == touched(old(self)@, i)
                } else {
                    r is None && final(self)@ == old(self)@
                }
            }),
    {
        proof {
            lemma_key_index(self@, path@);
        }
        let ghost es = self@;
        let r = lru_get(&mut self.inner, path);
        proof {
            let i = key_index(es, path@);
            if i >= 0 {
                lemma_remove_distinct(es, i);
                lemma_push_distinct(es.remove(i), es[i]);
            }
        }
        r
    }

    /// Caches `image` for `path` as the most recently used image. A cache
    /// that is full and does not hold `path` first drops its least recently
    /// used image.
    pub fn put(&mut self, path: String, image: RgbaCanvas)
        requires
            old(self).wf(),
        ensures
            final(self).wf(),
            final(self).spec_capacity() == old(self).spec_capacity(),
            final(self)@ == put_entries(old(self)@, old(self).spec_capacity(), path@, image@),
    {
        proof {
            lemma_key_index(self@, path@);
        }
        let ghost es = self@;
        if lru_len(&self.inner) >= self.capacity && !lru_contains(&self.inner, path.as_str()) {
            let _evicted = lru_pop_lru(&mut self.inner);
            proof {
                let d = es.drop_first();
                assert forall|a: int, b: int| 0 <= a < b < d.len() implies d[a].0 != d[b].0 by {
                    assert(d[a] == es[a + 1] && d[b] == es[b + 1]);
                }
                lemma_key_index(d, path@);
                if key_index(d, path@) >= 0 {
                    assert(d[key_index(d, path@)] == es[key_index(d, path@) + 1]);
                }
            }
        }
        let ghost mid = self@;
        proof {
            lemma_put_entries(mid, self.capacity as nat, path@, image@);
        }
        let _old = lru_put(&mut self.inner, path, image);
    }

    /// Decodes the bytes of the image file at `path` and caches the image as
    /// the most recently used one (as `put` does), returning it. Bytes that
    /// do not decode leave the cache as it was and fail, naming the path and
    /// the decoder's reason.
    pub fn load(&mut self, path: &str, bytes: &[u8]) -> (r: Result<RgbaCanvas, ImageOpenError>)
        requires
            old(self).wf(),
        ensures
            final(self).wf(),
            final(self).spec_capacity() == old(self).spec_capacity(),
            match decoded_image(bytes@) {
                Ok((w, h, p)) => r matches Ok(c) && c@ == (CanvasView { width: w as nat, height: h as nat, pixels: p })
                    && final(self)@ == put_entries(old(self)@, old(self).spec_capacity(), path@, c@),
                Err(e) => r matches Err(err) && err.path@ == path@ && err.reason@ == e && final(self)@ == old(self)@,
            },
    {
        match load_image(path, bytes) {
            Ok(img) => {
                let kept = img.clone();
                self.put(String::from_str(path), kept);
                Ok(img)
            },
            Err(e) => Err(e),
        }
    }

    /// Whether `path` is cached; the order of use is kept.
    pub fn contains(&self, path: &str) -> (b: bool)
        requires
            self.wf(),
        ensures
            b == (key_index(self@, path@) >= 0),
    {
        lru_contains(&self.inner, path)
    }

    /// Drops every cached image.
    pub fn clear(&mut self)
        requires
            old(self).wf(),
        ensures
            final(self).wf(),
            final(self).spec_capacity() == old(self).spec_capacity(),
            final(self)@ == Seq::<(Seq<char>, CanvasView)>::empty(),
    {
        lru_clear(&mut self.inner);
    }

    /// Drops the cached image of `path`, if any.
    pub fn remove(&mut self, path: &str)
        requires
            old(self).wf(),
        ensures
            final(self).wf(),
            final(self).spec_capacity() == old(self).spec_capacity(),
            ({
                let i = key_index(old(self)@, path@);
                if i >= 0 {
                    final(self)@ == old(self)@.remove(i)
                } else {
                    final(self)@ == old(self)@
                }
            }),
    {
        proof {
            lemma_key_index(self@, path@);
            let i = key_index(self@, path@);
            if i >= 0 {
                lemma_remove_distinct(self@, i);
            }
        }
        let _removed = lru_pop(&mut self.inner, path);
    }

    /// How many images are cached.
    pub fn len(&self) -> (n: usize)
        requires
            self.wf(),
        ensures
            n == self@.len(),
            n <= self.spec_capacity(),
    {
        lru_len(&self.inner)
    }

    /// Whether no image is cached.
    pub fn is_empty(&self) -> (b: bool)
        requires
            self.wf(),
        ensures
            b == (self@.len() == 0),
    {
        self.len() == 0
    }
}

// ── Laws ─────────────────────────────────────────────────────────────────────

/// Right after an image is put for a path, that path is cached with that
/// image as the most recently used entry, and the cache stays within its
/// capacity with each path once.
pub proof fn law_get_after_put(es: Seq<(Seq<char>, CanvasView)>, cap: nat, key: Seq<char>, value: CanvasView)
    requires
        distinct_paths(es),
        es.len() <= cap,
        cap > 0,
    ensures
        key_index(put_entries(es, cap, key, value), key) == put_entries(es, cap, key, value).len() - 1,
        put_entries(es, cap, key, value).last() == (key, value),
        put_entries(es, cap, key, value).len() <= cap,
        distinct_paths(put_entries(es, cap, key, value)),
{
    lemma_put_entries(es, cap, key, value);
    let r = put_entries(es, cap, key, value);
    lemma_key_index_unique(r, key, r.len() - 1);
}

/// Putting a new path into a full cache drops exactly its least recently
/// used image: that path is no longer cached, every other path still is.
pub proof fn law_put_evicts_least_recent(es: Seq<(Seq<char>, CanvasView)>, cap: nat, key: Seq<char>, value: CanvasView)
    requires
        distinct_paths(es),
        es.len() == cap,
        cap > 0,
        key_index(es, key) < 0,
    ensures
        key_index(put_entries(es, cap, key, value), es[0].0) < 0,
        forall|i: int| 1 <= i < es.len() ==> key_index(put_entries(es, cap, key, value), #[trigger] es[i].0) >= 0,
{
    lemma_key_index(es, key);
    lemma_put_entries(es, cap, key, value);
    let r = put_entries(es, cap, key, value);
    assert(r == es.drop_first().push((key, value)));
    lemma_key_index(r, es[0].0);
    if key_index(r, es[0].0) >= 0 {
        let j = key_index(r, es[0].0);
        if j < r.len() - 1 {
            assert(r[j] == es[j + 1]);
        }
    }
    assert forall|i: int| 1 <= i < es.len() implies key_index(r, #[trigger] es[i].0) >= 0 by {
        assert(r[i - 1] == es[i]);
        lemma_key_index_unique(r, es[i].0, i - 1);
    }
}

} // verus!
