//! The cache of highlighted previews: for each cache key the size of the
//! highlighted text and the highlighter's output, with a bound on the total
//! size.
use crate::collections::{find_key, lemma_index_of_distinct, string_views};
use crate::text::str_eq;
use vstd::prelude::*;

verus! {

/// When adding an entry would take the total size past this many bytes
/// (8 MiB), the cache is emptied first.
pub const MAX_HIGHLIGHT_CACHE_SIZE: usize = 8388608;

/// The sum of a list of sizes.
pub open spec fn sum_sizes(s: Seq<usize>) -> nat
    decreases s.len(),
{
    if s.len() == 0 {
        0
    } else {
        sum_sizes(s.drop_last()) + s.last() as nat
    }
}

proof fn lemma_sum_push(s: Seq<usize>, x: usize)
    ensures
        sum_sizes(s.push(x)) == sum_sizes(s) + x,
{
    assert(s.push(x).drop_last() =~= s);
}

proof fn lemma_sum_remove(s: Seq<usize>, i: int)
    requires
        0 <= i < s.len(),
    ensures
        sum_sizes(s.remove(i)) + s[i] == sum_sizes(s),
    decreases s.len(),
{
    if i == s.len() - 1 {
        assert(s.remove(i) =~= s.drop_last());
    } else {
        lemma_sum_remove(s.drop_last(), i);
        assert(s.remove(i) =~= s.drop_last().remove(i).push(s.last()));
        lemma_sum_push(s.drop_last().remove(i), s.last());
    }
}

/// Highlighted previews by cache key, with their text sizes.
pub struct HighlightCache<T> {
    keys: Vec<String>,
    sizes: Vec<usize>,
    payloads: Vec<T>,
    total: usize,
}

impl<T> HighlightCache<T> {
    /// The cache keys, each once.
    pub closed spec fn key_views(&self) -> Seq<Seq<char>> {
        string_views(self.keys@)
    }

    /// The size recorded for each cache key.
    pub closed spec fn sizes(&self) -> Map<Seq<char>, usize> {
        Map::new(
            |k: Seq<char>| self.key_views().contains(k),
            |k: Seq<char>| self.sizes@[self.key_views().index_of(k)],
        )
    }

    /// The highlighter output stored for each cache key.
    pub closed spec fn payloads(&self) -> Map<Seq<char>, T> {
        Map::new(
            |k: Seq<char>| self.key_views().contains(k),
            |k: Seq<char>| self.payloads@[self.key_views().index_of(k)],
        )
    }

    /// The running total of the sizes, as the cache keeps it.
    pub closed spec fn total_size(&self) -> nat {
        self.total as nat
    }

    /// The sum of the recorded sizes.
    pub closed spec fn sum_of_sizes(&self) -> nat {
        sum_sizes(self.sizes@)
    }

    /// The entries line up, keys are distinct, the running total is the sum
    /// of the sizes, and it stays within the bound unless a single entry is
    /// larger than the bound on its own.
    pub closed spec fn wf(&self) -> bool {
        &&& self.keys@.len() == self.sizes@.len()
        &&& self.keys@.len() == self.payloads@.len()
        &&& self.key_views().no_duplicates()
        &&& self.total as nat == sum_sizes(self.sizes@)
        &&& (self.total <= MAX_HIGHLIGHT_CACHE_SIZE || self.keys@.len() <= 1)
    }

    /// In a well-formed cache the kept total is the sum of the recorded
    /// sizes, and the total exceeds the bound only when one entry alone does.
    pub proof fn lemma_total_is_sum_and_bounded(&self)
        requires
            self.wf(),
        ensures
            self.total_size() == self.sum_of_sizes(),
            self.sizes().dom() == self.payloads().dom(),
            self.sizes().dom().finite(),
            self.total_size() <= MAX_HIGHLIGHT_CACHE_SIZE || self.sizes().dom().len() <= 1,
    {
        assert(self.sizes().dom() =~= self.payloads().dom());
        assert(self.key_views().to_set() =~= self.sizes().dom());
        self.key_views().unique_seq_to_set();
    }

    /// An empty cache.
    pub fn new() -> (res: Self)
        ensures
            res.wf(),
            res.sizes() == Map::<Seq<char>, usize>::empty(),
            res.payloads() == Map::<Seq<char>, T>::empty(),
            res.total_size() == 0,
    {
        let res = HighlightCache { keys: Vec::new(), sizes: Vec::new(), payloads: Vec::new(), total: 0 };
        assert(res.sizes() =~= Map::<Seq<char>, usize>::empty());
        assert(res.payloads() =~= Map::<Seq<char>, T>::empty());
        res
    }

    fn find(&self, k: &str) -> (res: Option<usize>)
        requires
            self.wf(),
        ensures
            res matches Some(i) ==> i < self.keys@.len() && self.key_views()[i as int] == k@
                && self.key_views().index_of(k@) == i,
            res is None ==> !self.key_views().contains(k@),
    {
        find_key(&self.keys, k)
    }

    /// Whether a highlight of `size` bytes is cached under `key`.
    pub fn is_cached(&self, key: &str, size: usize) -> (res: bool)
        requires
            self.wf(),
        ensures
            res == (self.sizes().dom().contains(key@) && self.sizes()[key@] == size),
    {
        match self.find(key) {
            Some(i) => self.sizes[i] == size,
            None => false,
        }
    }

    /// The highlighter output cached under `key`.
    pub fn get(&self, key: &str) -> (res: Option<&T>)
        requires
            self.wf(),
        ensures
            self.payloads().dom().contains(key@) ==> res == Some(&self.payloads()[key@]),
            !self.payloads().dom().contains(key@) ==> res is None,
    {
        match self.find(key) {
            Some(i) => Some(&self.payloads[i]),
            None => None,
        }
    }

    /// Replaces the output cached under `key`, keeping its size; returns
    /// whether `key` was cached.
    pub fn set_payload(&mut self, key: &str, payload: T) -> (res: bool)
        requires
            old(self).wf(),
        ensures
            final(self).wf(),
            res == old(self).payloads().dom().contains(key@),
            final(self).sizes() == old(self).sizes(),
            final(self).total_size() == old(self).total_size(),
            res ==> final(self).payloads() == old(self).payloads().insert(key@, payload),
            !res ==> final(self).payloads() == old(self).payloads(),
    {
        match self.find(key) {
            Some(i) => {
                self.payloads.set(i, payload);
                assert(self.sizes() =~= old(self).sizes());
                proof {
                    assert forall|j: int| 0 <= j < self.key_views().len() implies self.key_views().index_of(
                        self.key_views()[j],
                    ) == j by {
                        lemma_index_of_distinct(self.key_views(), j);
                    }
                }
                assert(self.payloads() =~= old(self).payloads().insert(key@, payload));
                true
            },
            None => false,
        }
    }

    /// Empties the cache.
    pub fn clear(&mut self)
        ensures
            final(self).wf(),
            final(self).sizes() == Map::<Seq<char>, usize>::empty(),
            final(self).payloads() == Map::<Seq<char>, T>::empty(),
            final(self).total_size() == 0,
    {
        self.keys.clear();
        self.sizes.clear();
        self.payloads.clear();
        self.total = 0;
        assert(self.sizes() =~= Map::<Seq<char>, usize>::empty());
        assert(self.payloads() =~= Map::<Seq<char>, T>::empty());
    }

    /// The total size of the cached texts.
    pub fn size_in_bytes(&self) -> (res: usize)
        requires
            self.wf(),
        ensures
            res == self.total_size(),
    {
        self.total
    }

    fn remove_at(&mut self, i: usize)
        requires
            old(self).wf(),
            i < old(self).keys@.len(),
        ensures
            final(self).wf(),
            final(self).sizes() == old(self).sizes().remove(old(self).key_views()[i as int]),
            final(self).payloads() == old(self).payloads().remove(old(self).key_views()[i as int]),
            final(self).total_size() + old(self).sizes@[i as int] == old(self).total_size(),
    {
        let ghost old_keys = self.key_views();
        let ghost k = old_keys[i as int];
        proof {
            lemma_sum_remove(self.sizes@, i as int);
        }
        let s = self.sizes[i];
        self.keys.remove(i);
        self.sizes.remove(i);
        self.payloads.remove(i);
        self.total = self.total - s;
        proof {
            let ks = self.key_views();
            assert(ks =~= old_keys.remove(i as int));
            assert forall|j: int| 0 <= j < ks.len() implies ks.index_of(ks[j]) == j by {
                lemma_index_of_distinct(ks, j);
            }
            assert forall|j: int| 0 <= j < old_keys.len() implies old_keys.index_of(old_keys[j])
                == j by {
                lemma_index_of_distinct(old_keys, j);
            }
            assert forall|kk: Seq<char>| #[trigger]
                ks.contains(kk) == (old_keys.contains(kk) && kk != k) by {
                if old_keys.contains(kk) && kk != k {
                    let j = old_keys.index_of(kk);
                    if j < i {
                        assert(ks[j] == kk);
                    } else {
                        assert(ks[j - 1] == kk);
                    }
                }
                if ks.contains(kk) {
                    let j = ks.index_of(kk);
                    if j < i {
                        assert(old_keys[j] == kk);
                    } else {
                        assert(old_keys[j + 1] == kk);
                    }
                }
            }
            assert forall|kk: Seq<char>| #[trigger] ks.contains(kk) implies self.sizes@[ks.index_of(
                kk,
            )] == old(self).sizes@[old_keys.index_of(kk)] && self.payloads@[ks.index_of(kk)]
                == old(self).payloads@[old_keys.index_of(kk)] by {
                let j = ks.index_of(kk);
                if j < i {
                    assert(old_keys[j] == kk);
                } else {
                    assert(old_keys[j + 1] == kk);
                }
            }
            assert(self.sizes() =~= old(self).sizes().remove(k));
            assert(self.payloads() =~= old(self).payloads().remove(k));
        }
    }

    fn push_entry(&mut self, key: String, size: usize, payload: T)
        requires
            old(self).wf(),
            !old(self).key_views().contains(key@),
            old(self).total + size <= MAX_HIGHLIGHT_CACHE_SIZE || old(self).keys@.len() == 0,
        ensures
            final(self).wf(),
            final(self).sizes() == old(self).sizes().insert(key@, size),
            final(self).payloads() == old(self).payloads().insert(key@, payload),
            final(self).total_size() == old(self).total_size() + size,
    {
        let ghost old_keys = self.key_views();
        let ghost kv = key@;
        proof {
            lemma_sum_push(self.sizes@, size);
        }
        self.keys.push(key);
        self.sizes.push(size);
        self.payloads.push(payload);
        self.total = self.total + size;
        proof {
            let ks = self.key_views();
            assert(ks =~= old_keys.push(kv));
            assert forall|a: int, b: int| 0 <= a < ks.len() && 0 <= b < ks.len() && a != b implies ks[a]
                != ks[b] by {
                if a < old_keys.len() && b < old_keys.len() {
                } else if a < old_keys.len() {
                    assert(old_keys.contains(ks[a]));
                } else {
                    assert(old_keys.contains(ks[b]));
                }
            }
            assert(ks.no_duplicates());
            assert forall|j: int| 0 <= j < ks.len() implies ks.index_of(ks[j]) == j by {
                lemma_index_of_distinct(ks, j);
            }
            assert forall|j: int| 0 <= j < old_keys.len() implies old_keys.index_of(old_keys[j])
                == j by {
                lemma_index_of_distinct(old_keys, j);
            }
            assert(ks[old_keys.len() as int] == kv);
            assert forall|kk: Seq<char>| #[trigger]
                ks.contains(kk) == (old_keys.contains(kk) || kk == kv) by {
                if old_keys.contains(kk) {
                    let j = old_keys.index_of(kk);
                    assert(ks[j] == kk);
                }
                if ks.contains(kk) {
                    let j = ks.index_of(kk);
                    if j < old_keys.len() {
                        assert(old_keys[j] == kk);
                    }
                }
            }
            assert forall|kk: Seq<char>| #[trigger] ks.contains(kk) && kk != kv implies self.sizes@[
                ks.index_of(kk)] == old(self).sizes@[old_keys.index_of(kk)] && self.payloads@[
                ks.index_of(kk)] == old(self).payloads@[old_keys.index_of(kk)] by {
                let j = old_keys.index_of(kk);
                assert(old_keys[j] == kk);
                assert(ks[j] == kk);
                assert(ks.index_of(ks[j]) == j);
            }
            assert(ks.index_of(ks[old_keys.len() as int]) == old_keys.len());
            assert(self.sizes() =~= old(self).sizes().insert(kv, size));
            assert(self.payloads() =~= old(self).payloads().insert(kv, payload));
        }
    }

    /// `new` is `old` after caching a `size`-byte highlight under `key`: the
    /// earlier entry for `key` is replaced; if the other entries and the new
    /// one together exceed the bound, the other entries are gone, otherwise
    /// they stay; the total follows.
    pub open spec fn inserted(old: Self, new: Self, key: Seq<char>, size: usize, payload: T) -> bool {
        let rest = old.sizes().remove(key);
        let rest_total = if old.sizes().dom().contains(key) {
            old.total_size() - old.sizes()[key]
        } else {
            old.total_size() as int
        };
        if rest_total + size > MAX_HIGHLIGHT_CACHE_SIZE {
            &&& new.sizes() == Map::<Seq<char>, usize>::empty().insert(key, size)
            &&& new.payloads() == Map::<Seq<char>, T>::empty().insert(key, payload)
            &&& new.total_size() == size
        } else {
            &&& new.sizes() == rest.insert(key, size)
            &&& new.payloads() == old.payloads().remove(key).insert(key, payload)
            &&& new.total_size() == rest_total + size
        }
    }

    /// Right after caching a highlight under `key`, that key holds the new
    /// size and output, and every other key either is gone or holds what it
    /// held before.
    pub proof fn lemma_inserted_reads_back(
        before: Self,
        after: Self,
        key: Seq<char>,
        size: usize,
        payload: T,
    )
        requires
            Self::inserted(before, after, key, size, payload),
        ensures
            after.sizes().dom().contains(key),
            after.sizes()[key] == size,
            after.payloads().dom().contains(key),
            after.payloads()[key] == payload,
            forall|k: Seq<char>|
                k != key && #[trigger] after.sizes().dom().contains(k) ==> before.sizes().dom().contains(k)
                    && after.sizes()[k] == before.sizes()[k],
            forall|k: Seq<char>|
                k != key && #[trigger] after.payloads().dom().contains(k) ==> before.payloads().dom().contains(k)
                    && after.payloads()[k] == before.payloads()[k],
    {
    }

    /// Caches the highlight of a `size`-byte text under `key`, replacing an
    /// earlier entry for `key`. Where the other entries and the new one would
    /// together exceed the bound, the other entries are dropped first.
    pub fn insert(&mut self, key: String, size: usize, payload: T)
        requires
            old(self).wf(),
        ensures
            final(self).wf(),
            Self::inserted(*old(self), *final(self), key@, size, payload),
    {
        match self.find(key.as_str()) {
            Some(i) => {
                proof {
                    lemma_index_of_distinct(self.key_views(), i as int);
                }
                self.remove_at(i);
            },
            None => {
                assert(self.sizes().remove(key@) =~= self.sizes());
                assert(self.payloads().remove(key@) =~= self.payloads());
            },
        }
        let ghost mid_sizes = self.sizes();
        let ghost mid_payloads = self.payloads();
        if size > MAX_HIGHLIGHT_CACHE_SIZE || self.total > MAX_HIGHLIGHT_CACHE_SIZE - size {
            self.clear();
            proof {
                if self.keys@.len() > 0 {
                    assert(self.key_views().contains(self.key_views()[0]));
                    assert(self.sizes().dom().contains(self.key_views()[0]));
                }
            }
        } else {
            proof {
                assert(self.key_views().to_set() =~= self.sizes().dom());
            }
        }
        proof {
            assert(!self.sizes().dom().contains(key@));
            assert(self.key_views().to_set() =~= self.sizes().dom());
            if self.key_views().contains(key@) {
                assert(self.key_views().to_set().contains(key@));
            }
        }
        self.push_entry(key, size, payload);
    }
}

} // verus!
