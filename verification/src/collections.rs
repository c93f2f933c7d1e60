//! Maps and sets keyed by path strings. Keys are compared by their
//! characters; each key occurs once.
use crate::text::str_eq;
use vstd::prelude::*;

verus! {

/// The characters of each string in a list.
pub open spec fn string_views(s: Seq<String>) -> Seq<Seq<char>> {
    s.map_values(|x: String| x@)
}

/// Where `k` stands in the list of distinct keys `ks`.
/// In a list without repeats, an element's first position is its position.
pub proof fn lemma_index_of_distinct(ks: Seq<Seq<char>>, i: int)
    requires
        ks.no_duplicates(),
        0 <= i < ks.len(),
    ensures
        ks.index_of(ks[i]) == i,
{
    assert(ks.contains(ks[i]));
}

/// The position of `k` among keys without repeats, if it is one of them.
pub(crate) fn find_key(keys: &Vec<String>, k: &str) -> (res: Option<usize>)
    requires
        string_views(keys@).no_duplicates(),
    ensures
        res matches Some(i) ==> i < keys@.len() && string_views(keys@)[i as int] == k@
            && string_views(keys@).index_of(k@) == i,
        res is None ==> !string_views(keys@).contains(k@),
{
    let n = keys.len();
    for i in 0..n
        invariant
            string_views(keys@).no_duplicates(),
            n == keys@.len(),
            forall|j: int| 0 <= j < i ==> string_views(keys@)[j] != k@,
    {
        if str_eq(keys[i].as_str(), k) {
            proof {
                lemma_index_of_distinct(string_views(keys@), i as int);
            }
            return Some(i);
        }
    }
    None
}

/// Adding an element at the end adds it to the set of elements.
pub proof fn lemma_push_to_set<A>(s: Seq<A>, x: A)
    ensures
        s.push(x).to_set() == s.to_set().insert(x),
{
    assert forall|y: A| s.push(x).to_set().contains(y) <==> s.to_set().insert(x).contains(y) by {
        if s.push(x).to_set().contains(y) {
            let i = choose|i: int| 0 <= i < s.push(x).len() && s.push(x)[i] == y;
            if i < s.len() {
                assert(s[i] == y);
                assert(s.contains(y));
            }
        }
        if s.to_set().insert(x).contains(y) {
            if y == x {
                assert(s.push(x)[s.len() as int] == y);
            } else {
                let i = choose|i: int| 0 <= i < s.len() && s[i] == y;
                assert(s.push(x)[i] == y);
            }
        }
    }
    assert(s.push(x).to_set() =~= s.to_set().insert(x));
}

/// Appending a new element keeps a list free of repeats.
pub proof fn lemma_push_no_duplicates<A>(s: Seq<A>, x: A)
    requires
        s.no_duplicates(),
        !s.contains(x),
    ensures
        s.push(x).no_duplicates(),
{
    assert forall|a: int, b: int| 0 <= a < s.push(x).len() && 0 <= b < s.push(x).len() && a != b
        implies s.push(x)[a] != s.push(x)[b] by {
        if a == s.len() {
            assert(s[b] == s.push(x)[b]);
        } else if b == s.len() {
            assert(s[a] == s.push(x)[a]);
        }
    }
}

/// Removing one position from a list without repeats removes its element
/// from the set of elements and keeps the list free of repeats.
pub proof fn lemma_remove_no_duplicates<A>(s: Seq<A>, i: int)
    requires
        s.no_duplicates(),
        0 <= i < s.len(),
    ensures
        s.remove(i).no_duplicates(),
        s.remove(i).to_set() == s.to_set().remove(s[i]),
{
    let r = s.remove(i);
    assert forall|a: int, b: int| 0 <= a < r.len() && 0 <= b < r.len() && a != b implies r[a]
        != r[b] by {
        let a2 = if a < i {
            a
        } else {
            a + 1
        };
        let b2 = if b < i {
            b
        } else {
            b + 1
        };
        assert(r[a] == s[a2]);
        assert(r[b] == s[b2]);
    }
    assert forall|y: A| r.to_set().contains(y) <==> s.to_set().remove(s[i]).contains(y) by {
        if r.contains(y) {
            let a = choose|a: int| 0 <= a < r.len() && r[a] == y;
            let a2 = if a < i {
                a
            } else {
                a + 1
            };
            assert(s[a2] == y);
            assert(a2 != i);
        }
        if s.contains(y) && y != s[i] {
            let a = choose|a: int| 0 <= a < s.len() && s[a] == y;
            if a < i {
                assert(r[a] == y);
            } else {
                assert(a != i);
                assert(r[a - 1] == y);
            }
        }
    }
    assert(r.to_set() =~= s.to_set().remove(s[i]));
}

/// A map from paths to values, kept in insertion order.
pub struct PathMap<V> {
    keys: Vec<String>,
    vals: Vec<V>,
}

impl<V> PathMap<V> {
    /// The keys, each once, in insertion order.
    pub closed spec fn key_views(&self) -> Seq<Seq<char>> {
        string_views(self.keys@)
    }

    /// The map as a mathematical map from path characters to values.
    pub closed spec fn view(&self) -> Map<Seq<char>, V> {
        Map::new(
            |k: Seq<char>| self.key_views().contains(k),
            |k: Seq<char>| self.vals@[self.key_views().index_of(k)],
        )
    }

    /// Keys and values pair up, and no key occurs twice.
    pub closed spec fn wf(&self) -> bool {
        &&& self.keys@.len() == self.vals@.len()
        &&& self.key_views().no_duplicates()
    }

    /// The keys in insertion order are the map's keys, each once.
    pub proof fn lemma_keys(&self)
        requires
            self.wf(),
        ensures
            self.key_views().no_duplicates(),
            self.key_views().to_set() == self.view().dom(),
            self.view().dom().finite(),
            self.view().dom().len() == self.key_views().len(),
    {
        assert(self.key_views().to_set() =~= self.view().dom());
        self.key_views().unique_seq_to_set();
    }

    /// An empty map.
    pub fn new() -> (res: Self)
        ensures
            res.wf(),
            res.view() == Map::<Seq<char>, V>::empty(),
    {
        let res = PathMap { keys: Vec::new(), vals: Vec::new() };
        assert(res.view() =~= Map::<Seq<char>, V>::empty());
        res
    }

    fn find(&self, k: &str) -> (res: Option<usize>)
        requires
            self.wf(),
        ensures
            res matches Some(i) ==> i < self.keys@.len() && self.key_views()[i as int] == k@
                && self.key_views().index_of(k@) == i,
            res is None ==> !self.key_views().contains(k@),
    {
        find_key(&self.keys, k)
    }

    /// Whether `k` is a key.
    pub fn contains_key(&self, k: &str) -> (res: bool)
        requires
            self.wf(),
        ensures
            res == self.view().dom().contains(k@),
    {
        self.find(k).is_some()
    }

    /// The value stored for `k`.
    pub fn get(&self, k: &str) -> (res: Option<&V>)
        requires
            self.wf(),
        ensures
            self.view().dom().contains(k@) ==> res == Some(&self.view()[k@]),
            !self.view().dom().contains(k@) ==> res is None,
    {
        match self.find(k) {
            Some(i) => Some(&self.vals[i]),
            None => None,
        }
    }

    /// Stores `v` for `k`, replacing an earlier value.
    pub fn insert(&mut self, k: String, v: V)
        requires
            old(self).wf(),
        ensures
            final(self).wf(),
            final(self).view() == old(self).view().insert(k@, v),
    {
        let ghost old_keys = self.key_views();
        match self.find(k.as_str()) {
            Some(i) => {
                self.vals.set(i, v);
                proof {
                    assert forall|j: int| 0 <= j < old_keys.len() implies old_keys.index_of(
                        old_keys[j],
                    ) == j by {
                        lemma_index_of_distinct(old_keys, j);
                    }
                    assert(self.view() =~= old(self).view().insert(k@, v));
                }
            },
            None => {
                let ghost kv = k@;
                self.keys.push(k);
                self.vals.push(v);
                proof {
                    let ks = self.key_views();
                    assert(ks =~= old_keys.push(kv));
                    assert forall|a: int, b: int| 0 <= a < ks.len() && 0 <= b < ks.len() && a
                        != b implies ks[a] != ks[b] by {
                        if a < old_keys.len() && b < old_keys.len() {
                        } else if a < old_keys.len() {
                            assert(old_keys.contains(ks[a]));
                        } else {
                            assert(old_keys.contains(ks[b]));
                        }
                    }
                    assert(ks.no_duplicates());
                    assert forall|j: int| 0 <= j < ks.len() implies ks.index_of(ks[j]) == j by {
                        lemma_index_of_distinct(ks, j);
                    }
                    assert forall|j: int| 0 <= j < old_keys.len() implies old_keys.index_of(
                        old_keys[j],
                    ) == j by {
                        lemma_index_of_distinct(old_keys, j);
                    }
                    assert(ks[old_keys.len() as int] == kv);
                    assert forall|kk: Seq<char>| #[trigger]
                        self.view().dom().contains(kk) implies self.view()[kk] == old(
                        self,
                    ).view().insert(kv, v)[kk] by {
                        if kk == kv {
                            assert(ks.index_of(ks[old_keys.len() as int]) == old_keys.len());
                        } else {
                            let j = old_keys.index_of(kk);
                            assert(old_keys.contains(kk));
                            assert(old_keys[j] == kk);
                            assert(ks[j] == kk);
                            assert(ks.index_of(ks[j]) == j);
                        }
                    }
                    assert forall|kk: Seq<char>| #[trigger]
                        self.view().dom().contains(kk) == old(self).view().insert(
                            kv,
                            v,
                        ).dom().contains(kk) by {
                        if old_keys.contains(kk) {
                            let j = old_keys.index_of(kk);
                            assert(ks[j] == kk);
                        }
                        if ks.contains(kk) {
                            let j = ks.index_of(kk);
                            if j < old_keys.len() {
                                assert(old_keys[j] == kk);
                            }
                        }
                    }
                    assert(self.view() =~= old(self).view().insert(kv, v));
                }
            },
        }
    }

    /// Removes `k` and its value, if present.
    pub fn remove(&mut self, k: &str)
        requires
            old(self).wf(),
        ensures
            final(self).wf(),
            final(self).view() == old(self).view().remove(k@),
    {
        let ghost old_keys = self.key_views();
        let ghost old_vals = self.vals@;
        match self.find(k) {
            Some(i) => {
                self.keys.remove(i);
                self.vals.remove(i);
                proof {
                    let ks = self.key_views();
                    assert(ks =~= old_keys.remove(i as int));
                    assert forall|j: int| 0 <= j < ks.len() implies ks.index_of(ks[j]) == j by {
                        lemma_index_of_distinct(ks, j);
                    }
                    assert forall|j: int| 0 <= j < old_keys.len() implies old_keys.index_of(
                        old_keys[j],
                    ) == j by {
                        lemma_index_of_distinct(old_keys, j);
                    }
                    assert forall|kk: Seq<char>| #[trigger]
                        self.view().dom().contains(kk) == old(self).view().remove(
                            k@,
                        ).dom().contains(kk) by {
                        if old_keys.contains(kk) && kk != k@ {
                            let j = old_keys.index_of(kk);
                            if j < i {
                                assert(ks[j] == kk);
                            } else {
                                assert(ks[j - 1] == kk);
                            }
                        }
                    }
                    assert forall|kk: Seq<char>| #[trigger]
                        self.view().dom().contains(kk) implies self.view()[kk] == old(
                        self,
                    ).view()[kk] by {
                        let j = ks.index_of(kk);
                        if j < i {
                            assert(old_keys[j] == kk);
                        } else {
                            assert(old_keys[j + 1] == kk);
                        }
                    }
                    assert(self.view() =~= old(self).view().remove(k@));
                }
            },
            None => {
                assert(self.view() =~= old(self).view().remove(k@));
            },
        }
    }

    /// Removes every key.
    pub fn clear(&mut self)
        ensures
            final(self).wf(),
            final(self).view() == Map::<Seq<char>, V>::empty(),
    {
        self.keys.clear();
        self.vals.clear();
        assert(self.view() =~= Map::<Seq<char>, V>::empty());
    }

    /// The number of keys.
    pub fn len(&self) -> (res: usize)
        requires
            self.wf(),
        ensures
            res == self.view().dom().len(),
    {
        proof {
            self.lemma_keys();
        }
        self.keys.len()
    }

    /// The keys, each once, in the order they were first inserted.
    pub fn keys(&self) -> (res: Vec<String>)
        ensures
            string_views(res@) == self.key_views(),
    {
        let mut res: Vec<String> = Vec::new();
        let n = self.keys.len();
        for i in 0..n
            invariant
                n == self.keys@.len(),
                string_views(res@) == self.key_views().take(i as int),
        {
            let c = self.keys[i].clone();
            assert(c@ == self.keys@[i as int]@);
            assert(self.key_views()[i as int] == c@);
            let ghost prev = res@;
            res.push(c);
            assert(string_views(res@) =~= string_views(prev).push(c@));
            assert(string_views(res@) =~= self.key_views().take(i + 1));
        }
        assert(self.key_views().take(n as int) =~= self.key_views());
        res
    }

    /// Keeps only the keys whose characters are in `keep`.
    pub fn retain_keys(&mut self, keep: &Vec<String>)
        requires
            old(self).wf(),
        ensures
            final(self).wf(),
            final(self).view() == old(self).view().restrict(string_views(keep@).to_set()),
    {
        let ghost kept = string_views(keep@).to_set();
        let keys = self.keys();
        let n = keys.len();
        for i in 0..n
            invariant
                self.wf(),
                old(self).wf(),
                n == keys@.len(),
                string_views(keys@) == old(self).key_views(),
                kept == string_views(keep@).to_set(),
                self.view() == old(self).view().remove_keys(
                    string_views(keys@).take(i as int).to_set().difference(kept),
                ),
        {
            let k = &keys[i];
            let mut found = false;
            let m = keep.len();
            for j in 0..m
                invariant
                    m == keep@.len(),
                    found == (exists|q: int| 0 <= q < j && keep@[q]@ == k@),
            {
                if !found && str_eq(keep[j].as_str(), k.as_str()) {
                    found = true;
                }
            }
            proof {
                if found {
                    let q = choose|q: int| 0 <= q < m && keep@[q]@ == k@;
                    assert(string_views(keep@)[q] == k@);
                } else {
                    assert forall|q: int| 0 <= q < m implies string_views(keep@)[q] != k@ by {}
                }
            }
            if !found {
                self.remove(k.as_str());
            }
            proof {
                let prev = string_views(keys@).take(i as int).to_set().difference(kept);
                let next = string_views(keys@).take(i + 1).to_set().difference(kept);
                assert(string_views(keys@).take(i + 1) =~= string_views(keys@).take(
                    i as int,
                ).push(k@));
                lemma_push_to_set(string_views(keys@).take(i as int), k@);
                if found {
                    assert(kept.contains(k@));
                    assert(next =~= prev);
                } else {
                    assert(!kept.contains(k@));
                    assert(next =~= prev.insert(k@));
                    assert(old(self).view().remove_keys(prev).remove(k@) =~= old(
                        self,
                    ).view().remove_keys(next));
                }
            }
        }
        proof {
            old(self).lemma_keys();
            assert(string_views(keys@).take(n as int) =~= string_views(keys@));
            assert(self.view() =~= old(self).view().restrict(kept));
        }
    }
}

/// A set of paths, kept in insertion order.
pub struct PathSet {
    map: PathMap<()>,
}

impl View for PathSet {
    type V = Set<Seq<char>>;

    closed spec fn view(&self) -> Set<Seq<char>> {
        self.map.view().dom()
    }
}

impl PathSet {
    /// The underlying map is well formed.
    pub closed spec fn wf(&self) -> bool {
        self.map.wf()
    }

    /// The members, each once, in the order they were first inserted.
    pub closed spec fn member_views(&self) -> Seq<Seq<char>> {
        self.map.key_views()
    }

    /// The members in insertion order are the set's members, each once.
    pub proof fn lemma_members(&self)
        requires
            self.wf(),
        ensures
            self.member_views().no_duplicates(),
            self.member_views().to_set() == self@,
            self@.finite(),
            self@.len() == self.member_views().len(),
    {
        self.map.lemma_keys();
    }

    /// An empty set.
    pub fn new() -> (res: Self)
        ensures
            res.wf(),
            res@ == Set::<Seq<char>>::empty(),
    {
        let res = PathSet { map: PathMap::new() };
        assert(res@ =~= Set::<Seq<char>>::empty());
        res
    }

    /// Whether `p` is a member.
    pub fn contains(&self, p: &str) -> (res: bool)
        requires
            self.wf(),
        ensures
            res == self@.contains(p@),
    {
        self.map.contains_key(p)
    }

    /// Adds `p`.
    pub fn insert(&mut self, p: String)
        requires
            old(self).wf(),
        ensures
            final(self).wf(),
            final(self)@ == old(self)@.insert(p@),
    {
        self.map.insert(p, ());
        assert(self@ =~= old(self)@.insert(p@));
    }

    /// Removes `p`, if present.
    pub fn remove(&mut self, p: &str)
        requires
            old(self).wf(),
        ensures
            final(self).wf(),
            final(self)@ == old(self)@.remove(p@),
    {
        self.map.remove(p);
        assert(self@ =~= old(self)@.remove(p@));
    }

    /// Removes every member.
    pub fn clear(&mut self)
        ensures
            final(self).wf(),
            final(self)@ == Set::<Seq<char>>::empty(),
    {
        self.map.clear();
        assert(self@ =~= Set::<Seq<char>>::empty());
    }

    /// The number of members.
    pub fn len(&self) -> (res: usize)
        requires
            self.wf(),
        ensures
            res == self@.len(),
    {
        self.map.len()
    }

    /// The members, each once, in insertion order.
    pub fn to_vec(&self) -> (res: Vec<String>)
        requires
            self.wf(),
        ensures
            string_views(res@) == self.member_views(),
    {
        self.map.keys()
    }

    /// Keeps only the members whose characters are in `keep`.
    pub fn retain_in(&mut self, keep: &Vec<String>)
        requires
            old(self).wf(),
        ensures
            final(self).wf(),
            final(self)@ == old(self)@.intersect(string_views(keep@).to_set()),
    {
        self.map.retain_keys(keep);
        assert(self@ =~= old(self)@.intersect(string_views(keep@).to_set()));
    }
}

} // verus!
