use vstd::prelude::*;

verus! {

/// The map that a sequence of `(key, value)` entries denotes: later entries
/// win, so with unique keys each key maps to the value stored beside it.
pub open spec fn entries_map<V: View>(s: Seq<(u64, V)>) -> Map<u64, V::V>
    decreases s.len(),
{
    if s.len() == 0 {
        Map::empty()
    } else {
        entries_map(s.drop_last()).insert(s.last().0, s.last().1@)
    }
}

/// No key occurs twice among the entries.
pub open spec fn keys_unique<V>(s: Seq<(u64, V)>) -> bool {
    forall|i: int, j: int|
        0 <= i < s.len() && 0 <= j < s.len() && i != j ==> #[trigger] s[i].0 != #[trigger] s[j].0
}

/// With unique keys, a key is in the map exactly when some entry holds it,
/// and it maps to that entry's value.
pub proof fn lemma_entries_map<V: View>(s: Seq<(u64, V)>)
    requires
        keys_unique(s),
    ensures
        forall|k: u64|
            #[trigger] entries_map(s).contains_key(k) <==> exists|i: int|
                0 <= i < s.len() && #[trigger] s[i].0 == k,
        forall|i: int| 0 <= i < s.len() ==> #[trigger] entries_map(s)[s[i].0] == s[i].1@,
        entries_map(s).dom().finite(),
        entries_map(s).len() == s.len(),
    decreases s.len(),
{
    if s.len() > 0 {
        let t = s.drop_last();
        assert(keys_unique(t)) by {
            assert forall|i: int, j: int|
                0 <= i < t.len() && 0 <= j < t.len() && i != j implies #[trigger] t[i].0
                != #[trigger] t[j].0 by {
                assert(t[i] == s[i] && t[j] == s[j]);
            }
        }
        lemma_entries_map(t);
        let last = s[s.len() - 1];
        assert(entries_map(s) == entries_map(t).insert(last.0, last.1@));
        if entries_map(t).contains_key(last.0) {
            let i = choose|i: int| 0 <= i < t.len() && #[trigger] t[i].0 == last.0;
            assert(t[i] == s[i]);
        }
        assert(entries_map(s).dom() == entries_map(t).dom().insert(last.0));
        assert forall|k: u64|
            #[trigger] entries_map(s).contains_key(k) <==> exists|i: int|
                0 <= i < s.len() && #[trigger] s[i].0 == k by {
            if entries_map(s).contains_key(k) {
                if k == s.last().0 {
                    assert(s[s.len() - 1].0 == k);
                } else {
                    assert(entries_map(t).contains_key(k));
                    let i = choose|i: int| 0 <= i < t.len() && #[trigger] t[i].0 == k;
                    assert(t[i] == s[i]);
                    assert(s[i].0 == k);
                }
            }
            if exists|i: int| 0 <= i < s.len() && #[trigger] s[i].0 == k {
                let i = choose|i: int| 0 <= i < s.len() && #[trigger] s[i].0 == k;
                if i < s.len() - 1 {
                    assert(t[i] == s[i]);
                    assert(t[i].0 == k);
                }
            }
        }
        assert forall|i: int| 0 <= i < s.len() implies #[trigger] entries_map(s)[s[i].0]
            == s[i].1@ by {
            if i < s.len() - 1 {
                assert(t[i] == s[i]);
                assert(s[i].0 != s[s.len() - 1].0);
            }
        }
    }
}

/// A finite map from accounts to values, kept as a vector of entries whose
/// keys are unique.
pub struct AccountMap<V> {
    entries: Vec<(u64, V)>,
}

impl<V: View> View for AccountMap<V> {
    type V = Map<u64, V::V>;

    closed spec fn view(&self) -> Map<u64, V::V> {
        entries_map(self.entries@)
    }
}

impl<V: View> AccountMap<V> {
    /// The entries in storage order.
    pub closed spec fn entries(&self) -> Seq<(u64, V)> {
        self.entries@
    }

    pub closed spec fn wf(&self) -> bool {
        keys_unique(self.entries@)
    }

    pub fn new() -> (r: Self)
        ensures
            r.wf(),
            r@ == Map::<u64, V::V>::empty(),
    {
        AccountMap { entries: Vec::new() }
    }

    pub fn len(&self) -> (r: usize)
        ensures
            r == self.entries().len(),
    {
        self.entries.len()
    }

    /// The entry at position `i` of the storage order.
    pub fn entry(&self, i: usize) -> (r: (u64, &V))
        requires
            i < self.entries().len(),
        ensures
            r.0 == self.entries()[i as int].0,
            *r.1 == self.entries()[i as int].1,
    {
        (self.entries[i].0, &self.entries[i].1)
    }

    /// The entries list the map: each key once, each beside its value.
    pub proof fn lemma_entries(&self)
        requires
            self.wf(),
        ensures
            keys_unique(self.entries()),
            forall|i: int|
                0 <= i < self.entries().len() ==> #[trigger] self@.contains_key(self.entries()[i].0)
                    && self@[self.entries()[i].0] == self.entries()[i].1@,
            forall|k: u64| #[trigger]
                self@.contains_key(k) ==> exists|i: int|
                    0 <= i < self.entries().len() && #[trigger] self.entries()[i].0 == k,
            self@.len() == self.entries().len(),
    {
        lemma_entries_map(self.entries@);
        assert forall|i: int| 0 <= i < self.entries().len() implies #[trigger] self@.contains_key(self.entries()[i].0) by {
            let k = self.entries()[i].0;
            assert(self.entries@[i].0 == k);
        }
    }

    /// Position of the entry for `k`, if any.
    fn find(&self, k: u64) -> (r: Option<usize>)
        requires
            self.wf(),
        ensures
            match r {
                Some(i) => i < self.entries@.len() && self.entries@[i as int].0 == k,
                None => !self@.contains_key(k),
            },
    {
        proof {
            lemma_entries_map(self.entries@);
        }
        let mut i: usize = 0;
        while i < self.entries.len()
            invariant
                i <= self.entries@.len(),
                forall|j: int| 0 <= j < i ==> #[trigger] self.entries@[j].0 != k,
            decreases self.entries@.len() - i,
        {
            if self.entries[i].0 == k {
                return Some(i);
            }
            i += 1;
        }
        None
    }

    pub fn contains(&self, k: u64) -> (r: bool)
        requires
            self.wf(),
        ensures
            r == self@.contains_key(k),
    {
        proof {
            lemma_entries_map(self.entries@);
        }
        self.find(k).is_some()
    }

    pub fn get(&self, k: u64) -> (r: Option<&V>)
        requires
            self.wf(),
        ensures
            match r {
                Some(v) => self@.contains_key(k) && self@[k] == v@,
                None => !self@.contains_key(k),
            },
    {
        proof {
            lemma_entries_map(self.entries@);
        }
        match self.find(k) {
            Some(i) => Some(&self.entries[i].1),
            None => None,
        }
    }

    /// Inserts or overwrites the value for `k`.
    pub fn insert(&mut self, k: u64, v: V)
        requires
            old(self).wf(),
        ensures
            final(self).wf(),
            final(self)@ == old(self)@.insert(k, v@),
    {
        let ghost o = self.entries@;
        let ghost v_view = v@;
        proof {
            lemma_entries_map(o);
        }
        match self.find(k) {
            Some(i) => {
                self.entries.set(i, (k, v));
                let ghost s = self.entries@;
                assert(forall|j: int| 0 <= j < s.len() ==> #[trigger] s[j].0 == o[j].0);
                proof {
                    lemma_entries_map(s);
                    assert forall|key: u64| #[trigger] self@.contains_key(key)
                        == old(self)@.insert(k, v_view).contains_key(key) by {
                        if self@.contains_key(key) {
                            let j = choose|j: int| 0 <= j < s.len() && #[trigger] s[j].0 == key;
                            assert(o[j].0 == key);
                        }
                        if old(self)@.contains_key(key) {
                            let j = choose|j: int| 0 <= j < o.len() && #[trigger] o[j].0 == key;
                            assert(s[j].0 == key);
                        }
                        assert(s[i as int].0 == k);
                    }
                    assert forall|key: u64| #[trigger] self@.contains_key(key) implies self@[key]
                        == old(self)@.insert(k, v_view)[key] by {
                        let j = choose|j: int| 0 <= j < s.len() && #[trigger] s[j].0 == key;
                        assert(o[j].0 == key);
                        if key != k {
                            assert(s[j] == o[j]);
                        } else {
                            assert(j == i);
                        }
                    }
                    assert(self@ =~= old(self)@.insert(k, v_view));
                }
            },
            None => {
                self.entries.push((k, v));
                let ghost s = self.entries@;
                assert(s.drop_last() =~= o);
                assert(keys_unique(s)) by {
                    assert forall|a: int, b: int|
                        0 <= a < s.len() && 0 <= b < s.len() && a != b implies #[trigger] s[a].0
                        != #[trigger] s[b].0 by {
                        if a < o.len() && b < o.len() {
                            assert(s[a] == o[a] && s[b] == o[b]);
                        } else if a < o.len() {
                            assert(s[a] == o[a]);
                        } else {
                            assert(s[b] == o[b]);
                        }
                    }
                }
            },
        }
    }

    /// Removes the entry for `k`; nothing happens where there is none.
    pub fn remove(&mut self, k: u64)
        requires
            old(self).wf(),
        ensures
            final(self).wf(),
            final(self)@ == old(self)@.remove(k),
    {
        let ghost o = self.entries@;
        proof {
            lemma_entries_map(o);
        }
        match self.find(k) {
            Some(i) => {
                self.entries.swap_remove(i);
                let ghost s = self.entries@;
                let ghost n = o.len() - 1;
                assert(forall|j: int| 0 <= j < s.len() && j != i ==> #[trigger] s[j] == o[j]);
                assert(i < n ==> s[i as int] == o[n]);
                assert(keys_unique(s)) by {
                    assert forall|a: int, b: int|
                        0 <= a < s.len() && 0 <= b < s.len() && a != b implies #[trigger] s[a].0
                        != #[trigger] s[b].0 by {
                        if a == i {
                            assert(s[b] == o[b]);
                        } else if b == i {
                            assert(s[a] == o[a]);
                        } else {
                            assert(s[a] == o[a] && s[b] == o[b]);
                        }
                    }
                }
                proof {
                    lemma_entries_map(s);
                    assert forall|key: u64| #[trigger] self@.contains_key(key)
                        == old(self)@.remove(k).contains_key(key) by {
                        if self@.contains_key(key) {
                            let j = choose|j: int| 0 <= j < s.len() && #[trigger] s[j].0 == key;
                            if j == i {
                                assert(o[n].0 == key);
                            } else {
                                assert(o[j].0 == key);
                            }
                        }
                        if old(self)@.contains_key(key) && key != k {
                            let j = choose|j: int| 0 <= j < o.len() && #[trigger] o[j].0 == key;
                            if j == n {
                                assert(s[i as int].0 == key);
                            } else {
                                assert(s[j].0 == key);
                            }
                        }
                    }
                    assert forall|key: u64| #[trigger] self@.contains_key(key) implies self@[key]
                        == old(self)@.remove(k)[key] by {
                        let j = choose|j: int| 0 <= j < s.len() && #[trigger] s[j].0 == key;
                        if j == i {
                            assert(s[j] == o[n]);
                        } else {
                            assert(s[j] == o[j]);
                        }
                    }
                    assert(self@ =~= old(self)@.remove(k));
                }
            },
            None => {
                assert(old(self)@.remove(k) =~= old(self)@);
            },
        }
    }
}

} // verus!
