//! A small string-to-string map that keeps its entries in insertion order:
//! dependency tables, script tables and the like.

use vstd::prelude::*;
use crate::text::owned;

verus! {

/// The entries as texts.
pub type Entries = Seq<(Seq<char>, Seq<char>)>;

/// No key occurs twice.
pub open spec fn unique_keys(s: Entries) -> bool {
    forall|i: int, j: int| 0 <= i < s.len() && 0 <= j < s.len() && i != j ==> s[i].0 != s[j].0
}

/// Some entry has key `k`.
pub open spec fn has_key(s: Entries, k: Seq<char>) -> bool {
    exists|i: int| 0 <= i < s.len() && s[i].0 == k
}

/// The position of key `k`, when present.
pub open spec fn key_index(s: Entries, k: Seq<char>) -> int {
    choose|i: int| 0 <= i < s.len() && s[i].0 == k
}

/// The value under key `k`.
pub open spec fn lookup(s: Entries, k: Seq<char>) -> Option<Seq<char>> {
    if has_key(s, k) {
        Some(s[key_index(s, k)].1)
    } else {
        None
    }
}

/// The entries after setting `k` to `v`: an existing entry keeps its place,
/// a new one goes last.
pub open spec fn inserted(s: Entries, k: Seq<char>, v: Seq<char>) -> Entries {
    if has_key(s, k) {
        s.update(key_index(s, k), (k, v))
    } else {
        s.push((k, v))
    }
}

/// The entries after dropping key `k`; the others keep their order.
pub open spec fn removed(s: Entries, k: Seq<char>) -> Entries {
    if has_key(s, k) {
        s.remove(key_index(s, k))
    } else {
        s
    }
}

/// A map from names to texts, in insertion order.
pub struct Dependencies {
    entries: Vec<(String, String)>,
}

impl View for Dependencies {
    type V = Entries;

    closed spec fn view(&self) -> Entries {
        self.entries@.map_values(|e: (String, String)| (e.0@, e.1@))
    }
}

impl Dependencies {
    /// Keys are unique; every method keeps it so.
    pub open spec fn wf(&self) -> bool {
        unique_keys(self@)
    }

    /// An empty map.
    pub fn new() -> (r: Self)
        ensures
            r.wf(),
            r@ == Seq::<(Seq<char>, Seq<char>)>::empty(),
    {
        let r = Dependencies { entries: Vec::new() };
        assert(r@ =~= Seq::<(Seq<char>, Seq<char>)>::empty());
        r
    }

    /// Number of entries.
    pub fn len(&self) -> (r: usize)
        ensures
            r == self@.len(),
    {
        self.entries.len()
    }

    /// Whether there is no entry.
    pub fn is_empty(&self) -> (r: bool)
        ensures
            r == (self@.len() == 0),
    {
        self.entries.len() == 0
    }

    /// Position of key `k`, if present.
    fn find(&self, k: &str) -> (r: Option<usize>)
        requires
            self.wf(),
        ensures
            r is None <==> !has_key(self@, k@),
            r matches Some(i) ==> i == key_index(self@, k@) && i < self@.len(),
    {
        let mut i: usize = 0;
        while i < self.entries.len()
            invariant
                i <= self@.len(),
                self.wf(),
                self@.len() == self.entries@.len(),
                forall|j: int| 0 <= j < i ==> self@[j].0 != k@,
            decreases self@.len() - i,
        {
            assert(self@[i as int].0 == self.entries@[i as int].0@);
            if crate::text::same_text(self.entries[i].0.as_str(), k) {
                assert(self@[i as int].0 == k@);
                assert(has_key(self@, k@));
                let ghost c = key_index(self@, k@);
                assert(c == i);
                return Some(i);
            }
            i = i + 1;
        }
        None
    }

    /// Whether key `k` is present.
    pub fn contains_key(&self, k: &str) -> (r: bool)
        requires
            self.wf(),
        ensures
            r == has_key(self@, k@),
    {
        self.find(k).is_some()
    }

    /// The value under key `k`.
    pub fn get(&self, k: &str) -> (r: Option<String>)
        requires
            self.wf(),
        ensures
            r is None <==> lookup(self@, k@) is None,
            r matches Some(v) ==> lookup(self@, k@) == Some(v@),
    {
        match self.find(k) {
            Some(i) => {
                assert(self@[i as int].1 == self.entries@[i as int].1@);
                Some(self.entries[i].1.clone())
            },
            None => None,
        }
    }

    /// Sets key `k` to `v`.
    pub fn insert(&mut self, k: &str, v: &str)
        requires
            old(self).wf(),
        ensures
            final(self).wf(),
            final(self)@ == inserted(old(self)@, k@, v@),
            lookup(final(self)@, k@) == Some(v@),
    {
        let ghost s = self@;
        match self.find(k) {
            Some(i) => {
                self.entries.set(i, (owned(k), owned(v)));
                assert(self@ =~= s.update(i as int, (k@, v@)));
            },
            None => {
                self.entries.push((owned(k), owned(v)));
                assert(self@ =~= s.push((k@, v@)));
            },
        }
        let ghost t = self@;
        assert(has_key(t, k@)) by {
            let i = if has_key(s, k@) { key_index(s, k@) } else { s.len() as int };
            assert(t[i].0 == k@);
        }
        proof {
            let c = key_index(t, k@);
            if has_key(s, k@) {
                assert(c == key_index(s, k@));
            } else {
                assert(c == s.len());
            }
        }
    }

    /// Drops key `k`, when present.
    pub fn remove(&mut self, k: &str)
        requires
            old(self).wf(),
        ensures
            final(self).wf(),
            final(self)@ == removed(old(self)@, k@),
            lookup(final(self)@, k@) is None,
    {
        let ghost s = self@;
        match self.find(k) {
            Some(i) => {
                let _ = self.entries.remove(i);
                assert(self@ =~= s.remove(i as int));
                assert(!has_key(self@, k@)) by {
                    if has_key(self@, k@) {
                        let j = choose|j: int| 0 <= j < self@.len() && self@[j].0 == k@;
                        if j < i {
                            assert(s[j].0 == k@);
                        } else {
                            assert(s[j + 1].0 == k@);
                        }
                    }
                }
            },
            None => {},
        }
    }

    /// A copy of the entries, in order.
    pub fn pairs(&self) -> (r: Vec<(String, String)>)
        ensures
            r@.map_values(|e: (String, String)| (e.0@, e.1@)) == self@,
    {
        let mut out: Vec<(String, String)> = Vec::new();
        let mut i: usize = 0;
        while i < self.entries.len()
            invariant
                i <= self.entries@.len(),
                out@.len() == i,
                forall|j: int| 0 <= j < i ==> #[trigger] out@[j] == self.entries@[j],
            decreases self.entries@.len() - i,
        {
            out.push((self.entries[i].0.clone(), self.entries[i].1.clone()));
            i = i + 1;
        }
        assert(out@.map_values(|e: (String, String)| (e.0@, e.1@)) =~= self@);
        out
    }

    /// A copy of the map.
    pub fn copy(&self) -> (r: Dependencies)
        ensures
            r@ == self@,
    {
        let r = Dependencies { entries: self.pairs() };
        r
    }
}

} // verus!
