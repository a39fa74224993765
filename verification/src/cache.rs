use vstd::prelude::*;

verus! {

/// A cache keyed by a class id and a name, such as the per-thread lookup
/// caches of the interpreter. A later entry for a key hides earlier ones.
pub struct NameCache<V> {
    pub entries: Vec<(usize, String, V)>,
}

/// The value the first `n` entries hold for `(id, key)`: the last one
/// recorded.
pub open spec fn cached_in<V>(entries: Seq<(usize, String, V)>, id: usize, key: Seq<char>, n: int) -> Option<V>
    decreases n,
{
    if n <= 0 || n > entries.len() {
        None
    } else if entries[n - 1].0 == id && entries[n - 1].1@ == key {
        Some(entries[n - 1].2)
    } else {
        cached_in(entries, id, key, n - 1)
    }
}

impl<V: Copy> NameCache<V> {
    /// The value cached for `(id, key)`.
    pub open spec fn lookup(&self, id: usize, key: Seq<char>) -> Option<V> {
        cached_in(self.entries@, id, key, self.entries@.len() as int)
    }

    /// An empty cache.
    pub fn new() -> (r: Self)
        ensures
            forall|id: usize, key: Seq<char>| r.lookup(id, key) is None,
    {
        NameCache { entries: Vec::new() }
    }

    /// The value cached for `(id, key)`, if any.
    pub fn get(&self, id: usize, key: &String) -> (r: Option<V>)
        ensures
            r == self.lookup(id, key@),
    {
        let mut n: usize = self.entries.len();
        while n > 0
            invariant
                n <= self.entries@.len(),
                cached_in(self.entries@, id, key@, self.entries@.len() as int) == cached_in(
                    self.entries@,
                    id,
                    key@,
                    n as int,
                ),
            decreases n,
        {
            let e = &self.entries[n - 1];
            if e.0 == id && e.1 == *key {
                return Some(e.2);
            }
            n = n - 1;
        }
        None
    }

    /// Records `v` for `(id, key)`; every other key keeps its value.
    pub fn insert(&mut self, id: usize, key: String, v: V)
        ensures
            final(self).lookup(id, key@) == Some(v),
            forall|id2: usize, key2: Seq<char>|
                !(id2 == id && key2 == key@) ==> final(self).lookup(id2, key2) == old(self).lookup(
                    id2,
                    key2,
                ),
    {
        let ghost k = key@;
        self.entries.push((id, key, v));
        proof {
            let s = self.entries@;
            assert(s.len() == old(self).entries@.len() + 1);
            assert forall|id2: usize, key2: Seq<char>|
                !(id2 == id && key2 == k) implies cached_in(s, id2, key2, s.len() as int) == cached_in(
                    old(self).entries@,
                    id2,
                    key2,
                    old(self).entries@.len() as int,
                ) by {
                lemma_cached_in_prefix(old(self).entries@, s, id2, key2, old(self).entries@.len() as int);
            }
        }
    }

    /// Forgets every entry.
    pub fn clear(&mut self)
        ensures
            forall|id: usize, key: Seq<char>| final(self).lookup(id, key) is None,
    {
        self.entries.clear();
    }
}

proof fn lemma_cached_in_prefix<V>(
    a: Seq<(usize, String, V)>,
    b: Seq<(usize, String, V)>,
    id: usize,
    key: Seq<char>,
    n: int,
)
    requires
        0 <= n <= a.len(),
        a.len() <= b.len(),
        forall|i: int| 0 <= i < a.len() ==> a[i] == b[i],
    ensures
        cached_in(a, id, key, n) == cached_in(b, id, key, n),
    decreases n,
{
    if n > 0 {
        lemma_cached_in_prefix(a, b, id, key, n - 1);
    }
}

} // verus!
