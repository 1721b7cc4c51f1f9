use vstd::prelude::*;

verus! {

// An association list with unique keys, viewed as the sequence of its
// `(key, value-view)` entries in insertion order.  The renderer's scene,
// batch and thing tables all use it: lookup is by key, iteration (for draw
// order and notifications) is by position, and insertion replaces in place
// or appends, which keeps keys stable across frames.

/// No key occurs twice.
pub open spec fn keys_unique<T>(s: Seq<(usize, T)>) -> bool {
    forall|i: int, j: int| 0 <= i < j < s.len() ==> (#[trigger] s[i]).0 != (#[trigger] s[j]).0
}

/// Some entry carries key `k`.
pub open spec fn has_key<T>(s: Seq<(usize, T)>, k: usize) -> bool {
    exists|i: int| 0 <= i < s.len() && (#[trigger] s[i]).0 == k
}

/// The position of the entry carrying key `k` (meaningful when `has_key`
/// holds and keys are unique).
pub open spec fn key_index<T>(s: Seq<(usize, T)>, k: usize) -> int {
    choose|i: int| 0 <= i < s.len() && (#[trigger] s[i]).0 == k
}

/// The value stored under key `k`.
pub open spec fn value_of<T>(s: Seq<(usize, T)>, k: usize) -> T {
    s[key_index(s, k)].1
}

/// What insertion does to the model: replace in place when the key is
/// present, append otherwise.
pub open spec fn store_insert<T>(s: Seq<(usize, T)>, k: usize, v: T) -> Seq<(usize, T)> {
    if has_key(s, k) {
        s.update(key_index(s, k), (k, v))
    } else {
        s.push((k, v))
    }
}

/// With unique keys, the entry at a position with key `k` is *the* entry for
/// `k`.
pub proof fn lemma_key_at<T>(s: Seq<(usize, T)>, k: usize, i: int)
    requires
        keys_unique(s),
        0 <= i < s.len(),
        s[i].0 == k,
    ensures
        has_key(s, k),
        key_index(s, k) == i,
        value_of(s, k) == s[i].1,
{
    assert(has_key(s, k));
    let j = key_index(s, k);
    if j != i {
        if i < j {
            assert(s[i].0 != s[j].0);
        } else {
            assert(s[j].0 != s[i].0);
        }
    }
}

/// What `store_insert` does, stated key by key: the inserted key now maps to
/// the new value, every other key is untouched, uniqueness is preserved, and
/// the length grows exactly when the key was absent.
pub proof fn lemma_store_insert<T>(s: Seq<(usize, T)>, k: usize, v: T)
    requires
        keys_unique(s),
    ensures
        keys_unique(store_insert(s, k, v)),
        has_key(store_insert(s, k, v), k),
        value_of(store_insert(s, k, v), k) == v,
        forall|k2: usize|
            k2 != k ==> #[trigger] has_key(store_insert(s, k, v), k2) == has_key(s, k2),
        forall|k2: usize|
            k2 != k && has_key(s, k2) ==> #[trigger] value_of(store_insert(s, k, v), k2)
                == value_of(s, k2),
        store_insert(s, k, v).len() == if has_key(s, k) {
            s.len()
        } else {
            s.len() + 1
        },
{
    let s2 = store_insert(s, k, v);
    if has_key(s, k) {
        let i = key_index(s, k);
        assert(0 <= i < s.len() && s[i].0 == k);
        assert(keys_unique(s2));
        lemma_key_at(s2, k, i);
        assert forall|k2: usize| k2 != k implies #[trigger] has_key(s2, k2) == has_key(s, k2) by {
            if has_key(s, k2) {
                let j = choose|j: int| 0 <= j < s.len() && (#[trigger] s[j]).0 == k2;
                assert(s2[j].0 == k2);
            }
            if has_key(s2, k2) {
                let j = choose|j: int| 0 <= j < s2.len() && (#[trigger] s2[j]).0 == k2;
                assert(s[j].0 == k2);
            }
        }
        assert forall|k2: usize| k2 != k && has_key(s, k2) implies #[trigger] value_of(s2, k2)
            == value_of(s, k2) by {
            let j = key_index(s, k2);
            assert(0 <= j < s.len() && s[j].0 == k2);
            assert(s2[j].0 == k2 && s2[j].1 == s[j].1);
            lemma_key_at(s2, k2, j);
        }
    } else {
        assert(s2 == s.push((k, v)));
        assert forall|i: int, j: int| 0 <= i < j < s2.len() implies (#[trigger] s2[i]).0
            != (#[trigger] s2[j]).0 by {
            if j < s.len() {
                assert(s[i].0 != s[j].0);
            } else {
                assert(s2[j].0 == k);
                assert(s2[i].0 == s[i].0);
                assert(s[i].0 != k);
            }
        }
        lemma_key_at(s2, k, s.len() as int);
        assert forall|k2: usize| k2 != k implies #[trigger] has_key(s2, k2) == has_key(s, k2) by {
            if has_key(s, k2) {
                let j = choose|j: int| 0 <= j < s.len() && (#[trigger] s[j]).0 == k2;
                assert(s2[j].0 == k2);
            }
            if has_key(s2, k2) {
                let j = choose|j: int| 0 <= j < s2.len() && (#[trigger] s2[j]).0 == k2;
                assert(j < s.len());
                assert(s[j].0 == k2);
            }
        }
        assert forall|k2: usize| k2 != k && has_key(s, k2) implies #[trigger] value_of(s2, k2)
            == value_of(s, k2) by {
            let j = key_index(s, k2);
            assert(0 <= j < s.len() && s[j].0 == k2);
            assert(s2[j].0 == k2 && s2[j].1 == s[j].1);
            lemma_key_at(s2, k2, j);
        }
    }
}

/// Keyed storage with stable insertion-order iteration.
#[derive(Clone, Debug, PartialEq)]
pub struct KeyedStore<V> {
    pub entries: Vec<(usize, V)>,
}

impl<V: View> View for KeyedStore<V> {
    type V = Seq<(usize, <V as View>::V)>;

    open spec fn view(&self) -> Seq<(usize, <V as View>::V)> {
        self.entries@.map_values(|e: (usize, V)| (e.0, e.1@))
    }
}

impl<V: View> KeyedStore<V> {
    /// An empty store.
    pub fn new() -> (s: Self)
        ensures
            s@ == Seq::<(usize, <V as View>::V)>::empty(),
            keys_unique(s@),
    {
        let s = KeyedStore { entries: Vec::new() };
        proof {
            assert(s@ =~= Seq::<(usize, <V as View>::V)>::empty());
        }
        s
    }

    /// Number of entries.
    pub fn len(&self) -> (n: usize)
        ensures
            n == self@.len(),
    {
        self.entries.len()
    }

    /// The position of key `k`, when present.
    fn find_index(&self, k: usize) -> (r: Option<usize>)
        ensures
            match r {
                Some(i) => i < self@.len() && self@[i as int].0 == k,
                None => !has_key(self@, k),
            },
    {
        let mut i: usize = 0;
        while i < self.entries.len()
            invariant
                i <= self.entries.len(),
                forall|j: int| 0 <= j < i ==> (#[trigger] self@[j]).0 != k,
            decreases self.entries.len() - i,
        {
            if self.entries[i].0 == k {
                return Some(i);
            }
            i += 1;
        }
        None
    }

    /// Whether key `k` is present.
    pub fn contains_key(&self, k: usize) -> (b: bool)
        ensures
            b == has_key(self@, k),
    {
        match self.find_index(k) {
            Some(i) => {
                proof {
                    assert(self@[i as int].0 == k);
                }
                true
            },
            None => false,
        }
    }

    /// The value under key `k`, when present.
    pub fn get(&self, k: usize) -> (r: Option<&V>)
        requires
            keys_unique(self@),
        ensures
            match r {
                Some(v) => has_key(self@, k) && v@ == value_of(self@, k),
                None => !has_key(self@, k),
            },
    {
        match self.find_index(k) {
            Some(i) => {
                proof {
                    lemma_key_at(self@, k, i as int);
                }
                Some(&self.entries[i].1)
            },
            None => None,
        }
    }

    /// Exclusive access to the value under key `k`; the store afterwards is
    /// exactly the old one with that value replaced.
    pub fn get_mut(&mut self, k: usize) -> (r: &mut V)
        requires
            keys_unique(old(self)@),
            has_key(old(self)@, k),
        ensures
            (*r)@ == value_of(old(self)@, k),
            final(self)@ =~= store_insert(old(self)@, k, (*final(r))@),
            keys_unique(final(self)@),
            final(self)@.len() == old(self)@.len(),
    {
        let i = match self.find_index(k) {
            Some(i) => i,
            None => {
                proof {
                    assert(false);
                }
                vstd::pervasive::unreached()
            },
        };
        proof {
            lemma_key_at(self@, k, i as int);
        }
        &mut self.entries[i].1
    }

    /// Inserts `v` under key `k`: replaces in place when the key exists,
    /// appends otherwise.
    pub fn insert(&mut self, k: usize, v: V)
        requires
            keys_unique(old(self)@),
        ensures
            final(self)@ =~= store_insert(old(self)@, k, v@),
            keys_unique(final(self)@),
    {
        proof {
            lemma_store_insert(old(self)@, k, v@);
        }
        match self.find_index(k) {
            Some(i) => {
                proof {
                    lemma_key_at(self@, k, i as int);
                }
                let slot = &mut self.entries[i];
                *slot = (k, v);
            },
            None => {
                self.entries.push((k, v));
            },
        }
    }

    /// The key of the entry at position `i`.
    pub fn key_at(&self, i: usize) -> (k: usize)
        requires
            i < self@.len(),
        ensures
            k == self@[i as int].0,
    {
        self.entries[i].0
    }

    /// The value of the entry at position `i`.
    pub fn value_at(&self, i: usize) -> (v: &V)
        requires
            i < self@.len(),
        ensures
            v@ == self@[i as int].1,
    {
        &self.entries[i].1
    }

    /// Exclusive access to the value at position `i`; keys and all other
    /// entries stay as they were.
    pub fn value_at_mut(&mut self, i: usize) -> (r: &mut V)
        requires
            i < old(self)@.len(),
        ensures
            (*r)@ == old(self)@[i as int].1,
            final(self)@ =~= old(self)@.update(
                i as int,
                (old(self)@[i as int].0, (*final(r))@),
            ),
    {
        &mut self.entries[i].1
    }
}

} // verus!
