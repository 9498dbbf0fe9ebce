use vstd::prelude::*;

verus! {

/// An associative store from string keys to values of type `V`, kept as a
/// vector of entries whose keys are pairwise distinct. Its view is the
/// `Map` from key characters to the stored value, so callers reason about
/// it as a mathematical map.
pub struct StrMap<V> {
    entries: Vec<(String, V)>,
}

/// No two entries of `s` share a key.
spec fn keys_distinct<V>(s: Seq<(String, V)>) -> bool {
    forall|i: int, j: int| 0 <= i < j < s.len() ==> s[i].0@ != s[j].0@
}

/// Some entry of `s` has the key `k`.
spec fn has_key<V>(s: Seq<(String, V)>, k: Seq<char>) -> bool {
    exists|i: int| 0 <= i < s.len() && s[i].0@ == k
}

/// An index of an entry of `s` whose key is `k`, when one exists.
spec fn key_index<V>(s: Seq<(String, V)>, k: Seq<char>) -> int {
    choose|i: int| 0 <= i < s.len() && s[i].0@ == k
}

/// The map that a sequence of entries denotes: each key present in `s` is
/// sent to the value stored beside it.
spec fn entries_map<V>(s: Seq<(String, V)>) -> Map<Seq<char>, V> {
    Map::new(|k: Seq<char>| has_key(s, k), |k: Seq<char>| s[key_index(s, k)].1)
}

/// With distinct keys, any entry determines the denoted map at its key.
proof fn lemma_key_lookup<V>(s: Seq<(String, V)>, i: int)
    requires
        keys_distinct(s),
        0 <= i < s.len(),
    ensures
        entries_map(s).contains_key(s[i].0@),
        entries_map(s)[s[i].0@] == s[i].1,
{
    assert(has_key(s, s[i].0@));
    let j = key_index(s, s[i].0@);
    assert(0 <= j < s.len() && s[j].0@ == s[i].0@);
    assert(j == i);
}

/// Appending an entry with a fresh key inserts it into the denoted map.
proof fn lemma_push<V>(s: Seq<(String, V)>, key: String, value: V)
    requires
        keys_distinct(s),
        !has_key(s, key@),
    ensures
        keys_distinct(s.push((key, value))),
        entries_map(s.push((key, value))) == entries_map(s).insert(key@, value),
{
    let t = s.push((key, value));
    assert forall|i: int, j: int| 0 <= i < j < t.len() implies t[i].0@ != t[j].0@ by {
        if j == s.len() {
            assert(t[i] == s[i]);
            if t[i].0@ == key@ {
                assert(has_key(s, key@));
            }
        } else {
            assert(t[i] == s[i] && t[j] == s[j]);
        }
    }
    assert forall|k: Seq<char>|
        #[trigger] entries_map(t).contains_key(k) <==> entries_map(s).insert(
            key@,
            value,
        ).contains_key(k) by {
        if k == key@ {
            assert(t[s.len() as int].0@ == k);
            assert(has_key(t, k));
        } else {
            if has_key(t, k) {
                let i = key_index(t, k);
                assert(0 <= i < t.len() && t[i].0@ == k);
                assert(i < s.len());
                assert(s[i].0@ == k);
                assert(has_key(s, k));
            }
            if has_key(s, k) {
                let i = key_index(s, k);
                assert(0 <= i < s.len() && s[i].0@ == k);
                assert(t[i].0@ == k);
                assert(has_key(t, k));
            }
        }
    }
    assert forall|k: Seq<char>| #[trigger] entries_map(t).contains_key(k) implies entries_map(t)[k]
        == entries_map(s).insert(key@, value)[k] by {
        if k == key@ {
            lemma_key_lookup(t, s.len() as int);
        } else {
            let i = key_index(t, k);
            assert(0 <= i < t.len() && t[i].0@ == k);
            assert(i < s.len());
            lemma_key_lookup(t, i);
            lemma_key_lookup(s, i);
        }
    }
    assert(entries_map(t) =~= entries_map(s).insert(key@, value));
}

/// Removing the entry at `i` removes its key from the denoted map.
proof fn lemma_remove_at<V>(s: Seq<(String, V)>, i: int)
    requires
        keys_distinct(s),
        0 <= i < s.len(),
    ensures
        keys_distinct(s.remove(i)),
        entries_map(s.remove(i)) == entries_map(s).remove(s[i].0@),
{
    let t = s.remove(i);
    s.remove_ensures(i);
    assert forall|p: int, q: int| 0 <= p < q < t.len() implies t[p].0@ != t[q].0@ by {
        let p0 = if p < i { p } else { p + 1 };
        let q0 = if q < i { q } else { q + 1 };
        assert(t[p] == s[p0] && t[q] == s[q0]);
    }
    assert forall|k: Seq<char>|
        #[trigger] entries_map(t).contains_key(k) <==> entries_map(s).remove(
            s[i].0@,
        ).contains_key(k) by {
        if has_key(t, k) {
            let p = key_index(t, k);
            assert(0 <= p < t.len() && t[p].0@ == k);
            let p0 = if p < i { p } else { p + 1 };
            assert(t[p] == s[p0]);
            assert(has_key(s, k));
            assert(p0 != i ==> k != s[i].0@) by {
                if p0 != i && k == s[i].0@ {
                    assert(s[p0].0@ == s[i].0@);
                }
            }
            assert(k != s[i].0@);
        }
        if has_key(s, k) && k != s[i].0@ {
            let p = key_index(s, k);
            assert(0 <= p < s.len() && s[p].0@ == k);
            assert(p != i);
            let q = if p < i { p } else { p - 1 };
            assert(t[q] == s[p]);
            assert(has_key(t, k));
        }
    }
    assert forall|k: Seq<char>| #[trigger] entries_map(t).contains_key(k) implies entries_map(t)[k]
        == entries_map(s).remove(s[i].0@)[k] by {
        let p = key_index(t, k);
        assert(0 <= p < t.len() && t[p].0@ == k);
        let p0 = if p < i { p } else { p + 1 };
        assert(t[p] == s[p0]);
        lemma_key_lookup(t, p);
        lemma_key_lookup(s, p0);
    }
    assert(entries_map(t) =~= entries_map(s).remove(s[i].0@));
}

impl<V> View for StrMap<V> {
    type V = Map<Seq<char>, V>;

    closed spec fn view(&self) -> Map<Seq<char>, V> {
        entries_map(self.entries@)
    }
}

impl<V> StrMap<V> {
    #[verifier::type_invariant]
    spec fn wf(self) -> bool {
        keys_distinct(self.entries@)
    }

    /// An empty store.
    pub fn new() -> (r: Self)
        ensures
            r@ == Map::<Seq<char>, V>::empty(),
    {
        let r = StrMap { entries: Vec::new() };
        proof {
            assert(r@ =~= Map::<Seq<char>, V>::empty());
        }
        r
    }

    /// The index of the entry for `key`, when the key is present.
    fn position_of(&self, key: &String) -> (r: Option<usize>)
        ensures
            match r {
                Some(i) => i < self.entries@.len() && self.entries@[i as int].0@ == key@,
                None => !has_key(self.entries@, key@),
            },
    {
        let n = self.entries.len();
        let mut i: usize = 0;
        while i < n
            invariant
                n == self.entries@.len(),
                i <= n,
                forall|j: int| 0 <= j < i ==> self.entries@[j].0@ != key@,
            decreases n - i,
        {
            if self.entries[i].0 == *key {
                return Some(i);
            }
            i += 1;
        }
        proof {
            assert(!has_key(self.entries@, key@));
        }
        None
    }

    /// Looks the key up; returns the stored value exactly when the key is
    /// present.
    pub fn get(&self, key: &String) -> (r: Option<&V>)
        ensures
            match r {
                Some(v) => self@.contains_key(key@) && *v == self@[key@],
                None => !self@.contains_key(key@),
            },
    {
        proof {
            use_type_invariant(self);
        }
        match self.position_of(key) {
            Some(i) => {
                proof {
                    lemma_key_lookup(self.entries@, i as int);
                }
                Some(&self.entries[i].1)
            },
            None => None,
        }
    }

    /// Upserts: the denoted map afterwards is the old one with `key` bound
    /// to `value`.
    pub fn insert(&mut self, key: String, value: V)
        ensures
            final(self)@ == old(self)@.insert(key@, value),
    {
        self.remove(&key);
        proof {
            use_type_invariant(&*self);
            assert(!self@.contains_key(key@));
            assert(!has_key(self.entries@, key@));
            lemma_push(self.entries@, key, value);
            assert(old(self)@.remove(key@).insert(key@, value) =~= old(self)@.insert(key@, value));
        }
        let mut entries: Vec<(String, V)> = Vec::new();
        core::mem::swap(&mut entries, &mut self.entries);
        entries.push((key, value));
        self.entries = entries;
    }

    /// Removes the binding for `key`, if any.
    pub fn remove(&mut self, key: &String)
        ensures
            final(self)@ == old(self)@.remove(key@),
    {
        proof {
            use_type_invariant(&*self);
        }
        match self.position_of(key) {
            Some(i) => {
                proof {
                    lemma_remove_at(self.entries@, i as int);
                }
                let mut entries: Vec<(String, V)> = Vec::new();
                core::mem::swap(&mut entries, &mut self.entries);
                entries.remove(i);
                self.entries = entries;
            },
            None => {
                proof {
                    assert(self@ =~= old(self)@.remove(key@));
                }
            },
        }
    }
}

} // verus!
