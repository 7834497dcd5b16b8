//! The chunk cache: at most one pending full-body string per resource key.
//!
//! An entry is created when a fetched body is too large to return in one
//! reply and is consumed by the continuation call that reads it, so the
//! cache is strictly single-use: entries leave only by `remove`.

use vstd::prelude::*;

verus! {

/// Holds the complete encoded body kept for each resource key, pending a
/// continuation call. Modelled as a `Map` from key characters to body
/// characters; the backing store is an association list with unique keys.
pub struct Cache {
    entries: Vec<(String, String)>,
}

/// The map an entry list denotes; a later entry for a key would win,
/// though the well-formedness invariant keeps keys unique.
spec fn entries_map(s: Seq<(String, String)>) -> Map<Seq<char>, Seq<char>>
    decreases s.len(),
{
    if s.len() == 0 {
        Map::empty()
    } else {
        entries_map(s.drop_last()).insert(s.last().0@, s.last().1@)
    }
}

/// No two entries carry the same key.
spec fn unique_keys(s: Seq<(String, String)>) -> bool {
    forall|i: int, j: int| 0 <= i < j < s.len() ==> s[i].0@ != s[j].0@
}

proof fn lemma_entries_map_contains(s: Seq<(String, String)>, k: Seq<char>)
    ensures
        entries_map(s).contains_key(k) <==> exists|i: int| 0 <= i < s.len() && s[i].0@ == k,
    decreases s.len(),
{
    if s.len() > 0 {
        lemma_entries_map_contains(s.drop_last(), k);
        if s.last().0@ == k {
            assert(s[s.len() - 1].0@ == k);
        } else {
            if entries_map(s).contains_key(k) {
                let i = choose|i: int| 0 <= i < s.drop_last().len() && s.drop_last()[i].0@ == k;
                assert(s[i].0@ == k);
            }
            if exists|i: int| 0 <= i < s.len() && s[i].0@ == k {
                let i = choose|i: int| 0 <= i < s.len() && s[i].0@ == k;
                assert(s.drop_last()[i].0@ == k);
            }
        }
    }
}

proof fn lemma_entries_map_get(s: Seq<(String, String)>, i: int)
    requires
        unique_keys(s),
        0 <= i < s.len(),
    ensures
        entries_map(s).contains_key(s[i].0@),
        entries_map(s)[s[i].0@] == s[i].1@,
    decreases s.len(),
{
    if i == s.len() - 1 {
    } else {
        assert(unique_keys(s.drop_last()));
        assert(s.drop_last()[i] == s[i]);
        lemma_entries_map_get(s.drop_last(), i);
        assert(s.last().0@ != s[i].0@);
    }
}

proof fn lemma_entries_map_remove(s: Seq<(String, String)>, i: int)
    requires
        unique_keys(s),
        0 <= i < s.len(),
    ensures
        entries_map(s.remove(i)) == entries_map(s).remove(s[i].0@),
    decreases s.len(),
{
    let k = s[i].0@;
    if i == s.len() - 1 {
        assert(s.remove(i) =~= s.drop_last());
        assert(!entries_map(s.drop_last()).contains_key(k)) by {
            lemma_entries_map_contains(s.drop_last(), k);
            assert forall|j: int| 0 <= j < s.drop_last().len() implies s.drop_last()[j].0@ != k by {
                assert(s[j].0@ != s[i].0@);
            }
        }
        assert(entries_map(s.drop_last()).insert(k, s.last().1@).remove(k) =~= entries_map(
            s.drop_last(),
        ));
    } else {
        assert(unique_keys(s.drop_last()));
        assert(s.drop_last()[i] == s[i]);
        lemma_entries_map_remove(s.drop_last(), i);
        assert(s.remove(i).drop_last() =~= s.drop_last().remove(i));
        assert(s.remove(i).last() == s.last());
        assert(s.last().0@ != k);
        assert(entries_map(s.drop_last()).remove(k).insert(s.last().0@, s.last().1@)
            =~= entries_map(s.drop_last()).insert(s.last().0@, s.last().1@).remove(k));
    }
}

proof fn lemma_entries_map_push(s: Seq<(String, String)>, k: String, v: String)
    ensures
        entries_map(s.push((k, v))) == entries_map(s).insert(k@, v@),
{
    assert(s.push((k, v)).drop_last() =~= s);
    assert(s.push((k, v)).last() == (k, v));
}

proof fn lemma_unique_remove(s: Seq<(String, String)>, i: int)
    requires
        unique_keys(s),
        0 <= i < s.len(),
    ensures
        unique_keys(s.remove(i)),
        forall|j: int| 0 <= j < s.remove(i).len() ==> s.remove(i)[j].0@ != s[i].0@,
{
    let t = s.remove(i);
    assert forall|a: int, b: int| 0 <= a < b < t.len() implies t[a].0@ != t[b].0@ by {
        if b < i {
            assert(s[a].0@ != s[b].0@);
        } else if a < i {
            assert(s[a].0@ != s[b + 1].0@);
        } else {
            assert(s[a + 1].0@ != s[b + 1].0@);
        }
    }
    assert forall|j: int| 0 <= j < t.len() implies t[j].0@ != s[i].0@ by {
        if j < i {
            assert(s[j].0@ != s[i].0@);
        } else {
            assert(s[i].0@ != s[j + 1].0@);
        }
    }
}

proof fn lemma_unique_push(s: Seq<(String, String)>, k: String, v: String)
    requires
        unique_keys(s),
        forall|j: int| 0 <= j < s.len() ==> s[j].0@ != k@,
    ensures
        unique_keys(s.push((k, v))),
{
    let t = s.push((k, v));
    assert forall|a: int, b: int| 0 <= a < b < t.len() implies t[a].0@ != t[b].0@ by {
        if b == s.len() {
            assert(s[a].0@ != k@);
        } else {
            assert(s[a].0@ != s[b].0@);
        }
    }
}

/// Looks the key up in the entry list, returning the index of its entry.
fn find_in(entries: &Vec<(String, String)>, key: &String) -> (r: Option<usize>)
    ensures
        match r {
            Some(i) => 0 <= i < entries@.len() && entries@[i as int].0@ == key@,
            None => forall|j: int| 0 <= j < entries@.len() ==> entries@[j].0@ != key@,
        },
{
    let mut i: usize = 0;
    while i < entries.len()
        invariant
            i <= entries@.len(),
            forall|j: int| 0 <= j < i ==> entries@[j].0@ != key@,
        decreases entries@.len() - i,
    {
        if entries[i].0 == *key {
            return Some(i);
        }
        i += 1;
    }
    None
}

impl View for Cache {
    type V = Map<Seq<char>, Seq<char>>;

    closed spec fn view(&self) -> Map<Seq<char>, Seq<char>> {
        entries_map(self.entries@)
    }
}

impl Cache {
    #[verifier::type_invariant]
    spec fn wf(self) -> bool {
        unique_keys(self.entries@)
    }

    /// An empty cache: no resource has a pending body.
    pub fn new() -> (r: Self)
        ensures
            r@ == Map::<Seq<char>, Seq<char>>::empty(),
    {
        Cache { entries: Vec::new() }
    }

    /// Unconditionally (over)writes the entry for `key` with `value`.
    pub fn insert(&mut self, key: String, value: String)
        ensures
            final(self)@ == old(self)@.insert(key@, value@),
    {
        proof {
            use_type_invariant(&*self);
        }
        let mut entries: Vec<(String, String)> = Vec::new();
        std::mem::swap(&mut entries, &mut self.entries);
        let ghost s0 = entries@;
        match find_in(&entries, &key) {
            Some(i) => {
                entries.remove(i);
                proof {
                    lemma_entries_map_remove(s0, i as int);
                    lemma_unique_remove(s0, i as int);
                }
            },
            None => {},
        }
        let ghost s1 = entries@;
        proof {
            assert(unique_keys(s1));
            assert(forall|j: int| 0 <= j < s1.len() ==> s1[j].0@ != key@);
        }
        entries.push((key, value));
        proof {
            lemma_entries_map_push(s1, key, value);
            lemma_unique_push(s1, key, value);
            assert(entries_map(entries@) =~= entries_map(s0).insert(key@, value@));
        }
        std::mem::swap(&mut entries, &mut self.entries);
    }

    /// Atomically removes and returns the entry for `key`: a present entry
    /// is handed out exactly once, an absent key reports absence and leaves
    /// the cache as it was.
    pub fn remove(&mut self, key: &String) -> (r: Option<String>)
        ensures
            match r {
                Some(v) => old(self)@.contains_key(key@) && v@ == old(self)@[key@]
                    && final(self)@ == old(self)@.remove(key@),
                None => !old(self)@.contains_key(key@) && final(self)@ == old(self)@,
            },
    {
        proof {
            use_type_invariant(&*self);
        }
        let mut entries: Vec<(String, String)> = Vec::new();
        std::mem::swap(&mut entries, &mut self.entries);
        let ghost s0 = entries@;
        let r = match find_in(&entries, key) {
            Some(i) => {
                let entry = entries.remove(i);
                proof {
                    lemma_entries_map_get(s0, i as int);
                    lemma_entries_map_remove(s0, i as int);
                    lemma_unique_remove(s0, i as int);
                }
                Some(entry.1)
            },
            None => {
                proof {
                    lemma_entries_map_contains(s0, key@);
                }
                None
            },
        };
        std::mem::swap(&mut entries, &mut self.entries);
        r
    }
}

/// Single use: once the entry for a key has been removed, the cache holds
/// nothing for that key, so a second take of the same key finds nothing
/// until a new entry is stored.
pub proof fn lemma_single_use(m: Map<Seq<char>, Seq<char>>, k: Seq<char>)
    ensures
        !m.remove(k).contains_key(k),
{
}

} // verus!
