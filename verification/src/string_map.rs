//! A map from strings to strings (stylesheet caches, image base URLs).

use vstd::prelude::*;

use crate::text::str_eq;

verus! {

broadcast use vstd::string::group_string_axioms;

/// A finite map from strings to strings; each key occurs once.
pub struct StringMap {
    entries: Vec<(String, String)>,
}

/// The keys of the entries are pairwise distinct.
pub open spec fn distinct_keys(e: Seq<(String, String)>) -> bool {
    forall|i: int, j: int| 0 <= i < e.len() && 0 <= j < e.len() && i != j ==> e[i].0@ != e[j].0@
}

/// Some entry has key `k`.
pub open spec fn has_key(e: Seq<(String, String)>, k: Seq<char>) -> bool {
    exists|i: int| 0 <= i < e.len() && e[i].0@ == k
}

/// The map the entries describe.
pub open spec fn entries_map(e: Seq<(String, String)>) -> Map<Seq<char>, Seq<char>> {
    Map::new(
        |k: Seq<char>| has_key(e, k),
        |k: Seq<char>| e[choose|i: int| 0 <= i < e.len() && e[i].0@ == k].1@,
    )
}

/// In entries with distinct keys, the entry at `i` gives the value of its key.
proof fn lemma_entry_value(e: Seq<(String, String)>, i: int)
    requires
        distinct_keys(e),
        0 <= i < e.len(),
    ensures
        entries_map(e).contains_key(e[i].0@),
        entries_map(e)[e[i].0@] == e[i].1@,
{
    let k = e[i].0@;
    assert(has_key(e, k));
    let j = choose|j: int| 0 <= j < e.len() && e[j].0@ == k;
    assert(j == i);
}

impl View for StringMap {
    type V = Map<Seq<char>, Seq<char>>;

    closed spec fn view(&self) -> Map<Seq<char>, Seq<char>> {
        entries_map(self.entries@)
    }
}

impl StringMap {
    #[verifier::type_invariant]
    closed spec fn wf(&self) -> bool {
        distinct_keys(self.entries@)
    }

    /// The number of keys.
    pub closed spec fn key_count(&self) -> nat {
        self.entries@.len()
    }

    /// The entries, in the order in which their keys were first inserted.
    pub closed spec fn entry_seq(&self) -> Seq<(String, String)> {
        self.entries@
    }

    /// An empty map.
    pub fn new() -> (m: Self)
        ensures
            m@ == Map::<Seq<char>, Seq<char>>::empty(),
            m.key_count() == 0,
    {
        let m = StringMap { entries: Vec::new() };
        assert(m@ =~= Map::<Seq<char>, Seq<char>>::empty());
        m
    }

    /// The number of keys (`HashMap::len`).
    pub fn len(&self) -> (r: usize)
        ensures
            r == self.key_count(),
    {
        self.entries.len()
    }

    /// The index of the entry with key `k`.
    fn index_of(&self, k: &str) -> (r: Option<usize>)
        ensures
            match r {
                Some(i) => i < self.entries@.len() && self.entries@[i as int].0@ == k@,
                None => !has_key(self.entries@, k@),
            },
    {
        let mut i: usize = 0;
        while i < self.entries.len()
            invariant
                i <= self.entries@.len(),
                forall|j: int| 0 <= j < i ==> self.entries@[j].0@ != k@,
            decreases self.entries.len() - i,
        {
            if str_eq(self.entries[i].0.as_str(), k) {
                return Some(i);
            }
            i = i + 1;
        }
        None
    }

    /// Whether `k` is a key (`HashMap::contains_key`).
    pub fn contains_key(&self, k: &str) -> (r: bool)
        ensures
            r == self@.contains_key(k@),
    {
        self.index_of(k).is_some()
    }

    /// The value of `k` (`HashMap::get`).
    pub fn get(&self, k: &str) -> (r: Option<&String>)
        ensures
            match r {
                Some(v) => self@.contains_key(k@) && self@[k@] == v@,
                None => !self@.contains_key(k@),
            },
    {
        proof {
            use_type_invariant(self);
        }
        match self.index_of(k) {
            Some(i) => {
                proof {
                    lemma_entry_value(self.entries@, i as int);
                }
                Some(&self.entries[i].1)
            },
            None => None,
        }
    }

    /// The value of `k`, or the empty string (`get(k).cloned().unwrap_or_default()`).
    pub fn get_or_empty(&self, k: &str) -> (r: String)
        ensures
            r@ == if self@.contains_key(k@) {
                self@[k@]
            } else {
                Seq::<char>::empty()
            },
    {
        match self.get(k) {
            Some(v) => v.clone(),
            None => String::new(),
        }
    }

    /// Sets the value of `k` to `v` (`HashMap::insert`).
    pub fn insert(&mut self, k: String, v: String)
        ensures
            final(self)@ == old(self)@.insert(k@, v@),
            final(self).key_count() == old(self).key_count() + if old(self)@.contains_key(k@) {
                0int
            } else {
                1int
            },
    {
        proof {
            use_type_invariant(&*self);
        }
        let ghost old_e = self.entries@;
        let found = self.index_of(k.as_str());
        let mut e: Vec<(String, String)> = Vec::new();
        std::mem::swap(&mut e, &mut self.entries);
        match found {
            Some(i) => {
                e.set(i, (k, v));
                proof {
                    let e = e@;
                    assert(distinct_keys(e)) by {
                        assert forall|a: int, b: int|
                            0 <= a < e.len() && 0 <= b < e.len() && a != b implies e[a].0@
                            != e[b].0@ by {
                            if a != i && b != i {
                                assert(old_e[a].0@ != old_e[b].0@);
                            } else if a == i {
                                assert(old_e[i as int].0@ != old_e[b].0@);
                            } else {
                                assert(old_e[a].0@ != old_e[i as int].0@);
                            }
                        }
                    }
                    assert forall|key: Seq<char>| #[trigger] has_key(e, key) == has_key(old_e, key) by {
                        if has_key(old_e, key) {
                            let j = choose|j: int| 0 <= j < old_e.len() && old_e[j].0@ == key;
                            assert(e[j].0@ == key);
                        }
                        if has_key(e, key) {
                            let j = choose|j: int| 0 <= j < e.len() && e[j].0@ == key;
                            assert(old_e[j].0@ == key);
                        }
                    }
                    assert(entries_map(e) =~= entries_map(old_e).insert(k@, v@)) by {
                        assert forall|key: Seq<char>| #[trigger] entries_map(e).contains_key(key)
                            implies entries_map(e)[key] == entries_map(old_e).insert(k@, v@)[key] by {
                            let j = choose|j: int| 0 <= j < e.len() && e[j].0@ == key;
                            lemma_entry_value(e, j);
                            if key != k@ {
                                assert(j != i);
                                lemma_entry_value(old_e, j);
                            }
                        }
                    }
                }
            },
            None => {
                e.push((k, v));
                proof {
                    let e = e@;
                    let n = old_e.len() as int;
                    assert(distinct_keys(e)) by {
                        assert forall|a: int, b: int|
                            0 <= a < e.len() && 0 <= b < e.len() && a != b implies e[a].0@
                            != e[b].0@ by {
                            if a != n && b != n {
                                assert(old_e[a].0@ != old_e[b].0@);
                            } else if a == n {
                                assert(e[b] == old_e[b]);
                            } else {
                                assert(e[a] == old_e[a]);
                            }
                        }
                    }
                    assert(entries_map(e) =~= entries_map(old_e).insert(k@, v@)) by {
                        assert forall|key: Seq<char>| #[trigger] has_key(e, key) == (has_key(
                            old_e,
                            key,
                        ) || key == k@) by {
                            if has_key(old_e, key) {
                                let j = choose|j: int| 0 <= j < old_e.len() && old_e[j].0@ == key;
                                assert(e[j] == old_e[j]);
                            }
                            if key == k@ {
                                assert(e[n].0@ == key);
                            }
                            if has_key(e, key) && key != k@ {
                                let j = choose|j: int| 0 <= j < e.len() && e[j].0@ == key;
                                assert(j != n);
                                assert(old_e[j] == e[j]);
                            }
                        }
                        assert forall|key: Seq<char>| #[trigger] entries_map(e).contains_key(key)
                            implies entries_map(e)[key] == entries_map(old_e).insert(k@, v@)[key] by {
                            let j = choose|j: int| 0 <= j < e.len() && e[j].0@ == key;
                            lemma_entry_value(e, j);
                            if key != k@ {
                                assert(j != n);
                                assert(old_e[j] == e[j]);
                                lemma_entry_value(old_e, j);
                            }
                        }
                    }
                }
            },
        }
        self.entries = e;
    }

    /// Removes every key (`HashMap::clear`).
    pub fn clear(&mut self)
        ensures
            final(self)@ == Map::<Seq<char>, Seq<char>>::empty(),
            final(self).key_count() == 0,
    {
        self.entries = Vec::new();
        assert(self@ =~= Map::<Seq<char>, Seq<char>>::empty());
    }

    /// The entries, each key once.
    pub fn entries(&self) -> (r: &Vec<(String, String)>)
        ensures
            r@ == self.entry_seq(),
            distinct_keys(r@),
            self@ == entries_map(r@),
            r@.len() == self.key_count(),
    {
        proof {
            use_type_invariant(self);
        }
        &self.entries
    }
}

} // verus!
