//! A map from texts to values, as a list without two entries for one text.

use vstd::prelude::*;

use crate::text::same_text;

verus! {

/// A map from texts to values.
pub struct TextMap<V> {
    entries: Vec<(String, V)>,
}

spec fn has_entry<V>(entries: Seq<(String, V)>, key: Seq<char>) -> bool {
    exists|i: int| 0 <= i < entries.len() && (#[trigger] entries[i]).0@ == key
}

spec fn entry_index<V>(entries: Seq<(String, V)>, key: Seq<char>) -> int {
    choose|i: int| 0 <= i < entries.len() && (#[trigger] entries[i]).0@ == key
}

spec fn distinct<V>(entries: Seq<(String, V)>) -> bool {
    forall|i: int, j: int|
        0 <= i < j < entries.len() ==> (#[trigger] entries[i]).0@ != (#[trigger] entries[j]).0@
}

impl<V> View for TextMap<V> {
    type V = Map<Seq<char>, V>;

    closed spec fn view(&self) -> Map<Seq<char>, V> {
        Map::new(
            |key: Seq<char>| has_entry(self.entries@, key),
            |key: Seq<char>| self.entries@[entry_index(self.entries@, key)].1,
        )
    }
}

proof fn lemma_entry<V>(entries: Seq<(String, V)>, i: int)
    requires
        distinct(entries),
        0 <= i < entries.len(),
    ensures
        has_entry(entries, entries[i].0@),
        entry_index(entries, entries[i].0@) == i,
{
    let j = entry_index(entries, entries[i].0@);
    assert(0 <= j < entries.len() && entries[j].0@ == entries[i].0@);
}

impl<V> TextMap<V> {
    /// No text has two entries.
    pub closed spec fn wf(&self) -> bool {
        distinct(self.entries@)
    }

    /// A map without entries.
    pub fn new() -> (r: TextMap<V>)
        ensures
            r.wf(),
            r@ == Map::<Seq<char>, V>::empty(),
    {
        let r = TextMap { entries: Vec::new() };
        assert(r@ =~= Map::<Seq<char>, V>::empty());
        r
    }

    fn position(&self, key: &str) -> (r: Option<usize>)
        requires
            self.wf(),
        ensures
            match r {
                Some(i) => i < self.entries@.len() && self.entries@[i as int].0@ == key@,
                None => !has_entry(self.entries@, key@),
            },
    {
        let mut i: usize = 0;
        while i < self.entries.len()
            invariant
                i <= self.entries@.len(),
                forall|k: int| 0 <= k < i ==> (#[trigger] self.entries@[k]).0@ != key@,
            decreases self.entries@.len() - i,
        {
            if same_text(self.entries[i].0.as_str(), key) {
                return Some(i);
            }
            i = i + 1;
        }
        None
    }

    /// The value for a text.
    pub fn get(&self, key: &str) -> (r: Option<&V>)
        requires
            self.wf(),
        ensures
            match r {
                Some(v) => self@.contains_key(key@) && self@[key@] == *v,
                None => !self@.contains_key(key@),
            },
    {
        match self.position(key) {
            Some(i) => {
                proof {
                    lemma_entry(self.entries@, i as int);
                }
                Some(&self.entries[i].1)
            },
            None => None,
        }
    }

    /// Takes the entry for a text out.
    pub fn remove(&mut self, key: &str) -> (r: Option<V>)
        requires
            old(self).wf(),
        ensures
            final(self).wf(),
            final(self)@ == old(self)@.remove(key@),
            match r {
                Some(v) => old(self)@.contains_key(key@) && v == old(self)@[key@],
                None => !old(self)@.contains_key(key@),
            },
    {
        match self.position(key) {
            Some(i) => {
                let (_, value) = self.entries.remove(i);
                proof {
                    let before = old(self).entries@;
                    let after = self.entries@;
                    assert(after =~= before.remove(i as int));
                    lemma_entry(before, i as int);
                    assert forall|j: int, k: int| 0 <= j < k < after.len() implies (
                    #[trigger] after[j]).0@ != (#[trigger] after[k]).0@ by {
                        let j2 = if j < i {
                            j
                        } else {
                            j + 1
                        };
                        let k2 = if k < i {
                            k
                        } else {
                            k + 1
                        };
                        assert(after[j] == before[j2] && after[k] == before[k2]);
                    }
                    let want = old(self)@.remove(key@);
                    assert forall|t: Seq<char>| self@.contains_key(t) implies want.contains_key(t)
                        && want[t] == self@[t] by {
                        let j = entry_index(after, t);
                        assert(0 <= j < after.len() && after[j].0@ == t);
                        let j2 = if j < i {
                            j
                        } else {
                            j + 1
                        };
                        assert(after[j] == before[j2]);
                        lemma_entry(before, j2);
                    }
                    assert forall|t: Seq<char>| want.contains_key(t) implies self@.contains_key(
                        t,
                    ) by {
                        let j = entry_index(before, t);
                        assert(0 <= j < before.len() && before[j].0@ == t);
                        let j2 = if j < i {
                            j
                        } else {
                            j - 1
                        };
                        assert(after[j2] == before[j]);
                    }
                    assert(self@ =~= want);
                }
                Some(value)
            },
            None => {
                assert(self@ =~= old(self)@.remove(key@));
                None
            },
        }
    }

    /// Gives a text a value; one that it had is replaced.
    pub fn insert(&mut self, key: String, value: V)
        requires
            old(self).wf(),
        ensures
            final(self).wf(),
            final(self)@ == old(self)@.insert(key@, value),
    {
        let _ = self.remove(key.as_str());
        let ghost middle = self.entries@;
        let ghost m = self@;
        let ghost k = key@;
        assert(!has_entry(middle, k)) by {
            assert(!m.contains_key(k));
        }
        self.entries.push((key, value));
        proof {
            let after = self.entries@;
            let want = old(self)@.insert(k, value);
            assert forall|i: int, j: int| 0 <= i < j < after.len() implies (
            #[trigger] after[i]).0@ != (#[trigger] after[j]).0@ by {
                assert(after[i] == middle[i]);
                if j < middle.len() {
                    assert(after[j] == middle[j]);
                }
            }
            lemma_entry(after, after.len() - 1);
            assert forall|t: Seq<char>| #[trigger]
                self@.dom().contains(t) implies want.dom().contains(t) && want[t] == self@[t] by {
                let i = entry_index(after, t);
                assert(0 <= i < after.len() && after[i].0@ == t);
                if i < middle.len() {
                    assert(after[i] == middle[i]);
                    lemma_entry(middle, i);
                    assert(m.contains_key(t) && m[t] == middle[i].1);
                    assert(m =~= old(self)@.remove(k));
                    assert(t != k);
                } else {
                    assert(t == k);
                }
            }
            assert forall|t: Seq<char>| #[trigger]
                want.dom().contains(t) implies self@.dom().contains(t) by {
                if t != k {
                    assert(m.contains_key(t));
                    let i = entry_index(middle, t);
                    assert(0 <= i < middle.len() && middle[i].0@ == t);
                    assert(after[i] == middle[i]);
                }
            }
            assert(self@ =~= want);
        }
    }
}

} // verus!
