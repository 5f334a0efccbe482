//! A small map from texts to values.

use crate::text::same_text;
use vstd::prelude::*;
use vstd::seq_lib::*;

verus! {

/// Values by their names; no name occurs twice.
#[derive(Debug, Clone)]
pub struct Table<V> {
    entries: Vec<(String, V)>,
}

impl<V> Table<V> {
    spec fn keys_seq(self) -> Seq<Seq<char>> {
        self.entries@.map_values(|e: (String, V)| e.0@)
    }

    /// Whether no name occurs twice.
    pub closed spec fn wf(self) -> bool {
        self.keys_seq().no_duplicates()
    }

    spec fn index_of(self, key: Seq<char>) -> int {
        self.keys_seq().index_of(key)
    }
}

impl<V> View for Table<V> {
    type V = Map<Seq<char>, V>;

    closed spec fn view(&self) -> Map<Seq<char>, V> {
        Map::new(
            |key: Seq<char>| self.keys_seq().contains(key),
            |key: Seq<char>| self.entries@[self.index_of(key)].1,
        )
    }
}

impl<V> Table<V> {
    proof fn entry_in_view(self, i: int)
        requires
            self.wf(),
            0 <= i < self.entries@.len(),
        ensures
            self@.dom().contains(self.entries@[i].0@),
            self@[self.entries@[i].0@] == self.entries@[i].1,
    {
        let keys = self.keys_seq();
        let key = self.entries@[i].0@;
        assert(keys[i] == key);
        assert(keys.contains(key));
        let j = self.index_of(key);
        assert(keys[j] == key && 0 <= j < keys.len());
    }

    proof fn view_has_entry(self, key: Seq<char>) -> (i: int)
        requires
            self.wf(),
            self@.dom().contains(key),
        ensures
            0 <= i < self.entries@.len(),
            self.entries@[i].0@ == key,
            self@[key] == self.entries@[i].1,
    {
        let keys = self.keys_seq();
        let i = self.index_of(key);
        assert(keys[i] == key && 0 <= i < keys.len());
        i
    }

    /// A table has finitely many names.
    pub proof fn names_are_finite(self)
        requires
            self.wf(),
        ensures
            self@.dom().finite(),
    {
        self.view_is_finite();
    }

    proof fn view_is_finite(self)
        requires
            self.wf(),
        ensures
            self@.dom().finite(),
            self@.dom().len() == self.entries@.len(),
    {
        let keys = self.keys_seq();
        keys.unique_seq_to_set();
        assert(self@.dom() =~= keys.to_set());
    }

    /// The empty table.
    pub fn new() -> (r: Self)
        ensures
            r.wf(),
            r@ == Map::<Seq<char>, V>::empty(),
    {
        let r = Table { entries: Vec::new() };
        assert(r@.dom() =~= Set::empty());
        assert(r@ =~= Map::empty());
        r
    }

    /// How many names there are.
    pub fn len(&self) -> (r: usize)
        requires
            self.wf(),
        ensures
            self@.dom().finite(),
            r == self@.dom().len(),
    {
        proof {
            self.view_is_finite();
        }
        self.entries.len()
    }

    fn position(&self, key: &str) -> (r: Option<usize>)
        requires
            self.wf(),
        ensures
            match r {
                Some(i) => i < self.entries@.len() && self.entries@[i as int].0@ == key@,
                None => !self@.dom().contains(key@),
            },
    {
        let mut i: usize = 0;
        while i < self.entries.len()
            invariant
                self.wf(),
                i <= self.entries@.len(),
                forall|j: int| 0 <= j < i ==> (#[trigger] self.entries@[j]).0@ != key@,
            decreases self.entries@.len() - i,
        {
            if same_text(self.entries[i].0.as_str(), key) {
                return Some(i);
            }
            i += 1;
        }
        proof {
            if self@.dom().contains(key@) {
                let j = self.view_has_entry(key@);
            }
        }
        None
    }

    /// Whether a name is there.
    pub fn contains_key(&self, key: &str) -> (r: bool)
        requires
            self.wf(),
        ensures
            r == self@.dom().contains(key@),
    {
        match self.position(key) {
            Some(i) => {
                proof {
                    self.entry_in_view(i as int);
                }
                true
            },
            None => false,
        }
    }

    /// The value of a name.
    pub fn get(&self, key: &str) -> (r: Option<&V>)
        requires
            self.wf(),
        ensures
            match r {
                Some(v) => self@.dom().contains(key@) && *v == self@[key@],
                None => !self@.dom().contains(key@),
            },
    {
        match self.position(key) {
            Some(i) => {
                proof {
                    self.entry_in_view(i as int);
                }
                Some(&self.entries[i].1)
            },
            None => None,
        }
    }

    /// Gives a name a value, in place of the one that it had.
    pub fn insert(&mut self, key: &str, value: V)
        requires
            old(self).wf(),
        ensures
            final(self).wf(),
            final(self)@ == old(self)@.insert(key@, value),
    {
        let ghost before = *self;
        let ghost mut at: int = 0;
        match self.position(key) {
            Some(i) => {
                self.entries.set(i, (key.to_string(), value));
                assert(self.keys_seq() =~= before.keys_seq());
                proof {
                    at = i as int;
                }
            },
            None => {
                self.entries.push((key.to_string(), value));
                proof {
                    assert(self.keys_seq() =~= before.keys_seq().push(key@));
                    assert(!before.keys_seq().contains(key@));
                    at = before.entries@.len() as int;
                }
            },
        }
        proof {
            let target = before@.insert(key@, value);
            assert(self.wf());
            assert forall|k: Seq<char>| self@.dom().contains(k) == target.dom().contains(k) by {
                if self@.dom().contains(k) {
                    let j = self.view_has_entry(k);
                    if k != key@ {
                        assert(j < before.entries@.len());
                        before.entry_in_view(j);
                    }
                }
                if target.dom().contains(k) {
                    if k == key@ {
                        self.entry_in_view(at);
                    } else {
                        let j = before.view_has_entry(k);
                        assert(self.entries@[j] == before.entries@[j]);
                        self.entry_in_view(j);
                    }
                }
            }
            assert forall|k: Seq<char>| self@.dom().contains(k) implies self@[k] == target[k] by {
                let j = self.view_has_entry(k);
                if k != key@ {
                    before.entry_in_view(j);
                } else {
                    self.entry_in_view(at);
                }
            }
            assert(self@ =~= target);
        }
    }

    /// Takes a name out and hands out its value.
    pub fn remove(&mut self, key: &str) -> (r: Option<V>)
        requires
            old(self).wf(),
        ensures
            final(self).wf(),
            final(self)@ == old(self)@.remove(key@),
            match r {
                Some(v) => old(self)@.dom().contains(key@) && v == old(self)@[key@],
                None => !old(self)@.dom().contains(key@),
            },
    {
        let ghost before = *self;
        match self.position(key) {
            Some(i) => {
                let (_, value) = self.entries.remove(i);
                proof {
                    before.entry_in_view(i as int);
                    assert(self.keys_seq() =~= before.keys_seq().remove(i as int));
                    let keys = before.keys_seq();
                    assert forall|a: int, b: int|
                        0 <= a < b < self.keys_seq().len() implies self.keys_seq()[a]
                        != self.keys_seq()[b] by {
                        let a2 = if a < i {
                            a
                        } else {
                            a + 1
                        };
                        let b2 = if b < i {
                            b
                        } else {
                            b + 1
                        };
                        assert(self.keys_seq()[a] == keys[a2]);
                        assert(self.keys_seq()[b] == keys[b2]);
                    }
                    assert(self.wf());
                    let target = before@.remove(key@);
                    assert forall|k: Seq<char>| self@.dom().contains(k) == target.dom().contains(
                        k,
                    ) by {
                        if self@.dom().contains(k) {
                            let j = self.view_has_entry(k);
                            let j2 = if j < i {
                                j
                            } else {
                                j + 1
                            };
                            assert(self.entries@[j] == before.entries@[j2]);
                            before.entry_in_view(j2);
                            assert(keys[j2] == k && keys[i as int] == key@);
                        }
                        if target.dom().contains(k) {
                            let j2 = before.view_has_entry(k);
                            let j = if j2 < i {
                                j2
                            } else {
                                j2 - 1
                            };
                            assert(self.entries@[j] == before.entries@[j2]);
                            self.entry_in_view(j);
                        }
                    }
                    assert forall|k: Seq<char>| self@.dom().contains(k) implies self@[k]
                        == target[k] by {
                        let j = self.view_has_entry(k);
                        let j2 = if j < i {
                            j
                        } else {
                            j + 1
                        };
                        assert(self.entries@[j] == before.entries@[j2]);
                        before.entry_in_view(j2);
                        assert(target.dom().contains(k));
                    }
                    assert(self@ =~= target);
                }
                Some(value)
            },
            None => {
                assert(before@.remove(key@) =~= before@);
                None
            },
        }
    }

    /// The names, each once.
    pub fn keys(&self) -> (r: Vec<String>)
        requires
            self.wf(),
        ensures
            crate::text::views(r@).no_duplicates(),
            forall|key: Seq<char>|
                #[trigger] self@.dom().contains(key) <==> crate::text::views(r@).contains(key),
    {
        let mut keys: Vec<String> = Vec::new();
        let mut i: usize = 0;
        while i < self.entries.len()
            invariant
                i <= self.entries@.len(),
                crate::text::views(keys@) == self.keys_seq().take(i as int),
            decreases self.entries@.len() - i,
        {
            let ghost before = keys@;
            keys.push(self.entries[i].0.clone());
            assert(crate::text::views(keys@) =~= crate::text::views(before).push(
                self.keys_seq()[i as int],
            ));
            assert(self.keys_seq().take(i + 1) =~= self.keys_seq().take(i as int).push(
                self.keys_seq()[i as int],
            ));
            i += 1;
        }
        assert(self.keys_seq().take(self.entries@.len() as int) =~= self.keys_seq());
        keys
    }
}

} // verus!
