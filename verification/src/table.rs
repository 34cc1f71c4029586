use vstd::prelude::*;
use crate::order::{
    insert_sorted, lemma_lex_irreflexive, lex_le, lex_less, rows, search_sorted, sorted,
    strictly_sorted,
};

verus! {

/// Values under textual keys, kept in the dictionary order of the keys. No key occurs
/// twice.
pub struct SortedTable<V> {
    keys: Vec<Vec<char>>,
    values: Vec<V>,
}

/// Strictly sorted texts are sorted, and all different.
pub proof fn lemma_strictly_sorted(texts: Seq<Seq<char>>)
    requires
        strictly_sorted(texts),
    ensures
        sorted(texts),
        texts.no_duplicates(),
{
    assert forall|i: int, j: int| 0 <= i < texts.len() && 0 <= j < texts.len() && i != j implies texts[i]
        != texts[j] by {
        if i < j {
            assert(lex_less(texts[i], texts[j]));
            lemma_lex_irreflexive(texts[i]);
        } else {
            assert(lex_less(texts[j], texts[i]));
            lemma_lex_irreflexive(texts[j]);
        }
    }
}

impl<V> SortedTable<V> {
    /// The keys, in dictionary order.
    pub closed spec fn keys(&self) -> Seq<Seq<char>> {
        rows(self.keys@)
    }

    /// The values, each at the position of its key.
    pub closed spec fn values(&self) -> Seq<V> {
        self.values@
    }

    /// Every key has one value, and the keys stand in strict dictionary order.
    pub closed spec fn wf(&self) -> bool {
        &&& self.keys@.len() == self.values@.len()
        &&& strictly_sorted(rows(self.keys@))
    }

    /// The value under `key`, where there is one.
    pub open spec fn lookup(&self, key: Seq<char>) -> Option<V> {
        if self.keys().contains(key) {
            Some(self.values()[self.keys().index_of(key)])
        } else {
            None
        }
    }

    /// In a well-formed table the keys are as many as the values and all different, and
    /// the value at a position is the one found under the key at that position.
    pub proof fn lemma_wf(&self)
        requires
            self.wf(),
        ensures
            self.keys().len() == self.values().len(),
            strictly_sorted(self.keys()),
            self.keys().no_duplicates(),
            forall|i: int|
                0 <= i < self.keys().len() ==> self.lookup(#[trigger] self.keys()[i]) == Some(
                    self.values()[i],
                ),
    {
        lemma_strictly_sorted(self.keys());
        assert forall|i: int| 0 <= i < self.keys().len() implies self.lookup(
            #[trigger] self.keys()[i],
        ) == Some(self.values()[i]) by {
            let key = self.keys()[i];
            assert(self.keys().contains(key));
            let j = self.keys().index_of(key);
            assert(self.keys()[j] == key);
        }
    }

    /// The table without entries.
    pub fn new() -> (table: SortedTable<V>)
        ensures
            table.wf(),
            table.keys() == Seq::<Seq<char>>::empty(),
            table.values() == Seq::<V>::empty(),
    {
        let table = SortedTable { keys: Vec::new(), values: Vec::new() };
        assert(rows(table.keys@) =~= Seq::<Seq<char>>::empty());
        table
    }

    pub fn len(&self) -> (len: usize)
        requires
            self.wf(),
        ensures
            len == self.keys().len(),
            len == self.values().len(),
    {
        self.keys.len()
    }

    /// The position of `key`, where the table holds it.
    pub fn position(&self, key: &Vec<char>) -> (found: Option<usize>)
        requires
            self.wf(),
        ensures
            match found {
                Some(i) => i < self.keys().len() && i < self.values().len() && self.keys()[i as int] == key@ && self.lookup(
                    key@,
                ) == Some(self.values()[i as int]),
                None => !self.keys().contains(key@) && self.lookup(key@) is None,
            },
    {
        proof {
            self.lemma_wf();
        }
        match search_sorted(&self.keys, key) {
            Some(i) => {
                assert(rows(self.keys@)[i as int] == key@);
                Some(i)
            },
            None => None,
        }
    }

    /// The key at position `i`.
    pub fn key_at(&self, i: usize) -> (key: &Vec<char>)
        requires
            self.wf(),
            i < self.keys().len(),
        ensures
            key@ == self.keys()[i as int],
    {
        &self.keys[i]
    }

    /// The value at position `i`.
    pub fn value_at(&self, i: usize) -> (value: &V)
        requires
            self.wf(),
            i < self.values().len(),
        ensures
            *value == self.values()[i as int],
    {
        &self.values[i]
    }

    /// Puts `value` under `key`, in place of what was there.
    pub fn put(&mut self, key: Vec<char>, value: V)
        requires
            old(self).wf(),
        ensures
            final(self).wf(),
            final(self).lookup(key@) == Some(value),
            forall|other: Seq<char>|
                other != key@ ==> #[trigger] final(self).lookup(other) == old(self).lookup(other),
            forall|other: Seq<char>|
                #[trigger] final(self).keys().contains(other) <==> (other == key@ || old(
                    self,
                ).keys().contains(other)),
            final(self).keys().len() == if old(self).keys().contains(key@) {
                old(self).keys().len()
            } else {
                old(self).keys().len() + 1
            },
    {
        let ghost keys_before = rows(self.keys@);
        let ghost values_before = self.values@;
        proof {
            old(self).lemma_wf();
        }
        match search_sorted(&self.keys, &key) {
            Some(i) => {
                assert(keys_before[i as int] == key@);
                self.values.set(i, value);
                proof {
                    self.lemma_wf();
                    assert forall|other: Seq<char>| other != key@ implies #[trigger] self.lookup(
                        other,
                    ) == old(self).lookup(other) by {
                        if keys_before.contains(other) {
                            let j = keys_before.index_of(other);
                            assert(keys_before[j] == other);
                            assert(j != i);
                        }
                    }
                }
            },
            None => {
                let ghost key_view = key@;
                let at = insert_sorted(&mut self.keys, key);
                self.values.insert(at, value);
                proof {
                    let keys_after = rows(self.keys@);
                    let values_after = self.values@;
                    assert(keys_after == keys_before.insert(at as int, key_view));
                    assert(values_after == values_before.insert(at as int, value));
                    assert forall|i: int, j: int| 0 <= i < j < keys_after.len() implies lex_less(
                        #[trigger] keys_after[i],
                        #[trigger] keys_after[j],
                    ) by {
                        if j < at {
                            assert(keys_after[i] == keys_before[i] && keys_after[j]
                                == keys_before[j]);
                        } else if j == at {
                            assert(keys_after[i] == keys_before[i]);
                            assert(lex_le(keys_before[i], key_view));
                            assert(keys_before.contains(keys_before[i]));
                        } else if i < at {
                            assert(keys_after[i] == keys_before[i] && keys_after[j]
                                == keys_before[j - 1]);
                        } else if i == at {
                            assert(keys_after[j] == keys_before[j - 1]);
                        } else {
                            assert(keys_after[i] == keys_before[i - 1] && keys_after[j]
                                == keys_before[j - 1]);
                        }
                    }
                    self.lemma_wf();
                    assert(keys_after[at as int] == key_view);
                    assert forall|other: Seq<char>| #[trigger]
                        keys_after.contains(other) <==> (other == key_view || keys_before.contains(
                            other,
                        )) by {
                        if keys_after.contains(other) {
                            let k = choose|k: int| 0 <= k < keys_after.len() && keys_after[k] == other;
                            if k < at {
                                assert(keys_before[k] == other);
                            } else if k > at {
                                assert(keys_before[k - 1] == other);
                            }
                        }
                        if keys_before.contains(other) {
                            let k = choose|k: int| 0 <= k < keys_before.len() && keys_before[k] == other;
                            if k < at {
                                assert(keys_after[k] == other);
                            } else {
                                assert(keys_after[k + 1] == other);
                            }
                        }
                    }
                    assert forall|other: Seq<char>| other != key_view implies #[trigger] self.lookup(
                        other,
                    ) == old(self).lookup(other) by {
                        if keys_before.contains(other) {
                            let k = keys_before.index_of(other);
                            assert(keys_before[k] == other);
                            if k < at {
                                assert(keys_after[k] == other);
                                assert(self.lookup(keys_after[k]) == Some(values_after[k]));
                            } else {
                                assert(keys_after[k + 1] == other);
                                assert(self.lookup(keys_after[k + 1]) == Some(values_after[k + 1]));
                            }
                        }
                    }
                    assert(self.lookup(keys_after[at as int]) == Some(values_after[at as int]));
                }
            },
        }
    }

    /// Puts `value` at position `i` and hands back what was there.
    pub fn swap_at(&mut self, i: usize, value: V) -> (previous: V)
        requires
            old(self).wf(),
            i < old(self).values().len(),
        ensures
            final(self).wf(),
            previous == old(self).values()[i as int],
            final(self).keys() == old(self).keys(),
            final(self).values() == old(self).values().update(i as int, value),
    {
        let ghost before = self.values@;
        let previous = self.values.remove(i);
        self.values.insert(i, value);
        assert(self.values@ =~= before.update(i as int, value));
        previous
    }

    /// The values, in the order of their keys.
    pub fn into_values(self) -> (values: Vec<V>)
        ensures
            values@ == self.values(),
    {
        self.values
    }
}

} // verus!
