//! A table of values by string key, in which no key occurs twice.

use crate::text::same_text;
use vstd::prelude::*;

verus! {

/// Values by string key. A table is the finite map `self@`; `self.keys()` is
/// the order in which its entries are walked.
#[derive(Debug)]
pub struct Table<V> {
    entries: Vec<(String, V)>,
}

impl<V> View for Table<V> {
    type V = Map<Seq<char>, V>;

    closed spec fn view(&self) -> Map<Seq<char>, V> {
        Map::new(
            |k: Seq<char>| self.keys().contains(k),
            |k: Seq<char>| self.entries@[self.keys().index_of(k)].1,
        )
    }
}

impl<V> Table<V> {
    #[verifier::type_invariant]
    spec fn distinct(self) -> bool {
        self.keys().no_duplicates()
    }

    /// The keys, in the order in which the entries are walked.
    pub closed spec fn keys(self) -> Seq<Seq<char>> {
        self.entries@.map_values(|e: (String, V)| e.0@)
    }

    /// A table without entries.
    pub fn new() -> (r: Self)
        ensures
            r@ == Map::<Seq<char>, V>::empty(),
            r.keys() == Seq::<Seq<char>>::empty(),
    {
        let r = Table { entries: Vec::new() };
        assert(r@ =~= Map::empty());
        assert(r.keys() =~= Seq::empty());
        r
    }

    proof fn lemma_entry(self, i: int)
        requires
            self.distinct(),
            0 <= i < self.entries@.len(),
        ensures
            self.keys().len() == self.entries@.len(),
            self.keys()[i] == self.entries@[i].0@,
            self@.dom().contains(self.entries@[i].0@),
            self@[self.entries@[i].0@] == self.entries@[i].1,
    {
        let k = self.entries@[i].0@;
        assert(self.keys()[i] == k);
        assert(self.keys().contains(k));
        let j = self.keys().index_of(k);
        assert(self.keys()[j] == k);
        assert(i == j);
    }

    /// The number of entries. The keys that are walked are the map's, each
    /// once.
    pub fn len(&self) -> (n: usize)
        ensures
            n == self.keys().len(),
            n == self@.len(),
            self@.dom().finite(),
            self.keys().no_duplicates(),
            forall|k: Seq<char>| self@.dom().contains(k) <==> #[trigger] self.keys().contains(k),
    {
        proof {
            use_type_invariant(self);
            assert(self@.dom() =~= self.keys().to_set());
            self.keys().unique_seq_to_set();
        }
        self.entries.len()
    }

    /// The entry that is walked at step `i`.
    pub fn entry(&self, i: usize) -> (r: (&String, &V))
        requires
            i < self.keys().len(),
        ensures
            r.0@ == self.keys()[i as int],
            self@.dom().contains(r.0@),
            *r.1 == self@[r.0@],
    {
        proof {
            use_type_invariant(self);
            self.lemma_entry(i as int);
        }
        let e = &self.entries[i];
        (&e.0, &e.1)
    }

    fn position(&self, key: &str) -> (r: Option<usize>)
        ensures
            match r {
                Some(i) => i < self.entries@.len() && self.entries@[i as int].0@ == key@,
                None => !self.keys().contains(key@),
            },
    {
        let mut i: usize = 0;
        while i < self.entries.len()
            invariant
                i <= self.entries@.len(),
                forall|j: int| 0 <= j < i ==> (#[trigger] self.entries@[j]).0@ != key@,
            decreases self.entries@.len() - i,
        {
            if same_text(self.entries[i].0.as_str(), key) {
                return Some(i);
            }
            i += 1;
        }
        None
    }

    proof fn lemma_removed(before: Self, after: Self, i: int)
        requires
            before.distinct(),
            0 <= i < before.entries@.len(),
            after.entries@ == before.entries@.remove(i),
        ensures
            after.distinct(),
            after@ == before@.remove(before.entries@[i].0@),
    {
        let gone = before.entries@[i].0@;
        assert(before.keys()[i] == gone);
        assert(after.keys() =~= before.keys().remove(i));
        assert forall|k: Seq<char>| after.keys().contains(k) <==> (before.keys().contains(k) && k
            != gone) by {
            if after.keys().contains(k) {
                let j = after.keys().index_of(k);
                let j0 = if j < i { j } else { j + 1 };
                assert(before.keys()[j0] == k);
            }
            if before.keys().contains(k) && k != gone {
                let j0 = before.keys().index_of(k);
                let j = if j0 < i { j0 } else { j0 - 1 };
                assert(after.keys()[j] == k);
            }
        }
        assert forall|k: Seq<char>| after.keys().contains(k) implies after@[k] == before@[k] by {
            let j = after.keys().index_of(k);
            let j0 = if j < i { j } else { j + 1 };
            before.lemma_entry(j0);
            after.lemma_entry(j);
        }
        assert(after@ =~= before@.remove(gone));
    }

    proof fn lemma_pushed(before: Self, after: Self, key: String, value: V)
        requires
            before.distinct(),
            !before@.dom().contains(key@),
            after.entries@ == before.entries@.push((key, value)),
        ensures
            after.distinct(),
            after@ == before@.insert(key@, value),
    {
        let n = before.entries@.len() as int;
        assert(after.keys() =~= before.keys().push(key@));
        assert(!before.keys().contains(key@));
        assert forall|k: Seq<char>| after.keys().contains(k) <==> (before.keys().contains(k) || k
            == key@) by {
            if before.keys().contains(k) {
                let j = before.keys().index_of(k);
                assert(after.keys()[j] == k);
            }
            assert(after.keys()[n] == key@);
        }
        assert forall|k: Seq<char>| after.keys().contains(k) implies after@[k] == before@.insert(
            key@,
            value,
        )[k] by {
            let j = after.keys().index_of(k);
            after.lemma_entry(j);
            if j < n {
                before.lemma_entry(j);
                assert(before.keys().contains(k));
            }
        }
        assert(after@ =~= before@.insert(key@, value));
    }

    /// Takes the entry at `key` out of the table.
    pub fn remove(&mut self, key: &str) -> (r: Option<V>)
        ensures
            final(self)@ == old(self)@.remove(key@),
            match r {
                Some(v) => old(self)@.dom().contains(key@) && v == old(self)@[key@],
                None => !old(self)@.dom().contains(key@),
            },
    {
        proof {
            use_type_invariant(&*self);
        }
        let ghost before = *self;
        match self.position(key) {
            Some(i) => {
                let mut entries: Vec<(String, V)> = Vec::new();
                std::mem::swap(&mut entries, &mut self.entries);
                let (_, value) = entries.remove(i);
                proof {
                    before.lemma_entry(i as int);
                    Self::lemma_removed(before, Table { entries }, i as int);
                }
                self.entries = entries;
                Some(value)
            },
            None => {
                assert(before@.remove(key@) =~= before@);
                None
            },
        }
    }

    /// Puts `value` at `key`, in place of what was there.
    pub fn insert(&mut self, key: String, value: V)
        ensures
            final(self)@ == old(self)@.insert(key@, value),
    {
        let ghost first = *self;
        self.remove(key.as_str());
        proof {
            use_type_invariant(&*self);
        }
        let ghost before = *self;
        let ghost k = key;
        let mut entries: Vec<(String, V)> = Vec::new();
        std::mem::swap(&mut entries, &mut self.entries);
        entries.push((key, value));
        proof {
            Self::lemma_pushed(before, Table { entries }, k, value);
        }
        self.entries = entries;
        assert(first@.remove(key@).insert(key@, value) =~= first@.insert(key@, value));
    }

    proof fn lemma_copied(before: Self, after: Self)
        requires
            before.distinct(),
            after.entries@.len() == before.entries@.len(),
            forall|i: int|
                0 <= i < before.entries@.len() ==> (#[trigger] after.entries@[i]).0@
                    == before.entries@[i].0@,
        ensures
            after.distinct(),
            after.keys() == before.keys(),
            after@.dom() == before@.dom(),
    {
        assert(after.keys() =~= before.keys());
        assert(after@.dom() =~= before@.dom());
    }

    /// Takes every value out of the table, in the order in which the entries
    /// are walked.
    pub fn drain(&mut self) -> (r: Vec<V>)
        ensures
            final(self)@ == Map::<Seq<char>, V>::empty(),
            old(self)@.dom().finite(),
            r@.len() == old(self)@.len(),
            old(self).keys().len() == r@.len(),
            old(self).keys().no_duplicates(),
            forall|k: Seq<char>|
                old(self)@.dom().contains(k) <==> #[trigger] old(self).keys().contains(k),
            forall|i: int|
                0 <= i < r@.len() ==> #[trigger] r@[i] == old(self)@[old(self).keys()[i]],
    {
        proof {
            use_type_invariant(&*self);
            assert(self@.dom() =~= self.keys().to_set());
            self.keys().unique_seq_to_set();
        }
        let ghost before = *self;
        let mut entries: Vec<(String, V)> = Vec::new();
        std::mem::swap(&mut entries, &mut self.entries);
        assert(self@ =~= Map::empty());
        let mut values: Vec<V> = Vec::new();
        let ghost all = entries@;
        while entries.len() > 0
            invariant
                before.distinct(),
                all == before.entries@,
                values@.len() + entries@.len() == all.len(),
                entries@ == all.skip(values@.len() as int),
                forall|i: int| 0 <= i < values@.len() ==> #[trigger] values@[i] == all[i].1,
            decreases entries@.len(),
        {
            let (_, value) = entries.remove(0);
            values.push(value);
        }
        proof {
            assert forall|i: int| 0 <= i < values@.len() implies #[trigger] values@[i]
                == before@[before.keys()[i]] by {
                before.lemma_entry(i);
            }
        }
        values
    }
}

impl<V: Clone> Clone for Table<V> {
    /// A table with the same keys, walked in the same order, each with a clone
    /// of its value.
    fn clone(&self) -> (r: Self)
        ensures
            r.keys() == self.keys(),
            r@.dom() == self@.dom(),
            forall|k: Seq<char>|
                #![trigger r@[k]]
                self@.dom().contains(k) ==> cloned(self@[k], r@[k]),
    {
        proof {
            use_type_invariant(self);
        }
        let mut entries: Vec<(String, V)> = Vec::new();
        let mut i: usize = 0;
        while i < self.entries.len()
            invariant
                i <= self.entries@.len(),
                entries@.len() == i,
                forall|j: int|
                    0 <= j < i ==> (#[trigger] entries@[j]).0@ == self.entries@[j].0@ && cloned(
                        self.entries@[j].1,
                        entries@[j].1,
                    ),
            decreases self.entries@.len() - i,
        {
            let e = &self.entries[i];
            entries.push((e.0.clone(), e.1.clone()));
            i += 1;
        }
        proof {
            Self::lemma_copied(*self, Table { entries });
        }
        let r = Table { entries };
        proof {
            assert forall|k: Seq<char>|
                #![trigger r@[k]]
                self@.dom().contains(k) implies cloned(self@[k], r@[k]) by {
                let j = self.keys().index_of(k);
                assert(self.keys()[j] == k);
                self.lemma_entry(j);
                r.lemma_entry(j);
            }
        }
        r
    }
}

} // verus!
