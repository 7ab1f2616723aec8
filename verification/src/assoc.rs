//! A table from keys to values, held as two arrays side by side.

use vstd::prelude::*;
use crate::account::Key;

verus! {

/// The keys of a list of keys with their values, by their views and in the
/// order of the list.
pub open spec fn pair_keys<K: Key, V>(list: Seq<(K, V)>) -> Seq<K::V> {
    Seq::new(list.len(), |i: int| list[i].0@)
}

/// Whether no key stands twice in a list of keys with their values.
pub open spec fn distinct<K: Key, V>(list: Seq<(K, V)>) -> bool {
    pair_keys(list).no_duplicates()
}

/// The map that a list of keys with their values stands for. Where a key
/// stands twice, its later value counts.
pub open spec fn pairs_map<K: Key, V>(list: Seq<(K, V)>) -> Map<K::V, V>
    decreases list.len(),
{
    if list.len() == 0 {
        Map::empty()
    } else {
        pairs_map(list.drop_last()).insert(list.last().0@, list.last().1)
    }
}

/// The map of a list maps the keys of the list and no others, and where no
/// key stands twice, each key to the value beside it, and as many keys as
/// the list is long.
pub proof fn lemma_pairs_map<K: Key, V>(list: Seq<(K, V)>)
    ensures
        pairs_map(list).dom() =~= pair_keys(list).to_set(),
        pairs_map(list).dom().finite(),
        distinct(list) ==> pairs_map(list).len() == list.len(),
        distinct(list) ==> forall|i: int|
            0 <= i < list.len() ==> pairs_map(list).contains_key(#[trigger] list[i].0@)
                && pairs_map(list)[list[i].0@] == list[i].1,
    decreases list.len(),
{
    let keys = pair_keys(list);
    if list.len() > 0 {
        let shorter = list.drop_last();
        lemma_pairs_map(shorter);
        assert(pair_keys(shorter) =~= keys.drop_last());
        assert forall|k: K::V| pairs_map(list).dom().contains(k) <==> keys.to_set().contains(
            k,
        ) by {
            if keys.contains(k) {
                let i = choose|i: int| 0 <= i < keys.len() && keys[i] == k;
                if i < shorter.len() {
                    assert(pair_keys(shorter)[i] == k);
                    assert(pair_keys(shorter).contains(k));
                }
            }
            if pair_keys(shorter).contains(k) {
                let i = choose|i: int| 0 <= i < shorter.len() && pair_keys(shorter)[i] == k;
                assert(keys[i] == k);
            }
            assert(keys[keys.len() - 1] == list.last().0@);
        }
        if distinct(list) {
            assert(distinct(shorter)) by {
                assert forall|a: int, b: int|
                    0 <= a < shorter.len() && 0 <= b < shorter.len() && a != b implies pair_keys(
                    shorter,
                )[a] != pair_keys(shorter)[b] by {
                    assert(keys[a] != keys[b]);
                }
            }
            assert(!pairs_map(shorter).dom().contains(list.last().0@)) by {
                if pair_keys(shorter).contains(list.last().0@) {
                    let i = choose|i: int|
                        0 <= i < shorter.len() && pair_keys(shorter)[i] == list.last().0@;
                    assert(keys[i] == keys[keys.len() - 1]);
                }
            }
            assert forall|i: int| 0 <= i < list.len() implies pairs_map(list).contains_key(
                #[trigger] list[i].0@,
            ) && pairs_map(list)[list[i].0@] == list[i].1 by {
                if i < shorter.len() {
                    assert(shorter[i] == list[i]);
                    assert(pairs_map(shorter).contains_key(shorter[i].0@));
                    assert(keys[i] != keys[keys.len() - 1]);
                }
            }
        }
    } else {
        assert(keys.to_set() =~= Set::<K::V>::empty());
    }
}

/// A table that holds at most one value for a key. Its view is the map
/// from the views of its keys to their values.
pub struct AssocMap<K: Key, V> {
    keys: Vec<K>,
    vals: Vec<V>,
}

impl<K: Key, V> View for AssocMap<K, V> {
    type V = Map<K::V, V>;

    closed spec fn view(&self) -> Map<K::V, V> {
        Map::new(|k: K::V| self.has(k), |k: K::V| self.vals@[self.slot(k)])
    }
}

impl<K: Key, V> AssocMap<K, V> {
    /// The keys of the table in the order in which it holds them.
    pub closed spec fn keys(&self) -> Seq<K::V> {
        Seq::new(self.keys@.len(), |i: int| self.keys@[i]@)
    }

    spec fn has(&self, k: K::V) -> bool {
        exists|i: int| 0 <= i < self.keys().len() && #[trigger] self.keys()[i] == k
    }

    spec fn slot(&self, k: K::V) -> int {
        choose|i: int| 0 <= i < self.keys().len() && #[trigger] self.keys()[i] == k
    }

    /// No key is held twice, and every key has its value.
    pub closed spec fn wf(&self) -> bool {
        &&& self.keys@.len() == self.vals@.len()
        &&& self.keys().no_duplicates()
    }

    /// What the order of the keys has to do with the view: the table maps
    /// exactly the keys it holds, each of them once, and finitely many.
    pub proof fn lemma_keys(&self)
        requires
            self.wf(),
        ensures
            self.keys().no_duplicates(),
            self@.dom() =~= self.keys().to_set(),
            self@.dom().finite(),
            self@.len() == self.keys().len(),
    {
        assert forall|k: K::V| self@.dom().contains(k) <==> self.keys().to_set().contains(k) by {
            if self.has(k) {
                assert(self.keys().contains(k));
            }
            if self.keys().contains(k) {
                assert(self.has(k));
            }
        }
        assert(self@.dom() =~= self.keys().to_set());
        self.keys().unique_seq_to_set();
        vstd::seq_lib::seq_to_set_is_finite(self.keys());
    }

    proof fn lemma_slot(&self, i: int)
        requires
            self.wf(),
            0 <= i < self.keys().len(),
        ensures
            self.has(self.keys()[i]),
            self.slot(self.keys()[i]) == i,
            self@.contains_key(self.keys()[i]),
            self@[self.keys()[i]] == self.vals@[i],
    {
    }

    proof fn lemma_absent(&self, k: K::V)
        requires
            forall|i: int| 0 <= i < self.keys().len() ==> self.keys()[i] != k,
        ensures
            !self@.contains_key(k),
    {
    }

    /// A table without keys.
    pub fn new() -> (table: Self)
        ensures
            table.wf(),
            table@ == Map::<K::V, V>::empty(),
            table.keys().len() == 0,
    {
        let table = AssocMap { keys: Vec::new(), vals: Vec::new() };
        assert(table@ =~= Map::<K::V, V>::empty());
        table
    }

    /// The number of keys.
    pub fn len(&self) -> (n: usize)
        requires
            self.wf(),
        ensures
            n == self.keys().len(),
            n == self@.len(),
    {
        proof {
            self.lemma_keys();
        }
        self.keys.len()
    }

    /// The key in the given place.
    pub fn key_at(&self, i: usize) -> (key: &K)
        requires
            self.wf(),
            i < self.keys().len(),
        ensures
            key@ == self.keys()[i as int],
            self@.contains_key(key@),
    {
        proof {
            self.lemma_slot(i as int);
        }
        &self.keys[i]
    }

    /// The value of the key in the given place.
    pub fn value_at(&self, i: usize) -> (value: &V)
        requires
            self.wf(),
            i < self.keys().len(),
        ensures
            self@.contains_key(self.keys()[i as int]),
            *value == self@[self.keys()[i as int]],
    {
        proof {
            self.lemma_slot(i as int);
        }
        &self.vals[i]
    }

    fn find(&self, key: &K) -> (place: Option<usize>)
        requires
            self.wf(),
        ensures
            match place {
                Some(i) => i < self.keys().len() && self.keys()[i as int] == key@,
                None => forall|i: int| 0 <= i < self.keys().len() ==> self.keys()[i] != key@,
            },
    {
        let mut i: usize = 0;
        while i < self.keys.len()
            invariant
                i <= self.keys@.len(),
                forall|j: int| 0 <= j < i ==> self.keys()[j] != key@,
            decreases self.keys@.len() - i,
        {
            if self.keys[i].same(key) {
                return Some(i);
            }
            i = i + 1;
        }
        None
    }

    /// Whether the table holds the key.
    pub fn contains_key(&self, key: &K) -> (b: bool)
        requires
            self.wf(),
        ensures
            b == self@.contains_key(key@),
    {
        match self.find(key) {
            Some(i) => {
                proof {
                    self.lemma_slot(i as int);
                }
                true
            },
            None => {
                proof {
                    self.lemma_absent(key@);
                }
                false
            },
        }
    }

    /// The value of the key, if the table holds it.
    pub fn get(&self, key: &K) -> (value: Option<&V>)
        requires
            self.wf(),
        ensures
            match value {
                Some(v) => self@.contains_key(key@) && *v == self@[key@],
                None => !self@.contains_key(key@),
            },
    {
        match self.find(key) {
            Some(i) => {
                proof {
                    self.lemma_slot(i as int);
                }
                Some(&self.vals[i])
            },
            None => {
                proof {
                    self.lemma_absent(key@);
                }
                None
            },
        }
    }

    /// Gives the key the value, in place of the one it had, if any.
    pub fn insert(&mut self, key: K, value: V)
        requires
            old(self).wf(),
        ensures
            final(self).wf(),
            final(self)@ == old(self)@.insert(key@, value),
    {
        match self.find(&key) {
            Some(i) => {
                self.vals.set(i, value);
                proof {
                    assert(self.keys() == old(self).keys());
                    assert forall|k: K::V| #[trigger] self@.contains_key(k) implies self@[k] == old(
                        self,
                    )@.insert(key@, value)[k] by {
                        let j = self.slot(k);
                        old(self).lemma_slot(j);
                        self.lemma_slot(j);
                        old(self).lemma_slot(i as int);
                    }
                    old(self).lemma_slot(i as int);
                    assert(self@ =~= old(self)@.insert(key@, value));
                }
            },
            None => {
                self.keys.push(key);
                self.vals.push(value);
                proof {
                    let n = old(self).keys().len() as int;
                    assert(self.keys() =~= old(self).keys().push(key@));
                    assert(self.wf());
                    self.lemma_slot(n);
                    old(self).lemma_absent(key@);
                    assert forall|k: K::V| #[trigger]
                        old(self)@.contains_key(k) implies self@.contains_key(k) && self@[k]
                        == old(self)@[k] by {
                        let j = old(self).slot(k);
                        old(self).lemma_slot(j);
                        self.lemma_slot(j);
                    }
                    assert forall|k: K::V| #[trigger]
                        self@.contains_key(k) && k != key@ implies old(self)@.contains_key(k) by {
                        let j = self.slot(k);
                        self.lemma_slot(j);
                        old(self).lemma_slot(j);
                    }
                    assert(self@ =~= old(self)@.insert(key@, value));
                }
            },
        }
    }

    /// Takes the key and its value out of the table, and hands the value
    /// back. Without the key the table stays as it is.
    pub fn remove(&mut self, key: &K) -> (value: Option<V>)
        requires
            old(self).wf(),
        ensures
            final(self).wf(),
            final(self)@ == old(self)@.remove(key@),
            match value {
                Some(v) => old(self)@.contains_key(key@) && v == old(self)@[key@],
                None => !old(self)@.contains_key(key@),
            },
    {
        match self.find(key) {
            Some(i) => {
                let ghost before = old(self).keys();
                let ghost last = before.len() - 1;
                self.keys.swap_remove(i);
                let value = self.vals.swap_remove(i);
                proof {
                    let after = self.keys();
                    assert(after =~= before.update(i as int, before.last()).drop_last());
                    assert forall|a: int, b: int| 0 <= a < after.len() && 0 <= b < after.len() && a
                        != b implies after[a] != after[b] by {
                        let pa = if a == i as int { last } else { a };
                        let pb = if b == i as int { last } else { b };
                        assert(after[a] == before[pa]);
                        assert(after[b] == before[pb]);
                    }
                    assert(self.wf());
                    old(self).lemma_slot(i as int);
                    assert forall|k: K::V| #[trigger]
                        self@.contains_key(k) implies old(self)@.contains_key(k) && k != key@
                        && self@[k] == old(self)@[k] by {
                        let j = self.slot(k);
                        self.lemma_slot(j);
                        let pj = if j == i as int { last } else { j };
                        old(self).lemma_slot(pj);
                    }
                    assert forall|k: K::V| #[trigger]
                        old(self)@.contains_key(k) && k != key@ implies self@.contains_key(k) by {
                        let pj = old(self).slot(k);
                        old(self).lemma_slot(pj);
                        let j = if pj == last { i as int } else { pj };
                        self.lemma_slot(j);
                    }
                    assert(self@ =~= old(self)@.remove(key@));
                }
                Some(value)
            },
            None => {
                proof {
                    self.lemma_absent(key@);
                    assert(self@ =~= old(self)@.remove(key@));
                }
                None
            },
        }
    }
}

impl<K: Key, V: Copy> AssocMap<K, V> {
    /// The table that a list of keys with their values stands for, or
    /// `None` where a key stands twice in the list.
    pub fn from_pairs(list: &Vec<(K, V)>) -> (r: Option<Self>)
        ensures
            match r {
                Some(table) => table.wf() && distinct(list@) && table@ == pairs_map(list@)
                    && table@.len() == list@.len(),
                None => !distinct(list@),
            },
    {
        let mut table: AssocMap<K, V> = AssocMap::new();
        let mut i: usize = 0;
        assert(list@.take(0) =~= Seq::<(K, V)>::empty());
        while i < list.len()
            invariant
                i <= list@.len(),
                table.wf(),
                table@ == pairs_map(list@.take(i as int)),
                distinct(list@.take(i as int)),
            decreases list@.len() - i,
        {
            let ghost prefix = list@.take(i as int);
            let ghost longer = list@.take(i + 1);
            proof {
                lemma_pairs_map(prefix);
                assert(longer.drop_last() =~= prefix);
                assert(longer.last() == list@[i as int]);
            }
            if table.contains_key(&list[i].0) {
                proof {
                    let j = choose|j: int|
                        0 <= j < prefix.len() && pair_keys(prefix)[j] == list@[i as int].0@;
                    assert(pair_keys(list@)[j] == pair_keys(list@)[i as int]);
                }
                return None;
            }
            table.insert(list[i].0.duplicate(), list[i].1);
            proof {
                assert forall|a: int, b: int|
                    0 <= a < longer.len() && 0 <= b < longer.len() && a != b implies pair_keys(
                    longer,
                )[a] != pair_keys(longer)[b] by {
                    if a < i && b < i {
                        assert(pair_keys(prefix)[a] != pair_keys(prefix)[b]);
                    } else {
                        let c = if a < i { a } else { b };
                        assert(pair_keys(prefix)[c] == longer[c].0@);
                        assert(pair_keys(prefix).contains(longer[c].0@));
                    }
                }
            }
            i = i + 1;
        }
        proof {
            assert(list@.take(i as int) =~= list@);
            lemma_pairs_map(list@);
        }
        Some(table)
    }

    /// The keys of the table with their values, each key once.
    pub fn to_pairs(&self) -> (list: Vec<(K, V)>)
        requires
            self.wf(),
        ensures
            distinct(list@),
            pairs_map(list@) == self@,
            list@.len() == self@.len(),
    {
        let mut list: Vec<(K, V)> = Vec::new();
        let n = self.len();
        let mut i: usize = 0;
        while i < n
            invariant
                self.wf(),
                n == self.keys().len(),
                i <= n,
                pair_keys(list@) == self.keys().take(i as int),
                forall|j: int|
                    0 <= j < list@.len() ==> self@.contains_key(#[trigger] list@[j].0@)
                        && list@[j].1 == self@[list@[j].0@],
            decreases n - i,
        {
            let ghost before = list@;
            assert(pair_keys(before).len() == before.len());
            assert(self.keys().take(i as int).len() == i);
            let key = self.key_at(i).duplicate();
            let value = *self.value_at(i);
            list.push((key, value));
            i = i + 1;
            assert forall|j: int| 0 <= j < list@.len() implies pair_keys(list@)[j]
                == self.keys().take(i as int)[j] by {
                if j < before.len() {
                    assert(pair_keys(before)[j] == self.keys().take(i - 1)[j]);
                }
            }
            assert(pair_keys(list@) =~= self.keys().take(i as int));
        }
        proof {
            self.lemma_keys();
            assert(self.keys().take(n as int) =~= self.keys());
            lemma_pairs_map(list@);
            assert(pairs_map(list@) =~= self@);
        }
        list
    }
}

} // verus!