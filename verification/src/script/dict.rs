use vstd::prelude::*;

use crate::text::str_eq;

verus! {

/// A map from names to values: no name occurs twice.
#[derive(Debug)]
pub struct Dict<V> {
    entries: Vec<(String, V)>,
}

impl<V> View for Dict<V> {
    type V = Map<Seq<char>, V>;

    closed spec fn view(&self) -> Map<Seq<char>, V> {
        Map::new(
            |k: Seq<char>| exists|i: int| 0 <= i < self.entries@.len() && self.entries@[i].0@ == k,
            |k: Seq<char>|
                self.entries@[choose|i: int| 0 <= i < self.entries@.len() && self.entries@[i].0@ == k].1,
        )
    }
}

impl<V> Dict<V> {
    /// No name occurs twice.
    pub closed spec fn wf(&self) -> bool {
        forall|i: int, j: int|
            0 <= i < j < self.entries@.len() ==> self.entries@[i].0@ != self.entries@[j].0@
    }

    proof fn lemma_index(&self, i: int)
        requires
            self.wf(),
            0 <= i < self.entries@.len(),
        ensures
            self@.contains_key(self.entries@[i].0@),
            self@[self.entries@[i].0@] == self.entries@[i].1,
    {
        let k = self.entries@[i].0@;
        assert(self@.dom().contains(k));
        let j = choose|j: int| 0 <= j < self.entries@.len() && self.entries@[j].0@ == k;
        assert(i == j);
    }

    pub fn new() -> (r: Self)
        ensures
            r.wf(),
            r@ == Map::<Seq<char>, V>::empty(),
    {
        let r = Dict { entries: Vec::new() };
        assert(r@ =~= Map::<Seq<char>, V>::empty());
        r
    }

    /// The position of `name`, if it is present.
    fn find(&self, name: &str) -> (r: Option<usize>)
        requires
            self.wf(),
        ensures
            match r {
                Some(i) => i < self.entries@.len() && self.entries@[i as int].0@ == name@,
                None => !self@.contains_key(name@),
            },
    {
        let mut i: usize = 0;
        while i < self.entries.len()
            invariant
                0 <= i <= self.entries@.len(),
                forall|j: int| 0 <= j < i ==> self.entries@[j].0@ != name@,
            decreases self.entries@.len() - i,
        {
            if str_eq(self.entries[i].0.as_str(), name) {
                return Some(i);
            }
            i = i + 1;
        }
        None
    }

    /// The names and values, each name once.
    pub fn entries(&self) -> (r: &[(String, V)])
        requires
            self.wf(),
        ensures
            forall|i: int| #![trigger r@[i]]
                0 <= i < r@.len() ==> self@.contains_key(r@[i].0@) && self@[r@[i].0@] == r@[i].1,
            forall|k: Seq<char>| #[trigger] self@.contains_key(k) ==> exists|i: int|
                0 <= i < r@.len() && r@[i].0@ == k,
    {
        proof {
            assert forall|i: int| #![trigger self.entries@[i]]
                0 <= i < self.entries@.len() implies self@.contains_key(self.entries@[i].0@)
                && self@[self.entries@[i].0@] == self.entries@[i].1 by {
                self.lemma_index(i);
            }
        }
        self.entries.as_slice()
    }

    /// The value of `name`, if it is present.
    pub fn get(&self, name: &str) -> (r: Option<&V>)
        requires
            self.wf(),
        ensures
            match r {
                Some(v) => self@.contains_key(name@) && self@[name@] == *v,
                None => !self@.contains_key(name@),
            },
    {
        match self.find(name) {
            Some(i) => {
                proof {
                    self.lemma_index(i as int);
                }
                Some(&self.entries[i].1)
            },
            None => None,
        }
    }

    /// Takes `name` and its value out of the map.
    pub fn remove_entry(&mut self, name: &str) -> (r: Option<(String, V)>)
        requires
            old(self).wf(),
        ensures
            final(self).wf(),
            match r {
                Some((k, v)) => {
                    &&& old(self)@.contains_key(name@)
                    &&& k@ == name@
                    &&& v == old(self)@[name@]
                    &&& final(self)@ == old(self)@.remove(name@)
                },
                None => !old(self)@.contains_key(name@) && final(self)@ == old(self)@,
            },
    {
        match self.find(name) {
            Some(i) => {
                proof {
                    self.lemma_index(i as int);
                }
                let ghost old_entries = self.entries@;
                let e = self.entries.remove(i);
                proof {
                    assert forall|a: int, b: int| 0 <= a < b < self.entries@.len() implies self.entries@[a].0@
                        != self.entries@[b].0@ by {
                        let a2 = if a < i { a } else { a + 1 };
                        let b2 = if b < i { b } else { b + 1 };
                        assert(self.entries@[a] == old_entries[a2]);
                        assert(self.entries@[b] == old_entries[b2]);
                    }
                    assert forall|k: Seq<char>| #![auto] self@.contains_key(k) == old(self)@.remove(name@).contains_key(k) by {
                        if self@.contains_key(k) {
                            let j = choose|j: int| 0 <= j < self.entries@.len() && self.entries@[j].0@ == k;
                            let j2 = if j < i { j } else { j + 1 };
                            assert(old_entries[j2].0@ == k);
                            assert(k != name@);
                        }
                        if old(self)@.remove(name@).contains_key(k) {
                            let j = choose|j: int| 0 <= j < old_entries.len() && old_entries[j].0@ == k;
                            assert(j != i);
                            let j2 = if j < i { j } else { j - 1 };
                            assert(self.entries@[j2].0@ == k);
                        }
                    }
                    assert forall|k: Seq<char>| #![auto] self@.contains_key(k) implies self@[k] == old(self)@.remove(name@)[k] by {
                        let j = choose|j: int| 0 <= j < self.entries@.len() && self.entries@[j].0@ == k;
                        let j2 = if j < i { j } else { j + 1 };
                        assert(self.entries@[j] == old_entries[j2]);
                        self.lemma_index(j);
                        old(self).lemma_index(j2);
                    }
                    assert(self@ =~= old(self)@.remove(name@));
                }
                Some(e)
            },
            None => None,
        }
    }

    /// Sets `name` to `value`, in place of any value it had.
    pub fn insert(&mut self, name: String, value: V)
        requires
            old(self).wf(),
        ensures
            final(self).wf(),
            final(self)@ == old(self)@.insert(name@, value),
    {
        let ghost k = name@;
        match self.find(name.as_str()) {
            Some(i) => {
                let ghost old_entries = self.entries@;
                self.entries.set(i, (name, value));
                proof {
                    assert forall|a: int, b: int| 0 <= a < b < self.entries@.len() implies self.entries@[a].0@
                        != self.entries@[b].0@ by {
                        assert(self.entries@[a].0@ == old_entries[a].0@);
                        assert(self.entries@[b].0@ == old_entries[b].0@);
                    }
                    assert forall|key: Seq<char>| #![auto] self@.contains_key(key) == old(self)@.insert(k, value).contains_key(key) by {
                        if self@.contains_key(key) {
                            let j = choose|j: int| 0 <= j < self.entries@.len() && self.entries@[j].0@ == key;
                            assert(old_entries[j].0@ == key);
                        }
                        if old(self)@.insert(k, value).contains_key(key) && key != k {
                            let j = choose|j: int| 0 <= j < old_entries.len() && old_entries[j].0@ == key;
                            assert(self.entries@[j].0@ == key);
                        }
                        if key == k {
                            assert(self.entries@[i as int].0@ == key);
                        }
                    }
                    assert forall|key: Seq<char>| #![auto] self@.contains_key(key) implies self@[key] == old(self)@.insert(k, value)[key] by {
                        let j = choose|j: int| 0 <= j < self.entries@.len() && self.entries@[j].0@ == key;
                        self.lemma_index(j);
                        if j != i {
                            old(self).lemma_index(j);
                        }
                    }
                    assert(self@ =~= old(self)@.insert(k, value));
                }
            },
            None => {
                let ghost old_entries = self.entries@;
                self.entries.push((name, value));
                proof {
                    let n = old_entries.len() as int;
                    assert forall|a: int, b: int| 0 <= a < b < self.entries@.len() implies self.entries@[a].0@
                        != self.entries@[b].0@ by {
                        if b == n {
                            assert(old(self)@.dom().contains(old_entries[a].0@)) by {
                                assert(0 <= a < old_entries.len() && old_entries[a].0@ == old_entries[a].0@);
                            }
                        }
                    }
                    assert forall|key: Seq<char>| #![auto] self@.contains_key(key) == old(self)@.insert(k, value).contains_key(key) by {
                        if self@.contains_key(key) && key != k {
                            let j = choose|j: int| 0 <= j < self.entries@.len() && self.entries@[j].0@ == key;
                            assert(old_entries[j].0@ == key);
                        }
                        if old(self)@.insert(k, value).contains_key(key) {
                            if key == k {
                                assert(self.entries@[n].0@ == key);
                            } else {
                                let j = choose|j: int| 0 <= j < old_entries.len() && old_entries[j].0@ == key;
                                assert(self.entries@[j].0@ == key);
                            }
                        }
                    }
                    assert forall|key: Seq<char>| #![auto] self@.contains_key(key) implies self@[key] == old(self)@.insert(k, value)[key] by {
                        let j = choose|j: int| 0 <= j < self.entries@.len() && self.entries@[j].0@ == key;
                        self.lemma_index(j);
                        if j != n {
                            assert(self.entries@[j] == old_entries[j]);
                            old(self).lemma_index(j);
                        }
                    }
                    assert(self@ =~= old(self)@.insert(k, value));
                }
            },
        }
    }
}


/// Reading a name after setting it gives the value set, and leaves the other
/// names as they were.
pub proof fn law_insert_then_get<V>(m: Map<Seq<char>, V>, k: Seq<char>, v: V, other: Seq<char>)
    requires
        other != k,
    ensures
        m.insert(k, v).contains_key(k),
        m.insert(k, v)[k] == v,
        m.insert(k, v).contains_key(other) == m.contains_key(other),
        m.contains_key(other) ==> m.insert(k, v)[other] == m[other],
{
}

/// Taking out a name that was just set to a new name undoes the setting.
pub proof fn law_insert_then_remove<V>(m: Map<Seq<char>, V>, k: Seq<char>, v: V)
    requires
        !m.contains_key(k),
    ensures
        m.insert(k, v).remove(k) == m,
{
    assert(m.insert(k, v).remove(k) =~= m);
}

} // verus!
