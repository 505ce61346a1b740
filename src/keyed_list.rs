use vstd::prelude::*;

verus! {

/// An association list from string keys to values, with at most one entry
/// per key. Its abstract value is a finite map from key text to value.
pub struct KeyedList<V> {
    entries: Vec<(String, V)>,
    contents: Ghost<Map<Seq<char>, V>>,
}

impl<V> View for KeyedList<V> {
    type V = Map<Seq<char>, V>;

    closed spec fn view(&self) -> Map<Seq<char>, V> {
        self.contents@
    }
}

impl<V> KeyedList<V> {
    /// Keys are distinct, and the entries hold exactly the abstract map.
    pub closed spec fn wf(&self) -> bool {
        &&& forall|i: int|
            0 <= i < self.entries@.len() ==> {
                &&& #[trigger] self.contents@.contains_key(self.entries@[i].0@)
                &&& self.contents@[self.entries@[i].0@] == self.entries@[i].1
            }
        &&& forall|k: Seq<char>| #[trigger]
            self.contents@.contains_key(k) ==> exists|i: int|
                0 <= i < self.entries@.len() && #[trigger] self.entries@[i].0@ == k
        &&& forall|i: int, j: int|
            0 <= i < self.entries@.len() && 0 <= j < self.entries@.len() && i != j
                ==> #[trigger] self.entries@[i].0@ != #[trigger] self.entries@[j].0@
    }

    pub fn new() -> (r: Self)
        ensures
            r.wf(),
            r@ == Map::<Seq<char>, V>::empty(),
    {
        KeyedList { entries: Vec::new(), contents: Ghost(Map::empty()) }
    }

    fn position(&self, key: &String) -> (r: Option<usize>)
        requires
            self.wf(),
        ensures
            match r {
                Some(i) => i < self.entries@.len() && self.entries@[i as int].0@ == key@,
                None => !self@.contains_key(key@),
            },
    {
        let mut i: usize = 0;
        while i < self.entries.len()
            invariant
                self.wf(),
                i <= self.entries@.len(),
                forall|j: int| 0 <= j < i ==> self.entries@[j].0@ != key@,
            decreases self.entries@.len() - i,
        {
            if self.entries[i].0 == *key {
                return Some(i);
            }
            i = i + 1;
        }
        None
    }

    /// The value stored under `key`, if any.
    pub fn get(&self, key: &String) -> (r: Option<&V>)
        requires
            self.wf(),
        ensures
            match r {
                Some(v) => self@.contains_key(key@) && *v == self@[key@],
                None => !self@.contains_key(key@),
            },
    {
        match self.position(key) {
            Some(i) => {
                assert(self.contents@.contains_key(self.entries@[i as int].0@));
                Some(&self.entries[i].1)
            },
            None => None,
        }
    }

    /// Removes the entry for `key` and hands its value back.
    pub fn take(&mut self, key: &String) -> (r: Option<V>)
        requires
            old(self).wf(),
        ensures
            final(self).wf(),
            final(self)@ == old(self)@.remove(key@),
            match r {
                Some(v) => old(self)@.contains_key(key@) && v == old(self)@[key@],
                None => !old(self)@.contains_key(key@),
            },
    {
        match self.position(key) {
            Some(i) => {
                let ghost before = self.entries@;
                assert(self.contents@.contains_key(before[i as int].0@));
                let entry = self.entries.swap_remove(i);
                self.contents = Ghost(self.contents@.remove(key@));
                let ghost after = self.entries@;
                assert forall|a: int| 0 <= a < after.len() implies after[a].0@ != key@
                    && #[trigger] self.contents@.contains_key(after[a].0@)
                    && self.contents@[after[a].0@] == after[a].1 by {
                    if a == i {
                        assert(after[a] == before[before.len() - 1]);
                        assert(before[before.len() - 1].0@ != before[i as int].0@);
                    } else {
                        assert(after[a] == before[a]);
                        assert(before[a].0@ != before[i as int].0@);
                    }
                }
                assert forall|a: int, b: int|
                    0 <= a < after.len() && 0 <= b < after.len() && a != b
                        implies #[trigger] after[a].0@ != #[trigger] after[b].0@ by {
                    let sa = if a == i { before.len() - 1 } else { a };
                    let sb = if b == i { before.len() - 1 } else { b };
                    assert(after[a] == before[sa]);
                    assert(after[b] == before[sb]);
                }
                assert forall|k: Seq<char>| #[trigger]
                    self.contents@.contains_key(k) implies exists|a: int|
                        0 <= a < after.len() && #[trigger] after[a].0@ == k by {
                    let b = choose|b: int| 0 <= b < before.len() && #[trigger] before[b].0@ == k;
                    if b == before.len() - 1 {
                        assert(after[i as int].0@ == k);
                    } else {
                        assert(after[b].0@ == k);
                    }
                }
                Some(entry.1)
            },
            None => {
                assert(self@.remove(key@) =~= self@);
                None
            },
        }
    }

    /// Stores `value` under `key`, replacing any earlier value.
    pub fn set(&mut self, key: String, value: V)
        requires
            old(self).wf(),
        ensures
            final(self).wf(),
            final(self)@ == old(self)@.insert(key@, value),
    {
        let _ = self.take(&key);
        let ghost before = self.entries@;
        let ghost k = key@;
        self.contents = Ghost(self.contents@.insert(k, value));
        self.entries.push((key, value));
        assert(self.entries@[before.len() as int].0@ == k);
        assert forall|a: int| 0 <= a < before.len() implies before[a].0@ != k by {
            assert(!old(self)@.remove(k).contains_key(k));
        }
        assert forall|a: int| 0 <= a < self.entries@.len() implies
            #[trigger] self.contents@.contains_key(self.entries@[a].0@)
            && self.contents@[self.entries@[a].0@] == self.entries@[a].1 by {
            if a < before.len() {
                assert(self.entries@[a] == before[a]);
            }
        }
        assert forall|a: int, b: int|
            0 <= a < self.entries@.len() && 0 <= b < self.entries@.len() && a != b
                implies #[trigger] self.entries@[a].0@ != #[trigger] self.entries@[b].0@ by {
            if a < before.len() {
                assert(self.entries@[a] == before[a]);
            }
            if b < before.len() {
                assert(self.entries@[b] == before[b]);
            }
        }
        assert forall|kk: Seq<char>| #[trigger]
            self.contents@.contains_key(kk) implies exists|a: int|
                0 <= a < self.entries@.len() && #[trigger] self.entries@[a].0@ == kk by {
            if kk != k {
                let b = choose|b: int| 0 <= b < before.len() && #[trigger] before[b].0@ == kk;
                assert(self.entries@[b].0@ == kk);
            }
        }
        assert(old(self)@.insert(k, value) =~= self@);
    }
}

} // verus!
