use vstd::prelude::*;

verus! {

/// Per-request state shared by every plugin hook and backend call of one
/// request: each key holds one value. A fresh one is made at the outer
/// boundary of every request and never reused for another.
pub struct RequestContext {
    entries: Vec<(String, String)>,
}

impl RequestContext {
    pub closed spec fn wf(&self) -> bool {
        forall|i: int, j: int|
            0 <= i < j < self.entries@.len() ==> #[trigger] self.entries@[i].0@
                != #[trigger] self.entries@[j].0@
    }

    /// The context's contents: each key with its value.
    pub closed spec fn view(&self) -> Map<Seq<char>, Seq<char>> {
        Map::new(
            |k: Seq<char>| exists|i: int| 0 <= i < self.entries@.len() && self.entries@[i].0@ == k,
            |k: Seq<char>|
                self.entries@[choose|i: int|
                    0 <= i < self.entries@.len() && self.entries@[i].0@ == k].1@,
        )
    }

    proof fn lemma_entry_in_view(&self, i: int)
        requires
            self.wf(),
            0 <= i < self.entries@.len(),
        ensures
            self@.contains_key(self.entries@[i].0@),
            self@[self.entries@[i].0@] == self.entries@[i].1@,
    {
        let n = self.entries@[i].0@;
        assert(exists|k: int| 0 <= k < self.entries@.len() && self.entries@[k].0@ == n);
        let k = choose|k: int| 0 <= k < self.entries@.len() && self.entries@[k].0@ == n;
        if k < i {
            assert(self.entries@[k].0@ != self.entries@[i].0@);
        } else if k > i {
            assert(self.entries@[i].0@ != self.entries@[k].0@);
        }
    }

    /// An empty context, as every request starts with.
    pub fn new() -> (r: Self)
        ensures
            r.wf(),
            r@ == Map::<Seq<char>, Seq<char>>::empty(),
    {
        let r = RequestContext { entries: Vec::new() };
        assert(r@ =~= Map::<Seq<char>, Seq<char>>::empty());
        r
    }

    fn position(&self, key: &String) -> (r: Option<usize>)
        requires
            self.wf(),
        ensures
            r.is_none() ==> !self@.contains_key(key@),
            r.is_some() ==> r.unwrap() < self.entries@.len() && self.entries@[r.unwrap() as int].0@
                == key@,
    {
        let mut i: usize = 0;
        while i < self.entries.len()
            invariant
                i <= self.entries@.len(),
                forall|k: int| 0 <= k < i ==> self.entries@[k].0@ != key@,
            decreases self.entries@.len() - i,
        {
            if self.entries[i].0 == *key {
                return Some(i);
            }
            i = i + 1;
        }
        None
    }

    /// The value under `key`, if any.
    pub fn get(&self, key: &String) -> (r: Option<&String>)
        requires
            self.wf(),
        ensures
            r is Some <==> self@.contains_key(key@),
            r is Some ==> r->0@ == self@[key@],
    {
        match self.position(key) {
            Some(i) => {
                proof {
                    self.lemma_entry_in_view(i as int);
                }
                Some(&self.entries[i].1)
            },
            None => None,
        }
    }

    /// Sets `key` to `value`, replacing what it held.
    pub fn insert(&mut self, key: String, value: String)
        requires
            old(self).wf(),
        ensures
            final(self).wf(),
            final(self)@ == old(self)@.insert(key@, value@),
    {
        let ghost before = *self;
        let ghost k = key@;
        let ghost v = value@;
        match self.position(&key) {
            Some(i) => {
                self.entries.set(i, (key, value));
                proof {
                    let target = before@.insert(k, v);
                    assert forall|a: int, b: int|
                        0 <= a < b < self.entries@.len() implies #[trigger] self.entries@[a].0@
                        != #[trigger] self.entries@[b].0@ by {
                        assert(before.entries@[a].0@ != before.entries@[b].0@);
                    }
                    assert forall|m: Seq<char>| #[trigger]
                        self@.contains_key(m) <==> target.contains_key(m) by {
                        if target.contains_key(m) && m != k {
                            let j = choose|j: int|
                                0 <= j < before.entries@.len() && before.entries@[j].0@ == m;
                            assert(self.entries@[j].0@ == m);
                        }
                        if m == k {
                            assert(self.entries@[i as int].0@ == m);
                        }
                        if self@.contains_key(m) && m != k {
                            let j = choose|j: int|
                                0 <= j < self.entries@.len() && self.entries@[j].0@ == m;
                            assert(before.entries@[j].0@ == m);
                        }
                    }
                    assert forall|m: Seq<char>| #[trigger]
                        self@.contains_key(m) implies self@[m] == target[m] by {
                        let j = choose|j: int|
                            0 <= j < self.entries@.len() && self.entries@[j].0@ == m;
                        self.lemma_entry_in_view(j);
                        if m != k {
                            before.lemma_entry_in_view(j);
                        }
                    }
                    assert(self@ =~= target);
                }
            },
            None => {
                self.entries.push((key, value));
                proof {
                    let len = self.entries@.len();
                    let target = before@.insert(k, v);
                    assert(forall|j: int|
                        0 <= j < len - 1 ==> self.entries@[j] == before.entries@[j]);
                    assert forall|a: int, b: int|
                        0 <= a < b < len implies #[trigger] self.entries@[a].0@
                        != #[trigger] self.entries@[b].0@ by {
                        if b == len - 1 {
                            before.lemma_entry_in_view(a);
                        }
                    }
                    assert forall|m: Seq<char>| #[trigger]
                        self@.contains_key(m) <==> target.contains_key(m) by {
                        if target.contains_key(m) && m != k {
                            let j = choose|j: int|
                                0 <= j < before.entries@.len() && before.entries@[j].0@ == m;
                            assert(self.entries@[j].0@ == m);
                        }
                        if m == k {
                            assert(self.entries@[len - 1].0@ == m);
                        }
                        if self@.contains_key(m) && m != k {
                            let j = choose|j: int|
                                0 <= j < self.entries@.len() && self.entries@[j].0@ == m;
                            assert(before.entries@[j].0@ == m);
                        }
                    }
                    assert forall|m: Seq<char>| #[trigger]
                        self@.contains_key(m) implies self@[m] == target[m] by {
                        let j = choose|j: int|
                            0 <= j < self.entries@.len() && self.entries@[j].0@ == m;
                        self.lemma_entry_in_view(j);
                        if m != k {
                            before.lemma_entry_in_view(j);
                        }
                    }
                    assert(self@ =~= target);
                }
            },
        }
    }
}

} // verus!
