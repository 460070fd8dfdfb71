use vstd::prelude::*;

use crate::error::PipelineError;

verus! {

/// What `register` makes of a registry's contents: `None` where the name is
/// already taken, else the contents with the new entry.
pub open spec fn register_spec<S>(m: Map<Seq<char>, S>, name: Seq<char>, unit: S) -> Option<
    Map<Seq<char>, S>,
> {
    if m.contains_key(name) {
        None
    } else {
        Some(m.insert(name, unit))
    }
}

/// What `resolve` finds in a registry's contents.
pub open spec fn resolve_spec<S>(m: Map<Seq<char>, S>, name: Seq<char>) -> Option<S> {
    if m.contains_key(name) {
        Some(m[name])
    } else {
        None
    }
}

/// Named backend units, one per subgraph; each name occurs at most once.
pub struct BackendRegistry<S> {
    entries: Vec<(String, S)>,
}

impl<S> BackendRegistry<S> {
    /// The names held, in the order of registration.
    pub closed spec fn names(&self) -> Seq<Seq<char>> {
        self.entries@.map_values(|e: (String, S)| e.0@)
    }

    pub closed spec fn wf(&self) -> bool {
        forall|i: int, j: int|
            0 <= i < j < self.entries@.len() ==> #[trigger] self.entries@[i].0@
                != #[trigger] self.entries@[j].0@
    }

    /// The registry's contents: each name with its unit.
    pub closed spec fn view(&self) -> Map<Seq<char>, S> {
        Map::new(
            |n: Seq<char>| exists|i: int| 0 <= i < self.entries@.len() && self.entries@[i].0@ == n,
            |n: Seq<char>|
                self.entries@[choose|i: int| 0 <= i < self.entries@.len() && self.entries@[i].0@ == n].1,
        )
    }

    proof fn lemma_entry_in_view(&self, i: int)
        requires
            self.wf(),
            0 <= i < self.entries@.len(),
        ensures
            self@.contains_key(self.entries@[i].0@),
            self@[self.entries@[i].0@] == self.entries@[i].1,
    {
        let n = self.entries@[i].0@;
        assert(exists|k: int| 0 <= k < self.entries@.len() && self.entries@[k].0@ == n);
        let k = choose|k: int| 0 <= k < self.entries@.len() && self.entries@[k].0@ == n;
        if k != i {
            if k < i {
                assert(self.entries@[k].0@ != self.entries@[i].0@);
            } else {
                assert(self.entries@[i].0@ != self.entries@[k].0@);
            }
        }
    }

    /// An empty registry.
    pub fn new() -> (r: Self)
        ensures
            r.wf(),
            r@ == Map::<Seq<char>, S>::empty(),
            r.len() == 0,
    {
        let r = BackendRegistry { entries: Vec::new() };
        assert(r@ =~= Map::<Seq<char>, S>::empty());
        r
    }

    /// The number of entries.
    pub closed spec fn len(&self) -> nat {
        self.entries@.len()
    }

    /// The number of entries.
    pub fn count(&self) -> (r: usize)
        ensures
            r == self.len(),
    {
        self.entries.len()
    }

    /// Position of `name` among the entries, if it is there.
    fn position(&self, name: &String) -> (r: Option<usize>)
        requires
            self.wf(),
        ensures
            r.is_none() ==> !self@.contains_key(name@),
            r.is_some() ==> r.unwrap() < self.entries@.len() && self.entries@[r.unwrap() as int].0@
                == name@,
    {
        let mut i: usize = 0;
        while i < self.entries.len()
            invariant
                i <= self.entries@.len(),
                forall|k: int| 0 <= k < i ==> self.entries@[k].0@ != name@,
            decreases self.entries@.len() - i,
        {
            if self.entries[i].0 == *name {
                return Some(i);
            }
            i = i + 1;
        }
        None
    }

    /// Whether a unit is registered under `name`.
    pub fn contains(&self, name: &String) -> (r: bool)
        requires
            self.wf(),
        ensures
            r == self@.contains_key(name@),
    {
        match self.position(name) {
            Some(i) => {
                proof {
                    self.lemma_entry_in_view(i as int);
                }
                true
            },
            None => false,
        }
    }

    /// Adds `unit` under `name`; a name that is already taken is refused
    /// with `DuplicateBackend` and the registry is left as it was.
    pub fn register(&mut self, name: String, unit: S) -> (r: Result<(), PipelineError>)
        requires
            old(self).wf(),
            old(self).len() < usize::MAX,
        ensures
            final(self).wf(),
            r is Ok <==> register_spec(old(self)@, name@, unit) is Some,
            r is Ok ==> final(self)@ == register_spec(old(self)@, name@, unit)->0,
            r is Ok ==> final(self).len() == old(self).len() + 1,
            r is Err ==> r == Err::<(), PipelineError>(PipelineError::DuplicateBackend),
            r is Err ==> *final(self) == *old(self),
    {
        if self.contains(&name) {
            return Err(PipelineError::DuplicateBackend);
        }
        let ghost before = *self;
        let ghost n = name@;
        self.entries.push((name, unit));
        proof {
            let len = self.entries@.len();
            assert(forall|k: int| 0 <= k < len - 1 ==> self.entries@[k] == before.entries@[k]);
            assert forall|i: int, j: int| 0 <= i < j < len implies #[trigger] self.entries@[i].0@
                != #[trigger] self.entries@[j].0@ by {
                if j == len - 1 {
                    before.lemma_entry_in_view(i);
                }
            }
            let target = before@.insert(n, unit);
            assert forall|m: Seq<char>| #[trigger] self@.contains_key(m) <==> target.contains_key(m) by {
                if target.contains_key(m) && m != n {
                    let k = choose|k: int|
                        0 <= k < before.entries@.len() && before.entries@[k].0@ == m;
                    assert(self.entries@[k].0@ == m);
                }
                if target.contains_key(m) && m == n {
                    assert(self.entries@[len - 1].0@ == m);
                }
                if self@.contains_key(m) && m != n {
                    let k = choose|k: int| 0 <= k < self.entries@.len() && self.entries@[k].0@ == m;
                    assert(before.entries@[k].0@ == m);
                }
            }
            assert forall|m: Seq<char>| #[trigger] self@.contains_key(m) implies self@[m]
                == target[m] by {
                let k = choose|k: int| 0 <= k < self.entries@.len() && self.entries@[k].0@ == m;
                self.lemma_entry_in_view(k);
                if m != n {
                    before.lemma_entry_in_view(k);
                } else {
                    self.lemma_entry_in_view(len - 1);
                }
            }
            assert(self@ =~= target);
        }
        Ok(())
    }

    /// The unit registered under `name`, or `UnknownBackend`.
    pub fn resolve(&self, name: &String) -> (r: Result<&S, PipelineError>)
        requires
            self.wf(),
        ensures
            r is Ok <==> resolve_spec(self@, name@) is Some,
            r is Ok ==> *r->Ok_0 == resolve_spec(self@, name@)->0,
            r is Err ==> r == Err::<&S, PipelineError>(PipelineError::UnknownBackend),
    {
        match self.position(name) {
            Some(i) => {
                proof {
                    self.lemma_entry_in_view(i as int);
                }
                Ok(&self.entries[i].1)
            },
            None => Err(PipelineError::UnknownBackend),
        }
    }
}

/// Registering a name and then resolving it yields the very unit that was
/// registered, and registering the same name a second time is refused.
pub proof fn lemma_register_then_resolve<S>(m: Map<Seq<char>, S>, name: Seq<char>, unit: S, other: S)
    requires
        !m.contains_key(name),
    ensures
        register_spec(m, name, unit) is Some,
        resolve_spec(register_spec(m, name, unit)->0, name) == Some(unit),
        register_spec(register_spec(m, name, unit)->0, name, other) is None,
{
}

} // verus!
