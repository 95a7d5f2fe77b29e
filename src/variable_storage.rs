//! Variable storage: script variables by name.
use vstd::prelude::*;
use crate::yarn_fn::YarnValue;

verus! {

/// Why a variable could not be set.
#[derive(PartialEq, Eq, Structural, Clone, Copy, Debug)]
pub enum VariableError {
    /// The storage does not accept writes.
    ReadOnly,
}

/// Script variables and their values, each name once, in order of first assignment.
pub struct MemoryVariableStorage {
    entries: Vec<(String, YarnValue)>,
    read_only: bool,
}

pub open spec fn names_of(m: Seq<(Seq<char>, YarnValue)>) -> Seq<Seq<char>> {
    m.map_values(|e: (Seq<char>, YarnValue)| e.0)
}

/// The value stored under `name`, if any.
pub open spec fn lookup(m: Seq<(Seq<char>, YarnValue)>, name: Seq<char>) -> Option<YarnValue>
    decreases m.len(),
{
    if m.len() == 0 {
        None
    } else if m.last().0 == name {
        Some(m.last().1)
    } else {
        lookup(m.drop_last(), name)
    }
}

impl View for MemoryVariableStorage {
    type V = Seq<(Seq<char>, YarnValue)>;

    closed spec fn view(&self) -> Seq<(Seq<char>, YarnValue)> {
        self.entries@.map_values(|e: (String, YarnValue)| (e.0@, e.1))
    }
}

impl MemoryVariableStorage {
    pub closed spec fn is_read_only(&self) -> bool {
        self.read_only
    }

    pub open spec fn well_formed(&self) -> bool {
        names_of(self@).no_duplicates()
    }

    /// An empty storage; a read-only one refuses every write.
    pub fn new(read_only: bool) -> (r: Self)
        ensures
            r@.len() == 0,
            r.well_formed(),
            r.is_read_only() == read_only,
    {
        let r = MemoryVariableStorage { entries: Vec::new(), read_only };
        assert(r@ =~= Seq::<(Seq<char>, YarnValue)>::empty());
        r
    }

    fn position(&self, name: &String) -> (r: Option<usize>)
        ensures
            match r {
                Some(i) => i < self@.len() && self@[i as int].0 == name@,
                None => forall|i: int| 0 <= i < self@.len() ==> (#[trigger] self@[i]).0 != name@,
            },
    {
        let mut i: usize = 0;
        while i < self.entries.len()
            invariant
                i <= self.entries@.len(),
                self@.len() == self.entries@.len(),
                forall|j: int| 0 <= j < i ==> (#[trigger] self@[j]).0 != name@,
            decreases self.entries@.len() - i,
        {
            if self.entries[i].0 == *name {
                assert(self@[i as int].0 == name@);
                return Some(i);
            }
            i += 1;
        }
        None
    }

    /// The value of the variable `name`.
    pub fn get(&self, name: &String) -> (r: Option<YarnValue>)
        requires
            self.well_formed(),
        ensures
            r == lookup(self@, name@),
    {
        match self.position(name) {
            Some(i) => {
                proof {
                    lemma_lookup_at(self@, i as int);
                }
                Some(self.entries[i].1.duplicate())
            },
            None => {
                proof {
                    lemma_lookup_absent(self@, name@);
                }
                None
            },
        }
    }

    /// Sets the variable `name` to `value`; afterwards it reads back as `value`
    /// and every other variable is unchanged.
    pub fn set(&mut self, name: &String, value: YarnValue) -> (r: Result<(), VariableError>)
        requires
            old(self).well_formed(),
        ensures
            final(self).well_formed(),
            final(self).is_read_only() == old(self).is_read_only(),
            old(self).is_read_only() ==> r == Err::<(), VariableError>(VariableError::ReadOnly)
                && final(self)@ == old(self)@,
            !old(self).is_read_only() ==> r is Ok && lookup(final(self)@, name@) == Some(value)
                && forall|other: Seq<char>|
                other != name@ ==> #[trigger] lookup(final(self)@, other) == lookup(old(self)@, other),
    {
        if self.read_only {
            return Err(VariableError::ReadOnly);
        }
        let ghost m0 = self@;
        match self.position(name) {
            Some(i) => {
                self.entries.set(i, (name.clone(), value));
                proof {
                    assert(self@ =~= m0.update(i as int, (name@, value)));
                    assert(names_of(self@) =~= names_of(m0));
                    lemma_lookup_at(self@, i as int);
                    assert forall|other: Seq<char>| other != name@ implies #[trigger] lookup(
                        self@,
                        other,
                    ) == lookup(m0, other) by {
                        lemma_lookup_update(m0, i as int, value, other);
                    }
                }
            },
            None => {
                self.entries.push((name.clone(), value));
                proof {
                    assert(self@ =~= m0.push((name@, value)));
                    assert(self@.drop_last() =~= m0);
                    assert(names_of(self@) =~= names_of(m0).push(name@));
                    assert forall|a: int, b: int|
                        0 <= a < b < names_of(self@).len() implies names_of(self@)[a]
                        != names_of(self@)[b] by {
                        if b == m0.len() {
                            assert(m0[a].0 == names_of(m0)[a]);
                        }
                    }
                }
            },
        }
        Ok(())
    }
}

proof fn lemma_lookup_at(m: Seq<(Seq<char>, YarnValue)>, i: int)
    requires
        names_of(m).no_duplicates(),
        0 <= i < m.len(),
    ensures
        lookup(m, m[i].0) == Some(m[i].1),
    decreases m.len(),
{
    if i < m.len() - 1 {
        assert(names_of(m)[i] != names_of(m)[m.len() - 1]);
        let d = m.drop_last();
        assert(names_of(d) =~= names_of(m).drop_last());
        assert(d[i] == m[i]);
        lemma_lookup_at(d, i);
    }
}

proof fn lemma_lookup_absent(m: Seq<(Seq<char>, YarnValue)>, name: Seq<char>)
    requires
        forall|i: int| 0 <= i < m.len() ==> (#[trigger] m[i]).0 != name,
    ensures
        lookup(m, name) is None,
    decreases m.len(),
{
    if m.len() > 0 {
        let d = m.drop_last();
        assert forall|i: int| 0 <= i < d.len() implies (#[trigger] d[i]).0 != name by {
            assert(d[i] == m[i]);
        }
        lemma_lookup_absent(d, name);
    }
}

proof fn lemma_lookup_update(m: Seq<(Seq<char>, YarnValue)>, i: int, v: YarnValue, other: Seq<char>)
    requires
        0 <= i < m.len(),
        other != m[i].0,
    ensures
        lookup(m.update(i, (m[i].0, v)), other) == lookup(m, other),
    decreases m.len(),
{
    let u = m.update(i, (m[i].0, v));
    if i < m.len() - 1 {
        assert(u.drop_last() =~= m.drop_last().update(i, (m[i].0, v)));
        lemma_lookup_update(m.drop_last(), i, v, other);
    } else {
        assert(u.drop_last() =~= m.drop_last());
    }
}

} // verus!
