use vstd::prelude::*;

verus! {

/// The values of the variables of a session, by name.
///
/// Each name occurs at most once among the entries.
pub struct State {
    variables: Vec<(String, i32)>,
}

/// The map that a list of entries stands for; a later entry wins.
pub open spec fn entries_map(entries: Seq<(String, i32)>) -> Map<Seq<char>, i32>
    decreases entries.len(),
{
    if entries.len() == 0 {
        Map::empty()
    } else {
        entries_map(entries.drop_last()).insert(entries.last().0@, entries.last().1)
    }
}

pub open spec fn keys_unique(entries: Seq<(String, i32)>) -> bool {
    forall|i: int, j: int|
        0 <= i < entries.len() && 0 <= j < entries.len() && i != j ==> #[trigger] entries[i].0@
            != #[trigger] entries[j].0@
}

proof fn lemma_entries_lookup(entries: Seq<(String, i32)>, i: int)
    requires
        keys_unique(entries),
        0 <= i < entries.len(),
    ensures
        entries_map(entries).contains_key(entries[i].0@),
        entries_map(entries)[entries[i].0@] == entries[i].1,
    decreases entries.len(),
{
    if i < entries.len() - 1 {
        lemma_entries_lookup(entries.drop_last(), i);
    }
}

proof fn lemma_entries_absent(entries: Seq<(String, i32)>, k: Seq<char>)
    requires
        forall|i: int| 0 <= i < entries.len() ==> (#[trigger] entries[i]).0@ != k,
    ensures
        !entries_map(entries).contains_key(k),
    decreases entries.len(),
{
    if entries.len() > 0 {
        let rest = entries.drop_last();
        assert forall|i: int| 0 <= i < rest.len() implies (#[trigger] rest[i]).0@ != k by {
            assert(rest[i] == entries[i]);
        }
        lemma_entries_absent(rest, k);
    }
}

proof fn lemma_entries_update(entries: Seq<(String, i32)>, i: int, e: (String, i32))
    requires
        keys_unique(entries),
        0 <= i < entries.len(),
        e.0@ == entries[i].0@,
    ensures
        entries_map(entries.update(i, e)) == entries_map(entries).insert(e.0@, e.1),
    decreases entries.len(),
{
    let updated = entries.update(i, e);
    if i == entries.len() - 1 {
        assert(updated.drop_last() =~= entries.drop_last());
    } else {
        assert(updated.drop_last() =~= entries.drop_last().update(i, e));
        lemma_entries_update(entries.drop_last(), i, e);
        assert(entries.last().0@ != e.0@);
        assert(entries_map(updated) =~= entries_map(entries).insert(e.0@, e.1));
    }
}

impl View for State {
    type V = Map<Seq<char>, i32>;

    closed spec fn view(&self) -> Map<Seq<char>, i32> {
        entries_map(self.variables@)
    }
}

impl State {
    /// Each name occurs at most once among the entries.
    pub closed spec fn wf(&self) -> bool {
        keys_unique(self.variables@)
    }

    /// A store in which no variable has a value.
    pub fn new() -> (r: State)
        ensures
            r.wf(),
            r@ == Map::<Seq<char>, i32>::empty(),
    {
        State { variables: Vec::new() }
    }

    /// Where `name` stands among the entries, if it is there.
    fn position(&self, name: &String) -> (r: Option<usize>)
        ensures
            match r {
                Some(i) => i < self.variables@.len() && self.variables@[i as int].0@ == name@,
                None => forall|i: int|
                    0 <= i < self.variables@.len() ==> (#[trigger] self.variables@[i]).0@
                        != name@,
            },
    {
        let mut i: usize = 0;
        while i < self.variables.len()
            invariant
                i <= self.variables@.len(),
                forall|j: int| 0 <= j < i ==> (#[trigger] self.variables@[j]).0@ != name@,
            decreases self.variables@.len() - i,
        {
            if self.variables[i].0 == *name {
                return Some(i);
            }
            i = i + 1;
        }
        None
    }

    /// The value of the variable `name`, if one was assigned.
    pub fn get(&self, name: &str) -> (r: Option<i32>)
        requires
            self.wf(),
        ensures
            r == (if self@.contains_key(name@) {
                Some(self@[name@])
            } else {
                None::<i32>
            }),
    {
        let key = name.to_owned();
        match self.position(&key) {
            Some(i) => {
                proof {
                    lemma_entries_lookup(self.variables@, i as int);
                }
                Some(self.variables[i].1)
            },
            None => {
                proof {
                    lemma_entries_absent(self.variables@, name@);
                }
                None
            },
        }
    }

    /// Gives the variable `name` the value `value`, replacing any earlier one.
    pub fn set(&mut self, name: String, value: i32)
        requires
            old(self).wf(),
        ensures
            final(self).wf(),
            final(self)@ == old(self)@.insert(name@, value),
    {
        match self.position(&name) {
            Some(i) => {
                proof {
                    lemma_entries_update(self.variables@, i as int, (name, value));
                }
                self.variables.set(i, (name, value));
            },
            None => {
                let ghost before = self.variables@;
                self.variables.push((name, value));
                proof {
                    assert(self.variables@.drop_last() =~= before);
                    assert forall|i: int, j: int|
                        0 <= i < self.variables@.len() && 0 <= j < self.variables@.len() && i
                            != j implies #[trigger] self.variables@[i].0@
                        != #[trigger] self.variables@[j].0@ by {
                        if i < before.len() && j < before.len() {
                            assert(before[i] == self.variables@[i]);
                            assert(before[j] == self.variables@[j]);
                        } else if i < before.len() {
                            assert(before[i] == self.variables@[i]);
                        } else {
                            assert(before[j] == self.variables@[j]);
                        }
                    }
                }
            },
        }
    }
}

} // verus!
