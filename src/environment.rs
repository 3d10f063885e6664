use vstd::prelude::*;
use crate::values::VariableValue;

verus! {

/// The map that a list of bindings denotes; a later binding of a name hides
/// an earlier one.
pub open spec fn bindings(s: Seq<(String, VariableValue)>) -> Map<Seq<char>, VariableValue>
    decreases s.len(),
{
    if s.len() == 0 {
        Map::empty()
    } else {
        bindings(s.drop_last()).insert(s.last().0@, s.last().1)
    }
}

pub open spec fn distinct_names(s: Seq<(String, VariableValue)>) -> bool {
    forall|i: int, j: int| 0 <= i < j < s.len() ==> s[i].0@ != s[j].0@
}

proof fn lemma_bindings_at(s: Seq<(String, VariableValue)>, i: int)
    requires
        distinct_names(s),
        0 <= i < s.len(),
    ensures
        bindings(s).contains_key(s[i].0@),
        bindings(s)[s[i].0@] == s[i].1,
    decreases s.len(),
{
    if i < s.len() - 1 {
        let d = s.drop_last();
        assert(d[i] == s[i]);
        assert(s[i].0@ != s[s.len() - 1].0@);
        lemma_bindings_at(d, i);
    }
}

proof fn lemma_bindings_absent(s: Seq<(String, VariableValue)>, k: Seq<char>)
    requires
        forall|i: int| 0 <= i < s.len() ==> s[i].0@ != k,
    ensures
        !bindings(s).contains_key(k),
    decreases s.len(),
{
    if s.len() > 0 {
        let d = s.drop_last();
        assert forall|i: int| 0 <= i < d.len() implies d[i].0@ != k by {
            assert(d[i] == s[i]);
        }
        lemma_bindings_absent(d, k);
    }
}

proof fn lemma_bindings_update(s: Seq<(String, VariableValue)>, i: int, e: (String, VariableValue))
    requires
        distinct_names(s),
        0 <= i < s.len(),
        s[i].0@ == e.0@,
    ensures
        bindings(s.update(i, e)) == bindings(s).insert(e.0@, e.1),
    decreases s.len(),
{
    let u = s.update(i, e);
    let d = s.drop_last();
    if i == s.len() - 1 {
        assert(u.drop_last() =~= d);
        assert(bindings(u) =~= bindings(s).insert(e.0@, e.1));
    } else {
        assert(u.drop_last() =~= d.update(i, e));
        assert(s[i].0@ != s[s.len() - 1].0@);
        lemma_bindings_update(d, i, e);
        assert(bindings(u) =~= bindings(s).insert(e.0@, e.1));
    }
}

/// The variables of one evaluator: one flat namespace.
pub struct Variables {
    entries: Vec<(String, VariableValue)>,
}

impl Variables {
    /// The current binding of each name.
    pub closed spec fn view(&self) -> Map<Seq<char>, VariableValue> {
        bindings(self.entries@)
    }

    pub closed spec fn wf(&self) -> bool {
        distinct_names(self.entries@)
    }

    pub fn new() -> (r: Variables)
        ensures
            r.wf(),
            r.view() == Map::<Seq<char>, VariableValue>::empty(),
    {
        Variables { entries: Vec::new() }
    }

    /// The value bound to `name`, if any.
    pub fn get(&self, name: &String) -> (r: Option<&VariableValue>)
        requires
            self.wf(),
        ensures
            match r {
                Some(v) => self.view().contains_key(name@) && self.view()[name@] == *v,
                None => !self.view().contains_key(name@),
            },
    {
        let mut i: usize = 0;
        while i < self.entries.len()
            invariant
                i <= self.entries@.len(),
                distinct_names(self.entries@),
                forall|j: int| 0 <= j < i ==> self.entries@[j].0@ != name@,
            decreases self.entries@.len() - i,
        {
            if self.entries[i].0 == *name {
                proof {
                    lemma_bindings_at(self.entries@, i as int);
                }
                return Some(&self.entries[i].1);
            }
            i = i + 1;
        }
        proof {
            lemma_bindings_absent(self.entries@, name@);
        }
        None
    }

    /// Binds `name` to `value`, replacing any earlier binding of any type.
    pub fn set(&mut self, name: String, value: VariableValue)
        requires
            old(self).wf(),
        ensures
            final(self).wf(),
            final(self).view() == old(self).view().insert(name@, value),
    {
        let mut i: usize = 0;
        while i < self.entries.len()
            invariant
                i <= self.entries@.len(),
                self.entries@ == old(self).entries@,
                distinct_names(self.entries@),
                forall|j: int| 0 <= j < i ==> self.entries@[j].0@ != name@,
            decreases self.entries@.len() - i,
        {
            if self.entries[i].0 == name {
                proof {
                    lemma_bindings_update(self.entries@, i as int, (name, value));
                }
                let ghost before = self.entries@;
                self.entries.set(i, (name, value));
                assert(forall|j: int| 0 <= j < self.entries@.len() ==> #[trigger] self.entries@[j].0@
                    == before[j].0@);
                return;
            }
            i = i + 1;
        }
        let ghost before = self.entries@;
        self.entries.push((name, value));
        proof {
            assert(self.entries@.drop_last() =~= before);
        }
    }
}

} // verus!
