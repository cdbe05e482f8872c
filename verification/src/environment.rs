//! The variables of a session: one global mapping from names to values.

use vstd::prelude::*;
use crate::value::{Value, ValueView};

verus! {

/// A name with the value bound to it.
#[derive(Debug)]
pub struct Binding {
    pub name: String,
    pub value: Value,
}

/// The map that a sequence of bindings stands for; a later binding of a name
/// overrides an earlier one.
pub open spec fn bindings_map(bindings: Seq<Binding>) -> Map<Seq<char>, ValueView>
    decreases bindings.len(),
{
    if bindings.len() == 0 {
        Map::empty()
    } else {
        bindings_map(bindings.drop_last()).insert(bindings.last().name@, bindings.last().value@)
    }
}

/// No name is bound twice.
pub open spec fn distinct_names(bindings: Seq<Binding>) -> bool {
    forall|i: int, j: int|
        0 <= i < j < bindings.len() ==> (#[trigger] bindings[i]).name@ != (#[trigger] bindings[j]).name@
}

proof fn lemma_unbound(bindings: Seq<Binding>, name: Seq<char>)
    requires
        forall|i: int| 0 <= i < bindings.len() ==> (#[trigger] bindings[i]).name@ != name,
    ensures
        !bindings_map(bindings).contains_key(name),
    decreases bindings.len(),
{
    if bindings.len() > 0 {
        lemma_unbound(bindings.drop_last(), name);
    }
}

proof fn lemma_bound(bindings: Seq<Binding>, at: int)
    requires
        distinct_names(bindings),
        0 <= at < bindings.len(),
    ensures
        bindings_map(bindings).contains_key(bindings[at].name@),
        bindings_map(bindings)[bindings[at].name@] == bindings[at].value@,
    decreases bindings.len(),
{
    if at < bindings.len() - 1 {
        lemma_bound(bindings.drop_last(), at);
    }
}

proof fn lemma_rebound(bindings: Seq<Binding>, at: int, binding: Binding)
    requires
        distinct_names(bindings),
        0 <= at < bindings.len(),
        binding.name@ == bindings[at].name@,
    ensures
        distinct_names(bindings.update(at, binding)),
        bindings_map(bindings.update(at, binding)) == bindings_map(bindings).insert(
            binding.name@,
            binding.value@,
        ),
    decreases bindings.len(),
{
    let updated = bindings.update(at, binding);
    if at == bindings.len() - 1 {
        assert(updated.drop_last() =~= bindings.drop_last());
        assert(bindings_map(updated) =~= bindings_map(bindings).insert(binding.name@, binding.value@));
    } else {
        lemma_rebound(bindings.drop_last(), at, binding);
        assert(updated.drop_last() =~= bindings.drop_last().update(at, binding));
        assert(bindings_map(updated) =~= bindings_map(bindings).insert(binding.name@, binding.value@));
    }
}

proof fn lemma_names_counted(bindings: Seq<Binding>)
    requires
        distinct_names(bindings),
    ensures
        bindings_map(bindings).dom().finite(),
        bindings_map(bindings).dom().len() == bindings.len(),
        forall|name: Seq<char>| #[trigger]
            bindings_map(bindings).contains_key(name) ==> exists|i: int|
                0 <= i < bindings.len() && (#[trigger] bindings[i]).name@ == name,
    decreases bindings.len(),
{
    if bindings.len() > 0 {
        let front = bindings.drop_last();
        let last = bindings.last();
        lemma_names_counted(front);
        if bindings_map(front).contains_key(last.name@) {
            let i = choose|i: int| 0 <= i < front.len() && (#[trigger] front[i]).name@ == last.name@;
            assert(bindings[i].name@ == bindings[bindings.len() - 1].name@);
        }
        assert forall|name: Seq<char>| #[trigger]
            bindings_map(bindings).contains_key(name) implies exists|i: int|
            0 <= i < bindings.len() && (#[trigger] bindings[i]).name@ == name by {
            if name == last.name@ {
                assert(bindings[bindings.len() - 1].name@ == name);
            } else {
                let i = choose|i: int| 0 <= i < front.len() && (#[trigger] front[i]).name@ == name;
                assert(bindings[i].name@ == name);
            }
        }
    }
}

/// The variables: a map from names to values.
#[derive(Debug)]
pub struct Environment {
    bindings: Vec<Binding>,
}

impl View for Environment {
    type V = Map<Seq<char>, ValueView>;

    closed spec fn view(&self) -> Map<Seq<char>, ValueView> {
        bindings_map(self.bindings@)
    }
}

impl Environment {
    /// No name is bound twice.
    pub closed spec fn wf(&self) -> bool {
        distinct_names(self.bindings@)
    }

    /// No variables.
    pub fn new() -> (env: Environment)
        ensures
            env.wf(),
            env@ == Map::<Seq<char>, ValueView>::empty(),
    {
        Environment { bindings: Vec::new() }
    }

    /// The number of variables.
    pub fn len(&self) -> (n: usize)
        requires
            self.wf(),
        ensures
            self@.dom().finite(),
            n == self@.dom().len(),
    {
        proof {
            lemma_names_counted(self.bindings@);
        }
        self.bindings.len()
    }

    fn find(&self, name: &str) -> (r: Option<usize>)
        requires
            self.wf(),
        ensures
            match r {
                Some(i) => i < self.bindings@.len() && self.bindings@[i as int].name@ == name@,
                None => forall|i: int|
                    0 <= i < self.bindings@.len() ==> (#[trigger] self.bindings@[i]).name@ != name@,
            },
    {
        let wanted = name.to_owned();
        let mut i: usize = 0;
        while i < self.bindings.len()
            invariant
                i <= self.bindings@.len(),
                wanted@ == name@,
                forall|k: int| 0 <= k < i ==> (#[trigger] self.bindings@[k]).name@ != name@,
            decreases self.bindings.len() - i,
        {
            if self.bindings[i].name == wanted {
                return Some(i);
            }
            i = i + 1;
        }
        None
    }

    /// The value of the variable `name`, if it has one.
    pub fn get(&self, name: &str) -> (r: Option<&Value>)
        requires
            self.wf(),
        ensures
            match r {
                Some(v) => self@.contains_key(name@) && self@[name@] == v@,
                None => !self@.contains_key(name@),
            },
    {
        match self.find(name) {
            Some(i) => {
                proof {
                    lemma_bound(self.bindings@, i as int);
                }
                Some(&self.bindings[i].value)
            },
            None => {
                proof {
                    lemma_unbound(self.bindings@, name@);
                }
                None
            },
        }
    }

    /// Whether the variable `name` has a value.
    pub fn contains(&self, name: &str) -> (r: bool)
        requires
            self.wf(),
        ensures
            r == self@.contains_key(name@),
    {
        self.get(name).is_some()
    }

    /// Binds `name` to `value`, whether or not it was bound before.
    pub fn set(&mut self, name: String, value: Value)
        requires
            old(self).wf(),
        ensures
            final(self).wf(),
            final(self)@ == old(self)@.insert(name@, value@),
    {
        match self.find(name.as_str()) {
            Some(i) => {
                let binding = Binding { name, value };
                proof {
                    lemma_rebound(self.bindings@, i as int, binding);
                }
                self.bindings.set(i, binding);
            },
            None => {
                let ghost before = self.bindings@;
                self.bindings.push(Binding { name, value });
                assert(self.bindings@.drop_last() =~= before);
            },
        }
    }
}

} // verus!
