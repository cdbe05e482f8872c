//! The program store: the lines of a program by their numbers. The lines run
//! in the ascending order of their numbers.

use std::collections::HashMap;
use vstd::prelude::*;
use vstd::std_specs::hash::spec_keys_iter;
use vstd::std_specs::iter::IteratorSpec;
use crate::ast::{node_views, AstNode, AstView};

verus! {

broadcast use vstd::std_specs::hash::group_hash_axioms;

/// The lines of a program in mathematical types: the statements of each
/// line, by its number.
pub type Lines = Map<u32, Seq<AstView>>;

/// The statements of the line with the given number.
pub open spec fn statements_of(lines: Lines, number: u32) -> Option<Seq<AstView>> {
    if lines.contains_key(number) {
        Some(lines[number])
    } else {
        None
    }
}

/// The smallest number of a line that is `bound` or more.
pub open spec fn first_from(lines: Lines, bound: int) -> Option<u32>
    decreases u32::MAX + 1 - bound,
{
    if bound < 0 || bound > u32::MAX {
        None
    } else if lines.contains_key(bound as u32) {
        Some(bound as u32)
    } else {
        first_from(lines, bound + 1)
    }
}

/// The number of the first line.
pub open spec fn first_line(lines: Lines) -> Option<u32> {
    first_from(lines, 0)
}

/// The number of the first line whose number is above `number`.
pub open spec fn line_after(lines: Lines, number: u32) -> Option<u32> {
    first_from(lines, number + 1)
}

/// The lines with a line among them, in the place of the line of the same
/// number if there is one.
pub open spec fn inserted(lines: Lines, number: u32, statements: Seq<AstView>) -> Lines {
    lines.insert(number, statements)
}

/// The first line from a bound on is a line, is at the bound or above it,
/// and no line lies between the bound and it; where there is none, no line
/// is at the bound or above it.
pub proof fn lemma_first_from(lines: Lines, bound: int)
    requires
        0 <= bound,
    ensures
        match first_from(lines, bound) {
            Some(first) => {
                &&& lines.contains_key(first)
                &&& bound <= first
                &&& forall|n: u32| lines.contains_key(n) && bound <= n ==> first <= n
            },
            None => forall|n: u32| lines.contains_key(n) ==> n < bound,
        },
    decreases u32::MAX + 1 - bound,
{
    if bound <= u32::MAX && !lines.contains_key(bound as u32) {
        lemma_first_from(lines, bound + 1);
    }
}

/// A line at the bound or above it, with no line between the bound and it,
/// is the first line from the bound on.
pub proof fn lemma_first_is(lines: Lines, bound: int, first: u32)
    requires
        0 <= bound <= first,
        lines.contains_key(first),
        forall|n: u32| lines.contains_key(n) && bound <= n ==> first <= n,
    ensures
        first_from(lines, bound) == Some(first),
{
    lemma_first_from(lines, bound);
}

/// The lines of a program.
#[derive(Debug)]
pub struct Program {
    lines: HashMap<u32, Vec<AstNode>>,
}

impl View for Program {
    type V = Lines;

    closed spec fn view(&self) -> Lines {
        self.lines@.map_values(|statements: Vec<AstNode>| node_views(statements@))
    }
}

impl Program {
    /// A program without lines.
    pub fn new() -> (program: Program)
        ensures
            program@ == Map::<u32, Seq<AstView>>::empty(),
    {
        let program = Program { lines: HashMap::new() };
        assert(program@ =~= Map::<u32, Seq<AstView>>::empty());
        program
    }

    /// The number of lines.
    pub fn len(&self) -> (n: usize)
        ensures
            self@.dom().finite(),
            n == self@.dom().len(),
    {
        assert(self@.dom() =~= self.lines@.dom());
        self.lines.len()
    }

    /// The statements of the line with the given number.
    pub fn statements(&self, number: u32) -> (r: Option<&Vec<AstNode>>)
        ensures
            match r {
                Some(list) => statements_of(self@, number) == Some(node_views(list@)),
                None => statements_of(self@, number) is None,
            },
    {
        self.lines.get(&number)
    }

    /// Whether the program holds a line with the given number.
    pub fn contains(&self, number: u32) -> (r: bool)
        ensures
            r == (statements_of(self@, number) is Some),
    {
        self.lines.contains_key(&number)
    }

    /// The smallest number of a line that is `bound` or more.
    fn least_from(&self, bound: u32) -> (r: Option<u32>)
        ensures
            r == first_from(self@, bound as int),
    {
        let mut best: Option<u32> = None;
        let ghost all = spec_keys_iter(&self.lines).remaining().unref();
        let ghost mut seen: int = 0;
        for k in it: self.lines.keys()
            invariant
                it.seq().unref() == all,
                all.to_set() == self.lines@.dom(),
                seen == it.index(),
                0 <= seen <= all.len(),
                match best {
                    Some(b) => bound <= b && self.lines@.contains_key(b),
                    None => true,
                },
                forall|i: int|
                    0 <= i < seen && bound <= (#[trigger] all[i]) ==> best is Some && best->Some_0
                        <= all[i],
        {
            proof {
                assert(all[seen] == *k);
                assert(all.to_set().contains(*k));
            }
            let better: bool = *k >= bound && match best {
                Some(b) => *k < b,
                None => true,
            };
            if better {
                best = Some(*k);
            }
            proof {
                seen = seen + 1;
            }
        }
        proof {
            assert(seen == all.len());
            assert forall|n: u32| self.lines@.contains_key(n) && bound <= n implies best is Some
                && best->Some_0 <= n by {
                assert(all.to_set().contains(n));
                let i = choose|i: int| 0 <= i < all.len() && all[i] == n;
                assert(all[i] == n);
            }
        }
        proof {
            assert(self@.dom() =~= self.lines@.dom());
            lemma_first_from(self@, bound as int);
            match best {
                Some(b) => {
                    lemma_first_is(self@, bound as int, b);
                },
                None => {},
            }
        }
        best
    }

    /// The number of the first line.
    pub fn first(&self) -> (r: Option<u32>)
        ensures
            r == first_line(self@),
    {
        self.least_from(0)
    }

    /// The number of the first line behind the line `number`.
    pub fn after(&self, number: u32) -> (r: Option<u32>)
        ensures
            r == line_after(self@, number),
    {
        if number == u32::MAX {
            return None;
        }
        self.least_from(number + 1)
    }

    /// Stores a line, in the place of the line of the same number if there
    /// is one.
    pub fn insert(&mut self, number: u32, statements: Vec<AstNode>)
        ensures
            final(self)@ == inserted(old(self)@, number, node_views(statements@)),
    {
        let ghost view = node_views(statements@);
        self.lines.insert(number, statements);
        assert(self@ =~= inserted(old(self)@, number, view));
    }
}

} // verus!
