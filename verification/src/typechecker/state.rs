//! What one run of the checker keeps track of.

use crate::ast::name::{QualifiedName, QualifiedProperName, QualifiedText};

use crate::result::{Warning, Warnings};
use crate::supply::Supply;
use crate::table::Table;
use crate::typechecker::bindings::Bindings;
use crate::typechecker::substitution::Substitution;
use vstd::prelude::*;

verus! {

/// How often each value was referred to.
pub type ValueReferences = Table<QualifiedName, usize>;

/// How often each constructor was referred to.
pub type ConstructorReferences = Table<QualifiedProperName, usize>;

/// How often each type was referred to: counted where the expression is
/// read from the syntax tree, and handed on with the outcome of the check.
pub type TypeReferences = Table<QualifiedProperName, usize>;

/// How often each name was referred to, as a mathematical value.
pub type Counts = Map<QualifiedText, nat>;

/// The state of one run: owned by that run alone, and threaded through every
/// step of it.
#[derive(Debug)]
pub struct State {
    /// What type variables were found to stand for.
    pub substitution: Substitution,
    /// Where fresh type variables come from.
    pub supply: Supply,
    /// How often each value in scope was referred to.
    pub value_references: ValueReferences,
    /// How often each constructor was referred to.
    pub constructor_references: ConstructorReferences,
    /// The warnings so far.
    pub warnings: Warnings,
}

/// The state of a run as a mathematical value.
pub struct Run {
    pub bindings: Bindings,
    pub supply: nat,
    pub value_references: Counts,
    pub constructor_references: Counts,
    pub warnings: Seq<Warning>,
}

/// The counts of a table, as natural numbers.
pub open spec fn counts(table: Map<QualifiedText, usize>) -> Counts {
    Map::new(|name: QualifiedText| table.contains_key(name), |name: QualifiedText| table[name] as nat)
}

/// Counting a table with one more entry counts that entry too.
pub proof fn lemma_counts_insert(table: Map<QualifiedText, usize>, name: QualifiedText, count: usize)
    ensures
        counts(table.insert(name, count)) == counts(table).insert(name, count as nat),
{
    assert(counts(table.insert(name, count)) =~= counts(table).insert(name, count as nat));
}

/// Counting a table without an entry leaves that entry out.
pub proof fn lemma_counts_remove(table: Map<QualifiedText, usize>, name: QualifiedText)
    ensures
        counts(table.remove(name)) == counts(table).remove(name),
{
    assert(counts(table.remove(name)) =~= counts(table).remove(name));
}

/// Counting two tables, one laid over the other, lays the counts over each other.
pub proof fn lemma_counts_union(below: Map<QualifiedText, usize>, above: Map<QualifiedText, usize>)
    ensures
        counts(below.union_prefer_right(above)) == counts(below).union_prefer_right(counts(above)),
{
    assert(counts(below.union_prefer_right(above)) =~= counts(below).union_prefer_right(
        counts(above),
    ));
}

impl View for State {
    type V = Run;

    open spec fn view(&self) -> Run {
        Run {
            bindings: self.substitution@,
            supply: self.supply@,
            value_references: counts(self.value_references@),
            constructor_references: counts(self.constructor_references@),
            warnings: self.warnings@,
        }
    }
}

impl State {
    /// The substitution holds no cycle, and no name is counted twice.
    pub open spec fn wf(&self) -> bool {
        &&& self.substitution.wf()
        &&& self.value_references.wf()
        &&& self.constructor_references.wf()
    }

    /// A state that has seen nothing, with fresh variables from `supply` on.
    pub fn new(supply: Supply) -> (state: State)
        ensures
            state.wf(),
            state@ == (Run {
                bindings: Map::empty(),
                supply: supply@,
                value_references: Map::empty(),
                constructor_references: Map::empty(),
                warnings: Seq::empty(),
            }),
    {
        let state = State {
            substitution: Substitution::new(),
            supply,
            value_references: Table::new(),
            constructor_references: Table::new(),
            warnings: Vec::new(),
        };
        proof {
            assert(state@.value_references =~= Map::<QualifiedText, nat>::empty());
            assert(state@.constructor_references =~= Map::<QualifiedText, nat>::empty());
            assert(state@.warnings =~= Seq::<Warning>::empty());
        }
        state
    }
}

impl Default for State {
    fn default() -> (state: State)
        ensures
            state.wf(),
            state@ == (Run {
                bindings: Map::empty(),
                supply: 0,
                value_references: Map::empty(),
                constructor_references: Map::empty(),
                warnings: Seq::empty(),
            }),
    {
        State::new(Supply(0))
    }
}

} // verus!
