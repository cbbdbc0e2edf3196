//! How far a run can go before its counters run out of numbers.

use crate::ast::name::QualifiedText;
use crate::supply::Supply;
use crate::table::Table;
use crate::typechecker::env::{Env, EnvConstructor, EnvValue, Scope};
use crate::typechecker::fresh_run;
use crate::typechecker::pre_ast::{Argument, Expression};
use crate::typechecker::scheme::Scheme;
use crate::typechecker::state::{counts, Counts, Run, State};
use crate::table::Key;
use vstd::prelude::*;

verus! {

/// No more than inferring `e` can add to the supply's count or to the count
/// of a name's references, where no scheme in scope has more than `q`
/// variables that stand for any type.
pub open spec fn cost(e: Expression, q: nat) -> nat
    decreases e, 0nat,
{
    match e {
        Expression::Array { elements, .. } => 1 + cost_of_elements(elements, 0, q),
        Expression::Variable { .. } => q + 1,
        Expression::Constructor { .. } => q + 1,
        Expression::If { condition, true_clause, false_clause, .. } => cost(*condition, q) + cost(
            *true_clause,
            q,
        ) + cost(*false_clause, q),
        Expression::Call { function, arguments, .. } => cost(*function, q) + cost_of_arguments(
            arguments,
            0,
            q,
        ) + 1,
        Expression::Function { binders, body, .. } => binders@.len() + cost(*body, q),
        _ => 0,
    }
}

/// The cost of the elements from the `i`th on.
pub open spec fn cost_of_elements(elements: Vec<Expression>, i: nat, q: nat) -> nat
    decreases elements, elements@.len() - i,
{
    if i >= elements@.len() {
        0
    } else {
        cost(elements@[i as int], q) + cost_of_elements(elements, i + 1, q)
    }
}

/// The cost of the arguments from the `i`th on.
pub open spec fn cost_of_arguments(arguments: Vec<Argument>, i: nat, q: nat) -> nat
    decreases arguments, arguments@.len() - i,
{
    if i >= arguments@.len() {
        0
    } else {
        cost(arguments@[i as int]->0, q) + cost_of_arguments(arguments, i + 1, q)
    }
}

/// No name has more than `m` references.
pub open spec fn counts_within(counts: Counts, m: nat) -> bool {
    forall|name: QualifiedText| #[trigger] counts.contains_key(name) ==> counts[name] <= m
}

impl Run {
    /// No value and no constructor has more than `m` references.
    pub open spec fn counts_within(self, m: nat) -> bool {
        counts_within(self.value_references, m) && counts_within(self.constructor_references, m)
    }
}

/// With at most `q` variables to a scheme in scope and at most `m`
/// references to a name so far, inferring `e` stays within the numbers of
/// the machine.
pub open spec fn room(env: Scope, run: Run, e: Expression, q: nat, m: nat) -> bool {
    &&& env.quantified_within(q)
    &&& run.counts_within(m)
    &&& run.supply + cost(e, q) <= usize::MAX
    &&& m + cost(e, q) <= usize::MAX
}

/// Inferring `e` stays within the numbers of the machine: the supply's count
/// and the counts of references can grow by what `e` may add to them.
pub open spec fn has_room(env: Scope, run: Run, e: Expression) -> bool {
    exists|q: nat, m: nat| room(env, run, e, q, m)
}

/// The cost grows with the number of variables that a scheme may have.
pub proof fn lemma_cost_grows(e: Expression, q: nat, r: nat)
    requires
        q <= r,
    ensures
        cost(e, q) <= cost(e, r),
    decreases e, 0nat,
{
    match e {
        Expression::Array { elements, .. } => {
            lemma_cost_of_elements_grows(elements, 0, q, r);
        },
        Expression::If { condition, true_clause, false_clause, .. } => {
            lemma_cost_grows(*condition, q, r);
            lemma_cost_grows(*true_clause, q, r);
            lemma_cost_grows(*false_clause, q, r);
        },
        Expression::Call { function, arguments, .. } => {
            lemma_cost_grows(*function, q, r);
            lemma_cost_of_arguments_grows(arguments, 0, q, r);
        },
        Expression::Function { body, .. } => {
            lemma_cost_grows(*body, q, r);
        },
        _ => {},
    }
}

/// See [`lemma_cost_grows`].
pub proof fn lemma_cost_of_elements_grows(elements: Vec<Expression>, i: nat, q: nat, r: nat)
    requires
        q <= r,
    ensures
        cost_of_elements(elements, i, q) <= cost_of_elements(elements, i, r),
    decreases elements, elements@.len() - i,
{
    if i < elements@.len() {
        lemma_cost_grows(elements@[i as int], q, r);
        lemma_cost_of_elements_grows(elements, i + 1, q, r);
    }
}

/// See [`lemma_cost_grows`].
pub proof fn lemma_cost_of_arguments_grows(arguments: Vec<Argument>, i: nat, q: nat, r: nat)
    requires
        q <= r,
    ensures
        cost_of_arguments(arguments, i, q) <= cost_of_arguments(arguments, i, r),
    decreases arguments, arguments@.len() - i,
{
    if i < arguments@.len() {
        lemma_cost_grows(arguments@[i as int]->0, q, r);
        lemma_cost_of_arguments_grows(arguments, i + 1, q, r);
    }
}

/// The scheme of a value in scope.
fn value_scheme(value: &EnvValue) -> (scheme: &Scheme)
    ensures
        scheme@ == value@.scheme(),
{
    match value {
        EnvValue::ModuleValue { variable_scheme, .. } => variable_scheme,
        EnvValue::ForeignVariable { variable_scheme, .. } => variable_scheme,
        EnvValue::ImportedVariable { variable_scheme, .. } => variable_scheme,
    }
}

/// The scheme of a constructor in scope.
fn constructor_scheme(constructor: &EnvConstructor) -> (scheme: &Scheme)
    ensures
        scheme@ == constructor@.scheme(),
{
    match constructor {
        EnvConstructor::ModuleConstructor { constructor_scheme, .. } => constructor_scheme,
        EnvConstructor::ImportedConstructor { constructor_scheme, .. } => constructor_scheme,
    }
}

/// The most variables that a scheme in scope has: the least `q` that no
/// scheme in scope goes beyond.
pub fn widest_scheme(env: &Env) -> (q: usize)
    requires
        env.wf(),
    ensures
        env@.quantified_within(q as nat),
        forall|r: nat| #[trigger] env@.quantified_within(r) ==> q <= r,
{
    let mut q: usize = 0;
    let values = env.values.len();
    let mut i: usize = 0;
    while i < values
        invariant
            i <= values,
            values == env.values.entries().len(),
            forall|j: int|
                0 <= j < i ==> (#[trigger] env.values.entries()[j]).1@.scheme().forall.len() <= q,
            q == 0 || exists|j: int|
                0 <= j < i && (#[trigger] env.values.entries()[j]).1@.scheme().forall.len() == q,
        decreases values - i,
    {
        let width = value_scheme(env.values.value_at(i)).forall.len();
        if width > q {
            q = width;
        }
        i += 1;
    }
    let among_values = q;
    let constructors = env.constructors.len();
    let mut i: usize = 0;
    while i < constructors
        invariant
            i <= constructors,
            constructors == env.constructors.entries().len(),
            among_values <= q,
            forall|j: int|
                0 <= j < i ==> (#[trigger] env.constructors.entries()[j]).1@.scheme().forall.len()
                    <= q,
            q == among_values || exists|j: int|
                0 <= j < i && (#[trigger] env.constructors.entries()[j]).1@.scheme().forall.len()
                    == q,
        decreases constructors - i,
    {
        let width = constructor_scheme(env.constructors.value_at(i)).forall.len();
        if width > q {
            q = width;
        }
        i += 1;
    }
    proof {
        env.values.lemma_entries();
        env.constructors.lemma_entries();
        assert(env@.quantified_within(q as nat));
        assert forall|r: nat| #[trigger] env@.quantified_within(r) implies q <= r by {
            if q == among_values {
                if q != 0 {
                    let j = choose|j: int|
                        0 <= j < values && (#[trigger] env.values.entries()[j]).1@.scheme().forall.len()
                            == q;
                    assert(env@.values.contains_key(env.values.entries()[j].0@));
                }
            } else {
                let j = choose|j: int|
                    0 <= j < constructors && (
                    #[trigger] env.constructors.entries()[j]).1@.scheme().forall.len() == q;
                assert(env@.constructors.contains_key(env.constructors.entries()[j].0@));
            }
        }
    }
    q
}

/// The most references among the names of a table, and no less than
/// `floor`: the least such number that no count goes beyond.
fn most_counted<K: Key>(table: &Table<K, usize>, floor: usize) -> (m: usize)
    requires
        table.wf(),
    ensures
        floor <= m,
        forall|name: K::V| #[trigger] table@.contains_key(name) ==> table@[name] <= m,
        m == floor || exists|name: K::V| #[trigger] table@.contains_key(name) && table@[name] == m,
{
    let mut m: usize = floor;
    let n = table.len();
    let mut i: usize = 0;
    while i < n
        invariant
            i <= n,
            n == table.entries().len(),
            floor <= m,
            forall|j: int| 0 <= j < i ==> (#[trigger] table.entries()[j]).1 <= m,
            m == floor || exists|j: int| 0 <= j < i && (#[trigger] table.entries()[j]).1 == m,
        decreases n - i,
    {
        let count = *table.value_at(i);
        if count > m {
            m = count;
        }
        i += 1;
    }
    proof {
        table.lemma_entries();
        if m != floor {
            let j = choose|j: int| 0 <= j < n && (#[trigger] table.entries()[j]).1 == m;
            assert(table@.contains_key(table.entries()[j].0@));
        }
    }
    m
}

/// The most references that a name has in the state: the least `m` that no
/// count goes beyond.
pub fn most_referred(state: &State) -> (m: usize)
    requires
        state.wf(),
    ensures
        state@.counts_within(m as nat),
        forall|r: nat| #[trigger] state@.counts_within(r) ==> m <= r,
{
    let among_values = most_counted(&state.value_references, 0);
    let m = most_counted(&state.constructor_references, among_values);
    proof {
        assert forall|r: nat| #[trigger] state@.counts_within(r) implies m <= r by {
            if m != among_values {
                let name = choose|name| #[trigger]
                    state.constructor_references@.contains_key(name)
                        && state.constructor_references@[name] == m;
                assert(state@.constructor_references.contains_key(name));
            } else if m != 0 {
                let name = choose|name| #[trigger]
                    state.value_references@.contains_key(name) && state.value_references@[name]
                        == m;
                assert(state@.value_references.contains_key(name));
            }
        }
    }
    m
}

/// What is left of `room` when the cost of `e` is taken from it; nothing
/// where `e` costs more.
pub fn cost_within(e: &Expression, q: usize, room: usize) -> (left: Option<usize>)
    ensures
        match left {
            Some(left) => cost(*e, q as nat) + left == room,
            None => cost(*e, q as nat) > room,
        },
    decreases e,
{
    match e {
        Expression::Array { elements, .. } => {
            if room == 0 {
                return None;
            }
            let mut left: usize = room - 1;
            let mut i: usize = 0;
            while i < elements.len()
                invariant
                    i <= elements.len(),
                    decreases_to!(e => elements),
                    room >= 1,
                    cost(*e, q as nat) == 1 + cost_of_elements(*elements, 0, q as nat),
                    left + cost_of_elements(*elements, 0, q as nat) == room - 1 + cost_of_elements(
                        *elements,
                        i as nat,
                        q as nat,
                    ),
                decreases elements.len() - i,
            {
                assert(cost_of_elements(*elements, i as nat, q as nat) == cost(
                    elements@[i as int],
                    q as nat,
                ) + cost_of_elements(*elements, (i + 1) as nat, q as nat));
                match cost_within(&elements[i], q, left) {
                    Some(after) => {
                        left = after;
                    },
                    None => {
                        return None;
                    },
                }
                i += 1;
            }
            Some(left)
        },
        Expression::Variable { .. } | Expression::Constructor { .. } => {
            if q < room {
                Some(room - q - 1)
            } else {
                None
            }
        },
        Expression::If { condition, true_clause, false_clause, .. } => {
            match cost_within(condition, q, room) {
                Some(after_condition) => match cost_within(true_clause, q, after_condition) {
                    Some(after_true) => cost_within(false_clause, q, after_true),
                    None => None,
                },
                None => None,
            }
        },
        Expression::Call { function, arguments, .. } => {
            if room == 0 {
                return None;
            }
            let mut left: usize = match cost_within(function, q, room - 1) {
                Some(after) => after,
                None => {
                    return None;
                },
            };
            let ghost start = left;
            let mut i: usize = 0;
            while i < arguments.len()
                invariant
                    i <= arguments.len(),
                    decreases_to!(e => arguments),
                    cost(*e, q as nat) + start == room + cost_of_arguments(*arguments, 0, q as nat),
                    left + cost_of_arguments(*arguments, 0, q as nat) == start + cost_of_arguments(
                        *arguments,
                        i as nat,
                        q as nat,
                    ),
                decreases arguments.len() - i,
            {
                let Argument::Expression(argument) = &arguments[i];
                assert(cost_of_arguments(*arguments, i as nat, q as nat) == cost(
                    arguments@[i as int]->0,
                    q as nat,
                ) + cost_of_arguments(*arguments, (i + 1) as nat, q as nat));
                match cost_within(argument, q, left) {
                    Some(after) => {
                        left = after;
                    },
                    None => {
                        return None;
                    },
                }
                i += 1;
            }
            Some(left)
        },
        Expression::Function { binders, body, .. } => {
            if binders.len() <= room {
                cost_within(body, q, room - binders.len())
            } else {
                None
            }
        },
        _ => Some(room),
    }
}

/// Does inferring `e` stay within the numbers of the machine?
pub fn can_infer(env: &Env, state: &State, e: &Expression) -> (fits: bool)
    requires
        env.wf(),
        state.wf(),
    ensures
        fits == has_room(env@, state@, *e),
{
    let q = widest_scheme(env);
    let m = most_referred(state);
    let supply = state.supply.peek();
    let top = if supply >= m {
        supply
    } else {
        m
    };
    let left = cost_within(e, q, usize::MAX - top);
    proof {
        if left is Some {
            assert(room(env@, state@, *e, q as nat, m as nat));
        } else {
            assert forall|r: nat, n: nat| !room(env@, state@, *e, r, n) by {
                if env@.quantified_within(r) && state@.counts_within(n) {
                    lemma_cost_grows(*e, q as nat, r);
                }
            }
        }
    }
    left.is_some()
}

/// Does checking `e` as a whole expression, with fresh variables from
/// `supply` on, stay within the numbers of the machine?
pub fn can_typecheck(env: &Env, supply: Supply, e: &Expression) -> (fits: bool)
    requires
        env.wf(),
    ensures
        fits == has_room(env@, fresh_run(supply@), *e),
{
    let state = State::new(supply);
    can_infer(env, &state, e)
}

} // verus!
