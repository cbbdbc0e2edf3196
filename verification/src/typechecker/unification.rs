//! Unification, as mathematics: which bindings make two types agree.
//!
//! The goals that are still to be met wait on a stack. The goal on top is
//! looked at with the bindings found so far applied to it. It is met as it
//! stands, or binds a variable, or falls apart into goals for its parts, or
//! cannot be met, which ends the work.

use crate::ast::types::{lemma_size_positive, lemma_vars_finite, size, size_of_all, vars, Ty};
use crate::result::Failure;
use crate::token::Span;
use crate::typechecker::bindings::{acyclic, apply, clean, lemma_apply_clean, lemma_apply_identity, lemma_bind_keeps_acyclic, lemma_element_of_all, lemma_vars_after_bind, Bindings};
use vstd::prelude::*;
use vstd::set_lib::lemma_len_subset;

verus! {

/// Two types that are to agree, and the error to report where they cannot:
/// that of the goal they are a part of, if they are a part of one.
pub struct Goal {
    pub expected: Ty,
    pub actual: Ty,
    pub blame: Option<Failure>,
}

/// The bindings that unification ended with, and whether it met its goal.
pub struct Unified {
    pub bindings: Bindings,
    pub outcome: Result<(), Failure>,
}

/// What one look at a goal finds.
pub enum Step {
    /// The two types agree as they stand.
    Same,
    /// One of the two is an anonymous variable, which takes the other as its value.
    Bind { var: nat, to: Ty },
    /// The two are of one shape, and agree where their parts do.
    Split { pairs: Seq<(Ty, Ty)> },
    /// The two cannot agree.
    Clash,
}

pub open spec fn smaller(a: nat, b: nat) -> nat {
    if a <= b {
        a
    } else {
        b
    }
}

/// The first `n` types of `a`, each with the type of `b` at its place.
pub open spec fn pairs_upto(a: Seq<Ty>, b: Seq<Ty>, n: nat) -> Seq<(Ty, Ty)>
    decreases n,
{
    if n == 0 {
        Seq::empty()
    } else {
        pairs_upto(a, b, (n - 1) as nat).push((a[n - 1], b[n - 1]))
    }
}

/// The types of `a`, each with the type of `b` at its place, as far as the
/// shorter of the two goes.
pub open spec fn zip(a: Seq<Ty>, b: Seq<Ty>) -> Seq<(Ty, Ty)> {
    pairs_upto(a, b, smaller(a.len(), b.len()))
}

/// What a look at two types finds, neither of which holds a bound variable.
///
/// A variable with a source name agrees only with a variable of the same
/// name, or with an anonymous variable.
pub open spec fn step(expected: Ty, actual: Ty) -> Step {
    if expected is Variable && actual is Variable && expected->source_name is Some
        && actual->source_name is Some && expected->source_name == actual->source_name {
        Step::Same
    } else if expected is Variable && expected->source_name is None {
        Step::Bind { var: expected->var, to: actual }
    } else if actual is Variable && actual->source_name is None {
        Step::Bind { var: actual->var, to: expected }
    } else if expected is Constructor && actual is Constructor && expected->canonical_value
        == actual->canonical_value {
        Step::Same
    } else if expected is PrimConstructor && actual is PrimConstructor && expected->0 == actual->0 {
        Step::Same
    } else if expected is Call && actual is Call {
        Step::Split {
            pairs: seq![(*expected->function, *actual->function)] + zip(
                expected->arguments,
                actual->arguments,
            ),
        }
    } else if expected is Function && actual is Function {
        Step::Split {
            pairs: zip(expected->parameters, actual->parameters).push(
                (*expected->return_type, *actual->return_type),
            ),
        }
    } else {
        Step::Clash
    }
}

/// The goals for `pairs` as they go onto the stack: the first pair on top.
pub open spec fn stacked(pairs: Seq<(Ty, Ty)>, blame: Option<Failure>) -> Seq<Goal> {
    Seq::new(
        pairs.len(),
        |i: int|
            Goal {
                expected: pairs[pairs.len() - 1 - i].0,
                actual: pairs[pairs.len() - 1 - i].1,
                blame,
            },
    )
}

/// The variables that are left in the goals once the bindings are applied.
pub open spec fn goal_vars(s: Bindings, goals: Seq<Goal>) -> Set<nat>
    decreases goals.len(),
{
    if goals.len() == 0 {
        Set::empty()
    } else {
        goal_vars(s, goals.drop_last()).union(vars(apply(s, goals.last().expected))).union(
            vars(apply(s, goals.last().actual)),
        )
    }
}

/// The number of nodes of the goals once the bindings are applied.
pub open spec fn goal_size(s: Bindings, goals: Seq<Goal>) -> nat
    decreases goals.len(),
{
    if goals.len() == 0 {
        0
    } else {
        goal_size(s, goals.drop_last()) + size(apply(s, goals.last().expected)) + size(
            apply(s, goals.last().actual),
        )
    }
}

/// The error for two types that cannot agree: the one their goal was given,
/// or else that the two are not equal.
pub open spec fn blame_for(goal: Goal, span: Span, expected: Ty, actual: Ty) -> Failure {
    match goal.blame {
        Some(blame) => blame,
        None => Failure::TypesNotEqual { span, expected, actual },
    }
}

/// Meet the goals on the stack, the top one first, starting from the bindings `s`.
///
/// Binding a variable to a type in which it occurs is refused. Goals for the
/// parts of a goal report their failure as the failure of the whole.
pub open spec fn solve(s: Bindings, span: Span, goals: Seq<Goal>) -> Unified
    decreases goal_vars(s, goals).len(), goal_size(s, goals),
    when acyclic(s)
{
    if goals.len() == 0 {
        Unified { bindings: s, outcome: Ok(()) }
    } else {
        let goal = goals.last();
        let rest = goals.drop_last();
        let expected = apply(s, goal.expected);
        let actual = apply(s, goal.actual);
        let blame = blame_for(goal, span, expected, actual);
        match step(expected, actual) {
            Step::Same => {
                proof {
                    lemma_rest_is_less(s, goals);
                }
                solve(s, span, rest)
            },
            Step::Bind { var, to } => {
                if to is Variable && to->var == var {
                    proof {
                        lemma_rest_is_less(s, goals);
                    }
                    solve(s, span, rest)
                } else if vars(to).contains(var) {
                    Unified {
                        bindings: s,
                        outcome: Err(Failure::InfiniteType { span, var, infinite_type: to }),
                    }
                } else {
                    proof {
                        lemma_bound_is_less(s, goals);
                    }
                    solve(s.insert(var, to), span, rest)
                }
            },
            Step::Split { pairs } => {
                proof {
                    lemma_split_is_less(s, goals, Some(blame));
                }
                solve(s, span, rest + stacked(pairs, Some(blame)))
            },
            Step::Clash => Unified { bindings: s, outcome: Err(blame) },
        }
    }
}

/// A goal's variables are among those of the goals it belongs to.
pub proof fn lemma_goal_vars(s: Bindings, goals: Seq<Goal>, v: nat)
    ensures
        goal_vars(s, goals).contains(v) <==> exists|i: int|
            0 <= i < goals.len() && (vars(apply(s, (#[trigger] goals[i]).expected)).contains(v)
                || vars(apply(s, goals[i].actual)).contains(v)),
    decreases goals.len(),
{
    if goals.len() > 0 {
        let front = goals.drop_last();
        lemma_goal_vars(s, front, v);
        if goal_vars(s, goals).contains(v) {
            if goal_vars(s, front).contains(v) {
                let i = choose|i: int|
                    0 <= i < front.len() && (vars(apply(s, (#[trigger] front[i]).expected)).contains(
                        v,
                    ) || vars(apply(s, front[i].actual)).contains(v));
                assert(front[i] == goals[i]);
            } else {
                let i = goals.len() - 1;
                assert(vars(apply(s, goals[i].expected)).contains(v) || vars(
                    apply(s, goals[i].actual),
                ).contains(v));
            }
        }
        if exists|i: int|
            0 <= i < goals.len() && (vars(apply(s, (#[trigger] goals[i]).expected)).contains(v)
                || vars(apply(s, goals[i].actual)).contains(v)) {
            let i = choose|i: int|
                0 <= i < goals.len() && (vars(apply(s, (#[trigger] goals[i]).expected)).contains(v)
                    || vars(apply(s, goals[i].actual)).contains(v));
            if i < front.len() {
                assert(front[i] == goals[i]);
            }
        }
    }
}

/// Goals have finitely many variables.
pub proof fn lemma_goal_vars_finite(s: Bindings, goals: Seq<Goal>)
    ensures
        goal_vars(s, goals).finite(),
    decreases goals.len(),
{
    if goals.len() > 0 {
        lemma_goal_vars_finite(s, goals.drop_last());
        lemma_vars_finite(apply(s, goals.last().expected));
        lemma_vars_finite(apply(s, goals.last().actual));
    }
}

/// The size of two stacks of goals, one on the other, is the sum of their sizes.
pub proof fn lemma_goal_size_sum(s: Bindings, below: Seq<Goal>, above: Seq<Goal>)
    ensures
        goal_size(s, below + above) == goal_size(s, below) + goal_size(s, above),
    decreases above.len(),
{
    if above.len() == 0 {
        assert(below + above =~= below);
    } else {
        lemma_goal_size_sum(s, below, above.drop_last());
        assert((below + above).drop_last() =~= below + above.drop_last());
        assert((below + above).last() == above.last());
    }
}

/// Without its top goal, a stack has no more variables and is smaller.
pub proof fn lemma_rest_is_less(s: Bindings, goals: Seq<Goal>)
    requires
        goals.len() > 0,
    ensures
        goal_vars(s, goals.drop_last()).len() <= goal_vars(s, goals).len(),
        goal_size(s, goals.drop_last()) < goal_size(s, goals),
{
    lemma_goal_vars_finite(s, goals);
    lemma_len_subset(goal_vars(s, goals.drop_last()), goal_vars(s, goals));
    lemma_size_positive(apply(s, goals.last().expected));
}

/// The nodes of the types of `pairs`.
pub open spec fn pairs_size(pairs: Seq<(Ty, Ty)>) -> nat
    decreases pairs.len(),
{
    if pairs.len() == 0 {
        0
    } else {
        pairs_size(pairs.drop_last()) + size(pairs.last().0) + size(pairs.last().1)
    }
}

/// Every type of `pairs` is free of bound variables, and `among` holds its variables.
pub open spec fn pairs_within(s: Bindings, pairs: Seq<(Ty, Ty)>, among: Set<nat>) -> bool {
    forall|i: int|
        0 <= i < pairs.len() ==> {
            &&& clean(s, (#[trigger] pairs[i]).0)
            &&& clean(s, pairs[i].1)
            &&& vars(pairs[i].0).subset_of(among)
            &&& vars(pairs[i].1).subset_of(among)
        }
}

/// The first `n` types of a run are no larger than the run.
pub proof fn lemma_prefix_size(types: Seq<Ty>, n: int)
    requires
        0 <= n <= types.len(),
    ensures
        size_of_all(types.take(n)) <= size_of_all(types),
    decreases types.len(),
{
    if n == types.len() {
        assert(types.take(n) =~= types);
    } else {
        lemma_prefix_size(types.drop_last(), n);
        assert(types.drop_last().take(n) =~= types.take(n));
    }
}

/// Pairs of the parts of two runs are no larger than the two runs together.
pub proof fn lemma_pairs_upto_size(a: Seq<Ty>, b: Seq<Ty>, n: nat)
    requires
        n <= a.len(),
        n <= b.len(),
    ensures
        pairs_upto(a, b, n).len() == n,
        forall|i: int| 0 <= i < n ==> #[trigger] pairs_upto(a, b, n)[i] == (a[i], b[i]),
        pairs_size(pairs_upto(a, b, n)) == size_of_all(a.take(n as int)) + size_of_all(
            b.take(n as int),
        ),
    decreases n,
{
    if n > 0 {
        lemma_pairs_upto_size(a, b, (n - 1) as nat);
        let pairs = pairs_upto(a, b, n);
        assert(pairs.drop_last() =~= pairs_upto(a, b, (n - 1) as nat));
        assert(a.take(n as int).drop_last() =~= a.take(n - 1));
        assert(b.take(n as int).drop_last() =~= b.take(n - 1));
        assert(a.take(n as int).last() == a[n - 1]);
        assert(b.take(n as int).last() == b[n - 1]);
    } else {
        assert(a.take(0) =~= Seq::<Ty>::empty());
        assert(b.take(0) =~= Seq::<Ty>::empty());
    }
}

/// What the pairs of two runs are, and that they are no larger than the runs.
pub proof fn lemma_zip(a: Seq<Ty>, b: Seq<Ty>)
    ensures
        zip(a, b).len() == smaller(a.len(), b.len()),
        forall|i: int| 0 <= i < zip(a, b).len() ==> #[trigger] zip(a, b)[i] == (a[i], b[i]),
        pairs_size(zip(a, b)) <= size_of_all(a) + size_of_all(b),
{
    let n = smaller(a.len(), b.len());
    lemma_pairs_upto_size(a, b, n);
    lemma_prefix_size(a, n as int);
    lemma_prefix_size(b, n as int);
}

/// The size of goals for clean pairs is the size of the pairs, and their
/// variables are among those that hold the variables of the pairs.
pub proof fn lemma_stacked(
    s: Bindings,
    pairs: Seq<(Ty, Ty)>,
    blame: Option<Failure>,
    among: Set<nat>,
)
    requires
        acyclic(s),
        pairs_within(s, pairs, among),
    ensures
        goal_size(s, stacked(pairs, blame)) == pairs_size(pairs),
        goal_vars(s, stacked(pairs, blame)).subset_of(among),
    decreases pairs.len(),
{
    let goals = stacked(pairs, blame);
    assert forall|v: nat| goal_vars(s, goals).contains(v) implies among.contains(v) by {
        lemma_goal_vars(s, goals, v);
        let i = choose|i: int|
            0 <= i < goals.len() && (vars(apply(s, (#[trigger] goals[i]).expected)).contains(v)
                || vars(apply(s, goals[i].actual)).contains(v));
        let j = pairs.len() - 1 - i;
        assert(clean(s, pairs[j].0));
        lemma_apply_identity(s, pairs[j].0);
        lemma_apply_identity(s, pairs[j].1);
    }
    lemma_stacked_all(s, pairs, blame, among);
}

/// All goals for clean pairs are as large as the pairs.
pub proof fn lemma_stacked_all(
    s: Bindings,
    pairs: Seq<(Ty, Ty)>,
    blame: Option<Failure>,
    among: Set<nat>,
)
    requires
        acyclic(s),
        pairs_within(s, pairs, among),
    ensures
        goal_size(s, stacked(pairs, blame)) == pairs_size(pairs),
    decreases pairs.len(),
{
    let goals = stacked(pairs, blame);
    if pairs.len() > 0 {
        // The top goal is the first pair; below it lie the goals of the other pairs.
        let others = pairs.skip(1);
        assert forall|i: int| 0 <= i < others.len() implies {
            &&& clean(s, (#[trigger] others[i]).0)
            &&& clean(s, others[i].1)
            &&& vars(others[i].0).subset_of(among)
            &&& vars(others[i].1).subset_of(among)
        } by {
            assert(others[i] == pairs[i + 1]);
        }
        lemma_stacked_all(s, others, blame, among);
        assert(goals.drop_last() =~= stacked(others, blame));
        assert(goals.last().expected == pairs[0].0);
        assert(goals.last().actual == pairs[0].1);
        assert(clean(s, pairs[0].0));
        lemma_apply_identity(s, pairs[0].0);
        lemma_apply_identity(s, pairs[0].1);
        lemma_pairs_size_front(pairs);
    }
}

/// The size of pairs is that of the first and that of the others.
pub proof fn lemma_pairs_size_front(pairs: Seq<(Ty, Ty)>)
    requires
        pairs.len() > 0,
    ensures
        pairs_size(pairs) == size(pairs[0].0) + size(pairs[0].1) + pairs_size(pairs.skip(1)),
    decreases pairs.len(),
{
    if pairs.len() == 1 {
        assert(pairs.drop_last() =~= Seq::<(Ty, Ty)>::empty());
        assert(pairs.skip(1) =~= Seq::<(Ty, Ty)>::empty());
    } else {
        lemma_pairs_size_front(pairs.drop_last());
        assert(pairs.drop_last().skip(1) =~= pairs.skip(1).drop_last());
        assert(pairs.skip(1).last() == pairs.last());
        assert(pairs.drop_last()[0] == pairs[0]);
    }
}

/// The parts of a goal that falls apart are clean where the goal is, hold no
/// variables but the goal's, and are smaller than the goal by its two top nodes.
pub proof fn lemma_split_pairs(s: Bindings, expected: Ty, actual: Ty)
    requires
        clean(s, expected),
        clean(s, actual),
        step(expected, actual) is Split,
    ensures
        pairs_within(s, step(expected, actual)->pairs, vars(expected).union(vars(actual))),
        pairs_size(step(expected, actual)->pairs) + 2 <= size(expected) + size(actual),
{
    let pairs = step(expected, actual)->pairs;
    let among = vars(expected).union(vars(actual));
    if expected is Call {
        let wanted_function = *expected->function;
        let found_function = *actual->function;
        let wanted_arguments = expected->arguments;
        let found_arguments = actual->arguments;
        lemma_zip(wanted_arguments, found_arguments);
        let z = zip(wanted_arguments, found_arguments);
        assert(pairs.skip(1) =~= z);
        assert(pairs[0] == (wanted_function, found_function));
        lemma_pairs_size_front(pairs);
        assert forall|i: int| 0 <= i < pairs.len() implies {
            &&& clean(s, (#[trigger] pairs[i]).0)
            &&& clean(s, pairs[i].1)
            &&& vars(pairs[i].0).subset_of(among)
            &&& vars(pairs[i].1).subset_of(among)
        } by {
            if i > 0 {
                assert(pairs[i] == z[i - 1]);
                lemma_element_of_all(wanted_arguments, i - 1);
                lemma_element_of_all(found_arguments, i - 1);
            }
        }
    } else {
        let wanted_types = expected->parameters;
        let found_types = actual->parameters;
        lemma_zip(wanted_types, found_types);
        let z = zip(wanted_types, found_types);
        assert(pairs.drop_last() =~= z);
        assert forall|i: int| 0 <= i < pairs.len() implies {
            &&& clean(s, (#[trigger] pairs[i]).0)
            &&& clean(s, pairs[i].1)
            &&& vars(pairs[i].0).subset_of(among)
            &&& vars(pairs[i].1).subset_of(among)
        } by {
            if i < z.len() {
                assert(pairs[i] == z[i]);
                lemma_element_of_all(wanted_types, i);
                lemma_element_of_all(found_types, i);
            }
        }
    }
}

/// With its top goal replaced by goals for the parts of that goal, a stack
/// has no more variables and is smaller.
pub proof fn lemma_split_is_less(s: Bindings, goals: Seq<Goal>, blame: Option<Failure>)
    requires
        acyclic(s),
        goals.len() > 0,
        step(apply(s, goals.last().expected), apply(s, goals.last().actual)) is Split,
    ensures
        ({
            let pairs = step(
                apply(s, goals.last().expected),
                apply(s, goals.last().actual),
            )->pairs;
            &&& goal_vars(s, goals.drop_last() + stacked(pairs, blame)).len() <= goal_vars(
                s,
                goals,
            ).len()
            &&& goal_size(s, goals.drop_last() + stacked(pairs, blame)) < goal_size(s, goals)
        }),
{
    let expected = apply(s, goals.last().expected);
    let actual = apply(s, goals.last().actual);
    let pairs = step(expected, actual)->pairs;
    let rest = goals.drop_last();
    let parts = stacked(pairs, blame);
    let among = vars(expected).union(vars(actual));
    lemma_apply_clean(s, goals.last().expected);
    lemma_apply_clean(s, goals.last().actual);
    lemma_split_pairs(s, expected, actual);
    lemma_stacked(s, pairs, blame, among);
    lemma_goal_size_sum(s, rest, parts);
    assert forall|v: nat| goal_vars(s, rest + parts).contains(v) implies goal_vars(
        s,
        goals,
    ).contains(v) by {
        lemma_goal_vars(s, rest + parts, v);
        lemma_goal_vars(s, parts, v);
        lemma_goal_vars(s, rest, v);
        let all = rest + parts;
        let i = choose|i: int|
            0 <= i < all.len() && (vars(apply(s, (#[trigger] all[i]).expected)).contains(v) || vars(
                apply(s, all[i].actual),
            ).contains(v));
        if i < rest.len() {
            assert(all[i] == rest[i]);
            assert(goal_vars(s, rest).contains(v));
        } else {
            assert(all[i] == parts[i - rest.len()]);
            assert(goal_vars(s, parts).contains(v));
            assert(among.contains(v));
        }
    }
    lemma_goal_vars_finite(s, goals);
    lemma_len_subset(goal_vars(s, rest + parts), goal_vars(s, goals));
}

/// Once its top goal has bound a variable, the rest of a stack has fewer
/// variables, and the bindings are still free of cycles.
pub proof fn lemma_bound_is_less(s: Bindings, goals: Seq<Goal>)
    requires
        acyclic(s),
        goals.len() > 0,
        step(apply(s, goals.last().expected), apply(s, goals.last().actual)) matches Step::Bind {
            var,
            to,
        } && !vars(to).contains(var),
    ensures
        ({
            let found = step(apply(s, goals.last().expected), apply(s, goals.last().actual));
            let bound = s.insert(found->var, found->to);
            &&& acyclic(bound)
            &&& !s.contains_key(found->var)
            &&& clean(s, found->to)
            &&& goal_vars(bound, goals.drop_last()).len() < goal_vars(s, goals).len()
        }),
{
    let expected = apply(s, goals.last().expected);
    let actual = apply(s, goals.last().actual);
    let found = step(expected, actual);
    let var = found->var;
    let to = found->to;
    let bound = s.insert(var, to);
    let rest = goals.drop_last();
    lemma_apply_clean(s, goals.last().expected);
    lemma_apply_clean(s, goals.last().actual);
    // The variable is one of the two types, so it occurs in a clean type and is not bound.
    assert(vars(expected).contains(var) || vars(actual).contains(var));
    lemma_bind_keeps_acyclic(s, var, to);
    let before = goal_vars(s, goals);
    assert(before.contains(var));
    assert forall|v: nat| goal_vars(bound, rest).contains(v) implies before.remove(var).contains(
        v,
    ) by {
        lemma_goal_vars(bound, rest, v);
        lemma_goal_vars(s, rest, v);
        let i = choose|i: int|
            0 <= i < rest.len() && (vars(apply(bound, (#[trigger] rest[i]).expected)).contains(v)
                || vars(apply(bound, rest[i].actual)).contains(v));
        lemma_vars_after_bind(s, var, to, rest[i].expected);
        lemma_vars_after_bind(s, var, to, rest[i].actual);
        if vars(to).contains(v) {
            assert(vars(expected).contains(v) || vars(actual).contains(v));
        } else {
            assert(vars(apply(s, rest[i].expected)).contains(v) || vars(
                apply(s, rest[i].actual),
            ).contains(v));
            assert(goal_vars(s, rest).contains(v));
        }
    }
    lemma_goal_vars_finite(s, goals);
    lemma_len_subset(goal_vars(bound, rest), before.remove(var));
}

} // verus!
