//! What unification achieves: where it ends well, the bindings it ends with
//! make the two types of every goal alike.

use crate::ast::types::Ty;

use crate::token::Span;
use crate::typechecker::bindings::{acyclic, apply, apply_all, height, lemma_apply_all, lemma_apply_clean, lemma_binding_is_lower, rank_of, Bindings};
use crate::ast::expression::{span_of, type_of};
use crate::typechecker::env::Scope;
use crate::typechecker::inference::{checked, inferred};
use crate::typechecker::laws::{lemma_inference_carries_on, lemma_unification_extends};
use crate::typechecker::pre_ast::Expression;
use crate::typechecker::state::Run;
use crate::typechecker::substitution::lemma_height_of_element;
use crate::typechecker::unification::{blame_for, goal_size, goal_vars, lemma_bound_is_less, lemma_rest_is_less, lemma_split_is_less, lemma_zip, smaller, solve, stacked, step, zip, Goal, Step};
use vstd::prelude::*;

verus! {

/// Two types that unification takes for the same type: of one shape, with
/// parts that are alike as far as the shorter list of parts goes. Variables
/// are alike where they have one number, or where the programmer gave them
/// one name; declared types where they have one canonical name.
pub open spec fn alike(a: Ty, b: Ty) -> bool
    decreases a,
{
    match a {
        Ty::Call { function, arguments } => b is Call && alike(*function, *b->function)
            && forall|i: int|
            0 <= i < smaller(arguments.len(), b->arguments.len()) ==> alike(
                #[trigger] arguments[i],
                b->arguments[i],
            ),
        Ty::Function { parameters, return_type } => b is Function && alike(
            *return_type,
            *b->return_type,
        ) && forall|i: int|
            0 <= i < smaller(parameters.len(), b->parameters.len()) ==> alike(
                #[trigger] parameters[i],
                b->parameters[i],
            ),
        Ty::Constructor { canonical_value, .. } => b is Constructor && b->canonical_value
            == canonical_value,
        Ty::PrimConstructor(prim) => b is PrimConstructor && b->0 == prim,
        Ty::Variable { var, source_name } => b is Variable && (b->var == var || (source_name is Some
            && b->source_name == source_name)),
    }
}

/// Every type is like itself.
pub proof fn lemma_alike_itself(t: Ty)
    ensures
        alike(t, t),
    decreases t,
{
    match t {
        Ty::Call { function, arguments } => {
            lemma_alike_itself(*function);
            assert forall|i: int| 0 <= i < arguments.len() implies alike(
                #[trigger] arguments[i],
                arguments[i],
            ) by {
                lemma_alike_itself(arguments[i]);
            }
        },
        Ty::Function { parameters, return_type } => {
            lemma_alike_itself(*return_type);
            assert forall|i: int| 0 <= i < parameters.len() implies alike(
                #[trigger] parameters[i],
                parameters[i],
            ) by {
                lemma_alike_itself(parameters[i]);
            }
        },
        _ => {},
    }
}

/// The variables of `t` that the programmer named are those of `named`, and
/// no others: no number stands both for a named and for an anonymous variable.
pub open spec fn names_kept(t: Ty, named: Set<nat>) -> bool
    decreases t,
{
    match t {
        Ty::Call { function, arguments } => names_kept(*function, named) && forall|i: int|
            0 <= i < arguments.len() ==> names_kept(#[trigger] arguments[i], named),
        Ty::Function { parameters, return_type } => names_kept(*return_type, named) && forall|
            i: int,
        |
            0 <= i < parameters.len() ==> names_kept(#[trigger] parameters[i], named),
        Ty::Variable { var, source_name } => source_name is Some <==> named.contains(var),
        _ => true,
    }
}

/// The bindings bind no named variable, and keep the names in what they bind to.
pub open spec fn bindings_keep_names(s: Bindings, named: Set<nat>) -> bool {
    forall|v: nat| #[trigger] s.contains_key(v) ==> !named.contains(v) && names_kept(s[v], named)
}

/// The goals keep the names.
pub open spec fn goals_keep_names(goals: Seq<Goal>, named: Set<nat>) -> bool {
    forall|i: int|
        0 <= i < goals.len() ==> names_kept((#[trigger] goals[i]).expected, named) && names_kept(
            goals[i].actual,
            named,
        )
}

/// Applying bindings that keep the names to a type that keeps them gives a
/// type that keeps them.
pub proof fn lemma_apply_keeps_names(s: Bindings, t: Ty, named: Set<nat>)
    requires
        acyclic(s),
        bindings_keep_names(s, named),
        names_kept(t, named),
    ensures
        names_kept(apply(s, t), named),
    decreases height(s, rank_of(s), t), t,
{
    match t {
        Ty::Call { function, arguments } => {
            lemma_apply_keeps_names(s, *function, named);
            lemma_apply_all(s, arguments);
            assert forall|i: int| 0 <= i < arguments.len() implies names_kept(
                #[trigger] apply_all(s, arguments)[i],
                named,
            ) by {
                lemma_height_of_element(s, rank_of(s), arguments, i);
                lemma_apply_keeps_names(s, arguments[i], named);
            }
        },
        Ty::Function { parameters, return_type } => {
            lemma_apply_keeps_names(s, *return_type, named);
            lemma_apply_all(s, parameters);
            assert forall|i: int| 0 <= i < parameters.len() implies names_kept(
                #[trigger] apply_all(s, parameters)[i],
                named,
            ) by {
                lemma_height_of_element(s, rank_of(s), parameters, i);
                lemma_apply_keeps_names(s, parameters[i], named);
            }
        },
        Ty::Variable { var, .. } => {
            if s.contains_key(var) {
                lemma_binding_is_lower(s, var);
                lemma_apply_keeps_names(s, s[var], named);
            }
        },
        _ => {},
    }
}

/// Bindings that only add to others give, applied to a type, what they give
/// applied to the type that the others make of it.
pub proof fn lemma_apply_after(s: Bindings, more: Bindings, t: Ty)
    requires
        acyclic(s),
        acyclic(more),
        s.submap_of(more),
    ensures
        apply(more, apply(s, t)) == apply(more, t),
    decreases height(s, rank_of(s), t), t,
{
    match t {
        Ty::Call { function, arguments } => {
            lemma_apply_after(s, more, *function);
            lemma_apply_all(s, arguments);
            lemma_apply_all(more, arguments);
            lemma_apply_all(more, apply_all(s, arguments));
            assert forall|i: int| 0 <= i < arguments.len() implies apply(
                more,
                #[trigger] apply_all(s, arguments)[i],
            ) == apply(more, arguments[i]) by {
                lemma_height_of_element(s, rank_of(s), arguments, i);
                lemma_apply_after(s, more, arguments[i]);
            }
            assert(apply_all(more, apply_all(s, arguments)) =~= apply_all(more, arguments));
        },
        Ty::Function { parameters, return_type } => {
            lemma_apply_after(s, more, *return_type);
            lemma_apply_all(s, parameters);
            lemma_apply_all(more, parameters);
            lemma_apply_all(more, apply_all(s, parameters));
            assert forall|i: int| 0 <= i < parameters.len() implies apply(
                more,
                #[trigger] apply_all(s, parameters)[i],
            ) == apply(more, parameters[i]) by {
                lemma_height_of_element(s, rank_of(s), parameters, i);
                lemma_apply_after(s, more, parameters[i]);
            }
            assert(apply_all(more, apply_all(s, parameters)) =~= apply_all(more, parameters));
        },
        Ty::Variable { var, .. } => {
            if s.contains_key(var) {
                lemma_binding_is_lower(s, var);
                lemma_apply_after(s, more, s[var]);
                assert(more.dom().contains(var) && more[var] == s[var]);
                assert(apply(more, t) == apply(more, more[var]));
            }
        },
        _ => {},
    }
}

/// The parts of a type that keeps the names keep them.
pub proof fn lemma_pairs_keep_names(expected: Ty, actual: Ty, named: Set<nat>)
    requires
        names_kept(expected, named),
        names_kept(actual, named),
        step(expected, actual) is Split,
    ensures
        forall|i: int|
            0 <= i < step(expected, actual)->pairs.len() ==> names_kept(
                (#[trigger] step(expected, actual)->pairs[i]).0,
                named,
            ) && names_kept(step(expected, actual)->pairs[i].1, named),
{
    let pairs = step(expected, actual)->pairs;
    if expected is Call {
        lemma_zip(expected->arguments, actual->arguments);
        let z = zip(expected->arguments, actual->arguments);
        assert forall|i: int| 0 <= i < pairs.len() implies names_kept(
            (#[trigger] pairs[i]).0,
            named,
        ) && names_kept(pairs[i].1, named) by {
            if i > 0 {
                assert(pairs[i] == z[i - 1]);
                assert(names_kept(expected->arguments[i - 1], named));
                assert(names_kept(actual->arguments[i - 1], named));
            }
        }
    } else {
        lemma_zip(expected->parameters, actual->parameters);
        let z = zip(expected->parameters, actual->parameters);
        assert forall|i: int| 0 <= i < pairs.len() implies names_kept(
            (#[trigger] pairs[i]).0,
            named,
        ) && names_kept(pairs[i].1, named) by {
            if i < z.len() {
                assert(pairs[i] == z[i]);
                assert(names_kept(expected->parameters[i], named));
                assert(names_kept(actual->parameters[i], named));
            }
        }
    }
}

/// With the bindings `s`, the two types of every goal are alike.
pub open spec fn met(s: Bindings, goals: Seq<Goal>) -> bool {
    forall|i: int|
        0 <= i < goals.len() ==> alike(
            apply(s, (#[trigger] goals[i]).expected),
            apply(s, goals[i].actual),
        )
}

/// Where unification ends well, its bindings make the two types of every
/// goal alike, and bind no variable that the programmer named.
pub proof fn lemma_unification_is_sound(s: Bindings, span: Span, goals: Seq<Goal>, named: Set<nat>)
    requires
        acyclic(s),
        bindings_keep_names(s, named),
        goals_keep_names(goals, named),
        solve(s, span, goals).outcome is Ok,
    ensures
        met(solve(s, span, goals).bindings, goals),
        bindings_keep_names(solve(s, span, goals).bindings, named),
    decreases goal_vars(s, goals).len(), goal_size(s, goals),
{
    if goals.len() > 0 {
        let goal = goals.last();
        let rest = goals.drop_last();
        let expected = apply(s, goal.expected);
        let actual = apply(s, goal.actual);
        let blame = blame_for(goal, span, expected, actual);
        let end = solve(s, span, goals).bindings;
        lemma_unification_extends(s, span, goals);
        lemma_apply_after(s, end, goal.expected);
        lemma_apply_after(s, end, goal.actual);
        lemma_apply_keeps_names(s, goal.expected, named);
        lemma_apply_keeps_names(s, goal.actual, named);
        lemma_apply_clean(s, goal.expected);
        lemma_apply_clean(s, goal.actual);
        assert forall|i: int| 0 <= i < rest.len() implies names_kept(
            (#[trigger] rest[i]).expected,
            named,
        ) && names_kept(rest[i].actual, named) by {
            assert(rest[i] == goals[i]);
        }
        match step(expected, actual) {
            Step::Same => {
                lemma_rest_is_less(s, goals);
                lemma_unification_is_sound(s, span, rest, named);
                // Neither type holds a variable that the end binds: a named
                // variable is never bound, and the other kinds hold none.
                if expected is Variable {
                    assert(named.contains(expected->var));
                    assert(named.contains(actual->var));
                    assert(!end.contains_key(expected->var));
                    assert(!end.contains_key(actual->var));
                }
                assert(apply(end, expected) == expected);
                assert(apply(end, actual) == actual);
            },
            Step::Bind { var, to } => {
                if to is Variable && to->var == var {
                    lemma_rest_is_less(s, goals);
                    lemma_unification_is_sound(s, span, rest, named);
                    let other = if expected is Variable && expected->source_name is None
                        && expected->var == var {
                        actual
                    } else {
                        expected
                    };
                    if end.contains_key(var) {
                        assert(apply(end, expected) == apply(end, end[var]));
                        assert(apply(end, actual) == apply(end, end[var]));
                        lemma_alike_itself(apply(end, end[var]));
                    } else {
                        assert(apply(end, expected) == expected);
                        assert(apply(end, actual) == actual);
                    }
                } else {
                    lemma_bound_is_less(s, goals);
                    let bound = s.insert(var, to);
                    assert(!named.contains(var));
                    assert(bindings_keep_names(bound, named));
                    lemma_unification_is_sound(bound, span, rest, named);
                    lemma_unification_extends(bound, span, rest);
                    assert(bound.dom().contains(var));
                    assert(end.dom().contains(var) && end[var] == to);
                    assert(apply(end, Ty::Variable { var, source_name: None }) == apply(end, to));
                    lemma_alike_itself(apply(end, to));
                }
                assert(alike(apply(end, goal.expected), apply(end, goal.actual)));
            },
            Step::Split { pairs } => {
                lemma_split_is_less(s, goals, Some(blame));
                let parts = stacked(pairs, Some(blame));
                let next = rest + parts;
                lemma_pairs_keep_names(expected, actual, named);
                assert forall|i: int| 0 <= i < next.len() implies names_kept(
                    (#[trigger] next[i]).expected,
                    named,
                ) && names_kept(next[i].actual, named) by {
                    if i < rest.len() {
                        assert(next[i] == rest[i]);
                    } else {
                        let j = i - rest.len();
                        assert(next[i] == parts[j]);
                        assert(names_kept(pairs[pairs.len() - 1 - j].0, named));
                    }
                }
                lemma_unification_is_sound(s, span, next, named);
                assert forall|i: int| 0 <= i < rest.len() implies alike(
                    apply(end, (#[trigger] rest[i]).expected),
                    apply(end, rest[i].actual),
                ) by {
                    assert(next[i] == rest[i]);
                }
                assert forall|j: int| 0 <= j < pairs.len() implies alike(
                    apply(end, (#[trigger] pairs[j]).0),
                    apply(end, pairs[j].1),
                ) by {
                    let i = rest.len() + (pairs.len() - 1 - j);
                    assert(next[i] == parts[pairs.len() - 1 - j]);
                    assert(next[i].expected == pairs[j].0);
                }
                lemma_parts_alike(end, expected, actual);
            },
            Step::Clash => {},
        }
        assert forall|i: int| 0 <= i < goals.len() implies alike(
            apply(end, (#[trigger] goals[i]).expected),
            apply(end, goals[i].actual),
        ) by {
            if i < rest.len() {
                assert(rest[i] == goals[i]);
            }
        }
    }
}

/// Two types of one shape are alike under bindings where their parts are.
pub proof fn lemma_parts_alike(s: Bindings, expected: Ty, actual: Ty)
    requires
        acyclic(s),
        step(expected, actual) is Split,
        forall|j: int|
            0 <= j < step(expected, actual)->pairs.len() ==> alike(
                apply(s, (#[trigger] step(expected, actual)->pairs[j]).0),
                apply(s, step(expected, actual)->pairs[j].1),
            ),
    ensures
        alike(apply(s, expected), apply(s, actual)),
{
    let pairs = step(expected, actual)->pairs;
    if expected is Call {
        let wanted = expected->arguments;
        let found = actual->arguments;
        lemma_zip(wanted, found);
        let z = zip(wanted, found);
        lemma_apply_all(s, wanted);
        lemma_apply_all(s, found);
        assert(pairs[0] == (*expected->function, *actual->function));
        assert forall|i: int| 0 <= i < smaller(wanted.len(), found.len()) implies alike(
            #[trigger] apply_all(s, wanted)[i],
            apply_all(s, found)[i],
        ) by {
            assert(pairs[i + 1] == z[i]);
        }
    } else {
        let wanted = expected->parameters;
        let found = actual->parameters;
        lemma_zip(wanted, found);
        let z = zip(wanted, found);
        lemma_apply_all(s, wanted);
        lemma_apply_all(s, found);
        assert(pairs[z.len() as int] == (*expected->return_type, *actual->return_type));
        assert forall|i: int| 0 <= i < smaller(wanted.len(), found.len()) implies alike(
            #[trigger] apply_all(s, wanted)[i],
            apply_all(s, found)[i],
        ) by {
            assert(pairs[i] == z[i]);
        }
    }
}

/// Two types that are written alike wherever they are alike: where both
/// are calls or both are functions, they have as many parts and their parts
/// are written alike; a variable with the number or the name of another has
/// both; a declared type with the canonical name of another is written as
/// the other is.
pub open spec fn written_alike(a: Ty, b: Ty) -> bool
    decreases a,
{
    match a {
        Ty::Call { function, arguments } => b is Call ==> arguments.len() == b->arguments.len()
            && written_alike(*function, *b->function) && forall|i: int|
            0 <= i < arguments.len() ==> written_alike(#[trigger] arguments[i], b->arguments[i]),
        Ty::Function { parameters, return_type } => b is Function ==> parameters.len()
            == b->parameters.len() && written_alike(*return_type, *b->return_type)
            && forall|i: int|
            0 <= i < parameters.len() ==> written_alike(#[trigger] parameters[i], b->parameters[i]),
        Ty::Constructor { canonical_value, source_value } => b is Constructor
            && b->canonical_value == canonical_value ==> b->source_value == source_value,
        Ty::PrimConstructor(_) => true,
        Ty::Variable { var, source_name } => b is Variable && (b->var == var || (source_name is Some
            && b->source_name == source_name)) ==> b->var == var && b->source_name == source_name,
    }
}

/// Types that are alike and written alike are one type.
pub proof fn lemma_alike_and_written_alike(a: Ty, b: Ty)
    requires
        alike(a, b),
        written_alike(a, b),
    ensures
        a == b,
    decreases a,
{
    match a {
        Ty::Call { function, arguments } => {
            lemma_alike_and_written_alike(*function, *b->function);
            assert forall|i: int| 0 <= i < arguments.len() implies arguments[i]
                == b->arguments[i] by {
                lemma_alike_and_written_alike(arguments[i], b->arguments[i]);
            }
            assert(arguments =~= b->arguments);
        },
        Ty::Function { parameters, return_type } => {
            lemma_alike_and_written_alike(*return_type, *b->return_type);
            assert forall|i: int| 0 <= i < parameters.len() implies parameters[i]
                == b->parameters[i] by {
                lemma_alike_and_written_alike(parameters[i], b->parameters[i]);
            }
            assert(parameters =~= b->parameters);
        },
        _ => {},
    }
}

/// Where the unification of two types ends well, its bindings make the two
/// alike; and where the two are then written alike, they are one type.
pub proof fn lemma_unified_types_are_equal(
    s: Bindings,
    span: Span,
    expected: Ty,
    actual: Ty,
    named: Set<nat>,
)
    requires
        acyclic(s),
        bindings_keep_names(s, named),
        names_kept(expected, named),
        names_kept(actual, named),
        solve(s, span, seq![Goal { expected, actual, blame: None }]).outcome is Ok,
    ensures
        ({
            let end = solve(s, span, seq![Goal { expected, actual, blame: None }]).bindings;
            &&& alike(apply(end, expected), apply(end, actual))
            &&& written_alike(apply(end, expected), apply(end, actual)) ==> apply(end, expected)
                == apply(end, actual)
        }),
{
    let goals = seq![Goal { expected, actual, blame: None }];
    let end = solve(s, span, goals).bindings;
    lemma_unification_is_sound(s, span, goals, named);
    assert(goals[0].expected == expected && goals[0].actual == actual);
    if written_alike(apply(end, expected), apply(end, actual)) {
        lemma_alike_and_written_alike(apply(end, expected), apply(end, actual));
    }
}

/// Where an expression checks against a type, the bindings that the check
/// ends with make the type of the expression and the type asked for alike;
/// and where the two are then written alike, they are one type.
pub proof fn lemma_checked_type_is_expected(
    env: Scope,
    run: Run,
    expected: Ty,
    e: Expression,
    named: Set<nat>,
)
    requires
        acyclic(run.bindings),
        checked(env, run, expected, e).outcome is Ok,
        bindings_keep_names(inferred(env, run, e).run.bindings, named),
        names_kept(expected, named),
        names_kept(type_of(inferred(env, run, e).outcome->Ok_0), named),
    ensures
        ({
            let found = checked(env, run, expected, e);
            let wanted = apply(found.run.bindings, expected);
            let got = apply(found.run.bindings, type_of(found.outcome->Ok_0));
            &&& found.outcome == inferred(env, run, e).outcome
            &&& alike(wanted, got)
            &&& written_alike(wanted, got) ==> wanted == got
        }),
{
    lemma_inference_carries_on(env, run, e);
    let found = inferred(env, run, e);
    let typed = found.outcome->Ok_0;
    lemma_unified_types_are_equal(
        found.run.bindings,
        span_of(typed),
        expected,
        type_of(typed),
        named,
    );
}

} // verus!
