//! Type inference and checking for expressions.

pub mod bindings;
pub mod env;
pub mod inference;
pub mod laws;
pub mod limits;
pub mod pre_ast;
pub mod scheme;
pub mod scoping;
pub mod soundness;
pub mod state;
pub mod substitution;
pub mod unification;

use crate::ast::expression::{arguments_model, expressions_model, lemma_model_of_expressions, type_of, Argument, Expr, Expression};
use crate::ast::name::QualifiedText;
use crate::ast::types::{duplicate_type, lemma_model_of_parts, mentions, models, vars, PrimType, Ty, Type};
use crate::result::names_of;
use crate::typechecker::env::Env;
use crate::typechecker::inference::{check_arguments, check_elements, checked, infer_arguments, inferred, types_of, Inferred};
use crate::typechecker::limits::{
    can_typecheck, cost, cost_of_arguments, cost_of_elements, has_room, room,
};
use crate::typechecker::scoping::{count_constructor, count_value, enter_parameters, leave_parameters};
use crate::result::{Warning, Warnings};
use crate::supply::Supply;
use crate::typechecker::env::Scope;
use crate::typechecker::state::{counts, lemma_counts_union, ConstructorReferences, TypeReferences, ValueReferences};
use crate::typechecker::substitution::apply_to_expression;
use crate::result::{optional_failure, Failure, TypeError};
use crate::table::{Duplicate, Key};
use crate::token::Span;
use crate::typechecker::bindings::{apply, clean, lemma_apply_clean, lemma_bind_keeps_acyclic};
use crate::typechecker::state::{Run, State};
use crate::typechecker::substitution::Constraint;
use crate::typechecker::unification::{blame_for, goal_size, goal_vars, lemma_bound_is_less, lemma_rest_is_less, lemma_split_is_less, lemma_zip, smaller, solve, stacked, step, zip, Goal, Step, Unified};
use vstd::prelude::*;

verus! {

/// The goal of a constraint.
pub open spec fn goal_of(constraint: Constraint, blame: Option<Failure>) -> Goal {
    Goal { expected: constraint.expected@, actual: constraint.actual@, blame }
}

/// The goals of the constraints of a stack.
pub open spec fn goals_of(pending: Seq<Constraint>, blame: Option<Failure>) -> Seq<Goal> {
    Seq::new(pending.len(), |i: int| goal_of(pending[i], blame))
}

/// What unifying `expected` with `actual` makes of the bindings `s`, and how it ends.
pub open spec fn unified(
    s: crate::typechecker::bindings::Bindings,
    span: Span,
    expected: Ty,
    actual: Ty,
    blame: Option<Failure>,
) -> Unified {
    solve(s, span, seq![Goal { expected, actual, blame }])
}

/// The run `run` with the bindings `bindings`.
pub open spec fn with_bindings(run: Run, bindings: crate::typechecker::bindings::Bindings) -> Run {
    Run { bindings, ..run }
}

/// Fails where `var` occurs in `t`.
pub fn occurs_check(span: Span, var: usize, t: &Type) -> (result: Result<(), TypeError>)
    ensures
        result is Err <==> vars(t@).contains(var as nat),
        result matches Err(e) ==> e@ == (Failure::InfiniteType {
            span,
            var: var as nat,
            infinite_type: t@,
        }),
{
    if mentions(t, var) {
        return Err(TypeError::InfiniteType { span, var, infinite_type: duplicate_type(t) });
    }
    Ok(())
}

/// What binding `var` to `to` makes of the bindings `s`, and how it ends:
/// nothing where `to` is `var` itself, a failure where `to` holds `var`.
pub open spec fn bound(
    s: crate::typechecker::bindings::Bindings,
    span: Span,
    var: nat,
    to: Ty,
) -> Unified {
    if to is Variable && to->var == var {
        Unified { bindings: s, outcome: Ok(()) }
    } else if vars(to).contains(var) {
        Unified {
            bindings: s,
            outcome: Err(Failure::InfiniteType { span, var, infinite_type: to }),
        }
    } else {
        Unified { bindings: s.insert(var, to), outcome: Ok(()) }
    }
}

/// Bind the variable `var` to `t`, unless `t` is that variable or holds it.
pub fn bind(state: &mut State, span: Span, var: usize, t: Type) -> (result: Result<(), TypeError>)
    requires
        old(state).wf(),
        !old(state)@.bindings.contains_key(var as nat),
        clean(old(state)@.bindings, t@),
    ensures
        final(state).wf(),
        final(state)@ == with_bindings(
            old(state)@,
            bound(old(state)@.bindings, span, var as nat, t@).bindings,
        ),
        result is Ok <==> bound(old(state)@.bindings, span, var as nat, t@).outcome is Ok,
        result matches Err(e) ==> bound(old(state)@.bindings, span, var as nat, t@).outcome == Err::<
            (),
            Failure,
        >(e@),
{
    if let Type::Variable { var: var_, .. } = &t {
        if var == *var_ {
            return Ok(());
        }
    }
    occurs_check(span, var, &t)?;
    proof {
        lemma_bind_keeps_acyclic(state@.bindings, var as nat, t@);
    }
    state.substitution.insert(var, t);
    Ok(())
}

/// The shape that two types share, or the way in which they differ.
enum Shape {
    Same,
    BindExpected(usize),
    BindActual(usize),
    Calls,
    Functions,
    Clash,
}

/// What a look at two types finds.
fn shape(expected: &Type, actual: &Type) -> (found: Shape)
    ensures
        match found {
            Shape::Same => step(expected@, actual@) is Same,
            Shape::BindExpected(var) => expected@ is Variable && expected@->var == var && step(
                expected@,
                actual@,
            ) == (Step::Bind { var: var as nat, to: actual@ }),
            Shape::BindActual(var) => actual@ is Variable && actual@->var == var && step(
                expected@,
                actual@,
            ) == (Step::Bind { var: var as nat, to: expected@ }),
            Shape::Calls => expected is Call && actual is Call && step(expected@, actual@) is Split,
            Shape::Functions => expected is Function && actual is Function && step(
                expected@,
                actual@,
            ) is Split,
            Shape::Clash => step(expected@, actual@) is Clash,
        },
{
    if let Type::Variable { source_name: Some(expected_name), .. } = expected {
        if let Type::Variable { source_name: Some(actual_name), .. } = actual {
            if expected_name.same(actual_name) {
                return Shape::Same;
            }
        }
    }
    if let Type::Variable { source_name: None, var } = expected {
        return Shape::BindExpected(*var);
    }
    if let Type::Variable { source_name: None, var } = actual {
        return Shape::BindActual(*var);
    }
    match (expected, actual) {
        (
            Type::Constructor { canonical_value: expected_name, .. },
            Type::Constructor { canonical_value: actual_name, .. },
        ) => {
            if expected_name.same(actual_name) {
                Shape::Same
            } else {
                Shape::Clash
            }
        },
        (Type::PrimConstructor(expected_prim), Type::PrimConstructor(actual_prim)) => {
            if *expected_prim == *actual_prim {
                Shape::Same
            } else {
                Shape::Clash
            }
        },
        (Type::Call { .. }, Type::Call { .. }) => Shape::Calls,
        (Type::Function { .. }, Type::Function { .. }) => Shape::Functions,
        _ => Shape::Clash,
    }
}

/// The goals of a call: those of its arguments under the goal of what is called.
proof fn lemma_stacked_front(first: (Ty, Ty), others: Seq<(Ty, Ty)>, blame: Option<Failure>)
    ensures
        stacked(seq![first] + others, blame) == stacked(others, blame).push(
            Goal { expected: first.0, actual: first.1, blame },
        ),
{
    let pairs = seq![first] + others;
    assert(stacked(pairs, blame) =~= stacked(others, blame).push(
        Goal { expected: first.0, actual: first.1, blame },
    )) by {
        assert forall|i: int| 0 <= i < pairs.len() implies #[trigger] stacked(pairs, blame)[i]
            == stacked(others, blame).push(Goal { expected: first.0, actual: first.1, blame })[i] by {
            if i < others.len() {
                assert(pairs[pairs.len() - 1 - i] == others[others.len() - 1 - i]);
            }
        }
    }
}

/// The goals of a function type: the goal of its result under those of its parameters.
proof fn lemma_stacked_back(others: Seq<(Ty, Ty)>, last: (Ty, Ty), blame: Option<Failure>)
    ensures
        stacked(others.push(last), blame) == seq![
            Goal { expected: last.0, actual: last.1, blame },
        ] + stacked(others, blame),
{
    let pairs = others.push(last);
    let wanted = seq![Goal { expected: last.0, actual: last.1, blame }] + stacked(others, blame);
    assert(stacked(pairs, blame) =~= wanted) by {
        assert forall|i: int| 0 <= i < pairs.len() implies #[trigger] stacked(pairs, blame)[i]
            == wanted[i] by {
            if i > 0 {
                assert(pairs[pairs.len() - 1 - i] == others[others.len() - i]);
            }
        }
    }
}

/// Put onto the stack a constraint for each type of `left` and the type of
/// `right` at its place, as far as the shorter of the two goes, the first on top.
fn push_pairs(pending: &mut Vec<Constraint>, left: Vec<Type>, right: Vec<Type>)
    ensures
        forall|blame: Option<Failure>| #[trigger]
            goals_of(final(pending)@, blame) == goals_of(old(pending)@, blame) + stacked(
                zip(models(left@), models(right@)),
                blame,
            ),
{
    let mut left = left;
    let mut right = right;
    let ghost a = models(left@);
    let ghost b = models(right@);
    let ghost base = pending@;
    let n = if left.len() <= right.len() {
        left.len()
    } else {
        right.len()
    };
    left.truncate(n);
    right.truncate(n);
    proof {
        lemma_zip(a, b);
    }
    while left.len() > 0
        invariant
            n == smaller(a.len(), b.len()),
            left.len() == right.len(),
            left.len() <= n,
            forall|j: int| 0 <= j < left.len() ==> left@[j]@ == a[j] && right@[j]@ == b[j],
            pending.len() == base.len() + (n - left.len()),
            forall|j: int| 0 <= j < base.len() ==> pending@[j] == base[j],
            forall|j: int|
                0 <= j < n - left.len() ==> (#[trigger] pending@[base.len() + j]).expected@ == a[n
                    - 1 - j] && pending@[base.len() + j].actual@ == b[n - 1 - j],
        decreases left.len(),
    {
        let ghost before = pending@;
        let ghost k = left.len();
        let expected = left.pop().unwrap();
        let actual = right.pop().unwrap();
        pending.push(Constraint { expected, actual });
        proof {
            assert forall|j: int| 0 <= j < n - left.len() implies (#[trigger] pending@[base.len()
                + j]).expected@ == a[n - 1 - j] && pending@[base.len() + j].actual@ == b[n - 1
                - j] by {
                if j < n - k {
                    assert(pending@[base.len() + j] == before[base.len() + j]);
                }
            }
        }
    }
    proof {
        let pairs = zip(a, b);
        assert forall|blame: Option<Failure>| #[trigger]
            goals_of(pending@, blame) == goals_of(base, blame) + stacked(pairs, blame) by {
            let wanted = goals_of(base, blame) + stacked(pairs, blame);
            assert forall|i: int| 0 <= i < wanted.len() implies goals_of(pending@, blame)[i]
                == wanted[i] by {
                if i >= base.len() {
                    let j = i - base.len();
                    assert(pending@[base.len() + j].expected@ == a[n - 1 - j]);
                    assert(pairs[n - 1 - j] == (a[n - 1 - j], b[n - 1 - j]));
                }
            }
            assert(goals_of(pending@, blame) =~= wanted);
        }
    }
}

/// Unify the two types of a constraint: extend the substitution so that it
/// makes them agree, or fail where nothing can.
pub fn unify(state: &mut State, span: Span, constraint: Constraint) -> (result: Result<
    (),
    TypeError,
>)
    requires
        old(state).wf(),
    ensures
        final(state).wf(),
        final(state)@ == with_bindings(
            old(state)@,
            unified(
                old(state)@.bindings,
                span,
                constraint.expected@,
                constraint.actual@,
                None,
            ).bindings,
        ),
        result is Ok <==> unified(
            old(state)@.bindings,
            span,
            constraint.expected@,
            constraint.actual@,
            None,
        ).outcome is Ok,
        result matches Err(e) ==> unified(
            old(state)@.bindings,
            span,
            constraint.expected@,
            constraint.actual@,
            None,
        ).outcome == Err::<(), Failure>(e@),
{
    unify_else(state, span, constraint, None)
}

/// Unify the two types of a constraint, reporting `err`, where it is given,
/// if they cannot be made to agree.
///
/// Both types are read with the substitution applied. Where they fall apart
/// into their parts, a failure of a part is reported as the failure of the
/// whole: as `err`, or else as the two whole types not being equal.
pub fn unify_else(
    state: &mut State,
    span: Span,
    constraint: Constraint,
    err: Option<&TypeError>,
) -> (result: Result<(), TypeError>)
    requires
        old(state).wf(),
    ensures
        final(state).wf(),
        final(state)@ == with_bindings(
            old(state)@,
            unified(
                old(state)@.bindings,
                span,
                constraint.expected@,
                constraint.actual@,
                match err {
                    Some(e) => Some(e@),
                    None => None,
                },
            ).bindings,
        ),
        result is Ok <==> unified(
            old(state)@.bindings,
            span,
            constraint.expected@,
            constraint.actual@,
            match err {
                Some(e) => Some(e@),
                None => None,
            },
        ).outcome is Ok,
        result matches Err(e) ==> unified(
            old(state)@.bindings,
            span,
            constraint.expected@,
            constraint.actual@,
            match err {
                Some(e) => Some(e@),
                None => None,
            },
        ).outcome == Err::<(), Failure>(e@),
{
    let ghost start = state@;
    let mut blame: Option<TypeError> = match err {
        Some(e) => Some(e.duplicate()),
        None => None,
    };
    let ghost given = match err {
        Some(e) => Some(e@),
        None => None,
    };
    let ghost wanted = unified(
        start.bindings,
        span,
        constraint.expected@,
        constraint.actual@,
        given,
    );
    assert(optional_failure(blame) == given);
    let mut pending: Vec<Constraint> = Vec::new();
    pending.push(constraint);
    assert(goals_of(pending@, optional_failure(blame)) =~= seq![
        Goal {
            expected: constraint.expected@,
            actual: constraint.actual@,
            blame: optional_failure(blame),
        },
    ]);
    loop
        invariant
            state.wf(),
            start == old(state)@,
            wanted == unified(
                old(state)@.bindings,
                span,
                constraint.expected@,
                constraint.actual@,
                match err {
                    Some(e) => Some(e@),
                    None => None,
                },
            ),
            state@ == with_bindings(start, state@.bindings),
            solve(state@.bindings, span, goals_of(pending@, optional_failure(blame))) == wanted,
            blame is None ==> pending.len() <= 1,
        decreases
                goal_vars(state@.bindings, goals_of(pending@, optional_failure(blame))).len(),
                goal_size(state@.bindings, goals_of(pending@, optional_failure(blame))),
    {
        let ghost s = state@.bindings;
        let ghost goals = goals_of(pending@, optional_failure(blame));
        let constraint = match pending.pop() {
            Some(constraint) => constraint,
            None => {
                assert(goals =~= Seq::<Goal>::empty());
                assert(wanted == (Unified { bindings: s, outcome: Ok(()) }));
                assert(state@ == with_bindings(start, s));
                return Ok(());
            },
        };
        let ghost goal = goals.last();
        let ghost rest = goals.drop_last();
        assert(goals_of(pending@, optional_failure(blame)) =~= rest);
        let Constraint { expected, actual } = state.substitution.apply_constraint(constraint);
        proof {
            lemma_apply_clean(s, goal.expected);
            lemma_apply_clean(s, goal.actual);
            assert(goal == goal_of(constraint, optional_failure(blame)));
        }
        match shape(&expected, &actual) {
            Shape::Same => {
                proof {
                    lemma_rest_is_less(s, goals);
                }
            },
            Shape::BindExpected(var) => {
                proof {
                    assert(vars(expected@).contains(var as nat));
                    if actual@ is Variable && actual@->var == var as nat {
                        lemma_rest_is_less(s, goals);
                    } else if !vars(actual@).contains(var as nat) {
                        lemma_bound_is_less(s, goals);
                    }
                }
                match bind(state, span, var, actual) {
                    Ok(()) => {},
                    Err(e) => {
                        return Err(e);
                    },
                }
            },
            Shape::BindActual(var) => {
                proof {
                    assert(vars(actual@).contains(var as nat));
                    if expected@ is Variable && expected@->var == var as nat {
                        lemma_rest_is_less(s, goals);
                    } else if !vars(expected@).contains(var as nat) {
                        lemma_bound_is_less(s, goals);
                    }
                }
                match bind(state, span, var, expected) {
                    Ok(()) => {},
                    Err(e) => {
                        return Err(e);
                    },
                }
            },
            Shape::Calls => {
                if blame.is_none() {
                    blame =
                    Some(
                        TypeError::TypesNotEqual {
                            span,
                            expected: duplicate_type(&expected),
                            actual: duplicate_type(&actual),
                        },
                    );
                }
                let ghost parts_blame = optional_failure(blame);
                assert(parts_blame == Some(blame_for(goal, span, expected@, actual@)));
                assert(goals_of(pending@, parts_blame) =~= rest);
                proof {
                    lemma_model_of_parts(expected);
                    lemma_model_of_parts(actual);
                    lemma_split_is_less(s, goals, parts_blame);
                }
                match (expected, actual) {
                    (
                        Type::Call { function: expected_function, arguments: expected_arguments },
                        Type::Call { function: actual_function, arguments: actual_arguments },
                    ) => {
                        let ghost pairs = zip(
                            models(expected_arguments@),
                            models(actual_arguments@),
                        );
                        push_pairs(&mut pending, expected_arguments, actual_arguments);
                        let ghost below = pending@;
                        pending.push(
                            Constraint { expected: *expected_function, actual: *actual_function },
                        );
                        proof {
                            let first = (expected_function@, actual_function@);
                            lemma_stacked_front(first, pairs, parts_blame);
                            assert(goals_of(pending@, parts_blame) =~= goals_of(
                                below,
                                parts_blame,
                            ).push(
                                Goal { expected: first.0, actual: first.1, blame: parts_blame },
                            ));
                            assert(goals_of(pending@, parts_blame) =~= rest + stacked(
                                seq![first] + pairs,
                                parts_blame,
                            ));
                        }
                    },
                    _ => {
                        proof {
                            assert(false);
                        }
                    },
                }
            },
            Shape::Functions => {
                if blame.is_none() {
                    blame =
                    Some(
                        TypeError::TypesNotEqual {
                            span,
                            expected: duplicate_type(&expected),
                            actual: duplicate_type(&actual),
                        },
                    );
                }
                let ghost parts_blame = optional_failure(blame);
                assert(parts_blame == Some(blame_for(goal, span, expected@, actual@)));
                assert(goals_of(pending@, parts_blame) =~= rest);
                proof {
                    lemma_model_of_parts(expected);
                    lemma_model_of_parts(actual);
                    lemma_split_is_less(s, goals, parts_blame);
                }
                match (expected, actual) {
                    (
                        Type::Function {
                            parameters: expected_parameters,
                            return_type: expected_return_type,
                        },
                        Type::Function {
                            parameters: actual_parameters,
                            return_type: actual_return_type,
                        },
                    ) => {
                        let ghost pairs = zip(
                            models(expected_parameters@),
                            models(actual_parameters@),
                        );
                        let ghost last = (expected_return_type@, actual_return_type@);
                        pending.push(
                            Constraint {
                                expected: *expected_return_type,
                                actual: *actual_return_type,
                            },
                        );
                        let ghost below = pending@;
                        push_pairs(&mut pending, expected_parameters, actual_parameters);
                        proof {
                            lemma_stacked_back(pairs, last, parts_blame);
                            assert(goals_of(below, parts_blame) =~= rest + seq![
                                Goal { expected: last.0, actual: last.1, blame: parts_blame },
                            ]);
                            assert(goals_of(pending@, parts_blame) =~= rest + stacked(
                                pairs.push(last),
                                parts_blame,
                            ));
                        }
                    },
                    _ => {
                        proof {
                            assert(false);
                        }
                    },
                }
            },
            Shape::Clash => {
                return Err(
                    match blame {
                        Some(blame) => blame,
                        None => TypeError::TypesNotEqual { span, expected, actual },
                    },
                );
            },
        }
    }
}

/// The names of a table's keys are the names that the table maps.
proof fn lemma_names_in_scope<K: View, V>(keys: Seq<K>, scope: Map<K::V, V>)
    requires
        forall|i: int| 0 <= i < keys.len() ==> scope.contains_key(#[trigger] keys[i]@),
        forall|name: K::V|
            scope.contains_key(name) ==> exists|i: int|
                0 <= i < keys.len() && #[trigger] keys[i]@ == name,
    ensures
        names_of(keys) == scope.dom(),
{
    assert forall|name: K::V| names_of(keys).contains(name) == scope.dom().contains(name) by {
        if names_of(keys).contains(name) {
            let i = choose|i: int| 0 <= i < keys.len() && (#[trigger] keys[i])@ == name;
            assert(scope.contains_key(keys[i]@));
        }
        if scope.contains_key(name) {
            let i = choose|i: int| 0 <= i < keys.len() && #[trigger] keys[i]@ == name;
            assert(keys[i]@ == name);
        }
    }
    assert(names_of(keys) =~= scope.dom());
}

/// The types of typed arguments, in order.
fn argument_types(arguments: &Vec<Argument>) -> (types: Vec<Type>)
    ensures
        models(types@) == types_of(arguments_model(arguments@)),
{
    let mut types: Vec<Type> = Vec::new();
    let mut i: usize = 0;
    while i < arguments.len()
        invariant
            i <= arguments.len(),
            types.len() == i,
            forall|j: int| 0 <= j < i ==> types@[j]@ == type_of(arguments@[j]@),
        decreases arguments.len() - i,
    {
        types.push(arguments[i].get_type());
        i += 1;
    }
    assert(models(types@) =~= types_of(arguments_model(arguments@)));
    types
}

/// See [`inferred`].
fn infer_expression(
    env: &Env,
    state: &mut State,
    expr: &pre_ast::Expression,
    Ghost(q): Ghost<nat>,
    Ghost(m): Ghost<nat>,
) -> (result: Result<Expression, TypeError>)
    requires
        env.wf(),
        old(state).wf(),
        room(env@, old(state)@, *expr, q, m),
    ensures
        final(state).wf(),
        final(state)@ == inferred(env@, old(state)@, *expr).run,
        result matches Ok(typed) ==> inferred(env@, old(state)@, *expr).outcome == Ok::<
            Expr,
            Failure,
        >(typed@),
        result matches Err(e) ==> inferred(env@, old(state)@, *expr).outcome == Err::<Expr, Failure>(
            e@,
        ),
        final(state)@.supply <= old(state)@.supply + cost(*expr, q),
        final(state)@.counts_within(m + cost(*expr, q)),
    decreases expr, 0nat,
{
    let ghost start = state@;
    match expr {
        pre_ast::Expression::True { span } => Ok(Expression::True { span: *span }),
        pre_ast::Expression::False { span } => Ok(Expression::False { span: *span }),
        pre_ast::Expression::Unit { span } => Ok(Expression::Unit { span: *span }),
        pre_ast::Expression::String { span, value } => Ok(
            Expression::String { span: *span, value: value.clone() },
        ),
        pre_ast::Expression::Int { span, value } => Ok(
            Expression::Int { span: *span, value: value.clone() },
        ),
        pre_ast::Expression::Float { span, value } => Ok(
            Expression::Float { span: *span, value: value.clone() },
        ),
        pre_ast::Expression::Array { span, elements } => {
            if elements.len() == 0 {
                let element_type = state.supply.fresh_type();
                let typed = Expression::Array { span: *span, element_type, elements: Vec::new() };
                proof {
                    lemma_model_of_expressions(typed);
                    assert(expressions_model(typed->elements@) =~= Seq::<Expr>::empty());
                }
                Ok(typed)
            } else {
                proof {
                    assert(cost(*expr, q) == 1 + cost_of_elements(*elements, 0, q));
                    assert(cost_of_elements(*elements, 0, q) == cost(elements@[0], q)
                        + cost_of_elements(*elements, 1, q));
                }
                let head = match infer_expression(env, state, &elements[0], Ghost(q), Ghost(m)) {
                    Ok(head) => head,
                    Err(e) => {
                        return Err(e);
                    },
                };
                let element_type = head.get_type();
                let ghost first = head@;
                let ghost after_head = state@;
                let ghost wanted = check_elements(
                    env@,
                    after_head,
                    element_type@,
                    *elements,
                    1,
                    seq![first],
                );
                let mut typed: Vec<Expression> = Vec::new();
                typed.push(head);
                assert(expressions_model(typed@) =~= seq![first]);
                let ghost mut reach: nat = m + cost(elements@[0], q);
                let mut i: usize = 1;
                while i < elements.len()
                    invariant
                        1 <= i <= elements.len(),
                        env.wf(),
                        state.wf(),
                        env@.quantified_within(q),
                        *expr == (pre_ast::Expression::Array { span: *span, elements: *elements }),
                        wanted.outcome matches Err(failure) ==> inferred(env@, old(state)@, *expr)
                            == (Inferred { run: wanted.run, outcome: Err(failure) }),
                        check_elements(
                            env@,
                            state@,
                            element_type@,
                            *elements,
                            i as nat,
                            expressions_model(typed@),
                        ) == wanted,
                        state@.counts_within(reach),
                        reach + cost_of_elements(*elements, i as nat, q) <= m + cost(*expr, q),
                        state@.supply + cost_of_elements(*elements, i as nat, q) <= old(
                            state,
                        )@.supply + cost(*expr, q),
                        old(state)@.supply + cost(*expr, q) <= usize::MAX,
                        m + cost(*expr, q) <= usize::MAX,
                    decreases elements.len() - i,
                {
                    let ghost done = expressions_model(typed@);
                    proof {
                        assert(cost_of_elements(*elements, i as nat, q) == cost(
                            elements@[i as int],
                            q,
                        ) + cost_of_elements(*elements, (i + 1) as nat, q));
                    }
                    let element = match check_expression(
                        env,
                        state,
                        duplicate_type(&element_type),
                        &elements[i],
                        Ghost(q),
                        Ghost(reach),
                    ) {
                        Ok(element) => element,
                        Err(e) => {
                            return Err(e);
                        },
                    };
                    proof {
                        reach = reach + cost(elements@[i as int], q);
                    }
                    let ghost added = element@;
                    typed.push(element);
                    assert(expressions_model(typed@) =~= done.push(added));
                    i += 1;
                }
                let result = Expression::Array { span: *span, element_type, elements: typed };
                proof {
                    lemma_model_of_expressions(result);
                }
                Ok(result)
            }
        },
        pre_ast::Expression::Variable { span, variable } => {
            count_value(state, variable, Ghost(m));
            match env.values.get(variable) {
                Some(value) => Ok(value.to_expression(*span, &mut state.supply)),
                None => {
                    let names_in_scope = env.values.keys();
                    proof {
                        lemma_names_in_scope(names_in_scope@, env@.values);
                    }
                    Err(
                        TypeError::UnknownVariable {
                            span: *span,
                            variable: variable.duplicate(),
                            names_in_scope,
                        },
                    )
                },
            }
        },
        pre_ast::Expression::Constructor { span, constructor } => {
            count_constructor(state, constructor, Ghost(m));
            match env.constructors.get(constructor) {
                Some(found) => Ok(found.to_expression(*span, &mut state.supply)),
                None => {
                    let ctors_in_scope = env.constructors.keys();
                    proof {
                        lemma_names_in_scope(ctors_in_scope@, env@.constructors);
                    }
                    Err(
                        TypeError::UnknownConstructor {
                            span: *span,
                            constructor: constructor.duplicate(),
                            ctors_in_scope,
                        },
                    )
                },
            }
        },
        pre_ast::Expression::If { span, condition, true_clause, false_clause } => {
            let ghost c1 = cost(**condition, q);
            let ghost c2 = cost(**true_clause, q);
            let condition = match check_expression(
                env,
                state,
                Type::PrimConstructor(PrimType::Bool),
                condition,
                Ghost(q),
                Ghost(m),
            ) {
                Ok(condition) => condition,
                Err(e) => {
                    return Err(e);
                },
            };
            let true_clause = match infer_expression(
                env,
                state,
                true_clause,
                Ghost(q),
                Ghost(m + c1),
            ) {
                Ok(true_clause) => true_clause,
                Err(e) => {
                    return Err(e);
                },
            };
            let true_type = state.substitution.apply(true_clause.get_type());
            let false_clause = match check_expression(
                env,
                state,
                duplicate_type(&true_type),
                false_clause,
                Ghost(q),
                Ghost(m + c1 + c2),
            ) {
                Ok(false_clause) => false_clause,
                Err(e) => {
                    return Err(e);
                },
            };
            Ok(
                Expression::If {
                    span: *span,
                    output_type: true_type,
                    condition: Box::new(condition),
                    true_clause: Box::new(true_clause),
                    false_clause: Box::new(false_clause),
                },
            )
        },
        pre_ast::Expression::Call { span, function, arguments } => {
            let ghost c0 = cost(**function, q);
            proof {
                assert(cost(*expr, q) == c0 + cost_of_arguments(*arguments, 0, q) + 1);
            }
            let function = match infer_expression(env, state, function, Ghost(q), Ghost(m)) {
                Ok(function) => function,
                Err(e) => {
                    return Err(e);
                },
            };
            let ghost called = state@;
            let function_type = state.substitution.apply(function.get_type());
            let is_function = match &function_type {
                Type::Function { .. } => true,
                _ => false,
            };
            let is_variable = match &function_type {
                Type::Variable { .. } => true,
                _ => false,
            };
            if is_function {
                match function_type {
                    Type::Function { parameters, return_type } => {
                        proof {
                            lemma_model_of_parts(
                                Type::Function { parameters, return_type },
                            );
                        }
                        let arguments_len = arguments.len();
                        let parameters_len = parameters.len();
                        if arguments_len != parameters_len {
                            return Err(
                                TypeError::ArgumentLengthMismatch {
                                    function_span: function.get_span(),
                                    wanted: parameters_len,
                                    got: arguments_len,
                                },
                            );
                        }
                        let ghost wanted = check_arguments(
                            env@,
                            called,
                            models(parameters@),
                            *arguments,
                            0,
                            Seq::empty(),
                        );
                        let mut typed: Vec<Argument> = Vec::new();
                        assert(arguments_model(typed@) =~= Seq::<Expr>::empty());
                        let ghost mut reach: nat = m + c0;
                        let mut i: usize = 0;
                        while i < arguments.len()
                            invariant
                                i <= arguments.len(),
                                arguments.len() == parameters.len(),
                                env.wf(),
                                state.wf(),
                                env@.quantified_within(q),
                                *expr == (pre_ast::Expression::Call {
                                    span: *span,
                                    function: expr->Call_function,
                                    arguments: *arguments,
                                }),
                                wanted.outcome matches Err(failure) ==> inferred(env@, old(state)@, *expr)
                            == (Inferred { run: wanted.run, outcome: Err(failure) }),
                                check_arguments(
                                    env@,
                                    state@,
                                    models(parameters@),
                                    *arguments,
                                    i as nat,
                                    arguments_model(typed@),
                                ) == wanted,
                                state@.counts_within(reach),
                                reach + cost_of_arguments(*arguments, i as nat, q) + 1 <= m + cost(
                                    *expr,
                                    q,
                                ),
                                state@.supply + cost_of_arguments(*arguments, i as nat, q) + 1
                                    <= old(state)@.supply + cost(*expr, q),
                                old(state)@.supply + cost(*expr, q) <= usize::MAX,
                                m + cost(*expr, q) <= usize::MAX,
                            decreases arguments.len() - i,
                        {
                            let ghost done = arguments_model(typed@);
                            proof {
                                assert(cost_of_arguments(*arguments, i as nat, q) == cost(
                                    arguments@[i as int]->0,
                                    q,
                                ) + cost_of_arguments(*arguments, (i + 1) as nat, q));
                            }
                            match &arguments[i] {
                                pre_ast::Argument::Expression(argument) => {
                                    let argument = match check_expression(
                                        env,
                                        state,
                                        duplicate_type(&parameters[i]),
                                        argument,
                                        Ghost(q),
                                        Ghost(reach),
                                    ) {
                                        Ok(argument) => argument,
                                        Err(e) => {
                                            return Err(e);
                                        },
                                    };
                                    proof {
                                        reach = reach + cost(arguments@[i as int]->0, q);
                                    }
                                    let ghost added = argument@;
                                    typed.push(Argument::Expression(argument));
                                    assert(arguments_model(typed@) =~= done.push(added));
                                },
                            }
                            i += 1;
                        }
                        let result = Expression::Call {
                            span: *span,
                            call_type: *return_type,
                            function: Box::new(function),
                            arguments: typed,
                        };
                        proof {
                            lemma_model_of_expressions(result);
                        }
                        Ok(result)
                    },
                    _ => {
                        proof {
                            assert(false);
                        }
                        Err(
                            TypeError::NotAFunction {
                                span: function.get_span(),
                                actual_type: Type::PrimConstructor(PrimType::Unit),
                            },
                        )
                    },
                }
            } else if is_variable {
                let ghost wanted = infer_arguments(env@, called, *arguments, 0, Seq::empty());
                let mut typed: Vec<Argument> = Vec::new();
                assert(arguments_model(typed@) =~= Seq::<Expr>::empty());
                let ghost mut reach: nat = m + c0;
                let mut i: usize = 0;
                while i < arguments.len()
                    invariant
                        i <= arguments.len(),
                        env.wf(),
                        state.wf(),
                        env@.quantified_within(q),
                        *expr == (pre_ast::Expression::Call {
                            span: *span,
                            function: expr->Call_function,
                            arguments: *arguments,
                        }),
                        wanted.outcome matches Err(failure) ==> inferred(env@, old(state)@, *expr)
                            == (Inferred { run: wanted.run, outcome: Err(failure) }),
                        infer_arguments(
                            env@,
                            state@,
                            *arguments,
                            i as nat,
                            arguments_model(typed@),
                        ) == wanted,
                        state@.counts_within(reach),
                        reach + cost_of_arguments(*arguments, i as nat, q) + 1 <= m + cost(
                            *expr,
                            q,
                        ),
                        state@.supply + cost_of_arguments(*arguments, i as nat, q) + 1 <= old(
                            state,
                        )@.supply + cost(*expr, q),
                        old(state)@.supply + cost(*expr, q) <= usize::MAX,
                        m + cost(*expr, q) <= usize::MAX,
                    decreases arguments.len() - i,
                {
                    let ghost done = arguments_model(typed@);
                    proof {
                        assert(cost_of_arguments(*arguments, i as nat, q) == cost(
                            arguments@[i as int]->0,
                            q,
                        ) + cost_of_arguments(*arguments, (i + 1) as nat, q));
                    }
                    match &arguments[i] {
                        pre_ast::Argument::Expression(argument) => {
                            let argument = match infer_expression(
                                env,
                                state,
                                argument,
                                Ghost(q),
                                Ghost(reach),
                            ) {
                                Ok(argument) => argument,
                                Err(e) => {
                                    return Err(e);
                                },
                            };
                            proof {
                                reach = reach + cost(arguments@[i as int]->0, q);
                            }
                            let ghost added = argument@;
                            typed.push(Argument::Expression(argument));
                            assert(arguments_model(typed@) =~= done.push(added));
                        },
                    }
                    i += 1;
                }
                let parameters = argument_types(&typed);
                let call_type = state.supply.fresh_type();
                let expected = Type::Function {
                    parameters,
                    return_type: Box::new(duplicate_type(&call_type)),
                };
                proof {
                    lemma_model_of_parts(expected);
                }
                let constraint = Constraint { expected, actual: function_type };
                match unify(state, function.get_span(), constraint) {
                    Ok(()) => {},
                    Err(e) => {
                        return Err(e);
                    },
                }
                let result = Expression::Call {
                    span: *span,
                    call_type,
                    function: Box::new(function),
                    arguments: typed,
                };
                proof {
                    lemma_model_of_expressions(result);
                }
                Ok(result)
            } else {
                Err(TypeError::NotAFunction { span: function.get_span(), actual_type: function_type })
            }
        },
        pre_ast::Expression::Function {
            span,
            binders: pre_binders,
            return_type_annotation,
            body,
        } => {
            let mut env_values = env.values.duplicate();
            let (binders, original_value_references) = match enter_parameters(
                &mut env_values,
                state,
                pre_binders,
                Ghost(m),
            ) {
                Ok(entered) => entered,
                Err(e) => {
                    return Err(e);
                },
            };
            let inner = Env { values: env_values, constructors: env.constructors.duplicate() };
            let ghost c = cost(**body, q);
            let body = match return_type_annotation {
                Some(expected) => check_expression(
                    &inner,
                    state,
                    duplicate_type(expected),
                    body,
                    Ghost(q),
                    Ghost(m),
                ),
                None => infer_expression(&inner, state, body, Ghost(q), Ghost(m)),
            };
            let body = match body {
                Ok(body) => body,
                Err(e) => {
                    return Err(e);
                },
            };
            // Check for unused binders
            leave_parameters(state, &binders, Ghost(m + c));
            // Restore shadowed reference counts
            let ghost held = state.value_references@;
            let ghost kept = original_value_references@;
            state.value_references.extend(original_value_references);
            proof {
                lemma_counts_union(held, kept);
                assert forall|name: QualifiedText| #[trigger]
                    state@.value_references.contains_key(name)
                    implies state@.value_references[name] <= m + c by {
                    if counts(kept).contains_key(name) {
                    } else {
                        assert(counts(held).contains_key(name));
                    }
                }
            }
            Ok(Expression::Function { span: *span, binders, body: Box::new(body) })
        },
    }
}

/// See [`checked`].
fn check_expression(
    env: &Env,
    state: &mut State,
    expected: Type,
    expr: &pre_ast::Expression,
    Ghost(q): Ghost<nat>,
    Ghost(m): Ghost<nat>,
) -> (result: Result<Expression, TypeError>)
    requires
        env.wf(),
        old(state).wf(),
        room(env@, old(state)@, *expr, q, m),
    ensures
        final(state).wf(),
        final(state)@ == checked(env@, old(state)@, expected@, *expr).run,
        result matches Ok(typed) ==> checked(env@, old(state)@, expected@, *expr).outcome == Ok::<
            Expr,
            Failure,
        >(typed@),
        result matches Err(e) ==> checked(env@, old(state)@, expected@, *expr).outcome == Err::<
            Expr,
            Failure,
        >(e@),
        final(state)@.supply <= old(state)@.supply + cost(*expr, q),
        final(state)@.counts_within(m + cost(*expr, q)),
    decreases expr, 1nat,
{
    let expression = match infer_expression(env, state, expr, Ghost(q), Ghost(m)) {
        Ok(expression) => expression,
        Err(e) => {
            return Err(e);
        },
    };
    match unify(
        state,
        expression.get_span(),
        Constraint { expected, actual: expression.get_type() },
    ) {
        Ok(()) => {},
        Err(e) => {
            return Err(e);
        },
    }
    Ok(expression)
}

/// Infer the type of an expression.
///
/// Hands back the expression with a type at every node, or the first
/// failure. The state is changed either way: see [`inferred`].
pub fn infer(env: &Env, state: &mut State, expr: pre_ast::Expression) -> (result: Result<
    Expression,
    TypeError,
>)
    requires
        env.wf(),
        old(state).wf(),
        has_room(env@, old(state)@, expr),
    ensures
        final(state).wf(),
        final(state)@ == inferred(env@, old(state)@, expr).run,
        result matches Ok(typed) ==> inferred(env@, old(state)@, expr).outcome == Ok::<Expr, Failure>(
            typed@,
        ),
        result matches Err(e) ==> inferred(env@, old(state)@, expr).outcome == Err::<Expr, Failure>(
            e@,
        ),
{
    let ghost (q, m) = choose|q: nat, m: nat| room(env@, state@, expr, q, m);
    infer_expression(env, state, &expr, Ghost(q), Ghost(m))
}

/// Check an expression against the type `expected`: infer its type, and
/// unify the two.
pub fn check(env: &Env, state: &mut State, expected: Type, expr: pre_ast::Expression) -> (result:
    Result<Expression, TypeError>)
    requires
        env.wf(),
        old(state).wf(),
        has_room(env@, old(state)@, expr),
    ensures
        final(state).wf(),
        final(state)@ == checked(env@, old(state)@, expected@, expr).run,
        result matches Ok(typed) ==> checked(env@, old(state)@, expected@, expr).outcome == Ok::<
            Expr,
            Failure,
        >(typed@),
        result matches Err(e) ==> checked(env@, old(state)@, expected@, expr).outcome == Err::<
            Expr,
            Failure,
        >(e@),
{
    let ghost (q, m) = choose|q: nat, m: nat| room(env@, state@, expr, q, m);
    check_expression(env, state, expected, &expr, Ghost(q), Ghost(m))
}

/// The state in which a run starts: nothing bound, nothing counted, no
/// warning, and fresh variables from `supply` on.
pub open spec fn fresh_run(supply: nat) -> Run {
    Run {
        bindings: Map::empty(),
        supply,
        value_references: Map::empty(),
        constructor_references: Map::empty(),
        warnings: Seq::empty(),
    }
}

/// What checking a whole expression comes to: the expression is checked
/// against its annotation where it has one and else has its type inferred,
/// from a fresh state, and the bindings found are applied to the outcome.
pub open spec fn typechecked(
    env: Scope,
    supply: nat,
    annotation: Option<Ty>,
    e: pre_ast::Expression,
) -> Inferred {
    let found = match annotation {
        Some(expected) => checked(env, fresh_run(supply), expected, e),
        None => inferred(env, fresh_run(supply), e),
    };
    Inferred {
        run: found.run,
        outcome: match found.outcome {
            Ok(typed) => Ok(apply_to_expression(found.run.bindings, typed)),
            Err(failure) => Err(failure),
        },
    }
}

/// The type that an annotation asks for, as a mathematical value.
pub open spec fn annotated(type_annotation: Option<Type>) -> Option<Ty> {
    match type_annotation {
        Some(t) => Some(t@),
        None => None,
    }
}

/// What a check of a whole expression hands back, where `wanted` is what
/// the check comes to: on success the expression with its final types, the
/// counts of the references to values and to constructors, the counts of
/// the references to types as they were given, the warnings given and
/// behind them those of the check, and the supply; else the error.
pub open spec fn is_typechecked(
    result: Result<
        (Expression, ValueReferences, ConstructorReferences, TypeReferences, Warnings, Supply),
        TypeError,
    >,
    wanted: Inferred,
    type_references: TypeReferences,
    warnings: Seq<Warning>,
) -> bool {
    match result {
        Ok((typed, value_references, constructor_references, types, all, supply)) => {
            &&& wanted.outcome == Ok::<Expr, Failure>(typed@)
            &&& value_references.wf()
            &&& constructor_references.wf()
            &&& counts(value_references@) == wanted.run.value_references
            &&& counts(constructor_references@) == wanted.run.constructor_references
            &&& types == type_references
            &&& all@ == warnings + wanted.run.warnings
            &&& supply@ == wanted.run.supply
        },
        Err(e) => wanted.outcome == Err::<Expr, Failure>(e@),
    }
}

/// Check a whole expression, with nothing in scope and a new supply.
///
/// `type_references` and `warnings` are what reading the expression from
/// the syntax tree gave: see [`typecheck_with`].
pub fn typecheck(
    type_annotation: Option<Type>,
    expression: pre_ast::Expression,
    type_references: TypeReferences,
    warnings: Warnings,
) -> (result: Result<
    (Expression, ValueReferences, ConstructorReferences, TypeReferences, Warnings, Supply),
    TypeError,
>)
    requires
        has_room(
            Scope { values: Map::empty(), constructors: Map::empty() },
            fresh_run(0),
            expression,
        ),
    ensures
        is_typechecked(
            result,
            typechecked(
                Scope { values: Map::empty(), constructors: Map::empty() },
                0,
                annotated(type_annotation),
                expression,
            ),
            type_references,
            warnings@,
        ),
{
    let env = Env::new();
    assert(env@ == (Scope { values: Map::empty(), constructors: Map::empty() }));
    typecheck_with(&env, Supply(0), type_annotation, expression, type_references, warnings)
}

/// Check a whole expression: against `type_annotation` where it is given,
/// and else by inferring its type.
///
/// `type_references` and `warnings` are what reading the expression from
/// the syntax tree gave: the counts of the references to types, and the
/// warnings of that step.
///
/// On success hands back the expression with its final types, the counts of
/// the references to values and to constructors, the counts of the
/// references to types as they were given, the warnings given and behind
/// them those of the check, and the supply for whatever is checked next.
pub fn typecheck_with(
    env: &Env,
    supply: Supply,
    type_annotation: Option<Type>,
    expression: pre_ast::Expression,
    type_references: TypeReferences,
    warnings: Warnings,
) -> (result: Result<
    (Expression, ValueReferences, ConstructorReferences, TypeReferences, Warnings, Supply),
    TypeError,
>)
    requires
        env.wf(),
        has_room(env@, fresh_run(supply@), expression),
    ensures
        is_typechecked(
            result,
            typechecked(env@, supply@, annotated(type_annotation), expression),
            type_references,
            warnings@,
        ),
{
    let mut state = State::new(supply);
    let found = match type_annotation {
        Some(expected) => check(env, &mut state, expected, expression),
        None => infer(env, &mut state, expression),
    };
    let typed = match found {
        Ok(typed) => typed,
        Err(e) => {
            return Err(e);
        },
    };
    let State {
        substitution,
        warnings: more_warnings,
        value_references,
        constructor_references,
        supply,
    } = state;
    let mut all = warnings;
    let mut more_warnings = more_warnings;
    all.append(&mut more_warnings);
    let typed = substitution.apply_expression(typed);
    Ok((typed, value_references, constructor_references, type_references, all, supply))
}

/// [`typecheck_with`] where the check stays within the numbers of the
/// machine, and nothing where the supply or a count of references could run
/// out of them.
pub fn try_typecheck_with(
    env: &Env,
    supply: Supply,
    type_annotation: Option<Type>,
    expression: pre_ast::Expression,
    type_references: TypeReferences,
    warnings: Warnings,
) -> (result: Option<
    Result<
        (Expression, ValueReferences, ConstructorReferences, TypeReferences, Warnings, Supply),
        TypeError,
    >,
>)
    requires
        env.wf(),
    ensures
        result is Some <==> has_room(env@, fresh_run(supply@), expression),
        result matches Some(found) ==> is_typechecked(
            found,
            typechecked(env@, supply@, annotated(type_annotation), expression),
            type_references,
            warnings@,
        ),
{
    if can_typecheck(env, supply, &expression) {
        Some(typecheck_with(env, supply, type_annotation, expression, type_references, warnings))
    } else {
        None
    }
}

/// The first of `xs` and those behind it, where `xs` holds any.
pub fn split_first_owned<T>(xs: Vec<T>) -> (split: Option<(T, Vec<T>)>)
    ensures
        split is None <==> xs@.len() == 0,
        split matches Some((head, tail)) ==> head == xs@[0] && tail@ == xs@.skip(1),
{
    let mut xs = xs;
    if xs.len() == 0 {
        None
    } else {
        let ghost all = xs@;
        let head = xs.remove(0);
        assert(xs@ =~= all.skip(1));
        Some((head, xs))
    }
}

} // verus!
