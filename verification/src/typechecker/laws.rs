//! What holds of every run of the checker.

use crate::ast::expression::{array_type, bool_type, type_of, Binder, Expr};
use crate::ast::name::{unqualified_text, QualifiedText};
use crate::ast::types::{vars, PrimType, Ty};
use crate::result::Failure;
use crate::supply::anonymous;
use crate::token::Span;
use crate::typechecker::bindings::{acyclic, apply, Bindings};
use crate::typechecker::env::{Env, Scope};
use crate::typechecker::limits::{cost, cost_of_elements, has_room, room};
use crate::typechecker::state::State;
use crate::typechecker::inference::{conflict, enter, inferred, leave, Entered};
use crate::typechecker::pre_ast::{Expression, FunctionBinder};
use crate::ast::types::vars_of_all;
use crate::typechecker::bindings::lemma_empty_acyclic;
use crate::typechecker::scheme::{rename, rename_all, renaming, Polytype};
use crate::typechecker::substitution::{apply_to_expression, lemma_apply_to_expression_idempotent};
use crate::typechecker::state::{Counts, Run};
use crate::typechecker::inference::{check_arguments, check_elements, checked, infer_arguments, unify_in};
use crate::typechecker::pre_ast::Argument;
use crate::typechecker::unification::{blame_for, goal_size, goal_vars, lemma_bound_is_less, lemma_rest_is_less, lemma_split_is_less, solve, stacked, step, Goal, Step, Unified};
use vstd::prelude::*;

verus! {

/// The type of a literal: fixed by the kind of literal.
pub open spec fn literal_type(e: Expression) -> Ty {
    match e {
        Expression::String { .. } => Ty::PrimConstructor(PrimType::String),
        Expression::Int { .. } => Ty::PrimConstructor(PrimType::Int),
        Expression::Float { .. } => Ty::PrimConstructor(PrimType::Float),
        Expression::Unit { .. } => Ty::PrimConstructor(PrimType::Unit),
        _ => bool_type(),
    }
}

/// Is the expression a literal?
pub open spec fn is_literal(e: Expression) -> bool {
    e is True || e is False || e is Unit || e is String || e is Int || e is Float
}

/// A literal with its type: the literal of the same kind, at the same place
/// and with the same text.
pub open spec fn typed_literal(e: Expression) -> Expr {
    match e {
        Expression::String { span, value } => Expr::String { span, value: value@ },
        Expression::Int { span, value } => Expr::Int { span, value: value@ },
        Expression::Float { span, value } => Expr::Float { span, value: value@ },
        Expression::Unit { span } => Expr::Unit { span },
        Expression::False { span } => Expr::False { span },
        _ => Expr::True { span: literal_span(e) },
    }
}

/// Inferring a literal yields the literal of the same kind, at the same
/// place and with the same text, which has the type of its kind; and it
/// leaves the state as it was: no variable drawn, nothing bound, nothing
/// counted, no warning.
pub proof fn lemma_literals_have_fixed_types(env: Scope, run: Run, e: Expression)
    requires
        is_literal(e),
    ensures
        inferred(env, run, e).run == run,
        inferred(env, run, e).outcome == Ok::<Expr, Failure>(typed_literal(e)),
        type_of(typed_literal(e)) == literal_type(e),
        inferred(env, run, e).outcome matches Ok(typed) && type_of(typed) == literal_type(e),
{
}

/// No scheme in scope has more variables than the machine can count.
pub proof fn lemma_schemes_are_countable(env: &Env)
    requires
        env.wf(),
    ensures
        env@.quantified_within(usize::MAX as nat),
{
    env.values.lemma_entries();
    env.constructors.lemma_entries();
    assert forall|name: QualifiedText| #[trigger] env@.values.contains_key(name) implies env@.values[name].scheme().forall.len()
        <= usize::MAX by {
        let i = choose|i: int|
            0 <= i < env.values.entries().len() && (#[trigger] env.values.entries()[i]).0@ == name;
        let value = env.values.entries()[i].1;
        assert(env@.values[name] == value@);
        match value {
            crate::typechecker::env::EnvValue::ModuleValue { variable_scheme, .. } => {
                assert(variable_scheme@.forall.len() == variable_scheme.forall.len());
            },
            crate::typechecker::env::EnvValue::ForeignVariable { variable_scheme, .. } => {
                assert(variable_scheme@.forall.len() == variable_scheme.forall.len());
            },
            crate::typechecker::env::EnvValue::ImportedVariable { variable_scheme, .. } => {
                assert(variable_scheme@.forall.len() == variable_scheme.forall.len());
            },
        }
    }
    assert forall|name: QualifiedText| #[trigger]
        env@.constructors.contains_key(name) implies env@.constructors[name].scheme().forall.len()
        <= usize::MAX by {
        let i = choose|i: int|
            0 <= i < env.constructors.entries().len() && (#[trigger] env.constructors.entries()[i]).0@
                == name;
        let constructor = env.constructors.entries()[i].1;
        assert(env@.constructors[name] == constructor@);
        match constructor {
            crate::typechecker::env::EnvConstructor::ModuleConstructor { constructor_scheme, .. } => {
                assert(constructor_scheme@.forall.len() == constructor_scheme.forall.len());
            },
            crate::typechecker::env::EnvConstructor::ImportedConstructor {
                constructor_scheme,
                ..
            } => {
                assert(constructor_scheme@.forall.len() == constructor_scheme.forall.len());
            },
        }
    }
}

/// A literal needs no room: whatever is in scope and whatever the state
/// holds, inferring a literal stays within the numbers of the machine.
pub proof fn lemma_literals_have_room(env: &Env, state: &State, e: Expression)
    requires
        env.wf(),
        state.wf(),
        is_literal(e),
    ensures
        has_room(env@, state@, e),
{
    lemma_schemes_are_countable(env);
    assert(cost(e, usize::MAX as nat) == 0);
    assert(room(env@, state@, e, usize::MAX as nat, usize::MAX as nat));
}

/// The empty array needs room for one variable: inferring it stays within
/// the numbers of the machine where the supply and the counts of references
/// can each grow by one.
pub proof fn lemma_empty_array_has_room(env: &Env, state: &State, e: Expression)
    requires
        env.wf(),
        state.wf(),
        e matches Expression::Array { elements, .. } && elements@.len() == 0,
        state@.supply < usize::MAX,
        state@.counts_within((usize::MAX - 1) as nat),
    ensures
        has_room(env@, state@, e),
{
    lemma_schemes_are_countable(env);
    assert(cost_of_elements(e->elements, 0, usize::MAX as nat) == 0);
    assert(cost(e, usize::MAX as nat) == 1);
    assert(room(env@, state@, e, usize::MAX as nat, (usize::MAX - 1) as nat));
}

/// Where a literal stands in the source.
pub open spec fn literal_span(e: Expression) -> Span {
    match e {
        Expression::True { span } => span,
        Expression::False { span } => span,
        Expression::Unit { span } => span,
        Expression::String { span, .. } => span,
        Expression::Int { span, .. } => span,
        Expression::Float { span, .. } => span,
        _ => Span { start_offset: 0, end_offset: 0 },
    }
}

/// An array whose first two elements are literals of different types is
/// refused: the second element is reported not to have the type of the first.
pub proof fn lemma_mixed_array_is_refused(env: Scope, run: Run, e: Expression)
    requires
        acyclic(run.bindings),
        e is Array,
        e->elements@.len() >= 2,
        is_literal(e->elements@[0]),
        is_literal(e->elements@[1]),
        literal_type(e->elements@[0]) != literal_type(e->elements@[1]),
    ensures
        inferred(env, run, e) == (crate::typechecker::inference::Inferred {
            run,
            outcome: Err(
                Failure::TypesNotEqual {
                    span: literal_span(e->elements@[1]),
                    expected: literal_type(e->elements@[0]),
                    actual: literal_type(e->elements@[1]),
                },
            ),
        }),
{
    let elements = e->elements;
    let first = elements@[0];
    let second = elements@[1];
    lemma_literals_have_fixed_types(env, run, first);
    lemma_literals_have_fixed_types(env, run, second);
    let head = inferred(env, run, first).outcome->Ok_0;
    let other = inferred(env, run, second).outcome->Ok_0;
    let expected = literal_type(first);
    let actual = literal_type(second);
    assert(crate::ast::expression::span_of(other) == literal_span(second));
    let goals = seq![Goal { expected, actual, blame: None }];
    assert(goals.last() == Goal { expected, actual, blame: None });
    assert(apply(run.bindings, expected) == expected);
    assert(apply(run.bindings, actual) == actual);
    assert(step(expected, actual) is Clash);
    assert(solve(run.bindings, literal_span(second), goals) == (Unified {
        bindings: run.bindings,
        outcome: Err(
            Failure::TypesNotEqual { span: literal_span(second), expected, actual },
        ),
    }));
    let one = checked(env, run, expected, second);
    assert(one.run == run);
    assert(check_elements(env, run, expected, elements, 1, seq![head]).outcome is Err);
}

/// A call of a literal is refused, whatever the arguments are: a literal is
/// no function.
pub proof fn lemma_literal_is_not_a_function(env: Scope, run: Run, e: Expression)
    requires
        acyclic(run.bindings),
        e is Call,
        is_literal(*e->Call_function),
    ensures
        inferred(env, run, e) == (crate::typechecker::inference::Inferred {
            run,
            outcome: Err(
                Failure::NotAFunction {
                    span: literal_span(*e->Call_function),
                    actual_type: literal_type(*e->Call_function),
                },
            ),
        }),
{
    let function = *e->Call_function;
    lemma_literals_have_fixed_types(env, run, function);
    let typed = inferred(env, run, function).outcome->Ok_0;
    assert(crate::ast::expression::span_of(typed) == literal_span(function));
    assert(apply(run.bindings, literal_type(function)) == literal_type(function));
}

/// Inferring the empty array yields an array of a fresh type variable, which
/// the substitution does not bind, where the substitution binds none but
/// variables that the supply has handed out.
pub proof fn lemma_empty_array_is_polymorphic(env: Scope, run: Run, e: Expression)
    requires
        e matches Expression::Array { elements, .. } && elements@.len() == 0,
        forall|v: nat| run.bindings.contains_key(v) ==> v < run.supply,
    ensures
        inferred(env, run, e).outcome matches Ok(typed) && type_of(typed) == array_type(
            anonymous(run.supply),
        ),
        inferred(env, run, e).run.supply == run.supply + 1,
        inferred(env, run, e).run.bindings == run.bindings,
        !inferred(env, run, e).run.bindings.contains_key(run.supply),
{
}

/// A call with more or fewer arguments than the called function has
/// parameters is refused, whatever the arguments are.
pub proof fn lemma_call_arity(env: Scope, run: Run, e: Expression)
    requires
        e is Call,
        inferred(env, run, *e->Call_function).outcome matches Ok(function) && (apply(
            inferred(env, run, *e->Call_function).run.bindings,
            type_of(function),
        ) matches Ty::Function { parameters, .. } && parameters.len() != e->Call_arguments@.len()),
    ensures
        inferred(env, run, e).outcome matches Err(
            Failure::ArgumentLengthMismatch { wanted, got, .. },
        ) && got == e->Call_arguments@.len() && (apply(
            inferred(env, run, *e->Call_function).run.bindings,
            type_of(inferred(env, run, *e->Call_function).outcome->Ok_0),
        ) matches Ty::Function { parameters, .. } && wanted == parameters.len()),
{
}

/// A type variable that the programmer named agrees with no type but a
/// variable: unifying it with anything else fails, the two reported as not equal.
pub proof fn lemma_named_variable_is_rigid(
    s: Bindings,
    span: Span,
    var: nat,
    name: Seq<char>,
    other: Ty,
)
    requires
        acyclic(s),
        !s.contains_key(var),
        !(apply(s, other) is Variable),
    ensures
        solve(
            s,
            span,
            seq![
                Goal {
                    expected: Ty::Variable { var, source_name: Some(name) },
                    actual: other,
                    blame: None,
                },
            ],
        ) == (Unified {
            bindings: s,
            outcome: Err(
                Failure::TypesNotEqual {
                    span,
                    expected: Ty::Variable { var, source_name: Some(name) },
                    actual: apply(s, other),
                },
            ),
        }),
        solve(
            s,
            span,
            seq![
                Goal {
                    expected: other,
                    actual: Ty::Variable { var, source_name: Some(name) },
                    blame: None,
                },
            ],
        ) == (Unified {
            bindings: s,
            outcome: Err(
                Failure::TypesNotEqual {
                    span,
                    expected: apply(s, other),
                    actual: Ty::Variable { var, source_name: Some(name) },
                },
            ),
        }),
{
    let named = Ty::Variable { var, source_name: Some(name) };
    assert(apply(s, named) == named);
    let first = seq![Goal { expected: named, actual: other, blame: None }];
    assert(first.last() == Goal { expected: named, actual: other, blame: None });
    assert(step(named, apply(s, other)) is Clash);
    let second = seq![Goal { expected: other, actual: named, blame: None }];
    assert(second.last() == Goal { expected: other, actual: named, blame: None });
    assert(step(apply(s, other), named) is Clash);
}

/// Two variables that the programmer named unify where they have one name,
/// and then nothing is bound; with different names they do not unify.
pub proof fn lemma_named_variables_unify_by_name(
    s: Bindings,
    span: Span,
    first: nat,
    first_name: Seq<char>,
    second: nat,
    second_name: Seq<char>,
)
    requires
        acyclic(s),
        !s.contains_key(first),
        !s.contains_key(second),
    ensures
        ({
            let expected = Ty::Variable { var: first, source_name: Some(first_name) };
            let actual = Ty::Variable { var: second, source_name: Some(second_name) };
            solve(s, span, seq![Goal { expected, actual, blame: None }]) == (Unified {
                bindings: s,
                outcome: if first_name == second_name {
                    Ok(())
                } else {
                    Err(Failure::TypesNotEqual { span, expected, actual })
                },
            })
        }),
{
    let expected = Ty::Variable { var: first, source_name: Some(first_name) };
    let actual = Ty::Variable { var: second, source_name: Some(second_name) };
    let goals = seq![Goal { expected, actual, blame: None }];
    assert(apply(s, expected) == expected);
    assert(apply(s, actual) == actual);
    assert(goals.last() == Goal { expected, actual, blame: None });
    assert(goals.drop_last() =~= Seq::<Goal>::empty());
    if first_name == second_name {
        assert(step(expected, actual) is Same);
        assert(solve(s, span, goals) == solve(s, span, goals.drop_last()));
    } else {
        assert(step(expected, actual) is Clash);
    }
}

/// An anonymous variable that is not bound yet takes any type that does not
/// hold it: unifying the two binds the variable to the type as the bindings
/// make it, and nothing else.
pub proof fn lemma_anonymous_variable_takes_any_type(s: Bindings, span: Span, var: nat, other: Ty)
    requires
        acyclic(s),
        !s.contains_key(var),
        !vars(apply(s, other)).contains(var),
    ensures
        solve(s, span, seq![Goal { expected: anonymous(var), actual: other, blame: None }]) == (
        Unified { bindings: s.insert(var, apply(s, other)), outcome: Ok(()) }),
{
    let variable = anonymous(var);
    let goals = seq![Goal { expected: variable, actual: other, blame: None }];
    let to = apply(s, other);
    assert(apply(s, variable) == variable);
    assert(goals.last() == Goal { expected: variable, actual: other, blame: None });
    assert(goals.drop_last() =~= Seq::<Goal>::empty());
    assert(step(variable, to) == Step::Bind { var, to });
    if to is Variable {
        assert(vars(to).contains(to->var));
    }
    lemma_bound_is_less(s, goals);
    assert(solve(s, span, goals) == solve(s.insert(var, to), span, goals.drop_last()));
}

/// A variable does not unify with a type that holds it: the failure names
/// the variable and the type.
pub proof fn lemma_occurs_check(s: Bindings, span: Span, var: nat, other: Ty)
    requires
        acyclic(s),
        !s.contains_key(var),
        vars(apply(s, other)).contains(var),
        !(apply(s, other) is Variable),
    ensures
        solve(s, span, seq![Goal { expected: anonymous(var), actual: other, blame: None }]) == (
        Unified {
            bindings: s,
            outcome: Err(
                Failure::InfiniteType { span, var, infinite_type: apply(s, other) },
            ),
        }),
        solve(s, span, seq![Goal { expected: other, actual: anonymous(var), blame: None }]) == (
        Unified {
            bindings: s,
            outcome: Err(
                Failure::InfiniteType { span, var, infinite_type: apply(s, other) },
            ),
        }),
{
    let variable = anonymous(var);
    assert(apply(s, variable) == variable);
    let first = seq![Goal { expected: variable, actual: other, blame: None }];
    assert(first.last() == Goal { expected: variable, actual: other, blame: None });
    assert(step(variable, apply(s, other)) == Step::Bind { var, to: apply(s, other) });
    let second = seq![Goal { expected: other, actual: variable, blame: None }];
    assert(second.last() == Goal { expected: other, actual: variable, blame: None });
    assert(step(apply(s, other), variable) == Step::Bind { var, to: apply(s, other) });
}

/// Every fresh variable of an instance has a number that the supply hands
/// out for that instance: from `base` on, and below `base` and the number of
/// the scheme's variables.
pub proof fn lemma_renaming_is_fresh(forall: Seq<nat>, base: nat, n: nat)
    requires
        n <= forall.len(),
    ensures
        forall|v: nat| #[trigger]
            renaming(forall, base, n).contains_key(v) ==> (base <= renaming(forall, base, n)[v]
                && renaming(forall, base, n)[v] < base + n),
        forall|i: int| 0 <= i < n ==> renaming(forall, base, n).contains_key(#[trigger] forall[i]),
    decreases n,
{
    if n > 0 {
        lemma_renaming_is_fresh(forall, base, (n - 1) as nat);
        let before = renaming(forall, base, (n - 1) as nat);
        let now = renaming(forall, base, n);
        assert(now == before.insert(forall[n - 1], (base + n - 1) as nat));
        assert forall|v: nat| #[trigger] now.contains_key(v) implies (base <= now[v] && now[v]
            < base + n) by {
            if v != forall[n - 1] {
                assert(before.contains_key(v));
            }
        }
        assert forall|i: int| 0 <= i < n implies now.contains_key(#[trigger] forall[i]) by {
            if i < n - 1 {
                assert(before.contains_key(forall[i]));
            }
        }
    }
}

/// Two uses of one scheme share no fresh variable: where the supply stands
/// behind the variables of the first use when the second is made, no
/// variable of the scheme is renamed to the same variable twice.
pub proof fn lemma_instances_are_independent(scheme: Polytype, first: nat, second: nat)
    requires
        first + scheme.forall.len() <= second,
    ensures
        forall|v: nat, w: nat|
            renaming(scheme.forall, first, scheme.forall.len()).contains_key(v) && renaming(
                scheme.forall,
                second,
                scheme.forall.len(),
            ).contains_key(w) ==> #[trigger] renaming(
                scheme.forall,
                first,
                scheme.forall.len(),
            )[v] != #[trigger] renaming(scheme.forall, second, scheme.forall.len())[w],
{
    lemma_renaming_is_fresh(scheme.forall, first, scheme.forall.len());
    lemma_renaming_is_fresh(scheme.forall, second, scheme.forall.len());
}

/// The variables that two types share.
pub open spec fn shared(a: Ty, b: Ty) -> Set<nat> {
    vars(a).intersect(vars(b))
}

/// Two uses of one name get instances of their own. Each use of a value in
/// scope has the type of the value's scheme with fresh variables from the
/// supply in place of those that stand for any type. Where the second use
/// comes when the run has carried on from the first, the two instances
/// share no variable but those of the scheme's type that stand for
/// themselves: what one use's variables are bound to says nothing of the
/// other's.
pub proof fn lemma_two_uses_have_their_own_variables(
    env: Scope,
    run: Run,
    later: Run,
    first: Expression,
    second: Expression,
)
    requires
        first is Variable,
        second is Variable,
        first->variable@ == second->variable@,
        env.values.contains_key(first->variable@),
        carries_on(inferred(env, run, first).run, later),
    ensures
        ({
            let scheme = env.values[first->variable@].scheme();
            let one = inferred(env, run, first);
            let other = inferred(env, later, second);
            &&& one.outcome matches Ok(typed) && type_of(typed) == scheme.instance(run.supply)
            &&& other.outcome matches Ok(typed) && type_of(typed) == scheme.instance(later.supply)
            &&& one.run.supply == run.supply + scheme.forall.len()
            &&& run.supply + scheme.forall.len() <= later.supply
            &&& forall|v: nat| #[trigger]
                shared(scheme.instance(run.supply), scheme.instance(later.supply)).contains(v)
                    ==> vars(scheme.signature).contains(v) && !scheme.forall.contains(v)
        }),
{
    let scheme = env.values[first->variable@].scheme();
    assert forall|v: nat| #[trigger]
        shared(scheme.instance(run.supply), scheme.instance(later.supply)).contains(
            v,
        ) implies vars(scheme.signature).contains(v) && !scheme.forall.contains(v) by {
        lemma_instance_variables_are_fresh(scheme, run.supply, v);
        lemma_instance_variables_are_fresh(scheme, later.supply, v);
    }
}

/// Two uses of one name in one expression get instances of their own:
/// whatever is inferred between the first use and the second, the second
/// comes when the run has carried on from the first.
pub proof fn lemma_uses_in_one_expression_are_independent(
    env: Scope,
    run: Run,
    first: Expression,
    between: Expression,
    second: Expression,
)
    requires
        acyclic(run.bindings),
        first is Variable,
        second is Variable,
        first->variable@ == second->variable@,
        env.values.contains_key(first->variable@),
    ensures
        ({
            let scheme = env.values[first->variable@].scheme();
            let one = inferred(env, run, first);
            let later = inferred(env, one.run, between).run;
            let other = inferred(env, later, second);
            &&& one.outcome matches Ok(typed) && type_of(typed) == scheme.instance(run.supply)
            &&& other.outcome matches Ok(typed) && type_of(typed) == scheme.instance(later.supply)
            &&& run.supply + scheme.forall.len() <= later.supply
            &&& forall|v: nat| #[trigger]
                shared(scheme.instance(run.supply), scheme.instance(later.supply)).contains(v)
                    ==> vars(scheme.signature).contains(v) && !scheme.forall.contains(v)
        }),
{
    lemma_inference_carries_on(env, run, first);
    let one = inferred(env, run, first);
    lemma_inference_carries_on(env, one.run, between);
    lemma_two_uses_have_their_own_variables(
        env,
        run,
        inferred(env, one.run, between).run,
        first,
        second,
    );
}

/// `conflict` finds the first parameter of the name, if there is any.
pub proof fn lemma_conflict(done: Seq<Binder>, name: Seq<char>)
    ensures
        conflict(done, name) is None <==> forall|t: int|
            0 <= t < done.len() ==> (#[trigger] done[t]).value != name,
        conflict(done, name) matches Some(span) ==> exists|t: int|
            0 <= t < done.len() && (#[trigger] done[t]).value == name && done[t].span == span
                && forall|u: int| 0 <= u < t ==> (#[trigger] done[u]).value != name,
    decreases done.len(),
{
    if done.len() > 0 {
        let rest = done.drop_first();
        lemma_conflict(rest, name);
        if done[0].value == name {
            assert(done[0].value == name && done[0].span == conflict(done, name)->0);
        } else {
            if conflict(rest, name) is None {
                assert forall|t: int| 0 <= t < done.len() implies (#[trigger] done[t]).value
                    != name by {
                    if t > 0 {
                        assert(rest[t - 1] == done[t]);
                    }
                }
            } else {
                let t = choose|t: int|
                    0 <= t < rest.len() && (#[trigger] rest[t]).value == name && rest[t].span
                        == conflict(rest, name)->0 && forall|u: int|
                        0 <= u < t ==> (#[trigger] rest[u]).value != name;
                assert(done[t + 1] == rest[t]);
                assert forall|u: int| 0 <= u < t + 1 implies (#[trigger] done[u]).value
                    != name by {
                    if u > 0 {
                        assert(rest[u - 1] == done[u]);
                    }
                }
                assert(done[t + 1].value == name);
            }
            if forall|t: int| 0 <= t < done.len() ==> (#[trigger] done[t]).value != name {
                assert forall|t: int| 0 <= t < rest.len() implies (#[trigger] rest[t]).value
                    != name by {
                    assert(rest[t] == done[t + 1]);
                }
            }
        }
    }
}

/// The parameters entered so far are the first `k` of `binders`.
pub open spec fn entered_upto(entered: Entered, binders: Seq<FunctionBinder>, k: nat) -> bool {
    &&& entered.failure is None
    &&& k <= binders.len()
    &&& entered.binders.len() == k
    &&& forall|t: int|
        0 <= t < k ==> (#[trigger] entered.binders[t]).value == binders[t].name()
            && entered.binders[t].span == binders[t].span()
}

/// `later` is the first parameter that has the name of one before it, and
/// `earlier` is the first parameter of that name.
pub open spec fn first_duplicate(binders: Seq<FunctionBinder>, earlier: int, later: int) -> bool {
    &&& 0 <= earlier < later < binders.len()
    &&& binders[earlier].name() == binders[later].name()
    &&& forall|u: int| 0 <= u < earlier ==> (#[trigger] binders[u]).name() != binders[later].name()
    &&& forall|u: int, v: int|
        0 <= u < v < later ==> (#[trigger] binders[u]).name() != (#[trigger] binders[v]).name()
}

/// Entering parameters stops at the first that has the name of one before it.
pub proof fn lemma_enter_stops_at_duplicate(
    entered: Entered,
    binders: Seq<FunctionBinder>,
    k: nat,
    earlier: int,
    later: int,
)
    requires
        entered_upto(entered, binders, k),
        first_duplicate(binders, earlier, later),
        k <= later,
    ensures
        enter(entered, binders, k).failure == Some(
            Failure::DuplicateFunctionBinder {
                previous_binder: binders[earlier].span(),
                duplicate_binder: binders[later].span(),
            },
        ),
    decreases later - k,
{
    let binder = binders[k as int];
    lemma_conflict(entered.binders, binder.name());
    if k == later {
        assert(entered.binders[earlier].value == binder.name());
        let found = conflict(entered.binders, binder.name());
        let t = choose|t: int|
            0 <= t < entered.binders.len() && (#[trigger] entered.binders[t]).value == binder.name()
                && entered.binders[t].span == found->0 && forall|u: int|
                0 <= u < t ==> (#[trigger] entered.binders[u]).value != binder.name();
        if t < earlier {
            assert(binders[t].name() != binders[later].name());
        }
        if earlier < t {
            assert(entered.binders[earlier].value != binder.name());
        }
    } else {
        assert forall|t: int| 0 <= t < entered.binders.len() implies (#[trigger] entered.binders[t]).value
            != binder.name() by {
            assert(binders[t].name() != binders[k as int].name());
        }
        let next = enter_one(entered, binder);
        assert(enter(entered, binders, k) == enter(next, binders, k + 1));
        assert forall|t: int| 0 <= t < k + 1 implies (#[trigger] next.binders[t]).value
            == binders[t].name() && next.binders[t].span == binders[t].span() by {
            if t < k {
                assert(next.binders[t] == entered.binders[t]);
            }
        }
        lemma_enter_stops_at_duplicate(next, binders, k + 1, earlier, later);
    }
}

/// What entering one parameter makes of the scope, where no parameter
/// before it has its name.
pub open spec fn enter_one(entered: Entered, binder: FunctionBinder) -> Entered {
    let run = entered.run;
    let binder_type = match binder->type_annotation {
        Some(annotation) => annotation@,
        None => anonymous(run.supply),
    };
    let name = unqualified_text(binder.name());
    let hides = run.value_references.contains_key(name);
    Entered {
        values: entered.values.insert(
            name,
            crate::typechecker::env::ScopedValue::ModuleValue {
                span: binder.span(),
                variable_scheme: Polytype::plain(binder_type),
                variable: binder.name(),
            },
        ),
        run: Run {
            supply: if binder->type_annotation is Some {
                run.supply
            } else {
                run.supply + 1
            },
            value_references: if hides {
                run.value_references.insert(name, 0)
            } else {
                run.value_references
            },
            ..run
        },
        saved: if hides {
            entered.saved.insert(name, run.value_references[name])
        } else {
            entered.saved
        },
        binders: entered.binders.push(
            Binder { span: binder.span(), binder_type, value: binder.name() },
        ),
        failure: None,
    }
}

/// A function with two parameters of one name is refused: the failure points
/// at the first parameter of that name and at the first that repeats a name.
pub proof fn lemma_duplicate_binder_is_rejected(
    env: Scope,
    run: Run,
    e: Expression,
    earlier: int,
    later: int,
)
    requires
        e is Function,
        first_duplicate(e->binders@, earlier, later),
    ensures
        inferred(env, run, e).outcome == Err::<Expr, Failure>(
            Failure::DuplicateFunctionBinder {
                previous_binder: e->binders@[earlier].span(),
                duplicate_binder: e->binders@[later].span(),
            },
        ),
{
    let start = Entered {
        values: env.values,
        run,
        saved: Map::empty(),
        binders: Seq::empty(),
        failure: None,
    };
    lemma_enter_stops_at_duplicate(start, e->binders@, 0, earlier, later);
}

/// What was put aside of the counts `original` while the first `k`
/// parameters were entered: the count of every name that a parameter hides,
/// as it was; every other count is still in place.
pub open spec fn put_aside(
    entered: Entered,
    binders: Seq<FunctionBinder>,
    k: nat,
    original: Counts,
) -> bool {
    &&& forall|n: QualifiedText| #[trigger]
        entered.run.value_references.contains_key(n) <==> original.contains_key(n)
    &&& forall|n: QualifiedText| #[trigger]
        entered.saved.contains_key(n) ==> original.contains_key(n) && entered.saved[n]
            == original[n]
    &&& forall|n: QualifiedText|
        original.contains_key(n) && !entered.saved.contains_key(n)
            ==> #[trigger] entered.run.value_references[n] == original[n]
    &&& forall|t: int|
        0 <= t < k && original.contains_key(unqualified_text((#[trigger] binders[t]).name()))
            ==> entered.saved.contains_key(unqualified_text(binders[t].name()))
    &&& forall|n: QualifiedText| #[trigger]
        entered.saved.contains_key(n) ==> exists|t: int|
            0 <= t < k && n == unqualified_text((#[trigger] binders[t]).name())
}

/// Entering parameters puts aside the count of every name that they hide.
pub proof fn lemma_enter_puts_counts_aside(
    entered: Entered,
    binders: Seq<FunctionBinder>,
    k: nat,
    original: Counts,
)
    requires
        entered_upto(entered, binders, k),
        put_aside(entered, binders, k, original),
    ensures
        enter(entered, binders, k).failure is None ==> put_aside(
            enter(entered, binders, k),
            binders,
            binders.len(),
            original,
        ),
    decreases binders.len() - k,
{
    if k < binders.len() {
        let binder = binders[k as int];
        lemma_conflict(entered.binders, binder.name());
        if conflict(entered.binders, binder.name()) is None {
            let next = enter_one(entered, binder);
            assert(enter(entered, binders, k) == enter(next, binders, k + 1));
            let name = unqualified_text(binder.name());
            assert forall|t: int| 0 <= t < k + 1 implies (#[trigger] next.binders[t]).value
                == binders[t].name() && next.binders[t].span == binders[t].span() by {
                if t < k {
                    assert(next.binders[t] == entered.binders[t]);
                }
            }
            // No parameter before this one has its name, so its count is not put aside yet.
            assert(!entered.saved.contains_key(name)) by {
                if entered.saved.contains_key(name) {
                    let t = choose|t: int|
                        0 <= t < k && name == unqualified_text((#[trigger] binders[t]).name());
                    assert(entered.binders[t].value == binders[t].name());
                    assert(binders[t].name() == binder.name());
                }
            }
            assert forall|n: QualifiedText| #[trigger]
                next.saved.contains_key(n) implies exists|t: int|
                0 <= t < k + 1 && n == unqualified_text((#[trigger] binders[t]).name()) by {
                if n == name {
                    assert(n == unqualified_text(binders[k as int].name()));
                } else {
                    let t = choose|t: int|
                        0 <= t < k && n == unqualified_text((#[trigger] binders[t]).name());
                    assert(0 <= t < k + 1);
                }
            }
            assert forall|t: int|
                0 <= t < k + 1 && original.contains_key(
                    unqualified_text((#[trigger] binders[t]).name()),
                ) implies next.saved.contains_key(unqualified_text(binders[t].name())) by {
                if t < k {
                    assert(entered.saved.contains_key(unqualified_text(binders[t].name())));
                }
            }
            assert(put_aside(next, binders, k + 1, original));
            lemma_enter_puts_counts_aside(next, binders, k + 1, original);
        }
    }
}

/// Leaving a function gives every name that its parameters hid the count
/// that it had before: the references inside the function do not leak out.
pub proof fn lemma_shadowed_counts_are_restored(env: Scope, run: Run, e: Expression, i: int)
    requires
        e is Function,
        0 <= i < e->binders@.len(),
        inferred(env, run, e).outcome is Ok,
        run.value_references.contains_key(unqualified_text(e->binders@[i].name())),
    ensures
        inferred(env, run, e).run.value_references.contains_key(
            unqualified_text(e->binders@[i].name()),
        ),
        inferred(env, run, e).run.value_references[unqualified_text(e->binders@[i].name())]
            == run.value_references[unqualified_text(e->binders@[i].name())],
{
    let start = Entered {
        values: env.values,
        run,
        saved: Map::empty(),
        binders: Seq::empty(),
        failure: None,
    };
    assert(put_aside(start, e->binders@, 0, run.value_references));
    lemma_enter_puts_counts_aside(start, e->binders@, 0, run.value_references);
    let entered = enter(start, e->binders@, 0);
    assert(entered.saved.contains_key(unqualified_text(e->binders@[i].name())));
}

/// Unification only adds bindings: what was bound stays bound to the same
/// type, and the bindings stay free of cycles.
pub proof fn lemma_unification_extends(s: Bindings, span: Span, goals: Seq<Goal>)
    requires
        acyclic(s),
    ensures
        acyclic(solve(s, span, goals).bindings),
        s.submap_of(solve(s, span, goals).bindings),
    decreases goal_vars(s, goals).len(), goal_size(s, goals),
{
    if goals.len() > 0 {
        let goal = goals.last();
        let rest = goals.drop_last();
        let expected = apply(s, goal.expected);
        let actual = apply(s, goal.actual);
        let blame = blame_for(goal, span, expected, actual);
        match step(expected, actual) {
            Step::Same => {
                lemma_rest_is_less(s, goals);
                lemma_unification_extends(s, span, rest);
            },
            Step::Bind { var, to } => {
                if to is Variable && to->var == var {
                    lemma_rest_is_less(s, goals);
                    lemma_unification_extends(s, span, rest);
                } else if vars(to).contains(var) {
                } else {
                    lemma_bound_is_less(s, goals);
                    lemma_unification_extends(s.insert(var, to), span, rest);
                    let bound = s.insert(var, to);
                    let after = solve(bound, span, rest).bindings;
                    assert(s.submap_of(bound));
                    vstd::map_lib::lemma_submap_of_trans(s, bound, after);
                }
            },
            Step::Split { pairs } => {
                lemma_split_is_less(s, goals, Some(blame));
                lemma_unification_extends(s, span, rest + stacked(pairs, Some(blame)));
            },
            Step::Clash => {},
        }
    }
}

/// The run `after` carries on from the run `before`: the supply has not gone
/// back, every binding is still there, the bindings are free of cycles, and
/// every warning is still there, in its place.
pub open spec fn carries_on(before: Run, after: Run) -> bool {
    &&& before.supply <= after.supply
    &&& before.bindings.submap_of(after.bindings)
    &&& acyclic(after.bindings)
    &&& before.warnings.is_prefix_of(after.warnings)
}

/// A run carries on from itself.
pub proof fn lemma_carries_on_itself(run: Run)
    requires
        acyclic(run.bindings),
    ensures
        carries_on(run, run),
{
    assert(run.warnings.subrange(0, run.warnings.len() as int) =~= run.warnings);
}

/// What carries on from a run that carries on from another carries on from that other.
pub proof fn lemma_carries_on_further(first: Run, second: Run, third: Run)
    requires
        carries_on(first, second),
        carries_on(second, third),
    ensures
        carries_on(first, third),
{
    vstd::map_lib::lemma_submap_of_trans(first.bindings, second.bindings, third.bindings);
    assert(first.warnings =~= third.warnings.subrange(0, first.warnings.len() as int)) by {
        assert(first.warnings == second.warnings.subrange(0, first.warnings.len() as int));
        assert(second.warnings == third.warnings.subrange(0, second.warnings.len() as int));
    }
}

/// Leaving parameters draws no variable, binds nothing and drops no warning.
pub proof fn lemma_leave_carries_on(run: Run, binders: Seq<Binder>, i: nat)
    requires
        acyclic(run.bindings),
    ensures
        carries_on(run, leave(run, binders, i)),
    decreases binders.len() - i,
{
    if i < binders.len() {
        let name = unqualified_text(binders[i as int].value);
        let used = run.value_references.contains_key(name) && run.value_references[name] > 0;
        let next = if used {
            Run { value_references: run.value_references.remove(name), ..run }
        } else {
            Run {
                warnings: run.warnings.push(
                    crate::result::Warning::UnusedFunctionBinder { span: binders[i as int].span },
                ),
                ..run
            }
        };
        lemma_leave_carries_on(next, binders, i + 1);
        assert(run.warnings.is_prefix_of(next.warnings)) by {
            assert(run.warnings =~= next.warnings.subrange(0, run.warnings.len() as int));
        }
        lemma_carries_on_further(run, next, leave(run, binders, i));
    } else {
        lemma_carries_on_itself(run);
    }
}

/// Entering parameters binds nothing and drops no warning, and the supply
/// does not go back.
pub proof fn lemma_enter_carries_on(entered: Entered, binders: Seq<FunctionBinder>, i: nat)
    requires
        acyclic(entered.run.bindings),
    ensures
        carries_on(entered.run, enter(entered, binders, i).run),
        enter(entered, binders, i).run.bindings == entered.run.bindings,
    decreases binders.len() - i,
{
    if i < binders.len() && entered.failure is None {
        let binder = binders[i as int];
        if conflict(entered.binders, binder.name()) is None {
            let next = enter_one(entered, binder);
            assert(enter(entered, binders, i) == enter(next, binders, i + 1));
            lemma_enter_carries_on(next, binders, i + 1);
            lemma_carries_on_itself(entered.run);
            assert(carries_on(entered.run, next.run));
            lemma_carries_on_further(entered.run, next.run, enter(entered, binders, i).run);
        } else {
            lemma_carries_on_itself(entered.run);
        }
    } else {
        lemma_carries_on_itself(entered.run);
    }
}

/// Unifying in a run carries on from that run.
pub proof fn lemma_unify_in_carries_on(run: Run, span: Span, expected: Ty, actual: Ty, e: Expr)
    requires
        acyclic(run.bindings),
    ensures
        carries_on(run, unify_in(run, span, expected, actual, e).run),
{
    lemma_unification_extends(run.bindings, span, seq![Goal { expected, actual, blame: None }]);
    lemma_carries_on_itself(run);
}

/// Inference only moves forward: whether it ends well or not, the supply has
/// not gone back, the substitution has only grown and holds no cycle, and no
/// warning was dropped.
pub proof fn lemma_inference_carries_on(env: Scope, run: Run, e: Expression)
    requires
        acyclic(run.bindings),
    ensures
        carries_on(run, inferred(env, run, e).run),
    decreases e, 0nat,
{
    lemma_carries_on_itself(run);
    match e {
        Expression::Array { span, elements } => {
            if elements@.len() > 0 {
                lemma_inference_carries_on(env, run, elements@[0]);
                let head = inferred(env, run, elements@[0]);
                if head.outcome is Ok {
                    lemma_elements_carry_on(
                        env,
                        head.run,
                        type_of(head.outcome->Ok_0),
                        elements,
                        1,
                        seq![head.outcome->Ok_0],
                    );
                    lemma_carries_on_further(run, head.run, inferred(env, run, e).run);
                }
            } else {
                assert(carries_on(run, crate::typechecker::inference::drawn(run)));
            }
        },
        Expression::Variable { span, variable } => {
            assert(carries_on(run, inferred(env, run, e).run));
        },
        Expression::Constructor { span, constructor } => {
            assert(carries_on(run, inferred(env, run, e).run));
        },
        Expression::If { span, condition, true_clause, false_clause } => {
            lemma_checking_carries_on(env, run, bool_type(), *condition);
            let tested = checked(env, run, bool_type(), *condition);
            if tested.outcome is Ok {
                lemma_inference_carries_on(env, tested.run, *true_clause);
                let taken = inferred(env, tested.run, *true_clause);
                lemma_carries_on_further(run, tested.run, taken.run);
                if taken.outcome is Ok {
                    let output_type = apply(taken.run.bindings, type_of(taken.outcome->Ok_0));
                    lemma_checking_carries_on(env, taken.run, output_type, *false_clause);
                    lemma_carries_on_further(
                        run,
                        taken.run,
                        checked(env, taken.run, output_type, *false_clause).run,
                    );
                }
            }
        },
        Expression::Call { span, function, arguments } => {
            lemma_inference_carries_on(env, run, *function);
            let called = inferred(env, run, *function);
            if called.outcome is Ok {
                let function_type = apply(called.run.bindings, type_of(called.outcome->Ok_0));
                match function_type {
                    Ty::Function { parameters, return_type } => {
                        if arguments@.len() == parameters.len() {
                            lemma_checked_arguments_carry_on(
                                env,
                                called.run,
                                parameters,
                                arguments,
                                0,
                                Seq::empty(),
                            );
                            lemma_carries_on_further(
                                run,
                                called.run,
                                check_arguments(
                                    env,
                                    called.run,
                                    parameters,
                                    arguments,
                                    0,
                                    Seq::empty(),
                                ).run,
                            );
                        }
                    },
                    Ty::Variable { .. } => {
                        lemma_inferred_arguments_carry_on(
                            env,
                            called.run,
                            arguments,
                            0,
                            Seq::empty(),
                        );
                        let given = infer_arguments(env, called.run, arguments, 0, Seq::empty());
                        lemma_carries_on_further(run, called.run, given.run);
                        if given.outcome is Ok {
                            let call_type = anonymous(given.run.supply);
                            let drawn = crate::typechecker::inference::drawn(given.run);
                            let expected = Ty::Function {
                                parameters: crate::typechecker::inference::types_of(
                                    given.outcome->Ok_0,
                                ),
                                return_type: Box::new(call_type),
                            };
                            let typed = Expr::Call {
                                span,
                                call_type,
                                function: Box::new(called.outcome->Ok_0),
                                arguments: given.outcome->Ok_0,
                            };
                            lemma_unify_in_carries_on(
                                drawn,
                                crate::ast::expression::span_of(called.outcome->Ok_0),
                                expected,
                                function_type,
                                typed,
                            );
                            assert(carries_on(given.run, drawn));
                            lemma_carries_on_further(run, given.run, drawn);
                            lemma_carries_on_further(
                                run,
                                drawn,
                                unify_in(
                                    drawn,
                                    crate::ast::expression::span_of(called.outcome->Ok_0),
                                    expected,
                                    function_type,
                                    typed,
                                ).run,
                            );
                        }
                    },
                    _ => {},
                }
            }
        },
        Expression::Function { span, binders, return_type_annotation, body } => {
            let start = Entered {
                values: env.values,
                run,
                saved: Map::empty(),
                binders: Seq::empty(),
                failure: None,
            };
            lemma_enter_carries_on(start, binders@, 0);
            let entered = enter(start, binders@, 0);
            if entered.failure is None {
                let inner = Scope { values: entered.values, constructors: env.constructors };
                match return_type_annotation {
                    Some(expected) => {
                        lemma_checking_carries_on(inner, entered.run, expected@, *body);
                    },
                    None => {
                        lemma_inference_carries_on(inner, entered.run, *body);
                    },
                }
                let inside = match return_type_annotation {
                    Some(expected) => checked(inner, entered.run, expected@, *body),
                    None => inferred(inner, entered.run, *body),
                };
                lemma_carries_on_further(run, entered.run, inside.run);
                if inside.outcome is Ok {
                    lemma_leave_carries_on(inside.run, entered.binders, 0);
                    let left = leave(inside.run, entered.binders, 0);
                    lemma_carries_on_further(run, inside.run, left);
                }
            }
        },
        _ => {},
    }
}

/// Checking only moves forward: see [`lemma_inference_carries_on`].
pub proof fn lemma_checking_carries_on(env: Scope, run: Run, expected: Ty, e: Expression)
    requires
        acyclic(run.bindings),
    ensures
        carries_on(run, checked(env, run, expected, e).run),
    decreases e, 1nat,
{
    lemma_inference_carries_on(env, run, e);
    let found = inferred(env, run, e);
    if found.outcome is Ok {
        lemma_unify_in_carries_on(
            found.run,
            crate::ast::expression::span_of(found.outcome->Ok_0),
            expected,
            type_of(found.outcome->Ok_0),
            found.outcome->Ok_0,
        );
        lemma_carries_on_further(run, found.run, checked(env, run, expected, e).run);
    }
}

pub proof fn lemma_elements_carry_on(
    env: Scope,
    run: Run,
    expected: Ty,
    elements: Vec<Expression>,
    i: nat,
    done: Seq<Expr>,
)
    requires
        acyclic(run.bindings),
    ensures
        carries_on(run, check_elements(env, run, expected, elements, i, done).run),
    decreases elements, elements@.len() - i,
{
    if i < elements@.len() {
        lemma_checking_carries_on(env, run, expected, elements@[i as int]);
        let one = checked(env, run, expected, elements@[i as int]);
        if one.outcome is Ok {
            lemma_elements_carry_on(
                env,
                one.run,
                expected,
                elements,
                i + 1,
                done.push(one.outcome->Ok_0),
            );
            lemma_carries_on_further(
                run,
                one.run,
                check_elements(env, run, expected, elements, i, done).run,
            );
        }
    } else {
        lemma_carries_on_itself(run);
    }
}

pub proof fn lemma_checked_arguments_carry_on(
    env: Scope,
    run: Run,
    parameters: Seq<Ty>,
    arguments: Vec<Argument>,
    i: nat,
    done: Seq<Expr>,
)
    requires
        acyclic(run.bindings),
    ensures
        carries_on(run, check_arguments(env, run, parameters, arguments, i, done).run),
    decreases arguments, arguments@.len() - i,
{
    if i < arguments@.len() {
        lemma_checking_carries_on(env, run, parameters[i as int], arguments@[i as int]->0);
        let one = checked(env, run, parameters[i as int], arguments@[i as int]->0);
        if one.outcome is Ok {
            lemma_checked_arguments_carry_on(
                env,
                one.run,
                parameters,
                arguments,
                i + 1,
                done.push(one.outcome->Ok_0),
            );
            lemma_carries_on_further(
                run,
                one.run,
                check_arguments(env, run, parameters, arguments, i, done).run,
            );
        }
    } else {
        lemma_carries_on_itself(run);
    }
}

pub proof fn lemma_inferred_arguments_carry_on(
    env: Scope,
    run: Run,
    arguments: Vec<Argument>,
    i: nat,
    done: Seq<Expr>,
)
    requires
        acyclic(run.bindings),
    ensures
        carries_on(run, infer_arguments(env, run, arguments, i, done).run),
    decreases arguments, arguments@.len() - i,
{
    if i < arguments@.len() {
        lemma_inference_carries_on(env, run, arguments@[i as int]->0);
        let one = inferred(env, run, arguments@[i as int]->0);
        if one.outcome is Ok {
            lemma_inferred_arguments_carry_on(
                env,
                one.run,
                arguments,
                i + 1,
                done.push(one.outcome->Ok_0),
            );
            lemma_carries_on_further(
                run,
                one.run,
                infer_arguments(env, run, arguments, i, done).run,
            );
        }
    } else {
        lemma_carries_on_itself(run);
    }
}

/// The variables of a renamed type are the variables of the type that are
/// not renamed, and the new names of those that are.
pub proof fn lemma_renamed_variables(names: Map<nat, nat>, t: Ty, v: nat)
    requires
        vars(rename(names, t)).contains(v),
    ensures
        (vars(t).contains(v) && !names.contains_key(v)) || exists|w: nat|
            #![trigger names.contains_key(w)]
            names.contains_key(w) && names[w] == v && vars(t).contains(w),
    decreases t,
{
    match t {
        Ty::Call { function, arguments } => {
            if vars(rename(names, *function)).contains(v) {
                lemma_renamed_variables(names, *function, v);
            } else {
                lemma_renamed_variables_of_all(names, arguments, v);
            }
        },
        Ty::Function { parameters, return_type } => {
            if vars(rename(names, *return_type)).contains(v) {
                lemma_renamed_variables(names, *return_type, v);
            } else {
                lemma_renamed_variables_of_all(names, parameters, v);
            }
        },
        Ty::Variable { var, .. } => {
            if names.contains_key(var) {
                assert(names.contains_key(var) && names[var] == v && vars(t).contains(var));
            }
        },
        _ => {},
    }
}

pub proof fn lemma_renamed_variables_of_all(names: Map<nat, nat>, types: Seq<Ty>, v: nat)
    requires
        vars_of_all(rename_all(names, types)).contains(v),
    ensures
        (vars_of_all(types).contains(v) && !names.contains_key(v)) || exists|w: nat|
            #![trigger names.contains_key(w)]
            names.contains_key(w) && names[w] == v && vars_of_all(types).contains(w),
    decreases types,
{
    if types.len() > 0 {
        let renamed = rename_all(names, types);
        assert(renamed.drop_last() =~= rename_all(names, types.drop_last()));
        assert(renamed.last() == rename(names, types.last()));
        if vars(rename(names, types.last())).contains(v) {
            lemma_renamed_variables(names, types.last(), v);
        } else {
            lemma_renamed_variables_of_all(names, types.drop_last(), v);
        }
    }
}

/// Every variable of an instance of a scheme is a variable of the scheme's
/// type that does not stand for any type, or a fresh one: one of those that
/// the supply hands out for this instance.
pub proof fn lemma_instance_variables_are_fresh(scheme: Polytype, supply: nat, v: nat)
    requires
        vars(scheme.instance(supply)).contains(v),
    ensures
        (vars(scheme.signature).contains(v) && !scheme.forall.contains(v)) || (supply <= v
            && v < supply + scheme.forall.len()),
{
    let names = renaming(scheme.forall, supply, scheme.forall.len());
    lemma_renamed_variables(names, scheme.signature, v);
    lemma_renaming_is_fresh(scheme.forall, supply, scheme.forall.len());
    if vars(scheme.signature).contains(v) && !names.contains_key(v) {
        if scheme.forall.contains(v) {
            let i = choose|i: int| 0 <= i < scheme.forall.len() && scheme.forall[i] == v;
            assert(names.contains_key(scheme.forall[i]));
        }
    } else {
        let w = choose|w: nat|
            #![trigger names.contains_key(w)]
            names.contains_key(w) && names[w] == v && vars(scheme.signature).contains(w);
        assert(names.contains_key(w));
    }
}

/// The types of a checked expression are final: applying the bindings that
/// the check ended with once more changes nothing.
pub proof fn lemma_checked_types_are_final(
    env: Scope,
    supply: nat,
    annotation: Option<Ty>,
    e: Expression,
)
    ensures
        crate::typechecker::typechecked(env, supply, annotation, e).outcome matches Ok(typed)
            ==> apply_to_expression(
            crate::typechecker::typechecked(env, supply, annotation, e).run.bindings,
            typed,
        ) == typed,
{
    let start = crate::typechecker::fresh_run(supply);
    lemma_empty_acyclic();
    match annotation {
        Some(expected) => {
            lemma_checking_carries_on(env, start, expected, e);
            let found = checked(env, start, expected, e);
            if found.outcome is Ok {
                lemma_apply_to_expression_idempotent(found.run.bindings, found.outcome->Ok_0);
            }
        },
        None => {
            lemma_inference_carries_on(env, start, e);
            let found = inferred(env, start, e);
            if found.outcome is Ok {
                lemma_apply_to_expression_idempotent(found.run.bindings, found.outcome->Ok_0);
            }
        },
    }
}

} // verus!
