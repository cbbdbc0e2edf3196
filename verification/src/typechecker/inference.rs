//! Inference, as mathematics: the type of each expression, and what inferring
//! it makes of the run's state.

use crate::ast::expression::{bool_type, span_of, type_of, Binder, Expr};
use crate::ast::name::{unqualified_text, QualifiedText};
use crate::ast::types::Ty;
use crate::result::{Failure, Warning};
use crate::supply::anonymous;
use crate::token::Span;
use crate::typechecker::bindings::apply;
use crate::typechecker::env::{Scope, ScopedValue};
use crate::typechecker::pre_ast::{Argument, Expression, FunctionBinder};
use crate::typechecker::scheme::Polytype;
use crate::typechecker::state::{Counts, Run};
use crate::typechecker::unification::{solve, Goal};
use vstd::prelude::*;

verus! {

/// How inferring an expression ended, and the state it left.
pub struct Inferred {
    pub run: Run,
    pub outcome: Result<Expr, Failure>,
}

/// How inferring a run of expressions ended, and the state it left.
pub struct Gathered {
    pub run: Run,
    pub outcome: Result<Seq<Expr>, Failure>,
}

/// The counts with one more reference to `name`.
pub open spec fn count_reference(counts: Counts, name: QualifiedText) -> Counts {
    counts.insert(
        name,
        if counts.contains_key(name) {
            counts[name] + 1
        } else {
            1
        },
    )
}

/// The run after `expected` was unified with `actual`, and the expression
/// where that went well.
pub open spec fn unify_in(run: Run, span: Span, expected: Ty, actual: Ty, expression: Expr) -> Inferred {
    let unified = solve(run.bindings, span, seq![Goal { expected, actual, blame: None }]);
    Inferred {
        run: Run { bindings: unified.bindings, ..run },
        outcome: match unified.outcome {
            Ok(_) => Ok(expression),
            Err(failure) => Err(failure),
        },
    }
}

/// The run with a fresh type variable drawn.
pub open spec fn drawn(run: Run) -> Run {
    Run { supply: run.supply + 1, ..run }
}

/// The types of expressions, in order.
pub open spec fn types_of(expressions: Seq<Expr>) -> Seq<Ty> {
    Seq::new(expressions.len(), |i: int| type_of(expressions[i]))
}

/// The span of the first of `done` that is named `name`.
pub open spec fn conflict(done: Seq<Binder>, name: Seq<char>) -> Option<Span>
    decreases done.len(),
{
    if done.len() == 0 {
        None
    } else if done[0].value == name {
        Some(done[0].span)
    } else {
        conflict(done.drop_first(), name)
    }
}

/// The scope inside a function, and what entering it made of the run.
pub struct Entered {
    /// The values in scope, the parameters among them.
    pub values: Map<QualifiedText, ScopedValue>,
    /// The run, the counts of the names that the parameters hide set to zero.
    pub run: Run,
    /// The counts that the names had that the parameters hide.
    pub saved: Counts,
    /// The parameters with their types.
    pub binders: Seq<Binder>,
    /// Why the parameters cannot be entered, if they cannot.
    pub failure: Option<Failure>,
}

/// Enter the parameters from the `i`th on.
///
/// A parameter named like one before it is refused. Each parameter has the
/// type that the source gives it, or else a fresh type variable. It hides
/// any value of its name: the count of that value's references is put aside
/// and starts from zero.
pub open spec fn enter(entered: Entered, binders: Seq<FunctionBinder>, i: nat) -> Entered
    decreases binders.len() - i,
{
    if i >= binders.len() || entered.failure is Some {
        entered
    } else {
        let binder = binders[i as int];
        match conflict(entered.binders, binder.name()) {
            Some(previous_binder) => Entered {
                failure: Some(
                    Failure::DuplicateFunctionBinder {
                        previous_binder,
                        duplicate_binder: binder.span(),
                    },
                ),
                ..entered
            },
            None => {
                let run = entered.run;
                let binder_type = match binder->type_annotation {
                    Some(annotation) => annotation@,
                    None => anonymous(run.supply),
                };
                let supply = if binder->type_annotation is Some {
                    run.supply
                } else {
                    run.supply + 1
                };
                let name = unqualified_text(binder.name());
                let hides = run.value_references.contains_key(name);
                enter(
                    Entered {
                        values: entered.values.insert(
                            name,
                            ScopedValue::ModuleValue {
                                span: binder.span(),
                                variable_scheme: Polytype::plain(binder_type),
                                variable: binder.name(),
                            },
                        ),
                        run: Run {
                            supply,
                            value_references: if hides {
                                run.value_references.insert(name, 0)
                            } else {
                                run.value_references
                            },
                            ..run
                        },
                        saved: if hides {
                            entered.saved.insert(name, run.value_references[name])
                        } else {
                            entered.saved
                        },
                        binders: entered.binders.push(
                            Binder { span: binder.span(), binder_type, value: binder.name() },
                        ),
                        failure: None,
                    },
                    binders,
                    i + 1,
                )
            },
        }
    }
}

/// Leave the parameters from the `i`th on: a parameter that the body
/// referred to is forgotten, one that it did not refer to earns a warning.
pub open spec fn leave(run: Run, binders: Seq<Binder>, i: nat) -> Run
    decreases binders.len() - i,
{
    if i >= binders.len() {
        run
    } else {
        let name = unqualified_text(binders[i as int].value);
        let used = run.value_references.contains_key(name) && run.value_references[name] > 0;
        leave(
            if used {
                Run { value_references: run.value_references.remove(name), ..run }
            } else {
                Run {
                    warnings: run.warnings.push(
                        Warning::UnusedFunctionBinder { span: binders[i as int].span },
                    ),
                    ..run
                }
            },
            binders,
            i + 1,
        )
    }
}

/// Infer the type of `e`: the typed expression, or the first failure, and
/// the state either way.
pub open spec fn inferred(env: Scope, run: Run, e: Expression) -> Inferred
    decreases e, 0nat,
{
    match e {
        Expression::True { span } => Inferred { run, outcome: Ok(Expr::True { span }) },
        Expression::False { span } => Inferred { run, outcome: Ok(Expr::False { span }) },
        Expression::Unit { span } => Inferred { run, outcome: Ok(Expr::Unit { span }) },
        Expression::String { span, value } => Inferred {
            run,
            outcome: Ok(Expr::String { span, value: value@ }),
        },
        Expression::Int { span, value } => Inferred {
            run,
            outcome: Ok(Expr::Int { span, value: value@ }),
        },
        Expression::Float { span, value } => Inferred {
            run,
            outcome: Ok(Expr::Float { span, value: value@ }),
        },
        Expression::Array { span, elements } => {
            if elements@.len() == 0 {
                Inferred {
                    run: drawn(run),
                    outcome: Ok(
                        Expr::Array {
                            span,
                            element_type: anonymous(run.supply),
                            elements: Seq::empty(),
                        },
                    ),
                }
            } else {
                let head = inferred(env, run, elements@[0]);
                match head.outcome {
                    Err(failure) => head,
                    Ok(first) => {
                        let element_type = type_of(first);
                        let rest = check_elements(
                            env,
                            head.run,
                            element_type,
                            elements,
                            1,
                            seq![first],
                        );
                        Inferred {
                            run: rest.run,
                            outcome: match rest.outcome {
                                Err(failure) => Err(failure),
                                Ok(all) => Ok(Expr::Array { span, element_type, elements: all }),
                            },
                        }
                    },
                }
            }
        },
        Expression::Variable { span, variable } => {
            let counted = Run {
                value_references: count_reference(run.value_references, variable@),
                ..run
            };
            if env.values.contains_key(variable@) {
                let value = env.values[variable@];
                Inferred {
                    run: Run { supply: run.supply + value.scheme().forall.len(), ..counted },
                    outcome: Ok(value.expression(span, run.supply)),
                }
            } else {
                Inferred {
                    run: counted,
                    outcome: Err(
                        Failure::UnknownVariable {
                            span,
                            variable: variable@,
                            names_in_scope: env.values.dom(),
                        },
                    ),
                }
            }
        },
        Expression::Constructor { span, constructor } => {
            let counted = Run {
                constructor_references: count_reference(run.constructor_references, constructor@),
                ..run
            };
            if env.constructors.contains_key(constructor@) {
                let found = env.constructors[constructor@];
                Inferred {
                    run: Run { supply: run.supply + found.scheme().forall.len(), ..counted },
                    outcome: Ok(found.expression(span, run.supply)),
                }
            } else {
                Inferred {
                    run: counted,
                    outcome: Err(
                        Failure::UnknownConstructor {
                            span,
                            constructor: constructor@,
                            ctors_in_scope: env.constructors.dom(),
                        },
                    ),
                }
            }
        },
        Expression::If { span, condition, true_clause, false_clause } => {
            let tested = checked(env, run, bool_type(), *condition);
            match tested.outcome {
                Err(failure) => tested,
                Ok(condition) => {
                    let taken = inferred(env, tested.run, *true_clause);
                    match taken.outcome {
                        Err(failure) => taken,
                        Ok(true_clause) => {
                            let output_type = apply(taken.run.bindings, type_of(true_clause));
                            let other = checked(env, taken.run, output_type, *false_clause);
                            Inferred {
                                run: other.run,
                                outcome: match other.outcome {
                                    Err(failure) => Err(failure),
                                    Ok(false_clause) => Ok(
                                        Expr::If {
                                            span,
                                            output_type,
                                            condition: Box::new(condition),
                                            true_clause: Box::new(true_clause),
                                            false_clause: Box::new(false_clause),
                                        },
                                    ),
                                },
                            }
                        },
                    }
                },
            }
        },
        Expression::Call { span, function, arguments } => {
            let called = inferred(env, run, *function);
            match called.outcome {
                Err(failure) => called,
                Ok(function) => {
                    let function_type = apply(called.run.bindings, type_of(function));
                    match function_type {
                        Ty::Function { parameters, return_type } => {
                            if arguments@.len() != parameters.len() {
                                Inferred {
                                    run: called.run,
                                    outcome: Err(
                                        Failure::ArgumentLengthMismatch {
                                            function_span: span_of(function),
                                            wanted: parameters.len(),
                                            got: arguments@.len(),
                                        },
                                    ),
                                }
                            } else {
                                let given = check_arguments(
                                    env,
                                    called.run,
                                    parameters,
                                    arguments,
                                    0,
                                    Seq::empty(),
                                );
                                Inferred {
                                    run: given.run,
                                    outcome: match given.outcome {
                                        Err(failure) => Err(failure),
                                        Ok(arguments) => Ok(
                                            Expr::Call {
                                                span,
                                                call_type: *return_type,
                                                function: Box::new(function),
                                                arguments,
                                            },
                                        ),
                                    },
                                }
                            }
                        },
                        Ty::Variable { .. } => {
                            let given = infer_arguments(env, called.run, arguments, 0, Seq::empty());
                            match given.outcome {
                                Err(failure) => Inferred { run: given.run, outcome: Err(failure) },
                                Ok(arguments) => {
                                    let call_type = anonymous(given.run.supply);
                                    unify_in(
                                        drawn(given.run),
                                        span_of(function),
                                        Ty::Function {
                                            parameters: types_of(arguments),
                                            return_type: Box::new(call_type),
                                        },
                                        function_type,
                                        Expr::Call {
                                            span,
                                            call_type,
                                            function: Box::new(function),
                                            arguments,
                                        },
                                    )
                                },
                            }
                        },
                        _ => Inferred {
                            run: called.run,
                            outcome: Err(
                                Failure::NotAFunction {
                                    span: span_of(function),
                                    actual_type: function_type,
                                },
                            ),
                        },
                    }
                },
            }
        },
        Expression::Function { span, binders, return_type_annotation, body } => {
            let entered = enter(
                Entered {
                    values: env.values,
                    run,
                    saved: Map::empty(),
                    binders: Seq::empty(),
                    failure: None,
                },
                binders@,
                0,
            );
            match entered.failure {
                Some(failure) => Inferred { run: entered.run, outcome: Err(failure) },
                None => {
                    let inner = Scope { values: entered.values, constructors: env.constructors };
                    let inside = match return_type_annotation {
                        Some(expected) => checked(inner, entered.run, expected@, *body),
                        None => inferred(inner, entered.run, *body),
                    };
                    match inside.outcome {
                        Err(failure) => inside,
                        Ok(body) => {
                            let left = leave(inside.run, entered.binders, 0);
                            Inferred {
                                run: Run {
                                    value_references: left.value_references.union_prefer_right(
                                        entered.saved,
                                    ),
                                    ..left
                                },
                                outcome: Ok(
                                    Expr::Function {
                                        span,
                                        binders: entered.binders,
                                        body: Box::new(body),
                                    },
                                ),
                            }
                        },
                    }
                },
            }
        },
    }
}

/// Infer the type of `e` and unify it with `expected`.
pub open spec fn checked(env: Scope, run: Run, expected: Ty, e: Expression) -> Inferred
    decreases e, 1nat,
{
    let found = inferred(env, run, e);
    match found.outcome {
        Err(failure) => found,
        Ok(expression) => unify_in(
            found.run,
            span_of(expression),
            expected,
            type_of(expression),
            expression,
        ),
    }
}

/// Check the elements from the `i`th on against `expected`, behind `done`.
pub open spec fn check_elements(
    env: Scope,
    run: Run,
    expected: Ty,
    elements: Vec<Expression>,
    i: nat,
    done: Seq<Expr>,
) -> Gathered
    decreases elements, elements@.len() - i,
{
    if i >= elements@.len() {
        Gathered { run, outcome: Ok(done) }
    } else {
        let one = checked(env, run, expected, elements@[i as int]);
        match one.outcome {
            Err(failure) => Gathered { run: one.run, outcome: Err(failure) },
            Ok(element) => check_elements(
                env,
                one.run,
                expected,
                elements,
                i + 1,
                done.push(element),
            ),
        }
    }
}

/// Check the arguments from the `i`th on, each against the parameter at its
/// place, behind `done`.
pub open spec fn check_arguments(
    env: Scope,
    run: Run,
    parameters: Seq<Ty>,
    arguments: Vec<Argument>,
    i: nat,
    done: Seq<Expr>,
) -> Gathered
    decreases arguments, arguments@.len() - i,
{
    if i >= arguments@.len() {
        Gathered { run, outcome: Ok(done) }
    } else {
        let one = checked(env, run, parameters[i as int], arguments@[i as int]->0);
        match one.outcome {
            Err(failure) => Gathered { run: one.run, outcome: Err(failure) },
            Ok(argument) => check_arguments(
                env,
                one.run,
                parameters,
                arguments,
                i + 1,
                done.push(argument),
            ),
        }
    }
}

/// Infer the types of the arguments from the `i`th on, behind `done`.
pub open spec fn infer_arguments(
    env: Scope,
    run: Run,
    arguments: Vec<Argument>,
    i: nat,
    done: Seq<Expr>,
) -> Gathered
    decreases arguments, arguments@.len() - i,
{
    if i >= arguments@.len() {
        Gathered { run, outcome: Ok(done) }
    } else {
        let one = inferred(env, run, arguments@[i as int]->0);
        match one.outcome {
            Err(failure) => Gathered { run: one.run, outcome: Err(failure) },
            Ok(argument) => infer_arguments(
                env,
                one.run,
                arguments,
                i + 1,
                done.push(argument),
            ),
        }
    }
}

} // verus!
