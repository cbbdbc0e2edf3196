//! The substitution: what the checker has found type variables to stand for.

use crate::ast::expression::{arguments_model, binders_model, expressions_model, lemma_model_of_expressions, Argument, Binder, Expr, Expression, FunctionBinder};
use crate::ast::types::{duplicate_type, lemma_model_of_parts, models, Ty, Type};
use crate::table::Duplicate;
use crate::typechecker::bindings::lemma_apply_idempotent;
use crate::typechecker::bindings::{acyclic, apply, apply_all, height, height_of_all, lemma_apply_all, lemma_binding_is_lower, lemma_empty_acyclic, rank_of, Bindings};
use std::collections::HashMap;
use vstd::prelude::*;

verus! {

broadcast use vstd::std_specs::hash::group_hash_axioms;

/// Bindings of type variables to types.
#[derive(Debug)]
pub struct Substitution {
    bindings: HashMap<usize, Type>,
}

/// Two types that are to agree.
#[derive(Debug, PartialEq, Eq)]
pub struct Constraint {
    /// The type that the context asks for.
    pub expected: Type,
    /// The type that was found.
    pub actual: Type,
}

impl View for Substitution {
    type V = Bindings;

    closed spec fn view(&self) -> Bindings {
        Map::new(
            |v: nat| v <= usize::MAX && self.bindings@.contains_key(v as usize),
            |v: nat| self.bindings@[v as usize]@,
        )
    }
}

/// A type of a run is no higher than the run.
pub proof fn lemma_height_of_element(
    s: Bindings,
    rank: spec_fn(nat) -> nat,
    types: Seq<Ty>,
    i: int,
)
    requires
        0 <= i < types.len(),
    ensures
        height(s, rank, types[i]) <= height_of_all(s, rank, types),
    decreases types,
{
    if i < types.len() - 1 {
        lemma_height_of_element(s, rank, types.drop_last(), i);
        assert(types.drop_last()[i] == types[i]);
    }
}

/// The parameters, the bindings applied to the type of each.
pub open spec fn apply_to_binders(s: Bindings, binders: Seq<Binder>) -> Seq<Binder> {
    Seq::new(
        binders.len(),
        |i: int| Binder { binder_type: apply(s, binders[i].binder_type), ..binders[i] },
    )
}

/// The expression, the bindings applied to the type at every node.
pub open spec fn apply_to_expression(s: Bindings, e: Expr) -> Expr
    decreases e,
{
    match e {
        Expr::Function { span, binders, body } => Expr::Function {
            span,
            binders: apply_to_binders(s, binders),
            body: Box::new(apply_to_expression(s, *body)),
        },
        Expr::Call { span, call_type, function, arguments } => Expr::Call {
            span,
            call_type: apply(s, call_type),
            function: Box::new(apply_to_expression(s, *function)),
            arguments: apply_to_expressions(s, arguments),
        },
        Expr::If { span, output_type, condition, true_clause, false_clause } => Expr::If {
            span,
            output_type: apply(s, output_type),
            condition: Box::new(apply_to_expression(s, *condition)),
            true_clause: Box::new(apply_to_expression(s, *true_clause)),
            false_clause: Box::new(apply_to_expression(s, *false_clause)),
        },
        Expr::LocalConstructor { span, constructor_type, constructor } => Expr::LocalConstructor {
            span,
            constructor_type: apply(s, constructor_type),
            constructor,
        },
        Expr::ImportedConstructor {
            span,
            constructor_type,
            constructor,
        } => Expr::ImportedConstructor {
            span,
            constructor_type: apply(s, constructor_type),
            constructor,
        },
        Expr::LocalVariable { span, variable_type, variable } => Expr::LocalVariable {
            span,
            variable_type: apply(s, variable_type),
            variable,
        },
        Expr::ForeignVariable { span, variable_type, variable } => Expr::ForeignVariable {
            span,
            variable_type: apply(s, variable_type),
            variable,
        },
        Expr::ImportedVariable { span, variable_type, variable } => Expr::ImportedVariable {
            span,
            variable_type: apply(s, variable_type),
            variable,
        },
        Expr::Array { span, element_type, elements } => Expr::Array {
            span,
            element_type: apply(s, element_type),
            elements: apply_to_expressions(s, elements),
        },
        _ => e,
    }
}

/// The expressions, the bindings applied to each.
pub open spec fn apply_to_expressions(s: Bindings, expressions: Seq<Expr>) -> Seq<Expr>
    decreases expressions,
{
    if expressions.len() == 0 {
        Seq::empty()
    } else {
        apply_to_expressions(s, expressions.drop_last()).push(
            apply_to_expression(s, expressions.last()),
        )
    }
}

/// Applying bindings to a run of expressions applies them to each.
pub proof fn lemma_apply_to_expressions(s: Bindings, expressions: Seq<Expr>)
    ensures
        apply_to_expressions(s, expressions).len() == expressions.len(),
        forall|i: int|
            0 <= i < expressions.len() ==> #[trigger] apply_to_expressions(s, expressions)[i]
                == apply_to_expression(s, expressions[i]),
    decreases expressions.len(),
{
    if expressions.len() > 0 {
        lemma_apply_to_expressions(s, expressions.drop_last());
        assert forall|i: int| 0 <= i < expressions.len() implies #[trigger] apply_to_expressions(
            s,
            expressions,
        )[i] == apply_to_expression(s, expressions[i]) by {
            if i < expressions.len() - 1 {
                assert(expressions.drop_last()[i] == expressions[i]);
            }
        }
    }
}

/// Applying bindings to an expression a second time changes nothing: once
/// they are applied, no type in the expression holds a bound variable.
pub proof fn lemma_apply_to_expression_idempotent(s: Bindings, e: Expr)
    requires
        acyclic(s),
    ensures
        apply_to_expression(s, apply_to_expression(s, e)) == apply_to_expression(s, e),
    decreases e,
{
    match e {
        Expr::Function { span, binders, body } => {
            lemma_apply_to_expression_idempotent(s, *body);
            let once = apply_to_binders(s, binders);
            assert forall|i: int| 0 <= i < binders.len() implies #[trigger] apply_to_binders(
                s,
                once,
            )[i] == once[i] by {
                lemma_apply_idempotent(s, binders[i].binder_type);
            }
            assert(apply_to_binders(s, once) =~= once);
        },
        Expr::Call { span, call_type, function, arguments } => {
            lemma_apply_idempotent(s, call_type);
            lemma_apply_to_expression_idempotent(s, *function);
            lemma_apply_to_expressions_idempotent(s, arguments);
        },
        Expr::If { span, output_type, condition, true_clause, false_clause } => {
            lemma_apply_idempotent(s, output_type);
            lemma_apply_to_expression_idempotent(s, *condition);
            lemma_apply_to_expression_idempotent(s, *true_clause);
            lemma_apply_to_expression_idempotent(s, *false_clause);
        },
        Expr::LocalConstructor { constructor_type, .. } => {
            lemma_apply_idempotent(s, constructor_type);
        },
        Expr::ImportedConstructor { constructor_type, .. } => {
            lemma_apply_idempotent(s, constructor_type);
        },
        Expr::LocalVariable { variable_type, .. } => {
            lemma_apply_idempotent(s, variable_type);
        },
        Expr::ForeignVariable { variable_type, .. } => {
            lemma_apply_idempotent(s, variable_type);
        },
        Expr::ImportedVariable { variable_type, .. } => {
            lemma_apply_idempotent(s, variable_type);
        },
        Expr::Array { span, element_type, elements } => {
            lemma_apply_idempotent(s, element_type);
            lemma_apply_to_expressions_idempotent(s, elements);
        },
        _ => {},
    }
}

pub proof fn lemma_apply_to_expressions_idempotent(s: Bindings, expressions: Seq<Expr>)
    requires
        acyclic(s),
    ensures
        apply_to_expressions(s, apply_to_expressions(s, expressions)) == apply_to_expressions(
            s,
            expressions,
        ),
    decreases expressions,
{
    if expressions.len() > 0 {
        lemma_apply_to_expressions_idempotent(s, expressions.drop_last());
        lemma_apply_to_expression_idempotent(s, expressions.last());
        let once = apply_to_expressions(s, expressions);
        assert(once.drop_last() =~= apply_to_expressions(s, expressions.drop_last()));
        assert(once.last() == apply_to_expression(s, expressions.last()));
    }
}

impl Default for Substitution {
    fn default() -> (substitution: Substitution)
        ensures
            substitution@ == Map::<nat, Ty>::empty(),
            substitution.wf(),
    {
        Substitution::new()
    }
}

impl Substitution {
    /// No variable is bound, directly or through others, to a type that holds it.
    pub open spec fn wf(&self) -> bool {
        acyclic(self@)
    }

    /// The substitution that binds nothing.
    pub fn new() -> (substitution: Substitution)
        ensures
            substitution@ == Map::<nat, Ty>::empty(),
            substitution.wf(),
    {
        let substitution = Substitution { bindings: HashMap::new() };
        proof {
            assert(substitution@ =~= Map::<nat, Ty>::empty());
            lemma_empty_acyclic();
        }
        substitution
    }

    /// What `var` is bound to.
    pub fn get(&self, var: usize) -> (found: Option<&Type>)
        ensures
            found is Some <==> self@.contains_key(var as nat),
            found matches Some(t) ==> t@ == self@[var as nat],
    {
        self.bindings.get(&var)
    }

    /// Bind `var` to `t`, in place of what it was bound to before.
    ///
    /// The binding must close no cycle: `var` may not come to stand, directly
    /// or through other variables, for a type in which it occurs itself.
    pub fn insert(&mut self, var: usize, t: Type)
        requires
            acyclic(old(self)@.insert(var as nat, t@)),
        ensures
            final(self)@ == old(self)@.insert(var as nat, t@),
            final(self).wf(),
    {
        self.bindings.insert(var, t);
        assert(self@ =~= old(self)@.insert(var as nat, t@));
    }

    /// The type with the bindings applied until no bound variable is left.
    pub fn apply(&self, ast_type: Type) -> (applied: Type)
        requires
            self.wf(),
        ensures
            applied@ == apply(self@, ast_type@),
    {
        self.resolve(&ast_type)
    }

    /// See [`Substitution::apply`].
    pub fn resolve(&self, ast_type: &Type) -> (applied: Type)
        requires
            self.wf(),
        ensures
            applied@ == apply(self@, ast_type@),
        decreases height(self@, rank_of(self@), ast_type@), ast_type,
    {
        match ast_type {
            Type::Call { function, arguments } => {
                proof {
                    lemma_model_of_parts(*ast_type);
                }
                let applied = Type::Call {
                    function: Box::new(self.resolve(function)),
                    arguments: self.resolve_all(arguments, Ghost(*ast_type)),
                };
                proof {
                    lemma_model_of_parts(applied);
                }
                applied
            },
            Type::Function { parameters, return_type } => {
                proof {
                    lemma_model_of_parts(*ast_type);
                }
                let applied = Type::Function {
                    parameters: self.resolve_all(parameters, Ghost(*ast_type)),
                    return_type: Box::new(self.resolve(return_type)),
                };
                proof {
                    lemma_model_of_parts(applied);
                }
                applied
            },
            Type::Variable { var, .. } => {
                match self.get(*var) {
                    Some(found) => {
                        proof {
                            lemma_binding_is_lower(self@, *var as nat);
                        }
                        self.resolve(found)
                    },
                    None => duplicate_type(ast_type),
                }
            },
            _ => duplicate_type(ast_type),
        }
    }

    /// The parts `types` of the type `whole`, the bindings applied to each.
    fn resolve_all(&self, types: &Vec<Type>, Ghost(whole): Ghost<Type>) -> (applied: Vec<Type>)
        requires
            self.wf(),
            (whole matches Type::Call { arguments, .. } && arguments == types) || (
            whole matches Type::Function { parameters, .. } && parameters == types),
        ensures
            models(applied@) == apply_all(self@, models(types@)),
        decreases height(self@, rank_of(self@), whole@), whole, 0int,
    {
        proof {
            lemma_model_of_parts(whole);
        }
        let mut applied: Vec<Type> = Vec::new();
        let mut i: usize = 0;
        while i < types.len()
            invariant
                self.wf(),
                (whole matches Type::Call { arguments, .. } && arguments == types) || (
                whole matches Type::Function { parameters, .. } && parameters == types),
                height_of_all(self@, rank_of(self@), models(types@)) <= height(
                    self@,
                    rank_of(self@),
                    whole@,
                ),
                i <= types.len(),
                applied.len() == i,
                forall|j: int| 0 <= j < i ==> applied@[j]@ == apply(self@, types@[j]@),
            decreases types.len() - i,
        {
            proof {
                lemma_height_of_element(self@, rank_of(self@), models(types@), i as int);
            }
            applied.push(self.resolve(&types[i]));
            i += 1;
        }
        proof {
            lemma_apply_all(self@, models(types@));
            assert(models(applied@) =~= apply_all(self@, models(types@)));
        }
        applied
    }

    /// The expression with the bindings applied to the type at every node.
    pub fn apply_expression(&self, expression: Expression) -> (applied: Expression)
        requires
            self.wf(),
        ensures
            applied@ == apply_to_expression(self@, expression@),
    {
        self.resolve_expression(&expression)
    }

    fn resolve_binders(&self, binders: &Vec<FunctionBinder>) -> (applied: Vec<FunctionBinder>)
        requires
            self.wf(),
        ensures
            binders_model(applied@) == apply_to_binders(self@, binders_model(binders@)),
    {
        let mut applied: Vec<FunctionBinder> = Vec::new();
        let mut i: usize = 0;
        while i < binders.len()
            invariant
                self.wf(),
                i <= binders.len(),
                applied.len() == i,
                forall|j: int|
                    0 <= j < i ==> applied@[j]@ == (Binder {
                        binder_type: apply(self@, binders@[j]@.binder_type),
                        ..binders@[j]@
                    }),
            decreases binders.len() - i,
        {
            match &binders[i] {
                FunctionBinder::Name { span, binder_type, value } => {
                    applied.push(
                        FunctionBinder::Name {
                            span: *span,
                            binder_type: self.resolve(binder_type),
                            value: value.duplicate(),
                        },
                    );
                },
            }
            i += 1;
        }
        assert(binders_model(applied@) =~= apply_to_binders(self@, binders_model(binders@)));
        applied
    }

    /// See [`Substitution::apply_expression`].
    pub fn resolve_expression(&self, expression: &Expression) -> (applied: Expression)
        requires
            self.wf(),
        ensures
            applied@ == apply_to_expression(self@, expression@),
        decreases expression,
    {
        match expression {
            Expression::Function { span, binders, body } => Expression::Function {
                span: *span,
                binders: self.resolve_binders(binders),
                body: Box::new(self.resolve_expression(body)),
            },
            Expression::Call { span, call_type, function, arguments } => {
                let mut applied: Vec<Argument> = Vec::new();
                let mut i: usize = 0;
                while i < arguments.len()
                    invariant
                        self.wf(),
                        expression is Call,
                        expression->Call_arguments == *arguments,
                        i <= arguments.len(),
                        applied.len() == i,
                        forall|j: int|
                            0 <= j < i ==> applied@[j]@ == apply_to_expression(
                                self@,
                                arguments@[j]@,
                            ),
                    decreases arguments.len() - i,
                {
                    match &arguments[i] {
                        Argument::Expression(argument) => {
                            applied.push(Argument::Expression(self.resolve_expression(argument)));
                        },
                    }
                    i += 1;
                }
                let result = Expression::Call {
                    span: *span,
                    call_type: self.resolve(call_type),
                    function: Box::new(self.resolve_expression(function)),
                    arguments: applied,
                };
                proof {
                    lemma_model_of_expressions(*expression);
                    lemma_model_of_expressions(result);
                    lemma_apply_to_expressions(self@, arguments_model(arguments@));
                    assert(arguments_model(result->arguments@) =~= apply_to_expressions(
                        self@,
                        arguments_model(arguments@),
                    ));
                }
                result
            },
            Expression::If {
                span,
                output_type,
                condition,
                true_clause,
                false_clause,
            } => Expression::If {
                span: *span,
                output_type: self.resolve(output_type),
                condition: Box::new(self.resolve_expression(condition)),
                true_clause: Box::new(self.resolve_expression(true_clause)),
                false_clause: Box::new(self.resolve_expression(false_clause)),
            },
            Expression::LocalConstructor {
                span,
                constructor_type,
                constructor,
            } => Expression::LocalConstructor {
                span: *span,
                constructor_type: self.resolve(constructor_type),
                constructor: constructor.duplicate(),
            },
            Expression::ImportedConstructor {
                span,
                constructor_type,
                constructor,
            } => Expression::ImportedConstructor {
                span: *span,
                constructor_type: self.resolve(constructor_type),
                constructor: constructor.duplicate(),
            },
            Expression::LocalVariable { span, variable_type, variable } => Expression::LocalVariable {
                span: *span,
                variable_type: self.resolve(variable_type),
                variable: variable.duplicate(),
            },
            Expression::ForeignVariable {
                span,
                variable_type,
                variable,
            } => Expression::ForeignVariable {
                span: *span,
                variable_type: self.resolve(variable_type),
                variable: variable.duplicate(),
            },
            Expression::ImportedVariable {
                span,
                variable_type,
                variable,
            } => Expression::ImportedVariable {
                span: *span,
                variable_type: self.resolve(variable_type),
                variable: variable.duplicate(),
            },
            Expression::String { span, value } => Expression::String {
                span: *span,
                value: value.clone(),
            },
            Expression::Int { span, value } => Expression::Int { span: *span, value: value.clone() },
            Expression::Float { span, value } => Expression::Float {
                span: *span,
                value: value.clone(),
            },
            Expression::Array { span, element_type, elements } => {
                let mut applied: Vec<Expression> = Vec::new();
                let mut i: usize = 0;
                while i < elements.len()
                    invariant
                        self.wf(),
                        expression is Array,
                        expression->Array_elements == *elements,
                        i <= elements.len(),
                        applied.len() == i,
                        forall|j: int|
                            0 <= j < i ==> applied@[j]@ == apply_to_expression(
                                self@,
                                elements@[j]@,
                            ),
                    decreases elements.len() - i,
                {
                    applied.push(self.resolve_expression(&elements[i]));
                    i += 1;
                }
                let result = Expression::Array {
                    span: *span,
                    element_type: self.resolve(element_type),
                    elements: applied,
                };
                proof {
                    lemma_model_of_expressions(*expression);
                    lemma_model_of_expressions(result);
                    lemma_apply_to_expressions(self@, expressions_model(elements@));
                    assert(expressions_model(result->elements@) =~= apply_to_expressions(
                        self@,
                        expressions_model(elements@),
                    ));
                }
                result
            },
            Expression::True { span } => Expression::True { span: *span },
            Expression::False { span } => Expression::False { span: *span },
            Expression::Unit { span } => Expression::Unit { span: *span },
        }
    }

    /// The constraint with the bindings applied to both of its types.
    pub fn apply_constraint(&self, constraint: Constraint) -> (applied: Constraint)
        requires
            self.wf(),
        ensures
            applied.expected@ == apply(self@, constraint.expected@),
            applied.actual@ == apply(self@, constraint.actual@),
    {
        let Constraint { expected, actual } = constraint;
        Constraint { expected: self.apply(expected), actual: self.apply(actual) }
    }
}

} // verus!
