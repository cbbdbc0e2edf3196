//! Typed expressions: what the checker hands back.

use crate::ast::name::{
    CanonicalText, FullyQualifiedName, FullyQualifiedProperName, Name, ProperName,
};
use crate::ast::types::{duplicate_type, lemma_model_of_parts, models, PrimType, Ty, Type};
use crate::token::Span;
use vstd::prelude::*;

verus! {

/// A parameter of a function.
#[derive(Debug, PartialEq, Eq)]
pub enum FunctionBinder {
    /// A parameter with a name.
    Name {
        /// Where the parameter stands.
        span: Span,
        /// The type of the parameter.
        binder_type: Type,
        /// The name of the parameter.
        value: Name,
    },
}

/// An argument of a call.
#[derive(Debug, PartialEq, Eq)]
pub enum Argument {
    /// An expression.
    Expression(Expression),
}

/// An expression in which every node has its type.
#[derive(Debug, PartialEq, Eq)]
pub enum Expression {
    /// A function literal.
    Function {
        span: Span,
        /// The parameters.
        binders: Vec<FunctionBinder>,
        /// The body.
        body: Box<Expression>,
    },
    /// A call.
    Call {
        span: Span,
        /// The type of the call's value.
        call_type: Type,
        /// The called expression.
        function: Box<Expression>,
        /// The arguments.
        arguments: Vec<Argument>,
    },
    /// A conditional.
    If {
        span: Span,
        /// The type of either branch.
        output_type: Type,
        /// The condition.
        condition: Box<Expression>,
        /// The value where the condition holds.
        true_clause: Box<Expression>,
        /// The value where it does not.
        false_clause: Box<Expression>,
    },
    /// A constructor of the current module.
    LocalConstructor { span: Span, constructor_type: Type, constructor: ProperName },
    /// A constructor of another module.
    ImportedConstructor { span: Span, constructor_type: Type, constructor: FullyQualifiedProperName },
    /// A value of the current module, or a parameter.
    LocalVariable { span: Span, variable_type: Type, variable: Name },
    /// A value defined outside the language.
    ForeignVariable { span: Span, variable_type: Type, variable: Name },
    /// A value of another module.
    ImportedVariable { span: Span, variable_type: Type, variable: FullyQualifiedName },
    /// A string literal.
    String { span: Span, value: String },
    /// An integer literal, as the source wrote it.
    Int { span: Span, value: String },
    /// A floating point literal, as the source wrote it.
    Float { span: Span, value: String },
    /// An array literal.
    Array {
        span: Span,
        /// The type of the elements.
        element_type: Type,
        /// The elements.
        elements: Vec<Expression>,
    },
    /// `true`
    True { span: Span },
    /// `false`
    False { span: Span },
    /// `unit`
    Unit { span: Span },
}

/// A parameter as a mathematical value.
pub struct Binder {
    pub span: Span,
    pub binder_type: Ty,
    pub value: Seq<char>,
}

/// A typed expression as a mathematical value.
pub enum Expr {
    Function { span: Span, binders: Seq<Binder>, body: Box<Expr> },
    Call { span: Span, call_type: Ty, function: Box<Expr>, arguments: Seq<Expr> },
    If {
        span: Span,
        output_type: Ty,
        condition: Box<Expr>,
        true_clause: Box<Expr>,
        false_clause: Box<Expr>,
    },
    LocalConstructor { span: Span, constructor_type: Ty, constructor: Seq<char> },
    ImportedConstructor { span: Span, constructor_type: Ty, constructor: CanonicalText },
    LocalVariable { span: Span, variable_type: Ty, variable: Seq<char> },
    ForeignVariable { span: Span, variable_type: Ty, variable: Seq<char> },
    ImportedVariable { span: Span, variable_type: Ty, variable: CanonicalText },
    String { span: Span, value: Seq<char> },
    Int { span: Span, value: Seq<char> },
    Float { span: Span, value: Seq<char> },
    Array { span: Span, element_type: Ty, elements: Seq<Expr> },
    True { span: Span },
    False { span: Span },
    Unit { span: Span },
}

impl View for FunctionBinder {
    type V = Binder;

    open spec fn view(&self) -> Binder {
        match self {
            FunctionBinder::Name { span, binder_type, value } => Binder {
                span: *span,
                binder_type: binder_type@,
                value: value@,
            },
        }
    }
}

/// What a run of parameters says.
pub open spec fn binders_model(binders: Seq<FunctionBinder>) -> Seq<Binder> {
    Seq::new(binders.len(), |i: int| binders[i]@)
}

impl Expression {
    /// The expression as a mathematical value.
    pub open spec fn model(self) -> Expr
        decreases self,
    {
        match self {
            Expression::Function { span, binders, body } => Expr::Function {
                span,
                binders: binders_model(binders@),
                body: Box::new(body.model()),
            },
            Expression::Call { span, call_type, function, arguments } => Expr::Call {
                span,
                call_type: call_type@,
                function: Box::new(function.model()),
                arguments: Seq::new(
                    arguments@.len(),
                    |i: int|
                        if 0 <= i < arguments@.len() {
                            arguments@[i]->0.model()
                        } else {
                            Expr::Unit { span }
                        },
                ),
            },
            Expression::If { span, output_type, condition, true_clause, false_clause } => Expr::If {
                span,
                output_type: output_type@,
                condition: Box::new(condition.model()),
                true_clause: Box::new(true_clause.model()),
                false_clause: Box::new(false_clause.model()),
            },
            Expression::LocalConstructor {
                span,
                constructor_type,
                constructor,
            } => Expr::LocalConstructor {
                span,
                constructor_type: constructor_type@,
                constructor: constructor@,
            },
            Expression::ImportedConstructor {
                span,
                constructor_type,
                constructor,
            } => Expr::ImportedConstructor {
                span,
                constructor_type: constructor_type@,
                constructor: constructor@,
            },
            Expression::LocalVariable { span, variable_type, variable } => Expr::LocalVariable {
                span,
                variable_type: variable_type@,
                variable: variable@,
            },
            Expression::ForeignVariable { span, variable_type, variable } => Expr::ForeignVariable {
                span,
                variable_type: variable_type@,
                variable: variable@,
            },
            Expression::ImportedVariable {
                span,
                variable_type,
                variable,
            } => Expr::ImportedVariable { span, variable_type: variable_type@, variable: variable@ },
            Expression::String { span, value } => Expr::String { span, value: value@ },
            Expression::Int { span, value } => Expr::Int { span, value: value@ },
            Expression::Float { span, value } => Expr::Float { span, value: value@ },
            Expression::Array { span, element_type, elements } => Expr::Array {
                span,
                element_type: element_type@,
                elements: Seq::new(
                    elements@.len(),
                    |i: int|
                        if 0 <= i < elements@.len() {
                            elements@[i].model()
                        } else {
                            Expr::Unit { span }
                        },
                ),
            },
            Expression::True { span } => Expr::True { span },
            Expression::False { span } => Expr::False { span },
            Expression::Unit { span } => Expr::Unit { span },
        }
    }
}

impl View for Expression {
    type V = Expr;

    open spec fn view(&self) -> Expr {
        self.model()
    }
}

impl View for Argument {
    type V = Expr;

    open spec fn view(&self) -> Expr {
        self->0@
    }
}

/// What a run of expressions says.
pub open spec fn expressions_model(expressions: Seq<Expression>) -> Seq<Expr> {
    Seq::new(expressions.len(), |i: int| expressions[i]@)
}

/// What a run of arguments says.
pub open spec fn arguments_model(arguments: Seq<Argument>) -> Seq<Expr> {
    Seq::new(arguments.len(), |i: int| arguments[i]@)
}

/// The views of an expression's parts are the views of their elements.
pub proof fn lemma_model_of_expressions(e: Expression)
    ensures
        e matches Expression::Call { arguments, .. } ==> e@->arguments == arguments_model(
            arguments@,
        ),
        e matches Expression::Array { elements, .. } ==> e@->elements == expressions_model(
            elements@,
        ),
{
    match e {
        Expression::Call { arguments, .. } => {
            assert(e@->arguments =~= arguments_model(arguments@));
        },
        Expression::Array { elements, .. } => {
            assert(e@->elements =~= expressions_model(elements@));
        },
        _ => {},
    }
}

/// The types of parameters, in order.
pub open spec fn binder_types(binders: Seq<Binder>) -> Seq<Ty> {
    Seq::new(binders.len(), |i: int| binders[i].binder_type)
}

/// The type of `Bool`.
pub open spec fn bool_type() -> Ty {
    Ty::PrimConstructor(PrimType::Bool)
}

/// The type of arrays of `element`.
pub open spec fn array_type(element: Ty) -> Ty {
    Ty::Call { function: Box::new(Ty::PrimConstructor(PrimType::Array)), arguments: seq![element] }
}

/// The type of an expression.
pub open spec fn type_of(e: Expr) -> Ty
    decreases e,
{
    match e {
        Expr::Function { binders, body, .. } => Ty::Function {
            parameters: binder_types(binders),
            return_type: Box::new(type_of(*body)),
        },
        Expr::Call { call_type, .. } => call_type,
        Expr::If { output_type, .. } => output_type,
        Expr::LocalConstructor { constructor_type, .. } => constructor_type,
        Expr::ImportedConstructor { constructor_type, .. } => constructor_type,
        Expr::LocalVariable { variable_type, .. } => variable_type,
        Expr::ForeignVariable { variable_type, .. } => variable_type,
        Expr::ImportedVariable { variable_type, .. } => variable_type,
        Expr::String { .. } => Ty::PrimConstructor(PrimType::String),
        Expr::Int { .. } => Ty::PrimConstructor(PrimType::Int),
        Expr::Float { .. } => Ty::PrimConstructor(PrimType::Float),
        Expr::Array { element_type, .. } => array_type(element_type),
        Expr::True { .. } => bool_type(),
        Expr::False { .. } => bool_type(),
        Expr::Unit { .. } => Ty::PrimConstructor(PrimType::Unit),
    }
}

/// Where an expression stands in the source.
pub open spec fn span_of(e: Expr) -> Span {
    match e {
        Expr::Function { span, .. } => span,
        Expr::Call { span, .. } => span,
        Expr::If { span, .. } => span,
        Expr::LocalConstructor { span, .. } => span,
        Expr::ImportedConstructor { span, .. } => span,
        Expr::LocalVariable { span, .. } => span,
        Expr::ForeignVariable { span, .. } => span,
        Expr::ImportedVariable { span, .. } => span,
        Expr::String { span, .. } => span,
        Expr::Int { span, .. } => span,
        Expr::Float { span, .. } => span,
        Expr::Array { span, .. } => span,
        Expr::True { span } => span,
        Expr::False { span } => span,
        Expr::Unit { span } => span,
    }
}

impl FunctionBinder {
    /// The type of the parameter.
    pub fn get_type(&self) -> (found: Type)
        ensures
            found@ == self@.binder_type,
    {
        match self {
            FunctionBinder::Name { binder_type, .. } => duplicate_type(binder_type),
        }
    }
}

impl Argument {
    /// The type of the argument.
    pub fn get_type(&self) -> (found: Type)
        ensures
            found@ == type_of(self@),
    {
        match self {
            Argument::Expression(expression) => expression.get_type(),
        }
    }
}

impl Expression {
    /// The type of the expression.
    pub fn get_type(&self) -> (found: Type)
        ensures
            found@ == type_of(self@),
        decreases self,
    {
        match self {
            Expression::Function { binders, body, .. } => {
                let mut parameters: Vec<Type> = Vec::new();
                let mut i: usize = 0;
                while i < binders.len()
                    invariant
                        i <= binders.len(),
                        parameters.len() == i,
                        forall|j: int| 0 <= j < i ==> parameters@[j]@ == binders@[j]@.binder_type,
                    decreases binders.len() - i,
                {
                    parameters.push(binders[i].get_type());
                    i += 1;
                }
                let return_type = (**body).get_type();
                let ghost wanted = binder_types(binders_model(binders@));
                assert(models(parameters@) =~= wanted);
                let found = Type::Function { parameters, return_type: Box::new(return_type) };
                proof {
                    lemma_model_of_parts(found);
                    assert(found@ == Ty::Function {
                        parameters: wanted,
                        return_type: Box::new(type_of(body@)),
                    });
                    assert(self@ matches Expr::Function { binders: b, body: inner, .. } && b
                        == binders_model(binders@) && *inner == body@);
                }
                found
            },
            Expression::Call { call_type, .. } => duplicate_type(call_type),
            Expression::If { output_type, .. } => duplicate_type(output_type),
            Expression::LocalConstructor { constructor_type, .. } => duplicate_type(
                constructor_type,
            ),
            Expression::ImportedConstructor { constructor_type, .. } => duplicate_type(
                constructor_type,
            ),
            Expression::LocalVariable { variable_type, .. } => duplicate_type(variable_type),
            Expression::ForeignVariable { variable_type, .. } => duplicate_type(variable_type),
            Expression::ImportedVariable { variable_type, .. } => duplicate_type(variable_type),
            Expression::String { .. } => Type::PrimConstructor(PrimType::String),
            Expression::Int { .. } => Type::PrimConstructor(PrimType::Int),
            Expression::Float { .. } => Type::PrimConstructor(PrimType::Float),
            Expression::Array { element_type, .. } => {
                let mut arguments: Vec<Type> = Vec::new();
                arguments.push(duplicate_type(element_type));
                let found = Type::Call {
                    function: Box::new(Type::PrimConstructor(PrimType::Array)),
                    arguments,
                };
                proof {
                    lemma_model_of_parts(found);
                    assert(models(found->arguments@) =~= seq![element_type@]);
                    assert(Type::PrimConstructor(PrimType::Array)@ == Ty::PrimConstructor(
                        PrimType::Array,
                    ));
                }
                found
            },
            Expression::True { .. } => Type::PrimConstructor(PrimType::Bool),
            Expression::False { .. } => Type::PrimConstructor(PrimType::Bool),
            Expression::Unit { .. } => Type::PrimConstructor(PrimType::Unit),
        }
    }

    /// Where the expression stands in the source.
    pub fn get_span(&self) -> (span: Span)
        ensures
            span == span_of(self@),
    {
        match self {
            Expression::Function { span, .. } => *span,
            Expression::Call { span, .. } => *span,
            Expression::If { span, .. } => *span,
            Expression::LocalConstructor { span, .. } => *span,
            Expression::ImportedConstructor { span, .. } => *span,
            Expression::LocalVariable { span, .. } => *span,
            Expression::ForeignVariable { span, .. } => *span,
            Expression::ImportedVariable { span, .. } => *span,
            Expression::String { span, .. } => *span,
            Expression::Int { span, .. } => *span,
            Expression::Float { span, .. } => *span,
            Expression::Array { span, .. } => *span,
            Expression::True { span } => *span,
            Expression::False { span } => *span,
            Expression::Unit { span } => *span,
        }
    }
}

} // verus!
