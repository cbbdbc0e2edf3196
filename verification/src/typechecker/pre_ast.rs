//! The expressions that the checker is given: syntax with its names resolved
//! and its type annotations read, and no types inferred yet.

use crate::ast::name::{Name, QualifiedName, QualifiedProperName};
use crate::ast::types::Type;
use crate::token::Span;
use vstd::prelude::*;

verus! {

/// A parameter of a function, with the type that the source gives it, if any.
#[derive(Debug, PartialEq, Eq)]
pub enum FunctionBinder {
    /// A parameter with a name.
    Name { span: Span, type_annotation: Option<Type>, value: Name },
}

/// An argument of a call.
#[derive(Debug, PartialEq, Eq)]
pub enum Argument {
    /// An expression.
    Expression(Expression),
}

/// An expression without types.
#[derive(Debug, PartialEq, Eq)]
pub enum Expression {
    /// A function literal.
    Function {
        span: Span,
        /// The parameters, in order.
        binders: Vec<FunctionBinder>,
        /// The type that the source gives the result, if any.
        return_type_annotation: Option<Type>,
        /// The body.
        body: Box<Expression>,
    },
    /// A call.
    Call { span: Span, function: Box<Expression>, arguments: Vec<Argument> },
    /// A conditional.
    If {
        span: Span,
        condition: Box<Expression>,
        true_clause: Box<Expression>,
        false_clause: Box<Expression>,
    },
    /// A reference to a constructor.
    Constructor { span: Span, constructor: QualifiedProperName },
    /// A reference to a value.
    Variable { span: Span, variable: QualifiedName },
    /// A string literal.
    String { span: Span, value: String },
    /// An integer literal, as the source wrote it.
    Int { span: Span, value: String },
    /// A floating point literal, as the source wrote it.
    Float { span: Span, value: String },
    /// An array literal.
    Array { span: Span, elements: Vec<Expression> },
    /// `true`
    True { span: Span },
    /// `false`
    False { span: Span },
    /// `unit`
    Unit { span: Span },
}

impl FunctionBinder {
    /// Where the parameter stands.
    pub open spec fn span(self) -> Span {
        self->span
    }

    /// The name of the parameter.
    pub open spec fn name(self) -> Seq<char> {
        self->value@
    }
}

} // verus!
