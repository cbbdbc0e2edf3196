//! The concrete syntax tree: every token of a source text, with its comments.

pub mod grammar;
pub mod lexer;
pub mod words;
pub mod parser;

use crate::token::{
    CloseBracket, CloseParen, Colon, Comma, Dot, DoubleDot, ElseKeyword, Equals, FalseKeyword,
    ForeignKeyword, IfKeyword, OpenBracket, OpenParen, Pipe, RightArrow, Semicolon, StringToken,
    ThenKeyword, TrueKeyword, TypeKeyword, UnitKeyword,
};
use vstd::prelude::*;

verus! {

/// A value between parentheses.
#[derive(Debug, Clone)]
pub struct Parens<T> {
    /// `(`
    pub open_paren: OpenParen,
    /// The enclosed value.
    pub value: T,
    /// `)`
    pub close_paren: CloseParen,
}

/// A value between square brackets.
#[derive(Debug, Clone)]
pub struct Brackets<T> {
    /// `[`
    pub open_bracket: OpenBracket,
    /// The enclosed value.
    pub value: T,
    /// `]`
    pub close_bracket: CloseBracket,
}

/// One or more values with commas between them, and possibly one behind the last.
#[derive(Debug, Clone)]
pub struct CommaSep1<T> {
    /// The first value.
    pub head: T,
    /// The values that follow, each with the comma before it.
    pub tail: Vec<(Comma, T)>,
    /// An optional comma behind the last value.
    pub trailing_comma: Option<Comma>,
}

/// A parenthesized list that may be empty.
pub type ParensList<T> = Parens<Option<CommaSep1<T>>>;

/// A parenthesized list with at least one value.
pub type ParensList1<T> = Parens<CommaSep1<T>>;

/// A bracketed list that may be empty.
pub type BracketsList<T> = Brackets<Option<CommaSep1<T>>>;

/// A name that starts with a lower case letter.
#[derive(Debug, Clone)]
pub struct Name(pub StringToken);

/// A name that starts with an upper case letter.
#[derive(Debug, Clone)]
pub struct ProperName(pub StringToken);

/// A value that may have a module's name and a dot before it.
#[derive(Debug, Clone)]
pub struct Qualified<Value> {
    /// The module's name and the dot, if present.
    pub module_name: Option<(ProperName, Dot)>,
    /// The qualified value.
    pub value: Value,
}

/// A possibly qualified name of a value.
pub type QualifiedName = Qualified<Name>;

/// A possibly qualified name of a type or constructor.
pub type QualifiedProperName = Qualified<ProperName>;

/// `(..)`
pub type Everything = Parens<DoubleDot>;

/// Something a module imports.
#[derive(Debug, Clone)]
pub enum Import {
    /// A value.
    Value(Name),
    /// A type, with all of its constructors where `(..)` follows.
    Type(ProperName, Option<Everything>),
}

/// Something a module exports.
#[derive(Debug, Clone)]
pub enum Export {
    /// A value.
    Value(Name),
    /// A type, with all of its constructors where `(..)` follows.
    Type(ProperName, Option<Everything>),
}

/// What stands at the front of a type-level call.
#[derive(Debug, Clone)]
pub enum TypeCallFunction {
    /// A type constructor, as in `Maybe(a)`.
    Constructor(QualifiedProperName),
    /// A type variable, as in `f(a)`.
    Variable(Name),
}

/// The syntax of a type.
#[derive(Debug)]
pub enum Type {
    /// `(t)`
    Parens(Parens<Box<Type>>),
    /// `Maybe(a)`
    Call {
        /// The applied type.
        function: TypeCallFunction,
        /// The arguments.
        arguments: ParensList1<Box<Type>>,
    },
    /// `(a, b) -> c`
    Function {
        /// The parameter types.
        parameters: ParensList<Box<Type>>,
        /// `->`
        right_arrow: RightArrow,
        /// The type of the result.
        return_type: Box<Type>,
    },
    /// `Int`
    Constructor(QualifiedProperName),
    /// `a`
    Variable(Name),
}

/// `: t`
#[derive(Debug)]
pub struct TypeAnnotation(pub Colon, pub Type);

/// A parameter of a function literal.
pub type Parameter = (Name, Option<TypeAnnotation>);

/// The syntax of an expression.
#[derive(Debug)]
pub enum Expression {
    /// `(e)`
    Parens(Parens<Box<Expression>>),
    /// `(a: Int): Int -> a`
    Function {
        /// The parameters.
        parameters: Box<ParensList<Parameter>>,
        /// The optional type of the result.
        return_type_annotation: Box<Option<TypeAnnotation>>,
        /// `->`
        right_arrow: RightArrow,
        /// The body.
        body: Box<Expression>,
    },
    /// `f(x, y)`
    Call {
        /// The called expression.
        function: Box<Expression>,
        /// The arguments.
        arguments: ParensList<Box<Expression>>,
    },
    /// `if c then a else b`
    If {
        /// `if`
        if_keyword: IfKeyword,
        /// The condition.
        condition: Box<Expression>,
        /// `then`
        then_keyword: ThenKeyword,
        /// The value where the condition holds.
        true_clause: Box<Expression>,
        /// `else`
        else_keyword: ElseKeyword,
        /// The value where it does not.
        false_clause: Box<Expression>,
    },
    /// `Just`
    Constructor(QualifiedProperName),
    /// `x`
    Variable(QualifiedName),
    /// `unit`
    Unit(UnitKeyword),
    /// `true`
    True(TrueKeyword),
    /// `false`
    False(FalseKeyword),
    /// `"text"`, the token holding the text between the quotes
    String(StringToken),
    /// `5`
    Int(StringToken),
    /// `5.0`
    Float(StringToken),
    /// `[x, y]`
    Array(BracketsList<Box<Expression>>),
}

/// A constructor of a type declaration, with the pipe before it.
#[derive(Debug)]
pub struct Constructor<P> {
    /// `|`, which the first constructor may lack.
    pub pipe: P,
    /// The constructor's name.
    pub constructor_name: ProperName,
    /// The types of its fields.
    pub fields: Option<ParensList1<Box<Type>>>,
}

/// `type Maybe(a) = Just(a) | Nothing;`
#[derive(Debug)]
pub enum TypeDeclaration {
    /// A type with constructors.
    WithConstructors {
        /// `type`
        type_keyword: TypeKeyword,
        /// The name of the type.
        name: ProperName,
        /// The type's parameters.
        type_variables: Option<ParensList1<Name>>,
        /// `=`
        equals: Equals,
        /// The first constructor.
        head_constructor: Constructor<Option<Pipe>>,
        /// The constructors that follow.
        tail_constructors: Vec<Constructor<Pipe>>,
        /// `;`
        semicolon: Semicolon,
    },
    /// A type without constructors.
    WithoutConstructors {
        /// `type`
        type_keyword: TypeKeyword,
        /// The name of the type.
        name: ProperName,
        /// The type's parameters.
        type_variables: Option<ParensList1<Name>>,
        /// `;`
        semicolon: Semicolon,
    },
}

/// `five: Int = 5;`
#[derive(Debug)]
pub struct ValueDeclaration {
    /// The name of the value.
    pub name: Name,
    /// Its optional type.
    pub type_annotation: Option<TypeAnnotation>,
    /// `=`
    pub equals: Equals,
    /// The value.
    pub expression: Expression,
    /// `;`
    pub semicolon: Semicolon,
}

/// `foreign five: Int;`
#[derive(Debug)]
pub struct ForeignValueDeclaration {
    /// `foreign`
    pub foreign_keyword: ForeignKeyword,
    /// The name of the value.
    pub name: Name,
    /// Its type.
    pub type_annotation: TypeAnnotation,
    /// `;`
    pub semicolon: Semicolon,
}

/// A declaration of a module.
#[derive(Debug)]
pub enum Declaration {
    /// A value.
    Value(Box<ValueDeclaration>),
    /// A type.
    Type(Box<TypeDeclaration>),
    /// A value defined outside the language.
    ForeignValue(Box<ForeignValueDeclaration>),
}

} // verus!
