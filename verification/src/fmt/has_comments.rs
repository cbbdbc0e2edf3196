//! Which pieces of syntax carry comments.

use crate::cst::{
    Brackets, CommaSep1, Export, Expression, Import, Name, Parens, ProperName, Qualified, Type,
    TypeAnnotation, TypeCallFunction,
};
use crate::token::{Comma, Dot, DoubleDot};
use vstd::prelude::*;

verus! {

/// Syntax that may carry comments.
pub trait HasComments {
    /// Some token of `self` carries a comment.
    spec fn comments(&self) -> bool;

    /// The first token of `self` has comments above it.
    spec fn leading_comments(&self) -> bool;

    /// Does any token of `self` carry a comment?
    fn has_comments(&self) -> (any: bool)
        ensures
            any == self.comments(),
    ;

    /// Does the first token of `self` have comments above it?
    fn has_leading_comments(&self) -> (any: bool)
        ensures
            any == self.leading_comments(),
    ;
}

impl<T: HasComments> HasComments for Box<T> {
    open spec fn comments(&self) -> bool {
        (**self).comments()
    }

    open spec fn leading_comments(&self) -> bool {
        (**self).leading_comments()
    }

    fn has_comments(&self) -> (any: bool) {
        (**self).has_comments()
    }

    fn has_leading_comments(&self) -> (any: bool) {
        (**self).has_leading_comments()
    }
}

impl<T: HasComments> HasComments for Option<T> {
    open spec fn comments(&self) -> bool {
        match self {
            Some(x) => x.comments(),
            None => false,
        }
    }

    open spec fn leading_comments(&self) -> bool {
        match self {
            Some(x) => x.leading_comments(),
            None => false,
        }
    }

    fn has_comments(&self) -> (any: bool) {
        match self {
            Some(x) => x.has_comments(),
            None => false,
        }
    }

    fn has_leading_comments(&self) -> (any: bool) {
        match self {
            Some(x) => x.has_leading_comments(),
            None => false,
        }
    }
}

impl<Fst: HasComments, Snd: HasComments> HasComments for (Fst, Snd) {
    open spec fn comments(&self) -> bool {
        self.0.comments() || self.1.comments()
    }

    open spec fn leading_comments(&self) -> bool {
        self.0.leading_comments()
    }

    fn has_comments(&self) -> (any: bool) {
        self.0.has_comments() || self.1.has_comments()
    }

    fn has_leading_comments(&self) -> (any: bool) {
        self.0.has_leading_comments()
    }
}

impl<T: HasComments> HasComments for Vec<T> {
    open spec fn comments(&self) -> bool {
        exists|i: int| 0 <= i < self@.len() && (#[trigger] self@[i]).comments()
    }

    open spec fn leading_comments(&self) -> bool {
        self@.len() > 0 && self@[0].leading_comments()
    }

    fn has_comments(&self) -> (any: bool) {
        let mut i: usize = 0;
        while i < self.len()
            invariant
                i <= self.len(),
                forall|j: int| 0 <= j < i ==> !(#[trigger] self@[j]).comments(),
            decreases self.len() - i,
        {
            if self[i].has_comments() {
                return true;
            }
            i += 1;
        }
        false
    }

    fn has_leading_comments(&self) -> (any: bool) {
        if self.len() > 0 {
            self[0].has_leading_comments()
        } else {
            false
        }
    }
}

impl HasComments for Dot {
    open spec fn comments(&self) -> bool {
        self.0.commented()
    }

    open spec fn leading_comments(&self) -> bool {
        self.0.leading().len() > 0
    }

    fn has_comments(&self) -> (any: bool) {
        self.0.has_comments()
    }

    fn has_leading_comments(&self) -> (any: bool) {
        self.0.has_leading_comments()
    }
}

impl HasComments for DoubleDot {
    open spec fn comments(&self) -> bool {
        self.0.commented()
    }

    open spec fn leading_comments(&self) -> bool {
        self.0.leading().len() > 0
    }

    fn has_comments(&self) -> (any: bool) {
        self.0.has_comments()
    }

    fn has_leading_comments(&self) -> (any: bool) {
        self.0.has_leading_comments()
    }
}

impl HasComments for Comma {
    open spec fn comments(&self) -> bool {
        self.0.commented()
    }

    open spec fn leading_comments(&self) -> bool {
        self.0.leading().len() > 0
    }

    fn has_comments(&self) -> (any: bool) {
        self.0.has_comments()
    }

    fn has_leading_comments(&self) -> (any: bool) {
        self.0.has_leading_comments()
    }
}

impl HasComments for Name {
    open spec fn comments(&self) -> bool {
        self.0.commented()
    }

    open spec fn leading_comments(&self) -> bool {
        self.0.leading().len() > 0
    }

    fn has_comments(&self) -> (any: bool) {
        self.0.has_comments()
    }

    fn has_leading_comments(&self) -> (any: bool) {
        self.0.has_leading_comments()
    }
}

impl HasComments for ProperName {
    open spec fn comments(&self) -> bool {
        self.0.commented()
    }

    open spec fn leading_comments(&self) -> bool {
        self.0.leading().len() > 0
    }

    fn has_comments(&self) -> (any: bool) {
        self.0.has_comments()
    }

    fn has_leading_comments(&self) -> (any: bool) {
        self.0.has_leading_comments()
    }
}

impl<T: HasComments> HasComments for Parens<T> {
    open spec fn comments(&self) -> bool {
        self.open_paren.0.commented() || self.value.comments() || self.close_paren.0.commented()
    }

    open spec fn leading_comments(&self) -> bool {
        self.open_paren.0.leading().len() > 0
    }

    fn has_comments(&self) -> (any: bool) {
        self.open_paren.0.has_comments() || self.value.has_comments()
            || self.close_paren.0.has_comments()
    }

    fn has_leading_comments(&self) -> (any: bool) {
        self.open_paren.0.has_leading_comments()
    }
}

impl<T: HasComments> HasComments for Brackets<T> {
    open spec fn comments(&self) -> bool {
        self.open_bracket.0.commented() || self.value.comments()
            || self.close_bracket.0.commented()
    }

    open spec fn leading_comments(&self) -> bool {
        self.open_bracket.0.leading().len() > 0
    }

    fn has_comments(&self) -> (any: bool) {
        self.open_bracket.0.has_comments() || self.value.has_comments()
            || self.close_bracket.0.has_comments()
    }

    fn has_leading_comments(&self) -> (any: bool) {
        self.open_bracket.0.has_leading_comments()
    }
}

impl<T: HasComments> HasComments for CommaSep1<T> {
    open spec fn comments(&self) -> bool {
        self.head.comments() || self.tail.comments() || self.trailing_comma.comments()
    }

    open spec fn leading_comments(&self) -> bool {
        self.head.leading_comments()
    }

    fn has_comments(&self) -> (any: bool) {
        self.head.has_comments() || self.tail.has_comments() || self.trailing_comma.has_comments()
    }

    fn has_leading_comments(&self) -> (any: bool) {
        self.head.has_leading_comments()
    }
}

impl<Value: HasComments> HasComments for Qualified<Value> {
    open spec fn comments(&self) -> bool {
        self.module_name.comments() || self.value.comments()
    }

    open spec fn leading_comments(&self) -> bool {
        match self.module_name {
            Some(module_name) => module_name.leading_comments(),
            None => self.value.leading_comments(),
        }
    }

    fn has_comments(&self) -> (any: bool) {
        self.module_name.has_comments() || self.value.has_comments()
    }

    fn has_leading_comments(&self) -> (any: bool) {
        match &self.module_name {
            Some(module_name) => module_name.has_leading_comments(),
            None => self.value.has_leading_comments(),
        }
    }
}

impl HasComments for Import {
    open spec fn comments(&self) -> bool {
        match self {
            Import::Value(name) => name.comments(),
            Import::Type(proper_name, everything) => proper_name.comments()
                || everything.comments(),
        }
    }

    open spec fn leading_comments(&self) -> bool {
        match self {
            Import::Value(name) => name.leading_comments(),
            Import::Type(proper_name, _everything) => proper_name.leading_comments(),
        }
    }

    fn has_comments(&self) -> (any: bool) {
        match self {
            Import::Value(name) => name.has_comments(),
            Import::Type(proper_name, everything) => proper_name.has_comments()
                || everything.has_comments(),
        }
    }

    fn has_leading_comments(&self) -> (any: bool) {
        match self {
            Import::Value(name) => name.has_leading_comments(),
            Import::Type(proper_name, _everything) => proper_name.has_leading_comments(),
        }
    }
}

impl HasComments for Export {
    open spec fn comments(&self) -> bool {
        match self {
            Export::Value(name) => name.comments(),
            Export::Type(proper_name, everything) => proper_name.comments()
                || everything.comments(),
        }
    }

    open spec fn leading_comments(&self) -> bool {
        match self {
            Export::Value(name) => name.leading_comments(),
            Export::Type(proper_name, _everything) => proper_name.leading_comments(),
        }
    }

    fn has_comments(&self) -> (any: bool) {
        match self {
            Export::Value(name) => name.has_comments(),
            Export::Type(proper_name, everything) => proper_name.has_comments()
                || everything.has_comments(),
        }
    }

    fn has_leading_comments(&self) -> (any: bool) {
        match self {
            Export::Value(name) => name.has_leading_comments(),
            Export::Type(proper_name, _everything) => proper_name.has_leading_comments(),
        }
    }
}

impl HasComments for TypeCallFunction {
    open spec fn comments(&self) -> bool {
        match self {
            TypeCallFunction::Constructor(constructor) => constructor.comments(),
            TypeCallFunction::Variable(variable) => variable.comments(),
        }
    }

    open spec fn leading_comments(&self) -> bool {
        match self {
            TypeCallFunction::Constructor(constructor) => constructor.leading_comments(),
            TypeCallFunction::Variable(variable) => variable.leading_comments(),
        }
    }

    fn has_comments(&self) -> (any: bool) {
        match self {
            TypeCallFunction::Constructor(constructor) => constructor.has_comments(),
            TypeCallFunction::Variable(variable) => variable.has_comments(),
        }
    }

    fn has_leading_comments(&self) -> (any: bool) {
        match self {
            TypeCallFunction::Constructor(constructor) => constructor.has_leading_comments(),
            TypeCallFunction::Variable(variable) => variable.has_leading_comments(),
        }
    }
}

/// Some token of a list of types carries a comment.
pub open spec fn types_comments(list: CommaSep1<Box<Type>>) -> bool
    decreases list,
{
    type_comments(*list.head) || (exists|i: int|
        0 <= i < list.tail@.len() && ((#[trigger] list.tail@[i]).0.comments() || type_comments(
            *list.tail@[i].1,
        ))) || list.trailing_comma.comments()
}

/// Some token of a type carries a comment.
pub open spec fn type_comments(t: Type) -> bool
    decreases t,
{
    match t {
        Type::Parens(parens) => parens.open_paren.0.commented() || type_comments(*parens.value)
            || parens.close_paren.0.commented(),
        Type::Variable(variable) => variable.comments(),
        Type::Constructor(constructor) => constructor.comments(),
        Type::Function { parameters, right_arrow, return_type } => {
            parameters.open_paren.0.commented() || (match parameters.value {
                Some(list) => types_comments(list),
                None => false,
            }) || parameters.close_paren.0.commented() || right_arrow.0.commented()
                || type_comments(*return_type)
        },
        Type::Call { function, arguments } => function.comments()
            || arguments.open_paren.0.commented() || types_comments(arguments.value)
            || arguments.close_paren.0.commented(),
    }
}

/// The first token of a type has comments above it.
pub open spec fn type_leading_comments(t: Type) -> bool {
    match t {
        Type::Parens(parens) => parens.open_paren.0.leading().len() > 0,
        Type::Variable(variable) => variable.leading_comments(),
        Type::Constructor(constructor) => constructor.leading_comments(),
        Type::Function { parameters, .. } => parameters.open_paren.0.leading().len() > 0,
        Type::Call { function, .. } => function.leading_comments(),
    }
}

/// Does any token of a list of types carry a comment?
pub fn types_have_comments(list: &CommaSep1<Box<Type>>) -> (any: bool)
    ensures
        any == types_comments(*list),
    decreases list,
{
    if type_has_comments(&list.head) {
        return true;
    }
    let mut i: usize = 0;
    while i < list.tail.len()
        invariant
            i <= list.tail.len(),
            forall|j: int|
                0 <= j < i ==> !((#[trigger] list.tail@[j]).0.comments() || type_comments(
                    *list.tail@[j].1,
                )),
        decreases list.tail.len() - i,
    {
        if list.tail[i].0.has_comments() || type_has_comments(&list.tail[i].1) {
            return true;
        }
        i += 1;
    }
    list.trailing_comma.has_comments()
}

fn type_has_comments(t: &Type) -> (any: bool)
    ensures
        any == type_comments(*t),
    decreases t,
{
    match t {
        Type::Parens(parens) => parens.open_paren.0.has_comments() || type_has_comments(
            &parens.value,
        ) || parens.close_paren.0.has_comments(),
        Type::Variable(variable) => variable.has_comments(),
        Type::Constructor(constructor) => constructor.has_comments(),
        Type::Function { parameters, right_arrow, return_type } => {
            parameters.open_paren.0.has_comments() || (match &parameters.value {
                Some(list) => types_have_comments(list),
                None => false,
            }) || parameters.close_paren.0.has_comments() || right_arrow.0.has_comments()
                || type_has_comments(return_type)
        },
        Type::Call { function, arguments } => function.has_comments()
            || arguments.open_paren.0.has_comments() || types_have_comments(&arguments.value)
            || arguments.close_paren.0.has_comments(),
    }
}

impl HasComments for Type {
    open spec fn comments(&self) -> bool {
        type_comments(*self)
    }

    open spec fn leading_comments(&self) -> bool {
        type_leading_comments(*self)
    }

    fn has_comments(&self) -> (any: bool) {
        type_has_comments(self)
    }

    fn has_leading_comments(&self) -> (any: bool) {
        match self {
            Type::Parens(parens) => parens.open_paren.0.has_leading_comments(),
            Type::Variable(variable) => variable.has_leading_comments(),
            Type::Constructor(constructor) => constructor.has_leading_comments(),
            Type::Function { parameters, .. } => parameters.open_paren.0.has_leading_comments(),
            Type::Call { function, .. } => function.has_leading_comments(),
        }
    }
}

impl HasComments for TypeAnnotation {
    open spec fn comments(&self) -> bool {
        self.0.0.commented() || self.1.comments()
    }

    open spec fn leading_comments(&self) -> bool {
        self.0.0.leading().len() > 0
    }

    fn has_comments(&self) -> (any: bool) {
        self.0.0.has_comments() || self.1.has_comments()
    }

    fn has_leading_comments(&self) -> (any: bool) {
        self.0.0.has_leading_comments()
    }
}

/// Some token of a list of expressions carries a comment.
pub open spec fn expressions_comments(list: CommaSep1<Box<Expression>>) -> bool
    decreases list,
{
    expression_comments(*list.head) || (exists|i: int|
        0 <= i < list.tail@.len() && ((#[trigger] list.tail@[i]).0.comments()
            || expression_comments(*list.tail@[i].1))) || list.trailing_comma.comments()
}

/// Some token of an optional list of expressions carries a comment.
pub open spec fn optional_expressions_comments(list: Option<CommaSep1<Box<Expression>>>) -> bool
    decreases list,
{
    match list {
        Some(list) => expressions_comments(list),
        None => false,
    }
}

/// Some token of an expression carries a comment.
pub open spec fn expression_comments(e: Expression) -> bool
    decreases e,
{
    match e {
        Expression::True(keyword) => keyword.0.commented(),
        Expression::False(keyword) => keyword.0.commented(),
        Expression::Unit(keyword) => keyword.0.commented(),
        Expression::String(token) => token.commented(),
        Expression::Int(token) => token.commented(),
        Expression::Float(token) => token.commented(),
        Expression::Constructor(constructor) => constructor.comments(),
        Expression::Variable(variable) => variable.comments(),
        Expression::Parens(parens) => parens.open_paren.0.commented() || expression_comments(
            *parens.value,
        ) || parens.close_paren.0.commented(),
        Expression::Array(brackets) => brackets.open_bracket.0.commented()
            || optional_expressions_comments(brackets.value)
            || brackets.close_bracket.0.commented(),
        Expression::If {
            if_keyword,
            condition,
            then_keyword,
            true_clause,
            else_keyword,
            false_clause,
        } => {
            if_keyword.0.commented() || expression_comments(*condition)
                || then_keyword.0.commented() || expression_comments(*true_clause)
                || else_keyword.0.commented() || expression_comments(*false_clause)
        },
        Expression::Function { parameters, return_type_annotation, right_arrow, body } => {
            parameters.comments() || return_type_annotation.comments() || right_arrow.0.commented()
                || expression_comments(*body)
        },
        Expression::Call { function, arguments } => expression_comments(*function)
            || arguments.open_paren.0.commented() || optional_expressions_comments(
            arguments.value,
        ) || arguments.close_paren.0.commented(),
    }
}

/// The first token of an expression has comments above it.
pub open spec fn expression_leading_comments(e: Expression) -> bool
    decreases e,
{
    match e {
        Expression::True(keyword) => keyword.0.leading().len() > 0,
        Expression::False(keyword) => keyword.0.leading().len() > 0,
        Expression::Unit(keyword) => keyword.0.leading().len() > 0,
        Expression::String(token) => token.leading().len() > 0,
        Expression::Int(token) => token.leading().len() > 0,
        Expression::Float(token) => token.leading().len() > 0,
        Expression::Constructor(constructor) => constructor.leading_comments(),
        Expression::Variable(variable) => variable.leading_comments(),
        Expression::Parens(parens) => parens.open_paren.0.leading().len() > 0,
        Expression::Array(brackets) => brackets.open_bracket.0.leading().len() > 0,
        Expression::If { if_keyword, .. } => if_keyword.0.leading().len() > 0,
        Expression::Function { parameters, .. } => parameters.open_paren.0.leading().len() > 0,
        Expression::Call { function, .. } => expression_leading_comments(*function),
    }
}

/// Does any token of a list of expressions carry a comment?
pub fn expressions_have_comments(list: &CommaSep1<Box<Expression>>) -> (any: bool)
    ensures
        any == expressions_comments(*list),
    decreases list,
{
    if expression_has_comments(&list.head) {
        return true;
    }
    let mut i: usize = 0;
    while i < list.tail.len()
        invariant
            i <= list.tail.len(),
            forall|j: int|
                0 <= j < i ==> !((#[trigger] list.tail@[j]).0.comments() || expression_comments(
                    *list.tail@[j].1,
                )),
        decreases list.tail.len() - i,
    {
        if list.tail[i].0.has_comments() || expression_has_comments(&list.tail[i].1) {
            return true;
        }
        i += 1;
    }
    list.trailing_comma.has_comments()
}

fn optional_expressions_have_comments(list: &Option<CommaSep1<Box<Expression>>>) -> (any: bool)
    ensures
        any == optional_expressions_comments(*list),
    decreases list,
{
    match list {
        Some(list) => expressions_have_comments(list),
        None => false,
    }
}

fn expression_has_comments(e: &Expression) -> (any: bool)
    ensures
        any == expression_comments(*e),
    decreases e,
{
    match e {
        Expression::True(keyword) => keyword.0.has_comments(),
        Expression::False(keyword) => keyword.0.has_comments(),
        Expression::Unit(keyword) => keyword.0.has_comments(),
        Expression::String(token) => token.has_comments(),
        Expression::Int(token) => token.has_comments(),
        Expression::Float(token) => token.has_comments(),
        Expression::Constructor(constructor) => constructor.has_comments(),
        Expression::Variable(variable) => variable.has_comments(),
        Expression::Parens(parens) => parens.open_paren.0.has_comments()
            || expression_has_comments(&parens.value) || parens.close_paren.0.has_comments(),
        Expression::Array(brackets) => brackets.open_bracket.0.has_comments()
            || optional_expressions_have_comments(&brackets.value)
            || brackets.close_bracket.0.has_comments(),
        Expression::If {
            if_keyword,
            condition,
            then_keyword,
            true_clause,
            else_keyword,
            false_clause,
        } => {
            if_keyword.0.has_comments() || expression_has_comments(condition)
                || then_keyword.0.has_comments() || expression_has_comments(true_clause)
                || else_keyword.0.has_comments() || expression_has_comments(false_clause)
        },
        Expression::Function { parameters, return_type_annotation, right_arrow, body } => {
            parameters.has_comments() || return_type_annotation.has_comments()
                || right_arrow.0.has_comments() || expression_has_comments(body)
        },
        Expression::Call { function, arguments } => expression_has_comments(function)
            || arguments.open_paren.0.has_comments() || optional_expressions_have_comments(
            &arguments.value,
        ) || arguments.close_paren.0.has_comments(),
    }
}

fn expression_has_leading_comments(e: &Expression) -> (any: bool)
    ensures
        any == expression_leading_comments(*e),
    decreases e,
{
    match e {
        Expression::True(keyword) => keyword.0.has_leading_comments(),
        Expression::False(keyword) => keyword.0.has_leading_comments(),
        Expression::Unit(keyword) => keyword.0.has_leading_comments(),
        Expression::String(token) => token.has_leading_comments(),
        Expression::Int(token) => token.has_leading_comments(),
        Expression::Float(token) => token.has_leading_comments(),
        Expression::Constructor(constructor) => constructor.has_leading_comments(),
        Expression::Variable(variable) => variable.has_leading_comments(),
        Expression::Parens(parens) => parens.open_paren.0.has_leading_comments(),
        Expression::Array(brackets) => brackets.open_bracket.0.has_leading_comments(),
        Expression::If { if_keyword, .. } => if_keyword.0.has_leading_comments(),
        Expression::Function { parameters, .. } => parameters.open_paren.0.has_leading_comments(),
        Expression::Call { function, .. } => expression_has_leading_comments(function),
    }
}

impl HasComments for Expression {
    open spec fn comments(&self) -> bool {
        expression_comments(*self)
    }

    open spec fn leading_comments(&self) -> bool {
        expression_leading_comments(*self)
    }

    fn has_comments(&self) -> (any: bool) {
        expression_has_comments(self)
    }

    fn has_leading_comments(&self) -> (any: bool) {
        expression_has_leading_comments(self)
    }
}

} // verus!
