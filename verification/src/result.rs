//! What can go wrong, and what is worth a warning.

use crate::ast::name::{QualifiedName, QualifiedProperName, QualifiedText};
use crate::ast::types::{duplicate_type, Ty, Type};
use crate::table::Duplicate;
use crate::token::Span;
use vstd::prelude::*;

verus! {

/// Why an expression has no type.
#[derive(Debug, PartialEq, Eq)]
pub enum TypeError {
    /// A value that is not in scope.
    UnknownVariable {
        span: Span,
        /// The name that was looked for.
        variable: QualifiedName,
        /// The names of the values that are in scope.
        names_in_scope: Vec<QualifiedName>,
    },
    /// A constructor that is not in scope.
    UnknownConstructor {
        span: Span,
        /// The name that was looked for.
        constructor: QualifiedProperName,
        /// The names of the constructors that are in scope.
        ctors_in_scope: Vec<QualifiedProperName>,
    },
    /// A call of something that is no function.
    NotAFunction { span: Span, actual_type: Type },
    /// Two types that had to agree and do not.
    TypesNotEqual { span: Span, expected: Type, actual: Type },
    /// A type variable that would have to stand for a type that holds it.
    InfiniteType { span: Span, var: usize, infinite_type: Type },
    /// A call with too few or too many arguments.
    ArgumentLengthMismatch { function_span: Span, wanted: usize, got: usize },
    /// Two parameters of one function with the same name.
    DuplicateFunctionBinder { previous_binder: Span, duplicate_binder: Span },
}

/// What is worth telling the programmer though the expression has a type.
#[derive(Debug, Clone, Copy, PartialEq, Eq, Structural)]
pub enum Warning {
    /// A parameter that the function's body does not use.
    UnusedFunctionBinder { span: Span },
}

/// Warnings, in the order in which they arose.
pub type Warnings = Vec<Warning>;

/// A type error as a mathematical value.
pub enum Failure {
    UnknownVariable { span: Span, variable: QualifiedText, names_in_scope: Set<QualifiedText> },
    UnknownConstructor { span: Span, constructor: QualifiedText, ctors_in_scope: Set<QualifiedText> },
    NotAFunction { span: Span, actual_type: Ty },
    TypesNotEqual { span: Span, expected: Ty, actual: Ty },
    InfiniteType { span: Span, var: nat, infinite_type: Ty },
    ArgumentLengthMismatch { function_span: Span, wanted: nat, got: nat },
    DuplicateFunctionBinder { previous_binder: Span, duplicate_binder: Span },
}

/// The names that a list holds.
pub open spec fn names_of<K: View>(names: Seq<K>) -> Set<K::V> {
    Set::new(|name: K::V| exists|i: int| 0 <= i < names.len() && (#[trigger] names[i])@ == name)
}

impl View for TypeError {
    type V = Failure;

    open spec fn view(&self) -> Failure {
        match self {
            TypeError::UnknownVariable { span, variable, names_in_scope } => Failure::UnknownVariable {
                span: *span,
                variable: variable@,
                names_in_scope: names_of(names_in_scope@),
            },
            TypeError::UnknownConstructor {
                span,
                constructor,
                ctors_in_scope,
            } => Failure::UnknownConstructor {
                span: *span,
                constructor: constructor@,
                ctors_in_scope: names_of(ctors_in_scope@),
            },
            TypeError::NotAFunction { span, actual_type } => Failure::NotAFunction {
                span: *span,
                actual_type: actual_type@,
            },
            TypeError::TypesNotEqual { span, expected, actual } => Failure::TypesNotEqual {
                span: *span,
                expected: expected@,
                actual: actual@,
            },
            TypeError::InfiniteType { span, var, infinite_type } => Failure::InfiniteType {
                span: *span,
                var: *var as nat,
                infinite_type: infinite_type@,
            },
            TypeError::ArgumentLengthMismatch {
                function_span,
                wanted,
                got,
            } => Failure::ArgumentLengthMismatch {
                function_span: *function_span,
                wanted: *wanted as nat,
                got: *got as nat,
            },
            TypeError::DuplicateFunctionBinder {
                previous_binder,
                duplicate_binder,
            } => Failure::DuplicateFunctionBinder {
                previous_binder: *previous_binder,
                duplicate_binder: *duplicate_binder,
            },
        }
    }
}

/// What an optional error says.
pub open spec fn optional_failure(error: Option<TypeError>) -> Option<Failure> {
    match error {
        Some(error) => Some(error@),
        None => None,
    }
}

/// A copy of a list of names.
pub fn duplicate_names<K: Duplicate>(names: &Vec<K>) -> (copy: Vec<K>)
    ensures
        names_of(copy@) == names_of(names@),
        copy@.len() == names@.len(),
        forall|i: int| 0 <= i < names@.len() ==> (#[trigger] copy@[i])@ == names@[i]@,
{
    let mut copy: Vec<K> = Vec::new();
    let mut i: usize = 0;
    while i < names.len()
        invariant
            i <= names.len(),
            copy.len() == i,
            forall|j: int| 0 <= j < i ==> (#[trigger] copy@[j])@ == names@[j]@,
        decreases names.len() - i,
    {
        copy.push(names[i].duplicate());
        i += 1;
    }
    proof {
        assert forall|name: K::V| names_of(copy@).contains(name) == names_of(names@).contains(
            name,
        ) by {
            if names_of(copy@).contains(name) {
                let j = choose|j: int| 0 <= j < copy@.len() && (#[trigger] copy@[j])@ == name;
                assert(names@[j]@ == name);
            }
            if names_of(names@).contains(name) {
                let j = choose|j: int| 0 <= j < names@.len() && (#[trigger] names@[j])@ == name;
                assert(copy@[j]@ == name);
            }
        }
        assert(names_of(copy@) =~= names_of(names@));
    }
    copy
}

impl Duplicate for TypeError {
    fn duplicate(&self) -> (copy: TypeError) {
        match self {
            TypeError::UnknownVariable {
                span,
                variable,
                names_in_scope,
            } => TypeError::UnknownVariable {
                span: *span,
                variable: variable.duplicate(),
                names_in_scope: duplicate_names(names_in_scope),
            },
            TypeError::UnknownConstructor {
                span,
                constructor,
                ctors_in_scope,
            } => TypeError::UnknownConstructor {
                span: *span,
                constructor: constructor.duplicate(),
                ctors_in_scope: duplicate_names(ctors_in_scope),
            },
            TypeError::NotAFunction { span, actual_type } => TypeError::NotAFunction {
                span: *span,
                actual_type: duplicate_type(actual_type),
            },
            TypeError::TypesNotEqual { span, expected, actual } => TypeError::TypesNotEqual {
                span: *span,
                expected: duplicate_type(expected),
                actual: duplicate_type(actual),
            },
            TypeError::InfiniteType { span, var, infinite_type } => TypeError::InfiniteType {
                span: *span,
                var: *var,
                infinite_type: duplicate_type(infinite_type),
            },
            TypeError::ArgumentLengthMismatch {
                function_span,
                wanted,
                got,
            } => TypeError::ArgumentLengthMismatch {
                function_span: *function_span,
                wanted: *wanted,
                got: *got,
            },
            TypeError::DuplicateFunctionBinder {
                previous_binder,
                duplicate_binder,
            } => TypeError::DuplicateFunctionBinder {
                previous_binder: *previous_binder,
                duplicate_binder: *duplicate_binder,
            },
        }
    }
}

} // verus!
