//! Types: what the checker infers for expressions.

use crate::ast::name::{
    name_text, CanonicalText, FullyQualifiedProperName, Name, QualifiedProperName, QualifiedText,
};
use crate::table::{Duplicate, Key};
use vstd::prelude::*;

verus! {

/// The types that the language itself provides.
#[derive(Debug, Clone, Copy, PartialEq, Eq, Hash, Structural)]
pub enum PrimType {
    /// `Array(a)`, once applied
    Array,
    /// `Bool`
    Bool,
    /// `Float`
    Float,
    /// `Int`
    Int,
    /// `String`
    String,
    /// `Unit`
    Unit,
}

/// A type.
#[derive(Debug, PartialEq, Eq)]
pub enum Type {
    /// A type applied to arguments, such as `Maybe(Int)`.
    Call {
        /// The applied type.
        function: Box<Type>,
        /// The arguments.
        arguments: Vec<Type>,
    },
    /// The type of a function, such as `(Int, Bool) -> String`.
    Function {
        /// The types of the parameters, in order.
        parameters: Vec<Type>,
        /// The type of the result.
        return_type: Box<Type>,
    },
    /// A declared type, known by its canonical name.
    Constructor {
        /// The name that identifies the type.
        canonical_value: FullyQualifiedProperName,
        /// The name as the source wrote it.
        source_value: Option<QualifiedProperName>,
    },
    /// A type of the language itself.
    PrimConstructor(PrimType),
    /// A type variable. One with a source name was written by the programmer
    /// and stands only for itself; one without was made by the checker and
    /// stands for whatever it is found to be.
    Variable {
        /// The number that identifies the variable.
        var: usize,
        /// The name the programmer gave it, if any.
        source_name: Option<Name>,
    },
}

/// A type as a mathematical value.
pub enum Ty {
    Call { function: Box<Ty>, arguments: Seq<Ty> },
    Function { parameters: Seq<Ty>, return_type: Box<Ty> },
    Constructor { canonical_value: CanonicalText, source_value: Option<QualifiedText> },
    PrimConstructor(PrimType),
    Variable { var: nat, source_name: Option<Seq<char>> },
}

/// The text of an optional qualified name.
pub open spec fn qualified_text(name: Option<QualifiedProperName>) -> Option<QualifiedText> {
    match name {
        Some(name) => Some(name@),
        None => None,
    }
}

impl Type {
    /// The type as a mathematical value.
    pub open spec fn model(self) -> Ty
        decreases self,
    {
        match self {
            Type::Call { function, arguments } => Ty::Call {
                function: Box::new(function.model()),
                arguments: Seq::new(
                    arguments@.len(),
                    |i: int|
                        if 0 <= i < arguments@.len() {
                            arguments@[i].model()
                        } else {
                            Ty::PrimConstructor(PrimType::Unit)
                        },
                ),
            },
            Type::Function { parameters, return_type } => Ty::Function {
                parameters: Seq::new(
                    parameters@.len(),
                    |i: int|
                        if 0 <= i < parameters@.len() {
                            parameters@[i].model()
                        } else {
                            Ty::PrimConstructor(PrimType::Unit)
                        },
                ),
                return_type: Box::new(return_type.model()),
            },
            Type::Constructor { canonical_value, source_value } => Ty::Constructor {
                canonical_value: canonical_value@,
                source_value: qualified_text(source_value),
            },
            Type::PrimConstructor(prim) => Ty::PrimConstructor(prim),
            Type::Variable { var, source_name } => Ty::Variable {
                var: var as nat,
                source_name: name_text(source_name),
            },
        }
    }
}

impl View for Type {
    type V = Ty;

    open spec fn view(&self) -> Ty {
        self.model()
    }
}

/// What a run of types says.
pub open spec fn models(types: Seq<Type>) -> Seq<Ty> {
    Seq::new(types.len(), |i: int| types[i]@)
}

/// The views of the arguments of a call and of the parameters of a function
/// are the views of their elements.
pub proof fn lemma_model_of_parts(t: Type)
    ensures
        t matches Type::Call { arguments, .. } ==> t@->arguments == models(arguments@),
        t matches Type::Function { parameters, .. } ==> t@->parameters == models(parameters@),
{
    match t {
        Type::Call { function, arguments } => {
            assert(t@->arguments =~= models(arguments@));
        },
        Type::Function { parameters, return_type } => {
            assert(t@->parameters =~= models(parameters@));
        },
        _ => {},
    }
}

/// A copy of a run of types.
pub fn duplicate_types(types: &Vec<Type>) -> (copy: Vec<Type>)
    ensures
        models(copy@) == models(types@),
    decreases types,
{
    let mut copy: Vec<Type> = Vec::new();
    let mut i: usize = 0;
    while i < types.len()
        invariant
            i <= types.len(),
            copy.len() == i,
            forall|j: int| 0 <= j < i ==> copy@[j]@ == types@[j]@,
        decreases types.len() - i,
    {
        copy.push(duplicate_type(&types[i]));
        i += 1;
    }
    assert(models(copy@) =~= models(types@));
    copy
}

/// A copy of a type.
pub fn duplicate_type(t: &Type) -> (copy: Type)
    ensures
        copy@ == t@,
    decreases t,
{
    match t {
        Type::Call { function, arguments } => {
            let copy = Type::Call {
                function: Box::new(duplicate_type(function)),
                arguments: duplicate_types(arguments),
            };
            proof {
                lemma_model_of_parts(copy);
                lemma_model_of_parts(*t);
            }
            copy
        },
        Type::Function { parameters, return_type } => {
            let copy = Type::Function {
                parameters: duplicate_types(parameters),
                return_type: Box::new(duplicate_type(return_type)),
            };
            proof {
                lemma_model_of_parts(copy);
                lemma_model_of_parts(*t);
            }
            copy
        },
        Type::Constructor { canonical_value, source_value } => Type::Constructor {
            canonical_value: canonical_value.duplicate(),
            source_value: match source_value {
                Some(name) => Some(name.duplicate()),
                None => None,
            },
        },
        Type::PrimConstructor(prim) => Type::PrimConstructor(*prim),
        Type::Variable { var, source_name } => Type::Variable {
            var: *var,
            source_name: crate::ast::name::duplicate_name(source_name),
        },
    }
}

impl Duplicate for Type {
    fn duplicate(&self) -> (copy: Type) {
        duplicate_type(self)
    }
}

/// The type variables that occur in a type.
pub open spec fn vars(t: Ty) -> Set<nat>
    decreases t,
{
    match t {
        Ty::Call { function, arguments } => vars(*function).union(vars_of_all(arguments)),
        Ty::Function { parameters, return_type } => vars_of_all(parameters).union(
            vars(*return_type),
        ),
        Ty::Constructor { .. } => Set::empty(),
        Ty::PrimConstructor(_) => Set::empty(),
        Ty::Variable { var, .. } => set![var],
    }
}

/// The type variables that occur in some type of a run.
pub open spec fn vars_of_all(types: Seq<Ty>) -> Set<nat>
    decreases types,
{
    if types.len() == 0 {
        Set::empty()
    } else {
        vars_of_all(types.drop_last()).union(vars(types.last()))
    }
}

/// The number of nodes of a type.
pub open spec fn size(t: Ty) -> nat
    decreases t,
{
    match t {
        Ty::Call { function, arguments } => 1 + size(*function) + size_of_all(arguments),
        Ty::Function { parameters, return_type } => 1 + size_of_all(parameters) + size(
            *return_type,
        ),
        _ => 1,
    }
}

/// The number of nodes of the types of a run.
pub open spec fn size_of_all(types: Seq<Ty>) -> nat
    decreases types,
{
    if types.len() == 0 {
        0
    } else {
        size_of_all(types.drop_last()) + size(types.last())
    }
}

/// A type has finitely many variables.
pub proof fn lemma_vars_finite(t: Ty)
    ensures
        vars(t).finite(),
    decreases t,
{
    match t {
        Ty::Call { function, arguments } => {
            lemma_vars_finite(*function);
            lemma_vars_of_all_finite(arguments);
        },
        Ty::Function { parameters, return_type } => {
            lemma_vars_of_all_finite(parameters);
            lemma_vars_finite(*return_type);
        },
        _ => {},
    }
}

/// A run of types has finitely many variables.
pub proof fn lemma_vars_of_all_finite(types: Seq<Ty>)
    ensures
        vars_of_all(types).finite(),
    decreases types,
{
    if types.len() > 0 {
        lemma_vars_of_all_finite(types.drop_last());
        lemma_vars_finite(types.last());
    }
}

/// The variables of a run of types are those of its elements.
pub proof fn lemma_vars_of_all(types: Seq<Ty>, v: nat)
    ensures
        vars_of_all(types).contains(v) <==> exists|i: int|
            0 <= i < types.len() && vars(#[trigger] types[i]).contains(v),
    decreases types,
{
    if types.len() > 0 {
        let front = types.drop_last();
        lemma_vars_of_all(front, v);
        if vars_of_all(types).contains(v) {
            if vars(types.last()).contains(v) {
                assert(vars(types[types.len() - 1]).contains(v));
            } else {
                let i = choose|i: int| 0 <= i < front.len() && vars(#[trigger] front[i]).contains(v);
                assert(front[i] == types[i]);
            }
        }
        if exists|i: int| 0 <= i < types.len() && vars(#[trigger] types[i]).contains(v) {
            let i = choose|i: int| 0 <= i < types.len() && vars(#[trigger] types[i]).contains(v);
            if i < front.len() {
                assert(front[i] == types[i]);
            }
        }
    }
}

/// Every type has a node.
pub proof fn lemma_size_positive(t: Ty)
    ensures
        size(t) >= 1,
{
}

/// Does the variable `var` occur in `t`?
pub fn mentions(t: &Type, var: usize) -> (found: bool)
    ensures
        found == vars(t@).contains(var as nat),
    decreases t,
{
    match t {
        Type::Call { function, arguments } => {
            proof {
                lemma_model_of_parts(*t);
            }
            mentions(function, var) || any_mentions(arguments, var)
        },
        Type::Function { parameters, return_type } => {
            proof {
                lemma_model_of_parts(*t);
            }
            any_mentions(parameters, var) || mentions(return_type, var)
        },
        Type::Constructor { .. } => false,
        Type::PrimConstructor(_) => false,
        Type::Variable { var: found, .. } => *found == var,
    }
}

/// Does the variable `var` occur in one of `types`?
pub fn any_mentions(types: &Vec<Type>, var: usize) -> (found: bool)
    ensures
        found == vars_of_all(models(types@)).contains(var as nat),
    decreases types,
{
    let mut i: usize = 0;
    while i < types.len()
        invariant
            i <= types.len(),
            forall|j: int| 0 <= j < i ==> !vars(types@[j]@).contains(var as nat),
        decreases types.len() - i,
    {
        if mentions(&types[i], var) {
            proof {
                lemma_vars_of_all(models(types@), var as nat);
                assert(vars(models(types@)[i as int]).contains(var as nat));
            }
            return true;
        }
        i += 1;
    }
    proof {
        lemma_vars_of_all(models(types@), var as nat);
    }
    false
}

} // verus!
