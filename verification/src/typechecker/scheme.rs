//! Type schemes: types with variables that stand for any type.

use crate::ast::types::{
    duplicate_type, lemma_model_of_parts, models, Ty, Type,
};
use crate::supply::Supply;
use crate::table::Duplicate;
use std::collections::HashMap;
use vstd::prelude::*;

verus! {

broadcast use vstd::std_specs::hash::group_hash_axioms;

/// A type together with the variables in it that stand for any type. Every
/// use of a scheme gets the type with fresh variables in their place.
#[derive(Debug, PartialEq, Eq)]
pub struct Scheme {
    /// The variables that stand for any type.
    pub forall: Vec<usize>,
    /// The type.
    pub signature: Type,
}

/// A scheme as a mathematical value.
pub struct Polytype {
    pub forall: Seq<nat>,
    pub signature: Ty,
}

/// The variables of a scheme, as natural numbers.
pub open spec fn quantified(forall: Seq<usize>) -> Seq<nat> {
    Seq::new(forall.len(), |i: int| forall[i] as nat)
}

impl View for Scheme {
    type V = Polytype;

    open spec fn view(&self) -> Polytype {
        Polytype { forall: quantified(self.forall@), signature: self.signature@ }
    }
}

impl Duplicate for Scheme {
    fn duplicate(&self) -> (copy: Scheme) {
        let mut forall: Vec<usize> = Vec::new();
        let mut i: usize = 0;
        while i < self.forall.len()
            invariant
                i <= self.forall.len(),
                forall.len() == i,
                forall|j: int| 0 <= j < i ==> forall@[j] == self.forall@[j],
            decreases self.forall.len() - i,
        {
            forall.push(self.forall[i]);
            i += 1;
        }
        assert(quantified(forall@) =~= quantified(self.forall@));
        Scheme { forall, signature: duplicate_type(&self.signature) }
    }
}

/// The first `n` variables of `forall`, each renamed to the fresh variable
/// with its place's number counted from `base`. Of a variable that occurs
/// twice, the later place counts.
pub open spec fn renaming(forall: Seq<nat>, base: nat, n: nat) -> Map<nat, nat>
    decreases n,
{
    if n == 0 {
        Map::empty()
    } else {
        renaming(forall, base, (n - 1) as nat).insert(forall[n - 1], (base + n - 1) as nat)
    }
}

/// The type with every variable that `names` renames replaced by the
/// anonymous variable of its new number.
pub open spec fn rename(names: Map<nat, nat>, t: Ty) -> Ty
    decreases t,
{
    match t {
        Ty::Call { function, arguments } => Ty::Call {
            function: Box::new(rename(names, *function)),
            arguments: rename_all(names, arguments),
        },
        Ty::Function { parameters, return_type } => Ty::Function {
            parameters: rename_all(names, parameters),
            return_type: Box::new(rename(names, *return_type)),
        },
        Ty::Variable { var, .. } => if names.contains_key(var) {
            Ty::Variable { var: names[var], source_name: None }
        } else {
            t
        },
        _ => t,
    }
}

/// The types, each renamed.
pub open spec fn rename_all(names: Map<nat, nat>, types: Seq<Ty>) -> Seq<Ty>
    decreases types,
{
    if types.len() == 0 {
        Seq::empty()
    } else {
        rename_all(names, types.drop_last()).push(rename(names, types.last()))
    }
}

/// Renaming a run of types renames each.
pub proof fn lemma_rename_all(names: Map<nat, nat>, types: Seq<Ty>)
    ensures
        rename_all(names, types).len() == types.len(),
        forall|i: int|
            0 <= i < types.len() ==> #[trigger] rename_all(names, types)[i] == rename(
                names,
                types[i],
            ),
    decreases types.len(),
{
    if types.len() > 0 {
        lemma_rename_all(names, types.drop_last());
        assert forall|i: int| 0 <= i < types.len() implies #[trigger] rename_all(names, types)[i]
            == rename(names, types[i]) by {
            if i < types.len() - 1 {
                assert(types.drop_last()[i] == types[i]);
            }
        }
    }
}

impl Polytype {
    /// The type of one use of the scheme: the signature with the scheme's
    /// variables renamed to fresh ones, numbered from `supply` on.
    pub open spec fn instance(self, supply: nat) -> Ty {
        rename(renaming(self.forall, supply, self.forall.len()), self.signature)
    }

    /// The scheme of a type without variables that stand for any type.
    pub open spec fn plain(signature: Ty) -> Polytype {
        Polytype { forall: Seq::empty(), signature }
    }
}

/// What a renaming in the making says.
pub open spec fn names_of_map(names: Map<usize, usize>) -> Map<nat, nat> {
    Map::new(
        |v: nat| v <= usize::MAX && names.contains_key(v as usize),
        |v: nat| names[v as usize] as nat,
    )
}

fn rename_type(names: &HashMap<usize, usize>, t: &Type) -> (renamed: Type)
    ensures
        renamed@ == rename(names_of_map(names@), t@),
    decreases t,
{
    match t {
        Type::Call { function, arguments } => {
            proof {
                lemma_model_of_parts(*t);
            }
            let renamed = Type::Call {
                function: Box::new(rename_type(names, function)),
                arguments: rename_types(names, arguments),
            };
            proof {
                lemma_model_of_parts(renamed);
            }
            renamed
        },
        Type::Function { parameters, return_type } => {
            proof {
                lemma_model_of_parts(*t);
            }
            let renamed = Type::Function {
                parameters: rename_types(names, parameters),
                return_type: Box::new(rename_type(names, return_type)),
            };
            proof {
                lemma_model_of_parts(renamed);
            }
            renamed
        },
        Type::Variable { var, .. } => {
            match names.get(var) {
                Some(fresh) => Type::Variable { var: *fresh, source_name: None },
                None => duplicate_type(t),
            }
        },
        _ => duplicate_type(t),
    }
}

fn rename_types(names: &HashMap<usize, usize>, types: &Vec<Type>) -> (renamed: Vec<Type>)
    ensures
        models(renamed@) == rename_all(names_of_map(names@), models(types@)),
    decreases types,
{
    let mut renamed: Vec<Type> = Vec::new();
    let mut i: usize = 0;
    while i < types.len()
        invariant
            i <= types.len(),
            renamed.len() == i,
            forall|j: int| 0 <= j < i ==> renamed@[j]@ == rename(names_of_map(names@), types@[j]@),
        decreases types.len() - i,
    {
        renamed.push(rename_type(names, &types[i]));
        i += 1;
    }
    proof {
        lemma_rename_all(names_of_map(names@), models(types@));
        assert(models(renamed@) =~= rename_all(names_of_map(names@), models(types@)));
    }
    renamed
}

impl Scheme {
    /// A scheme without variables that stand for any type.
    pub fn plain(signature: Type) -> (scheme: Scheme)
        ensures
            scheme@ == Polytype::plain(signature@),
    {
        let scheme = Scheme { forall: Vec::new(), signature };
        assert(scheme@.forall =~= Seq::<nat>::empty());
        scheme
    }

    /// The type of one use of the scheme: its signature, with a fresh
    /// variable from `supply` in place of each variable that stands for any type.
    pub fn instantiate(&self, supply: &mut Supply) -> (instance: Type)
        requires
            old(supply)@ + self@.forall.len() <= usize::MAX,
        ensures
            instance@ == self@.instance(old(supply)@),
            final(supply)@ == old(supply)@ + self@.forall.len(),
    {
        let mut names: HashMap<usize, usize> = HashMap::new();
        let ghost base = supply@;
        let ghost forall = self@.forall;
        let mut i: usize = 0;
        assert(names_of_map(names@) =~= renaming(forall, base, 0));
        while i < self.forall.len()
            invariant
                i <= self.forall.len(),
                forall == self@.forall,
                forall.len() == self.forall.len(),
                base + forall.len() <= usize::MAX,
                supply@ == base + i,
                names_of_map(names@) == renaming(forall, base, i as nat),
            decreases self.forall.len() - i,
        {
            let fresh = supply.fresh();
            names.insert(self.forall[i], fresh);
            assert(names_of_map(names@) =~= renaming(forall, base, (i + 1) as nat));
            i += 1;
        }
        rename_type(&names, &self.signature)
    }
}

} // verus!
