//! Bindings of type variables, as mathematics: what it is to apply them, and
//! when applying them comes to an end.

use crate::ast::types::{size, size_of_all, vars, vars_of_all, Ty};
use vstd::prelude::*;

verus! {

/// What type variables are bound to.
pub type Bindings = Map<nat, Ty>;

/// `rank` orders the bound variables so that each ranks above every bound
/// variable that occurs in what it is bound to.
pub open spec fn ranked(s: Bindings, rank: spec_fn(nat) -> nat) -> bool {
    forall|v: nat, w: nat|
        s.contains_key(v) && s.contains_key(w) && #[trigger] vars(s[v]).contains(w) ==> rank(w)
            < rank(v)
}

/// No variable is bound, directly or through other variables, to a type in
/// which it occurs itself.
pub open spec fn acyclic(s: Bindings) -> bool {
    exists|rank: spec_fn(nat) -> nat| ranked(s, rank)
}

/// A ranking of the bound variables, where there is one.
pub open spec fn rank_of(s: Bindings) -> spec_fn(nat) -> nat {
    choose|rank: spec_fn(nat) -> nat| ranked(s, rank)
}

pub open spec fn larger(a: nat, b: nat) -> nat {
    if a >= b {
        a
    } else {
        b
    }
}

/// One more than the highest rank of a bound variable of `t`; zero where `t` has none.
pub open spec fn height(s: Bindings, rank: spec_fn(nat) -> nat, t: Ty) -> nat
    decreases t,
{
    match t {
        Ty::Call { function, arguments } => larger(
            height(s, rank, *function),
            height_of_all(s, rank, arguments),
        ),
        Ty::Function { parameters, return_type } => larger(
            height_of_all(s, rank, parameters),
            height(s, rank, *return_type),
        ),
        Ty::Variable { var, .. } => if s.contains_key(var) {
            rank(var) + 1
        } else {
            0
        },
        _ => 0,
    }
}

/// The greatest height among `types`.
pub open spec fn height_of_all(s: Bindings, rank: spec_fn(nat) -> nat, types: Seq<Ty>) -> nat
    decreases types,
{
    if types.len() == 0 {
        0
    } else {
        larger(height_of_all(s, rank, types.drop_last()), height(s, rank, types.last()))
    }
}

/// A type whose bound variables all rank below `bound` is no higher than `bound`.
pub proof fn lemma_height_bound(s: Bindings, rank: spec_fn(nat) -> nat, t: Ty, bound: nat)
    requires
        forall|w: nat| s.contains_key(w) && vars(t).contains(w) ==> rank(w) < bound,
    ensures
        height(s, rank, t) <= bound,
    decreases t,
{
    match t {
        Ty::Call { function, arguments } => {
            lemma_height_bound(s, rank, *function, bound);
            lemma_height_of_all_bound(s, rank, arguments, bound);
        },
        Ty::Function { parameters, return_type } => {
            lemma_height_of_all_bound(s, rank, parameters, bound);
            lemma_height_bound(s, rank, *return_type, bound);
        },
        Ty::Variable { var, .. } => {
            assert(vars(t).contains(var));
        },
        _ => {},
    }
}

pub proof fn lemma_height_of_all_bound(
    s: Bindings,
    rank: spec_fn(nat) -> nat,
    types: Seq<Ty>,
    bound: nat,
)
    requires
        forall|w: nat| s.contains_key(w) && vars_of_all(types).contains(w) ==> rank(w) < bound,
    ensures
        height_of_all(s, rank, types) <= bound,
    decreases types,
{
    if types.len() > 0 {
        lemma_height_of_all_bound(s, rank, types.drop_last(), bound);
        lemma_height_bound(s, rank, types.last(), bound);
    }
}

/// What a variable is bound to is lower than the variable.
pub proof fn lemma_binding_is_lower(s: Bindings, var: nat)
    requires
        acyclic(s),
        s.contains_key(var),
    ensures
        height(s, rank_of(s), s[var]) <= rank_of(s)(var),
{
    let rank = rank_of(s);
    assert(ranked(s, rank));
    lemma_height_bound(s, rank, s[var], rank(var));
}

/// The type with every bound variable replaced by what it is bound to, again
/// and again until no bound variable is left.
pub open spec fn apply(s: Bindings, t: Ty) -> Ty
    decreases height(s, rank_of(s), t), t,
    when acyclic(s)
{
    match t {
        Ty::Call { function, arguments } => Ty::Call {
            function: Box::new(apply(s, *function)),
            arguments: apply_all(s, arguments),
        },
        Ty::Function { parameters, return_type } => Ty::Function {
            parameters: apply_all(s, parameters),
            return_type: Box::new(apply(s, *return_type)),
        },
        Ty::Variable { var, .. } => if s.contains_key(var) {
            proof {
                lemma_binding_is_lower(s, var);
            }
            apply(s, s[var])
        } else {
            t
        },
        _ => t,
    }
}

/// The types, the bindings applied to each.
pub open spec fn apply_all(s: Bindings, types: Seq<Ty>) -> Seq<Ty>
    decreases height_of_all(s, rank_of(s), types), types,
    when acyclic(s)
{
    if types.len() == 0 {
        Seq::empty()
    } else {
        apply_all(s, types.drop_last()).push(apply(s, types.last()))
    }
}

/// No variable of `t` is bound.
pub open spec fn clean(s: Bindings, t: Ty) -> bool {
    forall|v: nat| vars(t).contains(v) ==> !s.contains_key(v)
}

/// Applying bindings to a run of types applies them to each.
pub proof fn lemma_apply_all(s: Bindings, types: Seq<Ty>)
    requires
        acyclic(s),
    ensures
        apply_all(s, types).len() == types.len(),
        forall|i: int| 0 <= i < types.len() ==> #[trigger] apply_all(s, types)[i] == apply(s, types[i]),
    decreases types.len(),
{
    if types.len() > 0 {
        lemma_apply_all(s, types.drop_last());
        assert forall|i: int| 0 <= i < types.len() implies #[trigger] apply_all(s, types)[i]
            == apply(s, types[i]) by {
            if i < types.len() - 1 {
                assert(types.drop_last()[i] == types[i]);
            }
        }
    }
}

/// What comes out of applying bindings holds no bound variable.
pub proof fn lemma_apply_clean(s: Bindings, t: Ty)
    requires
        acyclic(s),
    ensures
        clean(s, apply(s, t)),
    decreases height(s, rank_of(s), t), t,
{
    match t {
        Ty::Call { function, arguments } => {
            lemma_apply_clean(s, *function);
            lemma_apply_all_clean(s, arguments);
        },
        Ty::Function { parameters, return_type } => {
            lemma_apply_all_clean(s, parameters);
            lemma_apply_clean(s, *return_type);
        },
        Ty::Variable { var, .. } => {
            if s.contains_key(var) {
                lemma_binding_is_lower(s, var);
                lemma_apply_clean(s, s[var]);
            }
        },
        _ => {},
    }
}

pub proof fn lemma_apply_all_clean(s: Bindings, types: Seq<Ty>)
    requires
        acyclic(s),
    ensures
        forall|v: nat| vars_of_all(apply_all(s, types)).contains(v) ==> !s.contains_key(v),
    decreases height_of_all(s, rank_of(s), types), types,
{
    if types.len() > 0 {
        lemma_apply_all_clean(s, types.drop_last());
        lemma_apply_clean(s, types.last());
        let applied = apply_all(s, types);
        assert(applied.drop_last() =~= apply_all(s, types.drop_last()));
        assert(applied.last() == apply(s, types.last()));
    }
}

/// Bindings leave a type without bound variables as it is.
pub proof fn lemma_apply_identity(s: Bindings, t: Ty)
    requires
        acyclic(s),
        clean(s, t),
    ensures
        apply(s, t) == t,
    decreases t,
{
    match t {
        Ty::Call { function, arguments } => {
            lemma_apply_identity(s, *function);
            lemma_apply_all_identity(s, arguments);
        },
        Ty::Function { parameters, return_type } => {
            lemma_apply_all_identity(s, parameters);
            lemma_apply_identity(s, *return_type);
        },
        Ty::Variable { var, .. } => {
            assert(vars(t).contains(var));
        },
        _ => {},
    }
}

pub proof fn lemma_apply_all_identity(s: Bindings, types: Seq<Ty>)
    requires
        acyclic(s),
        forall|v: nat| vars_of_all(types).contains(v) ==> !s.contains_key(v),
    ensures
        apply_all(s, types) == types,
    decreases types,
{
    if types.len() > 0 {
        lemma_apply_all_identity(s, types.drop_last());
        lemma_apply_identity(s, types.last());
        assert(apply_all(s, types) =~= types);
    } else {
        assert(apply_all(s, types) =~= types);
    }
}

/// Applying bindings a second time changes nothing.
pub proof fn lemma_apply_idempotent(s: Bindings, t: Ty)
    requires
        acyclic(s),
    ensures
        apply(s, apply(s, t)) == apply(s, t),
{
    lemma_apply_clean(s, t);
    lemma_apply_identity(s, apply(s, t));
}

/// Bindings stay free of cycles when a variable that they do not bind is
/// bound to a type that holds neither that variable nor a bound one.
pub proof fn lemma_bind_keeps_acyclic(s: Bindings, var: nat, t: Ty)
    requires
        acyclic(s),
        !s.contains_key(var),
        clean(s, t),
        !vars(t).contains(var),
    ensures
        acyclic(s.insert(var, t)),
{
    let rank = rank_of(s);
    assert(ranked(s, rank));
    let bound = s.insert(var, t);
    let lifted = |v: nat|
        if v == var {
            0nat
        } else {
            rank(v) + 1
        };
    assert forall|v: nat, w: nat|
        bound.contains_key(v) && bound.contains_key(w) && #[trigger] vars(bound[v]).contains(
            w,
        ) implies lifted(w) < lifted(v) by {
        if v == var {
            // `t` holds neither `var` nor a variable that `s` binds.
            assert(bound[v] == t);
            assert(w != var);
            assert(s.contains_key(w));
            assert(false);
        } else {
            assert(bound[v] == s[v]);
            if w != var {
                assert(vars(s[v]).contains(w));
            }
        }
    }
    assert(ranked(bound, lifted));
}

/// The empty bindings are free of cycles.
pub proof fn lemma_empty_acyclic()
    ensures
        acyclic(Map::<nat, Ty>::empty()),
{
    let rank = |v: nat| 0nat;
    assert(ranked(Map::<nat, Ty>::empty(), rank));
}

/// Once a clean type `t` without `var` is bound to the unbound `var`, what
/// comes out of applying the bindings has, at most, the variables that came
/// out before, without `var`, and those of `t`.
pub proof fn lemma_vars_after_bind(s: Bindings, var: nat, t: Ty, u: Ty)
    requires
        acyclic(s),
        !s.contains_key(var),
        clean(s, t),
        !vars(t).contains(var),
    ensures
        acyclic(s.insert(var, t)),
        forall|v: nat| #[trigger]
            vars(apply(s.insert(var, t), u)).contains(v) ==> (v != var && vars(
                apply(s, u),
            ).contains(v)) || vars(t).contains(v),
    decreases height(s.insert(var, t), rank_of(s.insert(var, t)), u), u,
{
    lemma_bind_keeps_acyclic(s, var, t);
    let bound = s.insert(var, t);
    match u {
        Ty::Call { function, arguments } => {
            lemma_vars_after_bind(s, var, t, *function);
            lemma_vars_of_all_after_bind(s, var, t, arguments);
            assert(apply(bound, u) == Ty::Call {
                function: Box::new(apply(bound, *function)),
                arguments: apply_all(bound, arguments),
            });
            assert(apply(s, u) == Ty::Call {
                function: Box::new(apply(s, *function)),
                arguments: apply_all(s, arguments),
            });
            assert forall|v: nat| #[trigger] vars(apply(bound, u)).contains(v) implies (v != var
                && vars(apply(s, u)).contains(v)) || vars(t).contains(v) by {
                if vars(apply(bound, *function)).contains(v) {
                } else {
                    assert(vars_of_all(apply_all(bound, arguments)).contains(v));
                }
            }
        },
        Ty::Function { parameters, return_type } => {
            lemma_vars_of_all_after_bind(s, var, t, parameters);
            lemma_vars_after_bind(s, var, t, *return_type);
            assert(apply(bound, u) == Ty::Function {
                parameters: apply_all(bound, parameters),
                return_type: Box::new(apply(bound, *return_type)),
            });
            assert(apply(s, u) == Ty::Function {
                parameters: apply_all(s, parameters),
                return_type: Box::new(apply(s, *return_type)),
            });
            assert forall|v: nat| #[trigger] vars(apply(bound, u)).contains(v) implies (v != var
                && vars(apply(s, u)).contains(v)) || vars(t).contains(v) by {
                if vars(apply(bound, *return_type)).contains(v) {
                } else {
                    assert(vars_of_all(apply_all(bound, parameters)).contains(v));
                }
            }
        },
        Ty::Variable { var: w, .. } => {
            if w == var {
                // `apply(bound, u)` is `apply(bound, t)`, and `t` is clean in `bound`.
                lemma_binding_is_lower(bound, var);
                assert forall|v: nat| vars(t).contains(v) implies !bound.contains_key(v) by {}
                lemma_apply_identity(bound, t);
                assert(apply(bound, u) == t);
            } else if s.contains_key(w) {
                lemma_binding_is_lower(bound, w);
                assert(bound[w] == s[w]);
                lemma_vars_after_bind(s, var, t, s[w]);
                assert(apply(bound, u) == apply(bound, s[w]));
                assert(apply(s, u) == apply(s, s[w]));
            } else {
                assert(vars(u).contains(w));
                assert(apply(bound, u) == u);
                assert(apply(s, u) == u);
            }
        },
        _ => {
            assert(apply(bound, u) == u);
            assert(apply(s, u) == u);
        },
    }
}

pub proof fn lemma_vars_of_all_after_bind(s: Bindings, var: nat, t: Ty, types: Seq<Ty>)
    requires
        acyclic(s),
        !s.contains_key(var),
        clean(s, t),
        !vars(t).contains(var),
    ensures
        acyclic(s.insert(var, t)),
        forall|v: nat| #[trigger]
            vars_of_all(apply_all(s.insert(var, t), types)).contains(v) ==> (v != var
                && vars_of_all(apply_all(s, types)).contains(v)) || vars(t).contains(v),
    decreases height_of_all(s.insert(var, t), rank_of(s.insert(var, t)), types), types,
{
    lemma_bind_keeps_acyclic(s, var, t);
    let bound = s.insert(var, t);
    if types.len() > 0 {
        lemma_vars_of_all_after_bind(s, var, t, types.drop_last());
        lemma_vars_after_bind(s, var, t, types.last());
        let after = apply_all(bound, types);
        let before = apply_all(s, types);
        assert(after == apply_all(bound, types.drop_last()).push(apply(bound, types.last())));
        assert(before == apply_all(s, types.drop_last()).push(apply(s, types.last())));
        assert(after.drop_last() =~= apply_all(bound, types.drop_last()));
        assert(after.last() == apply(bound, types.last()));
        assert(before.drop_last() =~= apply_all(s, types.drop_last()));
        assert(before.last() == apply(s, types.last()));
        assert forall|v: nat| #[trigger] vars_of_all(after).contains(v) implies (v != var
            && vars_of_all(before).contains(v)) || vars(t).contains(v) by {
            if vars(after.last()).contains(v) {
            } else {
                assert(vars_of_all(after.drop_last()).contains(v));
            }
        }
    } else {
        assert(apply_all(bound, types) =~= Seq::<Ty>::empty());
    }
}

/// A type of a run is no larger than the run, and holds no variable that the
/// run does not hold.
pub proof fn lemma_element_of_all(types: Seq<Ty>, i: int)
    requires
        0 <= i < types.len(),
    ensures
        size(types[i]) <= size_of_all(types),
        vars(types[i]).subset_of(vars_of_all(types)),
    decreases types,
{
    if i < types.len() - 1 {
        lemma_element_of_all(types.drop_last(), i);
        assert(types.drop_last()[i] == types[i]);
    }
}

} // verus!
