//! The supply of fresh type variables.

use crate::ast::types::{Ty, Type};
use vstd::prelude::*;

verus! {

/// A counter that hands out type variables, each with a number that it has
/// not handed out before.
#[derive(Debug, Clone, Copy, PartialEq, Eq, Structural)]
pub struct Supply(pub usize);

/// The anonymous type variable with the number `var`.
pub open spec fn anonymous(var: nat) -> Ty {
    Ty::Variable { var, source_name: None }
}

impl View for Supply {
    type V = nat;

    open spec fn view(&self) -> nat {
        self.0 as nat
    }
}

impl Default for Supply {
    fn default() -> (supply: Supply)
        ensures
            supply@ == 0,
    {
        Supply(0)
    }
}

impl Supply {
    /// A supply whose first variable has the number `next`.
    pub fn new(next: usize) -> (supply: Supply)
        ensures
            supply@ == next,
    {
        Supply(next)
    }

    /// The number that the next variable will have.
    pub fn peek(&self) -> (next: usize)
        ensures
            next == self@,
    {
        self.0
    }

    /// The number of a variable that this supply has not handed out before.
    pub fn fresh(&mut self) -> (var: usize)
        requires
            old(self)@ < usize::MAX,
        ensures
            var == old(self)@,
            final(self)@ == old(self)@ + 1,
    {
        let var = self.0;
        self.0 = self.0 + 1;
        var
    }

    /// A type variable that this supply has not handed out before. It has no
    /// source name, and its number is the supply's count, which goes up by one.
    pub fn fresh_type(&mut self) -> (fresh: Type)
        requires
            old(self)@ < usize::MAX,
        ensures
            fresh@ == anonymous(old(self)@),
            final(self)@ == old(self)@ + 1,
    {
        let var = self.fresh();
        Type::Variable { var, source_name: None }
    }
}

/// Two variables that a supply hands out one after the other differ, and the
/// later one has the greater number.
pub proof fn lemma_fresh_variables_differ(first: nat, second: nat)
    requires
        first < second,
    ensures
        anonymous(first) != anonymous(second),
        anonymous(first)->var < anonymous(second)->var,
{
}

} // verus!
