//! The environment: the values and constructors that an expression may refer to.

use crate::ast::expression::{Expr, Expression};
use crate::ast::name::{
    CanonicalText, FullyQualifiedName, FullyQualifiedProperName, Name, ProperName, QualifiedName,
    QualifiedProperName, QualifiedText,
};
use crate::supply::Supply;
use crate::table::{Duplicate, Table};
use crate::token::Span;
use crate::typechecker::scheme::{Polytype, Scheme};
use vstd::prelude::*;

verus! {

/// A value in scope.
#[derive(Debug, PartialEq, Eq)]
pub enum EnvValue {
    /// A value of the current module, or a parameter of a function.
    ModuleValue {
        /// Where the value is declared.
        span: Span,
        variable_scheme: Scheme,
        variable: Name,
    },
    /// A value defined outside the language.
    ForeignVariable {
        /// Where the value is declared.
        span: Span,
        variable_scheme: Scheme,
        variable: Name,
    },
    /// A value of another module.
    ImportedVariable {
        /// Where the value is imported.
        span: Span,
        variable_scheme: Scheme,
        variable: FullyQualifiedName,
    },
}

/// A constructor in scope.
#[derive(Debug, PartialEq, Eq)]
pub enum EnvConstructor {
    /// A constructor of the current module.
    ModuleConstructor { constructor_scheme: Scheme, constructor: ProperName },
    /// A constructor of another module.
    ImportedConstructor { constructor_scheme: Scheme, constructor: FullyQualifiedProperName },
}

/// A value in scope, as a mathematical value.
pub enum ScopedValue {
    ModuleValue { span: Span, variable_scheme: Polytype, variable: Seq<char> },
    ForeignVariable { span: Span, variable_scheme: Polytype, variable: Seq<char> },
    ImportedVariable { span: Span, variable_scheme: Polytype, variable: CanonicalText },
}

/// A constructor in scope, as a mathematical value.
pub enum ScopedConstructor {
    ModuleConstructor { constructor_scheme: Polytype, constructor: Seq<char> },
    ImportedConstructor { constructor_scheme: Polytype, constructor: CanonicalText },
}

impl View for EnvValue {
    type V = ScopedValue;

    open spec fn view(&self) -> ScopedValue {
        match self {
            EnvValue::ModuleValue { span, variable_scheme, variable } => ScopedValue::ModuleValue {
                span: *span,
                variable_scheme: variable_scheme@,
                variable: variable@,
            },
            EnvValue::ForeignVariable {
                span,
                variable_scheme,
                variable,
            } => ScopedValue::ForeignVariable {
                span: *span,
                variable_scheme: variable_scheme@,
                variable: variable@,
            },
            EnvValue::ImportedVariable {
                span,
                variable_scheme,
                variable,
            } => ScopedValue::ImportedVariable {
                span: *span,
                variable_scheme: variable_scheme@,
                variable: variable@,
            },
        }
    }
}

impl View for EnvConstructor {
    type V = ScopedConstructor;

    open spec fn view(&self) -> ScopedConstructor {
        match self {
            EnvConstructor::ModuleConstructor {
                constructor_scheme,
                constructor,
            } => ScopedConstructor::ModuleConstructor {
                constructor_scheme: constructor_scheme@,
                constructor: constructor@,
            },
            EnvConstructor::ImportedConstructor {
                constructor_scheme,
                constructor,
            } => ScopedConstructor::ImportedConstructor {
                constructor_scheme: constructor_scheme@,
                constructor: constructor@,
            },
        }
    }
}

impl ScopedValue {
    /// The scheme of the value.
    pub open spec fn scheme(self) -> Polytype {
        match self {
            ScopedValue::ModuleValue { variable_scheme, .. } => variable_scheme,
            ScopedValue::ForeignVariable { variable_scheme, .. } => variable_scheme,
            ScopedValue::ImportedVariable { variable_scheme, .. } => variable_scheme,
        }
    }

    /// A reference to the value at `span`, its scheme's variables replaced by
    /// fresh ones from `supply` on.
    pub open spec fn expression(self, span: Span, supply: nat) -> Expr {
        match self {
            ScopedValue::ModuleValue { variable_scheme, variable, .. } => Expr::LocalVariable {
                span,
                variable_type: variable_scheme.instance(supply),
                variable,
            },
            ScopedValue::ForeignVariable { variable_scheme, variable, .. } => Expr::ForeignVariable {
                span,
                variable_type: variable_scheme.instance(supply),
                variable,
            },
            ScopedValue::ImportedVariable {
                variable_scheme,
                variable,
                ..
            } => Expr::ImportedVariable {
                span,
                variable_type: variable_scheme.instance(supply),
                variable,
            },
        }
    }
}

impl ScopedConstructor {
    /// The scheme of the constructor.
    pub open spec fn scheme(self) -> Polytype {
        match self {
            ScopedConstructor::ModuleConstructor { constructor_scheme, .. } => constructor_scheme,
            ScopedConstructor::ImportedConstructor { constructor_scheme, .. } => constructor_scheme,
        }
    }

    /// A reference to the constructor at `span`, its scheme's variables
    /// replaced by fresh ones from `supply` on.
    pub open spec fn expression(self, span: Span, supply: nat) -> Expr {
        match self {
            ScopedConstructor::ModuleConstructor {
                constructor_scheme,
                constructor,
            } => Expr::LocalConstructor {
                span,
                constructor_type: constructor_scheme.instance(supply),
                constructor,
            },
            ScopedConstructor::ImportedConstructor {
                constructor_scheme,
                constructor,
            } => Expr::ImportedConstructor {
                span,
                constructor_type: constructor_scheme.instance(supply),
                constructor,
            },
        }
    }
}

impl Duplicate for EnvValue {
    fn duplicate(&self) -> (copy: EnvValue) {
        match self {
            EnvValue::ModuleValue { span, variable_scheme, variable } => EnvValue::ModuleValue {
                span: *span,
                variable_scheme: variable_scheme.duplicate(),
                variable: variable.duplicate(),
            },
            EnvValue::ForeignVariable { span, variable_scheme, variable } => EnvValue::ForeignVariable {
                span: *span,
                variable_scheme: variable_scheme.duplicate(),
                variable: variable.duplicate(),
            },
            EnvValue::ImportedVariable {
                span,
                variable_scheme,
                variable,
            } => EnvValue::ImportedVariable {
                span: *span,
                variable_scheme: variable_scheme.duplicate(),
                variable: variable.duplicate(),
            },
        }
    }
}

impl Duplicate for EnvConstructor {
    fn duplicate(&self) -> (copy: EnvConstructor) {
        match self {
            EnvConstructor::ModuleConstructor {
                constructor_scheme,
                constructor,
            } => EnvConstructor::ModuleConstructor {
                constructor_scheme: constructor_scheme.duplicate(),
                constructor: constructor.duplicate(),
            },
            EnvConstructor::ImportedConstructor {
                constructor_scheme,
                constructor,
            } => EnvConstructor::ImportedConstructor {
                constructor_scheme: constructor_scheme.duplicate(),
                constructor: constructor.duplicate(),
            },
        }
    }
}

impl EnvValue {
    /// A reference to this value at `span`. Every use of a value gets fresh
    /// type variables in place of those that its scheme lets stand for any type.
    pub fn to_expression(&self, span: Span, supply: &mut Supply) -> (expression: Expression)
        requires
            old(supply)@ + self@.scheme().forall.len() <= usize::MAX,
        ensures
            expression@ == self@.expression(span, old(supply)@),
            final(supply)@ == old(supply)@ + self@.scheme().forall.len(),
    {
        match self {
            EnvValue::ModuleValue { variable_scheme, variable, .. } => Expression::LocalVariable {
                span,
                variable_type: variable_scheme.instantiate(supply),
                variable: variable.duplicate(),
            },
            EnvValue::ForeignVariable { variable_scheme, variable, .. } => Expression::ForeignVariable {
                span,
                variable_type: variable_scheme.instantiate(supply),
                variable: variable.duplicate(),
            },
            EnvValue::ImportedVariable {
                variable_scheme,
                variable,
                ..
            } => Expression::ImportedVariable {
                span,
                variable_type: variable_scheme.instantiate(supply),
                variable: variable.duplicate(),
            },
        }
    }
}

impl EnvConstructor {
    /// A reference to this constructor at `span`, with fresh type variables
    /// in place of those that its scheme lets stand for any type.
    pub fn to_expression(&self, span: Span, supply: &mut Supply) -> (expression: Expression)
        requires
            old(supply)@ + self@.scheme().forall.len() <= usize::MAX,
        ensures
            expression@ == self@.expression(span, old(supply)@),
            final(supply)@ == old(supply)@ + self@.scheme().forall.len(),
    {
        match self {
            EnvConstructor::ModuleConstructor {
                constructor_scheme,
                constructor,
            } => Expression::LocalConstructor {
                span,
                constructor_type: constructor_scheme.instantiate(supply),
                constructor: constructor.duplicate(),
            },
            EnvConstructor::ImportedConstructor {
                constructor_scheme,
                constructor,
            } => Expression::ImportedConstructor {
                span,
                constructor_type: constructor_scheme.instantiate(supply),
                constructor: constructor.duplicate(),
            },
        }
    }
}

/// The values in scope, by name.
pub type EnvValues = Table<QualifiedName, EnvValue>;

/// The constructors in scope, by name.
pub type EnvConstructors = Table<QualifiedProperName, EnvConstructor>;

/// What is in scope.
#[derive(Debug)]
pub struct Env {
    /// The values in scope.
    pub values: EnvValues,
    /// The constructors in scope.
    pub constructors: EnvConstructors,
}

/// What is in scope, as a mathematical value.
pub struct Scope {
    pub values: Map<QualifiedText, ScopedValue>,
    pub constructors: Map<QualifiedText, ScopedConstructor>,
}

impl View for Env {
    type V = Scope;

    open spec fn view(&self) -> Scope {
        Scope { values: self.values@, constructors: self.constructors@ }
    }
}

impl Scope {
    /// No scheme in scope has more than `q` variables that stand for any type.
    pub open spec fn quantified_within(self, q: nat) -> bool {
        &&& forall|name: QualifiedText| #[trigger]
            self.values.contains_key(name) ==> self.values[name].scheme().forall.len() <= q
        &&& forall|name: QualifiedText| #[trigger]
            self.constructors.contains_key(name) ==> self.constructors[name].scheme().forall.len()
                <= q
    }
}

impl Env {
    /// No name is in scope twice.
    pub open spec fn wf(&self) -> bool {
        self.values.wf() && self.constructors.wf()
    }

    /// The environment with nothing in scope.
    pub fn new() -> (env: Env)
        ensures
            env.wf(),
            env@.values == Map::<QualifiedText, ScopedValue>::empty(),
            env@.constructors == Map::<QualifiedText, ScopedConstructor>::empty(),
    {
        Env { values: Table::new(), constructors: Table::new() }
    }
}

impl Default for Env {
    fn default() -> (env: Env)
        ensures
            env.wf(),
            env@.values == Map::<QualifiedText, ScopedValue>::empty(),
            env@.constructors == Map::<QualifiedText, ScopedConstructor>::empty(),
    {
        Env::new()
    }
}

} // verus!
