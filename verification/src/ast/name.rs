//! Names of values, types, constructors, modules and packages.

use crate::table::{Duplicate, Key};
use vstd::prelude::*;

verus! {

/// A name that starts with a lower case letter: a value or a type variable.
#[derive(Debug, Clone, PartialEq, Eq, Hash)]
pub struct Name(pub String);

/// A name that starts with an upper case letter: a type, a constructor or
/// a part of a module's name.
#[derive(Debug, Clone, PartialEq, Eq, Hash)]
pub struct ProperName(pub String);

/// The name of a package.
#[derive(Debug, Clone, PartialEq, Eq, Hash)]
pub struct PackageName(pub String);

/// The name of a module: one or more proper names, written with dots between them.
#[derive(Debug, Clone, PartialEq, Eq, Hash)]
pub struct ModuleName(pub Vec<ProperName>);

/// A value as a module refers to it: by its name, or by the name under which
/// its module was imported, a dot, and its name.
#[derive(Debug, Clone, PartialEq, Eq, Hash)]
pub struct QualifiedName {
    /// The name under which the module was imported, if the reference gives one.
    pub module_name: Option<ProperName>,
    /// The value's own name.
    pub value: Name,
}

/// A constructor or type as a module refers to it.
#[derive(Debug, Clone, PartialEq, Eq, Hash)]
pub struct QualifiedProperName {
    /// The name under which the module was imported, if the reference gives one.
    pub module_name: Option<ProperName>,
    /// The constructor's or type's own name.
    pub value: ProperName,
}

/// The canonical name of an imported value.
#[derive(Debug, Clone, PartialEq, Eq, Hash)]
pub struct FullyQualifiedName {
    /// The package that holds the module, if it is not the current one.
    pub package_name: Option<PackageName>,
    /// The module that declares the value.
    pub module_name: ModuleName,
    /// The value's own name.
    pub value: Name,
}

/// The canonical name of a type or constructor.
#[derive(Debug, Clone, PartialEq, Eq, Hash)]
pub struct FullyQualifiedProperName {
    /// The package that holds the module, if it is not the current one.
    pub package_name: Option<PackageName>,
    /// The module that declares the type or constructor.
    pub module_name: ModuleName,
    /// The type's or constructor's own name.
    pub value: ProperName,
}

/// What a qualified name says: an optional module and a name, as text.
pub struct QualifiedText {
    pub module_name: Option<Seq<char>>,
    pub value: Seq<char>,
}

/// What a fully qualified name says: package, module path and name, as text.
pub struct CanonicalText {
    pub package_name: Option<Seq<char>>,
    pub module_name: Seq<Seq<char>>,
    pub value: Seq<char>,
}

/// The text of an optional proper name.
pub open spec fn proper_text(name: Option<ProperName>) -> Option<Seq<char>> {
    match name {
        Some(name) => Some(name@),
        None => None,
    }
}

/// The text of an optional package name.
pub open spec fn package_text(name: Option<PackageName>) -> Option<Seq<char>> {
    match name {
        Some(name) => Some(name@),
        None => None,
    }
}

/// The text of an optional name.
pub open spec fn name_text(name: Option<Name>) -> Option<Seq<char>> {
    match name {
        Some(name) => Some(name@),
        None => None,
    }
}

impl View for Name {
    type V = Seq<char>;

    open spec fn view(&self) -> Seq<char> {
        self.0@
    }
}

impl View for ProperName {
    type V = Seq<char>;

    open spec fn view(&self) -> Seq<char> {
        self.0@
    }
}

impl View for PackageName {
    type V = Seq<char>;

    open spec fn view(&self) -> Seq<char> {
        self.0@
    }
}

impl View for ModuleName {
    type V = Seq<Seq<char>>;

    open spec fn view(&self) -> Seq<Seq<char>> {
        Seq::new(self.0@.len(), |i: int| self.0@[i]@)
    }
}

impl View for QualifiedName {
    type V = QualifiedText;

    open spec fn view(&self) -> QualifiedText {
        QualifiedText { module_name: proper_text(self.module_name), value: self.value@ }
    }
}

impl View for QualifiedProperName {
    type V = QualifiedText;

    open spec fn view(&self) -> QualifiedText {
        QualifiedText { module_name: proper_text(self.module_name), value: self.value@ }
    }
}

impl View for FullyQualifiedName {
    type V = CanonicalText;

    open spec fn view(&self) -> CanonicalText {
        CanonicalText {
            package_name: package_text(self.package_name),
            module_name: self.module_name@,
            value: self.value@,
        }
    }
}

impl View for FullyQualifiedProperName {
    type V = CanonicalText;

    open spec fn view(&self) -> CanonicalText {
        CanonicalText {
            package_name: package_text(self.package_name),
            module_name: self.module_name@,
            value: self.value@,
        }
    }
}

impl Duplicate for Name {
    fn duplicate(&self) -> (copy: Name) {
        Name(self.0.clone())
    }
}

impl Key for Name {
    fn same(&self, other: &Name) -> (same: bool) {
        self.0 == other.0
    }
}

impl Duplicate for ProperName {
    fn duplicate(&self) -> (copy: ProperName) {
        ProperName(self.0.clone())
    }
}

impl Key for ProperName {
    fn same(&self, other: &ProperName) -> (same: bool) {
        self.0 == other.0
    }
}

impl Duplicate for PackageName {
    fn duplicate(&self) -> (copy: PackageName) {
        PackageName(self.0.clone())
    }
}

impl Key for PackageName {
    fn same(&self, other: &PackageName) -> (same: bool) {
        self.0 == other.0
    }
}

/// A copy of an optional name of a module.
pub fn duplicate_proper(name: &Option<ProperName>) -> (copy: Option<ProperName>)
    ensures
        proper_text(copy) == proper_text(*name),
{
    match name {
        Some(name) => Some(name.duplicate()),
        None => None,
    }
}

/// Do two optional names of modules say the same?
pub fn same_proper(a: &Option<ProperName>, b: &Option<ProperName>) -> (same: bool)
    ensures
        same == (proper_text(*a) == proper_text(*b)),
{
    match (a, b) {
        (Some(a), Some(b)) => a.same(b),
        (None, None) => true,
        _ => false,
    }
}

/// A copy of an optional name of a package.
pub fn duplicate_package(name: &Option<PackageName>) -> (copy: Option<PackageName>)
    ensures
        package_text(copy) == package_text(*name),
{
    match name {
        Some(name) => Some(name.duplicate()),
        None => None,
    }
}

/// Do two optional names of packages say the same?
pub fn same_package(a: &Option<PackageName>, b: &Option<PackageName>) -> (same: bool)
    ensures
        same == (package_text(*a) == package_text(*b)),
{
    match (a, b) {
        (Some(a), Some(b)) => a.same(b),
        (None, None) => true,
        _ => false,
    }
}

/// A copy of an optional name.
pub fn duplicate_name(name: &Option<Name>) -> (copy: Option<Name>)
    ensures
        name_text(copy) == name_text(*name),
{
    match name {
        Some(name) => Some(name.duplicate()),
        None => None,
    }
}

impl Duplicate for ModuleName {
    fn duplicate(&self) -> (copy: ModuleName) {
        let mut parts: Vec<ProperName> = Vec::new();
        let mut i: usize = 0;
        while i < self.0.len()
            invariant
                i <= self.0.len(),
                parts.len() == i,
                forall|j: int| 0 <= j < i ==> parts@[j]@ == self.0@[j]@,
            decreases self.0.len() - i,
        {
            parts.push(self.0[i].duplicate());
            i += 1;
        }
        let copy = ModuleName(parts);
        assert(copy@ =~= self@);
        copy
    }
}

impl Key for ModuleName {
    fn same(&self, other: &ModuleName) -> (same: bool) {
        if self.0.len() != other.0.len() {
            assert(self@.len() != other@.len());
            return false;
        }
        let mut i: usize = 0;
        while i < self.0.len()
            invariant
                i <= self.0.len(),
                self.0.len() == other.0.len(),
                forall|j: int| 0 <= j < i ==> self.0@[j]@ == other.0@[j]@,
            decreases self.0.len() - i,
        {
            if !self.0[i].same(&other.0[i]) {
                assert(self@[i as int] != other@[i as int]);
                return false;
            }
            i += 1;
        }
        assert(self@ =~= other@);
        true
    }
}

impl Duplicate for QualifiedName {
    fn duplicate(&self) -> (copy: QualifiedName) {
        QualifiedName {
            module_name: duplicate_proper(&self.module_name),
            value: self.value.duplicate(),
        }
    }
}

impl Key for QualifiedName {
    fn same(&self, other: &QualifiedName) -> (same: bool) {
        same_proper(&self.module_name, &other.module_name) && self.value.same(&other.value)
    }
}

impl Duplicate for QualifiedProperName {
    fn duplicate(&self) -> (copy: QualifiedProperName) {
        QualifiedProperName {
            module_name: duplicate_proper(&self.module_name),
            value: self.value.duplicate(),
        }
    }
}

impl Key for QualifiedProperName {
    fn same(&self, other: &QualifiedProperName) -> (same: bool) {
        same_proper(&self.module_name, &other.module_name) && self.value.same(&other.value)
    }
}

impl Duplicate for FullyQualifiedName {
    fn duplicate(&self) -> (copy: FullyQualifiedName) {
        FullyQualifiedName {
            package_name: duplicate_package(&self.package_name),
            module_name: self.module_name.duplicate(),
            value: self.value.duplicate(),
        }
    }
}

impl Key for FullyQualifiedName {
    fn same(&self, other: &FullyQualifiedName) -> (same: bool) {
        same_package(&self.package_name, &other.package_name) && self.module_name.same(
            &other.module_name,
        ) && self.value.same(&other.value)
    }
}

impl Duplicate for FullyQualifiedProperName {
    fn duplicate(&self) -> (copy: FullyQualifiedProperName) {
        FullyQualifiedProperName {
            package_name: duplicate_package(&self.package_name),
            module_name: self.module_name.duplicate(),
            value: self.value.duplicate(),
        }
    }
}

impl Key for FullyQualifiedProperName {
    fn same(&self, other: &FullyQualifiedProperName) -> (same: bool) {
        same_package(&self.package_name, &other.package_name) && self.module_name.same(
            &other.module_name,
        ) && self.value.same(&other.value)
    }
}

/// The text of a name that stands alone, without a module before it.
pub open spec fn unqualified_text(value: Seq<char>) -> QualifiedText {
    QualifiedText { module_name: None, value }
}

/// Refer to `value` by its name alone.
pub fn unqualified(value: Name) -> (name: QualifiedName)
    ensures
        name@ == unqualified_text(value@),
{
    QualifiedName { module_name: None, value }
}

} // verus!
