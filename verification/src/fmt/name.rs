//! The layouts of names.

use crate::cst::{Name, ProperName, QualifiedName, QualifiedProperName};
use crate::fmt::items::{pieces, put_all, Item, Piece};
use crate::fmt::layout::{gen_string_token, gen_token, nothing, token_layout};
use crate::token::Dot;
use vstd::prelude::*;

verus! {

/// A name.
pub open spec fn name_layout(name: Name) -> Seq<Piece> {
    token_layout(name.0, name.0.value@)
}

/// A proper name.
pub open spec fn proper_name_layout(name: ProperName) -> Seq<Piece> {
    token_layout(name.0, name.0.value@)
}

/// The name of a module and the dot behind it, where a name has them.
pub open spec fn qualifier_layout(module_name: Option<(ProperName, Dot)>) -> Seq<Piece> {
    match module_name {
        Some((name, dot)) => proper_name_layout(name) + token_layout(dot.0, "."@),
        None => Seq::empty(),
    }
}

/// A name with its qualifier.
pub open spec fn qualified_name_layout(name: QualifiedName) -> Seq<Piece> {
    qualifier_layout(name.module_name) + name_layout(name.value)
}

/// A proper name with its qualifier.
pub open spec fn qualified_proper_name_layout(name: QualifiedProperName) -> Seq<Piece> {
    qualifier_layout(name.module_name) + proper_name_layout(name.value)
}

/// See [`name_layout`].
pub fn gen_name(name: &Name) -> (items: Vec<Item>)
    ensures
        pieces(items@) == name_layout(*name),
{
    gen_string_token(&name.0)
}

/// See [`proper_name_layout`].
pub fn gen_proper_name(name: &ProperName) -> (items: Vec<Item>)
    ensures
        pieces(items@) == proper_name_layout(*name),
{
    gen_string_token(&name.0)
}

fn gen_qualifier(module_name: &Option<(ProperName, Dot)>) -> (items: Vec<Item>)
    ensures
        pieces(items@) == qualifier_layout(*module_name),
{
    match module_name {
        Some((name, dot)) => {
            let mut items = gen_proper_name(name);
            put_all(&mut items, gen_token(&dot.0, "."));
            items
        },
        None => nothing(),
    }
}

/// See [`qualified_name_layout`].
pub fn gen_qualified_name(name: &QualifiedName) -> (items: Vec<Item>)
    ensures
        pieces(items@) == qualified_name_layout(*name),
{
    let mut items = gen_qualifier(&name.module_name);
    put_all(&mut items, gen_name(&name.value));
    items
}

/// See [`qualified_proper_name_layout`].
pub fn gen_qualified_proper_name(name: &QualifiedProperName) -> (items: Vec<Item>)
    ensures
        pieces(items@) == qualified_proper_name_layout(*name),
{
    let mut items = gen_qualifier(&name.module_name);
    put_all(&mut items, gen_proper_name(&name.value));
    items
}

} // verus!
