//! The layouts of types.

use crate::cst::{CommaSep1, Type, TypeAnnotation, TypeCallFunction};
use crate::fmt::has_comments::{types_comments, types_have_comments};
use crate::fmt::items::{pieces, put_all, Item, Piece};
use crate::fmt::layout::{comma_layouts, gen_commas, gen_list, gen_token, gen_trailing_comma, layouts, list_layout, space, space_layout, token_layout, trailing_comma_layout, Contents, ListContents};
use crate::fmt::name::{gen_name, gen_qualified_proper_name, name_layout, qualified_proper_name_layout};
use vstd::prelude::*;

verus! {

/// The types of a list, laid out one by one.
pub open spec fn type_contents(list: CommaSep1<Box<Type>>) -> Contents
    decreases list,
{
    Contents {
        elements: Seq::new(
            list.tail@.len() + 1,
            |i: int|
                if i == 0 {
                    type_layout(*list.head)
                } else if 0 < i <= list.tail@.len() {
                    type_layout(*list.tail@[i - 1].1)
                } else {
                    Seq::empty()
                },
        ),
        commas: comma_layouts(list.tail@),
        trailing_comma: trailing_comma_layout(list.trailing_comma),
    }
}

/// What stands at the front of a type-level call.
pub open spec fn type_call_function_layout(function: TypeCallFunction) -> Seq<Piece> {
    match function {
        TypeCallFunction::Constructor(constructor) => qualified_proper_name_layout(constructor),
        TypeCallFunction::Variable(variable) => name_layout(variable),
    }
}

/// A type.
pub open spec fn type_layout(t: Type) -> Seq<Piece>
    decreases t,
{
    match t {
        Type::Parens(parens) => token_layout(parens.open_paren.0, "("@) + type_layout(
            *parens.value,
        ) + token_layout(parens.close_paren.0, ")"@),
        Type::Variable(variable) => name_layout(variable),
        Type::Constructor(constructor) => qualified_proper_name_layout(constructor),
        Type::Call { function, arguments } => type_call_function_layout(function) + list_layout(
            arguments.open_paren.0,
            "("@,
            Some(type_contents(arguments.value)),
            types_comments(arguments.value),
            arguments.close_paren.0,
            ")"@,
        ),
        Type::Function { parameters, right_arrow, return_type } => list_layout(
            parameters.open_paren.0,
            "("@,
            match parameters.value {
                Some(list) => Some(type_contents(list)),
                None => None,
            },
            match parameters.value {
                Some(list) => types_comments(list),
                None => false,
            },
            parameters.close_paren.0,
            ")"@,
        ) + space_layout() + token_layout(right_arrow.0, "->"@) + space_layout() + type_layout(
            *return_type,
        ),
    }
}

/// A colon, a space and a type.
pub open spec fn type_annotation_layout(annotation: TypeAnnotation) -> Seq<Piece> {
    token_layout(annotation.0.0, ":"@) + space_layout() + type_layout(annotation.1)
}

/// A type annotation, where there is one.
pub open spec fn optional_annotation_layout(annotation: Option<TypeAnnotation>) -> Seq<Piece> {
    match annotation {
        Some(annotation) => type_annotation_layout(annotation),
        None => Seq::empty(),
    }
}

/// See [`type_contents`].
pub fn gen_type_contents(list: &CommaSep1<Box<Type>>) -> (contents: ListContents)
    ensures
        contents@ == type_contents(*list),
        contents@.wf(),
    decreases list, 0int,
{
    let mut elements: Vec<Vec<Item>> = Vec::new();
    elements.push(gen_type(&list.head));
    let mut i: usize = 0;
    while i < list.tail.len()
        invariant
            i <= list.tail.len(),
            elements.len() == i + 1,
            pieces(elements@[0]@) == type_layout(*list.head),
            forall|j: int| 0 < j <= i ==> pieces(elements@[j]@) == type_layout(*list.tail@[j - 1].1),
        decreases list.tail.len() - i,
    {
        elements.push(gen_type(&list.tail[i].1));
        i += 1;
    }
    let contents = ListContents {
        elements,
        commas: gen_commas(&list.tail),
        trailing_comma: gen_trailing_comma(&list.trailing_comma),
    };
    assert(contents@.elements =~= type_contents(*list).elements);
    contents
}

/// See [`type_layout`].
pub fn gen_type(t: &Type) -> (items: Vec<Item>)
    ensures
        pieces(items@) == type_layout(*t),
    decreases t, 1int,
{
    match t {
        Type::Parens(parens) => {
            let mut items = gen_token(&parens.open_paren.0, "(");
            put_all(&mut items, gen_type(&parens.value));
            put_all(&mut items, gen_token(&parens.close_paren.0, ")"));
            items
        },
        Type::Variable(variable) => gen_name(variable),
        Type::Constructor(constructor) => gen_qualified_proper_name(constructor),
        Type::Call { function, arguments } => {
            let mut items = match function {
                TypeCallFunction::Constructor(constructor) => gen_qualified_proper_name(
                    constructor,
                ),
                TypeCallFunction::Variable(variable) => gen_name(variable),
            };
            let contents = Some(gen_type_contents(&arguments.value));
            put_all(
                &mut items,
                gen_list(
                    &arguments.open_paren.0,
                    "(",
                    &contents,
                    types_have_comments(&arguments.value),
                    &arguments.close_paren.0,
                    ")",
                ),
            );
            items
        },
        Type::Function { parameters, right_arrow, return_type } => {
            let (contents, commented) = match &parameters.value {
                Some(list) => (Some(gen_type_contents(list)), types_have_comments(list)),
                None => (None, false),
            };
            let mut items = gen_list(
                &parameters.open_paren.0,
                "(",
                &contents,
                commented,
                &parameters.close_paren.0,
                ")",
            );
            put_all(&mut items, space());
            put_all(&mut items, gen_token(&right_arrow.0, "->"));
            put_all(&mut items, space());
            put_all(&mut items, gen_type(return_type));
            items
        },
    }
}

/// See [`type_annotation_layout`].
pub fn gen_type_annotation(annotation: &TypeAnnotation) -> (items: Vec<Item>)
    ensures
        pieces(items@) == type_annotation_layout(*annotation),
{
    let mut items = gen_token(&annotation.0.0, ":");
    put_all(&mut items, space());
    put_all(&mut items, gen_type(&annotation.1));
    items
}

/// See [`optional_annotation_layout`].
pub fn gen_optional_annotation(annotation: &Option<TypeAnnotation>) -> (items: Vec<Item>)
    ensures
        pieces(items@) == optional_annotation_layout(*annotation),
{
    match annotation {
        Some(annotation) => gen_type_annotation(annotation),
        None => crate::fmt::layout::nothing(),
    }
}

} // verus!
