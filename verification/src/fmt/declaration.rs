//! The layouts of declarations.

use crate::cst::{
    CommaSep1, Constructor, Declaration, Expression, ForeignValueDeclaration, Name, ParensList1,
    ProperName, Type, TypeDeclaration, ValueDeclaration,
};
use crate::fmt::expression::{expression_layout, gen_expression};
use crate::fmt::has_comments::{
    expression_leading_comments, types_comments, types_have_comments, HasComments,
};
use crate::fmt::items::{copy_items, pieces, put, put_all, put_text, Item, Piece};
use crate::fmt::layout::{
    comma_layouts, gen_commas, gen_list, gen_token, gen_trailing_comma, group, group_layout,
    list_layout, nothing, space, space_layout, token_layout, trailing_comma_layout, Contents,
    ListContents,
};
use crate::fmt::name::{gen_name, gen_proper_name, name_layout, proper_name_layout};
use crate::fmt::types::{
    gen_optional_annotation, gen_type_annotation, gen_type_contents, optional_annotation_layout,
    type_annotation_layout, type_contents,
};
use crate::token::Pipe;
use vstd::prelude::*;

verus! {

/// The names of a list, laid out one by one.
pub open spec fn name_contents(list: CommaSep1<Name>) -> Contents {
    Contents {
        elements: Seq::new(
            list.tail@.len() + 1,
            |i: int|
                if i == 0 {
                    name_layout(list.head)
                } else {
                    name_layout(list.tail@[i - 1].1)
                },
        ),
        commas: comma_layouts(list.tail@),
        trailing_comma: trailing_comma_layout(list.trailing_comma),
    }
}

/// The parameters of a declared type, where it has them.
pub open spec fn type_variables_layout(variables: Option<ParensList1<Name>>) -> Seq<Piece> {
    match variables {
        Some(variables) => list_layout(
            variables.open_paren.0,
            "("@,
            Some(name_contents(variables.value)),
            variables.value.comments(),
            variables.close_paren.0,
            ")"@,
        ),
        None => Seq::empty(),
    }
}

/// The fields of a constructor, where it has them.
pub open spec fn fields_layout(fields: Option<ParensList1<Box<Type>>>) -> Seq<Piece> {
    match fields {
        Some(fields) => list_layout(
            fields.open_paren.0,
            "("@,
            Some(type_contents(fields.value)),
            types_comments(fields.value),
            fields.close_paren.0,
            ")"@,
        ),
        None => Seq::empty(),
    }
}

/// A constructor, behind its pipe and a space where `pipe` holds one.
pub open spec fn constructor_layout(
    pipe: Option<Pipe>,
    name: ProperName,
    fields: Option<ParensList1<Box<Type>>>,
) -> Seq<Piece> {
    (match pipe {
        Some(pipe) => token_layout(pipe.0, "|"@) + space_layout(),
        None => Seq::empty(),
    }) + proper_name_layout(name) + fields_layout(fields)
}

/// The first `n` of the constructors that follow the first, each on its line.
pub open spec fn tail_constructors_layout(tail: Seq<Constructor<Pipe>>, n: nat) -> Seq<Piece>
    decreases n,
{
    if n == 0 {
        Seq::empty()
    } else {
        let last = tail[n - 1];
        tail_constructors_layout(tail, (n - 1) as nat) + constructor_layout(
            Some(last.pipe),
            last.constructor_name,
            last.fields,
        ) + (if n < tail.len() {
            seq![Piece::NewLine]
        } else {
            Seq::empty()
        })
    }
}

/// The constructors of a type.
///
/// A single constructor stands alone, and loses a pipe that carries no
/// comment. Several constructors take a line each, every one behind a pipe.
pub open spec fn constructors_layout(
    head: Constructor<Option<Pipe>>,
    tail: Seq<Constructor<Pipe>>,
) -> Seq<Piece> {
    if tail.len() == 0 {
        if head.pipe matches Some(pipe) && !pipe.0.commented() {
            constructor_layout(None, head.constructor_name, head.fields)
        } else {
            constructor_layout(head.pipe, head.constructor_name, head.fields)
        }
    } else {
        seq![Piece::ExpectNewLine] + (if head.pipe is None {
            seq![Piece::Text("| "@)]
        } else {
            Seq::empty()
        }) + constructor_layout(head.pipe, head.constructor_name, head.fields) + seq![
            Piece::NewLine,
        ] + tail_constructors_layout(tail, tail.len())
    }
}

/// A type declaration.
pub open spec fn type_declaration_layout(declaration: TypeDeclaration) -> Seq<Piece> {
    match declaration {
        TypeDeclaration::WithoutConstructors { type_keyword, name, type_variables, semicolon } => {
            token_layout(type_keyword.0, "type"@) + space_layout() + proper_name_layout(name)
                + type_variables_layout(type_variables) + token_layout(semicolon.0, ";"@)
        },
        TypeDeclaration::WithConstructors {
            type_keyword,
            name,
            type_variables,
            equals,
            head_constructor,
            tail_constructors,
            semicolon,
        } => {
            token_layout(type_keyword.0, "type"@) + space_layout() + proper_name_layout(name)
                + type_variables_layout(type_variables) + space_layout() + token_layout(
                equals.0,
                "="@,
            ) + seq![
                Piece::SpaceOrNewLine,
                Piece::Indent(constructors_layout(head_constructor, tail_constructors@)),
            ] + token_layout(semicolon.0, ";"@)
        },
    }
}

/// The value of a declaration, behind its `=`.
///
/// A comment behind the `=` or above the value puts the value on a line of
/// its own. So does a conditional that takes more than one line. Any other
/// value follows the `=` on its line where it fits.
pub open spec fn declared_value_layout(equals_has_trailing_comment: bool, e: Expression) -> Seq<
    Piece,
> {
    if equals_has_trailing_comment || expression_leading_comments(e) {
        group_layout(expression_layout(e), true)
    } else if e is If {
        seq![
            Piece::IfMultipleLines {
                multi: group_layout(expression_layout(e), true),
                single: group_layout(expression_layout(e), false),
                rest: Seq::empty(),
            },
        ]
    } else {
        group_layout(expression_layout(e), false)
    }
}

/// A value declaration.
pub open spec fn value_declaration_layout(declaration: ValueDeclaration) -> Seq<Piece> {
    name_layout(declaration.name) + optional_annotation_layout(declaration.type_annotation)
        + space_layout() + token_layout(declaration.equals.0, "="@) + declared_value_layout(
        declaration.equals.0.trailing() is Some,
        declaration.expression,
    ) + token_layout(declaration.semicolon.0, ";"@)
}

/// A foreign value declaration.
pub open spec fn foreign_value_declaration_layout(declaration: ForeignValueDeclaration) -> Seq<
    Piece,
> {
    token_layout(declaration.foreign_keyword.0, "foreign"@) + space_layout() + name_layout(
        declaration.name,
    ) + type_annotation_layout(declaration.type_annotation) + token_layout(
        declaration.semicolon.0,
        ";"@,
    )
}

/// A declaration.
pub open spec fn declaration_layout(declaration: Declaration) -> Seq<Piece> {
    match declaration {
        Declaration::Value(value_declaration) => value_declaration_layout(*value_declaration),
        Declaration::Type(type_declaration) => type_declaration_layout(*type_declaration),
        Declaration::ForeignValue(foreign_value_declaration) => foreign_value_declaration_layout(
            *foreign_value_declaration,
        ),
    }
}

/// See [`declaration_layout`].
pub fn gen_declaration(declaration: &Declaration) -> (items: Vec<Item>)
    ensures
        pieces(items@) == declaration_layout(*declaration),
{
    match declaration {
        Declaration::Value(value_declaration) => gen_value_declaration(value_declaration),
        Declaration::Type(type_declaration) => gen_type_declaration(type_declaration),
        Declaration::ForeignValue(foreign_value_declaration) => gen_foreign_value_declaration(
            foreign_value_declaration,
        ),
    }
}

/// See [`value_declaration_layout`].
pub fn gen_value_declaration(decl: &ValueDeclaration) -> (items: Vec<Item>)
    ensures
        pieces(items@) == value_declaration_layout(*decl),
{
    let mut items = gen_name(&decl.name);
    put_all(&mut items, gen_optional_annotation(&decl.type_annotation));
    put_all(&mut items, space());
    let equals_has_trailing_comment = decl.equals.0.has_trailing_comment();
    put_all(&mut items, gen_token(&decl.equals.0, "="));
    let expression_has_leading_comments = decl.expression.has_leading_comments();
    let expression_deserves_new_line_if_multi_lines = match &decl.expression {
        Expression::If { .. } => true,
        _ => false,
    };
    let expression = gen_expression(&decl.expression);
    let ghost front = pieces(items@);
    if equals_has_trailing_comment || expression_has_leading_comments {
        put_all(&mut items, group(expression, true));
    } else if expression_deserves_new_line_if_multi_lines {
        let single = group(copy_items(&expression), false);
        let multi = group(expression, true);
        let ghost choice = Piece::IfMultipleLines {
            multi: pieces(multi@),
            single: pieces(single@),
            rest: Seq::empty(),
        };
        put(&mut items, Item::IfMultipleLines { multi, single, rest: nothing() });
        assert(pieces(items@) =~= front + seq![choice]);
    } else {
        put_all(&mut items, group(expression, false));
    }
    put_all(&mut items, gen_token(&decl.semicolon.0, ";"));
    items
}

fn gen_name_contents(list: &CommaSep1<Name>) -> (contents: ListContents)
    ensures
        contents@ == name_contents(*list),
        contents@.wf(),
{
    let mut elements: Vec<Vec<Item>> = Vec::new();
    elements.push(gen_name(&list.head));
    let mut i: usize = 0;
    while i < list.tail.len()
        invariant
            i <= list.tail.len(),
            elements.len() == i + 1,
            pieces(elements@[0]@) == name_layout(list.head),
            forall|j: int| 0 < j <= i ==> pieces(elements@[j]@) == name_layout(list.tail@[j - 1].1),
        decreases list.tail.len() - i,
    {
        elements.push(gen_name(&list.tail[i].1));
        i += 1;
    }
    let contents = ListContents {
        elements,
        commas: gen_commas(&list.tail),
        trailing_comma: gen_trailing_comma(&list.trailing_comma),
    };
    assert(contents@.elements =~= name_contents(*list).elements);
    contents
}

fn gen_type_variables(variables: &Option<ParensList1<Name>>) -> (items: Vec<Item>)
    ensures
        pieces(items@) == type_variables_layout(*variables),
{
    match variables {
        Some(variables) => {
            let contents = Some(gen_name_contents(&variables.value));
            gen_list(
                &variables.open_paren.0,
                "(",
                &contents,
                variables.value.has_comments(),
                &variables.close_paren.0,
                ")",
            )
        },
        None => nothing(),
    }
}

fn gen_fields(fields: &Option<ParensList1<Box<Type>>>) -> (items: Vec<Item>)
    ensures
        pieces(items@) == fields_layout(*fields),
{
    match fields {
        Some(fields) => {
            let contents = Some(gen_type_contents(&fields.value));
            gen_list(
                &fields.open_paren.0,
                "(",
                &contents,
                types_have_comments(&fields.value),
                &fields.close_paren.0,
                ")",
            )
        },
        None => nothing(),
    }
}

fn gen_constructor(
    pipe: Option<&Pipe>,
    name: &ProperName,
    fields: &Option<ParensList1<Box<Type>>>,
) -> (items: Vec<Item>)
    ensures
        pieces(items@) == constructor_layout(
            match pipe {
                Some(pipe) => Some(*pipe),
                None => None,
            },
            *name,
            *fields,
        ),
{
    let mut items = nothing();
    match pipe {
        Some(pipe) => {
            put_all(&mut items, gen_token(&pipe.0, "|"));
            put_all(&mut items, space());
        },
        None => {},
    }
    put_all(&mut items, gen_proper_name(name));
    put_all(&mut items, gen_fields(fields));
    items
}

fn gen_constructors(head: &Constructor<Option<Pipe>>, tail: &Vec<Constructor<Pipe>>) -> (items: Vec<
    Item,
>)
    ensures
        pieces(items@) == constructors_layout(*head, tail@),
{
    if tail.len() == 0 {
        match &head.pipe {
            Some(pipe) => {
                if pipe.0.has_comments() {
                    gen_constructor(Some(pipe), &head.constructor_name, &head.fields)
                } else {
                    // Drop the pipe if it's present and has no comments
                    gen_constructor(None, &head.constructor_name, &head.fields)
                }
            },
            None => gen_constructor(None, &head.constructor_name, &head.fields),
        }
    } else {
        let mut items = nothing();
        put(&mut items, Item::ExpectNewLine);
        match &head.pipe {
            Some(pipe) => {
                put_all(
                    &mut items,
                    gen_constructor(Some(pipe), &head.constructor_name, &head.fields),
                );
            },
            None => {
                put_text(&mut items, "| ");
                put_all(&mut items, gen_constructor(None, &head.constructor_name, &head.fields));
            },
        }
        put(&mut items, Item::NewLine);
        let ghost front = pieces(items@);
        let mut rest = nothing();
        let mut i: usize = 0;
        while i < tail.len()
            invariant
                i <= tail.len(),
                pieces(rest@) == tail_constructors_layout(tail@, i as nat),
            decreases tail.len() - i,
        {
            let constructor = &tail[i];
            put_all(
                &mut rest,
                gen_constructor(
                    Some(&constructor.pipe),
                    &constructor.constructor_name,
                    &constructor.fields,
                ),
            );
            if i < tail.len() - 1 {
                put(&mut rest, Item::NewLine);
            }
            assert(pieces(rest@) =~= tail_constructors_layout(tail@, (i + 1) as nat));
            i += 1;
        }
        put_all(&mut items, rest);
        assert(pieces(items@) =~= constructors_layout(*head, tail@));
        items
    }
}

/// See [`type_declaration_layout`].
pub fn gen_type_declaration(type_declaration: &TypeDeclaration) -> (items: Vec<Item>)
    ensures
        pieces(items@) == type_declaration_layout(*type_declaration),
{
    match type_declaration {
        TypeDeclaration::WithoutConstructors { type_keyword, name, type_variables, semicolon } => {
            let mut items = gen_token(&type_keyword.0, "type");
            put_all(&mut items, space());
            put_all(&mut items, gen_proper_name(name));
            put_all(&mut items, gen_type_variables(type_variables));
            put_all(&mut items, gen_token(&semicolon.0, ";"));
            items
        },
        TypeDeclaration::WithConstructors {
            type_keyword,
            name,
            type_variables,
            equals,
            head_constructor,
            tail_constructors,
            semicolon,
        } => {
            let mut items = gen_token(&type_keyword.0, "type");
            put_all(&mut items, space());
            put_all(&mut items, gen_proper_name(name));
            put_all(&mut items, gen_type_variables(type_variables));
            put_all(&mut items, space());
            put_all(&mut items, gen_token(&equals.0, "="));
            put(&mut items, Item::SpaceOrNewLine);
            put(&mut items, Item::Indent(gen_constructors(head_constructor, tail_constructors)));
            put_all(&mut items, gen_token(&semicolon.0, ";"));
            assert(pieces(items@) =~= type_declaration_layout(*type_declaration));
            items
        },
    }
}

/// See [`foreign_value_declaration_layout`].
pub fn gen_foreign_value_declaration(decl: &ForeignValueDeclaration) -> (items: Vec<Item>)
    ensures
        pieces(items@) == foreign_value_declaration_layout(*decl),
{
    let mut items = gen_token(&decl.foreign_keyword.0, "foreign");
    put_all(&mut items, space());
    put_all(&mut items, gen_name(&decl.name));
    put_all(&mut items, gen_type_annotation(&decl.type_annotation));
    put_all(&mut items, gen_token(&decl.semicolon.0, ";"));
    items
}

} // verus!
