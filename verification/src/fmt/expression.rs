//! The layouts of expressions.

use crate::cst::{CommaSep1, Expression, Parameter};
use crate::fmt::has_comments::{expression_leading_comments, expressions_comments, expressions_have_comments, HasComments};
use crate::fmt::items::{copy_items, pieces, put, put_all, Item, Piece};
use crate::fmt::layout::{comma_layouts, gen_commas, gen_list, gen_string_token, gen_token, gen_trailing_comma, group, group_layout, list_layout, nothing, space, space_layout, token_layout, trailing_comma_layout, Contents, ListContents};
use crate::fmt::name::{gen_name, gen_qualified_name, gen_qualified_proper_name, name_layout, qualified_name_layout, qualified_proper_name_layout};
use crate::fmt::types::{gen_optional_annotation, optional_annotation_layout};
use vstd::prelude::*;
use vstd::string::StringExecFns;

verus! {

/// A parameter of a function: its name, and its type where it has one.
pub open spec fn parameter_layout(parameter: Parameter) -> Seq<Piece> {
    name_layout(parameter.0) + optional_annotation_layout(parameter.1)
}

/// The parameters of a function, laid out one by one.
pub open spec fn parameter_contents(list: CommaSep1<Parameter>) -> Contents {
    Contents {
        elements: Seq::new(
            list.tail@.len() + 1,
            |i: int|
                if i == 0 {
                    parameter_layout(list.head)
                } else {
                    parameter_layout(list.tail@[i - 1].1)
                },
        ),
        commas: comma_layouts(list.tail@),
        trailing_comma: trailing_comma_layout(list.trailing_comma),
    }
}

/// The expressions of a list, laid out one by one, each as a group of its own.
pub open spec fn expression_contents(list: CommaSep1<Box<Expression>>) -> Contents
    decreases list,
{
    Contents {
        elements: Seq::new(
            list.tail@.len() + 1,
            |i: int|
                if i == 0 {
                    seq![Piece::NewLineGroup(expression_layout(*list.head))]
                } else if 0 < i <= list.tail@.len() {
                    seq![Piece::NewLineGroup(expression_layout(*list.tail@[i - 1].1))]
                } else {
                    Seq::empty()
                },
        ),
        commas: comma_layouts(list.tail@),
        trailing_comma: trailing_comma_layout(list.trailing_comma),
    }
}

/// The expressions of a list that may be empty.
pub open spec fn optional_expression_contents(
    list: Option<CommaSep1<Box<Expression>>>,
) -> Option<Contents>
    decreases list,
{
    match list {
        Some(list) => Some(expression_contents(list)),
        None => None,
    }
}

/// Some expression of a list that may be empty carries a comment.
pub open spec fn optional_expressions_commented(list: Option<CommaSep1<Box<Expression>>>) -> bool {
    match list {
        Some(list) => expressions_comments(list),
        None => false,
    }
}

/// A conditional whose three parts stand on lines of their own.
pub open spec fn conditional_lines(
    condition: Seq<Piece>,
    then_keyword: Seq<Piece>,
    true_clause: Seq<Piece>,
    else_keyword: Seq<Piece>,
    false_clause: Seq<Piece>,
) -> Seq<Piece> {
    space_layout() + condition + space_layout() + then_keyword + seq![
        Piece::NewLine,
        Piece::Indent(true_clause),
        Piece::ExpectNewLine,
    ] + else_keyword + seq![Piece::NewLine, Piece::Indent(false_clause)]
}

/// A conditional on one line.
pub open spec fn conditional_line(
    condition: Seq<Piece>,
    then_keyword: Seq<Piece>,
    true_clause: Seq<Piece>,
    else_keyword: Seq<Piece>,
    false_clause: Seq<Piece>,
) -> Seq<Piece> {
    seq![Piece::SpaceOrNewLine] + condition + seq![Piece::SpaceOrNewLine] + then_keyword + seq![
        Piece::SpaceOrNewLine,
    ] + true_clause + seq![Piece::SpaceOrNewLine] + else_keyword + seq![Piece::SpaceOrNewLine]
        + false_clause
}

/// An expression.
///
/// A conditional takes one line where it fits, and else a line for each of
/// its parts; a comment behind `if` asks for the lines. The body of a
/// function follows the arrow on its line where it fits; a comment behind the
/// arrow or above the body puts the body on a line of its own.
pub open spec fn expression_layout(e: Expression) -> Seq<Piece>
    decreases e,
{
    match e {
        Expression::Parens(parens) => token_layout(parens.open_paren.0, "("@) + expression_layout(
            *parens.value,
        ) + token_layout(parens.close_paren.0, ")"@),
        Expression::True(keyword) => token_layout(keyword.0, "true"@),
        Expression::False(keyword) => token_layout(keyword.0, "false"@),
        Expression::Unit(keyword) => token_layout(keyword.0, "unit"@),
        Expression::Constructor(constructor) => qualified_proper_name_layout(constructor),
        Expression::Variable(variable) => qualified_name_layout(variable),
        Expression::Float(token) => token_layout(token, token.value@),
        Expression::Int(token) => token_layout(token, token.value@),
        Expression::String(token) => token_layout(token, "\""@ + token.value@ + "\""@),
        Expression::Array(brackets) => list_layout(
            brackets.open_bracket.0,
            "["@,
            optional_expression_contents(brackets.value),
            optional_expressions_commented(brackets.value),
            brackets.close_bracket.0,
            "]"@,
        ),
        Expression::If {
            if_keyword,
            condition,
            then_keyword,
            true_clause,
            else_keyword,
            false_clause,
        } => {
            let lines = conditional_lines(
                expression_layout(*condition),
                token_layout(then_keyword.0, "then"@),
                expression_layout(*true_clause),
                token_layout(else_keyword.0, "else"@),
                expression_layout(*false_clause),
            );
            let line = conditional_line(
                expression_layout(*condition),
                token_layout(then_keyword.0, "then"@),
                expression_layout(*true_clause),
                token_layout(else_keyword.0, "else"@),
                expression_layout(*false_clause),
            );
            token_layout(if_keyword.0, "if"@) + (if if_keyword.0.trailing() is Some {
                lines
            } else {
                seq![Piece::IfMultipleLines { multi: lines, single: line, rest: Seq::empty() }]
            })
        },
        Expression::Function { parameters, return_type_annotation, right_arrow, body } => {
            list_layout(
                parameters.open_paren.0,
                "("@,
                match parameters.value {
                    Some(list) => Some(parameter_contents(list)),
                    None => None,
                },
                parameters.value.comments(),
                parameters.close_paren.0,
                ")"@,
            ) + optional_annotation_layout(*return_type_annotation) + space_layout()
                + token_layout(right_arrow.0, "->"@) + group_layout(
                expression_layout(*body),
                right_arrow.0.trailing() is Some || expression_leading_comments(*body),
            )
        },
        Expression::Call { function, arguments } => expression_layout(*function) + list_layout(
            arguments.open_paren.0,
            "("@,
            optional_expression_contents(arguments.value),
            optional_expressions_commented(arguments.value),
            arguments.close_paren.0,
            ")"@,
        ),
    }
}

fn gen_parameter(parameter: &Parameter) -> (items: Vec<Item>)
    ensures
        pieces(items@) == parameter_layout(*parameter),
{
    let mut items = gen_name(&parameter.0);
    put_all(&mut items, gen_optional_annotation(&parameter.1));
    items
}

fn gen_parameter_contents(list: &CommaSep1<Parameter>) -> (contents: ListContents)
    ensures
        contents@ == parameter_contents(*list),
        contents@.wf(),
{
    let mut elements: Vec<Vec<Item>> = Vec::new();
    elements.push(gen_parameter(&list.head));
    let mut i: usize = 0;
    while i < list.tail.len()
        invariant
            i <= list.tail.len(),
            elements.len() == i + 1,
            pieces(elements@[0]@) == parameter_layout(list.head),
            forall|j: int|
                0 < j <= i ==> pieces(elements@[j]@) == parameter_layout(list.tail@[j - 1].1),
        decreases list.tail.len() - i,
    {
        elements.push(gen_parameter(&list.tail[i].1));
        i += 1;
    }
    let contents = ListContents {
        elements,
        commas: gen_commas(&list.tail),
        trailing_comma: gen_trailing_comma(&list.trailing_comma),
    };
    assert(contents@.elements =~= parameter_contents(*list).elements);
    contents
}

fn gen_element(e: &Expression) -> (items: Vec<Item>)
    ensures
        pieces(items@) == seq![Piece::NewLineGroup(expression_layout(*e))],
    decreases e, 1int,
{
    let mut items = nothing();
    put(&mut items, Item::NewLineGroup(gen_expression(e)));
    items
}

fn gen_expression_contents(list: &CommaSep1<Box<Expression>>) -> (contents: ListContents)
    ensures
        contents@ == expression_contents(*list),
        contents@.wf(),
    decreases list, 0int,
{
    let mut elements: Vec<Vec<Item>> = Vec::new();
    elements.push(gen_element(&list.head));
    let mut i: usize = 0;
    while i < list.tail.len()
        invariant
            i <= list.tail.len(),
            elements.len() == i + 1,
            pieces(elements@[0]@) == seq![Piece::NewLineGroup(expression_layout(*list.head))],
            forall|j: int|
                0 < j <= i ==> pieces(elements@[j]@) == seq![
                    Piece::NewLineGroup(expression_layout(*list.tail@[j - 1].1)),
                ],
        decreases list.tail.len() - i,
    {
        elements.push(gen_element(&list.tail[i].1));
        i += 1;
    }
    let contents = ListContents {
        elements,
        commas: gen_commas(&list.tail),
        trailing_comma: gen_trailing_comma(&list.trailing_comma),
    };
    assert(contents@.elements =~= expression_contents(*list).elements);
    contents
}

/// A bracketed list of expressions.
fn gen_expressions<V, W>(
    open: &crate::token::Token<V>,
    open_text: &str,
    list: &Option<CommaSep1<Box<Expression>>>,
    close: &crate::token::Token<W>,
    close_text: &str,
) -> (items: Vec<Item>)
    ensures
        pieces(items@) == list_layout(
            *open,
            open_text@,
            optional_expression_contents(*list),
            optional_expressions_commented(*list),
            *close,
            close_text@,
        ),
    decreases list, 1int,
{
    let (contents, commented) = match list {
        Some(list) => (Some(gen_expression_contents(list)), expressions_have_comments(list)),
        None => (None, false),
    };
    gen_list(open, open_text, &contents, commented, close, close_text)
}

/// See [`expression_layout`].
pub fn gen_expression(e: &Expression) -> (items: Vec<Item>)
    ensures
        pieces(items@) == expression_layout(*e),
    decreases e, 0int,
{
    match e {
        Expression::Parens(parens) => {
            let mut items = gen_token(&parens.open_paren.0, "(");
            put_all(&mut items, gen_expression(&parens.value));
            put_all(&mut items, gen_token(&parens.close_paren.0, ")"));
            items
        },
        Expression::True(keyword) => gen_token(&keyword.0, "true"),
        Expression::False(keyword) => gen_token(&keyword.0, "false"),
        Expression::Unit(keyword) => gen_token(&keyword.0, "unit"),
        Expression::Constructor(constructor) => gen_qualified_proper_name(constructor),
        Expression::Variable(variable) => gen_qualified_name(variable),
        Expression::Float(token) => gen_string_token(token),
        Expression::Int(token) => gen_string_token(token),
        Expression::String(token) => {
            let mut quoted = String::from_str("\"");
            quoted.append(token.value.as_str());
            quoted.append("\"");
            gen_token(token, quoted.as_str())
        },
        Expression::Array(brackets) => gen_expressions(
            &brackets.open_bracket.0,
            "[",
            &brackets.value,
            &brackets.close_bracket.0,
            "]",
        ),
        Expression::If {
            if_keyword,
            condition,
            then_keyword,
            true_clause,
            else_keyword,
            false_clause,
        } => {
            let condition = gen_expression(condition);
            let then_keyword = gen_token(&then_keyword.0, "then");
            let true_clause = gen_expression(true_clause);
            let else_keyword = gen_token(&else_keyword.0, "else");
            let false_clause = gen_expression(false_clause);
            let mut items = gen_token(&if_keyword.0, "if");
            let ghost front = pieces(items@);
            if if_keyword.0.has_trailing_comment() {
                put_all(
                    &mut items,
                    gen_conditional_lines(
                        condition,
                        then_keyword,
                        true_clause,
                        else_keyword,
                        false_clause,
                    ),
                );
            } else {
                let single = gen_conditional_line(
                    copy_items(&condition),
                    copy_items(&then_keyword),
                    copy_items(&true_clause),
                    copy_items(&else_keyword),
                    copy_items(&false_clause),
                );
                let multi = gen_conditional_lines(
                    condition,
                    then_keyword,
                    true_clause,
                    else_keyword,
                    false_clause,
                );
                let ghost choice = Piece::IfMultipleLines {
                    multi: pieces(multi@),
                    single: pieces(single@),
                    rest: Seq::empty(),
                };
                put(&mut items, Item::IfMultipleLines { multi, single, rest: nothing() });
                assert(pieces(items@) =~= front + seq![choice]);
            }
            items
        },
        Expression::Function { parameters, return_type_annotation, right_arrow, body } => {
            let (contents, commented) = match &parameters.value {
                Some(list) => (Some(gen_parameter_contents(list)), list.has_comments()),
                None => (None, false),
            };
            let mut items = gen_list(
                &parameters.open_paren.0,
                "(",
                &contents,
                commented,
                &parameters.close_paren.0,
                ")",
            );
            put_all(&mut items, gen_optional_annotation(return_type_annotation));
            put_all(&mut items, space());
            let right_arrow_has_trailing_comment = right_arrow.0.has_trailing_comment();
            put_all(&mut items, gen_token(&right_arrow.0, "->"));
            let body_has_leading_comments = body.has_leading_comments();
            put_all(
                &mut items,
                group(
                    gen_expression(body),
                    right_arrow_has_trailing_comment || body_has_leading_comments,
                ),
            );
            items
        },
        Expression::Call { function, arguments } => {
            let mut items = gen_expression(function);
            put_all(
                &mut items,
                gen_expressions(
                    &arguments.open_paren.0,
                    "(",
                    &arguments.value,
                    &arguments.close_paren.0,
                    ")",
                ),
            );
            items
        },
    }
}

fn gen_conditional_lines(
    condition: Vec<Item>,
    then_keyword: Vec<Item>,
    true_clause: Vec<Item>,
    else_keyword: Vec<Item>,
    false_clause: Vec<Item>,
) -> (items: Vec<Item>)
    ensures
        pieces(items@) == conditional_lines(
            pieces(condition@),
            pieces(then_keyword@),
            pieces(true_clause@),
            pieces(else_keyword@),
            pieces(false_clause@),
        ),
{
    let ghost wanted = conditional_lines(
        pieces(condition@),
        pieces(then_keyword@),
        pieces(true_clause@),
        pieces(else_keyword@),
        pieces(false_clause@),
    );
    let mut items = space();
    put_all(&mut items, condition);
    put_all(&mut items, space());
    put_all(&mut items, then_keyword);
    put(&mut items, Item::NewLine);
    put(&mut items, Item::Indent(true_clause));
    put(&mut items, Item::ExpectNewLine);
    put_all(&mut items, else_keyword);
    put(&mut items, Item::NewLine);
    put(&mut items, Item::Indent(false_clause));
    assert(pieces(items@) =~= wanted);
    items
}

fn gen_conditional_line(
    condition: Vec<Item>,
    then_keyword: Vec<Item>,
    true_clause: Vec<Item>,
    else_keyword: Vec<Item>,
    false_clause: Vec<Item>,
) -> (items: Vec<Item>)
    ensures
        pieces(items@) == conditional_line(
            pieces(condition@),
            pieces(then_keyword@),
            pieces(true_clause@),
            pieces(else_keyword@),
            pieces(false_clause@),
        ),
{
    let ghost wanted = conditional_line(
        pieces(condition@),
        pieces(then_keyword@),
        pieces(true_clause@),
        pieces(else_keyword@),
        pieces(false_clause@),
    );
    let mut items = nothing();
    put(&mut items, Item::SpaceOrNewLine);
    put_all(&mut items, condition);
    put(&mut items, Item::SpaceOrNewLine);
    put_all(&mut items, then_keyword);
    put(&mut items, Item::SpaceOrNewLine);
    put_all(&mut items, true_clause);
    put(&mut items, Item::SpaceOrNewLine);
    put_all(&mut items, else_keyword);
    put(&mut items, Item::SpaceOrNewLine);
    put_all(&mut items, false_clause);
    assert(pieces(items@) =~= wanted);
    items
}

} // verus!
