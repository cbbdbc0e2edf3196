//! What it means that syntax carries comments: one of its words does.

use crate::cst::words::{annotation_words, expression_tail_words, expression_words, name_word, optional_annotation_words, optional_expressions_words, optional_parameters_words, optional_types_words, parameter_tail_words, parameter_words, qualifier_words, trailing_comma_words, type_tail_words, type_words, types_words, word, Word};
use crate::cst::{CommaSep1, Expression, Parameter, ProperName, Type, TypeAnnotation, TypeCallFunction};
use crate::fmt::has_comments::{expression_comments, expression_leading_comments, optional_expressions_comments, type_comments, type_leading_comments, types_comments, HasComments};
use crate::token::{Comma, Dot};
use vstd::prelude::*;

verus! {

/// The word carries a comment, above or behind it.
pub open spec fn commented(w: Word) -> bool {
    w.leading.len() > 0 || w.trailing is Some
}

/// One of the words carries a comment.
pub open spec fn any_commented(ws: Seq<Word>) -> bool {
    exists|i: int| 0 <= i < ws.len() && commented(#[trigger] ws[i])
}

/// Words carry a comment where the first or the second run of them does.
pub proof fn lemma_any_of_both(a: Seq<Word>, b: Seq<Word>)
    ensures
        any_commented(a + b) == (any_commented(a) || any_commented(b)),
{
    let all = a + b;
    if any_commented(all) {
        let i = choose|i: int| 0 <= i < all.len() && commented(#[trigger] all[i]);
        if i < a.len() {
            assert(commented(a[i]));
        } else {
            assert(commented(b[i - a.len()]));
        }
    }
    if any_commented(a) {
        let i = choose|i: int| 0 <= i < a.len() && commented(#[trigger] a[i]);
        assert(commented(all[i]));
    }
    if any_commented(b) {
        let i = choose|i: int| 0 <= i < b.len() && commented(#[trigger] b[i]);
        assert(commented(all[a.len() + i]));
    }
}

/// No words carry no comment.
pub proof fn lemma_any_of_none()
    ensures
        !any_commented(Seq::<Word>::empty()),
{
}

/// One word carries a comment where it does.
pub proof fn lemma_any_of_one(w: Word)
    ensures
        any_commented(seq![w]) == commented(w),
{
    if commented(w) {
        assert(commented(seq![w][0]));
    }
}

/// Two words carry a comment where one of them does.
pub proof fn lemma_any_of_two(v: Word, w: Word)
    ensures
        any_commented(seq![v, w]) == (commented(v) || commented(w)),
{
    assert(seq![v, w] =~= seq![v] + seq![w]);
    lemma_any_of_both(seq![v], seq![w]);
    lemma_any_of_one(v);
    lemma_any_of_one(w);
}

proof fn lemma_qualifier(module_name: Option<(ProperName, Dot)>)
    ensures
        any_commented(qualifier_words(module_name)) == module_name.comments(),
{
    match module_name {
        Some((name, dot)) => {
            lemma_any_of_two(name_word(name.0), word(dot.0, "."@));
        },
        None => {
            lemma_any_of_none();
        },
    }
}

proof fn lemma_trailing_comma(comma: Option<Comma>)
    ensures
        any_commented(trailing_comma_words(comma)) == comma.comments(),
{
    match comma {
        Some(comma) => {
            lemma_any_of_one(word(comma.0, ","@));
        },
        None => {
            lemma_any_of_none();
        },
    }
}

proof fn lemma_type_tail(tail: Vec<(Comma, Box<Type>)>, n: nat)
    requires
        n <= tail@.len(),
    ensures
        any_commented(type_tail_words(tail, n)) == exists|i: int|
            0 <= i < n && ((#[trigger] tail@[i]).0.comments() || type_comments(*tail@[i].1)),
    decreases tail, n,
{
    if n == 0 {
        lemma_any_of_none();
    } else {
        lemma_type_tail(tail, (n - 1) as nat);
        lemma_type_comments(*tail@[n - 1].1);
        let before = type_tail_words(tail, (n - 1) as nat);
        let comma = seq![word(tail@[n - 1].0.0, ","@)];
        lemma_any_of_one(word(tail@[n - 1].0.0, ","@));
        lemma_any_of_both(before, comma);
        lemma_any_of_both(before + comma, type_words(*tail@[n - 1].1));
        if exists|i: int|
            0 <= i < n && ((#[trigger] tail@[i]).0.comments() || type_comments(*tail@[i].1)) {
            let i = choose|i: int|
                0 <= i < n && ((#[trigger] tail@[i]).0.comments() || type_comments(*tail@[i].1));
            if i < n - 1 {
                assert(tail@[i].0.comments() || type_comments(*tail@[i].1));
            }
        }
        if any_commented(before) {
            let i = choose|i: int|
                0 <= i < n - 1 && ((#[trigger] tail@[i]).0.comments() || type_comments(
                    *tail@[i].1,
                ));
            assert(0 <= i < n);
        }
        if tail@[n - 1].0.comments() || type_comments(*tail@[n - 1].1) {
            assert(0 <= n - 1 < n);
        }
    }
}

proof fn lemma_types(list: CommaSep1<Box<Type>>)
    ensures
        any_commented(types_words(list)) == types_comments(list),
    decreases list,
{
    lemma_type_comments(*list.head);
    lemma_type_tail(list.tail, list.tail@.len());
    lemma_trailing_comma(list.trailing_comma);
    let head = type_words(*list.head);
    let tail = type_tail_words(list.tail, list.tail@.len());
    lemma_any_of_both(head, tail);
    lemma_any_of_both(head + tail, trailing_comma_words(list.trailing_comma));
}

/// A type carries a comment where one of its words does.
pub proof fn lemma_type_comments(t: Type)
    ensures
        type_comments(t) == any_commented(type_words(t)),
    decreases t,
{
    match t {
        Type::Parens(parens) => {
            lemma_type_comments(*parens.value);
            let open = seq![word(parens.open_paren.0, "("@)];
            let close = seq![word(parens.close_paren.0, ")"@)];
            lemma_any_of_one(word(parens.open_paren.0, "("@));
            lemma_any_of_one(word(parens.close_paren.0, ")"@));
            lemma_any_of_both(open, type_words(*parens.value));
            lemma_any_of_both(open + type_words(*parens.value), close);
        },
        Type::Call { function, arguments } => {
            let front = match function {
                TypeCallFunction::Constructor(constructor) => qualifier_words(
                    constructor.module_name,
                ) + seq![name_word(constructor.value.0)],
                TypeCallFunction::Variable(variable) => seq![name_word(variable.0)],
            };
            match function {
                TypeCallFunction::Constructor(constructor) => {
                    lemma_qualifier(constructor.module_name);
                    lemma_any_of_one(name_word(constructor.value.0));
                    lemma_any_of_both(
                        qualifier_words(constructor.module_name),
                        seq![name_word(constructor.value.0)],
                    );
                },
                TypeCallFunction::Variable(variable) => {
                    lemma_any_of_one(name_word(variable.0));
                },
            }
            lemma_types(arguments.value);
            let open = seq![word(arguments.open_paren.0, "("@)];
            let close = seq![word(arguments.close_paren.0, ")"@)];
            lemma_any_of_one(word(arguments.open_paren.0, "("@));
            lemma_any_of_one(word(arguments.close_paren.0, ")"@));
            lemma_any_of_both(front, open);
            lemma_any_of_both(front + open, types_words(arguments.value));
            lemma_any_of_both(front + open + types_words(arguments.value), close);
        },
        Type::Function { parameters, right_arrow, return_type } => {
            lemma_type_comments(*return_type);
            let open = seq![word(parameters.open_paren.0, "("@)];
            let inner = optional_types_words(parameters.value);
            let close = seq![
                word(parameters.close_paren.0, ")"@),
                word(right_arrow.0, "->"@),
            ];
            match parameters.value {
                Some(list) => {
                    lemma_types(list);
                },
                None => {
                    lemma_any_of_none();
                },
            }
            lemma_any_of_one(word(parameters.open_paren.0, "("@));
            lemma_any_of_two(word(parameters.close_paren.0, ")"@), word(right_arrow.0, "->"@));
            lemma_any_of_both(open, inner);
            lemma_any_of_both(open + inner, close);
            lemma_any_of_both(open + inner + close, type_words(*return_type));
        },
        Type::Constructor(constructor) => {
            lemma_qualifier(constructor.module_name);
            lemma_any_of_one(name_word(constructor.value.0));
            lemma_any_of_both(
                qualifier_words(constructor.module_name),
                seq![name_word(constructor.value.0)],
            );
        },
        Type::Variable(variable) => {
            lemma_any_of_one(name_word(variable.0));
        },
    }
}

/// A type has comments above it where its first word has.
pub proof fn lemma_type_leading_comments(t: Type)
    ensures
        type_words(t).len() > 0,
        type_leading_comments(t) == (type_words(t)[0].leading.len() > 0),
{
    match t {
        Type::Call { function, arguments } => {
            match function {
                TypeCallFunction::Constructor(constructor) => {
                    match constructor.module_name {
                        Some((name, dot)) => {},
                        None => {},
                    }
                },
                TypeCallFunction::Variable(variable) => {},
            }
        },
        Type::Constructor(constructor) => {
            match constructor.module_name {
                Some((name, dot)) => {},
                None => {},
            }
        },
        _ => {},
    }
}

proof fn lemma_annotation(annotation: TypeAnnotation)
    ensures
        any_commented(annotation_words(annotation)) == annotation.comments(),
{
    lemma_type_comments(annotation.1);
    lemma_any_of_one(word(annotation.0.0, ":"@));
    lemma_any_of_both(seq![word(annotation.0.0, ":"@)], type_words(annotation.1));
}

proof fn lemma_optional_annotation(annotation: Option<TypeAnnotation>)
    ensures
        any_commented(optional_annotation_words(annotation)) == annotation.comments(),
{
    match annotation {
        Some(annotation) => {
            lemma_annotation(annotation);
        },
        None => {
            lemma_any_of_none();
        },
    }
}

proof fn lemma_parameter(parameter: Parameter)
    ensures
        any_commented(parameter_words(parameter)) == parameter.comments(),
{
    lemma_optional_annotation(parameter.1);
    lemma_any_of_one(name_word(parameter.0.0));
    lemma_any_of_both(seq![name_word(parameter.0.0)], optional_annotation_words(parameter.1));
}

proof fn lemma_parameter_tail(tail: Seq<(Comma, Parameter)>, n: nat)
    requires
        n <= tail.len(),
    ensures
        any_commented(parameter_tail_words(tail, n)) == exists|i: int|
            0 <= i < n && (#[trigger] tail[i]).comments(),
    decreases n,
{
    if n == 0 {
        lemma_any_of_none();
    } else {
        lemma_parameter_tail(tail, (n - 1) as nat);
        lemma_parameter(tail[n - 1].1);
        let before = parameter_tail_words(tail, (n - 1) as nat);
        let comma = seq![word(tail[n - 1].0.0, ","@)];
        lemma_any_of_one(word(tail[n - 1].0.0, ","@));
        lemma_any_of_both(before, comma);
        lemma_any_of_both(before + comma, parameter_words(tail[n - 1].1));
        if exists|i: int| 0 <= i < n && (#[trigger] tail[i]).comments() {
            let i = choose|i: int| 0 <= i < n && (#[trigger] tail[i]).comments();
            if i < n - 1 {
                assert(tail[i].comments());
            }
        }
        if any_commented(before) {
            let i = choose|i: int| 0 <= i < n - 1 && (#[trigger] tail[i]).comments();
            assert(0 <= i < n);
        }
        if tail[n - 1].comments() {
            assert(0 <= n - 1 < n);
        }
    }
}

proof fn lemma_optional_parameters(list: Option<CommaSep1<Parameter>>)
    ensures
        any_commented(optional_parameters_words(list)) == list.comments(),
{
    match list {
        Some(list) => {
            lemma_parameter(list.head);
            lemma_parameter_tail(list.tail@, list.tail@.len());
            lemma_trailing_comma(list.trailing_comma);
            let head = parameter_words(list.head);
            let tail = parameter_tail_words(list.tail@, list.tail@.len());
            lemma_any_of_both(head, tail);
            lemma_any_of_both(head + tail, trailing_comma_words(list.trailing_comma));
        },
        None => {
            lemma_any_of_none();
        },
    }
}

proof fn lemma_expression_tail(tail: Vec<(Comma, Box<Expression>)>, n: nat)
    requires
        n <= tail@.len(),
    ensures
        any_commented(expression_tail_words(tail, n)) == exists|i: int|
            0 <= i < n && ((#[trigger] tail@[i]).0.comments() || expression_comments(
                *tail@[i].1,
            )),
    decreases tail, n,
{
    if n == 0 {
        lemma_any_of_none();
    } else {
        lemma_expression_tail(tail, (n - 1) as nat);
        lemma_expression_comments(*tail@[n - 1].1);
        let before = expression_tail_words(tail, (n - 1) as nat);
        let comma = seq![word(tail@[n - 1].0.0, ","@)];
        lemma_any_of_one(word(tail@[n - 1].0.0, ","@));
        lemma_any_of_both(before, comma);
        lemma_any_of_both(before + comma, expression_words(*tail@[n - 1].1));
        if exists|i: int|
            0 <= i < n && ((#[trigger] tail@[i]).0.comments() || expression_comments(
                *tail@[i].1,
            )) {
            let i = choose|i: int|
                0 <= i < n && ((#[trigger] tail@[i]).0.comments() || expression_comments(
                    *tail@[i].1,
                ));
            if i < n - 1 {
                assert(tail@[i].0.comments() || expression_comments(*tail@[i].1));
            }
        }
        if any_commented(before) {
            let i = choose|i: int|
                0 <= i < n - 1 && ((#[trigger] tail@[i]).0.comments() || expression_comments(
                    *tail@[i].1,
                ));
            assert(0 <= i < n);
        }
        if tail@[n - 1].0.comments() || expression_comments(*tail@[n - 1].1) {
            assert(0 <= n - 1 < n);
        }
    }
}

proof fn lemma_optional_expressions(list: Option<CommaSep1<Box<Expression>>>)
    ensures
        any_commented(optional_expressions_words(list)) == optional_expressions_comments(list),
    decreases list,
{
    match list {
        Some(list) => {
            lemma_expression_comments(*list.head);
            lemma_expression_tail(list.tail, list.tail@.len());
            lemma_trailing_comma(list.trailing_comma);
            let head = expression_words(*list.head);
            let tail = expression_tail_words(list.tail, list.tail@.len());
            lemma_any_of_both(head, tail);
            lemma_any_of_both(head + tail, trailing_comma_words(list.trailing_comma));
        },
        None => {
            lemma_any_of_none();
        },
    }
}

/// An expression carries a comment where one of its words does.
pub proof fn lemma_expression_comments(e: Expression)
    ensures
        expression_comments(e) == any_commented(expression_words(e)),
    decreases e,
{
    match e {
        Expression::Parens(parens) => {
            lemma_expression_comments(*parens.value);
            let open = seq![word(parens.open_paren.0, "("@)];
            let close = seq![word(parens.close_paren.0, ")"@)];
            lemma_any_of_one(word(parens.open_paren.0, "("@));
            lemma_any_of_one(word(parens.close_paren.0, ")"@));
            lemma_any_of_both(open, expression_words(*parens.value));
            lemma_any_of_both(open + expression_words(*parens.value), close);
        },
        Expression::Function { parameters, return_type_annotation, right_arrow, body } => {
            lemma_expression_comments(*body);
            lemma_optional_parameters(parameters.value);
            lemma_optional_annotation(*return_type_annotation);
            let open = seq![word(parameters.open_paren.0, "("@)];
            let inner = optional_parameters_words(parameters.value);
            let close = seq![word(parameters.close_paren.0, ")"@)];
            let annotation = optional_annotation_words(*return_type_annotation);
            let arrow = seq![word(right_arrow.0, "->"@)];
            lemma_any_of_one(word(parameters.open_paren.0, "("@));
            lemma_any_of_one(word(parameters.close_paren.0, ")"@));
            lemma_any_of_one(word(right_arrow.0, "->"@));
            lemma_any_of_both(open, inner);
            lemma_any_of_both(open + inner, close);
            lemma_any_of_both(open + inner + close, annotation);
            lemma_any_of_both(open + inner + close + annotation, arrow);
            lemma_any_of_both(open + inner + close + annotation + arrow, expression_words(*body));
        },
        Expression::Call { function, arguments } => {
            lemma_expression_comments(*function);
            lemma_optional_expressions(arguments.value);
            let front = expression_words(*function);
            let open = seq![word(arguments.open_paren.0, "("@)];
            let inner = optional_expressions_words(arguments.value);
            let close = seq![word(arguments.close_paren.0, ")"@)];
            lemma_any_of_one(word(arguments.open_paren.0, "("@));
            lemma_any_of_one(word(arguments.close_paren.0, ")"@));
            lemma_any_of_both(front, open);
            lemma_any_of_both(front + open, inner);
            lemma_any_of_both(front + open + inner, close);
        },
        Expression::If {
            if_keyword,
            condition,
            then_keyword,
            true_clause,
            else_keyword,
            false_clause,
        } => {
            lemma_expression_comments(*condition);
            lemma_expression_comments(*true_clause);
            lemma_expression_comments(*false_clause);
            let a = seq![word(if_keyword.0, "if"@)];
            let b = expression_words(*condition);
            let c = seq![word(then_keyword.0, "then"@)];
            let d = expression_words(*true_clause);
            let f = seq![word(else_keyword.0, "else"@)];
            lemma_any_of_one(word(if_keyword.0, "if"@));
            lemma_any_of_one(word(then_keyword.0, "then"@));
            lemma_any_of_one(word(else_keyword.0, "else"@));
            lemma_any_of_both(a, b);
            lemma_any_of_both(a + b, c);
            lemma_any_of_both(a + b + c, d);
            lemma_any_of_both(a + b + c + d, f);
            lemma_any_of_both(a + b + c + d + f, expression_words(*false_clause));
        },
        Expression::Constructor(constructor) => {
            lemma_qualifier(constructor.module_name);
            lemma_any_of_one(name_word(constructor.value.0));
            lemma_any_of_both(
                qualifier_words(constructor.module_name),
                seq![name_word(constructor.value.0)],
            );
        },
        Expression::Variable(variable) => {
            lemma_qualifier(variable.module_name);
            lemma_any_of_one(name_word(variable.value.0));
            lemma_any_of_both(
                qualifier_words(variable.module_name),
                seq![name_word(variable.value.0)],
            );
        },
        Expression::Unit(keyword) => {
            lemma_any_of_one(word(keyword.0, "unit"@));
        },
        Expression::True(keyword) => {
            lemma_any_of_one(word(keyword.0, "true"@));
        },
        Expression::False(keyword) => {
            lemma_any_of_one(word(keyword.0, "false"@));
        },
        Expression::String(token) => {
            lemma_any_of_one(crate::cst::words::string_word(token));
        },
        Expression::Int(token) => {
            lemma_any_of_one(name_word(token));
        },
        Expression::Float(token) => {
            lemma_any_of_one(name_word(token));
        },
        Expression::Array(brackets) => {
            lemma_optional_expressions(brackets.value);
            let open = seq![word(brackets.open_bracket.0, "["@)];
            let inner = optional_expressions_words(brackets.value);
            let close = seq![word(brackets.close_bracket.0, "]"@)];
            lemma_any_of_one(word(brackets.open_bracket.0, "["@));
            lemma_any_of_one(word(brackets.close_bracket.0, "]"@));
            lemma_any_of_both(open, inner);
            lemma_any_of_both(open + inner, close);
        },
    }
}

/// An expression has comments above it where its first word has.
pub proof fn lemma_expression_leading_comments(e: Expression)
    ensures
        expression_words(e).len() > 0,
        expression_leading_comments(e) == (expression_words(e)[0].leading.len() > 0),
    decreases e,
{
    match e {
        Expression::Call { function, arguments } => {
            lemma_expression_leading_comments(*function);
        },
        Expression::Constructor(constructor) => {
            match constructor.module_name {
                Some((name, dot)) => {},
                None => {},
            }
        },
        Expression::Variable(variable) => {
            match variable.module_name {
                Some((name, dot)) => {},
                None => {},
            }
        },
        _ => {},
    }
}

} // verus!
