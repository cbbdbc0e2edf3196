//! The words of a syntax tree, in the order of the source: what reading a
//! text must keep, and all that it may keep.

use crate::cst::lexer::{Lexeme, LexemeKind};
use crate::cst::{CommaSep1, Constructor, Expression, ForeignValueDeclaration, Name, Parameter, ParensList1, ProperName, Type, TypeAnnotation, TypeCallFunction, TypeDeclaration, ValueDeclaration};
use crate::token::{comment_text, comment_texts, Comma, Dot, Pipe, Span, Token};
use vstd::prelude::*;

verus! {

/// A word of the source: where it stands, its text, whether the text stood
/// between quotes, and the comments around it.
pub struct Word {
    pub span: Span,
    pub leading: Seq<Seq<char>>,
    pub trailing: Option<Seq<char>>,
    pub text: Seq<char>,
    pub quoted: bool,
}

impl View for Lexeme {
    type V = Word;

    open spec fn view(&self) -> Word {
        Word {
            span: self.span,
            leading: comment_texts(self.leading_comments@),
            trailing: comment_text(self.trailing_comment),
            text: self.text@,
            quoted: self.kind == LexemeKind::String,
        }
    }
}

/// The words of lexemes.
pub open spec fn words(lexemes: Seq<Lexeme>) -> Seq<Word> {
    Seq::new(lexemes.len(), |i: int| lexemes[i]@)
}

/// The word of a token whose text is `text`.
pub open spec fn word<V>(token: Token<V>, text: Seq<char>) -> Word {
    Word { span: token.span, leading: token.leading(), trailing: token.trailing(), text, quoted: false }
}

/// The word of a token that holds its text.
pub open spec fn name_word(token: Token<String>) -> Word {
    word(token, token.value@)
}

/// The word of the token of a string literal.
pub open spec fn string_word(token: Token<String>) -> Word {
    Word { quoted: true, ..word(token, token.value@) }
}

/// The words of the qualifier of a name.
pub open spec fn qualifier_words(module_name: Option<(ProperName, Dot)>) -> Seq<Word> {
    match module_name {
        Some((name, dot)) => seq![name_word(name.0), word(dot.0, "."@)],
        None => Seq::empty(),
    }
}

/// The word of the comma behind the last value of a list.
pub open spec fn trailing_comma_words(comma: Option<Comma>) -> Seq<Word> {
    match comma {
        Some(comma) => seq![word(comma.0, ","@)],
        None => Seq::empty(),
    }
}

/// The words of the first `n` of the types that follow the first of a list,
/// each behind its comma.
pub open spec fn type_tail_words(tail: Vec<(Comma, Box<Type>)>, n: nat) -> Seq<Word>
    decreases tail, n,
{
    if n == 0 || n > tail@.len() {
        Seq::empty()
    } else {
        type_tail_words(tail, (n - 1) as nat) + seq![word(tail@[n - 1].0.0, ","@)] + type_words(
            *tail@[n - 1].1,
        )
    }
}

/// The words of a list of types.
pub open spec fn types_words(list: CommaSep1<Box<Type>>) -> Seq<Word>
    decreases list,
{
    type_words(*list.head) + type_tail_words(list.tail, list.tail@.len()) + trailing_comma_words(
        list.trailing_comma,
    )
}

/// The words of a list of types that may be empty.
pub open spec fn optional_types_words(list: Option<CommaSep1<Box<Type>>>) -> Seq<Word>
    decreases list,
{
    match list {
        Some(list) => types_words(list),
        None => Seq::empty(),
    }
}

/// The words of a type.
pub open spec fn type_words(t: Type) -> Seq<Word>
    decreases t,
{
    match t {
        Type::Parens(parens) => seq![word(parens.open_paren.0, "("@)] + type_words(*parens.value)
            + seq![word(parens.close_paren.0, ")"@)],
        Type::Call { function, arguments } => (match function {
            TypeCallFunction::Constructor(constructor) => qualifier_words(constructor.module_name)
                + seq![name_word(constructor.value.0)],
            TypeCallFunction::Variable(variable) => seq![name_word(variable.0)],
        }) + seq![word(arguments.open_paren.0, "("@)] + types_words(arguments.value) + seq![
            word(arguments.close_paren.0, ")"@),
        ],
        Type::Function { parameters, right_arrow, return_type } => seq![
            word(parameters.open_paren.0, "("@),
        ] + optional_types_words(parameters.value) + seq![
            word(parameters.close_paren.0, ")"@),
            word(right_arrow.0, "->"@),
        ] + type_words(*return_type),
        Type::Constructor(constructor) => qualifier_words(constructor.module_name) + seq![
            name_word(constructor.value.0),
        ],
        Type::Variable(variable) => seq![name_word(variable.0)],
    }
}

/// The words of a type annotation.
pub open spec fn annotation_words(annotation: TypeAnnotation) -> Seq<Word> {
    seq![word(annotation.0.0, ":"@)] + type_words(annotation.1)
}

/// The words of a type annotation that may be missing.
pub open spec fn optional_annotation_words(annotation: Option<TypeAnnotation>) -> Seq<Word> {
    match annotation {
        Some(annotation) => annotation_words(annotation),
        None => Seq::empty(),
    }
}

/// The words of a parameter.
pub open spec fn parameter_words(parameter: Parameter) -> Seq<Word> {
    seq![name_word(parameter.0.0)] + optional_annotation_words(parameter.1)
}

/// The words of the first `n` of the parameters that follow the first.
pub open spec fn parameter_tail_words(tail: Seq<(Comma, Parameter)>, n: nat) -> Seq<Word>
    decreases n,
{
    if n == 0 || n > tail.len() {
        Seq::empty()
    } else {
        parameter_tail_words(tail, (n - 1) as nat) + seq![word(tail[n - 1].0.0, ","@)]
            + parameter_words(tail[n - 1].1)
    }
}

/// The words of a list of parameters that may be empty.
pub open spec fn optional_parameters_words(list: Option<CommaSep1<Parameter>>) -> Seq<Word> {
    match list {
        Some(list) => parameter_words(list.head) + parameter_tail_words(
            list.tail@,
            list.tail@.len(),
        ) + trailing_comma_words(list.trailing_comma),
        None => Seq::empty(),
    }
}

/// The words of the first `n` of the names that follow the first.
pub open spec fn name_tail_words(tail: Seq<(Comma, Name)>, n: nat) -> Seq<Word>
    decreases n,
{
    if n == 0 || n > tail.len() {
        Seq::empty()
    } else {
        name_tail_words(tail, (n - 1) as nat) + seq![
            word(tail[n - 1].0.0, ","@),
            name_word(tail[n - 1].1.0),
        ]
    }
}

/// The words of a parenthesized list of names.
pub open spec fn names_words(list: ParensList1<Name>) -> Seq<Word> {
    seq![word(list.open_paren.0, "("@), name_word(list.value.head.0)] + name_tail_words(
        list.value.tail@,
        list.value.tail@.len(),
    ) + trailing_comma_words(list.value.trailing_comma) + seq![word(list.close_paren.0, ")"@)]
}

/// The words of the first `n` of the expressions that follow the first of a list.
pub open spec fn expression_tail_words(tail: Vec<(Comma, Box<Expression>)>, n: nat) -> Seq<Word>
    decreases tail, n,
{
    if n == 0 || n > tail@.len() {
        Seq::empty()
    } else {
        expression_tail_words(tail, (n - 1) as nat) + seq![word(tail@[n - 1].0.0, ","@)]
            + expression_words(*tail@[n - 1].1)
    }
}

/// The words of a list of expressions that may be empty.
pub open spec fn optional_expressions_words(list: Option<CommaSep1<Box<Expression>>>) -> Seq<Word>
    decreases list,
{
    match list {
        Some(list) => expression_words(*list.head) + expression_tail_words(
            list.tail,
            list.tail@.len(),
        ) + trailing_comma_words(list.trailing_comma),
        None => Seq::empty(),
    }
}

/// The words of an expression.
pub open spec fn expression_words(e: Expression) -> Seq<Word>
    decreases e,
{
    match e {
        Expression::Parens(parens) => seq![word(parens.open_paren.0, "("@)] + expression_words(
            *parens.value,
        ) + seq![word(parens.close_paren.0, ")"@)],
        Expression::Function { parameters, return_type_annotation, right_arrow, body } => seq![
            word(parameters.open_paren.0, "("@),
        ] + optional_parameters_words(parameters.value) + seq![
            word(parameters.close_paren.0, ")"@),
        ] + optional_annotation_words(*return_type_annotation) + seq![word(right_arrow.0, "->"@)]
            + expression_words(*body),
        Expression::Call { function, arguments } => expression_words(*function) + seq![
            word(arguments.open_paren.0, "("@),
        ] + optional_expressions_words(arguments.value) + seq![word(arguments.close_paren.0, ")"@)],
        Expression::If {
            if_keyword,
            condition,
            then_keyword,
            true_clause,
            else_keyword,
            false_clause,
        } => seq![word(if_keyword.0, "if"@)] + expression_words(*condition) + seq![
            word(then_keyword.0, "then"@),
        ] + expression_words(*true_clause) + seq![word(else_keyword.0, "else"@)]
            + expression_words(*false_clause),
        Expression::Constructor(constructor) => qualifier_words(constructor.module_name) + seq![
            name_word(constructor.value.0),
        ],
        Expression::Variable(variable) => qualifier_words(variable.module_name) + seq![
            name_word(variable.value.0),
        ],
        Expression::Unit(keyword) => seq![word(keyword.0, "unit"@)],
        Expression::True(keyword) => seq![word(keyword.0, "true"@)],
        Expression::False(keyword) => seq![word(keyword.0, "false"@)],
        Expression::String(token) => seq![string_word(token)],
        Expression::Int(token) => seq![name_word(token)],
        Expression::Float(token) => seq![name_word(token)],
        Expression::Array(brackets) => seq![word(brackets.open_bracket.0, "["@)]
            + optional_expressions_words(brackets.value) + seq![
            word(brackets.close_bracket.0, "]"@),
        ],
    }
}

/// The words of the fields of a constructor.
pub open spec fn fields_words(fields: Option<ParensList1<Box<Type>>>) -> Seq<Word> {
    match fields {
        Some(fields) => seq![word(fields.open_paren.0, "("@)] + types_words(fields.value) + seq![
            word(fields.close_paren.0, ")"@),
        ],
        None => Seq::empty(),
    }
}

/// The word of the pipe before a first constructor, where there is one.
pub open spec fn optional_pipe_words(pipe: Option<Pipe>) -> Seq<Word> {
    match pipe {
        Some(pipe) => seq![word(pipe.0, "|"@)],
        None => Seq::empty(),
    }
}

/// The words of the first `n` of the constructors that follow the first.
pub open spec fn constructor_tail_words(tail: Seq<Constructor<Pipe>>, n: nat) -> Seq<Word>
    decreases n,
{
    if n == 0 || n > tail.len() {
        Seq::empty()
    } else {
        constructor_tail_words(tail, (n - 1) as nat) + seq![
            word(tail[n - 1].pipe.0, "|"@),
            name_word(tail[n - 1].constructor_name.0),
        ] + fields_words(tail[n - 1].fields)
    }
}

/// The words of the constructors of a declared type.
pub open spec fn constructors_words(
    head: Constructor<Option<Pipe>>,
    tail: Seq<Constructor<Pipe>>,
) -> Seq<Word> {
    optional_pipe_words(head.pipe) + seq![name_word(head.constructor_name.0)] + fields_words(
        head.fields,
    ) + constructor_tail_words(tail, tail.len())
}

/// The words of the parameters of a declared type.
pub open spec fn type_variables_words(variables: Option<ParensList1<Name>>) -> Seq<Word> {
    match variables {
        Some(variables) => names_words(variables),
        None => Seq::empty(),
    }
}

/// The words of a type declaration.
pub open spec fn type_declaration_words(declaration: TypeDeclaration) -> Seq<Word> {
    match declaration {
        TypeDeclaration::WithoutConstructors {
            type_keyword,
            name,
            type_variables,
            semicolon,
        } => seq![word(type_keyword.0, "type"@), name_word(name.0)] + type_variables_words(
            type_variables,
        ) + seq![word(semicolon.0, ";"@)],
        TypeDeclaration::WithConstructors {
            type_keyword,
            name,
            type_variables,
            equals,
            head_constructor,
            tail_constructors,
            semicolon,
        } => seq![word(type_keyword.0, "type"@), name_word(name.0)] + type_variables_words(
            type_variables,
        ) + seq![word(equals.0, "="@)] + constructors_words(head_constructor, tail_constructors@)
            + seq![word(semicolon.0, ";"@)],
    }
}

/// The words of a value declaration.
pub open spec fn value_declaration_words(declaration: ValueDeclaration) -> Seq<Word> {
    seq![name_word(declaration.name.0)] + optional_annotation_words(declaration.type_annotation)
        + seq![word(declaration.equals.0, "="@)] + expression_words(declaration.expression) + seq![
        word(declaration.semicolon.0, ";"@),
    ]
}

/// The words of a foreign value declaration.
pub open spec fn foreign_value_declaration_words(declaration: ForeignValueDeclaration) -> Seq<Word> {
    seq![word(declaration.foreign_keyword.0, "foreign"@), name_word(declaration.name.0)]
        + annotation_words(declaration.type_annotation) + seq![word(declaration.semicolon.0, ";"@)]
}

/// The words from `from` up to `to` are those up to `mid` and those from `mid` on.
pub proof fn lemma_join(all: Seq<Word>, from: int, mid: int, to: int)
    requires
        0 <= from <= mid <= to <= all.len(),
    ensures
        all.subrange(from, mid) + all.subrange(mid, to) == all.subrange(from, to),
{
    assert(all.subrange(from, mid) + all.subrange(mid, to) =~= all.subrange(from, to));
}

/// One word is the words from its place up to the next.
pub proof fn lemma_one(all: Seq<Word>, at: int)
    requires
        0 <= at < all.len(),
    ensures
        seq![all[at]] == all.subrange(at, at + 1),
        all.subrange(at, at) == Seq::<Word>::empty(),
{
    assert(seq![all[at]] =~= all.subrange(at, at + 1));
    assert(all.subrange(at, at) =~= Seq::<Word>::empty());
}

} // verus!
