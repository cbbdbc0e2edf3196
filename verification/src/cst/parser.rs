//! Reading lexemes into the concrete syntax tree, by recursive descent.

use crate::cst::grammar::{
    annotation_ends, calls_rest, closes, closing_of, conditional_ends, constructor_fields_ends,
    constructors_ends, constructors_rest, expect_ends, expression_ends, expression_items_ends,
    expression_items_rest, expression_text, failure_at, follows, foreign_value_declaration_ends,
    foreign_value_declaration_text, function_ends, keyword_at, kind_stands_at, name_ends,
    names_rest, operand_ends, optional_annotation_ends, parameter_ends, parameters_ends,
    parameters_rest, proper_name_ends, qualified_name_ends, qualified_proper_name_ends,
    qualifier_end, stands_at, type_arguments_ends, type_declaration_ends, type_declaration_text,
    type_ends, type_items_ends, type_items_rest, type_text, type_variables_ends,
    value_declaration_ends, value_declaration_text, words_of, Ended,
};
use crate::cst::lexer::{lex, scanned_all, Lexeme, LexemeKind, Scanned, SyntaxError};
use crate::cst::{Brackets, CommaSep1, Constructor, Expression, ForeignValueDeclaration, Name, Parameter, Parens, ParensList, ParensList1, ProperName, Qualified, QualifiedName, QualifiedProperName, Type, TypeAnnotation, TypeCallFunction, TypeDeclaration, ValueDeclaration};
use crate::token::{duplicate_comments, CloseBracket, CloseParen, Colon, Comma, Dot, ElseKeyword, EmptyToken, Equals, FalseKeyword, ForeignKeyword, IfKeyword, OpenBracket, OpenParen, Pipe, RightArrow, Semicolon, StringToken, ThenKeyword, Token, TrueKeyword, TypeKeyword, UnitKeyword};
use crate::cst::words::{annotation_words, constructor_tail_words, constructors_words, optional_pipe_words, type_variables_words, expression_tail_words, expression_words, fields_words, foreign_value_declaration_words, lemma_join, lemma_one, name_tail_words, name_word, names_words, optional_annotation_words, optional_expressions_words, optional_parameters_words, optional_types_words, parameter_tail_words, parameter_words, qualifier_words, trailing_comma_words, type_declaration_words, type_tail_words, type_words, types_words, value_declaration_words, word, words, Word};
use vstd::prelude::*;
use vstd::string::StringExecFns;

verus! {

/// What a parser hands back: the tree and the index of the lexeme that follows it.
pub type Parsed<T> = Result<(T, usize), SyntaxError>;

/// The token of a lexeme whose text its kind implies.
pub fn empty_token(lexeme: &Lexeme) -> (token: EmptyToken)
    ensures
        token.span == lexeme.span,
        token.leading() == crate::token::comment_texts(lexeme.leading_comments@),
        token.trailing() == crate::token::comment_text(lexeme.trailing_comment),
{
    Token {
        span: lexeme.span,
        leading_comments: duplicate_comments(&lexeme.leading_comments),
        trailing_comment: match &lexeme.trailing_comment {
            Some(comment) => Some(comment.duplicate()),
            None => None,
        },
        value: (),
    }
}

/// The token of a lexeme, holding its text.
pub fn string_token(lexeme: &Lexeme) -> (token: StringToken)
    ensures
        token.span == lexeme.span,
        token.leading() == crate::token::comment_texts(lexeme.leading_comments@),
        token.trailing() == crate::token::comment_text(lexeme.trailing_comment),
        token.value@ == lexeme.text@,
{
    Token {
        span: lexeme.span,
        leading_comments: duplicate_comments(&lexeme.leading_comments),
        trailing_comment: match &lexeme.trailing_comment {
            Some(comment) => Some(comment.duplicate()),
            None => None,
        },
        value: lexeme.text.clone(),
    }
}

/// Where a parser ended, or why it failed.
pub open spec fn ended<T>(result: Parsed<T>) -> Ended {
    match result {
        Ok((_, next)) => Ok(next as int),
        Err(e) => Err(e),
    }
}

/// The words of lexemes are the words of what they say.
pub proof fn lemma_words(lexemes: Seq<Lexeme>)
    ensures
        words(lexemes) == words_of(scanned_all(lexemes)),
{
    assert(words(lexemes) =~= words_of(scanned_all(lexemes)));
}

fn at(lexemes: &Vec<Lexeme>, pos: usize, word: &str) -> (found: bool)
    ensures
        found == stands_at(scanned_all(lexemes@), pos as int, word@),
        found ==> pos < lexemes.len(),
{
    if pos >= lexemes.len() {
        return false;
    }
    let lexeme = &lexemes[pos];
    match lexeme.kind {
        LexemeKind::String => false,
        LexemeKind::Number => false,
        _ => lexeme.text == String::from_str(word),
    }
}

fn kind_at(lexemes: &Vec<Lexeme>, pos: usize, kind: LexemeKind) -> (found: bool)
    ensures
        found == kind_stands_at(scanned_all(lexemes@), pos as int, kind),
        found ==> pos < lexemes.len(),
{
    pos < lexemes.len() && lexemes[pos].kind == kind
}

fn is_keyword(lexemes: &Vec<Lexeme>, pos: usize) -> (found: bool)
    ensures
        found == keyword_at(scanned_all(lexemes@), pos as int),
        found ==> pos < lexemes.len(),
{
    at(lexemes, pos, "if") || at(lexemes, pos, "then") || at(lexemes, pos, "else") || at(
        lexemes,
        pos,
        "true",
    ) || at(lexemes, pos, "false") || at(lexemes, pos, "unit") || at(lexemes, pos, "type") || at(
        lexemes,
        pos,
        "foreign",
    ) || at(lexemes, pos, "module") || at(lexemes, pos, "exports") || at(lexemes, pos, "import")
        || at(lexemes, pos, "as")
}

fn failure(lexemes: &Vec<Lexeme>, pos: usize) -> (error: SyntaxError)
    ensures
        error == failure_at(scanned_all(lexemes@), pos as int),
{
    if pos < lexemes.len() {
        SyntaxError::UnexpectedLexeme(pos)
    } else {
        SyntaxError::UnexpectedEnd
    }
}

fn expect(lexemes: &Vec<Lexeme>, pos: usize, word: &str) -> (result: Parsed<EmptyToken>)
    requires
        pos <= lexemes.len(),
    ensures
        result matches Ok((token, next)) ==> next == pos + 1 && pos < lexemes.len() && self::word(
            token,
            word@,
        ) == lexemes@[pos as int]@,
        ended(result) == expect_ends(scanned_all(lexemes@), pos as int, word@),
{
    if at(lexemes, pos, word) {
        Ok((empty_token(&lexemes[pos]), pos + 1))
    } else {
        Err(failure(lexemes, pos))
    }
}

fn parse_name(lexemes: &Vec<Lexeme>, pos: usize) -> (result: Parsed<Name>)
    requires
        pos <= lexemes.len(),
    ensures
        result matches Ok((name, next)) ==> next == pos + 1 && pos < lexemes.len() && name_word(
            name.0,
        ) == lexemes@[pos as int]@,
        ended(result) == name_ends(scanned_all(lexemes@), pos as int),
{
    if kind_at(lexemes, pos, LexemeKind::Name) && !is_keyword(lexemes, pos) {
        Ok((Name(string_token(&lexemes[pos])), pos + 1))
    } else {
        Err(failure(lexemes, pos))
    }
}

fn parse_proper_name(lexemes: &Vec<Lexeme>, pos: usize) -> (result: Parsed<ProperName>)
    requires
        pos <= lexemes.len(),
    ensures
        result matches Ok((name, next)) ==> next == pos + 1 && pos < lexemes.len() && name_word(
            name.0,
        ) == lexemes@[pos as int]@,
        ended(result) == proper_name_ends(scanned_all(lexemes@), pos as int),
{
    if kind_at(lexemes, pos, LexemeKind::ProperName) {
        Ok((ProperName(string_token(&lexemes[pos])), pos + 1))
    } else {
        Err(failure(lexemes, pos))
    }
}

/// The module's name and dot in front of a qualified name, if they are there.
fn parse_qualifier(lexemes: &Vec<Lexeme>, pos: usize) -> (result: (Option<(ProperName, Dot)>, usize))
    requires
        pos <= lexemes.len(),
    ensures
        pos <= result.1 <= pos + 2,
        result.1 > pos ==> result.1 < lexemes.len(),
        result.1 == qualifier_end(scanned_all(lexemes@), pos as int),
        qualifier_words(result.0) == words(lexemes@).subrange(pos as int, result.1 as int),
{
    let ghost all = words(lexemes@);
    if kind_at(lexemes, pos, LexemeKind::ProperName) && at(lexemes, pos + 1, ".") && lexemes.len()
        - pos > 2 {
        (
            Some((ProperName(string_token(&lexemes[pos])), Dot(empty_token(&lexemes[pos + 1])))),
            pos + 2,
        )
    } else {
        (None, pos)
    }
}

fn parse_qualified_proper_name(lexemes: &Vec<Lexeme>, pos: usize) -> (result: Parsed<
    QualifiedProperName,
>)
    requires
        pos <= lexemes.len(),
    ensures
        result matches Ok((name, next)) ==> pos < next <= lexemes.len() && qualifier_words(
            name.module_name,
        ) + seq![name_word(name.value.0)] == words(lexemes@).subrange(pos as int, next as int),
        ended(result) == qualified_proper_name_ends(scanned_all(lexemes@), pos as int),
{
    let ghost all = words(lexemes@);
    let (module_name, after) = parse_qualifier(lexemes, pos);
    let (value, next) = parse_proper_name(lexemes, after)?;
    proof {
        lemma_one(all, after as int);
        lemma_join(all, pos as int, after as int, next as int);
    }
    Ok((Qualified { module_name, value }, next))
}

fn parse_qualified_name(lexemes: &Vec<Lexeme>, pos: usize) -> (result: Parsed<QualifiedName>)
    requires
        pos <= lexemes.len(),
    ensures
        result matches Ok((name, next)) ==> pos < next <= lexemes.len() && qualifier_words(
            name.module_name,
        ) + seq![name_word(name.value.0)] == words(lexemes@).subrange(pos as int, next as int),
        ended(result) == qualified_name_ends(scanned_all(lexemes@), pos as int),
{
    let ghost all = words(lexemes@);
    let (module_name, after) = parse_qualifier(lexemes, pos);
    let (value, next) = parse_name(lexemes, after)?;
    proof {
        lemma_one(all, after as int);
        lemma_join(all, pos as int, after as int, next as int);
    }
    Ok((Qualified { module_name, value }, next))
}

/// The index of the bracket that closes the one at `pos`.
fn closing(lexemes: &Vec<Lexeme>, pos: usize) -> (found: Option<usize>)
    ensures
        found matches Some(close) ==> pos < close < lexemes.len(),
        match found {
            Some(close) => closing_of(scanned_all(lexemes@), pos as int) == Some(close as int),
            None => closing_of(scanned_all(lexemes@), pos as int) is None,
        },
{
    if !(at(lexemes, pos, "(") || at(lexemes, pos, "[")) {
        return None;
    }
    let mut depth: usize = 1;
    let mut i: usize = pos + 1;
    while i < lexemes.len()
        invariant
            pos < i <= lexemes.len(),
            depth >= 1,
            depth <= i,
            closes(scanned_all(lexemes@), i as int, depth as int) == closing_of(
                scanned_all(lexemes@),
                pos as int,
            ),
        decreases lexemes.len() - i,
    {
        if at(lexemes, i, "(") || at(lexemes, i, "[") {
            depth += 1;
        } else if at(lexemes, i, ")") || at(lexemes, i, "]") {
            depth -= 1;
            if depth == 0 {
                return Some(i);
            }
        }
        i += 1;
    }
    None
}

/// Does the parenthesis at `pos` open a list that `word` follows?
fn followed_by(lexemes: &Vec<Lexeme>, pos: usize, word: &str) -> (found: bool)
    ensures
        found == follows(scanned_all(lexemes@), pos as int, word@),
{
    match closing(lexemes, pos) {
        Some(close) => at(lexemes, close + 1, word),
        None => false,
    }
}

/// The words of the first types of a list are the same while the list grows.
proof fn lemma_type_tail_grows(
    before: Vec<(Comma, Box<Type>)>,
    after: Vec<(Comma, Box<Type>)>,
    n: nat,
)
    requires
        n <= before@.len() <= after@.len(),
        forall|i: int| 0 <= i < n ==> before@[i] == after@[i],
    ensures
        type_tail_words(before, n) == type_tail_words(after, n),
    decreases n,
{
    if n > 0 {
        lemma_type_tail_grows(before, after, (n - 1) as nat);
    }
}

/// The words of the first expressions of a list are the same while the list grows.
proof fn lemma_expression_tail_grows(
    before: Vec<(Comma, Box<Expression>)>,
    after: Vec<(Comma, Box<Expression>)>,
    n: nat,
)
    requires
        n <= before@.len() <= after@.len(),
        forall|i: int| 0 <= i < n ==> before@[i] == after@[i],
    ensures
        expression_tail_words(before, n) == expression_tail_words(after, n),
    decreases n,
{
    if n > 0 {
        lemma_expression_tail_grows(before, after, (n - 1) as nat);
    }
}

/// The words of the first parameters of a list are the same while the list grows.
proof fn lemma_parameter_tail_grows(
    before: Seq<(Comma, Parameter)>,
    after: Seq<(Comma, Parameter)>,
    n: nat,
)
    requires
        n <= before.len() <= after.len(),
        forall|i: int| 0 <= i < n ==> before[i] == after[i],
    ensures
        parameter_tail_words(before, n) == parameter_tail_words(after, n),
    decreases n,
{
    if n > 0 {
        lemma_parameter_tail_grows(before, after, (n - 1) as nat);
    }
}

/// The words of the first names of a list are the same while the list grows.
proof fn lemma_name_tail_grows(before: Seq<(Comma, Name)>, after: Seq<(Comma, Name)>, n: nat)
    requires
        n <= before.len() <= after.len(),
        forall|i: int| 0 <= i < n ==> before[i] == after[i],
    ensures
        name_tail_words(before, n) == name_tail_words(after, n),
    decreases n,
{
    if n > 0 {
        lemma_name_tail_grows(before, after, (n - 1) as nat);
    }
}

/// The words of the first constructors are the same while their list grows.
proof fn lemma_constructor_tail_grows(
    before: Seq<Constructor<Pipe>>,
    after: Seq<Constructor<Pipe>>,
    n: nat,
)
    requires
        n <= before.len() <= after.len(),
        forall|i: int| 0 <= i < n ==> before[i] == after[i],
    ensures
        constructor_tail_words(before, n) == constructor_tail_words(after, n),
    decreases n,
{
    if n > 0 {
        lemma_constructor_tail_grows(before, after, (n - 1) as nat);
    }
}

#[verifier::rlimit(60)]
fn parse_type(lexemes: &Vec<Lexeme>, pos: usize) -> (result: Parsed<Type>)
    requires
        pos <= lexemes.len(),
    ensures
        result matches Ok((tree, next)) ==> pos < next <= lexemes.len() && type_words(tree)
            == words(lexemes@).subrange(pos as int, next as int),
        ended(result) == type_ends(scanned_all(lexemes@), pos as int),
    decreases lexemes.len() - pos, 2int,
{
    let ghost all = words(lexemes@);
    if at(lexemes, pos, "(") {
        if followed_by(lexemes, pos, "->") {
            let (open, after_open) = expect(lexemes, pos, "(")?;
            let (value, before_close) = parse_type_items(lexemes, after_open)?;
            let (close, after_close) = expect(lexemes, before_close, ")")?;
            let (arrow, after_arrow) = expect(lexemes, after_close, "->")?;
            let (return_type, next) = parse_type(lexemes, after_arrow)?;
            let parameters = Parens {
                open_paren: OpenParen(open),
                value,
                close_paren: CloseParen(close),
            };
            let tree = Type::Function {
                parameters,
                right_arrow: RightArrow(arrow),
                return_type: Box::new(return_type),
            };
            proof {
                lemma_one(all, pos as int);
                lemma_join(all, pos as int, after_open as int, before_close as int);
                assert(seq![word(close, ")"@), word(arrow, "->"@)] =~= all.subrange(
                    before_close as int,
                    after_arrow as int,
                ));
                lemma_join(all, pos as int, before_close as int, after_arrow as int);
                lemma_join(all, pos as int, after_arrow as int, next as int);
            }
            Ok((tree, next))
        } else {
            let (open, after_open) = expect(lexemes, pos, "(")?;
            let (inner, before_close) = parse_type(lexemes, after_open)?;
            let (close, next) = expect(lexemes, before_close, ")")?;
            let tree = Type::Parens(
                Parens {
                    open_paren: OpenParen(open),
                    value: Box::new(inner),
                    close_paren: CloseParen(close),
                },
            );
            proof {
                assert(type_words(tree) =~= all.subrange(pos as int, next as int));
            }
            Ok((tree, next))
        }
    } else if kind_at(lexemes, pos, LexemeKind::ProperName) {
        let (constructor, after) = parse_qualified_proper_name(lexemes, pos)?;
        if at(lexemes, after, "(") {
            let (arguments, next) = parse_type_arguments(lexemes, after)?;
            let tree = Type::Call { function: TypeCallFunction::Constructor(constructor), arguments };
            proof {
                lemma_join(all, pos as int, after as int, next as int);
                assert(type_words(tree) =~= all.subrange(pos as int, after as int) + all.subrange(
                    after as int,
                    next as int,
                ));
            }
            Ok((tree, next))
        } else {
            Ok((Type::Constructor(constructor), after))
        }
    } else {
        let (variable, after) = parse_name(lexemes, pos)?;
        proof {
            lemma_one(all, pos as int);
        }
        if at(lexemes, after, "(") {
            let (arguments, next) = parse_type_arguments(lexemes, after)?;
            let tree = Type::Call { function: TypeCallFunction::Variable(variable), arguments };
            proof {
                lemma_join(all, pos as int, after as int, next as int);
                assert(type_words(tree) =~= all.subrange(pos as int, after as int) + all.subrange(
                    after as int,
                    next as int,
                ));
            }
            Ok((tree, next))
        } else {
            Ok((Type::Variable(variable), after))
        }
    }
}

/// A parenthesized list of one or more types, which starts at `pos`.
fn parse_type_arguments(lexemes: &Vec<Lexeme>, pos: usize) -> (result: Parsed<
    ParensList1<Box<Type>>,
>)
    requires
        pos <= lexemes.len(),
    ensures
        result matches Ok((list, next)) ==> pos < next <= lexemes.len() && seq![
            word(list.open_paren.0, "("@),
        ] + types_words(list.value) + seq![word(list.close_paren.0, ")"@)] == words(
            lexemes@,
        ).subrange(pos as int, next as int),
        ended(result) == type_arguments_ends(scanned_all(lexemes@), pos as int),
    decreases lexemes.len() - pos, 1int,
{
    let ghost all = words(lexemes@);
    let (open, after_open) = expect(lexemes, pos, "(")?;
    let (value, before_close) = parse_type_items(lexemes, after_open)?;
    let (close, next) = expect(lexemes, before_close, ")")?;
    match value {
        Some(value) => {
            let list = Parens { open_paren: OpenParen(open), value, close_paren: CloseParen(close) };
            proof {
                assert(seq![word(list.open_paren.0, "("@)] + types_words(list.value) + seq![
                    word(list.close_paren.0, ")"@),
                ] =~= all.subrange(pos as int, next as int));
            }
            Ok((list, next))
        },
        None => Err(SyntaxError::UnexpectedLexeme(before_close)),
    }
}

/// Types with commas between them, up to the closing parenthesis.
fn parse_type_items(lexemes: &Vec<Lexeme>, pos: usize) -> (result: Parsed<
    Option<CommaSep1<Box<Type>>>,
>)
    requires
        pos <= lexemes.len(),
    ensures
        result matches Ok((list, next)) ==> pos <= next <= lexemes.len() && optional_types_words(
            list,
        ) == words(lexemes@).subrange(pos as int, next as int) && (list is None <==> stands_at(
            scanned_all(lexemes@),
            pos as int,
            ")"@,
        )) && (list is Some ==> pos < next),
        ended(result) == type_items_ends(scanned_all(lexemes@), pos as int),
    decreases lexemes.len() - pos, 3int,
{
    let ghost all = words(lexemes@);
    if at(lexemes, pos, ")") {
        assert(all.subrange(pos as int, pos as int) =~= Seq::<Word>::empty());
        return Ok((None, pos));
    }
    let (head, after_head) = parse_type(lexemes, pos)?;
    let mut tail: Vec<(Comma, Box<Type>)> = Vec::new();
    let mut trailing_comma: Option<Comma> = None;
    let mut cur: usize = after_head;
    assert(type_words(head) + type_tail_words(tail, 0) =~= all.subrange(pos as int, cur as int));
    let ghost s = scanned_all(lexemes@);
    let ghost wanted = type_items_rest(s, after_head as int);
    while at(lexemes, cur, ",")
        invariant_except_break
            type_items_rest(s, cur as int) == wanted,
            trailing_comma is None,
            type_words(head) + type_tail_words(tail, tail@.len()) == all.subrange(
                pos as int,
                cur as int,
            ),
        invariant
            s == scanned_all(lexemes@),
            type_items_ends(s, pos as int) == wanted,
            pos < cur <= lexemes.len(),
            all == words(lexemes@),
        ensures
            wanted == Ok::<int, SyntaxError>(cur as int),
            pos < cur <= lexemes.len(),
            type_words(head) + type_tail_words(tail, tail@.len()) + trailing_comma_words(
                trailing_comma,
            ) == all.subrange(pos as int, cur as int),
        decreases lexemes.len() - cur,
    {
        let comma = Comma(empty_token(&lexemes[cur]));
        if at(lexemes, cur + 1, ")") {
            trailing_comma = Some(comma);
            proof {
                lemma_one(all, cur as int);
                lemma_join(all, pos as int, cur as int, cur + 1);
            }
            cur = cur + 1;
            break ;
        }
        let (item, after_item) = parse_type(lexemes, cur + 1)?;
        let ghost before = tail;
        tail.push((comma, Box::new(item)));
        proof {
            lemma_type_tail_grows(before, tail, before@.len());
            lemma_one(all, cur as int);
            assert(type_words(head) + type_tail_words(tail, tail@.len()) =~= all.subrange(
                pos as int,
                cur as int,
            ) + all.subrange(cur as int, cur + 1) + all.subrange(cur + 1, after_item as int));
            assert(all.subrange(pos as int, cur as int) + all.subrange(cur as int, cur + 1)
                + all.subrange(cur + 1, after_item as int) =~= all.subrange(
                pos as int,
                after_item as int,
            ));
        }
        cur = after_item;
    }
    proof {
        if trailing_comma is None {
            assert(type_words(head) + type_tail_words(tail, tail@.len()) + trailing_comma_words(
                trailing_comma,
            ) =~= type_words(head) + type_tail_words(tail, tail@.len()));
        }
    }
    Ok((Some(CommaSep1 { head: Box::new(head), tail, trailing_comma }), cur))
}

fn parse_type_annotation(lexemes: &Vec<Lexeme>, pos: usize) -> (result: Parsed<TypeAnnotation>)
    requires
        pos <= lexemes.len(),
    ensures
        result matches Ok((annotation, next)) ==> pos < next <= lexemes.len() && annotation_words(
            annotation,
        ) == words(lexemes@).subrange(pos as int, next as int),
        ended(result) == annotation_ends(scanned_all(lexemes@), pos as int),
{
    let ghost all = words(lexemes@);
    let (colon, after_colon) = expect(lexemes, pos, ":")?;
    let (annotated, next) = parse_type(lexemes, after_colon)?;
    let annotation = TypeAnnotation(Colon(colon), annotated);
    proof {
        assert(annotation_words(annotation) =~= all.subrange(pos as int, next as int));
    }
    Ok((annotation, next))
}

fn parse_optional_annotation(lexemes: &Vec<Lexeme>, pos: usize) -> (result: Parsed<
    Option<TypeAnnotation>,
>)
    requires
        pos <= lexemes.len(),
    ensures
        result matches Ok((annotation, next)) ==> pos <= next <= lexemes.len()
            && optional_annotation_words(annotation) == words(lexemes@).subrange(
            pos as int,
            next as int,
        ),
        ended(result) == optional_annotation_ends(scanned_all(lexemes@), pos as int),
{
    if at(lexemes, pos, ":") {
        let (annotation, next) = parse_type_annotation(lexemes, pos)?;
        Ok((Some(annotation), next))
    } else {
        assert(words(lexemes@).subrange(pos as int, pos as int) =~= Seq::<Word>::empty());
        Ok((None, pos))
    }
}

fn parse_parameter(lexemes: &Vec<Lexeme>, pos: usize) -> (result: Parsed<Parameter>)
    requires
        pos <= lexemes.len(),
    ensures
        result matches Ok((parameter, next)) ==> pos < next <= lexemes.len() && parameter_words(
            parameter,
        ) == words(lexemes@).subrange(pos as int, next as int),
        ended(result) == parameter_ends(scanned_all(lexemes@), pos as int),
{
    let ghost all = words(lexemes@);
    let (name, after_name) = parse_name(lexemes, pos)?;
    let (annotation, next) = parse_optional_annotation(lexemes, after_name)?;
    proof {
        lemma_one(all, pos as int);
        lemma_join(all, pos as int, after_name as int, next as int);
    }
    Ok(((name, annotation), next))
}

/// The parenthesized parameters of a function literal, which start at `pos`.
fn parse_parameters(lexemes: &Vec<Lexeme>, pos: usize) -> (result: Parsed<ParensList<Parameter>>)
    requires
        pos <= lexemes.len(),
    ensures
        result matches Ok((list, next)) ==> pos < next <= lexemes.len() && seq![
            word(list.open_paren.0, "("@),
        ] + optional_parameters_words(list.value) + seq![word(list.close_paren.0, ")"@)] == words(
            lexemes@,
        ).subrange(pos as int, next as int),
        ended(result) == parameters_ends(scanned_all(lexemes@), pos as int),
{
    let ghost all = words(lexemes@);
    let (open, after_open) = expect(lexemes, pos, "(")?;
    if at(lexemes, after_open, ")") {
        let (close, next) = expect(lexemes, after_open, ")")?;
        let list = Parens { open_paren: OpenParen(open), value: None, close_paren: CloseParen(close) };
        proof {
            assert(seq![word(list.open_paren.0, "("@)] + optional_parameters_words(list.value)
                + seq![word(list.close_paren.0, ")"@)] =~= all.subrange(pos as int, next as int));
        }
        return Ok((list, next));
    }
    let (head, after_head) = parse_parameter(lexemes, after_open)?;
    let mut tail: Vec<(Comma, Parameter)> = Vec::new();
    let mut trailing_comma: Option<Comma> = None;
    let mut cur: usize = after_head;
    assert(parameter_words(head) + parameter_tail_words(tail@, 0) =~= all.subrange(
        after_open as int,
        cur as int,
    ));
    let ghost s = scanned_all(lexemes@);
    let ghost wanted = parameters_rest(s, after_head as int);
    while at(lexemes, cur, ",")
        invariant_except_break
            parameters_rest(s, cur as int) == wanted,
            trailing_comma is None,
            parameter_words(head) + parameter_tail_words(tail@, tail@.len()) == all.subrange(
                after_open as int,
                cur as int,
            ),
        invariant
            s == scanned_all(lexemes@),
            parameters_ends(s, pos as int) == (match wanted {
                Err(e) => Err(e),
                Ok(before_close) => expect_ends(s, before_close, ")"@),
            }),
            after_open < cur <= lexemes.len(),
            all == words(lexemes@),
        ensures
            wanted == Ok::<int, SyntaxError>(cur as int),
            after_open < cur <= lexemes.len(),
            parameter_words(head) + parameter_tail_words(tail@, tail@.len())
                + trailing_comma_words(trailing_comma) == all.subrange(
                after_open as int,
                cur as int,
            ),
        decreases lexemes.len() - cur,
    {
        let comma = Comma(empty_token(&lexemes[cur]));
        if at(lexemes, cur + 1, ")") {
            trailing_comma = Some(comma);
            proof {
                lemma_one(all, cur as int);
                lemma_join(all, after_open as int, cur as int, cur + 1);
            }
            cur = cur + 1;
            break ;
        }
        let (item, after_item) = parse_parameter(lexemes, cur + 1)?;
        let ghost before = tail@;
        tail.push((comma, item));
        proof {
            lemma_parameter_tail_grows(before, tail@, before.len());
            lemma_one(all, cur as int);
            assert(parameter_words(head) + parameter_tail_words(tail@, tail@.len())
                =~= all.subrange(after_open as int, cur as int) + all.subrange(
                cur as int,
                cur + 1,
            ) + all.subrange(cur + 1, after_item as int));
            assert(all.subrange(after_open as int, cur as int) + all.subrange(cur as int, cur + 1)
                + all.subrange(cur + 1, after_item as int) =~= all.subrange(
                after_open as int,
                after_item as int,
            ));
        }
        cur = after_item;
    }
    proof {
        if trailing_comma is None {
            assert(parameter_words(head) + parameter_tail_words(tail@, tail@.len())
                + trailing_comma_words(trailing_comma) =~= parameter_words(head)
                + parameter_tail_words(tail@, tail@.len()));
        }
    }
    let (close, next) = expect(lexemes, cur, ")")?;
    let list = Parens {
        open_paren: OpenParen(open),
        value: Some(CommaSep1 { head, tail, trailing_comma }),
        close_paren: CloseParen(close),
    };
    proof {
        lemma_one(all, pos as int);
        lemma_one(all, cur as int);
        assert(seq![word(list.open_paren.0, "("@)] + optional_parameters_words(list.value) + seq![
            word(list.close_paren.0, ")"@),
        ] =~= all.subrange(pos as int, pos + 1) + all.subrange(after_open as int, cur as int)
            + all.subrange(cur as int, next as int));
        assert(all.subrange(pos as int, pos + 1) + all.subrange(after_open as int, cur as int)
            + all.subrange(cur as int, next as int) =~= all.subrange(pos as int, next as int));
    }
    Ok((list, next))
}

/// The parenthesized names behind a declared type's name, which start at `pos`.
fn parse_type_variables(lexemes: &Vec<Lexeme>, pos: usize) -> (result: Parsed<ParensList1<Name>>)
    requires
        pos <= lexemes.len(),
    ensures
        result matches Ok((list, next)) ==> pos < next <= lexemes.len() && names_words(list)
            == words(lexemes@).subrange(pos as int, next as int),
        ended(result) == type_variables_ends(scanned_all(lexemes@), pos as int),
{
    let ghost all = words(lexemes@);
    let (open, after_open) = expect(lexemes, pos, "(")?;
    let (head, after_head) = parse_name(lexemes, after_open)?;
    let mut tail: Vec<(Comma, Name)> = Vec::new();
    let mut trailing_comma: Option<Comma> = None;
    let mut cur: usize = after_head;
    assert(seq![word(open, "("@), name_word(head.0)] + name_tail_words(tail@, 0) =~= all.subrange(
        pos as int,
        cur as int,
    ));
    let ghost s = scanned_all(lexemes@);
    let ghost wanted = names_rest(s, after_head as int);
    while at(lexemes, cur, ",")
        invariant_except_break
            names_rest(s, cur as int) == wanted,
            trailing_comma is None,
            seq![word(open, "("@), name_word(head.0)] + name_tail_words(tail@, tail@.len())
                == all.subrange(pos as int, cur as int),
        invariant
            s == scanned_all(lexemes@),
            type_variables_ends(s, pos as int) == (match wanted {
                Err(e) => Err(e),
                Ok(before_close) => expect_ends(s, before_close, ")"@),
            }),
            pos < cur <= lexemes.len(),
            all == words(lexemes@),
        ensures
            wanted == Ok::<int, SyntaxError>(cur as int),
            pos < cur <= lexemes.len(),
            seq![word(open, "("@), name_word(head.0)] + name_tail_words(tail@, tail@.len())
                + trailing_comma_words(trailing_comma) == all.subrange(pos as int, cur as int),
        decreases lexemes.len() - cur,
    {
        let comma = Comma(empty_token(&lexemes[cur]));
        if at(lexemes, cur + 1, ")") {
            trailing_comma = Some(comma);
            proof {
                lemma_one(all, cur as int);
                lemma_join(all, pos as int, cur as int, cur + 1);
            }
            cur = cur + 1;
            break ;
        }
        let (item, after_item) = parse_name(lexemes, cur + 1)?;
        let ghost before = tail@;
        tail.push((comma, item));
        proof {
            lemma_name_tail_grows(before, tail@, before.len());
            assert(seq![word(open, "("@), name_word(head.0)] + name_tail_words(
                tail@,
                tail@.len(),
            ) =~= all.subrange(pos as int, cur as int) + seq![all[cur as int], all[cur + 1]]);
            assert(all.subrange(pos as int, cur as int) + seq![all[cur as int], all[cur + 1]]
                =~= all.subrange(pos as int, after_item as int));
        }
        cur = after_item;
    }
    proof {
        if trailing_comma is None {
            assert(seq![word(open, "("@), name_word(head.0)] + name_tail_words(
                tail@,
                tail@.len(),
            ) + trailing_comma_words(trailing_comma) =~= seq![
                word(open, "("@),
                name_word(head.0),
            ] + name_tail_words(tail@, tail@.len()));
        }
    }
    let (close, next) = expect(lexemes, cur, ")")?;
    let list = Parens {
        open_paren: OpenParen(open),
        value: CommaSep1 { head, tail, trailing_comma },
        close_paren: CloseParen(close),
    };
    proof {
        lemma_one(all, cur as int);
        lemma_join(all, pos as int, cur as int, next as int);
    }
    Ok((list, next))
}

fn parse_expression(lexemes: &Vec<Lexeme>, pos: usize) -> (result: Parsed<Expression>)
    requires
        pos <= lexemes.len(),
    ensures
        result matches Ok((tree, next)) ==> pos < next <= lexemes.len() && expression_words(tree)
            == words(lexemes@).subrange(pos as int, next as int),
        ended(result) == expression_ends(scanned_all(lexemes@), pos as int),
    decreases lexemes.len() - pos, 2int,
{
    let ghost all = words(lexemes@);
    if at(lexemes, pos, "if") {
        return parse_conditional(lexemes, pos);
    }
    if at(lexemes, pos, "(") && (followed_by(lexemes, pos, "->") || followed_by(lexemes, pos, ":")) {
        return parse_function(lexemes, pos);
    }
    let (head, after_head) = parse_operand(lexemes, pos)?;
    let mut expression = head;
    let mut cur: usize = after_head;
    let ghost s = scanned_all(lexemes@);
    let ghost wanted = calls_rest(s, after_head as int);
    while at(lexemes, cur, "(")
        invariant
            s == scanned_all(lexemes@),
            expression_ends(s, pos as int) == wanted,
            calls_rest(s, cur as int) == wanted,
            pos < cur <= lexemes.len(),
            all == words(lexemes@),
            expression_words(expression) == all.subrange(pos as int, cur as int),
        decreases lexemes.len() - cur,
    {
        let open = empty_token(&lexemes[cur]);
        let (value, before_close) = parse_expression_items(lexemes, cur + 1, ")")?;
        let (close, after_close) = expect(lexemes, before_close, ")")?;
        let ghost function = expression;
        expression =
        Expression::Call {
            function: Box::new(expression),
            arguments: Parens {
                open_paren: OpenParen(open),
                value,
                close_paren: CloseParen(close),
            },
        };
        proof {
            lemma_one(all, cur as int);
            lemma_one(all, before_close as int);
            lemma_join(all, pos as int, cur as int, cur + 1);
            lemma_join(all, pos as int, cur + 1, before_close as int);
            lemma_join(all, pos as int, before_close as int, after_close as int);
        }
        cur = after_close;
    }
    Ok((expression, cur))
}

/// A conditional, which starts at `pos`.
fn parse_conditional(lexemes: &Vec<Lexeme>, pos: usize) -> (result: Parsed<Expression>)
    requires
        pos <= lexemes.len(),
    ensures
        result matches Ok((tree, next)) ==> pos < next <= lexemes.len() && expression_words(tree)
            == words(lexemes@).subrange(pos as int, next as int),
        ended(result) == conditional_ends(scanned_all(lexemes@), pos as int),
    decreases lexemes.len() - pos, 0int,
{
    let ghost all = words(lexemes@);
    let (if_keyword, after_if) = expect(lexemes, pos, "if")?;
    let (condition, after_condition) = parse_expression(lexemes, after_if)?;
    let (then_keyword, after_then) = expect(lexemes, after_condition, "then")?;
    let (true_clause, after_true) = parse_expression(lexemes, after_then)?;
    let (else_keyword, after_else) = expect(lexemes, after_true, "else")?;
    let (false_clause, next) = parse_expression(lexemes, after_else)?;
    let tree = Expression::If {
        if_keyword: IfKeyword(if_keyword),
        condition: Box::new(condition),
        then_keyword: ThenKeyword(then_keyword),
        true_clause: Box::new(true_clause),
        else_keyword: ElseKeyword(else_keyword),
        false_clause: Box::new(false_clause),
    };
    proof {
        lemma_one(all, pos as int);
        lemma_one(all, after_condition as int);
        lemma_one(all, after_true as int);
        lemma_join(all, pos as int, after_if as int, after_condition as int);
        lemma_join(all, pos as int, after_condition as int, after_then as int);
        lemma_join(all, pos as int, after_then as int, after_true as int);
        lemma_join(all, pos as int, after_true as int, after_else as int);
        lemma_join(all, pos as int, after_else as int, next as int);
    }
    Ok((tree, next))
}

/// A function literal, which starts at `pos`.
fn parse_function(lexemes: &Vec<Lexeme>, pos: usize) -> (result: Parsed<Expression>)
    requires
        pos <= lexemes.len(),
    ensures
        result matches Ok((tree, next)) ==> pos < next <= lexemes.len() && expression_words(tree)
            == words(lexemes@).subrange(pos as int, next as int),
        ended(result) == function_ends(scanned_all(lexemes@), pos as int),
    decreases lexemes.len() - pos, 0int,
{
    let ghost all = words(lexemes@);
    let (parameters, after_parameters) = parse_parameters(lexemes, pos)?;
    let (return_type_annotation, after_annotation) = parse_optional_annotation(
        lexemes,
        after_parameters,
    )?;
    let (arrow, after_arrow) = expect(lexemes, after_annotation, "->")?;
    let (body, next) = parse_expression(lexemes, after_arrow)?;
    let tree = Expression::Function {
        parameters: Box::new(parameters),
        return_type_annotation: Box::new(return_type_annotation),
        right_arrow: RightArrow(arrow),
        body: Box::new(body),
    };
    proof {
        lemma_one(all, after_annotation as int);
        lemma_join(all, pos as int, after_parameters as int, after_annotation as int);
        lemma_join(all, pos as int, after_annotation as int, after_arrow as int);
        lemma_join(all, pos as int, after_arrow as int, next as int);
    }
    Ok((tree, next))
}

/// An expression that is no conditional, function or call.
fn parse_operand(lexemes: &Vec<Lexeme>, pos: usize) -> (result: Parsed<Expression>)
    requires
        pos <= lexemes.len(),
    ensures
        result matches Ok((tree, next)) ==> pos < next <= lexemes.len() && expression_words(tree)
            == words(lexemes@).subrange(pos as int, next as int),
        ended(result) == operand_ends(scanned_all(lexemes@), pos as int),
    decreases lexemes.len() - pos, 1int,
{
    let ghost all = words(lexemes@);
    if at(lexemes, pos, "(") {
        let (open, after_open) = expect(lexemes, pos, "(")?;
        let (inner, before_close) = parse_expression(lexemes, after_open)?;
        let (close, next) = expect(lexemes, before_close, ")")?;
        let tree = Expression::Parens(
            Parens {
                open_paren: OpenParen(open),
                value: Box::new(inner),
                close_paren: CloseParen(close),
            },
        );
        proof {
            assert(expression_words(tree) =~= all.subrange(pos as int, next as int));
        }
        Ok((tree, next))
    } else if at(lexemes, pos, "[") {
        let (open, after_open) = expect(lexemes, pos, "[")?;
        let (value, before_close) = parse_expression_items(lexemes, after_open, "]")?;
        let (close, next) = expect(lexemes, before_close, "]")?;
        let tree = Expression::Array(
            Brackets {
                open_bracket: OpenBracket(open),
                value,
                close_bracket: CloseBracket(close),
            },
        );
        proof {
            assert(expression_words(tree) =~= all.subrange(pos as int, next as int));
        }
        Ok((tree, next))
    } else if at(lexemes, pos, "true") {
        let tree = Expression::True(TrueKeyword(empty_token(&lexemes[pos])));
        proof {
            lemma_one(all, pos as int);
        }
        Ok((tree, pos + 1))
    } else if at(lexemes, pos, "false") {
        let tree = Expression::False(FalseKeyword(empty_token(&lexemes[pos])));
        proof {
            lemma_one(all, pos as int);
        }
        Ok((tree, pos + 1))
    } else if at(lexemes, pos, "unit") {
        let tree = Expression::Unit(UnitKeyword(empty_token(&lexemes[pos])));
        proof {
            lemma_one(all, pos as int);
        }
        Ok((tree, pos + 1))
    } else if kind_at(lexemes, pos, LexemeKind::String) {
        let tree = Expression::String(string_token(&lexemes[pos]));
        proof {
            lemma_one(all, pos as int);
        }
        Ok((tree, pos + 1))
    } else if kind_at(lexemes, pos, LexemeKind::Number) {
        proof {
            lemma_one(all, pos as int);
        }
        if has_dot(&lexemes[pos].text) {
            Ok((Expression::Float(string_token(&lexemes[pos])), pos + 1))
        } else {
            Ok((Expression::Int(string_token(&lexemes[pos])), pos + 1))
        }
    } else {
        let (module_name, after) = parse_qualifier(lexemes, pos);
        if kind_at(lexemes, after, LexemeKind::ProperName) {
            let (value, next) = parse_proper_name(lexemes, after)?;
            proof {
                lemma_one(all, after as int);
                lemma_join(all, pos as int, after as int, next as int);
            }
            Ok((Expression::Constructor(Qualified { module_name, value }), next))
        } else {
            let (value, next) = parse_name(lexemes, after)?;
            proof {
                lemma_one(all, after as int);
                lemma_join(all, pos as int, after as int, next as int);
            }
            Ok((Expression::Variable(Qualified { module_name, value }), next))
        }
    }
}

/// Does the text hold a dot?
fn has_dot(text: &String) -> (found: bool)
    ensures
        found == text@.contains('.'),
{
    let s = text.as_str();
    let n = s.unicode_len();
    let mut i: usize = 0;
    while i < n
        invariant
            n == s@.len(),
            s@ == text@,
            i <= n,
            forall|k: int| 0 <= k < i ==> s@[k] != '.',
        decreases n - i,
    {
        if s.get_char(i) == '.' {
            return true;
        }
        i += 1;
    }
    false
}

/// Expressions with commas between them, up to the closing bracket `close`.
fn parse_expression_items(lexemes: &Vec<Lexeme>, pos: usize, close: &str) -> (result: Parsed<
    Option<CommaSep1<Box<Expression>>>,
>)
    requires
        pos <= lexemes.len(),
    ensures
        result matches Ok((list, next)) ==> pos <= next <= lexemes.len()
            && optional_expressions_words(list) == words(lexemes@).subrange(
            pos as int,
            next as int,
        ),
        ended(result) == expression_items_ends(scanned_all(lexemes@), pos as int, close@),
    decreases lexemes.len() - pos, 3int,
{
    let ghost all = words(lexemes@);
    if at(lexemes, pos, close) {
        assert(all.subrange(pos as int, pos as int) =~= Seq::<Word>::empty());
        return Ok((None, pos));
    }
    let (head, after_head) = parse_expression(lexemes, pos)?;
    let mut tail: Vec<(Comma, Box<Expression>)> = Vec::new();
    let mut trailing_comma: Option<Comma> = None;
    let mut cur: usize = after_head;
    assert(expression_words(head) + expression_tail_words(tail, 0) =~= all.subrange(
        pos as int,
        cur as int,
    ));
    let ghost s = scanned_all(lexemes@);
    let ghost wanted = expression_items_rest(s, after_head as int, close@);
    while at(lexemes, cur, ",")
        invariant_except_break
            expression_items_rest(s, cur as int, close@) == wanted,
            trailing_comma is None,
            expression_words(head) + expression_tail_words(tail, tail@.len()) == all.subrange(
                pos as int,
                cur as int,
            ),
        invariant
            s == scanned_all(lexemes@),
            expression_items_ends(s, pos as int, close@) == wanted,
            pos < cur <= lexemes.len(),
            all == words(lexemes@),
        ensures
            wanted == Ok::<int, SyntaxError>(cur as int),
            pos < cur <= lexemes.len(),
            expression_words(head) + expression_tail_words(tail, tail@.len())
                + trailing_comma_words(trailing_comma) == all.subrange(pos as int, cur as int),
        decreases lexemes.len() - cur,
    {
        let comma = Comma(empty_token(&lexemes[cur]));
        if at(lexemes, cur + 1, close) {
            trailing_comma = Some(comma);
            proof {
                lemma_one(all, cur as int);
                lemma_join(all, pos as int, cur as int, cur + 1);
            }
            cur = cur + 1;
            break ;
        }
        let (item, after_item) = parse_expression(lexemes, cur + 1)?;
        let ghost before = tail;
        tail.push((comma, Box::new(item)));
        proof {
            lemma_expression_tail_grows(before, tail, before@.len());
            lemma_one(all, cur as int);
            assert(expression_words(head) + expression_tail_words(tail, tail@.len())
                =~= all.subrange(pos as int, cur as int) + all.subrange(cur as int, cur + 1)
                + all.subrange(cur + 1, after_item as int));
            assert(all.subrange(pos as int, cur as int) + all.subrange(cur as int, cur + 1)
                + all.subrange(cur + 1, after_item as int) =~= all.subrange(
                pos as int,
                after_item as int,
            ));
        }
        cur = after_item;
    }
    proof {
        if trailing_comma is None {
            assert(expression_words(head) + expression_tail_words(tail, tail@.len())
                + trailing_comma_words(trailing_comma) =~= expression_words(head)
                + expression_tail_words(tail, tail@.len()));
        }
    }
    Ok((Some(CommaSep1 { head: Box::new(head), tail, trailing_comma }), cur))
}

fn parse_constructor_fields(lexemes: &Vec<Lexeme>, pos: usize) -> (result: Parsed<
    Option<ParensList1<Box<Type>>>,
>)
    requires
        pos <= lexemes.len(),
    ensures
        result matches Ok((fields, next)) ==> pos <= next <= lexemes.len() && fields_words(fields)
            == words(lexemes@).subrange(pos as int, next as int),
        ended(result) == constructor_fields_ends(scanned_all(lexemes@), pos as int),
{
    if at(lexemes, pos, "(") {
        let (fields, next) = parse_type_arguments(lexemes, pos)?;
        Ok((Some(fields), next))
    } else {
        assert(words(lexemes@).subrange(pos as int, pos as int) =~= Seq::<Word>::empty());
        Ok((None, pos))
    }
}

/// The constructors of a declared type, which start at `pos`.
fn parse_constructors(lexemes: &Vec<Lexeme>, pos: usize) -> (result: Parsed<
    (Constructor<Option<Pipe>>, Vec<Constructor<Pipe>>),
>)
    requires
        pos <= lexemes.len(),
    ensures
        result matches Ok(((head, tail), next)) ==> pos < next <= lexemes.len()
            && constructors_words(head, tail@) == words(lexemes@).subrange(
            pos as int,
            next as int,
        ),
        ended(result) == constructors_ends(
            scanned_all(lexemes@),
            pos as int,
        ),
{
    let ghost all = words(lexemes@);
    let ghost s = scanned_all(lexemes@);
    let mut head_pipe: Option<Pipe> = None;
    let mut cur: usize = pos;
    if at(lexemes, cur, "|") {
        head_pipe = Some(Pipe(empty_token(&lexemes[cur])));
        cur = cur + 1;
    }
    assert(optional_pipe_words(head_pipe) =~= all.subrange(
        pos as int,
        cur as int,
    ));
    let ghost after_pipe = cur;
    let (head_name, after_head_name) = parse_proper_name(lexemes, cur)?;
    let (head_fields, after_head) = parse_constructor_fields(lexemes, after_head_name)?;
    let head = Constructor { pipe: head_pipe, constructor_name: head_name, fields: head_fields };
    let mut tail: Vec<Constructor<Pipe>> = Vec::new();
    cur = after_head;
    assert(constructor_tail_words(tail@, 0) =~= all.subrange(cur as int, cur as int));
    let ghost wanted = constructors_rest(s, after_head as int);
    while at(lexemes, cur, "|")
        invariant
            s == scanned_all(lexemes@),
            constructors_ends(s, pos as int) == wanted,
            constructors_rest(s, cur as int) == wanted,
            after_head <= cur <= lexemes.len(),
            all == words(lexemes@),
            constructor_tail_words(tail@, tail@.len()) == all.subrange(
                after_head as int,
                cur as int,
            ),
        decreases lexemes.len() - cur,
    {
        let pipe = Pipe(empty_token(&lexemes[cur]));
        let (constructor_name, after_constructor_name) = parse_proper_name(lexemes, cur + 1)?;
        let (fields, after_fields) = parse_constructor_fields(lexemes, after_constructor_name)?;
        let ghost before = tail@;
        tail.push(Constructor { pipe, constructor_name, fields });
        proof {
            lemma_constructor_tail_grows(before, tail@, before.len());
            assert(seq![word(pipe.0, "|"@), name_word(constructor_name.0)] =~= all.subrange(
                cur as int,
                cur + 2,
            ));
            lemma_join(all, after_head as int, cur as int, cur + 2);
            lemma_join(all, after_head as int, cur + 2, after_fields as int);
        }
        cur = after_fields;
    }
    proof {
        lemma_one(all, after_pipe as int);
        lemma_join(all, pos as int, after_pipe as int, after_head_name as int);
        lemma_join(all, pos as int, after_head_name as int, after_head as int);
        lemma_join(all, pos as int, after_head as int, cur as int);
    }
    Ok(((head, tail), cur))
}

fn parse_type_declaration(lexemes: &Vec<Lexeme>, pos: usize) -> (result: Parsed<TypeDeclaration>)
    requires
        pos <= lexemes.len(),
    ensures
        result matches Ok((tree, next)) ==> pos < next <= lexemes.len() && type_declaration_words(
            tree,
        ) == words(lexemes@).subrange(pos as int, next as int),
        ended(result) == type_declaration_ends(scanned_all(lexemes@), pos as int),
{
    let ghost all = words(lexemes@);
    let (keyword, after_keyword) = expect(lexemes, pos, "type")?;
    let (name, after_name) = parse_proper_name(lexemes, after_keyword)?;
    let mut type_variables: Option<ParensList1<Name>> = None;
    let mut cur: usize = after_name;
    if at(lexemes, cur, "(") {
        let (variables, after_variables) = parse_type_variables(lexemes, cur)?;
        type_variables = Some(variables);
        cur = after_variables;
    }
    proof {
        assert(seq![word(keyword, "type"@), name_word(name.0)] =~= all.subrange(
            pos as int,
            pos + 2,
        ));
        assert(type_variables_words(type_variables) =~= all.subrange(
            pos + 2,
            cur as int,
        ));
        lemma_join(all, pos as int, pos + 2, cur as int);
        if cur < lexemes.len() {
            lemma_one(all, cur as int);
        }
    }
    if at(lexemes, cur, ";") {
        let (semicolon, next) = expect(lexemes, cur, ";")?;
        let tree = TypeDeclaration::WithoutConstructors {
            type_keyword: TypeKeyword(keyword),
            name,
            type_variables,
            semicolon: Semicolon(semicolon),
        };
        proof {
            lemma_join(all, pos as int, cur as int, next as int);
        }
        return Ok((tree, next));
    }
    let (equals, after_equals) = expect(lexemes, cur, "=")?;
    let ((head_constructor, tail_constructors), before_semicolon) = parse_constructors(
        lexemes,
        after_equals,
    )?;
    let (semicolon, next) = expect(lexemes, before_semicolon, ";")?;
    let tree = TypeDeclaration::WithConstructors {
        type_keyword: TypeKeyword(keyword),
        name,
        type_variables,
        equals: Equals(equals),
        head_constructor,
        tail_constructors,
        semicolon: Semicolon(semicolon),
    };
    proof {
        lemma_one(all, before_semicolon as int);
        lemma_join(all, pos as int, cur as int, after_equals as int);
        lemma_join(all, pos as int, after_equals as int, before_semicolon as int);
        lemma_join(all, pos as int, before_semicolon as int, next as int);
    }
    Ok((tree, next))
}

fn parse_value_declaration(lexemes: &Vec<Lexeme>, pos: usize) -> (result: Parsed<ValueDeclaration>)
    requires
        pos <= lexemes.len(),
    ensures
        result matches Ok((tree, next)) ==> pos < next <= lexemes.len() && value_declaration_words(
            tree,
        ) == words(lexemes@).subrange(pos as int, next as int),
        ended(result) == value_declaration_ends(scanned_all(lexemes@), pos as int),
{
    let ghost all = words(lexemes@);
    let (name, after_name) = parse_name(lexemes, pos)?;
    let (type_annotation, after_annotation) = parse_optional_annotation(lexemes, after_name)?;
    let (equals, after_equals) = expect(lexemes, after_annotation, "=")?;
    let (expression, after_expression) = parse_expression(lexemes, after_equals)?;
    let (semicolon, next) = expect(lexemes, after_expression, ";")?;
    let tree = ValueDeclaration {
        name,
        type_annotation,
        equals: Equals(equals),
        expression,
        semicolon: Semicolon(semicolon),
    };
    proof {
        let wanted = all.subrange(pos as int, after_name as int) + all.subrange(
            after_name as int,
            after_annotation as int,
        ) + all.subrange(after_annotation as int, after_equals as int) + all.subrange(
            after_equals as int,
            after_expression as int,
        ) + all.subrange(after_expression as int, next as int);
        lemma_one(all, pos as int);
        lemma_one(all, after_annotation as int);
        lemma_one(all, after_expression as int);
        assert(value_declaration_words(tree) =~= wanted);
        assert(wanted =~= all.subrange(pos as int, next as int));
    }
    Ok((tree, next))
}

fn parse_foreign_value_declaration(lexemes: &Vec<Lexeme>, pos: usize) -> (result: Parsed<
    ForeignValueDeclaration,
>)
    requires
        pos <= lexemes.len(),
    ensures
        result matches Ok((tree, next)) ==> pos < next <= lexemes.len()
            && foreign_value_declaration_words(tree) == words(lexemes@).subrange(
            pos as int,
            next as int,
        ),
        ended(result) == foreign_value_declaration_ends(scanned_all(lexemes@), pos as int),
{
    let ghost all = words(lexemes@);
    let (keyword, after_keyword) = expect(lexemes, pos, "foreign")?;
    let (name, after_name) = parse_name(lexemes, after_keyword)?;
    let (type_annotation, after_annotation) = parse_type_annotation(lexemes, after_name)?;
    let (semicolon, next) = expect(lexemes, after_annotation, ";")?;
    let tree = ForeignValueDeclaration {
        foreign_keyword: ForeignKeyword(keyword),
        name,
        type_annotation,
        semicolon: Semicolon(semicolon),
    };
    proof {
        let wanted = seq![all[pos as int], all[pos + 1]] + all.subrange(
            after_name as int,
            after_annotation as int,
        ) + all.subrange(after_annotation as int, next as int);
        lemma_one(all, after_annotation as int);
        assert(foreign_value_declaration_words(tree) =~= wanted);
        assert(wanted =~= all.subrange(pos as int, next as int));
    }
    Ok((tree, next))
}

/// The tree, where it takes up all the lexemes.
fn whole<T>(lexemes: &Vec<Lexeme>, parsed: Parsed<T>) -> (result: Result<T, SyntaxError>)
    ensures
        result is Ok <==> (parsed matches Ok((_, next)) && next >= lexemes.len()),
        result matches Ok(tree) ==> parsed matches Ok((t, _)) && t == tree,
        result matches Err(e) ==> (parsed matches Err(f) && e == f) || (parsed matches Ok(
            (_, next),
        ) && next < lexemes.len() && e == SyntaxError::UnexpectedLexeme(next)),
{
    match parsed {
        Ok((tree, next)) => {
            if next < lexemes.len() {
                Err(SyntaxError::UnexpectedLexeme(next))
            } else {
                Ok(tree)
            }
        },
        Err(e) => Err(e),
    }
}

/// The lexemes of `text`: its words, cut from it in order.
pub open spec fn read_from(lexemes: Seq<Lexeme>, text: Seq<char>) -> bool {
    crate::cst::lexer::cut_from(lexemes, text)
}

impl Type {
    /// Read a type from source text.
    ///
    /// The type that comes back holds every word of the text, in order, with
    /// its comments: its words are the text's lexemes. A text that cannot be
    /// cut into lexemes, or whose lexemes are not one type and nothing else,
    /// is refused with the error that [`type_text`] gives.
    pub fn parse(source: &str) -> (result: Result<Type, SyntaxError>)
        ensures
            result matches Ok(tree) ==> exists|lexemes: Seq<Lexeme>|
                read_from(lexemes, source@) && type_words(tree) == #[trigger] words(lexemes),
            match result {
                Ok(tree) => type_text(source@) matches Ok(s) && type_words(tree)
                    == words_of(s),
                Err(e) => type_text(source@) == Err::<Seq<Scanned>, SyntaxError>(e),
            },
    {
        let cut = lex(source)?;
        let ghost all = words(cut.lexemes@);
        let result = whole(&cut.lexemes, parse_type(&cut.lexemes, 0));
        proof {
            lemma_words(cut.lexemes@);
            assert(all.subrange(0, all.len() as int) =~= all);
        }
        result
    }
}

impl Expression {
    /// Read an expression from source text.
    ///
    /// The expression that comes back holds every word of the text, in
    /// order, with its comments: its words are the text's lexemes. A text
    /// that cannot be cut into lexemes, or whose lexemes are not one
    /// expression and nothing else, is refused with the error that
    /// [`expression_text`] gives.
    pub fn parse(source: &str) -> (result: Result<Expression, SyntaxError>)
        ensures
            result matches Ok(tree) ==> exists|lexemes: Seq<Lexeme>|
                read_from(lexemes, source@) && expression_words(tree) == #[trigger] words(lexemes),
            match result {
                Ok(tree) => expression_text(source@) matches Ok(s) && expression_words(tree)
                    == words_of(s),
                Err(e) => expression_text(source@) == Err::<Seq<Scanned>, SyntaxError>(e),
            },
    {
        let cut = lex(source)?;
        let ghost all = words(cut.lexemes@);
        let result = whole(&cut.lexemes, parse_expression(&cut.lexemes, 0));
        proof {
            lemma_words(cut.lexemes@);
            assert(all.subrange(0, all.len() as int) =~= all);
        }
        result
    }
}

impl TypeDeclaration {
    /// Read a type declaration from source text: its words are the text's
    /// lexemes. A text that is no type declaration is refused with the error
    /// that [`type_declaration_text`] gives.
    pub fn parse(source: &str) -> (result: Result<TypeDeclaration, SyntaxError>)
        ensures
            result matches Ok(tree) ==> exists|lexemes: Seq<Lexeme>|
                read_from(lexemes, source@) && type_declaration_words(tree) == #[trigger] words(
                    lexemes,
                ),
            match result {
                Ok(tree) => type_declaration_text(source@) matches Ok(s) && type_declaration_words(tree)
                    == words_of(s),
                Err(e) => type_declaration_text(source@) == Err::<Seq<Scanned>, SyntaxError>(e),
            },
    {
        let cut = lex(source)?;
        let ghost all = words(cut.lexemes@);
        let result = whole(&cut.lexemes, parse_type_declaration(&cut.lexemes, 0));
        proof {
            lemma_words(cut.lexemes@);
            assert(all.subrange(0, all.len() as int) =~= all);
        }
        result
    }
}

impl ValueDeclaration {
    /// Read a value declaration from source text: its words are the text's
    /// lexemes. A text that is no value declaration is refused with the error
    /// that [`value_declaration_text`] gives.
    pub fn parse(source: &str) -> (result: Result<ValueDeclaration, SyntaxError>)
        ensures
            result matches Ok(tree) ==> exists|lexemes: Seq<Lexeme>|
                read_from(lexemes, source@) && value_declaration_words(tree) == #[trigger] words(
                    lexemes,
                ),
            match result {
                Ok(tree) => value_declaration_text(source@) matches Ok(s) && value_declaration_words(tree)
                    == words_of(s),
                Err(e) => value_declaration_text(source@) == Err::<Seq<Scanned>, SyntaxError>(e),
            },
    {
        let cut = lex(source)?;
        let ghost all = words(cut.lexemes@);
        let result = whole(&cut.lexemes, parse_value_declaration(&cut.lexemes, 0));
        proof {
            lemma_words(cut.lexemes@);
            assert(all.subrange(0, all.len() as int) =~= all);
        }
        result
    }
}

impl ForeignValueDeclaration {
    /// Read a foreign value declaration from source text: its words are the
    /// text's lexemes. A text that is no foreign value declaration is refused
    /// with the error that [`foreign_value_declaration_text`] gives.
    pub fn parse(source: &str) -> (result: Result<ForeignValueDeclaration, SyntaxError>)
        ensures
            result matches Ok(tree) ==> exists|lexemes: Seq<Lexeme>|
                read_from(lexemes, source@) && foreign_value_declaration_words(tree)
                    == #[trigger] words(lexemes),
            match result {
                Ok(tree) => foreign_value_declaration_text(source@) matches Ok(s) && foreign_value_declaration_words(tree)
                    == words_of(s),
                Err(e) => foreign_value_declaration_text(source@) == Err::<Seq<Scanned>, SyntaxError>(e),
            },
    {
        let cut = lex(source)?;
        let ghost all = words(cut.lexemes@);
        let result = whole(&cut.lexemes, parse_foreign_value_declaration(&cut.lexemes, 0));
        proof {
            lemma_words(cut.lexemes@);
            assert(all.subrange(0, all.len() as int) =~= all);
        }
        result
    }
}

} // verus!
