//! The grammar: where each form of syntax ends among the lexemes, or why
//! none stands where one is looked for.

use crate::cst::lexer::{scanned, LexemeKind, Scanned, SyntaxError};
use crate::cst::words::Word;
use vstd::prelude::*;

verus! {

/// The place behind a form of syntax, or why the form does not stand there.
pub type Ended = Result<int, SyntaxError>;

/// The words of lexemes.
pub open spec fn words_of(s: Seq<Scanned>) -> Seq<Word> {
    Seq::new(s.len(), |i: int| s[i].word)
}

/// Is the lexeme at `pos` the symbol or keyword `word`?
pub open spec fn stands_at(s: Seq<Scanned>, pos: int, word: Seq<char>) -> bool {
    0 <= pos < s.len() && s[pos].kind != LexemeKind::String && s[pos].kind != LexemeKind::Number
        && s[pos].word.text == word
}

/// Is the lexeme at `pos` of the kind `kind`?
pub open spec fn kind_stands_at(s: Seq<Scanned>, pos: int, kind: LexemeKind) -> bool {
    0 <= pos < s.len() && s[pos].kind == kind
}

/// Is the lexeme at `pos` a word that the language keeps for itself?
pub open spec fn keyword_at(s: Seq<Scanned>, pos: int) -> bool {
    stands_at(s, pos, "if"@) || stands_at(s, pos, "then"@) || stands_at(s, pos, "else"@)
        || stands_at(s, pos, "true"@) || stands_at(s, pos, "false"@) || stands_at(
        s,
        pos,
        "unit"@,
    ) || stands_at(s, pos, "type"@) || stands_at(s, pos, "foreign"@) || stands_at(
        s,
        pos,
        "module"@,
    ) || stands_at(s, pos, "exports"@) || stands_at(s, pos, "import"@) || stands_at(
        s,
        pos,
        "as"@,
    )
}

/// What is wrong at `pos`: the lexeme there, or that there is none.
pub open spec fn failure_at(s: Seq<Scanned>, pos: int) -> SyntaxError {
    if 0 <= pos < s.len() {
        SyntaxError::UnexpectedLexeme(pos as usize)
    } else {
        SyntaxError::UnexpectedEnd
    }
}

/// An end that lies behind `from` and within the lexemes, as every end of a
/// form that starts at or behind `from` does.
pub open spec fn forward(s: Seq<Scanned>, from: int, found: Ended) -> Ended {
    match found {
        Ok(n) => if from < n <= s.len() {
            Ok(n)
        } else {
            Err(SyntaxError::UnexpectedEnd)
        },
        Err(e) => Err(e),
    }
}

/// The symbol or keyword `word`.
pub open spec fn expect_ends(s: Seq<Scanned>, pos: int, word: Seq<char>) -> Ended {
    if stands_at(s, pos, word) {
        Ok(pos + 1)
    } else {
        Err(failure_at(s, pos))
    }
}

/// A name: a word that starts with a lower case letter and is no keyword.
pub open spec fn name_ends(s: Seq<Scanned>, pos: int) -> Ended {
    if kind_stands_at(s, pos, LexemeKind::Name) && !keyword_at(s, pos) {
        Ok(pos + 1)
    } else {
        Err(failure_at(s, pos))
    }
}

/// A proper name: a word that starts with an upper case letter.
pub open spec fn proper_name_ends(s: Seq<Scanned>, pos: int) -> Ended {
    if kind_stands_at(s, pos, LexemeKind::ProperName) {
        Ok(pos + 1)
    } else {
        Err(failure_at(s, pos))
    }
}

/// The place behind the qualifier at `pos`: a proper name and a dot with
/// something behind them, or nothing.
pub open spec fn qualifier_end(s: Seq<Scanned>, pos: int) -> int {
    if kind_stands_at(s, pos, LexemeKind::ProperName) && stands_at(s, pos + 1, "."@) && s.len()
        - pos > 2 {
        pos + 2
    } else {
        pos
    }
}

/// A proper name, with or without a qualifier.
pub open spec fn qualified_proper_name_ends(s: Seq<Scanned>, pos: int) -> Ended {
    proper_name_ends(s, qualifier_end(s, pos))
}

/// A name, with or without a qualifier.
pub open spec fn qualified_name_ends(s: Seq<Scanned>, pos: int) -> Ended {
    name_ends(s, qualifier_end(s, pos))
}

/// Does a bracket open at `pos`?
pub open spec fn opens_at(s: Seq<Scanned>, pos: int) -> bool {
    stands_at(s, pos, "("@) || stands_at(s, pos, "["@)
}

/// Does a bracket close at `pos`?
pub open spec fn closes_at(s: Seq<Scanned>, pos: int) -> bool {
    stands_at(s, pos, ")"@) || stands_at(s, pos, "]"@)
}

/// The place at or behind `i` of the bracket that closes the outermost of
/// `depth` open brackets.
pub open spec fn closes(s: Seq<Scanned>, i: int, depth: int) -> Option<int>
    decreases s.len() - i,
{
    if 0 <= i < s.len() {
        if opens_at(s, i) {
            closes(s, i + 1, depth + 1)
        } else if closes_at(s, i) {
            if depth == 1 {
                Some(i)
            } else {
                closes(s, i + 1, depth - 1)
            }
        } else {
            closes(s, i + 1, depth)
        }
    } else {
        None
    }
}

/// The place of the bracket that closes the one at `pos`.
pub open spec fn closing_of(s: Seq<Scanned>, pos: int) -> Option<int> {
    if opens_at(s, pos) {
        closes(s, pos + 1, 1)
    } else {
        None
    }
}

/// Does `word` follow the bracket that closes the one at `pos`?
pub open spec fn follows(s: Seq<Scanned>, pos: int, word: Seq<char>) -> bool {
    match closing_of(s, pos) {
        Some(close) => stands_at(s, close + 1, word),
        None => false,
    }
}

/// A type: a parenthesized type, a function type, or a name with or without arguments.
pub open spec fn type_ends(s: Seq<Scanned>, pos: int) -> Ended
    decreases s.len() - pos, 2int,
{
    if stands_at(s, pos, "("@) {
        if follows(s, pos, "->"@) {
            match forward(s, pos, type_items_ends(s, pos + 1)) {
                Err(e) => Err(e),
                Ok(before_close) => match expect_ends(s, before_close, ")"@) {
                    Err(e) => Err(e),
                    Ok(after_close) => match expect_ends(s, after_close, "->"@) {
                        Err(e) => Err(e),
                        Ok(after_arrow) => type_ends(s, after_arrow),
                    },
                },
            }
        } else {
            match forward(s, pos, type_ends(s, pos + 1)) {
                Err(e) => Err(e),
                Ok(before_close) => expect_ends(s, before_close, ")"@),
            }
        }
    } else if kind_stands_at(s, pos, LexemeKind::ProperName) {
        match qualified_proper_name_ends(s, pos) {
            Err(e) => Err(e),
            Ok(after) => if stands_at(s, after, "("@) {
                type_arguments_ends(s, after)
            } else {
                Ok(after)
            },
        }
    } else {
        match name_ends(s, pos) {
            Err(e) => Err(e),
            Ok(after) => if stands_at(s, after, "("@) {
                type_arguments_ends(s, after)
            } else {
                Ok(after)
            },
        }
    }
}

/// One or more types between parentheses.
pub open spec fn type_arguments_ends(s: Seq<Scanned>, pos: int) -> Ended
    decreases s.len() - pos, 1int,
{
    match expect_ends(s, pos, "("@) {
        Err(e) => Err(e),
        Ok(after_open) => match forward(s, pos, type_items_ends(s, after_open)) {
            Err(e) => Err(e),
            Ok(before_close) => match expect_ends(s, before_close, ")"@) {
                Err(e) => Err(e),
                Ok(next) => if stands_at(s, after_open, ")"@) {
                    Err(SyntaxError::UnexpectedLexeme(after_open as usize))
                } else {
                    Ok(next)
                },
            },
        },
    }
}

/// Types with commas between them and possibly one behind the last, up to
/// a closing parenthesis; or nothing, where the parenthesis stands at once.
pub open spec fn type_items_ends(s: Seq<Scanned>, pos: int) -> Ended
    decreases s.len() - pos, 3int,
{
    if stands_at(s, pos, ")"@) {
        Ok(pos)
    } else {
        match forward(s, pos, type_ends(s, pos)) {
            Err(e) => Err(e),
            Ok(after_head) => type_items_rest(s, after_head),
        }
    }
}

/// The types behind the first of a list, each behind its comma.
pub open spec fn type_items_rest(s: Seq<Scanned>, cur: int) -> Ended
    decreases s.len() - cur, 4int,
{
    if stands_at(s, cur, ","@) {
        if stands_at(s, cur + 1, ")"@) {
            Ok(cur + 1)
        } else {
            match forward(s, cur + 1, type_ends(s, cur + 1)) {
                Err(e) => Err(e),
                Ok(after_item) => type_items_rest(s, after_item),
            }
        }
    } else {
        Ok(cur)
    }
}

/// A colon and a type.
pub open spec fn annotation_ends(s: Seq<Scanned>, pos: int) -> Ended {
    match expect_ends(s, pos, ":"@) {
        Err(e) => Err(e),
        Ok(after_colon) => type_ends(s, after_colon),
    }
}

/// A type annotation, or nothing where no colon stands.
pub open spec fn optional_annotation_ends(s: Seq<Scanned>, pos: int) -> Ended {
    if stands_at(s, pos, ":"@) {
        annotation_ends(s, pos)
    } else {
        Ok(pos)
    }
}

/// A parameter: a name, with or without its type.
pub open spec fn parameter_ends(s: Seq<Scanned>, pos: int) -> Ended {
    match name_ends(s, pos) {
        Err(e) => Err(e),
        Ok(after_name) => optional_annotation_ends(s, after_name),
    }
}

/// The parameters behind the first, each behind its comma.
pub open spec fn parameters_rest(s: Seq<Scanned>, cur: int) -> Ended
    decreases s.len() - cur,
{
    if stands_at(s, cur, ","@) {
        if stands_at(s, cur + 1, ")"@) {
            Ok(cur + 1)
        } else {
            match forward(s, cur + 1, parameter_ends(s, cur + 1)) {
                Err(e) => Err(e),
                Ok(after_item) => parameters_rest(s, after_item),
            }
        }
    } else {
        Ok(cur)
    }
}

/// The parameters of a function literal, between parentheses.
pub open spec fn parameters_ends(s: Seq<Scanned>, pos: int) -> Ended {
    match expect_ends(s, pos, "("@) {
        Err(e) => Err(e),
        Ok(after_open) => if stands_at(s, after_open, ")"@) {
            Ok(after_open + 1)
        } else {
            match forward(s, pos, parameter_ends(s, after_open)) {
                Err(e) => Err(e),
                Ok(after_head) => match parameters_rest(s, after_head) {
                    Err(e) => Err(e),
                    Ok(before_close) => expect_ends(s, before_close, ")"@),
                },
            }
        },
    }
}

/// The names behind the first, each behind its comma.
pub open spec fn names_rest(s: Seq<Scanned>, cur: int) -> Ended
    decreases s.len() - cur,
{
    if stands_at(s, cur, ","@) {
        if stands_at(s, cur + 1, ")"@) {
            Ok(cur + 1)
        } else {
            match forward(s, cur + 1, name_ends(s, cur + 1)) {
                Err(e) => Err(e),
                Ok(after_item) => names_rest(s, after_item),
            }
        }
    } else {
        Ok(cur)
    }
}

/// The parameters of a declared type: one or more names between parentheses.
pub open spec fn type_variables_ends(s: Seq<Scanned>, pos: int) -> Ended {
    match expect_ends(s, pos, "("@) {
        Err(e) => Err(e),
        Ok(after_open) => match name_ends(s, after_open) {
            Err(e) => Err(e),
            Ok(after_head) => match names_rest(s, after_head) {
                Err(e) => Err(e),
                Ok(before_close) => expect_ends(s, before_close, ")"@),
            },
        },
    }
}

/// An expression: a conditional, a function literal, or an operand with any
/// number of argument lists behind it.
pub open spec fn expression_ends(s: Seq<Scanned>, pos: int) -> Ended
    decreases s.len() - pos, 2int,
{
    if stands_at(s, pos, "if"@) {
        conditional_ends(s, pos)
    } else if stands_at(s, pos, "("@) && (follows(s, pos, "->"@) || follows(s, pos, ":"@)) {
        function_ends(s, pos)
    } else {
        match forward(s, pos, operand_ends(s, pos)) {
            Err(e) => Err(e),
            Ok(after_head) => calls_rest(s, after_head),
        }
    }
}

/// `if`, an expression, `then`, an expression, `else`, an expression.
pub open spec fn conditional_ends(s: Seq<Scanned>, pos: int) -> Ended
    decreases s.len() - pos, 0int,
{
    match expect_ends(s, pos, "if"@) {
        Err(e) => Err(e),
        Ok(after_if) => match forward(s, pos, expression_ends(s, after_if)) {
            Err(e) => Err(e),
            Ok(after_condition) => match expect_ends(s, after_condition, "then"@) {
                Err(e) => Err(e),
                Ok(after_then) => match forward(s, pos, expression_ends(s, after_then)) {
                    Err(e) => Err(e),
                    Ok(after_true) => match expect_ends(s, after_true, "else"@) {
                        Err(e) => Err(e),
                        Ok(after_else) => expression_ends(s, after_else),
                    },
                },
            },
        },
    }
}

/// Parameters, the type of the result or nothing, an arrow, and a body.
pub open spec fn function_ends(s: Seq<Scanned>, pos: int) -> Ended
    decreases s.len() - pos, 0int,
{
    match forward(s, pos, parameters_ends(s, pos)) {
        Err(e) => Err(e),
        Ok(after_parameters) => match forward(
            s,
            pos,
            optional_annotation_ends(s, after_parameters),
        ) {
            Err(e) => Err(e),
            Ok(after_annotation) => match expect_ends(s, after_annotation, "->"@) {
                Err(e) => Err(e),
                Ok(after_arrow) => expression_ends(s, after_arrow),
            },
        },
    }
}

/// An operand: a parenthesized expression, an array, a literal, or a name.
pub open spec fn operand_ends(s: Seq<Scanned>, pos: int) -> Ended
    decreases s.len() - pos, 1int,
{
    if stands_at(s, pos, "("@) {
        match forward(s, pos, expression_ends(s, pos + 1)) {
            Err(e) => Err(e),
            Ok(before_close) => expect_ends(s, before_close, ")"@),
        }
    } else if stands_at(s, pos, "["@) {
        match forward(s, pos, expression_items_ends(s, pos + 1, "]"@)) {
            Err(e) => Err(e),
            Ok(before_close) => expect_ends(s, before_close, "]"@),
        }
    } else if stands_at(s, pos, "true"@) || stands_at(s, pos, "false"@) || stands_at(
        s,
        pos,
        "unit"@,
    ) || kind_stands_at(s, pos, LexemeKind::String) || kind_stands_at(
        s,
        pos,
        LexemeKind::Number,
    ) {
        Ok(pos + 1)
    } else if kind_stands_at(s, qualifier_end(s, pos), LexemeKind::ProperName) {
        qualified_proper_name_ends(s, pos)
    } else {
        qualified_name_ends(s, pos)
    }
}

/// Expressions with commas between them and possibly one behind the last,
/// up to the bracket `close`; or nothing, where the bracket stands at once.
pub open spec fn expression_items_ends(s: Seq<Scanned>, pos: int, close: Seq<char>) -> Ended
    decreases s.len() - pos, 3int,
{
    if stands_at(s, pos, close) {
        Ok(pos)
    } else {
        match forward(s, pos, expression_ends(s, pos)) {
            Err(e) => Err(e),
            Ok(after_head) => expression_items_rest(s, after_head, close),
        }
    }
}

/// The expressions behind the first of a list, each behind its comma.
pub open spec fn expression_items_rest(s: Seq<Scanned>, cur: int, close: Seq<char>) -> Ended
    decreases s.len() - cur, 4int,
{
    if stands_at(s, cur, ","@) {
        if stands_at(s, cur + 1, close) {
            Ok(cur + 1)
        } else {
            match forward(s, cur + 1, expression_ends(s, cur + 1)) {
                Err(e) => Err(e),
                Ok(after_item) => expression_items_rest(s, after_item, close),
            }
        }
    } else {
        Ok(cur)
    }
}

/// Any number of argument lists.
pub open spec fn calls_rest(s: Seq<Scanned>, cur: int) -> Ended
    decreases s.len() - cur, 5int,
{
    if stands_at(s, cur, "("@) {
        match forward(s, cur, expression_items_ends(s, cur + 1, ")"@)) {
            Err(e) => Err(e),
            Ok(before_close) => match expect_ends(s, before_close, ")"@) {
                Err(e) => Err(e),
                Ok(after_close) => calls_rest(s, after_close),
            },
        }
    } else {
        Ok(cur)
    }
}

/// The fields of a constructor, or nothing where no parenthesis stands.
pub open spec fn constructor_fields_ends(s: Seq<Scanned>, pos: int) -> Ended {
    if stands_at(s, pos, "("@) {
        type_arguments_ends(s, pos)
    } else {
        Ok(pos)
    }
}

/// The constructors behind the first, each behind its pipe.
pub open spec fn constructors_rest(s: Seq<Scanned>, cur: int) -> Ended
    decreases s.len() - cur,
{
    if stands_at(s, cur, "|"@) {
        match proper_name_ends(s, cur + 1) {
            Err(e) => Err(e),
            Ok(after_name) => match forward(s, cur, constructor_fields_ends(s, after_name)) {
                Err(e) => Err(e),
                Ok(after_fields) => constructors_rest(s, after_fields),
            },
        }
    } else {
        Ok(cur)
    }
}

/// The constructors of a declared type: the first with or without a pipe
/// before it, the others each behind a pipe.
pub open spec fn constructors_ends(s: Seq<Scanned>, pos: int) -> Ended {
    let after_pipe = if stands_at(s, pos, "|"@) {
        pos + 1
    } else {
        pos
    };
    match proper_name_ends(s, after_pipe) {
        Err(e) => Err(e),
        Ok(after_head_name) => match constructor_fields_ends(s, after_head_name) {
            Err(e) => Err(e),
            Ok(after_head) => constructors_rest(s, after_head),
        },
    }
}

/// The place behind the parameters of a declared type, where it has any.
pub open spec fn optional_type_variables_ends(s: Seq<Scanned>, pos: int) -> Ended {
    if stands_at(s, pos, "("@) {
        type_variables_ends(s, pos)
    } else {
        Ok(pos)
    }
}

/// `type`, a proper name, parameters or none, and either a semicolon or `=`,
/// constructors with pipes between them, and a semicolon.
pub open spec fn type_declaration_ends(s: Seq<Scanned>, pos: int) -> Ended {
    match expect_ends(s, pos, "type"@) {
        Err(e) => Err(e),
        Ok(after_keyword) => match proper_name_ends(s, after_keyword) {
            Err(e) => Err(e),
            Ok(after_name) => match optional_type_variables_ends(s, after_name) {
                Err(e) => Err(e),
                Ok(after_variables) => if stands_at(s, after_variables, ";"@) {
                    Ok(after_variables + 1)
                } else {
                    match expect_ends(s, after_variables, "="@) {
                        Err(e) => Err(e),
                        Ok(after_equals) => match constructors_ends(s, after_equals) {
                            Err(e) => Err(e),
                            Ok(before_semicolon) => expect_ends(s, before_semicolon, ";"@),
                        },
                    }
                },
            },
        },
    }
}

/// A name, its type or none, `=`, an expression, and a semicolon.
pub open spec fn value_declaration_ends(s: Seq<Scanned>, pos: int) -> Ended {
    match name_ends(s, pos) {
        Err(e) => Err(e),
        Ok(after_name) => match optional_annotation_ends(s, after_name) {
            Err(e) => Err(e),
            Ok(after_annotation) => match expect_ends(s, after_annotation, "="@) {
                Err(e) => Err(e),
                Ok(after_equals) => match expression_ends(s, after_equals) {
                    Err(e) => Err(e),
                    Ok(after_expression) => expect_ends(s, after_expression, ";"@),
                },
            },
        },
    }
}

/// `foreign`, a name, its type, and a semicolon.
pub open spec fn foreign_value_declaration_ends(s: Seq<Scanned>, pos: int) -> Ended {
    match expect_ends(s, pos, "foreign"@) {
        Err(e) => Err(e),
        Ok(after_keyword) => match name_ends(s, after_keyword) {
            Err(e) => Err(e),
            Ok(after_name) => match annotation_ends(s, after_name) {
                Err(e) => Err(e),
                Ok(after_annotation) => expect_ends(s, after_annotation, ";"@),
            },
        },
    }
}

/// A form that is to take up all the lexemes: it does where it ends behind
/// the last of them; the lexeme behind it is in the way where it does not.
pub open spec fn takes_all(s: Seq<Scanned>, found: Ended) -> Result<(), SyntaxError> {
    match found {
        Ok(next) => if next < s.len() {
            Err(SyntaxError::UnexpectedLexeme(next as usize))
        } else {
            Ok(())
        },
        Err(e) => Err(e),
    }
}

/// The lexemes of a text that is to hold one form and nothing else, where
/// `found` says how the form that starts at the first of them ends: the
/// lexemes where the form takes them all, the error where it does not.
pub open spec fn only(s: Seq<Scanned>, found: Ended) -> Result<Seq<Scanned>, SyntaxError> {
    match takes_all(s, found) {
        Ok(()) => Ok(s),
        Err(e) => Err(e),
    }
}

/// The lexemes of a text that is a type and nothing else; the error of a
/// text that cannot be cut into words, or that is not one.
pub open spec fn type_text(text: Seq<char>) -> Result<Seq<Scanned>, SyntaxError> {
    match scanned(text) {
        Ok(scan) => only(scan.lexemes, type_ends(scan.lexemes, 0)),
        Err(e) => Err(e),
    }
}

/// The lexemes of a text that is an expression and nothing else; the error of a
/// text that cannot be cut into words, or that is not one.
pub open spec fn expression_text(text: Seq<char>) -> Result<Seq<Scanned>, SyntaxError> {
    match scanned(text) {
        Ok(scan) => only(scan.lexemes, expression_ends(scan.lexemes, 0)),
        Err(e) => Err(e),
    }
}

/// The lexemes of a text that is a type declaration and nothing else; the error of a
/// text that cannot be cut into words, or that is not one.
pub open spec fn type_declaration_text(text: Seq<char>) -> Result<Seq<Scanned>, SyntaxError> {
    match scanned(text) {
        Ok(scan) => only(scan.lexemes, type_declaration_ends(scan.lexemes, 0)),
        Err(e) => Err(e),
    }
}

/// The lexemes of a text that is a value declaration and nothing else; the error of a
/// text that cannot be cut into words, or that is not one.
pub open spec fn value_declaration_text(text: Seq<char>) -> Result<Seq<Scanned>, SyntaxError> {
    match scanned(text) {
        Ok(scan) => only(scan.lexemes, value_declaration_ends(scan.lexemes, 0)),
        Err(e) => Err(e),
    }
}

/// The lexemes of a text that is a foreign value declaration and nothing else; the error of a
/// text that cannot be cut into words, or that is not one.
pub open spec fn foreign_value_declaration_text(text: Seq<char>) -> Result<Seq<Scanned>, SyntaxError> {
    match scanned(text) {
        Ok(scan) => only(scan.lexemes, foreign_value_declaration_ends(scan.lexemes, 0)),
        Err(e) => Err(e),
    }
}

} // verus!
