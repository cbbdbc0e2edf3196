//! Cutting a source text into lexemes, each with the comments around it.
//!
//! A comment runs from `--` to the end of its line. A comment behind a lexeme
//! on the same line trails that lexeme; every other comment leads the lexeme
//! that follows it.

use crate::cst::words::Word;
use crate::token::{comment_text, comment_texts, Comment, Span};
use vstd::prelude::*;
use vstd::string::StringExecFns;

verus! {

/// What kind of word a lexeme is.
#[derive(Debug, Clone, Copy, PartialEq, Eq, Structural)]
pub enum LexemeKind {
    /// A word that starts with a lower case letter or an underscore.
    Name,
    /// A word that starts with an upper case letter.
    ProperName,
    /// Digits, possibly with a dot among them.
    Number,
    /// Text between double quotes; the lexeme's text leaves the quotes out.
    String,
    /// Punctuation: one of `( ) [ ] , : ; = | .` or `..`, `->`, `<-`.
    Symbol,
}

/// A word of the source with its place and its comments.
#[derive(Debug, Clone)]
pub struct Lexeme {
    /// Where the word stands, counted in characters.
    pub span: Span,
    /// The comments above the word.
    pub leading_comments: Vec<Comment>,
    /// The comment behind the word, on its line.
    pub trailing_comment: Option<Comment>,
    /// The kind of word.
    pub kind: LexemeKind,
    /// The word itself.
    pub text: String,
}

/// Why a source text could not be read.
#[derive(Debug, Clone, Copy, PartialEq, Eq, Structural)]
pub enum SyntaxError {
    /// A character that starts no lexeme, at this offset.
    UnexpectedCharacter(usize),
    /// A string that is still open where its line or the text ends, opened at this offset.
    UnterminatedString(usize),
    /// A lexeme that cannot stand where it does: its index among the lexemes.
    UnexpectedLexeme(usize),
    /// The text ended where more was needed.
    UnexpectedEnd,
}

/// The lexemes of a text, and the comments behind the last of them.
#[derive(Debug, Clone)]
pub struct Lexemes {
    /// The lexemes, in order.
    pub lexemes: Vec<Lexeme>,
    /// Comments that no lexeme follows.
    pub dangling_comments: Vec<Comment>,
}

pub open spec fn is_lower(c: char) -> bool {
    ('a' <= c && c <= 'z') || c == '_'
}

pub open spec fn is_upper(c: char) -> bool {
    'A' <= c && c <= 'Z'
}

pub open spec fn is_digit(c: char) -> bool {
    '0' <= c && c <= '9'
}

pub open spec fn is_word(c: char) -> bool {
    is_lower(c) || is_upper(c) || is_digit(c)
}

pub open spec fn is_blank(c: char) -> bool {
    c == ' ' || c == '\t'
}

pub open spec fn is_space(c: char) -> bool {
    is_blank(c) || c == '\n' || c == '\r'
}

pub open spec fn is_single_symbol(c: char) -> bool {
    c == '(' || c == ')' || c == '[' || c == ']' || c == ',' || c == ':' || c == ';' || c == '='
        || c == '|' || c == '.'
}

fn lower(c: char) -> (b: bool)
    ensures
        b == is_lower(c),
{
    ('a' <= c && c <= 'z') || c == '_'
}

fn upper(c: char) -> (b: bool)
    ensures
        b == is_upper(c),
{
    'A' <= c && c <= 'Z'
}

fn digit(c: char) -> (b: bool)
    ensures
        b == is_digit(c),
{
    '0' <= c && c <= '9'
}

fn word(c: char) -> (b: bool)
    ensures
        b == is_word(c),
{
    lower(c) || upper(c) || digit(c)
}

fn blank(c: char) -> (b: bool)
    ensures
        b == is_blank(c),
{
    c == ' ' || c == '\t'
}

fn space(c: char) -> (b: bool)
    ensures
        b == is_space(c),
{
    blank(c) || c == '\n' || c == '\r'
}

fn single_symbol(c: char) -> (b: bool)
    ensures
        b == is_single_symbol(c),
{
    c == '(' || c == ')' || c == '[' || c == ']' || c == ',' || c == ':' || c == ';' || c == '='
        || c == '|' || c == '.'
}

/// Does a comment start at offset `i`?
pub open spec fn comment_starts(text: Seq<char>, i: int) -> bool {
    0 <= i && i + 1 < text.len() && text[i] == '-' && text[i + 1] == '-'
}

/// The kinds of characters that runs of the source are made of.
pub enum Class {
    /// Letters, digits and underscores.
    Word,
    /// Digits and dots.
    Number,
    /// Blanks and line ends.
    Space,
    /// Spaces and tabs.
    Blank,
    /// Anything but a line end.
    Line,
    /// Anything but a quote or a line end.
    Quoted,
}

/// Is the character of the class?
pub open spec fn within(class: Class, c: char) -> bool {
    match class {
        Class::Word => is_word(c),
        Class::Number => is_digit(c) || c == '.',
        Class::Space => is_space(c),
        Class::Blank => is_blank(c),
        Class::Line => c != '\n',
        Class::Quoted => c != '"' && c != '\n',
    }
}

/// The offset at which the run of characters of `class` that starts at `i`
/// ends: that of the first character at or behind `i` that is not of the
/// class, or the end of the text.
pub open spec fn run_end(text: Seq<char>, i: int, class: Class) -> int
    decreases text.len() - i,
{
    if 0 <= i < text.len() && within(class, text[i]) {
        run_end(text, i + 1, class)
    } else {
        i
    }
}

/// A run ends where its first character of another class stands.
pub proof fn lemma_run_end(text: Seq<char>, i: int, j: int, class: Class)
    requires
        0 <= i <= j <= text.len(),
        forall|k: int| i <= k < j ==> within(class, text[k]),
        j < text.len() ==> !within(class, text[j]),
    ensures
        run_end(text, i, class) == j,
    decreases j - i,
{
    if i < j {
        lemma_run_end(text, i + 1, j, class);
    }
}

/// A run ends at or behind its start, within the text.
pub proof fn lemma_run_end_bounds(text: Seq<char>, i: int, class: Class)
    requires
        0 <= i <= text.len(),
    ensures
        i <= run_end(text, i, class) <= text.len(),
    decreases text.len() - i,
{
    if i < text.len() && within(class, text[i]) {
        lemma_run_end_bounds(text, i + 1, class);
    }
}

/// The offset `end` moved back over the spaces before it, as far as `low`.
pub open spec fn trimmed(text: Seq<char>, low: int, end: int) -> int
    decreases end - low,
{
    if low < end <= text.len() && is_space(text[end - 1]) {
        trimmed(text, low, end - 1)
    } else {
        end
    }
}

/// The comment that starts at offset `i`: its text, from the dashes to the
/// last character of its line that is no space, and the offset at which its
/// line ends.
pub open spec fn comment_of(text: Seq<char>, i: int) -> (Seq<char>, int) {
    let stop = run_end(text, i, Class::Line);
    (text.subrange(i, trimmed(text, i + 2, stop)), stop)
}

/// The line of a comment ends behind its dashes.
pub proof fn lemma_comment_goes_on(text: Seq<char>, i: int)
    requires
        comment_starts(text, i),
    ensures
        i + 2 <= comment_of(text, i).1 <= text.len(),
        i + 2 <= trimmed(text, i + 2, comment_of(text, i).1) <= comment_of(text, i).1,
{
    assert(run_end(text, i, Class::Line) == run_end(text, i + 2, Class::Line)) by {
        assert(run_end(text, i + 1, Class::Line) == run_end(text, i + 2, Class::Line));
    }
    lemma_run_end_bounds(text, i + 2, Class::Line);
    lemma_trimmed_bounds(text, i + 2, comment_of(text, i).1);
}

/// Trimming stays between the lower bound and the end.
pub proof fn lemma_trimmed_bounds(text: Seq<char>, low: int, end: int)
    requires
        low <= end,
    ensures
        low <= trimmed(text, low, end) <= end,
    decreases end - low,
{
    if low < end <= text.len() && is_space(text[end - 1]) {
        lemma_trimmed_bounds(text, low, end - 1);
    }
}

/// The comments that stand at or behind offset `i` before anything else
/// does, behind the comments `found`, and the offset of what follows them.
pub open spec fn leading_from(text: Seq<char>, i: int, found: Seq<Seq<char>>) -> (
    Seq<Seq<char>>,
    int,
)
    decreases text.len() - i,
{
    if 0 <= i <= text.len() {
        let at = run_end(text, i, Class::Space);
        if comment_starts(text, at) {
            proof {
                lemma_run_end_bounds(text, i, Class::Space);
                lemma_comment_goes_on(text, at);
            }
            leading_from(text, comment_of(text, at).1, found.push(comment_of(text, at).0))
        } else {
            (found, at)
        }
    } else {
        (found, i)
    }
}

/// What follows the comments is no space and no comment, and stands at or
/// behind where the search started.
pub proof fn lemma_leading_from(text: Seq<char>, i: int, found: Seq<Seq<char>>)
    requires
        0 <= i <= text.len(),
    ensures
        i <= leading_from(text, i, found).1 <= text.len(),
    decreases text.len() - i,
{
    let at = run_end(text, i, Class::Space);
    lemma_run_end_bounds(text, i, Class::Space);
    if comment_starts(text, at) {
        lemma_comment_goes_on(text, at);
        lemma_leading_from(text, comment_of(text, at).1, found.push(comment_of(text, at).0));
    }
}

/// The lexeme that starts at offset `i`: its kind, its text and the offset
/// at which it ends, or why none starts there.
pub open spec fn lexeme_at(text: Seq<char>, i: int) -> Result<(LexemeKind, Seq<char>, int), SyntaxError> {
    let c = text[i];
    if is_lower(c) {
        let j = run_end(text, i + 1, Class::Word);
        Ok((LexemeKind::Name, text.subrange(i, j), j))
    } else if is_upper(c) {
        let j = run_end(text, i + 1, Class::Word);
        Ok((LexemeKind::ProperName, text.subrange(i, j), j))
    } else if is_digit(c) {
        let j = run_end(text, i + 1, Class::Number);
        Ok((LexemeKind::Number, text.subrange(i, j), j))
    } else if c == '"' {
        let j = run_end(text, i + 1, Class::Quoted);
        if j < text.len() && text[j] == '"' {
            Ok((LexemeKind::String, text.subrange(i + 1, j), j + 1))
        } else {
            Err(SyntaxError::UnterminatedString(i as usize))
        }
    } else if i + 1 < text.len() && ((c == '-' && text[i + 1] == '>') || (c == '<' && text[i + 1]
        == '-') || (c == '.' && text[i + 1] == '.')) {
        Ok((LexemeKind::Symbol, text.subrange(i, i + 2), i + 2))
    } else if is_single_symbol(c) {
        Ok((LexemeKind::Symbol, text.subrange(i, i + 1), i + 1))
    } else {
        Err(SyntaxError::UnexpectedCharacter(i as usize))
    }
}

/// A lexeme ends behind its start, within the text.
pub proof fn lemma_lexeme_at(text: Seq<char>, i: int)
    requires
        0 <= i < text.len(),
    ensures
        lexeme_at(text, i) matches Ok((_, _, j)) ==> i < j <= text.len(),
{
    lemma_run_end_bounds(text, i + 1, Class::Word);
    lemma_run_end_bounds(text, i + 1, Class::Number);
    lemma_run_end_bounds(text, i + 1, Class::Quoted);
}

/// A lexeme as a mathematical value: its word and its kind.
pub struct Scanned {
    pub word: Word,
    pub kind: LexemeKind,
}

/// What a text is cut into: its lexemes, and the comments behind the last.
pub struct Scan {
    pub lexemes: Seq<Scanned>,
    pub dangling: Seq<Seq<char>>,
}

/// The comment that trails a lexeme which ends at offset `end`, if there is
/// one, and the offset behind it.
pub open spec fn trailing_from(text: Seq<char>, end: int) -> (Option<Seq<char>>, int) {
    let after = run_end(text, end, Class::Blank);
    if comment_starts(text, after) {
        (Some(comment_of(text, after).0), comment_of(text, after).1)
    } else {
        (None, after)
    }
}

/// The text from offset `i` on cut into lexemes, behind the lexemes `done`.
///
/// The comments before a lexeme lead it. A comment behind it on its line
/// trails it. The first character that starts no lexeme, and the first
/// string that its line leaves open, end the cutting.
pub open spec fn scan_from(text: Seq<char>, i: int, done: Seq<Scanned>) -> Result<Scan, SyntaxError>
    decreases text.len() - i,
{
    if 0 <= i <= text.len() {
        let (leading, start) = leading_from(text, i, Seq::empty());
        if start >= text.len() {
            Ok(Scan { lexemes: done, dangling: leading })
        } else {
            match lexeme_at(text, start) {
                Err(e) => Err(e),
                Ok((kind, word, end)) => {
                    let (trailing, next) = trailing_from(text, end);
                    proof {
                        lemma_leading_from(text, i, Seq::empty());
                        lemma_lexeme_at(text, start);
                        lemma_run_end_bounds(text, end, Class::Blank);
                        if comment_starts(text, run_end(text, end, Class::Blank)) {
                            lemma_comment_goes_on(text, run_end(text, end, Class::Blank));
                        }
                    }
                    scan_from(
                        text,
                        next,
                        done.push(
                            Scanned {
                                word: Word {
                                    span: Span {
                                        start_offset: start as usize,
                                        end_offset: end as usize,
                                    },
                                    leading,
                                    trailing,
                                    text: word,
                                    quoted: kind == LexemeKind::String,
                                },
                                kind,
                            },
                        ),
                    )
                },
            }
        }
    } else {
        Ok(Scan { lexemes: done, dangling: Seq::empty() })
    }
}

/// The text cut into lexemes.
pub open spec fn scanned(text: Seq<char>) -> Result<Scan, SyntaxError> {
    scan_from(text, 0, Seq::empty())
}

impl Lexeme {
    /// The lexeme as a mathematical value.
    pub open spec fn scanned(self) -> Scanned {
        Scanned { word: self@, kind: self.kind }
    }
}

/// What lexemes say.
pub open spec fn scanned_all(lexemes: Seq<Lexeme>) -> Seq<Scanned> {
    Seq::new(lexemes.len(), |i: int| lexemes[i].scanned())
}

fn at_comment(source: &str, n: usize, i: usize) -> (b: bool)
    requires
        n == source@.len(),
        i <= n,
    ensures
        b == comment_starts(source@, i as int),
{
    i < n && n - i > 1 && source.get_char(i) == '-' && source.get_char(i + 1) == '-'
}

/// The offset at which the line that holds offset `i` ends.
fn line_end(source: &str, n: usize, i: usize) -> (j: usize)
    requires
        n == source@.len(),
        i <= n,
    ensures
        i <= j <= n,
        forall|k: int| i <= k < j ==> source@[k] != '\n',
        j < n ==> source@[j as int] == '\n',
        j == run_end(source@, i as int, Class::Line),
{
    let mut j: usize = i;
    while j < n && source.get_char(j) != '\n'
        invariant
            n == source@.len(),
            i <= j <= n,
            forall|k: int| i <= k < j ==> source@[k] != '\n',
        decreases n - j,
    {
        j += 1;
    }
    proof {
        lemma_run_end(source@, i as int, j as int, Class::Line);
    }
    j
}

/// The offset of the first character at or after `i` that is not part of a word.
fn word_end(source: &str, n: usize, i: usize) -> (j: usize)
    requires
        n == source@.len(),
        i <= n,
    ensures
        i <= j <= n,
        forall|k: int| i <= k < j ==> is_word(source@[k]),
        j < n ==> !is_word(source@[j as int]),
        j == run_end(source@, i as int, Class::Word),
{
    let mut j: usize = i;
    while j < n && word(source.get_char(j))
        invariant
            n == source@.len(),
            i <= j <= n,
            forall|k: int| i <= k < j ==> is_word(source@[k]),
        decreases n - j,
    {
        j += 1;
    }
    proof {
        lemma_run_end(source@, i as int, j as int, Class::Word);
    }
    j
}

/// The offset of the first character at or after `i` that is neither a digit nor a dot.
fn number_end(source: &str, n: usize, i: usize) -> (j: usize)
    requires
        n == source@.len(),
        i <= n,
    ensures
        i <= j <= n,
        forall|k: int| i <= k < j ==> is_digit(source@[k]) || source@[k] == '.',
        j < n ==> !(is_digit(source@[j as int]) || source@[j as int] == '.'),
        j == run_end(source@, i as int, Class::Number),
{
    let mut j: usize = i;
    while j < n && (digit(source.get_char(j)) || source.get_char(j) == '.')
        invariant
            n == source@.len(),
            i <= j <= n,
            forall|k: int| i <= k < j ==> is_digit(source@[k]) || source@[k] == '.',
        decreases n - j,
    {
        j += 1;
    }
    proof {
        lemma_run_end(source@, i as int, j as int, Class::Number);
    }
    j
}

/// The text of `source` between two offsets.
fn slice(source: &str, n: usize, from: usize, to: usize) -> (text: String)
    requires
        n == source@.len(),
        from <= to <= n,
    ensures
        text@ == source@.subrange(from as int, to as int),
{
    String::from_str(source.substring_char(from, to))
}

/// The comment that starts at offset `i`, without blanks at its end.
fn comment_at(source: &str, n: usize, i: usize) -> (found: (Comment, usize))
    requires
        n == source@.len(),
        comment_starts(source@, i as int),
    ensures
        i + 2 <= found.1 <= n,
        found.1 < n ==> source@[found.1 as int] == '\n',
        forall|k: int| i <= k < found.1 ==> source@[k] != '\n',
        exists|end: int|
            i + 2 <= end <= found.1 && found.0@ == source@.subrange(i as int, end) && forall|
                k: int,
            |
                end <= k < found.1 ==> is_space(source@[k]),
        (found.0@, found.1 as int) == comment_of(source@, i as int),
{
    let stop = line_end(source, n, i);
    let mut end: usize = stop;
    while end > i + 2 && space(source.get_char(end - 1))
        invariant
            n == source@.len(),
            i + 2 <= end <= stop <= n,
            forall|k: int| end <= k < stop ==> is_space(source@[k]),
            trimmed(source@, i + 2, end as int) == trimmed(source@, i + 2, stop as int),
        decreases end,
    {
        end -= 1;
    }
    (Comment(slice(source, n, i, end)), stop)
}

/// Does a symbol start at offset `i`?
pub open spec fn symbol_starts(text: Seq<char>, i: int) -> bool {
    0 <= i < text.len() && (is_single_symbol(text[i]) || (i + 1 < text.len() && ((text[i] == '-'
        && text[i + 1] == '>') || (text[i] == '<' && text[i + 1] == '-'))))
}

/// Does a lexeme start at offset `i`? A word, a number, a string or a symbol does.
pub open spec fn lexeme_starts(text: Seq<char>, i: int) -> bool {
    0 <= i < text.len() && (is_lower(text[i]) || is_upper(text[i]) || is_digit(text[i]) || text[i]
        == '"' || symbol_starts(text, i))
}

/// The string that opens at offset `i` is still open where its line ends:
/// whatever quote follows stands behind a line end.
pub open spec fn string_stays_open(text: Seq<char>, i: int) -> bool {
    &&& 0 <= i < text.len()
    &&& text[i] == '"'
    &&& forall|k: int|
        i < k < text.len() && #[trigger] text[k] == '"' ==> exists|m: int|
            i < m < k && #[trigger] text[m] == '\n'
}

/// Where the lexeme that starts at `i` ends, and its kind and text.
fn word_at(source: &str, n: usize, i: usize) -> (found: Result<(LexemeKind, String, usize), SyntaxError>)
    requires
        n == source@.len(),
        i < n,
    ensures
        found matches Ok((kind, text, j)) ==> i < j <= n && (kind == LexemeKind::String ==> i + 2
            <= j && text@ == source@.subrange(i + 1, j - 1)) && (kind != LexemeKind::String
            ==> text@ == source@.subrange(i as int, j as int)),
        found matches Err(e) ==> (e == SyntaxError::UnexpectedCharacter(i) && !lexeme_starts(
            source@,
            i as int,
        )) || (e == SyntaxError::UnterminatedString(i) && string_stays_open(source@, i as int)),
        match found {
            Ok((kind, text, j)) => lexeme_at(source@, i as int) == Ok::<
                (LexemeKind, Seq<char>, int),
                SyntaxError,
            >((kind, text@, j as int)),
            Err(e) => lexeme_at(source@, i as int) == Err::<
                (LexemeKind, Seq<char>, int),
                SyntaxError,
            >(e),
        },
{
    let c = source.get_char(i);
    if lower(c) {
        let j = word_end(source, n, i + 1);
        Ok((LexemeKind::Name, slice(source, n, i, j), j))
    } else if upper(c) {
        let j = word_end(source, n, i + 1);
        Ok((LexemeKind::ProperName, slice(source, n, i, j), j))
    } else if digit(c) {
        let j = number_end(source, n, i + 1);
        Ok((LexemeKind::Number, slice(source, n, i, j), j))
    } else if c == '"' {
        let mut j: usize = i + 1;
        while j < n && source.get_char(j) != '"' && source.get_char(j) != '\n'
            invariant
                n == source@.len(),
                i < j <= n,
                forall|k: int| i < k < j ==> source@[k] != '"' && source@[k] != '\n',
            decreases n - j,
        {
            j += 1;
        }
        proof {
            lemma_run_end(source@, i + 1, j as int, Class::Quoted);
        }
        if j < n && source.get_char(j) == '"' {
            Ok((LexemeKind::String, slice(source, n, i + 1, j), j + 1))
        } else {
            assert forall|k: int|
                i < k < source@.len() && #[trigger] source@[k] == '"' implies exists|m: int|
                i < m < k && #[trigger] source@[m] == '\n' by {
                assert(j < n);
                assert(source@[j as int] == '\n');
                assert(j < k);
            }
            Err(SyntaxError::UnterminatedString(i))
        }
    } else if n - i > 1 && ((c == '-' && source.get_char(i + 1) == '>') || (c == '<'
        && source.get_char(i + 1) == '-') || (c == '.' && source.get_char(i + 1) == '.')) {
        Ok((LexemeKind::Symbol, slice(source, n, i, i + 2), i + 2))
    } else if single_symbol(c) {
        Ok((LexemeKind::Symbol, slice(source, n, i, i + 1), i + 1))
    } else {
        assert(!symbol_starts(source@, i as int));
        assert(!lexeme_starts(source@, i as int));
        Err(SyntaxError::UnexpectedCharacter(i))
    }
}

/// Every lexeme's text is the source at its span (for a string, the text
/// between the quotes), and the lexemes stand in the order of the source
/// without overlapping.
pub open spec fn cut_from(lexemes: Seq<Lexeme>, text: Seq<char>) -> bool {
    &&& forall|i: int|
        0 <= i < lexemes.len() ==> {
            let l = #[trigger] lexemes[i];
            &&& l.span.start_offset < l.span.end_offset <= text.len()
            &&& l.kind != LexemeKind::String ==> l.text@ == text.subrange(
                l.span.start_offset as int,
                l.span.end_offset as int,
            )
            &&& l.kind == LexemeKind::String ==> l.span.start_offset + 2 <= l.span.end_offset
                && l.text@ == text.subrange(l.span.start_offset + 1, l.span.end_offset - 1)
        }
    &&& forall|i: int, j: int|
        0 <= i < j < lexemes.len() ==> (#[trigger] lexemes[i]).span.end_offset
            <= (#[trigger] lexemes[j]).span.start_offset
}

/// Cut `source` into lexemes.
///
/// Fails at the first character that starts no lexeme and at a string that
/// its line leaves open.
pub fn lex(source: &str) -> (result: Result<Lexemes, SyntaxError>)
    ensures
        match result {
            Ok(cut) => scanned(source@) == Ok::<Scan, SyntaxError>(
                Scan {
                    lexemes: scanned_all(cut.lexemes@),
                    dangling: comment_texts(cut.dangling_comments@),
                },
            ),
            Err(e) => scanned(source@) == Err::<Scan, SyntaxError>(e),
        },
        result matches Ok(cut) ==> cut_from(cut.lexemes@, source@),
        result matches Err(e) ==> (e matches SyntaxError::UnexpectedCharacter(at) && at
            < source@.len() && !lexeme_starts(source@, at as int) && !is_space(source@[at as int])
            && !comment_starts(source@, at as int)) || (e matches SyntaxError::UnterminatedString(
            at,
        ) && string_stays_open(source@, at as int)),
{
    let n = source.unicode_len();
    let mut lexemes: Vec<Lexeme> = Vec::new();
    let mut i: usize = 0;
    assert(scanned_all(lexemes@) =~= Seq::<Scanned>::empty());
    loop
        invariant
            n == source@.len(),
            i <= n,
            scan_from(source@, i as int, scanned_all(lexemes@)) == scanned(source@),
            cut_from(lexemes@, source@),
            forall|k: int| 0 <= k < lexemes.len() ==> (#[trigger] lexemes[k]).span.end_offset <= i,
        decreases n - i,
    {
        let mut leading_comments: Vec<Comment> = Vec::new();
        let ghost entered = i;
        let ghost done = scanned_all(lexemes@);
        let ghost led = leading_from(source@, i as int, Seq::empty());
        assert(comment_texts(leading_comments@) =~= Seq::<Seq<char>>::empty());
        loop
            invariant_except_break
                leading_from(source@, i as int, comment_texts(leading_comments@)) == led,
            invariant
                n == source@.len(),
                entered <= i <= n,
            ensures
                i < n ==> !is_space(source@[i as int]) && !comment_starts(source@, i as int),
                (comment_texts(leading_comments@), i as int) == led,
            decreases n - i,
        {
            let ghost resumed = i;
            let ghost found = comment_texts(leading_comments@);
            while i < n && space(source.get_char(i))
                invariant
                    n == source@.len(),
                    resumed <= i <= n,
                    forall|k: int| resumed <= k < i ==> is_space(source@[k]),
                decreases n - i,
            {
                i += 1;
            }
            proof {
                lemma_run_end(source@, resumed as int, i as int, Class::Space);
            }
            if at_comment(source, n, i) {
                let (comment, stop) = comment_at(source, n, i);
                leading_comments.push(comment);
                assert(comment_texts(leading_comments@) =~= found.push(comment@));
                i = stop;
            } else {
                break ;
            }
        }
        if i >= n {
            return Ok(Lexemes { lexemes, dangling_comments: leading_comments });
        }
        let start = i;
        let (kind, text, end) = match word_at(source, n, i) {
            Ok(found) => found,
            Err(e) => {
                return Err(e);
            },
        };
        i = end;
        while i < n && blank(source.get_char(i))
            invariant
                n == source@.len(),
                end <= i <= n,
                forall|k: int| end <= k < i ==> is_blank(source@[k]),
            decreases n - i,
        {
            i += 1;
        }
        proof {
            lemma_run_end(source@, end as int, i as int, Class::Blank);
        }
        let mut trailing_comment: Option<Comment> = None;
        if at_comment(source, n, i) {
            let (comment, stop) = comment_at(source, n, i);
            trailing_comment = Some(comment);
            i = stop;
        }
        assert((comment_text(trailing_comment), i as int) == trailing_from(source@, end as int));
        let ghost before = lexemes@;
        lexemes.push(
            Lexeme {
                span: Span { start_offset: start, end_offset: end },
                leading_comments,
                trailing_comment,
                kind,
                text,
            },
        );
        proof {
            assert(scanned_all(lexemes@) =~= done.push(lexemes@[before.len() as int].scanned()));
            assert(scan_from(source@, entered as int, done) == scan_from(
                source@,
                i as int,
                scanned_all(lexemes@),
            ));
        }
        proof {
            assert forall|a: int| 0 <= a < lexemes.len() implies {
                let l = #[trigger] lexemes[a];
                &&& l.span.start_offset < l.span.end_offset <= source@.len()
                &&& l.kind != LexemeKind::String ==> l.text@ == source@.subrange(
                    l.span.start_offset as int,
                    l.span.end_offset as int,
                )
                &&& l.kind == LexemeKind::String ==> l.span.start_offset + 2 <= l.span.end_offset
                    && l.text@ == source@.subrange(
                    l.span.start_offset + 1,
                    l.span.end_offset - 1,
                )
            } by {
                if a < before.len() {
                    assert(lexemes[a] == before[a]);
                }
            }
            assert forall|a: int, b: int| 0 <= a < b < lexemes.len() implies (#[trigger] lexemes[a]).span.end_offset
                <= (#[trigger] lexemes[b]).span.start_offset by {
                assert(lexemes[a] == before[a]);
                if b < before.len() {
                    assert(lexemes[b] == before[b]);
                }
            }
        }
    }
}

} // verus!
