//! Source spans and syntax tokens.
//!
//! A token is a piece of syntax with its source location and the comments
//! that surround it:
//!
//! ```ditto
//! -- leading comment
//! -- leading comment
//! token -- trailing comment
//! ```

use vstd::prelude::*;

verus! {

/// A source span: a stretch of the source text, its offsets counted in
/// characters from the start of the text.
#[derive(Debug, Clone, Copy, PartialEq, Eq, Hash, Structural)]
pub struct Span {
    /// The offset of the first character.
    pub start_offset: usize,
    /// The offset behind the last character.
    pub end_offset: usize,
}

impl Span {
    /// The smallest span that covers both `self` and `other`.
    pub open spec fn merged(self, other: Span) -> Span {
        Span {
            start_offset: if self.start_offset <= other.start_offset {
                self.start_offset
            } else {
                other.start_offset
            },
            end_offset: if self.end_offset >= other.end_offset {
                self.end_offset
            } else {
                other.end_offset
            },
        }
    }

    /// Merge two spans, returning a new [Span] spanning `self` and `other`.
    #[must_use]
    pub fn merge(&self, other: &Self) -> (merged: Self)
        ensures
            merged == self.merged(*other),
    {
        let start_offset: usize = if self.start_offset <= other.start_offset {
            self.start_offset
        } else {
            other.start_offset
        };
        let end_offset: usize = if self.end_offset >= other.end_offset {
            self.end_offset
        } else {
            other.end_offset
        };
        Span { start_offset, end_offset }
    }
}

/// Merging is commutative, idempotent and associative, and the merged span
/// starts no later and ends no earlier than either argument.
pub proof fn lemma_merge_is_a_join(a: Span, b: Span, c: Span)
    ensures
        a.merged(b) == b.merged(a),
        a.merged(a) == a,
        a.merged(b).merged(c) == a.merged(b.merged(c)),
        a.merged(b).start_offset <= a.start_offset,
        a.merged(b).start_offset <= b.start_offset,
        a.merged(b).end_offset >= a.end_offset,
        a.merged(b).end_offset >= b.end_offset,
{
}

/// A string token prefixed with `"--"`.
#[derive(Debug, Clone, PartialEq)]
pub struct Comment(pub String);

impl View for Comment {
    type V = Seq<char>;

    open spec fn view(&self) -> Seq<char> {
        self.0@
    }
}

impl Comment {
    /// A comment with the same text.
    pub fn duplicate(&self) -> (copy: Comment)
        ensures
            copy@ == self@,
    {
        Comment(self.0.clone())
    }
}

/// The texts of a run of comments, in order.
pub open spec fn comment_texts(comments: Seq<Comment>) -> Seq<Seq<char>> {
    Seq::new(comments.len(), |i: int| comments[i]@)
}

/// The text of an optional comment.
pub open spec fn comment_text(comment: Option<Comment>) -> Option<Seq<char>> {
    match comment {
        Some(c) => Some(c@),
        None => None,
    }
}

/// A run of comments with the same texts.
pub fn duplicate_comments(comments: &Vec<Comment>) -> (copy: Vec<Comment>)
    ensures
        comment_texts(copy@) == comment_texts(comments@),
{
    let mut copy: Vec<Comment> = Vec::new();
    let mut i: usize = 0;
    while i < comments.len()
        invariant
            i <= comments.len(),
            copy.len() == i,
            forall|j: int| 0 <= j < i ==> copy[j]@ == comments[j]@,
        decreases comments.len() - i,
    {
        copy.push(comments[i].duplicate());
        i += 1;
    }
    assert(comment_texts(copy@) =~= comment_texts(comments@));
    copy
}

/// A syntactic element.
///
/// Each token consists of its source location, surrounding comments, and
/// the token value itself.
#[derive(Debug, Clone)]
pub struct Token<Value> {
    /// The source location of this token.
    pub span: Span,
    /// Optional leading comments (zero or more).
    pub leading_comments: Vec<Comment>,
    /// Optional trailing comment (zero or one).
    pub trailing_comment: Option<Comment>,
    /// The actual token value.
    pub value: Value,
}

/// A [String] syntax node.
pub type StringToken = Token<String>;

/// An empty syntax node.
///
/// Empty because the contents are implied, and in the interest of efficiency.
///
/// Use cases include single characters (`=`, `:`) and keywords (`import`, `type`).
pub type EmptyToken = Token<()>;

impl<Value> Token<Value> {
    /// The texts of the comments above the token.
    pub open spec fn leading(&self) -> Seq<Seq<char>> {
        comment_texts(self.leading_comments@)
    }

    /// The text of the comment behind the token.
    pub open spec fn trailing(&self) -> Option<Seq<char>> {
        comment_text(self.trailing_comment)
    }

    /// The token carries a comment, above or behind it.
    pub open spec fn commented(&self) -> bool {
        self.leading().len() > 0 || self.trailing() is Some
    }

    /// Does this token have any comments?
    pub fn has_comments(&self) -> (any: bool)
        ensures
            any == self.commented(),
    {
        self.has_leading_comments() || self.has_trailing_comment()
    }

    /// Does this token have any leading comments?
    pub fn has_leading_comments(&self) -> (any: bool)
        ensures
            any == (self.leading().len() > 0),
    {
        self.leading_comments.len() != 0
    }

    /// Does this token have a trailing comment?
    pub fn has_trailing_comment(&self) -> (any: bool)
        ensures
            any == (self.trailing() is Some),
    {
        self.trailing_comment.is_some()
    }

    /// Drop the value associated with this [Token].
    pub fn to_empty(&self) -> (empty: EmptyToken)
        ensures
            empty.span == self.span,
            empty.leading() == self.leading(),
            empty.trailing() == self.trailing(),
            empty.value == (),
    {
        let trailing_comment = match &self.trailing_comment {
            Some(comment) => Some(comment.duplicate()),
            None => None,
        };
        Token {
            span: self.span,
            leading_comments: duplicate_comments(&self.leading_comments),
            trailing_comment,
            value: (),
        }
    }
}

/// `.`
#[derive(Debug, Clone)]
pub struct Dot(pub EmptyToken);

/// `..`
#[derive(Debug, Clone)]
pub struct DoubleDot(pub EmptyToken);

/// `,`
#[derive(Debug, Clone)]
pub struct Comma(pub EmptyToken);

/// `:`
#[derive(Debug, Clone)]
pub struct Colon(pub EmptyToken);

/// `;`
#[derive(Debug, Clone)]
pub struct Semicolon(pub EmptyToken);

/// `=`
#[derive(Debug, Clone)]
pub struct Equals(pub EmptyToken);

/// `(`
#[derive(Debug, Clone)]
pub struct OpenParen(pub EmptyToken);

/// `)`
#[derive(Debug, Clone)]
pub struct CloseParen(pub EmptyToken);

/// `[`
#[derive(Debug, Clone)]
pub struct OpenBracket(pub EmptyToken);

/// `]`
#[derive(Debug, Clone)]
pub struct CloseBracket(pub EmptyToken);

/// `<-`
#[derive(Debug, Clone)]
pub struct LeftArrow(pub EmptyToken);

/// `->`
#[derive(Debug, Clone)]
pub struct RightArrow(pub EmptyToken);

/// `|`
#[derive(Debug, Clone)]
pub struct Pipe(pub EmptyToken);

/// `module`
#[derive(Debug, Clone)]
pub struct ModuleKeyword(pub EmptyToken);

/// `exports`
#[derive(Debug, Clone)]
pub struct ExportsKeyword(pub EmptyToken);

/// `import`
#[derive(Debug, Clone)]
pub struct ImportKeyword(pub EmptyToken);

/// `as`
#[derive(Debug, Clone)]
pub struct AsKeyword(pub EmptyToken);

/// `true`
#[derive(Debug, Clone)]
pub struct TrueKeyword(pub EmptyToken);

/// `false`
#[derive(Debug, Clone)]
pub struct FalseKeyword(pub EmptyToken);

/// `unit`
#[derive(Debug, Clone)]
pub struct UnitKeyword(pub EmptyToken);

/// `if`
#[derive(Debug, Clone)]
pub struct IfKeyword(pub EmptyToken);

/// `then`
#[derive(Debug, Clone)]
pub struct ThenKeyword(pub EmptyToken);

/// `else`
#[derive(Debug, Clone)]
pub struct ElseKeyword(pub EmptyToken);

/// `type`
#[derive(Debug, Clone)]
pub struct TypeKeyword(pub EmptyToken);

/// `foreign`
#[derive(Debug, Clone)]
pub struct ForeignKeyword(pub EmptyToken);

} // verus!
