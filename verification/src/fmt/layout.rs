//! The layouts of tokens and of lists.

use crate::fmt::items::{copy_items, pieces, put, put_all, put_text, Item, Piece};
use crate::token::{Comma, Token};
use vstd::prelude::*;

verus! {

/// Comments, each on a line of its own.
pub open spec fn comment_lines(comments: Seq<Seq<char>>) -> Seq<Piece>
    decreases comments.len(),
{
    if comments.len() == 0 {
        Seq::empty()
    } else {
        comment_lines(comments.drop_last()).push(Piece::Text(comments.last())).push(
            Piece::ExpectNewLine,
        )
    }
}

/// The comments above a token: they start a line of their own.
pub open spec fn leading_layout(comments: Seq<Seq<char>>) -> Seq<Piece> {
    if comments.len() == 0 {
        Seq::empty()
    } else {
        seq![Piece::NewLineUnlessAtLineStart] + comment_lines(comments)
    }
}

/// A token's text and, two spaces behind it, the comment that trails it.
pub open spec fn bare_layout(text: Seq<char>, trailing: Option<Seq<char>>) -> Seq<Piece> {
    match trailing {
        Some(comment) => seq![
            Piece::Text(text),
            Piece::Text("  "@),
            Piece::Text(comment),
            Piece::ExpectNewLine,
        ],
        None => seq![Piece::Text(text)],
    }
}

/// A token with the comments around it.
pub open spec fn token_layout<V>(token: Token<V>, text: Seq<char>) -> Seq<Piece> {
    leading_layout(token.leading()) + bare_layout(text, token.trailing())
}

/// A single space.
pub open spec fn space_layout() -> Seq<Piece> {
    seq![Piece::Text(" "@)]
}

/// `inner` behind a space where it fits on the line, else on a line of its
/// own and indented; always so where `force` is set.
pub open spec fn group_layout(inner: Seq<Piece>, force: bool) -> Seq<Piece> {
    if force {
        seq![Piece::NewLine, Piece::Indent(inner)]
    } else {
        seq![Piece::SpaceOrNewLine, Piece::IndentIfStartOfLine(inner)]
    }
}

/// No items.
pub fn nothing() -> (items: Vec<Item>)
    ensures
        pieces(items@) == Seq::<Piece>::empty(),
{
    let items: Vec<Item> = Vec::new();
    assert(pieces(items@) =~= Seq::<Piece>::empty());
    items
}

/// A single space.
pub fn space() -> (items: Vec<Item>)
    ensures
        pieces(items@) == space_layout(),
{
    let mut items = nothing();
    put_text(&mut items, " ");
    items
}

/// See [`group_layout`].
pub fn group(inner: Vec<Item>, force: bool) -> (items: Vec<Item>)
    ensures
        pieces(items@) == group_layout(pieces(inner@), force),
{
    let mut items = nothing();
    if force {
        put(&mut items, Item::NewLine);
        put(&mut items, Item::Indent(inner));
    } else {
        put(&mut items, Item::SpaceOrNewLine);
        put(&mut items, Item::IndentIfStartOfLine(inner));
    }
    items
}

/// The comments above a token.
pub fn gen_leading<V>(token: &Token<V>) -> (items: Vec<Item>)
    ensures
        pieces(items@) == leading_layout(token.leading()),
{
    let mut items = nothing();
    if token.leading_comments.len() == 0 {
        return items;
    }
    let ghost texts = token.leading();
    let mut i: usize = 0;
    while i < token.leading_comments.len()
        invariant
            i <= token.leading_comments.len(),
            texts == token.leading(),
            texts.len() == token.leading_comments.len(),
            pieces(items@) == comment_lines(texts.take(i as int)),
        decreases token.leading_comments.len() - i,
    {
        let ghost before = pieces(items@);
        put_text(&mut items, token.leading_comments[i].0.as_str());
        put(&mut items, Item::ExpectNewLine);
        proof {
            assert(texts.take(i + 1).drop_last() =~= texts.take(i as int));
            assert(texts.take(i + 1).last() == texts[i as int]);
        }
        i += 1;
    }
    assert(texts.take(i as int) =~= texts);
    let mut all = nothing();
    put(&mut all, Item::NewLineUnlessAtLineStart);
    put_all(&mut all, items);
    assert(pieces(all@) =~= leading_layout(token.leading()));
    all
}

/// A token's text and the comment that trails it.
pub fn gen_bare<V>(token: &Token<V>, text: &str) -> (items: Vec<Item>)
    ensures
        pieces(items@) == bare_layout(text@, token.trailing()),
{
    let mut items = nothing();
    put_text(&mut items, text);
    match &token.trailing_comment {
        Some(comment) => {
            put_text(&mut items, "  ");
            put_text(&mut items, comment.0.as_str());
            put(&mut items, Item::ExpectNewLine);
        },
        None => {},
    }
    assert(pieces(items@) =~= bare_layout(text@, token.trailing()));
    items
}

/// A token with the comments around it.
pub fn gen_token<V>(token: &Token<V>, text: &str) -> (items: Vec<Item>)
    ensures
        pieces(items@) == token_layout(*token, text@),
{
    let mut items = gen_leading(token);
    put_all(&mut items, gen_bare(token, text));
    items
}

/// A token that holds its own text.
pub fn gen_string_token(token: &Token<String>) -> (items: Vec<Item>)
    ensures
        pieces(items@) == token_layout(*token, token.value@),
{
    gen_token(token, token.value.as_str())
}

/// The layouts of the values of a list, of the commas between them and of the
/// comma behind the last, if the source has one.
#[derive(Debug)]
pub struct ListContents {
    /// One layout for each value.
    pub elements: Vec<Vec<Item>>,
    /// One layout for each comma between two values.
    pub commas: Vec<Vec<Item>>,
    /// The layout of the comma behind the last value.
    pub trailing_comma: Option<Vec<Item>>,
}

/// What a run of layouts says.
pub open spec fn layouts(all: Seq<Vec<Item>>) -> Seq<Seq<Piece>> {
    Seq::new(all.len(), |i: int| pieces(all[i]@))
}

/// What an optional layout says.
pub open spec fn optional_layout(layout: Option<Vec<Item>>) -> Option<Seq<Piece>> {
    match layout {
        Some(items) => Some(pieces(items@)),
        None => None,
    }
}

/// What a list's contents say.
pub struct Contents {
    pub elements: Seq<Seq<Piece>>,
    pub commas: Seq<Seq<Piece>>,
    pub trailing_comma: Option<Seq<Piece>>,
}

impl View for ListContents {
    type V = Contents;

    open spec fn view(&self) -> Contents {
        Contents {
            elements: layouts(self.elements@),
            commas: layouts(self.commas@),
            trailing_comma: optional_layout(self.trailing_comma),
        }
    }
}

impl Contents {
    /// There is one comma between each two values.
    pub open spec fn wf(self) -> bool {
        self.elements.len() == self.commas.len() + 1
    }

    /// The values after the first up to the `n`th, each behind its comma and `separator`.
    pub open spec fn followers(self, separator: Piece, n: nat) -> Seq<Piece>
        decreases n,
    {
        if n == 0 {
            Seq::empty()
        } else {
            self.followers(separator, (n - 1) as nat) + self.commas[n - 1] + seq![separator]
                + self.elements[n as int]
        }
    }

    /// The values on one line, which may end behind any of the commas.
    pub open spec fn single_line(self) -> Seq<Piece> {
        seq![Piece::PossibleNewLineIfAboveWidth] + self.elements[0] + self.followers(
            Piece::SpaceOrNewLine,
            self.commas.len(),
        )
    }

    /// The comma behind the last value: the one of the source, or a new one.
    pub open spec fn last_comma(self) -> Seq<Piece> {
        match self.trailing_comma {
            Some(comma) => comma,
            None => seq![Piece::Text(","@)],
        }
    }

    /// The values on a line each, indented, each with a comma behind it, and
    /// then the comments that stand above the closing bracket.
    pub open spec fn multi_line(self, close_leading: Seq<Seq<char>>) -> Seq<Piece> {
        seq![
            Piece::NewLine,
            Piece::Indent(
                self.elements[0] + self.followers(Piece::NewLine, self.commas.len())
                    + self.last_comma() + (if close_leading.len() > 0 {
                    seq![Piece::NewLine] + leading_layout(close_leading)
                } else {
                    Seq::empty()
                }),
            ),
            Piece::NewLine,
        ]
    }
}

/// A bracketed list.
///
/// An empty list is its two brackets, with the comments above the closing
/// one between them on lines of their own. A list with values takes one line
/// where it fits and holds no comment, and else a line for each value.
pub open spec fn list_layout<V, W>(
    open: Token<V>,
    open_text: Seq<char>,
    contents: Option<Contents>,
    commented: bool,
    close: Token<W>,
    close_text: Seq<char>,
) -> Seq<Piece> {
    let close_leading = close.leading();
    let closing = bare_layout(close_text, close.trailing());
    token_layout(open, open_text) + (match contents {
        None => (if close_leading.len() > 0 {
            seq![Piece::NewLine, Piece::Indent(leading_layout(close_leading))]
        } else {
            Seq::empty()
        }) + closing,
        Some(contents) => {
            if open.trailing() is Some || commented || close_leading.len() > 0 {
                contents.multi_line(close_leading) + closing
            } else {
                seq![
                    Piece::IfMultipleLines {
                        multi: contents.multi_line(close_leading),
                        single: contents.single_line(),
                        rest: closing,
                    },
                ]
            }
        },
    })
}

fn gen_followers(contents: &ListContents, new_lines: bool) -> (items: Vec<Item>)
    requires
        contents@.wf(),
    ensures
        pieces(items@) == contents@.followers(
            if new_lines {
                Piece::NewLine
            } else {
                Piece::SpaceOrNewLine
            },
            contents@.commas.len(),
        ),
{
    let ghost separator = if new_lines {
        Piece::NewLine
    } else {
        Piece::SpaceOrNewLine
    };
    let mut items = nothing();
    let mut i: usize = 0;
    while i < contents.commas.len()
        invariant
            contents@.wf(),
            i <= contents.commas.len(),
            separator == (if new_lines {
                Piece::NewLine
            } else {
                Piece::SpaceOrNewLine
            }),
            pieces(items@) == contents@.followers(separator, i as nat),
        decreases contents.commas.len() - i,
    {
        put_all(&mut items, copy_items(&contents.commas[i]));
        if new_lines {
            put(&mut items, Item::NewLine);
        } else {
            put(&mut items, Item::SpaceOrNewLine);
        }
        put_all(&mut items, copy_items(&contents.elements[i + 1]));
        assert(pieces(items@) =~= contents@.followers(separator, (i + 1) as nat));
        i += 1;
    }
    items
}

fn gen_single_line(contents: &ListContents) -> (items: Vec<Item>)
    requires
        contents@.wf(),
    ensures
        pieces(items@) == contents@.single_line(),
{
    let mut items = nothing();
    put(&mut items, Item::PossibleNewLineIfAboveWidth);
    put_all(&mut items, copy_items(&contents.elements[0]));
    put_all(&mut items, gen_followers(contents, false));
    assert(pieces(items@) =~= contents@.single_line());
    items
}

fn gen_multi_line<W>(contents: &ListContents, close: &Token<W>) -> (items: Vec<Item>)
    requires
        contents@.wf(),
    ensures
        pieces(items@) == contents@.multi_line(close.leading()),
{
    let mut inner = nothing();
    put_all(&mut inner, copy_items(&contents.elements[0]));
    put_all(&mut inner, gen_followers(contents, true));
    match &contents.trailing_comma {
        Some(comma) => {
            put_all(&mut inner, copy_items(comma));
        },
        None => {
            put_text(&mut inner, ",");
        },
    }
    if close.has_leading_comments() {
        put(&mut inner, Item::NewLine);
        put_all(&mut inner, gen_leading(close));
    }
    let ghost close_leading = close.leading();
    assert(pieces(inner@) =~= contents@.elements[0] + contents@.followers(
        Piece::NewLine,
        contents@.commas.len(),
    ) + contents@.last_comma() + (if close_leading.len() > 0 {
        seq![Piece::NewLine] + leading_layout(close_leading)
    } else {
        Seq::empty()
    }));
    let mut items = nothing();
    put(&mut items, Item::NewLine);
    put(&mut items, Item::Indent(inner));
    put(&mut items, Item::NewLine);
    assert(pieces(items@) =~= contents@.multi_line(close.leading()));
    items
}

/// See [`list_layout`].
pub fn gen_list<V, W>(
    open: &Token<V>,
    open_text: &str,
    contents: &Option<ListContents>,
    commented: bool,
    close: &Token<W>,
    close_text: &str,
) -> (items: Vec<Item>)
    requires
        contents matches Some(c) ==> c@.wf(),
    ensures
        pieces(items@) == list_layout(
            *open,
            open_text@,
            match contents {
                Some(c) => Some(c@),
                None => None,
            },
            commented,
            *close,
            close_text@,
        ),
{
    let mut items = gen_token(open, open_text);
    let ghost front = pieces(items@);
    let closing = gen_bare(close, close_text);
    match contents {
        None => {
            if close.has_leading_comments() {
                put(&mut items, Item::NewLine);
                put(&mut items, Item::Indent(gen_leading(close)));
            }
            put_all(&mut items, closing);
            assert(pieces(items@) =~= front + ((if close.leading().len() > 0 {
                seq![Piece::NewLine, Piece::Indent(leading_layout(close.leading()))]
            } else {
                Seq::empty()
            }) + bare_layout(close_text@, close.trailing())));
        },
        Some(contents) => {
            let multi = gen_multi_line(contents, close);
            if open.has_trailing_comment() || commented || close.has_leading_comments() {
                put_all(&mut items, multi);
                put_all(&mut items, closing);
                assert(pieces(items@) =~= front + (contents@.multi_line(close.leading())
                    + bare_layout(close_text@, close.trailing())));
            } else {
                let single = gen_single_line(contents);
                put(&mut items, Item::IfMultipleLines { multi, single, rest: closing });
                assert(pieces(items@) =~= front + seq![
                    Piece::IfMultipleLines {
                        multi: contents@.multi_line(close.leading()),
                        single: contents@.single_line(),
                        rest: bare_layout(close_text@, close.trailing()),
                    },
                ]);
            }
        },
    }
    items
}

/// The layouts of the commas of a list's tail.
pub open spec fn comma_layouts<T>(tail: Seq<(Comma, T)>) -> Seq<Seq<Piece>> {
    Seq::new(tail.len(), |i: int| token_layout(tail[i].0.0, ","@))
}

/// The layout of the comma behind a list's last value.
pub open spec fn trailing_comma_layout(comma: Option<Comma>) -> Option<Seq<Piece>> {
    match comma {
        Some(comma) => Some(token_layout(comma.0, ","@)),
        None => None,
    }
}

/// See [`comma_layouts`].
pub fn gen_commas<T>(tail: &Vec<(Comma, T)>) -> (commas: Vec<Vec<Item>>)
    ensures
        layouts(commas@) == comma_layouts(tail@),
{
    let mut commas: Vec<Vec<Item>> = Vec::new();
    let mut i: usize = 0;
    while i < tail.len()
        invariant
            i <= tail.len(),
            commas.len() == i,
            forall|j: int| 0 <= j < i ==> pieces(commas@[j]@) == token_layout(tail@[j].0.0, ","@),
        decreases tail.len() - i,
    {
        commas.push(gen_token(&tail[i].0.0, ","));
        i += 1;
    }
    assert(layouts(commas@) =~= comma_layouts(tail@));
    commas
}

/// See [`trailing_comma_layout`].
pub fn gen_trailing_comma(comma: &Option<Comma>) -> (items: Option<Vec<Item>>)
    ensures
        optional_layout(items) == trailing_comma_layout(*comma),
{
    match comma {
        Some(comma) => Some(gen_token(&comma.0, ",")),
        None => None,
    }
}

} // verus!
