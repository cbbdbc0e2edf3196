//! The pieces of a layout: texts, breaks and the choices between two layouts.

use vstd::prelude::*;
use vstd::string::StringExecFns;

verus! {

/// The number of columns that one level of indentation takes.
pub const INDENT_WIDTH: u8 = 4;

/// The width that a line is kept under where nothing else is asked for.
pub const MAX_WIDTH: u32 = 80;

/// One piece of a layout.
#[derive(Debug)]
pub enum Item {
    /// Text, written as it stands.
    Text(String),
    /// The line ends here.
    NewLine,
    /// A space, or the end of the line where the line would grow too wide.
    SpaceOrNewLine,
    /// The line ends before whatever is written next.
    ExpectNewLine,
    /// The line ends here unless nothing was written on it yet.
    NewLineUnlessAtLineStart,
    /// The line may end here, if the place is more than one level of
    /// indentation past the start of its line.
    PossibleNewLineIfAboveWidth,
    /// The items, one level deeper.
    Indent(Vec<Item>),
    /// The items, whose line ends give way to those around them.
    NewLineGroup(Vec<Item>),
    /// The items, one level deeper where they start a line.
    IndentIfStartOfLine(Vec<Item>),
    /// `multi` where the items from here to the end of `rest` take up more
    /// than one line, else `single`; `rest` follows either.
    IfMultipleLines {
        multi: Vec<Item>,
        single: Vec<Item>,
        rest: Vec<Item>,
    },
}

/// What an item says, as a mathematical value.
pub enum Piece {
    Text(Seq<char>),
    NewLine,
    SpaceOrNewLine,
    ExpectNewLine,
    NewLineUnlessAtLineStart,
    PossibleNewLineIfAboveWidth,
    Indent(Seq<Piece>),
    NewLineGroup(Seq<Piece>),
    IndentIfStartOfLine(Seq<Piece>),
    IfMultipleLines { multi: Seq<Piece>, single: Seq<Piece>, rest: Seq<Piece> },
}

/// What a run of items says.
pub open spec fn pieces(items: Seq<Item>) -> Seq<Piece>
    decreases items,
{
    Seq::new(
        items.len(),
        |i: int|
            if 0 <= i < items.len() {
                piece(items[i])
            } else {
                Piece::NewLine
            },
    )
}

/// What an item says.
pub open spec fn piece(item: Item) -> Piece
    decreases item,
{
    match item {
        Item::Text(text) => Piece::Text(text@),
        Item::NewLine => Piece::NewLine,
        Item::SpaceOrNewLine => Piece::SpaceOrNewLine,
        Item::ExpectNewLine => Piece::ExpectNewLine,
        Item::NewLineUnlessAtLineStart => Piece::NewLineUnlessAtLineStart,
        Item::PossibleNewLineIfAboveWidth => Piece::PossibleNewLineIfAboveWidth,
        Item::Indent(inner) => Piece::Indent(pieces(inner@)),
        Item::NewLineGroup(inner) => Piece::NewLineGroup(pieces(inner@)),
        Item::IndentIfStartOfLine(inner) => Piece::IndentIfStartOfLine(pieces(inner@)),
        Item::IfMultipleLines { multi, single, rest } => Piece::IfMultipleLines {
            multi: pieces(multi@),
            single: pieces(single@),
            rest: pieces(rest@),
        },
    }
}

/// Add `item` at the end.
pub fn put(items: &mut Vec<Item>, item: Item)
    ensures
        pieces(final(items)@) == pieces(old(items)@).push(piece(item)),
{
    items.push(item);
    assert(pieces(items@) =~= pieces(old(items)@).push(piece(item)));
}

/// Add `text` at the end.
pub fn put_text(items: &mut Vec<Item>, text: &str)
    ensures
        pieces(final(items)@) == pieces(old(items)@).push(Piece::Text(text@)),
{
    put(items, Item::Text(String::from_str(text)));
}

/// Add all of `more` at the end.
pub fn put_all(items: &mut Vec<Item>, more: Vec<Item>)
    ensures
        pieces(final(items)@) == pieces(old(items)@) + pieces(more@),
{
    let mut more = more;
    let ghost added = more@;
    items.append(&mut more);
    assert(pieces(items@) =~= pieces(old(items)@) + pieces(added));
}

/// A copy of the items.
pub fn copy_items(items: &Vec<Item>) -> (copy: Vec<Item>)
    ensures
        pieces(copy@) == pieces(items@),
    decreases items,
{
    let mut copy: Vec<Item> = Vec::new();
    let mut i: usize = 0;
    while i < items.len()
        invariant
            i <= items.len(),
            copy.len() == i,
            forall|j: int| 0 <= j < i ==> piece(copy@[j]) == piece(items@[j]),
        decreases items.len() - i,
    {
        let item = match &items[i] {
            Item::Text(text) => Item::Text(text.clone()),
            Item::NewLine => Item::NewLine,
            Item::SpaceOrNewLine => Item::SpaceOrNewLine,
            Item::ExpectNewLine => Item::ExpectNewLine,
            Item::NewLineUnlessAtLineStart => Item::NewLineUnlessAtLineStart,
            Item::PossibleNewLineIfAboveWidth => Item::PossibleNewLineIfAboveWidth,
            Item::Indent(inner) => Item::Indent(copy_items(inner)),
            Item::NewLineGroup(inner) => Item::NewLineGroup(copy_items(inner)),
            Item::IndentIfStartOfLine(inner) => Item::IndentIfStartOfLine(copy_items(inner)),
            Item::IfMultipleLines { multi, single, rest } => Item::IfMultipleLines {
                multi: copy_items(multi),
                single: copy_items(single),
                rest: copy_items(rest),
            },
        };
        copy.push(item);
        i += 1;
    }
    assert(pieces(copy@) =~= pieces(items@));
    copy
}

} // verus!
