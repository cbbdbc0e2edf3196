//! How deep a layout nests and how much it holds: what decides whether it
//! can be written out.

use crate::fmt::items::{pieces, Item, Piece};
use vstd::prelude::*;
use vstd::string::StringExecFns;

verus! {

/// The levels of indentation that a layout may nest: the printer counts
/// them in eight bits.
pub const MAX_INDENTS: usize = 255;

/// The line groups that a layout may nest: the printer counts them in
/// sixteen bits.
pub const MAX_GROUPS: usize = 65535;

/// The weight that a layout may have. The printer counts lines and columns
/// in thirty-two bits. A piece ends at most one line, and a piece or a
/// character takes at most 255 columns, as does one level of indentation:
/// with this weight a line stays under 255 times 255 and 510 times the
/// weight columns, the width of a text that is tried on it counted in.
pub const MAX_WEIGHT: usize = 8388608;

/// The larger of two numbers.
pub open spec fn larger(a: nat, b: nat) -> nat {
    if a >= b {
        a
    } else {
        b
    }
}

/// The deepest nesting among the first `n` pieces: of line groups where
/// `groups` is set, of indentation where it is not.
pub open spec fn depth_of(layout: Seq<Piece>, n: nat, groups: bool) -> nat
    decreases layout, n,
{
    if n == 0 || n > layout.len() {
        0
    } else {
        larger(depth_of(layout, (n - 1) as nat, groups), piece_depth(layout[n - 1], groups))
    }
}

/// The deepest nesting in a piece, the piece itself counted.
pub open spec fn piece_depth(piece: Piece, groups: bool) -> nat
    decreases piece, 0nat,
{
    match piece {
        Piece::Indent(inner) | Piece::IndentIfStartOfLine(inner) => depth_of(
            inner,
            inner.len(),
            groups,
        ) + if groups {
            0nat
        } else {
            1nat
        },
        Piece::NewLineGroup(inner) => depth_of(inner, inner.len(), groups) + if groups {
            1nat
        } else {
            0nat
        },
        Piece::IfMultipleLines { multi, single, rest } => larger(
            depth_of(multi, multi.len(), groups),
            larger(depth_of(single, single.len(), groups), depth_of(rest, rest.len(), groups)),
        ),
        _ => 0,
    }
}

/// The deepest nesting of indentation in a layout.
pub open spec fn indent_depth(layout: Seq<Piece>) -> nat {
    depth_of(layout, layout.len(), false)
}

/// The deepest nesting of line groups in a layout.
pub open spec fn group_depth(layout: Seq<Piece>) -> nat {
    depth_of(layout, layout.len(), true)
}

/// The weight of the first `n` pieces.
pub open spec fn weight_of(layout: Seq<Piece>, n: nat) -> nat
    decreases layout, n,
{
    if n == 0 || n > layout.len() {
        0
    } else {
        weight_of(layout, (n - 1) as nat) + piece_weight(layout[n - 1])
    }
}

/// The weight of a piece: one, and one for each character and each piece
/// that it holds.
pub open spec fn piece_weight(piece: Piece) -> nat
    decreases piece, 0nat,
{
    1 + match piece {
        Piece::Text(text) => text.len(),
        Piece::Indent(inner) | Piece::IndentIfStartOfLine(inner) | Piece::NewLineGroup(
            inner,
        ) => weight_of(inner, inner.len()),
        Piece::IfMultipleLines { multi, single, rest } => weight_of(multi, multi.len())
            + weight_of(single, single.len()) + weight_of(rest, rest.len()),
        _ => 0,
    }
}

/// The weight of a layout: the number of its pieces and of the characters
/// in its texts.
pub open spec fn weight(layout: Seq<Piece>) -> nat {
    weight_of(layout, layout.len())
}

/// Can the layout be written out? It can where its nesting and its weight
/// stay within what the printer counts in.
pub open spec fn printable(layout: Seq<Piece>) -> bool {
    indent_depth(layout) <= MAX_INDENTS && group_depth(layout) <= MAX_GROUPS && weight(layout)
        <= MAX_WEIGHT
}

/// No piece nests deeper than the pieces up to it and behind it do together.
pub proof fn lemma_depth_covers(layout: Seq<Piece>, i: int, n: nat, groups: bool)
    requires
        0 <= i < n <= layout.len(),
    ensures
        piece_depth(layout[i], groups) <= depth_of(layout, n, groups),
    decreases n,
{
    if i < n - 1 {
        lemma_depth_covers(layout, i, (n - 1) as nat, groups);
    }
}

/// The weight grows with the number of pieces.
pub proof fn lemma_weight_grows(layout: Seq<Piece>, i: nat, n: nat)
    requires
        i <= n <= layout.len(),
    ensures
        weight_of(layout, i) <= weight_of(layout, n),
    decreases n,
{
    if i < n {
        lemma_weight_grows(layout, i, (n - 1) as nat);
    }
}

/// Does the layout nest no deeper than `room`? Line groups are counted
/// where `groups` is set, indentation where it is not.
pub fn nests_within(layout: &Vec<Item>, groups: bool, room: usize) -> (fits: bool)
    ensures
        fits == (depth_of(pieces(layout@), layout@.len(), groups) <= room),
    decreases layout,
{
    let ghost all = pieces(layout@);
    let mut i: usize = 0;
    while i < layout.len()
        invariant
            i <= layout.len(),
            all == pieces(layout@),
            depth_of(all, i as nat, groups) <= room,
        decreases layout.len() - i,
    {
        let fits = match &layout[i] {
            Item::Indent(inner) | Item::IndentIfStartOfLine(inner) => {
                if groups {
                    nests_within(inner, groups, room)
                } else {
                    room > 0 && nests_within(inner, groups, room - 1)
                }
            },
            Item::NewLineGroup(inner) => {
                if groups {
                    room > 0 && nests_within(inner, groups, room - 1)
                } else {
                    nests_within(inner, groups, room)
                }
            },
            Item::IfMultipleLines { multi, single, rest } => {
                nests_within(multi, groups, room) && nests_within(single, groups, room)
                    && nests_within(rest, groups, room)
            },
            _ => true,
        };
        assert(fits == (piece_depth(all[i as int], groups) <= room));
        if !fits {
            proof {
                lemma_depth_covers(all, i as int, layout@.len(), groups);
            }
            return false;
        }
        i += 1;
    }
    true
}

/// What is left of `room` when the weight of the layout is taken from it;
/// nothing where the layout weighs more.
pub fn weighs_within(layout: &Vec<Item>, room: usize) -> (left: Option<usize>)
    ensures
        match left {
            Some(left) => weight(pieces(layout@)) + left == room,
            None => weight(pieces(layout@)) > room,
        },
    decreases layout,
{
    let ghost all = pieces(layout@);
    let mut left: usize = room;
    let mut i: usize = 0;
    while i < layout.len()
        invariant
            i <= layout.len(),
            all == pieces(layout@),
            weight_of(all, i as nat) + left == room,
        decreases layout.len() - i,
    {
        proof {
            lemma_weight_grows(all, (i + 1) as nat, layout@.len());
            assert(weight_of(all, (i + 1) as nat) == weight_of(all, i as nat) + piece_weight(
                all[i as int],
            ));
        }
        if left == 0 {
            return None;
        }
        let after = match &layout[i] {
            Item::Text(text) => {
                let length = text.as_str().unicode_len();
                if length <= left - 1 {
                    Some(left - 1 - length)
                } else {
                    None
                }
            },
            Item::Indent(inner) | Item::IndentIfStartOfLine(inner) | Item::NewLineGroup(
                inner,
            ) => weighs_within(inner, left - 1),
            Item::IfMultipleLines { multi, single, rest } => {
                match weighs_within(multi, left - 1) {
                    Some(after_multi) => match weighs_within(single, after_multi) {
                        Some(after_single) => weighs_within(rest, after_single),
                        None => None,
                    },
                    None => None,
                }
            },
            _ => Some(left - 1),
        };
        match after {
            Some(after) => {
                assert(piece_weight(all[i as int]) + after == left);
                left = after;
            },
            None => {
                assert(piece_weight(all[i as int]) > left);
                return None;
            },
        }
        i += 1;
    }
    Some(left)
}

/// Can the layout be written out?
pub fn is_printable(layout: &Vec<Item>) -> (fits: bool)
    ensures
        fits == printable(pieces(layout@)),
{
    nests_within(layout, false, MAX_INDENTS) && nests_within(layout, true, MAX_GROUPS)
        && weighs_within(layout, MAX_WEIGHT).is_some()
}

} // verus!
