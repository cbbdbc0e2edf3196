//! Writing a layout out as text, with lines kept under a given width.

use crate::fmt::items::{pieces, Item, Piece, INDENT_WIDTH};
use crate::fmt::measure::{is_printable, printable};
use dprint_core::formatting::{
    condition_helpers, condition_resolvers, conditions, ir_helpers, ConditionResolverContext,
    LineNumber, PrintItems, PrintOptions, Signal,
};
use std::rc::Rc;
use vstd::prelude::*;

verus! {

/// The print items of the printing library: the layout in the form in which
/// the library reads it.
#[verifier::external_type_specification]
#[verifier::external_body]
pub struct ExPrintItems(PrintItems);

/// The text that the printing library writes for a layout: at a given
/// width of the line and of one level of indentation, indented with tabs or
/// with spaces, and with a given text at the end of each line.
pub uninterp spec fn printed(
    layout: Seq<Piece>,
    max_width: u32,
    indent_width: u8,
    use_tabs: bool,
    new_line_text: Seq<char>,
) -> Seq<char>;

/// `PrintItems::new`: print items that hold nothing yet.
#[verifier::external_body]
fn print_items() -> PrintItems {
    PrintItems::new()
}

/// `ir_helpers::gen_from_raw_string` behind `PrintItems::extend`: adds a text,
/// with the tabs and line ends in it handed over as such.
#[verifier::external_body]
fn push_text(items: &mut PrintItems, text: &str) {
    items.extend(ir_helpers::gen_from_raw_string(text));
}

/// `PrintItems::push_signal` with `Signal::NewLine`.
#[verifier::external_body]
fn push_new_line(items: &mut PrintItems) {
    items.push_signal(Signal::NewLine);
}

/// `PrintItems::push_signal` with `Signal::SpaceOrNewLine`.
#[verifier::external_body]
fn push_space_or_new_line(items: &mut PrintItems) {
    items.push_signal(Signal::SpaceOrNewLine);
}

/// `PrintItems::push_signal` with `Signal::ExpectNewLine`.
#[verifier::external_body]
fn push_expect_new_line(items: &mut PrintItems) {
    items.push_signal(Signal::ExpectNewLine);
}

/// `conditions::if_true` with the resolver `is_not_start_of_line`: a new line,
/// unless the place is the start of a line.
#[verifier::external_body]
fn push_new_line_unless_at_line_start(items: &mut PrintItems) {
    items.push_condition(
        conditions::if_true(
            "newLineUnlessAtLineStart",
            condition_resolvers::is_not_start_of_line(),
            Signal::NewLine.into(),
        ),
    );
}

/// `conditions::if_above_width` around `Signal::PossibleNewLine`: a possible
/// line end, where the place is more than `width` columns past the start of
/// its line.
#[verifier::external_body]
fn push_possible_new_line_if_above_width(items: &mut PrintItems, width: u8) {
    items.push_condition(
        conditions::if_above_width(
            width,
            Signal::PossibleNewLine.into(),
        ),
    );
}

/// `ir_helpers::with_indent`: adds `inner`, one level deeper.
#[verifier::external_body]
fn push_indented(items: &mut PrintItems, inner: PrintItems) {
    items.extend(ir_helpers::with_indent(inner));
}

/// `ir_helpers::new_line_group`: adds `inner` as a group of its own.
#[verifier::external_body]
fn push_new_line_group(items: &mut PrintItems, inner: PrintItems) {
    items.extend(ir_helpers::new_line_group(inner));
}

/// `conditions::indent_if_start_of_line`: adds `inner`, one level deeper
/// where it starts a line.
#[verifier::external_body]
fn push_indent_if_start_of_line(items: &mut PrintItems, inner: PrintItems) {
    items.push_condition(conditions::indent_if_start_of_line(inner));
}

/// `conditions::if_true_or` with `condition_helpers::is_multiple_lines`
/// between two new line numbers: marks the place, adds `multi` where the
/// lines from the mark to the end of `rest` are more than one and `single`
/// where they are one, and then `rest`.
#[verifier::external_body]
fn push_if_multiple_lines(
    items: &mut PrintItems,
    multi: PrintItems,
    single: PrintItems,
    rest: PrintItems,
) {
    let start = LineNumber::new("start");
    let end = LineNumber::new("end");
    let resolver = Rc::new(
        move |context: &mut ConditionResolverContext|
            condition_helpers::is_multiple_lines(context, start, end),
    );
    items.push_info(start);
    items.push_condition(conditions::if_true_or("ifMultipleLines", resolver, multi, single));
    items.extend(rest);
    items.push_info(end);
}

/// The layout as print items.
fn lower(layout: &Vec<Item>) -> PrintItems
    decreases layout,
{
    let mut items = print_items();
    let mut i: usize = 0;
    while i < layout.len()
        invariant
            i <= layout.len(),
        decreases layout.len() - i,
    {
        match &layout[i] {
            Item::Text(text) => push_text(&mut items, text.as_str()),
            Item::NewLine => push_new_line(&mut items),
            Item::SpaceOrNewLine => push_space_or_new_line(&mut items),
            Item::ExpectNewLine => push_expect_new_line(&mut items),
            Item::NewLineUnlessAtLineStart => push_new_line_unless_at_line_start(&mut items),
            Item::PossibleNewLineIfAboveWidth => push_possible_new_line_if_above_width(
                &mut items,
                INDENT_WIDTH,
            ),
            Item::Indent(inner) => push_indented(&mut items, lower(inner)),
            Item::NewLineGroup(inner) => push_new_line_group(&mut items, lower(inner)),
            Item::IndentIfStartOfLine(inner) => push_indent_if_start_of_line(
                &mut items,
                lower(inner),
            ),
            Item::IfMultipleLines { multi, single, rest } => push_if_multiple_lines(
                &mut items,
                lower(multi),
                lower(single),
                lower(rest),
            ),
        }
        i += 1;
    }
    items
}

/// `dprint_core::formatting::format`: the text of a layout, every line kept
/// under `max_width` columns as far as the layout allows. The printing
/// library counts the levels of indentation in eight bits, the nested line
/// groups in sixteen and lines and columns in thirty-two, and panics where
/// one of them runs over: a layout that is not printable is left out.
#[verifier::external_body]
fn write_out(
    layout: &Vec<Item>,
    max_width: u32,
    indent_width: u8,
    use_tabs: bool,
    new_line_text: &'static str,
) -> (text: String)
    requires
        printable(pieces(layout@)),
    ensures
        text@ == printed(pieces(layout@), max_width, indent_width, use_tabs, new_line_text@),
{
    dprint_core::formatting::format(
        || lower(layout),
        PrintOptions { max_width, indent_width, use_tabs, new_line_text },
    )
}

/// The text of a layout, every line kept under `max_width` columns as far as
/// the layout allows, indented with tabs, lines ended by a line feed.
pub fn print(layout: &Vec<Item>, max_width: u32) -> (text: String)
    requires
        printable(pieces(layout@)),
    ensures
        text@ == printed(pieces(layout@), max_width, INDENT_WIDTH, true, "\n"@),
{
    write_out(layout, max_width, INDENT_WIDTH, true, "\n")
}

/// The text of a layout as [`print`] gives it, where the layout can be
/// written out; nothing where it nests too deep or holds too much.
pub fn try_print(layout: &Vec<Item>, max_width: u32) -> (text: Option<String>)
    ensures
        match text {
            Some(text) => printable(pieces(layout@)) && text@ == printed(
                pieces(layout@),
                max_width,
                INDENT_WIDTH,
                true,
                "\n"@,
            ),
            None => !printable(pieces(layout@)),
        },
{
    if is_printable(layout) {
        Some(print(layout, max_width))
    } else {
        None
    }
}

} // verus!
