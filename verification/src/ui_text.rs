//! The text the monitor shows for each item of its lists, line by line, with
//! the role of each piece of text; the terminal front end gives each role
//! its colours.

use crate::json_rpc::{push_char, push_decimal, push_text, spec_decimal};
use vstd::prelude::*;
use vstd::string::StrSliceExecFns;

verus! {

/// The role of a piece of text in the monitor.
#[derive(Clone, Copy, Debug, PartialEq, Eq, Structural)]
pub enum SpanStyle {
    /// The heading above a slot number.
    SlotHeading,
    /// A slot number in the list of slots.
    SlotNumber,
    /// A line of dashes between items.
    Separator,
    /// The name of a figure.
    Label,
    /// The space between a name and its figure.
    Gap,
    /// A figure.
    Value,
}

/// A piece of text with its role.
#[derive(Clone, Debug)]
pub struct StyledText {
    pub text: String,
    pub style: SpanStyle,
}

/// A line as pieces of text with their roles.
pub open spec fn line_view(line: Vec<StyledText>) -> Seq<(Seq<char>, SpanStyle)> {
    line@.map_values(|t: StyledText| (t.text@, t.style))
}

/// Lines as pieces of text with their roles.
pub open spec fn lines_view(lines: Vec<Vec<StyledText>>) -> Seq<Seq<(Seq<char>, SpanStyle)>> {
    lines@.map_values(|l: Vec<StyledText>| line_view(l))
}

/// `n` copies of `c`.
pub open spec fn spec_repeat(c: char, n: nat) -> Seq<char> {
    Seq::new(n, |i: int| c)
}

/// `label` followed by spaces up to `width` characters; a longer label is
/// kept whole.
pub open spec fn spec_pad_right(label: Seq<char>, width: nat) -> Seq<char> {
    if label.len() < width {
        label + spec_repeat(' ', (width - label.len()) as nat)
    } else {
        label
    }
}

fn push_repeat(out: &mut String, c: char, n: usize)
    ensures
        final(out)@ == old(out)@ + spec_repeat(c, n as nat),
{
    let ghost start = out@;
    let mut i: usize = 0;
    while i < n
        invariant
            0 <= i <= n,
            out@ == start + spec_repeat(c, i as nat),
        decreases n - i,
    {
        push_char(out, c);
        assert(out@ =~= start + spec_repeat(c, (i + 1) as nat));
        i = i + 1;
    }
}

/// A line of `width` dashes.
pub fn separator(width: u16) -> (s: String)
    ensures
        s@ == spec_repeat('-', width as nat),
{
    let mut s = String::new();
    push_repeat(&mut s, '-', width as usize);
    assert(s@ =~= spec_repeat('-', width as nat));
    s
}

/// `label` padded with spaces to `width` characters.
pub fn pad_right(label: &str, width: usize) -> (s: String)
    ensures
        s@ == spec_pad_right(label@, width as nat),
{
    let mut s = String::new();
    push_text(&mut s, label);
    let n = label.unicode_len();
    if n < width {
        push_repeat(&mut s, ' ', width - n);
    }
    s
}

fn decimal_text(n: usize) -> (s: String)
    ensures
        s@ == spec_decimal(n as nat),
{
    let mut s = String::new();
    push_decimal(&mut s, n as u64);
    assert(s@ =~= spec_decimal(n as nat));
    s
}

/// The width the names of figures are padded to.
pub const LABEL_WIDTH: usize = 8usize;

/// A figure's line: its name padded to `LABEL_WIDTH`, a space, its value.
pub open spec fn spec_figure_line(label: Seq<char>, value: usize) -> Seq<(Seq<char>, SpanStyle)> {
    seq![
        (spec_pad_right(label, LABEL_WIDTH as nat), SpanStyle::Label),
        (seq![' '], SpanStyle::Gap),
        (spec_decimal(value as nat), SpanStyle::Value),
    ]
}

fn figure_line(label: &str, value: usize) -> (line: Vec<StyledText>)
    ensures
        line_view(line) == spec_figure_line(label@, value),
{
    let mut gap = String::new();
    push_char(&mut gap, ' ');
    let mut line: Vec<StyledText> = Vec::new();
    line.push(StyledText { text: pad_right(label, LABEL_WIDTH), style: SpanStyle::Label });
    line.push(StyledText { text: gap, style: SpanStyle::Gap });
    line.push(StyledText { text: decimal_text(value), style: SpanStyle::Value });
    assert(line_view(line) =~= spec_figure_line(label@, value));
    line
}

fn separator_line(width: u16) -> (line: Vec<StyledText>)
    ensures
        line_view(line) == seq![(spec_repeat('-', width as nat), SpanStyle::Separator)],
{
    let mut line: Vec<StyledText> = Vec::new();
    line.push(StyledText { text: separator(width), style: SpanStyle::Separator });
    assert(line_view(line) =~= seq![(spec_repeat('-', width as nat), SpanStyle::Separator)]);
    line
}

/// The lines of a slot in the list of slots: a heading, then the number.
pub open spec fn spec_slot_item(slot: usize) -> Seq<Seq<(Seq<char>, SpanStyle)>> {
    seq![seq![("Slot"@, SpanStyle::SlotHeading)], seq![(spec_decimal(slot as nat), SpanStyle::SlotNumber)]]
}

/// The lines shown for a slot in the list of slots.
pub fn slot_item_lines(slot: usize) -> (lines: Vec<Vec<StyledText>>)
    ensures
        lines_view(lines) == spec_slot_item(slot),
{
    let mut heading: Vec<StyledText> = Vec::new();
    heading.push(StyledText { text: "Slot".to_owned(), style: SpanStyle::SlotHeading });
    let mut number: Vec<StyledText> = Vec::new();
    number.push(StyledText { text: decimal_text(slot), style: SpanStyle::SlotNumber });
    assert(line_view(heading) =~= seq![("Slot"@, SpanStyle::SlotHeading)]);
    assert(line_view(number) =~= seq![(spec_decimal(slot as nat), SpanStyle::SlotNumber)]);
    let mut lines: Vec<Vec<StyledText>> = Vec::new();
    lines.push(heading);
    lines.push(number);
    assert(lines_view(lines) =~= spec_slot_item(slot));
    lines
}

/// The lines of a request's figures, between separators as wide as the
/// list: slot, shreds sampled, data shreds and coding shreds.
pub open spec fn spec_sample_stat_item(item: (usize, usize, usize, usize), width: u16) -> Seq<
    Seq<(Seq<char>, SpanStyle)>,
> {
    let sep = seq![(spec_repeat('-', width as nat), SpanStyle::Separator)];
    seq![
        sep,
        spec_figure_line("Slot: "@, item.0),
        spec_figure_line("TotalSampled:"@, item.1),
        spec_figure_line("DataShreds:"@, item.2),
        spec_figure_line("CodingShreds:"@, item.3),
        sep,
    ]
}

/// The lines shown for a request's figures in a list `width` columns wide.
pub fn sample_stat_item_lines(item: (usize, usize, usize, usize), width: u16) -> (lines: Vec<
    Vec<StyledText>,
>)
    ensures
        lines_view(lines) == spec_sample_stat_item(item, width),
{
    let mut lines: Vec<Vec<StyledText>> = Vec::new();
    lines.push(separator_line(width));
    lines.push(figure_line("Slot: ", item.0));
    lines.push(figure_line("TotalSampled:", item.1));
    lines.push(figure_line("DataShreds:", item.2));
    lines.push(figure_line("CodingShreds:", item.3));
    lines.push(separator_line(width));
    assert(lines_view(lines) =~= spec_sample_stat_item(item, width));
    lines
}

/// The lines of a verification's figures, between separators as wide as
/// the list: slot, shreds verified and shreds that failed.
pub open spec fn spec_verification_item(item: (usize, usize, usize), width: u16) -> Seq<
    Seq<(Seq<char>, SpanStyle)>,
> {
    let sep = seq![(spec_repeat('-', width as nat), SpanStyle::Separator)];
    seq![
        sep,
        spec_figure_line("Slot: "@, item.0),
        spec_figure_line("Successfully Verified: "@, item.1),
        spec_figure_line("Failed: "@, item.2),
        sep,
    ]
}

/// The lines shown for a verification's figures in a list `width` columns
/// wide.
pub fn verification_item_lines(item: (usize, usize, usize), width: u16) -> (lines: Vec<
    Vec<StyledText>,
>)
    ensures
        lines_view(lines) == spec_verification_item(item, width),
{
    let mut lines: Vec<Vec<StyledText>> = Vec::new();
    lines.push(separator_line(width));
    lines.push(figure_line("Slot: ", item.0));
    lines.push(figure_line("Successfully Verified: ", item.1));
    lines.push(figure_line("Failed: ", item.2));
    lines.push(separator_line(width));
    assert(lines_view(lines) =~= spec_verification_item(item, width));
    lines
}

/// The panel drawn under the tabs.
#[derive(Clone, Copy, Debug, PartialEq, Eq, Structural)]
pub enum TabPanel {
    /// The three lists of the sampler: slots, request figures,
    /// verification figures.
    SamplerLists,
    /// Nothing is drawn.
    Empty,
}

/// The first tab shows the sampler's lists; other tabs show nothing.
pub fn panel_for_tab(index: usize) -> (p: TabPanel)
    ensures
        p == (if index == 0 {
            TabPanel::SamplerLists
        } else {
            TabPanel::Empty
        }),
{
    if index == 0 {
        TabPanel::SamplerLists
    } else {
        TabPanel::Empty
    }
}

} // verus!
