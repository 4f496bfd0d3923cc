//! The ticker line as a sequence of styled characters, and the part of it
//! that is visible in a screen area.
use ratatui::style::Color;
use vstd::prelude::*;

use crate::text::str_chars;
use crate::ticker::{TickerItem, TickerState, item_width};

verus! {

/// How a character of the ticker line is drawn.
#[derive(Debug, Clone, Copy)]
pub enum CharStyle {
    /// The block separator between two headlines.
    Separator,
    /// The `[CATEGORY] ` tag, in the category's colour.
    Tag { color: Color, highlighted: bool },
    /// The headline title.
    Title { highlighted: bool },
    /// The ` | ` between title and summary.
    Pipe,
    /// The headline summary.
    Summary { highlighted: bool },
}

/// Every character of `s`, each with `style`.
pub open spec fn styled(s: Seq<char>, style: CharStyle) -> Seq<(char, CharStyle)> {
    s.map_values(|c: char| (c, style))
}

/// The separator drawn between two headlines: `" ███ "`.
pub open spec fn separator_chars() -> Seq<char> {
    seq![' ', '\u{2588}', '\u{2588}', '\u{2588}', ' ']
}

/// The ` | ` drawn between a title and its summary.
pub open spec fn pipe_chars() -> Seq<char> {
    seq![' ', '|', ' ']
}

/// The characters of `[CATEGORY] ` for a category.
pub open spec fn tag_chars(category: Seq<char>) -> Seq<char> {
    seq!['['] + category + seq![']', ' ']
}

/// The styled characters of one headline: tag, title, and ` | summary`
/// when there is a summary.
pub open spec fn item_styled_chars(item: TickerItem, highlighted: bool) -> Seq<(char, CharStyle)> {
    styled(tag_chars(item.category@), CharStyle::Tag { color: item.color, highlighted })
        + styled(item.title@, CharStyle::Title { highlighted }) + match item.summary {
        Some(s) => styled(pipe_chars(), CharStyle::Pipe) + styled(s@, CharStyle::Summary { highlighted }),
        None => Seq::<(char, CharStyle)>::empty(),
    }
}

/// The styled characters of the first `n` headlines of `queue`, separated
/// by the block separator; the headline at `highlight` is highlighted when
/// `paused`.
pub open spec fn queue_styled_chars(
    queue: Seq<TickerItem>,
    paused: bool,
    highlight: int,
    n: nat,
) -> Seq<(char, CharStyle)>
    decreases n,
{
    if n == 0 {
        Seq::<(char, CharStyle)>::empty()
    } else {
        queue_styled_chars(queue, paused, highlight, (n - 1) as nat) + (if n - 1 > 0 {
            styled(separator_chars(), CharStyle::Separator)
        } else {
            Seq::<(char, CharStyle)>::empty()
        }) + item_styled_chars(queue[n - 1], paused && n - 1 == highlight)
    }
}

/// The whole ticker line of a state.
pub open spec fn ticker_line(state: &TickerState) -> Seq<(char, CharStyle)> {
    queue_styled_chars(
        state.queue@,
        state.paused,
        state.highlight_index as int,
        state.queue@.len(),
    )
}

/// Append every character of `s` with `style`.
fn push_styled(out: &mut Vec<(char, CharStyle)>, s: &str, style: CharStyle)
    ensures
        final(out)@ == old(out)@ + styled(s@, style),
{
    let chars = str_chars(s);
    let n = chars.len();
    let mut i: usize = 0;
    while i < n
        invariant
            n == chars@.len(),
            chars@ == s@,
            i <= n,
            out@ == old(out)@ + styled(s@.take(i as int), style),
        decreases n - i,
    {
        out.push((chars[i], style));
        assert(s@.take(i + 1) =~= s@.take(i as int).push(chars@[i as int]));
        assert(styled(s@.take(i + 1), style) =~= styled(s@.take(i as int), style).push(
            (chars@[i as int], style),
        ));
        i = i + 1;
    }
    assert(s@.take(n as int) =~= s@);
}

/// Append `c` with `style`.
fn push_char(out: &mut Vec<(char, CharStyle)>, c: char, style: CharStyle)
    ensures
        final(out)@ == old(out)@ + styled(seq![c], style),
{
    out.push((c, style));
    assert(old(out)@.push((c, style)) =~= old(out)@ + styled(seq![c], style));
}

/// Append the block separator.
fn push_separator(out: &mut Vec<(char, CharStyle)>)
    ensures
        final(out)@ == old(out)@ + styled(separator_chars(), CharStyle::Separator),
{
    let ghost start = out@;
    push_char(out, ' ', CharStyle::Separator);
    push_char(out, '\u{2588}', CharStyle::Separator);
    push_char(out, '\u{2588}', CharStyle::Separator);
    push_char(out, '\u{2588}', CharStyle::Separator);
    push_char(out, ' ', CharStyle::Separator);
    assert(out@ =~= start + styled(separator_chars(), CharStyle::Separator));
}

/// Append the styled characters of one headline.
fn push_item(out: &mut Vec<(char, CharStyle)>, item: &TickerItem, highlighted: bool)
    ensures
        final(out)@ == old(out)@ + item_styled_chars(*item, highlighted),
{
    let ghost start = out@;
    let tag = CharStyle::Tag { color: item.color, highlighted };
    push_char(out, '[', tag);
    push_styled(out, item.category.as_str(), tag);
    push_char(out, ']', tag);
    push_char(out, ' ', tag);
    let ghost after_tag = out@;
    assert(after_tag =~= start + styled(tag_chars(item.category@), tag));
    push_styled(out, item.title.as_str(), CharStyle::Title { highlighted });
    let ghost after_title = out@;
    match &item.summary {
        Some(summary) => {
            push_char(out, ' ', CharStyle::Pipe);
            push_char(out, '|', CharStyle::Pipe);
            push_char(out, ' ', CharStyle::Pipe);
            push_styled(out, summary.as_str(), CharStyle::Summary { highlighted });
            assert(out@ =~= after_title + styled(pipe_chars(), CharStyle::Pipe) + styled(
                summary@,
                CharStyle::Summary { highlighted },
            ));
        },
        None => {},
    }
    assert(out@ =~= start + item_styled_chars(*item, highlighted));
}

/// Flatten the ticker queue into styled characters: each headline as
/// `[CATEGORY] Title | summary`, headlines separated by `" ███ "`, the
/// highlighted headline marked while paused.
pub fn build_styled_chars(state: &TickerState) -> (res: Vec<(char, CharStyle)>)
    ensures
        res@ == ticker_line(state),
{
    let mut chars: Vec<(char, CharStyle)> = Vec::new();
    let n = state.queue.len();
    let mut idx: usize = 0;
    while idx < n
        invariant
            n == state.queue@.len(),
            idx <= n,
            chars@ == queue_styled_chars(
                state.queue@,
                state.paused,
                state.highlight_index as int,
                idx as nat,
            ),
        decreases n - idx,
    {
        let ghost before = chars@;
        if idx > 0 {
            push_separator(&mut chars);
        }
        let ghost after_sep = chars@;
        let highlighted = state.paused && idx == state.highlight_index;
        push_item(&mut chars, &state.queue[idx], highlighted);
        proof {
            let sep = if idx > 0 {
                styled(separator_chars(), CharStyle::Separator)
            } else {
                Seq::<(char, CharStyle)>::empty()
            };
            assert(after_sep =~= before + sep);
            assert(chars@ =~= before + sep + item_styled_chars(state.queue@[idx as int], highlighted));
        }
        idx = idx + 1;
    }
    chars
}

/// A rectangle of the screen, in cells.
#[derive(Debug, Clone, Copy, PartialEq, Eq)]
pub struct Area {
    pub x: u16,
    pub y: u16,
    pub width: u16,
    pub height: u16,
}

/// One character of the ticker line placed on the screen.
#[derive(Debug, Clone, Copy)]
pub struct TickerCell {
    pub x: u16,
    pub y: u16,
    pub ch: char,
    pub style: CharStyle,
}

/// One character of a message placed on the screen.
#[derive(Debug, Clone, Copy, PartialEq, Eq)]
pub struct MessageCell {
    pub x: u16,
    pub y: u16,
    pub ch: char,
}

/// What the ticker shows in an area.
#[derive(Debug)]
pub enum TickerView {
    /// The queue is empty: these cells of the "no new headlines" message are
    /// drawn, centered on the area's first row.
    NoHeadlines(Vec<MessageCell>),
    /// The area has no room: nothing is drawn.
    Nothing,
    /// These cells of the ticker line are drawn, left to right.
    Cells(Vec<TickerCell>),
}

/// How many characters of a line of `total` characters, scrolled by
/// `offset`, fit into `width` columns.
pub open spec fn visible_count(total: nat, offset: nat, width: nat) -> nat {
    if offset >= total {
        0
    } else if total - offset < width {
        (total - offset) as nat
    } else {
        width
    }
}

/// The cell at column `x`, row `y` showing `entry`.
fn cell_at(x: u16, y: u16, entry: &(char, CharStyle)) -> (res: TickerCell)
    ensures
        res.x == x,
        res.y == y,
        (res.ch, res.style) == *entry,
{
    TickerCell { x, y, ch: entry.0, style: entry.1 }
}

/// The cells for `count` characters of `line` from `offset` on, placed
/// left to right from the top-left corner of `area`.
fn place_cells(line: &Vec<(char, CharStyle)>, offset: usize, count: usize, area: Area) -> (res: Vec<
    TickerCell,
>)
    requires
        count > 0 ==> offset + count <= line@.len(),
        area.x + count <= u16::MAX + 1,
    ensures
        res@.len() == count,
        forall|i: int|
            0 <= i < count ==> {
                let cell = #[trigger] res@[i];
                &&& cell.x == area.x + i
                &&& cell.y == area.y
                &&& (cell.ch, cell.style) == line@[offset + i]
            },
{
    let total = line.len();
    let mut cells: Vec<TickerCell> = Vec::new();
    let mut c: usize = 0;
    while c < count
        invariant
            total == line@.len(),
            count > 0 ==> offset + count <= line@.len(),
            area.x + count <= u16::MAX + 1,
            c <= count,
            cells@.len() == c,
            forall|i: int|
                0 <= i < c ==> {
                    let cell = #[trigger] cells@[i];
                    &&& cell.x == area.x + i
                    &&& cell.y == area.y
                    &&& (cell.ch, cell.style) == line@[offset + i]
                },
        decreases count - c,
    {
        let col: u16 = c as u16;
        let cell = cell_at(area.x + col, area.y, &line[offset + c]);
        cells.push(cell);
        c = c + 1;
    }
    cells
}

/// The characters of the message shown when there are no headlines.
pub open spec fn no_headlines_text() -> Seq<char> {
    NO_HEADLINES_MESSAGE@
}

/// The column of the first character of a message of `len` characters in
/// `area`: centered, or at the left edge when the message is wider.
pub open spec fn message_start(area: Area, len: nat) -> int {
    if area.width >= len {
        area.x + (area.width - len) / 2
    } else {
        area.x as int
    }
}

/// How many characters of a message of `len` characters are drawn in
/// `area`: none without room; otherwise as many as fit before the area's
/// right edge and the last screen column.
pub open spec fn message_visible(area: Area, len: nat) -> nat {
    if area.width == 0 || area.height == 0 {
        0
    } else {
        let start = message_start(area, len);
        let to_edge = area.x + area.width - start;
        let to_screen = u16::MAX + 1 - start;
        let fit = if to_edge < to_screen {
            to_edge
        } else {
            to_screen
        };
        if fit <= 0 {
            0
        } else if fit < len {
            fit as nat
        } else {
            len
        }
    }
}

fn message_cell_at(x: u16, y: u16, text: &Vec<char>, i: usize) -> (res: MessageCell)
    requires
        i < text@.len(),
    ensures
        res.x == x,
        res.y == y,
        res.ch == text@[i as int],
{
    MessageCell { x, y, ch: text[i] }
}

fn push_message_cell(cells: &mut Vec<MessageCell>, cell: MessageCell)
    ensures
        final(cells)@ == old(cells)@.push(cell),
{
    cells.push(cell);
}

/// The cells of the no-headlines message in `area`.
fn message_cells(area: Area) -> (res: Vec<MessageCell>)
    ensures
        res@.len() == message_visible(area, no_headlines_text().len()),
        forall|i: int|
            0 <= i < res@.len() ==> {
                let cell = #[trigger] res@[i];
                &&& cell.x == message_start(area, no_headlines_text().len()) + i
                &&& cell.y == area.y
                &&& cell.ch == no_headlines_text()[i]
            },
{
    let text = str_chars(NO_HEADLINES_MESSAGE);
    let len = text.len();
    let ghost n = no_headlines_text().len();
    let mut cells: Vec<MessageCell> = Vec::new();
    if area.width == 0 || area.height == 0 {
        return cells;
    }
    let width = area.width as usize;
    let x = area.x as usize;
    let start: usize = if width >= len {
        x + (width - len) / 2
    } else {
        x
    };
    assert(start == message_start(area, n));
    let to_edge: usize = x + width - start;
    let to_screen: usize = if start <= 65536 {
        65536 - start
    } else {
        0
    };
    let fit = if to_edge < to_screen {
        to_edge
    } else {
        to_screen
    };
    let count = if fit < len {
        fit
    } else {
        len
    };
    assert(count == message_visible(area, n));
    let mut i: usize = 0;
    while i < count
        invariant
            text@ == no_headlines_text(),
            len == text@.len(),
            count <= len,
            start == message_start(area, n),
            n == len,
            count > 0 ==> start + count <= 65536,
            i <= count,
            cells@.len() == i,
            forall|j: int|
                0 <= j < i ==> {
                    let cell = #[trigger] cells@[j];
                    &&& cell.x == start + j
                    &&& cell.y == area.y
                    &&& cell.ch == no_headlines_text()[j]
                },
        decreases count - i,
    {
        let column = (start + i) as u16;
        let cell = message_cell_at(column, area.y, &text, i);
        push_message_cell(&mut cells, cell);
        i = i + 1;
    }
    cells
}

/// The ticker in `area`: with no headlines, the centered message; nothing
/// in an area without room; otherwise the characters of the ticker line
/// from the scroll offset on, one per column of the area's first row, as
/// far as the line and the area reach.
pub fn ticker_view(area: Area, state: &TickerState) -> (res: TickerView)
    requires
        state.queue@.len() > 0 && area.width > 0 && area.height > 0 ==> area.x + visible_count(
            ticker_line(state).len(),
            state.scroll_offset as nat,
            area.width as nat,
        ) <= u16::MAX + 1,
    ensures
        state.queue@.len() == 0 ==> ({
            let text = no_headlines_text();
            &&& res is NoHeadlines
            &&& res->NoHeadlines_0@.len() == message_visible(area, text.len())
            &&& forall|i: int|
                0 <= i < res->NoHeadlines_0@.len() ==> {
                    let cell = #[trigger] res->NoHeadlines_0@[i];
                    &&& cell.x == message_start(area, text.len()) + i
                    &&& cell.y == area.y
                    &&& cell.ch == text[i]
                }
        }),
        state.queue@.len() > 0 && (area.width == 0 || area.height == 0) ==> res is Nothing,
        state.queue@.len() > 0 && area.width > 0 && area.height > 0 ==> ({
            let line = ticker_line(state);
            &&& res is Cells
            &&& res->Cells_0@.len() == visible_count(
                line.len(),
                state.scroll_offset as nat,
                area.width as nat,
            )
            &&& forall|i: int|
                0 <= i < res->Cells_0@.len() ==> {
                    let cell = #[trigger] res->Cells_0@[i];
                    &&& cell.x == area.x + i
                    &&& cell.y == area.y
                    &&& (cell.ch, cell.style) == line[state.scroll_offset + i]
                }
        }),
{
    if state.queue.len() == 0 {
        return TickerView::NoHeadlines(message_cells(area));
    }
    if area.width == 0 || area.height == 0 {
        return TickerView::Nothing;
    }
    let line = build_styled_chars(state);
    let total = line.len();
    let width = area.width as usize;
    let offset = state.scroll_offset;
    let count: usize = if offset >= total {
        0
    } else if total - offset < width {
        total - offset
    } else {
        width
    };
    let cells = place_cells(&line, offset, count, area);
    TickerView::Cells(cells)
}

/// The width by which a headline is scrolled off is exactly the number of
/// characters drawn for it plus its separator, so a headline leaves the
/// queue exactly when it has left the screen.
pub proof fn lemma_item_width_is_drawn_chars(item: TickerItem, highlighted: bool)
    ensures
        item_width(item) == item_styled_chars(item, highlighted).len() + separator_chars().len(),
{
}

/// With at least two headlines and no highlight, the line is the first
/// headline, the separator, and the line of the remaining headlines.
proof fn lemma_line_splits_after_first(queue: Seq<TickerItem>, highlight: int, n: nat)
    requires
        2 <= n <= queue.len(),
    ensures
        queue_styled_chars(queue, false, highlight, n) == item_styled_chars(queue[0], false)
            + styled(separator_chars(), CharStyle::Separator) + queue_styled_chars(
            queue.drop_first(),
            false,
            highlight,
            (n - 1) as nat,
        ),
    decreases n,
{
    let rest = queue.drop_first();
    reveal_with_fuel(queue_styled_chars, 3);
    if n > 2 {
        lemma_line_splits_after_first(queue, highlight, (n - 1) as nat);
        assert(rest[n - 2] == queue[n - 1]);
    } else {
        assert(rest[0] == queue[1]);
    }
    assert(queue_styled_chars(queue, false, highlight, n) =~= item_styled_chars(queue[0], false)
        + styled(separator_chars(), CharStyle::Separator) + queue_styled_chars(
        rest,
        false,
        highlight,
        (n - 1) as nat,
    ));
}

/// Popping a headline that has scrolled off does not move the visible
/// text: while playing, the line after the pop, read from the rewound
/// offset, is the line before the pop read from the old offset.
pub proof fn lemma_pop_keeps_visible_text(queue: Seq<TickerItem>, highlight: int)
    requires
        queue.len() >= 2,
    ensures
        queue_styled_chars(queue.drop_first(), false, highlight, (queue.len() - 1) as nat)
            == queue_styled_chars(queue, false, highlight, queue.len()).skip(
            item_width(queue[0]) as int,
        ),
{
    lemma_line_splits_after_first(queue, highlight, queue.len());
    lemma_item_width_is_drawn_chars(queue[0], false);
    let head = item_styled_chars(queue[0], false) + styled(separator_chars(), CharStyle::Separator);
    let rest = queue_styled_chars(queue.drop_first(), false, highlight, (queue.len() - 1) as nat);
    assert((head + rest).skip(head.len() as int) =~= rest);
}

/// The message shown when there are no headlines to scroll.
pub const NO_HEADLINES_MESSAGE: &'static str = "No new headlines. Press s to sync.";

/// The fixed colours the ticker draws with.
#[derive(Debug, Clone, Copy, PartialEq, Eq)]
pub enum BaseColor {
    Black,
    White,
    Gray,
    DarkGray,
}

/// A colour to draw with: a fixed one, or the colour of a category.
#[derive(Debug, Clone, Copy)]
pub enum Paint {
    Base(BaseColor),
    Custom(Color),
}

/// Foreground, optional background and boldness of a cell.
#[derive(Debug, Clone, Copy)]
pub struct CellStyle {
    pub fg: Paint,
    pub bg: Option<Paint>,
    pub bold: bool,
}

/// How each kind of character is drawn: separators and pipes dark gray;
/// tags bold in the category colour; titles white; summaries gray. A
/// highlighted headline is drawn black on the colour it otherwise has.
pub open spec fn spec_cell_style(style: CharStyle) -> CellStyle {
    match style {
        CharStyle::Separator | CharStyle::Pipe => CellStyle {
            fg: Paint::Base(BaseColor::DarkGray),
            bg: None,
            bold: false,
        },
        CharStyle::Tag { color, highlighted } => if highlighted {
            CellStyle { fg: Paint::Base(BaseColor::Black), bg: Some(Paint::Custom(color)), bold: true }
        } else {
            CellStyle { fg: Paint::Custom(color), bg: None, bold: true }
        },
        CharStyle::Title { highlighted } => if highlighted {
            CellStyle {
                fg: Paint::Base(BaseColor::Black),
                bg: Some(Paint::Base(BaseColor::White)),
                bold: false,
            }
        } else {
            CellStyle { fg: Paint::Base(BaseColor::White), bg: None, bold: false }
        },
        CharStyle::Summary { highlighted } => if highlighted {
            CellStyle {
                fg: Paint::Base(BaseColor::Black),
                bg: Some(Paint::Base(BaseColor::Gray)),
                bold: false,
            }
        } else {
            CellStyle { fg: Paint::Base(BaseColor::Gray), bg: None, bold: false }
        },
    }
}

/// The style a character of the ticker line is drawn with.
pub fn cell_style(style: CharStyle) -> (res: CellStyle)
    ensures
        res == spec_cell_style(style),
{
    match style {
        CharStyle::Separator | CharStyle::Pipe => CellStyle {
            fg: Paint::Base(BaseColor::DarkGray),
            bg: None,
            bold: false,
        },
        CharStyle::Tag { color, highlighted } => if highlighted {
            CellStyle { fg: Paint::Base(BaseColor::Black), bg: Some(Paint::Custom(color)), bold: true }
        } else {
            CellStyle { fg: Paint::Custom(color), bg: None, bold: true }
        },
        CharStyle::Title { highlighted } => if highlighted {
            CellStyle {
                fg: Paint::Base(BaseColor::Black),
                bg: Some(Paint::Base(BaseColor::White)),
                bold: false,
            }
        } else {
            CellStyle { fg: Paint::Base(BaseColor::White), bg: None, bold: false }
        },
        CharStyle::Summary { highlighted } => if highlighted {
            CellStyle {
                fg: Paint::Base(BaseColor::Black),
                bg: Some(Paint::Base(BaseColor::Gray)),
                bold: false,
            }
        } else {
            CellStyle { fg: Paint::Base(BaseColor::Gray), bg: None, bold: false }
        },
    }
}

/// Whether a character belongs to the highlighted headline.
pub open spec fn is_highlighted_style(style: CharStyle) -> bool {
    match style {
        CharStyle::Tag { highlighted, .. } => highlighted,
        CharStyle::Title { highlighted } => highlighted,
        CharStyle::Summary { highlighted } => highlighted,
        _ => false,
    }
}

/// The same kind of character outside the highlighted headline.
pub open spec fn without_highlight(style: CharStyle) -> CharStyle {
    match style {
        CharStyle::Tag { color, .. } => CharStyle::Tag { color, highlighted: false },
        CharStyle::Title { .. } => CharStyle::Title { highlighted: false },
        CharStyle::Summary { .. } => CharStyle::Summary { highlighted: false },
        other => other,
    }
}

/// Highlighting reverses a character's colours: a highlighted character
/// is drawn black on the colour it is otherwise drawn in, keeping its
/// boldness, and characters outside the highlight have no background.
/// Outside the highlight, tags are bold in their category's colour, titles
/// white, summaries gray, separators and pipes dark gray.
pub proof fn lemma_highlight_reverses_colours(style: CharStyle)
    ensures
        is_highlighted_style(style) ==> {
            let plain = spec_cell_style(without_highlight(style));
            let lit = spec_cell_style(style);
            &&& lit.fg == Paint::Base(BaseColor::Black)
            &&& lit.bg == Some(plain.fg)
            &&& lit.bold == plain.bold
        },
        !is_highlighted_style(style) ==> spec_cell_style(style).bg is None,
        style matches CharStyle::Tag { color, highlighted: false } ==> spec_cell_style(style).fg
            == Paint::Custom(color) && spec_cell_style(style).bold,
        style matches CharStyle::Title { highlighted: false } ==> spec_cell_style(style).fg
            == Paint::Base(BaseColor::White),
        style matches CharStyle::Summary { highlighted: false } ==> spec_cell_style(style).fg
            == Paint::Base(BaseColor::Gray),
        (style is Separator || style is Pipe) ==> spec_cell_style(style).fg == Paint::Base(
            BaseColor::DarkGray,
        ),
{
}

/// Where headline `i` of `queue` starts on the ticker line: after the
/// display widths of all headlines before it, separators included.
pub open spec fn headline_start(queue: Seq<TickerItem>, i: nat) -> nat
    decreases i,
{
    if i == 0 {
        0
    } else {
        headline_start(queue, (i - 1) as nat) + item_width(queue[i - 1])
    }
}

/// Number of cells a headline's own text takes, its separator not counted.
pub open spec fn headline_len(item: TickerItem) -> nat {
    (item_width(item) - 5) as nat
}

/// A character of a headline's text (tag, title or summary), as opposed to
/// separators and pipes.
pub open spec fn is_text_style(style: CharStyle) -> bool {
    style is Tag || style is Title || style is Summary
}

proof fn lemma_headline_start_monotonic(queue: Seq<TickerItem>, i: nat, j: nat)
    requires
        i <= j,
    ensures
        headline_start(queue, i) <= headline_start(queue, j),
    decreases j,
{
    if i < j {
        lemma_headline_start_monotonic(queue, i, (j - 1) as nat);
    }
}

proof fn lemma_styled_highlight(s: Seq<char>, style: CharStyle)
    ensures
        forall|k: int|
            0 <= k < styled(s, style).len() ==> #[trigger] styled(s, style)[k].1 == style,
        styled(s, style).len() == s.len(),
{
}

proof fn lemma_item_highlight(item: TickerItem, highlighted: bool)
    ensures
        forall|k: int|
            0 <= k < item_styled_chars(item, highlighted).len() ==> (is_highlighted_style(
                #[trigger] item_styled_chars(item, highlighted)[k].1,
            ) <==> highlighted && is_text_style(item_styled_chars(item, highlighted)[k].1)),
{
    let tag = CharStyle::Tag { color: item.color, highlighted };
    let title = CharStyle::Title { highlighted };
    let a = styled(tag_chars(item.category@), tag);
    let b = styled(item.title@, title);
    lemma_styled_highlight(tag_chars(item.category@), tag);
    lemma_styled_highlight(item.title@, title);
    let c = match item.summary {
        Some(s) => styled(pipe_chars(), CharStyle::Pipe) + styled(s@, CharStyle::Summary { highlighted }),
        None => Seq::<(char, CharStyle)>::empty(),
    };
    if let Some(s) = item.summary {
        lemma_styled_highlight(pipe_chars(), CharStyle::Pipe);
        lemma_styled_highlight(s@, CharStyle::Summary { highlighted });
    }
    let x = item_styled_chars(item, highlighted);
    assert(x == a + b + c);
    assert forall|k: int| 0 <= k < x.len() implies (is_highlighted_style(#[trigger] x[k].1)
        <==> highlighted && is_text_style(x[k].1)) by {
        if k < a.len() {
            assert(x[k] == a[k]);
        } else if k < a.len() + b.len() {
            assert(x[k] == b[k - a.len()]);
        } else {
            assert(x[k] == c[k - a.len() - b.len()]);
            if let Some(s) = item.summary {
                let p = styled(pipe_chars(), CharStyle::Pipe);
                let j = k - a.len() - b.len();
                if j < p.len() {
                    assert(c[j] == p[j]);
                } else {
                    assert(c[j] == styled(s@, CharStyle::Summary { highlighted })[j - p.len()]);
                }
            }
        }
    }
}

/// Only the selected headline is highlighted: a character of the first `n`
/// headlines' line is highlighted exactly when the ticker is paused, the
/// character lies within the text of headline `highlight`, and it is a
/// tag, title or summary character. The line is as long as the headlines'
/// widths without the last separator.
pub proof fn lemma_only_selected_headline_is_highlighted(
    queue: Seq<TickerItem>,
    paused: bool,
    highlight: int,
    n: nat,
)
    requires
        n <= queue.len(),
    ensures
        queue_styled_chars(queue, paused, highlight, n).len() == if n == 0 {
            0
        } else {
            (headline_start(queue, n) - 5) as nat
        },
        forall|k: int|
            0 <= k < queue_styled_chars(queue, paused, highlight, n).len() ==> (
            is_highlighted_style(#[trigger] queue_styled_chars(queue, paused, highlight, n)[k].1)
                <==> (paused && 0 <= highlight < n && headline_start(queue, highlight as nat) <= k
                < headline_start(queue, highlight as nat) + headline_len(queue[highlight])
                && is_text_style(queue_styled_chars(queue, paused, highlight, n)[k].1))),
    decreases n,
{
    if n == 0 {
        return ;
    }
    let m = (n - 1) as nat;
    lemma_only_selected_headline_is_highlighted(queue, paused, highlight, m);
    let line = queue_styled_chars(queue, paused, highlight, n);
    let a = queue_styled_chars(queue, paused, highlight, m);
    let sep = if m > 0 {
        styled(separator_chars(), CharStyle::Separator)
    } else {
        Seq::<(char, CharStyle)>::empty()
    };
    let selected = paused && m == highlight;
    let c = item_styled_chars(queue[m as int], selected);
    assert(line == a + sep + c);
    lemma_styled_highlight(separator_chars(), CharStyle::Separator);
    lemma_item_highlight(queue[m as int], selected);
    lemma_item_width_is_drawn_chars(queue[m as int], selected);
    let start = headline_start(queue, m);
    assert(a.len() + sep.len() == start);
    assert(line.len() == headline_start(queue, n) - 5);
    assert forall|k: int| 0 <= k < line.len() implies (is_highlighted_style(#[trigger] line[k].1)
        <==> (paused && 0 <= highlight < n && headline_start(queue, highlight as nat) <= k
        < headline_start(queue, highlight as nat) + headline_len(queue[highlight])
        && is_text_style(line[k].1))) by {
        if 0 <= highlight < m {
            lemma_headline_start_monotonic(queue, (highlight + 1) as nat, m);
            assert(headline_start(queue, (highlight + 1) as nat) == headline_start(
                queue,
                highlight as nat,
            ) + item_width(queue[highlight]));
        }
        if k < a.len() {
            assert(line[k] == a[k]);
            assert(a[k].1 == line[k].1);
        } else if k < a.len() + sep.len() {
            assert(line[k] == sep[k - a.len()]);
        } else {
            assert(line[k] == c[k - a.len() - sep.len()]);
        }
    }
}

/// On the ticker line of a state, only the characters of the selected
/// headline's text are highlighted, and only while paused.
pub proof fn lemma_ticker_line_highlights_selected_headline(state: &TickerState)
    ensures
        forall|k: int|
            0 <= k < ticker_line(state).len() ==> (is_highlighted_style(
                #[trigger] ticker_line(state)[k].1,
            ) <==> (state.paused && state.highlight_index < state.queue@.len() && headline_start(
                state.queue@,
                state.highlight_index as nat,
            ) <= k < headline_start(state.queue@, state.highlight_index as nat) + headline_len(
                state.queue@[state.highlight_index as int],
            ) && is_text_style(ticker_line(state)[k].1))),
{
    lemma_only_selected_headline_is_highlighted(
        state.queue@,
        state.paused,
        state.highlight_index as int,
        state.queue@.len(),
    );
}

} // verus!
