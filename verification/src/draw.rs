//! What is drawn on the screen.

use vstd::prelude::*;
use vstd::string::*;
use crate::ansi::{SpanModel, StyledLine, StyledSpan, StyledText};
use crate::geometry::{clipped_rect, minus, rect_new, smaller, Rect};
use crate::state::AppState;
use crate::style::{
    colors, emphasized, fg_style, only_bold, plain_style, Color, Palette, Style,
};
use crate::text::{chars_of, concat_text, decimal, decimal_text, truncate_text, truncated};
use crate::views::{lemma_views_empty, lemma_views_push, views};

verus! {

/// Where a scrollbar stands.
#[derive(Debug, Clone, Copy, PartialEq, Eq, Structural)]
pub struct ScrollMetrics {
    pub viewport_rows: usize,
    pub offset_from_bottom: usize,
    pub max_offset_from_bottom: usize,
}

/// One step of drawing.
#[derive(Debug)]
pub enum DrawOp {
    /// Removes everything in an area.
    Clear { area: Rect },
    /// Gives an area a style.
    Fill { area: Rect, style: Style },
    /// Writes an unstyled text, whose line breaks count.
    Plain { area: Rect, text: String, style: Style },
    /// Writes lines of styled text.
    Lines { area: Rect, lines: Vec<StyledLine>, style: Style, centered: bool },
    /// Sets one cell.
    Cell { x: u16, y: u16, symbol: char, style: Style },
    /// A scrollbar, where the metrics ask for one.
    Scrollbar {
        metrics: ScrollMetrics,
        track: Rect,
        track_color: Color,
        thumb_color: Color,
        symbol: char,
    },
    /// The panes of a tab.
    TabSurface { ws_idx: usize, tab_idx: usize, area: Rect },
}

/// The view of a [`DrawOp`].
pub enum DrawModel {
    Clear { area: Rect },
    Fill { area: Rect, style: Style },
    Plain { area: Rect, text: Seq<char>, style: Style },
    Lines { area: Rect, lines: Seq<Seq<SpanModel>>, style: Style, centered: bool },
    Cell { x: u16, y: u16, symbol: char, style: Style },
    Scrollbar {
        metrics: ScrollMetrics,
        track: Rect,
        track_color: Color,
        thumb_color: Color,
        symbol: char,
    },
    TabSurface { ws_idx: usize, tab_idx: usize, area: Rect },
}

impl View for DrawOp {
    type V = DrawModel;

    open spec fn view(&self) -> DrawModel {
        match *self {
            DrawOp::Clear { area } => DrawModel::Clear { area },
            DrawOp::Fill { area, style } => DrawModel::Fill { area, style },
            DrawOp::Plain { area, text, style } => DrawModel::Plain { area, text: text@, style },
            DrawOp::Lines { area, lines, style, centered } => DrawModel::Lines {
                area,
                lines: views(lines@),
                style,
                centered,
            },
            DrawOp::Cell { x, y, symbol, style } => DrawModel::Cell { x, y, symbol, style },
            DrawOp::Scrollbar { metrics, track, track_color, thumb_color, symbol } =>
                DrawModel::Scrollbar { metrics, track, track_color, thumb_color, symbol },
            DrawOp::TabSurface { ws_idx, tab_idx, area } => DrawModel::TabSurface {
                ws_idx,
                tab_idx,
                area,
            },
        }
    }
}

/// The steps that draw one picture, in order.
#[derive(Debug)]
pub struct Frame {
    pub ops: Vec<DrawOp>,
}

impl View for Frame {
    type V = Seq<DrawModel>;

    open spec fn view(&self) -> Seq<DrawModel> {
        views(self.ops@)
    }
}

/// The step that writes one line of styled text.
pub open spec fn line_op(area: Rect, spans: Seq<SpanModel>, style: Style) -> DrawModel {
    DrawModel::Lines { area, lines: seq![spans], style, centered: false }
}

/// Steps can be added together or one list after the other.
pub proof fn lemma_appended(start: Seq<DrawModel>, a: Seq<DrawModel>, b: Seq<DrawModel>)
    ensures
        (start + a) + b == start + (a + b),
{
    assert((start + a) + b =~= start + (a + b));
}

impl Frame {
    /// A picture with nothing in it.
    pub fn new() -> (r: Frame)
        ensures
            r@ == Seq::<DrawModel>::empty(),
    {
        broadcast use lemma_views_empty;

        Frame { ops: Vec::new() }
    }

    /// Adds a step.
    pub fn draw(&mut self, op: DrawOp)
        ensures
            final(self)@ == old(self)@.push(op@),
    {
        broadcast use lemma_views_push;

        self.ops.push(op);
    }

    /// Writes an unstyled text.
    pub fn write_plain(&mut self, area: Rect, text: String, style: Style)
        ensures
            final(self)@ == old(self)@.push(DrawModel::Plain { area, text: text@, style }),
    {
        self.draw(DrawOp::Plain { area, text, style });
    }

    /// Writes one line of styled text.
    pub fn write_line(&mut self, area: Rect, spans: Vec<StyledSpan>, style: Style)
        ensures
            final(self)@ == old(self)@.push(line_op(area, views(spans@), style)),
    {
        let lines = one_line(spans);
        self.draw(DrawOp::Lines { area, lines, style, centered: false });
    }

    /// Writes one line of styled text in the middle of an area.
    pub fn write_centered(&mut self, area: Rect, spans: Vec<StyledSpan>, style: Style)
        ensures
            final(self)@ == old(self)@.push(
                DrawModel::Lines { area, lines: seq![views(spans@)], style, centered: true },
            ),
    {
        let lines = one_line(spans);
        self.draw(DrawOp::Lines { area, lines, style, centered: true });
    }

    /// Writes lines of styled text.
    pub fn write_text(&mut self, area: Rect, text: StyledText)
        ensures
            final(self)@ == old(self)@.push(
                DrawModel::Lines { area, lines: text@, style: plain_style(), centered: false },
            ),
    {
        self.draw(
            DrawOp::Lines { area, lines: text.lines, style: Style::plain(), centered: false },
        );
    }
}

/// A single line.
pub fn one_line(spans: Vec<StyledSpan>) -> (r: Vec<StyledLine>)
    ensures
        views(r@) == seq![views(spans@)],
{
    broadcast use {lemma_views_push, lemma_views_empty};

    let mut lines: Vec<StyledLine> = Vec::new();
    lines.push(StyledLine { spans });
    proof {
        assert(views(lines@) =~= seq![views(spans@)]);
    }
    lines
}

/// A piece of text in one style.
pub open spec fn piece(content: Seq<char>, style: Style) -> SpanModel {
    SpanModel { content, style }
}

/// Adds a piece of text in one style.
pub fn push_piece(spans: &mut Vec<StyledSpan>, content: &str, style: Style)
    ensures
        views(final(spans)@) == views(old(spans)@).push(piece(content@, style)),
{
    broadcast use lemma_views_push;

    spans.push(StyledSpan { content: content.to_owned(), style });
}

// ---------------------------------------------------------------------------
// Texts
// ---------------------------------------------------------------------------

/// `c`, `n` times.
pub open spec fn repeated(c: char, n: nat) -> Seq<char> {
    Seq::new(n, |i: int| c)
}

/// Writes `c` `n` times.
pub fn repeat_char(c: char, n: usize) -> (r: String)
    ensures
        r@ == repeated(c, n as nat),
{
    let mut r = String::new();
    let mut i: usize = 0;
    proof {
        assert(r@ =~= repeated(c, 0));
    }
    while i < n
        invariant
            i <= n,
            r@ == repeated(c, i as nat),
        decreases n - i,
    {
        r.push(c);
        i += 1;
        proof {
            assert(r@ =~= repeated(c, i as nat));
        }
    }
    r
}

/// `s` at the right end of a field of `width` characters.
pub open spec fn right_aligned(s: Seq<char>, width: nat) -> Seq<char> {
    if s.len() < width {
        repeated(' ', (width - s.len()) as nat) + s
    } else {
        s
    }
}

/// The text that tells how many rows are shown.
pub open spec fn shown_text(count: nat, width: u16) -> Seq<char> {
    right_aligned(decimal(count), minus(width as int, 24) as nat) + " shown"@
}

/// Tells how many rows are shown.
pub fn shown_count(count: usize, width: u16) -> (r: String)
    ensures
        r@ == shown_text(count as nat, width),
{
    let number = decimal_text(count);
    let digits: usize = chars_of(number.as_str()).len();
    let field: usize = width.saturating_sub(24) as usize;
    let mut r = if digits < field {
        concat_text(repeat_char(' ', field - digits).as_str(), number.as_str())
    } else {
        number
    };
    r.append(" shown");
    r
}

/// The mark in front of a row: a triangle that points down where its tabs are shown, and none on
/// a tab.
pub open spec fn caret(is_tab: bool, expanded: bool) -> char {
    if is_tab {
        ' '
    } else if expanded {
        '▾'
    } else {
        '▸'
    }
}

/// The indentation and the mark in front of a row.
pub open spec fn row_prefix(depth: u8, is_tab: bool, expanded: bool) -> Seq<char> {
    repeated(' ', (2 * depth + 1) as nat).push(caret(is_tab, expanded)).push(' ')
}

/// The indentation and the mark in front of a row.
pub fn row_prefix_text(depth: u8, is_tab: bool, expanded: bool) -> (r: String)
    ensures
        r@ == row_prefix(depth, is_tab, expanded),
        r@.len() == 2 * depth + 3,
{
    let mut r = repeat_char(' ', 2 * (depth as usize) + 1);
    r.push(
        if is_tab {
            ' '
        } else if expanded {
            '▾'
        } else {
            '▸'
        },
    );
    r.push(' ');
    r
}

/// The text `c`.
pub open spec fn char_text(c: char) -> Seq<char> {
    seq![c]
}

/// Adds a mark in one style.
pub fn push_mark(spans: &mut Vec<StyledSpan>, c: char, style: Style)
    ensures
        views(final(spans)@) == views(old(spans)@).push(piece(char_text(c), style)),
{
    let mut content = String::new();
    content.push(c);
    proof {
        assert(content@ =~= char_text(c));
    }
    push_piece(spans, content.as_str(), style);
}

// ---------------------------------------------------------------------------
// Parts that the picker and the switcher share
// ---------------------------------------------------------------------------

/// The style of a row as a whole.
pub open spec fn row_base(p: Palette, selected: bool) -> Style {
    if selected {
        colors(p.contrast_fg, p.accent)
    } else {
        colors(p.text, p.panel_bg)
    }
}

/// The style of the less important parts of a row.
pub open spec fn row_dim(p: Palette, selected: bool) -> Style {
    if selected {
        row_base(p, selected)
    } else {
        colors(p.overlay0, p.panel_bg)
    }
}

/// The style of the title of a row.
pub open spec fn row_text(p: Palette, selected: bool, current: bool) -> Style {
    if selected {
        emphasized(row_base(p, selected), only_bold())
    } else if current {
        emphasized(colors(p.text, p.panel_bg), only_bold())
    } else {
        colors(p.subtext0, p.panel_bg)
    }
}

/// The style with a foreground and a background color.
pub fn color_style(fg: Color, bg: Color) -> (r: Style)
    ensures
        r == colors(fg, bg),
{
    Style::plain().with_fg(fg).with_bg(bg)
}

/// The style of a row as a whole.
pub fn row_base_style(p: &Palette, selected: bool) -> (r: Style)
    ensures
        r == row_base(*p, selected),
{
    if selected {
        color_style(p.contrast_fg, p.accent)
    } else {
        color_style(p.text, p.panel_bg)
    }
}

/// The style of the less important parts of a row.
pub fn row_dim_style(p: &Palette, selected: bool) -> (r: Style)
    ensures
        r == row_dim(*p, selected),
{
    if selected {
        row_base_style(p, selected)
    } else {
        color_style(p.overlay0, p.panel_bg)
    }
}

/// The style of the title of a row.
pub fn row_text_style(p: &Palette, selected: bool, current: bool) -> (r: Style)
    ensures
        r == row_text(*p, selected, current),
{
    if selected {
        row_base_style(p, selected).bold()
    } else if current {
        color_style(p.text, p.panel_bg).bold()
    } else {
        color_style(p.subtext0, p.panel_bg)
    }
}

/// The style of keys in the footer.
pub open spec fn key_style(p: Palette) -> Style {
    emphasized(fg_style(p.accent), only_bold())
}

/// What is drawn as a separator.
pub open spec fn separator_ops(area: Rect, color: Color) -> Seq<DrawModel> {
    if area.height == 0 || area.width == 0 {
        Seq::<DrawModel>::empty()
    } else {
        seq![
            DrawModel::Plain {
                area,
                text: repeated('─', area.width as nat),
                style: fg_style(color),
            },
        ]
    }
}

/// Draws a separator.
pub fn render_separator(frame: &mut Frame, area: Rect, color: Color)
    ensures
        final(frame)@ == old(frame)@ + separator_ops(area, color),
{
    if area.height == 0 || area.width == 0 {
        proof {
            assert(frame@ =~= old(frame)@ + separator_ops(area, color));
        }
        return;
    }
    frame.write_plain(
        area,
        repeat_char('─', area.width as usize),
        Style::plain().with_fg(color),
    );
    proof {
        assert(frame@ =~= old(frame)@ + separator_ops(area, color));
    }
}

/// What is drawn as a vertical divider: one bar on each line.
pub open spec fn divider_ops(p: Palette, area: Rect) -> Seq<DrawModel> {
    if area.height == 0 || area.width == 0 {
        Seq::<DrawModel>::empty()
    } else {
        seq![
            DrawModel::Lines {
                area,
                lines: Seq::new(
                    area.height as nat,
                    |i: int| seq![piece(char_text('│'), plain_style())],
                ),
                style: fg_style(p.surface1),
                centered: false,
            },
        ]
    }
}

/// Draws a vertical divider.
pub fn render_vertical_divider(app: &AppState, frame: &mut Frame, area: Rect)
    ensures
        final(frame)@ == old(frame)@ + divider_ops(app@.palette, area),
{
    broadcast use {lemma_views_push, lemma_views_empty};

    if area.height == 0 || area.width == 0 {
        proof {
            assert(frame@ =~= old(frame)@ + divider_ops(app@.palette, area));
        }
        return;
    }
    let mut lines: Vec<StyledLine> = Vec::new();
    let mut i: u16 = 0;
    while i < area.height
        invariant
            i <= area.height,
            lines@.len() == i,
            forall|k: int|
                0 <= k < i ==> (#[trigger] lines@[k])@ == seq![
                    piece(char_text('│'), plain_style()),
                ],
        decreases area.height - i,
    {
        broadcast use {lemma_views_push, lemma_views_empty};

        let mut spans: Vec<StyledSpan> = Vec::new();
        push_mark(&mut spans, '│', Style::plain());
        proof {
            assert(views(spans@) =~= seq![piece(char_text('│'), plain_style())]);
        }
        lines.push(StyledLine { spans });
        i += 1;
    }
    proof {
        assert(views(lines@) =~= Seq::new(
            area.height as nat,
            |i: int| seq![piece(char_text('│'), plain_style())],
        ));
    }
    frame.draw(
        DrawOp::Lines {
            area,
            lines,
            style: Style::plain().with_fg(app.palette.surface1),
            centered: false,
        },
    );
    proof {
        assert(frame@ =~= old(frame)@ + divider_ops(app@.palette, area));
    }
}

/// What is drawn as the head of a preview: a title and a separator.
pub open spec fn preview_head_ops(p: Palette, area: Rect, label: Seq<char>) -> Seq<DrawModel> {
    seq![
        DrawModel::Plain {
            area: clipped_rect(area.x as int, area.y as int, area.width as int, 1),
            text: truncated(" preview: "@ + label, minus(area.width as int, 1) as nat),
            style: fg_style(p.overlay0),
        },
    ] + separator_ops(
        clipped_rect(
            area.x as int,
            smaller(area.y + 1, u16::MAX as int),
            area.width as int,
            smaller(area.height as int, 1),
        ),
        p.surface1,
    )
}

/// What is left of a preview below its head.
pub open spec fn preview_content(area: Rect) -> Rect {
    clipped_rect(
        area.x as int,
        smaller(area.y + 2, u16::MAX as int),
        area.width as int,
        minus(area.height as int, 2),
    )
}

/// Draws the head of a preview.
pub fn render_preview_head(p: &Palette, frame: &mut Frame, area: Rect, label: &str)
    ensures
        final(frame)@ == old(frame)@ + preview_head_ops(*p, area, label@),
{
    let title = truncate_text(
        concat_text(" preview: ", label).as_str(),
        area.width.saturating_sub(1) as usize,
    );
    frame.write_plain(
        rect_new(area.x, area.y, area.width, 1),
        title,
        Style::plain().with_fg(p.overlay0),
    );
    let height: u16 = if area.height < 1 {
        area.height
    } else {
        1
    };
    render_separator(
        frame,
        rect_new(area.x, area.y.saturating_add(1), area.width, height),
        p.surface1,
    );
    proof {
        assert(frame@ =~= old(frame)@ + preview_head_ops(*p, area, label@));
    }
}

/// What is left of a preview below its head.
pub fn preview_content_rect(area: Rect) -> (r: Rect)
    ensures
        r == preview_content(area),
{
    rect_new(area.x, area.y.saturating_add(2), area.width, area.height.saturating_sub(2))
}

} // verus!
