//! Drawing the workspace switcher.

use vstd::prelude::*;
use vstd::string::*;
use crate::ansi::{SpanModel, StyledSpan};
use crate::draw::{
    char_text, color_style, key_style, line_op, piece, push_mark, push_piece, row_base,
    row_base_style, row_dim, row_dim_style, row_prefix, row_prefix_text, row_text, row_text_style,
    shown_count, shown_text, DrawModel, DrawOp, Frame, ScrollMetrics,
};
use crate::geometry::{clipped_rect, minus, rect_new, smaller, Rect};
use crate::provider::SearchProviderStatus;
use crate::row_layout::{lemma_prefix_monotonic, LayoutModel, SwitcherRowLayout};
use crate::rows::{RowModel, WorkspaceSwitcherRow};
use crate::state::{AppModel, AppState, WorkspaceSwitcherMode};
use crate::style::{
    colors, emphasized, fg_style, only_bold, plain_style, Palette, Style,
};
use crate::switcher_rows::lemma_switcher_rows_len;
use crate::terminal::{RegistryModel, TerminalRuntimeRegistry};
use crate::text::{
    concat_text, decimal, decimal_text, fitted_segments, trim, trim_text, truncate_secondary_segments,
    truncate_text, truncated, SECONDARY_SEPARATOR,
};
use crate::views::{lemma_views_empty, views};

verus! {

// ---------------------------------------------------------------------------
// Rows
// ---------------------------------------------------------------------------

/// What is drawn as the second line of a row, behind `fixed` columns.
pub open spec fn secondary_op(
    secondary: Rect,
    fixed: int,
    segments: Seq<Seq<char>>,
    style: Style,
) -> DrawModel {
    let area = clipped_rect(
        smaller(secondary.x + fixed, u16::MAX as int),
        secondary.y as int,
        minus(secondary.width as int, fixed),
        1,
    );
    DrawModel::Plain { area, text: fitted_segments(
            segments,
            SECONDARY_SEPARATOR@,
            area.width as nat,
        ), style }
}

/// Draws the second line of a row, behind `fixed_width` columns.
pub fn render_secondary_line(
    frame: &mut Frame,
    secondary: Rect,
    fixed_width: u16,
    segments: &Vec<String>,
    style: Style,
)
    ensures
        final(frame)@ == old(frame)@.push(
            secondary_op(secondary, fixed_width as int, views(segments@), style),
        ),
{
    let area = rect_new(
        secondary.x.saturating_add(fixed_width),
        secondary.y,
        secondary.width.saturating_sub(fixed_width),
        1,
    );
    let text = truncate_secondary_segments(segments, area.width as usize);
    frame.write_plain(area, text, style);
}

/// The columns in front of the title of a row.
pub open spec fn fixed_columns(row: RowModel) -> int {
    if row.is_directory {
        3
    } else {
        2 * row.depth + 5
    }
}

/// The title of a row, cut to what is left of `width` columns.
pub open spec fn row_title(row: RowModel, width: u16) -> Seq<char> {
    truncated(
        row.label.existing,
        minus(minus(width as int, fixed_columns(row)), 1) as nat,
    )
}

/// The first line of a row.
pub open spec fn row_spans(p: Palette, row: RowModel, width: u16, selected: bool) -> Seq<SpanModel> {
    let dim = row_dim(p, selected);
    let title = row_title(row, width);
    if row.is_directory {
        seq![
            piece(" + "@, dim),
            piece(
                title,
                if selected {
                    emphasized(row_base(p, selected), only_bold())
                } else {
                    dim
                },
            ),
        ]
    } else {
        let dot = p.dot(row.state, row.seen);
        seq![
            piece(row_prefix(row.depth, row.is_tab, row.expanded), dim),
            piece(char_text(dot.symbol), dot.style),
            piece(" "@, dim),
            piece(title, row_text(p, selected, row.is_current)),
        ]
    }
}

/// Whether a row has a second line.
pub open spec fn has_second_line(row: RowModel, rect: Rect) -> bool {
    rect.height >= 2 && (row.is_directory || row.secondary.len() > 0)
}

/// What is drawn for one row.
#[verifier::opaque]
pub open spec fn row_ops(p: Palette, rect: Rect, row: RowModel, selected: bool) -> Seq<DrawModel> {
    let base = row_base(p, selected);
    let first = seq![
        DrawModel::Clear { area: rect },
        DrawModel::Fill { area: rect, style: base },
        line_op(
            clipped_rect(rect.x as int, rect.y as int, rect.width as int, 1),
            row_spans(p, row, rect.width, selected),
            base,
        ),
    ];
    if has_second_line(row, rect) {
        first.push(
            secondary_op(
                clipped_rect(
                    rect.x as int,
                    smaller(rect.y + 1, u16::MAX as int),
                    rect.width as int,
                    1,
                ),
                fixed_columns(row),
                row.secondary,
                row_dim(p, selected),
            ),
        )
    } else {
        first
    }
}

fn build_row_spans(p: &Palette, row: &WorkspaceSwitcherRow, width: u16, selected: bool) -> (r: Vec<
    StyledSpan,
>)
    ensures
        views(r@) == row_spans(*p, row@, width, selected),
{
    broadcast use lemma_views_empty;

    let dim = row_dim_style(p, selected);
    let mut spans: Vec<StyledSpan> = Vec::new();
    let fixed: u16 = if row.is_directory {
        3
    } else {
        2 * (row.depth as u16) + 5
    };
    let budget: usize = width.saturating_sub(fixed).saturating_sub(1) as usize;
    let title = truncate_text(row.label.parts().1, budget);
    if row.is_directory {
        push_piece(&mut spans, " + ", dim);
        let style = if selected {
            row_base_style(p, selected).bold()
        } else {
            dim
        };
        push_piece(&mut spans, title.as_str(), style);
    } else {
        let dot = p.state_dot(row.state, row.seen);
        let prefix = row_prefix_text(row.depth, row.is_tab, row.expanded);
        push_piece(&mut spans, prefix.as_str(), dim);
        push_mark(&mut spans, dot.symbol, dot.style);
        push_piece(&mut spans, " ", dim);
        push_piece(&mut spans, title.as_str(), row_text_style(p, selected, row.is_current));
    }
    proof {
        assert(views(spans@) =~= row_spans(*p, row@, width, selected));
    }
    spans
}

fn draw_row(
    p: &Palette,
    frame: &mut Frame,
    rect: Rect,
    row: &WorkspaceSwitcherRow,
    selected: bool,
)
    ensures
        final(frame)@ == old(frame)@ + row_ops(*p, rect, row@, selected),
{
    proof {
        reveal(row_ops);
    }
    let base = row_base_style(p, selected);
    frame.draw(DrawOp::Clear { area: rect });
    frame.draw(DrawOp::Fill { area: rect, style: base });
    let spans = build_row_spans(p, row, rect.width, selected);
    frame.write_line(rect_new(rect.x, rect.y, rect.width, 1), spans, base);
    if rect.height >= 2 && (row.is_directory || row.secondary.len() > 0) {
        let fixed: u16 = if row.is_directory {
            3
        } else {
            2 * (row.depth as u16) + 5
        };
        let secondary = rect_new(rect.x, rect.y.saturating_add(1), rect.width, 1);
        render_secondary_line(frame, secondary, fixed, &row.secondary, row_dim_style(p, selected));
    }
    proof {
        assert(frame@ =~= old(frame)@ + row_ops(*p, rect, row@, selected));
    }
}

/// Draws one row.
pub fn render_row(
    app: &AppState,
    frame: &mut Frame,
    rect: Rect,
    row: &WorkspaceSwitcherRow,
    selected: bool,
)
    ensures
        final(frame)@ == old(frame)@ + row_ops(app@.palette, rect, row@, selected),
{
    draw_row(&app.palette, frame, rect, row, selected);
}

/// Where row `index` is drawn in the window that starts at row `scroll`.
#[verifier::opaque]
pub open spec fn row_rect(body: Rect, layout: LayoutModel, scroll: int, index: int) -> Rect {
    clipped_rect(
        body.x as int,
        body.y + (layout.offset(index) - layout.offset(scroll)),
        body.width as int,
        layout.height(index) as int,
    )
}

/// What is drawn for the first `n` rows from row `scroll` on.
pub open spec fn window_ops(
    p: Palette,
    body: Rect,
    rows: Seq<RowModel>,
    scroll: int,
    selected: int,
    n: nat,
) -> Seq<DrawModel>
    decreases n,
{
    if n == 0 {
        Seq::<DrawModel>::empty()
    } else {
        let index = scroll + n - 1;
        window_ops(p, body, rows, scroll, selected, (n - 1) as nat) + row_ops(
            p,
            row_rect(body, LayoutModel::of(rows, body.height as nat), scroll, index),
            rows[index],
            index == selected,
        )
    }
}

impl AppModel {
    /// The text where there is no row.
    pub open spec fn no_rows_text(self) -> Seq<char> {
        if self.workspaces.len() == 0 {
            " no workspaces"@
        } else {
            " no matching workspaces"@
        }
    }

    /// What is drawn as the list.
    #[verifier::opaque]
    pub open spec fn list_ops(self, runtimes: RegistryModel, body: Rect) -> Seq<DrawModel> {
        let rows = self.switcher_rows(runtimes);
        let hint = fg_style(self.palette.overlay0);
        let scroll = smaller(self.switcher.scroll as int, rows.len() - 1);
        let visible = LayoutModel::of(rows, body.height as nat).visible_count_at(scroll);
        if body.height == 0 || body.width == 0 {
            Seq::<DrawModel>::empty()
        } else if rows.len() == 0 {
            seq![DrawModel::Plain { area: body, text: self.no_rows_text(), style: hint }]
        } else if visible == 0 {
            seq![
                DrawModel::Plain {
                    area: body,
                    text: decimal(rows.len()) + " items hidden"@,
                    style: hint,
                },
            ]
        } else {
            window_ops(
                self.palette,
                body,
                rows,
                scroll,
                self.switcher.selected as int,
                visible,
            )
        }
    }
}

fn row_area(body: Rect, layout: &SwitcherRowLayout, scroll: usize, index: usize) -> (r: Rect)
    requires
        layout.wf(),
        layout@.body == body.height,
        scroll < layout@.rows(),
        scroll <= index < scroll + layout@.visible_count_at(scroll as int),
        body.y + body.height <= u16::MAX,
    ensures
        r == row_rect(body, layout@, scroll as int, index as int),
{
    proof {
        reveal(row_rect);
    }
    let offset: usize = layout.window_offset(scroll, index);
    rect_new(body.x, body.y + offset as u16, body.width, layout.height(index) as u16)
}

fn render_window(
    p: &Palette,
    frame: &mut Frame,
    body: Rect,
    rows: &Vec<WorkspaceSwitcherRow>,
    layout: &SwitcherRowLayout,
    scroll: usize,
    selected: usize,
)
    requires
        layout.wf(),
        layout@ == LayoutModel::of(views(rows@), body.height as nat),
        scroll < rows@.len(),
        body.y + body.height <= u16::MAX,
    ensures
        final(frame)@ == old(frame)@ + window_ops(
            *p,
            body,
            views(rows@),
            scroll as int,
            selected as int,
            layout@.visible_count_at(scroll as int),
        ),
{
    let ghost before = frame@;
    let ghost all = views(rows@);
    let visible: usize = layout.visible_count_at(scroll);
    proof {
        assert(layout@.body == body.height && layout@.rows() == all.len()) by {
            reveal(LayoutModel::of);
        }
        assert(before + window_ops(*p, body, all, scroll as int, selected as int, 0) =~= before);
    }
    let mut n: usize = 0;
    while n < visible
        invariant
            n <= visible,
            layout.wf(),
            layout@ == LayoutModel::of(all, body.height as nat),
            layout@.body == body.height,
            layout@.rows() == all.len(),
            all == views(rows@),
            scroll < rows@.len(),
            scroll + visible <= rows.len(),
            visible == layout@.visible_count_at(scroll as int),
            body.y + body.height <= u16::MAX,
            frame@ == before + window_ops(
                *p,
                body,
                all,
                scroll as int,
                selected as int,
                n as nat,
            ),
        decreases visible - n,
    {
        let index: usize = scroll + n;
        proof {
            assert(all[index as int] == rows@[index as int]@);
        }
        let rect = row_area(body, layout, scroll, index);
        draw_row(p, frame, rect, &rows[index], index == selected);
        n += 1;
        proof {
            assert(frame@ =~= before + window_ops(
                *p,
                body,
                all,
                scroll as int,
                selected as int,
                n as nat,
            ));
        }
    }
}

/// Draws the list.
pub fn render_rows(
    app: &AppState,
    terminal_runtimes: &TerminalRuntimeRegistry,
    frame: &mut Frame,
    body: Rect,
)
    requires
        app@.countable(),
        body.y + body.height <= u16::MAX,
    ensures
        final(frame)@ == old(frame)@ + app@.list_ops(terminal_runtimes@, body),
{
    proof {
        reveal(AppModel::list_ops);
    }
    let ghost ops = app@.list_ops(terminal_runtimes@, body);
    if body.height == 0 || body.width == 0 {
        proof {
            assert(frame@ =~= old(frame)@ + ops);
        }
        return;
    }
    let rows = app.workspace_switcher_rows_from(terminal_runtimes);
    let hint = Style::plain().with_fg(app.palette.overlay0);
    if rows.len() == 0 {
        let message = if app.workspaces.len() == 0 {
            " no workspaces".to_owned()
        } else {
            " no matching workspaces".to_owned()
        };
        frame.write_plain(body, message, hint);
        proof {
            assert(frame@ =~= old(frame)@ + ops);
        }
        return;
    }
    let last: usize = rows.len() - 1;
    let scroll: usize = if app.workspace_switcher.scroll < last {
        app.workspace_switcher.scroll
    } else {
        last
    };
    proof {
        assert(2 * rows@.len() + body.height <= usize::MAX) by {
            reveal(AppModel::countable);
            assert(app@.workspaces.len() == app.workspaces.len());
            lemma_switcher_rows_len(app@, terminal_runtimes@);
        }
    }
    let layout = SwitcherRowLayout::new(&rows, body.height as usize);
    let visible: usize = layout.visible_count_at(scroll);
    if visible == 0 {
        frame.write_plain(
            body,
            concat_text(decimal_text(rows.len()).as_str(), " items hidden"),
            hint,
        );
        proof {
            assert(frame@ =~= old(frame)@ + ops);
        }
        return;
    }
    render_window(
        &app.palette,
        frame,
        body,
        &rows,
        &layout,
        scroll,
        app.workspace_switcher.selected,
    );
}

// ---------------------------------------------------------------------------
// Scrollbar
// ---------------------------------------------------------------------------

/// Where the scrollbar of the list stands, by the lines above the window.
#[verifier::opaque]
pub open spec fn list_metrics(layout: LayoutModel, scroll: int, body: Rect) -> ScrollMetrics {
    let largest = layout.offset(layout.max_scroll());
    let above = layout.offset(smaller(scroll, layout.max_scroll()));
    ScrollMetrics {
        viewport_rows: body.height as usize,
        offset_from_bottom: (largest - above) as usize,
        max_offset_from_bottom: largest as usize,
    }
}

/// What is drawn as a scrollbar at the right edge of `body`.
pub open spec fn scrollbar_op(p: Palette, metrics: ScrollMetrics, body: Rect) -> DrawModel {
    DrawModel::Scrollbar {
        metrics,
        track: clipped_rect(body.x + body.width - 1, body.y as int, 1, body.height as int),
        track_color: p.surface_dim,
        thumb_color: p.overlay0,
        symbol: '▕',
    }
}

impl AppModel {
    /// What is drawn as the scrollbar of the list: one where the rows do not all fit.
    #[verifier::opaque]
    pub open spec fn list_scrollbar_ops(self, runtimes: RegistryModel, body: Rect) -> Seq<
        DrawModel,
    > {
        let layout = self.row_layout(runtimes);
        if body.width <= 1 || body.height == 0 || layout.total() <= body.height {
            Seq::<DrawModel>::empty()
        } else {
            seq![
                scrollbar_op(
                    self.palette,
                    list_metrics(layout, self.switcher.scroll as int, body),
                    body,
                ),
            ]
        }
    }
}

/// Draws a scrollbar at the right edge of `body`.
pub fn draw_scrollbar(p: &Palette, frame: &mut Frame, metrics: ScrollMetrics, body: Rect)
    requires
        body.width > 0,
        body.x + body.width <= u16::MAX,
    ensures
        final(frame)@ == old(frame)@.push(scrollbar_op(*p, metrics, body)),
{
    frame.draw(
        DrawOp::Scrollbar {
            metrics,
            track: rect_new(body.x + body.width - 1, body.y, 1, body.height),
            track_color: p.surface_dim,
            thumb_color: p.overlay0,
            symbol: '▕',
        },
    );
}

/// A window starts no further down than the last place to which the list scrolls.
proof fn lemma_offsets_ordered(layout: LayoutModel, at: int)
    requires
        layout.wf(),
        0 <= at <= layout.max_scroll(),
    ensures
        0 <= layout.offset(at) <= layout.offset(layout.max_scroll()),
{
    crate::row_layout::lemma_max_scroll_is_a_row(layout);
    if layout.rows() == 0 {
        reveal(LayoutModel::max_scroll);
    }
    lemma_prefix_monotonic(layout, at, layout.max_scroll());
}

fn scroll_metrics(layout: &SwitcherRowLayout, scroll: usize, body: Rect) -> (r: ScrollMetrics)
    requires
        layout.wf(),
    ensures
        r == list_metrics(layout@, scroll as int, body),
{
    let max_scroll: usize = layout.max_scroll();
    let at: usize = if scroll < max_scroll {
        scroll
    } else {
        max_scroll
    };
    proof {
        reveal(list_metrics);
        assert(layout@.wf()) by {
            reveal(SwitcherRowLayout::wf);
        }
        lemma_offsets_ordered(layout@, at as int);
    }
    let largest: usize = layout.physical_offset(max_scroll);
    let above: usize = layout.physical_offset(at);
    ScrollMetrics {
        viewport_rows: body.height as usize,
        offset_from_bottom: largest - above,
        max_offset_from_bottom: largest,
    }
}

/// Draws the scrollbar of the list.
pub fn render_workspace_switcher_scrollbar(
    app: &AppState,
    terminal_runtimes: &TerminalRuntimeRegistry,
    frame: &mut Frame,
    body: Rect,
)
    requires
        app@.within_limits(),
        body.x + body.width <= u16::MAX,
    ensures
        final(frame)@ == old(frame)@ + app@.list_scrollbar_ops(terminal_runtimes@, body),
{
    proof {
        reveal(AppModel::list_scrollbar_ops);
    }
    let ghost ops = app@.list_scrollbar_ops(terminal_runtimes@, body);
    if body.width > 1 && body.height > 0 {
        let layout = app.workspace_switcher_row_layout(terminal_runtimes);
        if layout.total_physical() > body.height as usize {
            let metrics = scroll_metrics(&layout, app.workspace_switcher.scroll, body);
            draw_scrollbar(&app.palette, frame, metrics, body);
        }
    }
    proof {
        assert(frame@ =~= old(frame)@ + ops);
    }
}

// ---------------------------------------------------------------------------
// Search field, footer and top bar
// ---------------------------------------------------------------------------

/// The line of a search field. The number of rows stands at its end, and while the provider loads
/// a note before it.
pub open spec fn search_spans(
    p: Palette,
    title: Option<Seq<char>>,
    query: Seq<char>,
    loading: bool,
    count: nat,
    width: u16,
) -> Seq<SpanModel> {
    let dim = fg_style(p.overlay0);
    let head = match title {
        Some(title) => seq![piece(title, fg_style(p.accent))],
        None => Seq::<SpanModel>::empty(),
    };
    let field = if trim(query).len() == 0 {
        piece("search workspace names"@, dim)
    } else {
        piece(trim(query), fg_style(p.text))
    };
    let note = if loading {
        seq![piece(" loading…"@, dim)]
    } else {
        Seq::<SpanModel>::empty()
    };
    head.push(piece("/ "@, dim)).push(field) + note.push(piece(shown_text(count, width), dim))
}

/// The line of a search field.
pub fn build_search_spans(
    p: &Palette,
    title: Option<&str>,
    query: &str,
    loading: bool,
    count: usize,
    width: u16,
) -> (r: Vec<StyledSpan>)
    ensures
        views(r@) == search_spans(
            *p,
            match title {
                Some(title) => Some(title@),
                None => None,
            },
            query@,
            loading,
            count as nat,
            width,
        ),
{
    broadcast use lemma_views_empty;

    let dim = Style::plain().with_fg(p.overlay0);
    let mut spans: Vec<StyledSpan> = Vec::new();
    if let Some(title) = title {
        push_piece(&mut spans, title, Style::plain().with_fg(p.accent));
    }
    push_piece(&mut spans, "/ ", dim);
    let trimmed = trim_text(query);
    if trimmed.as_str().is_empty() {
        push_piece(&mut spans, "search workspace names", dim);
    } else {
        push_piece(&mut spans, trimmed.as_str(), Style::plain().with_fg(p.text));
    }
    if loading {
        push_piece(&mut spans, " loading…", dim);
    }
    push_piece(&mut spans, shown_count(count, width).as_str(), dim);
    proof {
        assert(views(spans@) =~= search_spans(
            *p,
            match title {
                Some(title) => Some(title@),
                None => None,
            },
            query@,
            loading,
            count as nat,
            width,
        ));
    }
    spans
}

impl AppModel {
    /// What is drawn as the search field.
    #[verifier::opaque]
    pub open spec fn search_ops(
        self,
        runtimes: RegistryModel,
        area: Rect,
        show_title: bool,
    ) -> Seq<DrawModel> {
        if area.height == 0 || area.width == 0 {
            Seq::<DrawModel>::empty()
        } else {
            seq![
                line_op(
                    area,
                    search_spans(
                        self.palette,
                        if show_title {
                            Some(" workspace switcher "@)
                        } else {
                            None
                        },
                        self.switcher.query,
                        self.switcher.status == SearchProviderStatus::Loading,
                        self.switcher_rows(runtimes).len(),
                        area.width,
                    ),
                    plain_style(),
                ),
            ]
        }
    }
}

/// Draws the search field.
pub fn render_search(
    app: &AppState,
    terminal_runtimes: &TerminalRuntimeRegistry,
    frame: &mut Frame,
    area: Rect,
    show_title: bool,
)
    ensures
        final(frame)@ == old(frame)@ + app@.search_ops(terminal_runtimes@, area, show_title),
{
    proof {
        reveal(AppModel::search_ops);
    }
    let ghost ops = app@.search_ops(terminal_runtimes@, area, show_title);
    if area.height == 0 || area.width == 0 {
        proof {
            assert(frame@ =~= old(frame)@ + ops);
        }
        return;
    }
    let count: usize = app.workspace_switcher_row_count_from(terminal_runtimes);
    let loading = app.workspace_switcher.provider_status == SearchProviderStatus::Loading;
    let title = if show_title {
        Some(" workspace switcher ")
    } else {
        None
    };
    let spans = build_search_spans(
        &app.palette,
        title,
        app.workspace_switcher.query.as_str(),
        loading,
        count,
        area.width,
    );
    frame.write_line(area, spans, Style::plain());
    proof {
        assert(frame@ =~= old(frame)@ + ops);
    }
}

/// The line of the footer while quick switching.
pub open spec fn quick_footer(p: Palette) -> Seq<SpanModel> {
    let key = key_style(p);
    let dim = fg_style(p.overlay0);
    seq![
        piece(" enter"@, key),
        piece(" switch  "@, dim),
        piece("tab"@, key),
        piece(" cycle  "@, dim),
        piece("←/→"@, key),
        piece(" collapse/expand  "@, dim),
        piece("s"@, key),
        piece(" search  "@, dim),
        piece("esc"@, key),
        piece(" close"@, dim),
    ]
}

/// The line of the footer in a search, where `escape` tells what the escape key does.
pub open spec fn search_footer(p: Palette, escape: Seq<char>) -> Seq<SpanModel> {
    let key = key_style(p);
    let dim = fg_style(p.overlay0);
    seq![
        piece(" enter"@, key),
        piece(" switch  "@, dim),
        piece("type"@, key),
        piece(" search  "@, dim),
        piece("j/k/↑↓"@, key),
        piece(" move  "@, dim),
        piece("esc"@, key),
        piece(escape, dim),
    ]
}

/// The line of the footer in a search.
pub fn build_search_footer(p: &Palette, escape: &str) -> (r: Vec<StyledSpan>)
    ensures
        views(r@) == search_footer(*p, escape@),
{
    broadcast use lemma_views_empty;

    let key = Style::plain().with_fg(p.accent).bold();
    let dim = Style::plain().with_fg(p.overlay0);
    let mut spans: Vec<StyledSpan> = Vec::new();
    push_piece(&mut spans, " enter", key);
    push_piece(&mut spans, " switch  ", dim);
    push_piece(&mut spans, "type", key);
    push_piece(&mut spans, " search  ", dim);
    push_piece(&mut spans, "j/k/↑↓", key);
    push_piece(&mut spans, " move  ", dim);
    push_piece(&mut spans, "esc", key);
    push_piece(&mut spans, escape, dim);
    proof {
        assert(views(spans@) =~= search_footer(*p, escape@));
    }
    spans
}

fn build_quick_footer(p: &Palette) -> (r: Vec<StyledSpan>)
    ensures
        views(r@) == quick_footer(*p),
{
    broadcast use lemma_views_empty;

    let key = Style::plain().with_fg(p.accent).bold();
    let dim = Style::plain().with_fg(p.overlay0);
    let mut spans: Vec<StyledSpan> = Vec::new();
    push_piece(&mut spans, " enter", key);
    push_piece(&mut spans, " switch  ", dim);
    push_piece(&mut spans, "tab", key);
    push_piece(&mut spans, " cycle  ", dim);
    push_piece(&mut spans, "←/→", key);
    push_piece(&mut spans, " collapse/expand  ", dim);
    push_piece(&mut spans, "s", key);
    push_piece(&mut spans, " search  ", dim);
    push_piece(&mut spans, "esc", key);
    push_piece(&mut spans, " close", dim);
    proof {
        assert(views(spans@) =~= quick_footer(*p));
    }
    spans
}

/// What is drawn as the footer.
pub open spec fn footer_ops(p: Palette, mode: WorkspaceSwitcherMode, area: Rect) -> Seq<DrawModel> {
    if area.height == 0 {
        Seq::<DrawModel>::empty()
    } else {
        let spans = match mode {
            WorkspaceSwitcherMode::QuickSwitch => quick_footer(p),
            WorkspaceSwitcherMode::Search => search_footer(p, " back"@),
        };
        seq![line_op(area, spans, plain_style())]
    }
}

/// Draws the footer.
pub fn render_footer(app: &AppState, frame: &mut Frame, area: Rect)
    ensures
        final(frame)@ == old(frame)@ + footer_ops(app@.palette, app@.switcher.mode, area),
{
    let ghost ops = footer_ops(app@.palette, app@.switcher.mode, area);
    if area.height > 0 {
        let spans = match app.workspace_switcher.mode {
            WorkspaceSwitcherMode::QuickSwitch => build_quick_footer(&app.palette),
            WorkspaceSwitcherMode::Search => build_search_footer(&app.palette, " back"),
        };
        frame.write_line(area, spans, Style::plain());
    }
    proof {
        assert(frame@ =~= old(frame)@ + ops);
    }
}

/// The text of the close button.
pub open spec fn close_spans(p: Palette) -> Seq<SpanModel> {
    seq![
        piece("close"@, emphasized(colors(p.overlay1, p.surface0), only_bold())),
        piece(" "@, Style { bg: Some(p.surface0), ..plain_style() }),
        piece("×"@, emphasized(colors(p.text, p.surface0), only_bold())),
    ]
}

/// What is drawn as the top bar of a narrow screen: a title, and a close button with a bar at its
/// left edge.
pub open spec fn top_bar_ops(p: Palette, area: Rect, close: Rect) -> Seq<DrawModel> {
    let title = DrawModel::Plain {
        area,
        text: " workspace switcher"@,
        style: emphasized(colors(p.text, p.panel_bg), only_bold()),
    };
    if area.width == 0 || area.height == 0 {
        Seq::<DrawModel>::empty()
    } else if close.width == 0 {
        seq![title]
    } else {
        seq![
            title,
            DrawModel::Lines {
                area: close,
                lines: seq![close_spans(p)],
                style: Style { bg: Some(p.surface0), ..plain_style() },
                centered: true,
            },
            DrawModel::Cell {
                x: close.x,
                y: close.y,
                symbol: '│',
                style: colors(p.surface_dim, p.surface0),
            },
        ]
    }
}

/// Draws the top bar of a narrow screen.
pub fn render_mobile_top_bar(app: &AppState, frame: &mut Frame, area: Rect, close: Rect)
    ensures
        final(frame)@ == old(frame)@ + top_bar_ops(app@.palette, area, close),
{
    broadcast use lemma_views_empty;

    let p = &app.palette;
    let ghost ops = top_bar_ops(app@.palette, area, close);
    if area.width == 0 || area.height == 0 {
        proof {
            assert(frame@ =~= old(frame)@ + ops);
        }
        return;
    }
    frame.write_plain(
        area,
        " workspace switcher".to_owned(),
        color_style(p.text, p.panel_bg).bold(),
    );
    if close.width == 0 {
        proof {
            assert(frame@ =~= old(frame)@ + ops);
        }
        return;
    }
    let mut spans: Vec<StyledSpan> = Vec::new();
    push_piece(&mut spans, "close", color_style(p.overlay1, p.surface0).bold());
    push_piece(&mut spans, " ", Style::plain().with_bg(p.surface0));
    push_piece(&mut spans, "×", color_style(p.text, p.surface0).bold());
    proof {
        assert(views(spans@) =~= close_spans(*p));
    }
    frame.write_centered(close, spans, Style::plain().with_bg(p.surface0));
    frame.draw(
        DrawOp::Cell {
            x: close.x,
            y: close.y,
            symbol: '│',
            style: color_style(p.surface_dim, p.surface0),
        },
    );
    proof {
        assert(frame@ =~= old(frame)@ + ops);
    }
}

} // verus!
