//! Drawing the workspace picker.

use vstd::prelude::*;
use vstd::string::*;
use crate::ansi::{ansi_to_text, styled_lines, SpanModel, StyledSpan};
use crate::draw::{
    char_text, divider_ops, key_style, lemma_appended, line_op, piece, preview_content,
    preview_content_rect, preview_head_ops, push_mark, push_piece, render_preview_head,
    render_separator, render_vertical_divider, row_base, row_base_style, row_dim, row_dim_style,
    row_prefix, row_prefix_text, row_text, row_text_style, separator_ops, DrawModel, DrawOp, Frame,
    ScrollMetrics,
};
use crate::geometry::{
    clipped_rect, divider_of, footer_of, lemma_popup_nested, minus, preview_of, rect_new,
    search_of, smaller, Rect,
};
use crate::picker_rows::{PickerRowModel, WorkspacePickerRow};
use crate::state::{
    AppModel, AppState, PickerPreviewModel, WorkspacePickerMode, WorkspacePickerPreview,
};
use crate::style::{fg_style, plain_style, Palette, Style};
use crate::switcher_render::{
    build_search_footer, build_search_spans, draw_scrollbar, scrollbar_op, search_footer,
    search_spans,
};
use crate::terminal::{RegistryModel, TerminalRuntimeRegistry};
use crate::text::{concat_text, truncate_text, truncated};
use crate::views::{lemma_views_empty, views};

verus! {

/// The columns for the metadata of a row: none on a narrow list.
pub open spec fn meta_columns(width: int) -> int {
    if width >= 38 {
        13
    } else if width >= 30 {
        9
    } else {
        0
    }
}

/// The columns for the metadata of a row.
pub fn row_meta_width(width: u16) -> (r: u16)
    ensures
        r == meta_columns(width as int),
{
    if width >= 38 {
        13
    } else if width >= 30 {
        9
    } else {
        0
    }
}

/// The columns in front of the title of a row. Only quick switching has marks and indentation.
pub open spec fn picker_fixed_columns(row: PickerRowModel, quick: bool) -> int {
    if quick {
        2 * row.depth + 5
    } else {
        3
    }
}

/// The title of a row, cut to what is left of `width` columns.
#[verifier::opaque]
pub open spec fn picker_title(row: PickerRowModel, width: u16, quick: bool) -> Seq<char> {
    truncated(
        row.label,
        minus(
            minus(
                minus(width as int, meta_columns(width as int)),
                picker_fixed_columns(row, quick),
            ),
            1,
        ) as nat,
    )
}

/// What stands in front of a row.
pub open spec fn picker_prefix(row: PickerRowModel, quick: bool) -> Seq<char> {
    if quick {
        row_prefix(row.depth, row.is_tab, row.expanded)
    } else {
        " "@
    }
}

/// The line of a row.
pub open spec fn picker_row_spans(
    p: Palette,
    row: PickerRowModel,
    width: u16,
    selected: bool,
    quick: bool,
) -> Seq<SpanModel> {
    let dim = row_dim(p, selected);
    let dot = p.dot(row.state, row.seen);
    seq![
        piece(picker_prefix(row, quick), dim),
        piece(char_text(dot.symbol), dot.style),
        piece(" "@, dim),
        piece(picker_title(row, width, quick), row_text(p, selected, row.is_current)),
    ]
}

/// What is drawn for the metadata of a row, at its right end.
pub open spec fn meta_op(p: Palette, rect: Rect, meta: Seq<char>, selected: bool) -> DrawModel {
    let columns = meta_columns(rect.width as int);
    DrawModel::Plain {
        area: clipped_rect(
            rect.x + minus(rect.width as int, columns),
            rect.y as int,
            columns,
            1,
        ),
        text: " "@ + truncated(meta, minus(columns, 1) as nat),
        style: row_dim(p, selected),
    }
}

/// What is drawn for one row.
#[verifier::opaque]
pub open spec fn picker_row_ops(
    p: Palette,
    rect: Rect,
    row: PickerRowModel,
    selected: bool,
    quick: bool,
) -> Seq<DrawModel> {
    let line = seq![
        DrawModel::Clear { area: rect },
        line_op(
            rect,
            picker_row_spans(p, row, rect.width, selected, quick),
            row_base(p, selected),
        ),
    ];
    if meta_columns(rect.width as int) > 0 {
        line.push(meta_op(p, rect, row.meta, selected))
    } else {
        line
    }
}

fn build_picker_title(row: &WorkspacePickerRow, width: u16, quick: bool) -> (r: String)
    ensures
        r@ == picker_title(row@, width, quick),
{
    proof {
        reveal(picker_title);
    }
    let fixed: u16 = if quick {
        2 * (row.depth as u16) + 5
    } else {
        3
    };
    let budget: u16 = width.saturating_sub(row_meta_width(width)).saturating_sub(
        fixed,
    ).saturating_sub(1);
    truncate_text(row.label.as_str(), budget as usize)
}

fn build_picker_prefix(row: &WorkspacePickerRow, quick: bool) -> (r: String)
    ensures
        r@ == picker_prefix(row@, quick),
{
    if quick {
        row_prefix_text(row.depth, row.is_tab, row.expanded)
    } else {
        " ".to_owned()
    }
}

fn build_picker_row_spans(
    p: &Palette,
    row: &WorkspacePickerRow,
    width: u16,
    selected: bool,
    quick: bool,
) -> (r: Vec<StyledSpan>)
    ensures
        views(r@) == picker_row_spans(*p, row@, width, selected, quick),
{
    broadcast use lemma_views_empty;

    let dim = row_dim_style(p, selected);
    let dot = p.state_dot(row.state, row.seen);
    let prefix = build_picker_prefix(row, quick);
    let title = build_picker_title(row, width, quick);
    let mut spans: Vec<StyledSpan> = Vec::new();
    push_piece(&mut spans, prefix.as_str(), dim);
    push_mark(&mut spans, dot.symbol, dot.style);
    push_piece(&mut spans, " ", dim);
    push_piece(&mut spans, title.as_str(), row_text_style(p, selected, row.is_current));
    proof {
        assert(views(spans@) =~= picker_row_spans(*p, row@, width, selected, quick));
    }
    spans
}

fn draw_picker_row(
    p: &Palette,
    frame: &mut Frame,
    rect: Rect,
    row: &WorkspacePickerRow,
    selected: bool,
    quick: bool,
)
    requires
        rect.x + rect.width <= u16::MAX,
    ensures
        final(frame)@ == old(frame)@ + picker_row_ops(*p, rect, row@, selected, quick),
{
    proof {
        reveal(picker_row_ops);
    }
    frame.draw(DrawOp::Clear { area: rect });
    let spans = build_picker_row_spans(p, row, rect.width, selected, quick);
    frame.write_line(rect, spans, row_base_style(p, selected));
    let columns: u16 = row_meta_width(rect.width);
    if columns > 0 {
        let area = rect_new(rect.x + rect.width.saturating_sub(columns), rect.y, columns, 1);
        let meta = truncate_text(row.meta.as_str(), columns.saturating_sub(1) as usize);
        frame.write_plain(area, concat_text(" ", meta.as_str()), row_dim_style(p, selected));
    }
    proof {
        assert(frame@ =~= old(frame)@ + picker_row_ops(*p, rect, row@, selected, quick));
    }
}

/// Draws one row.
pub fn render_row(
    app: &AppState,
    frame: &mut Frame,
    rect: Rect,
    row: &WorkspacePickerRow,
    selected: bool,
)
    requires
        rect.x + rect.width <= u16::MAX,
    ensures
        final(frame)@ == old(frame)@ + picker_row_ops(
            app@.palette,
            rect,
            row@,
            selected,
            app@.picker.mode.quick(),
        ),
{
    let quick = app.workspace_picker.mode.is_quick_switch();
    draw_picker_row(&app.palette, frame, rect, row, selected, quick);
}

/// What is drawn for the first `n` rows from row `start` on, one on each line.
pub open spec fn picker_window_ops(
    p: Palette,
    body: Rect,
    rows: Seq<PickerRowModel>,
    start: int,
    selected: int,
    quick: bool,
    n: nat,
) -> Seq<DrawModel>
    decreases n,
{
    if n == 0 {
        Seq::<DrawModel>::empty()
    } else {
        picker_window_ops(p, body, rows, start, selected, quick, (n - 1) as nat) + picker_row_ops(
            p,
            clipped_rect(body.x as int, body.y + (n - 1), body.width as int, 1),
            rows[start + n - 1],
            start + n - 1 == selected,
            quick,
        )
    }
}

impl AppModel {
    /// What is drawn as the list of the picker.
    #[verifier::opaque]
    pub open spec fn picker_list_ops(self, runtimes: RegistryModel, body: Rect) -> Seq<DrawModel> {
        let rows = self.picker_rows(runtimes);
        let start = smaller(self.picker.scroll as int, rows.len() as int);
        if body.height == 0 || body.width == 0 {
            Seq::<DrawModel>::empty()
        } else if rows.len() == 0 {
            seq![
                DrawModel::Plain {
                    area: body,
                    text: self.no_rows_text(),
                    style: fg_style(self.palette.overlay0),
                },
            ]
        } else {
            picker_window_ops(
                self.palette,
                body,
                rows,
                start,
                self.picker.selected as int,
                self.picker.mode.quick(),
                smaller(rows.len() - start, body.height as int) as nat,
            )
        }
    }
}

fn render_picker_window(
    p: &Palette,
    frame: &mut Frame,
    body: Rect,
    rows: &Vec<WorkspacePickerRow>,
    start: usize,
    selected: usize,
    quick: bool,
)
    requires
        start <= rows@.len(),
        body.x + body.width <= u16::MAX,
        body.y + body.height <= u16::MAX,
    ensures
        final(frame)@ == old(frame)@ + picker_window_ops(
            *p,
            body,
            views(rows@),
            start as int,
            selected as int,
            quick,
            smaller(rows@.len() - start, body.height as int) as nat,
        ),
{
    let ghost before = frame@;
    let ghost all = views(rows@);
    let left: usize = rows.len() - start;
    let count: usize = if left < body.height as usize {
        left
    } else {
        body.height as usize
    };
    proof {
        assert(before + picker_window_ops(
            *p,
            body,
            all,
            start as int,
            selected as int,
            quick,
            0,
        ) =~= before);
    }
    let mut n: usize = 0;
    while n < count
        invariant
            n <= count,
            count <= body.height,
            start + count <= rows.len(),
            all == views(rows@),
            body.x + body.width <= u16::MAX,
            body.y + body.height <= u16::MAX,
            frame@ == before + picker_window_ops(
                *p,
                body,
                all,
                start as int,
                selected as int,
                quick,
                n as nat,
            ),
        decreases count - n,
    {
        let index: usize = start + n;
        let rect = rect_new(body.x, body.y + n as u16, body.width, 1);
        proof {
            assert(all[index as int] == rows@[index as int]@);
        }
        draw_picker_row(p, frame, rect, &rows[index], index == selected, quick);
        n += 1;
        proof {
            assert(frame@ =~= before + picker_window_ops(
                *p,
                body,
                all,
                start as int,
                selected as int,
                quick,
                n as nat,
            ));
        }
    }
}

/// Draws the list.
pub fn render_rows(
    app: &AppState,
    terminal_runtimes: &TerminalRuntimeRegistry,
    frame: &mut Frame,
    body: Rect,
)
    requires
        app@.countable(),
        body.x + body.width <= u16::MAX,
        body.y + body.height <= u16::MAX,
    ensures
        final(frame)@ == old(frame)@ + app@.picker_list_ops(terminal_runtimes@, body),
{
    proof {
        reveal(AppModel::picker_list_ops);
    }
    let ghost ops = app@.picker_list_ops(terminal_runtimes@, body);
    if body.height == 0 || body.width == 0 {
        proof {
            assert(frame@ =~= old(frame)@ + ops);
        }
        return;
    }
    let rows = app.workspace_picker_rows_from(terminal_runtimes);
    if rows.len() == 0 {
        let message = if app.workspaces.len() == 0 {
            " no workspaces".to_owned()
        } else {
            " no matching workspaces".to_owned()
        };
        frame.write_plain(body, message, Style::plain().with_fg(app.palette.overlay0));
        proof {
            assert(frame@ =~= old(frame)@ + ops);
        }
        return;
    }
    let start: usize = if app.workspace_picker.scroll < rows.len() {
        app.workspace_picker.scroll
    } else {
        rows.len()
    };
    render_picker_window(
        &app.palette,
        frame,
        body,
        &rows,
        start,
        app.workspace_picker.selected,
        app.workspace_picker.mode.is_quick_switch(),
    );
}

impl AppModel {
    /// What is drawn as the scrollbar of the picker: one where the rows do not all fit.
    #[verifier::opaque]
    pub open spec fn picker_scrollbar_ops(self, runtimes: RegistryModel, body: Rect) -> Seq<
        DrawModel,
    > {
        let largest = self.picker_rows(runtimes).len() - body.height;
        if body.width <= 1 || body.height == 0 || largest <= 0 {
            Seq::<DrawModel>::empty()
        } else {
            seq![
                scrollbar_op(
                    self.palette,
                    ScrollMetrics {
                        viewport_rows: body.height as usize,
                        offset_from_bottom: minus(largest, self.picker.scroll as int) as usize,
                        max_offset_from_bottom: largest as usize,
                    },
                    body,
                ),
            ]
        }
    }

    /// What is drawn as the search field of the picker.
    #[verifier::opaque]
    pub open spec fn picker_search_ops(self, runtimes: RegistryModel, area: Rect) -> Seq<
        DrawModel,
    > {
        if area.height == 0 || area.width == 0 {
            Seq::<DrawModel>::empty()
        } else {
            seq![
                line_op(
                    area,
                    search_spans(
                        self.palette,
                        Some(
                            if self.picker.mode.quick() {
                                " quick switch "@
                            } else {
                                " workspaces "@
                            },
                        ),
                        self.picker.query,
                        false,
                        self.picker_rows(runtimes).len(),
                        area.width,
                    ),
                    plain_style(),
                ),
            ]
        }
    }

    /// The label in the title of the preview of the picker.
    #[verifier::opaque]
    pub open spec fn picker_preview_label(self, runtimes: RegistryModel) -> Seq<char> {
        let rows = self.picker_rows(runtimes);
        if self.picker.selected < rows.len() {
            rows[self.picker.selected as int].label
        } else {
            "preview"@
        }
    }

    /// What is drawn below the title of the preview of the picker.
    #[verifier::opaque]
    pub open spec fn picker_preview_body_ops(self, content: Rect) -> Seq<DrawModel> {
        match self.picker.preview {
            PickerPreviewModel::Content { text, .. } => seq![
                DrawModel::Lines {
                    area: content,
                    lines: styled_lines(text),
                    style: plain_style(),
                    centered: false,
                },
            ],
            PickerPreviewModel::Empty { message } => seq![
                DrawModel::Plain {
                    area: content,
                    text: " "@ + message,
                    style: fg_style(self.palette.overlay0),
                },
            ],
        }
    }

    /// What is drawn as the preview of the picker.
    #[verifier::opaque]
    pub open spec fn picker_preview_ops(self, runtimes: RegistryModel, area: Rect) -> Seq<
        DrawModel,
    > {
        if area.height == 0 || area.width == 0 {
            Seq::<DrawModel>::empty()
        } else {
            let head = preview_head_ops(self.palette, area, self.picker_preview_label(runtimes));
            if preview_content(area).height == 0 {
                head
            } else {
                head + self.picker_preview_body_ops(preview_content(area))
            }
        }
    }
}

/// Draws the scrollbar.
pub fn render_workspace_picker_scrollbar(
    app: &AppState,
    terminal_runtimes: &TerminalRuntimeRegistry,
    frame: &mut Frame,
    body: Rect,
)
    requires
        app@.countable(),
        body.x + body.width <= u16::MAX,
    ensures
        final(frame)@ == old(frame)@ + app@.picker_scrollbar_ops(terminal_runtimes@, body),
{
    proof {
        reveal(AppModel::picker_scrollbar_ops);
    }
    let viewport: usize = body.height as usize;
    if body.width > 1 && viewport > 0 {
        let rows: usize = app.workspace_picker_row_count_from(terminal_runtimes);
        if rows > viewport {
            let largest: usize = rows - viewport;
            let metrics = ScrollMetrics {
                viewport_rows: viewport,
                offset_from_bottom: largest.saturating_sub(app.workspace_picker.scroll),
                max_offset_from_bottom: largest,
            };
            draw_scrollbar(&app.palette, frame, metrics, body);
        }
    }
    proof {
        assert(frame@ =~= old(frame)@ + app@.picker_scrollbar_ops(terminal_runtimes@, body));
    }
}

/// Draws the search field.
pub fn render_search(
    app: &AppState,
    terminal_runtimes: &TerminalRuntimeRegistry,
    frame: &mut Frame,
    area: Rect,
)
    requires
        app@.countable(),
    ensures
        final(frame)@ == old(frame)@ + app@.picker_search_ops(terminal_runtimes@, area),
{
    proof {
        reveal(AppModel::picker_search_ops);
    }
    if area.height > 0 && area.width > 0 {
        let title = if app.workspace_picker.mode.is_quick_switch() {
            " quick switch "
        } else {
            " workspaces "
        };
        let spans = build_search_spans(
            &app.palette,
            Some(title),
            app.workspace_picker.query.as_str(),
            false,
            app.workspace_picker_row_count_from(terminal_runtimes),
            area.width,
        );
        frame.write_line(area, spans, Style::plain());
    }
    proof {
        assert(frame@ =~= old(frame)@ + app@.picker_search_ops(terminal_runtimes@, area));
    }
}

fn picker_preview_title(app: &AppState, terminal_runtimes: &TerminalRuntimeRegistry) -> (r: String)
    requires
        app@.countable(),
    ensures
        r@ == app@.picker_preview_label(terminal_runtimes@),
{
    proof {
        reveal(AppModel::picker_preview_label);
    }
    let rows = app.workspace_picker_rows_from(terminal_runtimes);
    let selected: usize = app.workspace_picker.selected;
    if selected < rows.len() {
        proof {
            assert(views(rows@)[selected as int] == rows@[selected as int]@);
        }
        rows[selected].label.clone()
    } else {
        "preview".to_owned()
    }
}

fn render_picker_preview_body(app: &AppState, frame: &mut Frame, content: Rect)
    ensures
        final(frame)@ == old(frame)@ + app@.picker_preview_body_ops(content),
{
    proof {
        reveal(AppModel::picker_preview_body_ops);
    }
    match &app.workspace_picker.preview {
        WorkspacePickerPreview::Content { text, .. } => {
            frame.write_text(content, ansi_to_text(text.as_str()));
        },
        WorkspacePickerPreview::Empty { message } => {
            frame.write_plain(
                content,
                concat_text(" ", message.as_str()),
                Style::plain().with_fg(app.palette.overlay0),
            );
        },
    }
    proof {
        assert(frame@ =~= old(frame)@ + app@.picker_preview_body_ops(content));
    }
}

/// Draws the preview.
pub fn render_preview(
    app: &AppState,
    terminal_runtimes: &TerminalRuntimeRegistry,
    frame: &mut Frame,
    area: Rect,
)
    requires
        app@.countable(),
    ensures
        final(frame)@ == old(frame)@ + app@.picker_preview_ops(terminal_runtimes@, area),
{
    proof {
        reveal(AppModel::picker_preview_ops);
    }
    if area.height > 0 && area.width > 0 {
        let label = picker_preview_title(app, terminal_runtimes);
        render_preview_head(&app.palette, frame, area, label.as_str());
        let content = preview_content_rect(area);
        if content.height > 0 {
            render_picker_preview_body(app, frame, content);
        }
    }
    proof {
        assert(frame@ =~= old(frame)@ + app@.picker_preview_ops(terminal_runtimes@, area));
    }
}

/// The line of the footer while quick switching, where `escape` tells what the escape key does.
pub open spec fn picker_quick_footer(p: Palette, escape: Seq<char>) -> Seq<SpanModel> {
    let key = key_style(p);
    let dim = fg_style(p.overlay0);
    seq![
        piece(" enter"@, key),
        piece(" switch  "@, dim),
        piece("tab"@, key),
        piece(" cycle  "@, dim),
        piece("l/h"@, key),
        piece(" expand  "@, dim),
        piece("s"@, key),
        piece(" search  "@, dim),
        piece("esc"@, key),
        piece(escape, dim),
    ]
}

fn build_picker_quick_footer(p: &Palette, escape: &str) -> (r: Vec<StyledSpan>)
    ensures
        views(r@) == picker_quick_footer(*p, escape@),
{
    broadcast use lemma_views_empty;

    let key = Style::plain().with_fg(p.accent).bold();
    let dim = Style::plain().with_fg(p.overlay0);
    let mut spans: Vec<StyledSpan> = Vec::new();
    push_piece(&mut spans, " enter", key);
    push_piece(&mut spans, " switch  ", dim);
    push_piece(&mut spans, "tab", key);
    push_piece(&mut spans, " cycle  ", dim);
    push_piece(&mut spans, "l/h", key);
    push_piece(&mut spans, " expand  ", dim);
    push_piece(&mut spans, "s", key);
    push_piece(&mut spans, " search  ", dim);
    push_piece(&mut spans, "esc", key);
    push_piece(&mut spans, escape, dim);
    proof {
        assert(views(spans@) =~= picker_quick_footer(*p, escape@));
    }
    spans
}

/// What is drawn as the footer.
pub open spec fn picker_footer_ops(p: Palette, mode: WorkspacePickerMode, area: Rect) -> Seq<
    DrawModel,
> {
    if area.height == 0 {
        Seq::<DrawModel>::empty()
    } else {
        let spans = match mode {
            WorkspacePickerMode::Search => search_footer(p, " close"@),
            WorkspacePickerMode::QuickSwitch => picker_quick_footer(p, " close"@),
            WorkspacePickerMode::QuickSwitchSearch => picker_quick_footer(p, " back"@),
        };
        seq![line_op(area, spans, plain_style())]
    }
}

/// Draws the footer.
pub fn render_footer(app: &AppState, frame: &mut Frame, area: Rect)
    ensures
        final(frame)@ == old(frame)@ + picker_footer_ops(app@.palette, app@.picker.mode, area),
{
    if area.height > 0 {
        let spans = match app.workspace_picker.mode {
            WorkspacePickerMode::Search => build_search_footer(&app.palette, " close"),
            WorkspacePickerMode::QuickSwitch => build_picker_quick_footer(&app.palette, " close"),
            WorkspacePickerMode::QuickSwitchSearch => build_picker_quick_footer(
                &app.palette,
                " back",
            ),
        };
        frame.write_line(area, spans, Style::plain());
    }
    proof {
        assert(frame@ =~= old(frame)@ + picker_footer_ops(app@.palette, app@.picker.mode, area));
    }
}

impl AppModel {
    /// What is drawn as the search field of the picker with its separator, which is as wide as
    /// the inside `inner` of the panel.
    #[verifier::opaque]
    pub open spec fn picker_search_area_ops(self, runtimes: RegistryModel, inner: Rect) -> Seq<
        DrawModel,
    > {
        if self.picker.mode.searches() {
            let search = search_of(self.picker_inner());
            self.picker_search_ops(runtimes, search) + separator_ops(
                clipped_rect(inner.x as int, search.y + 1, inner.width as int, 1),
                self.palette.surface1,
            )
        } else {
            Seq::<DrawModel>::empty()
        }
    }

    /// What is drawn for the picker. `inner` is the inside of the panel around it, where the panel
    /// could be drawn.
    #[verifier::opaque]
    pub open spec fn picker_ops(self, runtimes: RegistryModel, inner: Option<Rect>) -> Seq<
        DrawModel,
    > {
        match inner {
            None => Seq::<DrawModel>::empty(),
            Some(inner) => self.picker_search_area_ops(runtimes, inner) + self.picker_list_ops(
                runtimes,
                self.picker_body(),
            ) + self.picker_scrollbar_ops(runtimes, self.picker_body()) + divider_ops(
                self.palette,
                divider_of(self.picker_content()),
            ) + self.picker_preview_ops(runtimes, preview_of(self.picker_content()))
                + picker_footer_ops(
                self.palette,
                self.picker.mode,
                footer_of(self.picker_inner()),
            ),
        }
    }
}

fn render_picker_search_area(
    app: &AppState,
    terminal_runtimes: &TerminalRuntimeRegistry,
    frame: &mut Frame,
    inner: Rect,
)
    requires
        app@.picker_within_limits(),
        app@.view.fits(),
    ensures
        final(frame)@ == old(frame)@ + app@.picker_search_area_ops(terminal_runtimes@, inner),
{
    proof {
        reveal(AppModel::picker_search_area_ops);
        lemma_popup_nested(app@.view, app@.picker.mode.searches());
    }
    if app.workspace_picker.mode.search_visible() {
        let search = app.workspace_picker_search_rect();
        render_search(app, terminal_runtimes, frame, search);
        render_separator(
            frame,
            rect_new(inner.x, search.y + 1, inner.width, 1),
            app.palette.surface1,
        );
    }
    proof {
        assert(frame@ =~= old(frame)@ + app@.picker_search_area_ops(terminal_runtimes@, inner));
    }
}

/// The list of the picker ends on the screen.
pub proof fn lemma_picker_list_fits(s: AppModel)
    requires
        s.view.fits(),
    ensures
        s.picker_body().x + s.picker_body().width <= u16::MAX,
        s.picker_body().y + s.picker_body().height <= u16::MAX,
{
    reveal(AppModel::picker_body);
}

/// Draws the picker. The panel around it is drawn first, and `inner` is its inside where that
/// could be done; without it nothing is drawn.
pub fn render_workspace_picker_overlay(
    app: &AppState,
    terminal_runtimes: &TerminalRuntimeRegistry,
    frame: &mut Frame,
    inner: Option<Rect>,
)
    requires
        app@.picker_within_limits(),
    ensures
        final(frame)@ == old(frame)@ + app@.picker_ops(terminal_runtimes@, inner),
{
    let ghost s = app@;
    let ghost rt = terminal_runtimes@;
    let ghost start = frame@;
    proof {
        reveal(AppModel::picker_ops);
        lemma_picker_list_fits(s);
    }
    let inner = match inner {
        Some(inner) => inner,
        None => {
            proof {
                assert(frame@ =~= start + Seq::<DrawModel>::empty());
            }
            return;
        },
    };
    let body = app.workspace_picker_body_rect();
    let divider = app.workspace_picker_divider_rect();
    let preview = app.workspace_picker_preview_rect();
    let footer = app.workspace_picker_footer_rect();
    let ghost mut drawn = s.picker_search_area_ops(rt, inner);
    render_picker_search_area(app, terminal_runtimes, frame, inner);
    render_rows(app, terminal_runtimes, frame, body);
    proof {
        lemma_appended(start, drawn, s.picker_list_ops(rt, body));
        drawn = drawn + s.picker_list_ops(rt, body);
    }
    render_workspace_picker_scrollbar(app, terminal_runtimes, frame, body);
    proof {
        lemma_appended(start, drawn, s.picker_scrollbar_ops(rt, body));
        drawn = drawn + s.picker_scrollbar_ops(rt, body);
    }
    render_vertical_divider(app, frame, divider);
    proof {
        lemma_appended(start, drawn, divider_ops(s.palette, divider));
        drawn = drawn + divider_ops(s.palette, divider);
    }
    render_preview(app, terminal_runtimes, frame, preview);
    proof {
        lemma_appended(start, drawn, s.picker_preview_ops(rt, preview));
        drawn = drawn + s.picker_preview_ops(rt, preview);
    }
    render_footer(app, frame, footer);
    proof {
        lemma_appended(start, drawn, picker_footer_ops(s.palette, s.picker.mode, footer));
    }
}

} // verus!
