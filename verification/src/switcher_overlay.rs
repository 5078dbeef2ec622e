//! Drawing the preview and the whole of the workspace switcher.

use vstd::prelude::*;
use vstd::string::*;
use crate::ansi::{SpanModel, StyledLine, StyledSpan, StyledText};
use crate::draw::{
    color_style, divider_ops, piece, preview_content, preview_content_rect, preview_head_ops,
    lemma_appended, push_piece, render_preview_head, render_separator, render_vertical_divider, separator_ops,
    DrawModel, DrawOp, Frame,
};
use crate::geometry::{minus, switcher_layout, Rect, ViewState, WorkspaceSwitcherLayout};
use crate::provider::{DirectoryPreviewEntry, EntryModel};
use crate::state::{AppModel, AppState, PreviewModel, WorkspaceSwitcherPreview};
use crate::style::{colors, fg_style, plain_style, Palette, Style};
use crate::switcher_render::{
    footer_ops, render_footer, render_mobile_top_bar, render_rows, render_search,
    render_workspace_switcher_scrollbar, top_bar_ops,
};
use crate::terminal::{RegistryModel, TerminalRuntimeRegistry};
use crate::text::{concat_text, truncate_text, truncated};
use crate::views::{lemma_views_empty, views};

verus! {

// ---------------------------------------------------------------------------
// Preview
// ---------------------------------------------------------------------------

/// The line of one entry of a directory: a slash in front marks a directory.
pub open spec fn entry_line(p: Palette, entry: EntryModel) -> Seq<SpanModel> {
    let style = colors(
        if entry.is_dir {
            p.accent
        } else {
            p.subtext0
        },
        p.panel_bg,
    );
    seq![
        piece(
            if entry.is_dir {
                "/"@
            } else {
                " "@
            },
            style,
        ),
        piece(" "@, style),
        piece(entry.name, style),
    ]
}

/// The lines of a directory: its entries, then a note where there are more, and a note where
/// there is none.
pub open spec fn directory_lines(p: Palette, entries: Seq<EntryModel>, truncated: bool) -> Seq<
    Seq<SpanModel>,
> {
    let dim = colors(p.overlay0, p.panel_bg);
    let lines = Seq::new(entries.len(), |i: int| entry_line(p, entries[i]));
    if truncated {
        lines.push(seq![piece(" …more"@, dim)])
    } else if entries.len() == 0 {
        seq![seq![piece(" empty directory"@, dim)]]
    } else {
        lines
    }
}

fn build_entry_line(p: &Palette, entry: &DirectoryPreviewEntry) -> (r: StyledLine)
    ensures
        r@ == entry_line(*p, entry@),
{
    broadcast use lemma_views_empty;

    let style = color_style(
        if entry.is_dir {
            p.accent
        } else {
            p.subtext0
        },
        p.panel_bg,
    );
    let mut spans: Vec<StyledSpan> = Vec::new();
    push_piece(
        &mut spans,
        if entry.is_dir {
            "/"
        } else {
            " "
        },
        style,
    );
    push_piece(&mut spans, " ", style);
    push_piece(&mut spans, entry.name.as_str(), style);
    proof {
        assert(views(spans@) =~= entry_line(*p, entry@));
    }
    StyledLine { spans }
}

fn build_note_line(p: &Palette, note: &str) -> (r: StyledLine)
    ensures
        r@ == seq![piece(note@, colors(p.overlay0, p.panel_bg))],
{
    broadcast use lemma_views_empty;

    let mut spans: Vec<StyledSpan> = Vec::new();
    push_piece(&mut spans, note, color_style(p.overlay0, p.panel_bg));
    proof {
        assert(views(spans@) =~= seq![piece(note@, colors(p.overlay0, p.panel_bg))]);
    }
    StyledLine { spans }
}

/// The lines of a directory.
pub fn build_directory_lines(p: &Palette, entries: &Vec<DirectoryPreviewEntry>, more: bool) -> (r:
    StyledText)
    ensures
        r@ == directory_lines(*p, views(entries@), more),
{
    let ghost all = views(entries@);
    let mut lines: Vec<StyledLine> = Vec::new();
    let mut i: usize = 0;
    while i < entries.len()
        invariant
            i <= entries@.len(),
            all == views(entries@),
            lines@.len() == i,
            forall|k: int| 0 <= k < i ==> (#[trigger] lines@[k])@ == entry_line(*p, all[k]),
        decreases entries@.len() - i,
    {
        proof {
            assert(all[i as int] == entries@[i as int]@);
        }
        lines.push(build_entry_line(p, &entries[i]));
        i += 1;
    }
    if more {
        lines.push(build_note_line(p, " …more"));
    }
    if lines.len() == 0 {
        lines.push(build_note_line(p, " empty directory"));
    }
    proof {
        assert(views(lines@) =~= directory_lines(*p, all, more));
    }
    StyledText { lines }
}

impl AppModel {
    /// The label in the title of the preview.
    #[verifier::opaque]
    pub open spec fn preview_label(self, runtimes: RegistryModel) -> Seq<char> {
        let rows = self.switcher_rows(runtimes);
        if self.switcher.selected < rows.len() {
            rows[self.switcher.selected as int].label.display()
        } else {
            "preview"@
        }
    }

    /// What is drawn below the title of the preview.
    #[verifier::opaque]
    pub open spec fn preview_body_ops(self, content: Rect) -> Seq<DrawModel> {
        let hint = fg_style(self.palette.overlay0);
        match self.switcher.preview {
            PreviewModel::TabSurface { .. } => match self.preview_tab() {
                Some((ws_idx, tab_idx)) => seq![
                    DrawModel::TabSurface { ws_idx, tab_idx, area: content },
                ],
                None => Seq::<DrawModel>::empty(),
            },
            PreviewModel::Empty { message } => seq![
                DrawModel::Plain { area: content, text: " "@ + message, style: hint },
            ],
            PreviewModel::Directory { entries, truncated, .. } => seq![
                DrawModel::Lines {
                    area: content,
                    lines: directory_lines(self.palette, entries, truncated),
                    style: plain_style(),
                    centered: false,
                },
            ],
            PreviewModel::DirectoryLoading { .. } => seq![
                DrawModel::Plain { area: content, text: " loading directory…"@, style: hint },
            ],
            PreviewModel::DirectoryError { .. } => seq![
                DrawModel::Plain { area: content, text: " directory unreadable"@, style: hint },
            ],
            PreviewModel::Opening { shown_path } => seq![
                DrawModel::Plain {
                    area: content,
                    text: truncated(
                        " Opening "@ + shown_path + "…"@,
                        minus(content.width as int, 1) as nat,
                    ),
                    style: fg_style(self.palette.accent),
                },
            ],
        }
    }

    /// What is drawn as the preview.
    #[verifier::opaque]
    pub open spec fn preview_ops(self, runtimes: RegistryModel, area: Rect) -> Seq<DrawModel> {
        if area.height == 0 || area.width == 0 {
            Seq::<DrawModel>::empty()
        } else {
            let head = preview_head_ops(self.palette, area, self.preview_label(runtimes));
            if preview_content(area).height == 0 {
                head
            } else {
                head + self.preview_body_ops(preview_content(area))
            }
        }
    }
}

fn preview_title(app: &AppState, terminal_runtimes: &TerminalRuntimeRegistry) -> (r: String)
    ensures
        r@ == app@.preview_label(terminal_runtimes@),
{
    proof {
        reveal(AppModel::preview_label);
    }
    let rows = app.workspace_switcher_rows_from(terminal_runtimes);
    let selected: usize = app.workspace_switcher.selected;
    if selected < rows.len() {
        proof {
            assert(views(rows@)[selected as int] == rows@[selected as int]@);
        }
        rows[selected].label.display()
    } else {
        "preview".to_owned()
    }
}

fn render_preview_body(app: &AppState, frame: &mut Frame, content: Rect)
    ensures
        final(frame)@ == old(frame)@ + app@.preview_body_ops(content),
{
    proof {
        reveal(AppModel::preview_body_ops);
    }
    let hint = Style::plain().with_fg(app.palette.overlay0);
    match &app.workspace_switcher.preview {
        WorkspaceSwitcherPreview::TabSurface { .. } => {
            if let Some((ws_idx, tab_idx)) = app.workspace_switcher_preview_tab_indices() {
                frame.draw(DrawOp::TabSurface { ws_idx, tab_idx, area: content });
            }
        },
        WorkspaceSwitcherPreview::Empty { message } => {
            frame.write_plain(content, concat_text(" ", message.as_str()), hint);
        },
        WorkspaceSwitcherPreview::Directory { entries, truncated, .. } => {
            let text = build_directory_lines(&app.palette, entries, *truncated);
            frame.write_text(content, text);
        },
        WorkspaceSwitcherPreview::DirectoryLoading { .. } => {
            frame.write_plain(content, " loading directory…".to_owned(), hint);
        },
        WorkspaceSwitcherPreview::DirectoryError { .. } => {
            frame.write_plain(content, " directory unreadable".to_owned(), hint);
        },
        WorkspaceSwitcherPreview::Opening { shown_path } => {
            let mut message = concat_text(" Opening ", shown_path.as_str());
            message.append("…");
            let text = truncate_text(
                message.as_str(),
                content.width.saturating_sub(1) as usize,
            );
            frame.write_plain(content, text, Style::plain().with_fg(app.palette.accent));
        },
    }
    proof {
        assert(frame@ =~= old(frame)@ + app@.preview_body_ops(content));
    }
}

/// Draws the preview.
pub fn render_preview(
    app: &AppState,
    terminal_runtimes: &TerminalRuntimeRegistry,
    frame: &mut Frame,
    area: Rect,
)
    ensures
        final(frame)@ == old(frame)@ + app@.preview_ops(terminal_runtimes@, area),
{
    proof {
        reveal(AppModel::preview_ops);
    }
    if area.height > 0 && area.width > 0 {
        let label = preview_title(app, terminal_runtimes);
        render_preview_head(&app.palette, frame, area, label.as_str());
        let content = preview_content_rect(area);
        if content.height > 0 {
            render_preview_body(app, frame, content);
        }
    }
    proof {
        assert(frame@ =~= old(frame)@ + app@.preview_ops(terminal_runtimes@, area));
    }
}

// ---------------------------------------------------------------------------
// The whole
// ---------------------------------------------------------------------------

/// The list of the switcher ends on the screen.
pub proof fn lemma_list_fits(view: ViewState, search: bool)
    requires
        view.switcher_fits(),
    ensures
        ({
            let body = switcher_layout(view, search).body;
            body.x + body.width <= u16::MAX && body.y + body.height <= u16::MAX
        }),
{
}

impl AppModel {
    /// What is drawn as the ground of the switcher: on a narrow screen everything, elsewhere the
    /// panel that is already there.
    #[verifier::opaque]
    pub open spec fn ground_ops(self, layout: WorkspaceSwitcherLayout) -> Seq<DrawModel> {
        if layout.mobile_fullscreen {
            seq![
                DrawModel::Clear { area: layout.popup },
                DrawModel::Fill {
                    area: layout.popup,
                    style: Style { bg: Some(self.palette.panel_bg), ..plain_style() },
                },
            ] + top_bar_ops(self.palette, layout.top_bar, layout.close)
        } else {
            Seq::<DrawModel>::empty()
        }
    }

    /// What is drawn as the search field with its separator.
    #[verifier::opaque]
    pub open spec fn search_area_ops(
        self,
        runtimes: RegistryModel,
        layout: WorkspaceSwitcherLayout,
    ) -> Seq<DrawModel> {
        if self.switcher.mode.searches() {
            self.search_ops(runtimes, layout.search, !layout.mobile_fullscreen) + separator_ops(
                layout.search_separator,
                self.palette.surface1,
            )
        } else {
            Seq::<DrawModel>::empty()
        }
    }

    /// What is drawn on the ground of the switcher, part by part.
    #[verifier::opaque]
    pub open spec fn part_ops(self, runtimes: RegistryModel, layout: WorkspaceSwitcherLayout) -> Seq<
        DrawModel,
    > {
        self.ground_ops(layout) + self.search_area_ops(runtimes, layout) + self.list_ops(
            runtimes,
            layout.body,
        ) + self.list_scrollbar_ops(runtimes, layout.body) + divider_ops(
            self.palette,
            layout.divider,
        ) + self.preview_ops(runtimes, layout.preview) + (if layout.mobile_fullscreen {
            Seq::<DrawModel>::empty()
        } else {
            footer_ops(self.palette, self.switcher.mode, layout.footer)
        })
    }

    /// What is drawn for the switcher. `panel` tells whether the panel around it could be drawn.
    #[verifier::opaque]
    pub open spec fn switcher_ops(self, runtimes: RegistryModel, panel: bool) -> Seq<DrawModel> {
        let layout = switcher_layout(self.view, self.switcher.mode.searches());
        if layout.popup.width == 0 || layout.popup.height == 0 || (!layout.mobile_fullscreen
            && !panel) {
            Seq::<DrawModel>::empty()
        } else {
            self.part_ops(runtimes, layout)
        }
    }
}

fn render_ground(app: &AppState, frame: &mut Frame, layout: WorkspaceSwitcherLayout)
    ensures
        final(frame)@ == old(frame)@ + app@.ground_ops(layout),
{
    proof {
        reveal(AppModel::ground_ops);
    }
    if layout.mobile_fullscreen {
        frame.draw(DrawOp::Clear { area: layout.popup });
        frame.draw(
            DrawOp::Fill {
                area: layout.popup,
                style: Style::plain().with_bg(app.palette.panel_bg),
            },
        );
        render_mobile_top_bar(app, frame, layout.top_bar, layout.close);
    }
    proof {
        assert(frame@ =~= old(frame)@ + app@.ground_ops(layout));
    }
}

fn render_search_area(
    app: &AppState,
    terminal_runtimes: &TerminalRuntimeRegistry,
    frame: &mut Frame,
    layout: WorkspaceSwitcherLayout,
)
    ensures
        final(frame)@ == old(frame)@ + app@.search_area_ops(terminal_runtimes@, layout),
{
    proof {
        reveal(AppModel::search_area_ops);
    }
    if app.workspace_switcher.mode.search_visible() {
        render_search(
            app,
            terminal_runtimes,
            frame,
            layout.search,
            !layout.mobile_fullscreen,
        );
        render_separator(frame, layout.search_separator, app.palette.surface1);
    }
    proof {
        assert(frame@ =~= old(frame)@ + app@.search_area_ops(terminal_runtimes@, layout));
    }
}

fn render_parts(
    app: &AppState,
    terminal_runtimes: &TerminalRuntimeRegistry,
    frame: &mut Frame,
    layout: WorkspaceSwitcherLayout,
)
    requires
        app@.within_limits(),
        layout.body.x + layout.body.width <= u16::MAX,
        layout.body.y + layout.body.height <= u16::MAX,
    ensures
        final(frame)@ == old(frame)@ + app@.part_ops(terminal_runtimes@, layout),
{
    let ghost s = app@;
    let ghost rt = terminal_runtimes@;
    let ghost start = frame@;
    let ghost mut drawn = s.ground_ops(layout);
    render_ground(app, frame, layout);
    render_search_area(app, terminal_runtimes, frame, layout);
    proof {
        lemma_appended(start, drawn, s.search_area_ops(rt, layout));
        drawn = drawn + s.search_area_ops(rt, layout);
    }
    render_rows(app, terminal_runtimes, frame, layout.body);
    proof {
        lemma_appended(start, drawn, s.list_ops(rt, layout.body));
        drawn = drawn + s.list_ops(rt, layout.body);
    }
    render_workspace_switcher_scrollbar(app, terminal_runtimes, frame, layout.body);
    proof {
        lemma_appended(start, drawn, s.list_scrollbar_ops(rt, layout.body));
        drawn = drawn + s.list_scrollbar_ops(rt, layout.body);
    }
    render_vertical_divider(app, frame, layout.divider);
    proof {
        lemma_appended(start, drawn, divider_ops(s.palette, layout.divider));
        drawn = drawn + divider_ops(s.palette, layout.divider);
    }
    render_preview(app, terminal_runtimes, frame, layout.preview);
    proof {
        lemma_appended(start, drawn, s.preview_ops(rt, layout.preview));
        drawn = drawn + s.preview_ops(rt, layout.preview);
        reveal(AppModel::part_ops);
    }
    if layout.mobile_fullscreen {
        proof {
            lemma_appended(start, drawn, Seq::<DrawModel>::empty());
            assert(frame@ + Seq::<DrawModel>::empty() =~= frame@);
        }
    } else {
        render_footer(app, frame, layout.footer);
        proof {
            lemma_appended(start, drawn, footer_ops(s.palette, s.switcher.mode, layout.footer));
        }
    }
}

/// Draws the switcher. On a wide screen the panel around it is drawn first, and `panel` tells
/// whether that could be done; without it nothing is drawn.
pub fn render_workspace_switcher_overlay(
    app: &AppState,
    terminal_runtimes: &TerminalRuntimeRegistry,
    frame: &mut Frame,
    panel: bool,
)
    requires
        app@.within_limits(),
    ensures
        final(frame)@ == old(frame)@ + app@.switcher_ops(terminal_runtimes@, panel),
{
    proof {
        lemma_list_fits(app@.view, app@.switcher.mode.searches());
        reveal(AppModel::switcher_ops);
    }
    let layout = app.workspace_switcher_layout();
    if layout.popup.width > 0 && layout.popup.height > 0 && (layout.mobile_fullscreen || panel) {
        render_parts(app, terminal_runtimes, frame, layout);
    } else {
        proof {
            assert(frame@ =~= old(frame)@ + Seq::<DrawModel>::empty());
        }
    }
}

} // verus!
