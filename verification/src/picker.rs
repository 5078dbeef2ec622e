//! The operations of the workspace picker.

use vstd::prelude::*;
use vstd::string::*;
use crate::geometry::{
    body_of, body_rect, content_of, content_rect, covers, divider_of, divider_rect, empty_rect,
    footer_of, footer_rect, inside_border, lemma_popup_nested, minus, popup_of, preview_of,
    preview_rect, rect_contains, rect_inside_border, search_of, search_rect, smaller, Rect,
};
use crate::navigation::lemma_limits_kept;
use crate::picker_rows::{PickerRowModel, WorkspacePickerRow, WorkspacePickerTarget};
use crate::state::{
    AppModel, AppState, Mode, PickerModel, PickerPreviewModel, WorkspacePickerMode,
    WorkspacePickerPreview,
};
use crate::switcher::{cycled_index, moved_index};
use crate::switcher_model::{
    clamped, or_zero, NO_MATCHING_WORKSPACES, NO_WORKSPACES, TAB_UNAVAILABLE, WORKSPACE_UNAVAILABLE,
};
use crate::terminal::{RegistryModel, TerminalRuntimeRegistry};
use crate::text::{trim, trim_text};
use crate::views::views;

verus! {

// ---------------------------------------------------------------------------
// Screen areas
// ---------------------------------------------------------------------------

impl AppModel {
    /// The inside of the popup.
    pub open spec fn picker_inner(self) -> Rect {
        inside_border(popup_of(self.view))
    }

    /// The content between search field and footer.
    pub open spec fn picker_content(self) -> Rect {
        content_of(self.picker_inner(), self.picker.mode.searches())
    }

    /// The list.
    #[verifier::opaque]
    pub open spec fn picker_body(self) -> Rect {
        body_of(self.picker_content())
    }
}

impl AppState {
    /// The popup.
    pub fn workspace_picker_popup_rect(&self) -> (r: Rect)
        requires
            self@.view.fits(),
        ensures
            r == popup_of(self@.view),
    {
        self.view.popup()
    }

    /// The inside of the popup.
    pub fn workspace_picker_inner_rect(&self) -> (r: Rect)
        requires
            self@.view.fits(),
        ensures
            r == self@.picker_inner(),
    {
        rect_inside_border(self.workspace_picker_popup_rect())
    }

    /// The search field; empty where there is none.
    pub fn workspace_picker_search_rect(&self) -> (r: Rect)
        requires
            self@.view.fits(),
        ensures
            r == (if self@.picker.mode.searches() {
                search_of(self@.picker_inner())
            } else {
                empty_rect()
            }),
    {
        if !self.workspace_picker.mode.search_visible() {
            return Rect::default();
        }
        search_rect(self.workspace_picker_inner_rect())
    }

    /// The content between search field and footer.
    pub fn workspace_picker_content_rect(&self) -> (r: Rect)
        requires
            self@.view.fits(),
        ensures
            r == self@.picker_content(),
    {
        proof {
            lemma_popup_nested(self@.view, self@.picker.mode.searches());
        }
        content_rect(
            self.workspace_picker_inner_rect(),
            self.workspace_picker.mode.search_visible(),
        )
    }

    /// The list.
    pub fn workspace_picker_body_rect(&self) -> (r: Rect)
        requires
            self@.view.fits(),
        ensures
            r == self@.picker_body(),
    {
        proof {
            reveal(AppModel::picker_body);
        }
        body_rect(self.workspace_picker_content_rect())
    }

    /// The column between list and preview.
    pub fn workspace_picker_divider_rect(&self) -> (r: Rect)
        requires
            self@.view.fits(),
        ensures
            r == divider_of(self@.picker_content()),
    {
        proof {
            lemma_popup_nested(self@.view, self@.picker.mode.searches());
        }
        divider_rect(self.workspace_picker_content_rect())
    }

    /// The preview pane.
    pub fn workspace_picker_preview_rect(&self) -> (r: Rect)
        requires
            self@.view.fits(),
        ensures
            r == preview_of(self@.picker_content()),
    {
        preview_rect(self.workspace_picker_content_rect())
    }

    /// The footer.
    pub fn workspace_picker_footer_rect(&self) -> (r: Rect)
        requires
            self@.view.fits(),
        ensures
            r == footer_of(self@.picker_inner()),
    {
        proof {
            lemma_popup_nested(self@.view, self@.picker.mode.searches());
        }
        footer_rect(self.workspace_picker_inner_rect())
    }

    /// Tests whether the cell at (`col`, `row`) lies in the popup.
    pub fn workspace_picker_popup_contains(&self, col: u16, row: u16) -> (b: bool)
        requires
            self@.view.fits(),
        ensures
            b == covers(popup_of(self@.view), col as int, row as int),
    {
        rect_contains(self.workspace_picker_popup_rect(), col, row)
    }
}

// ---------------------------------------------------------------------------
// What the operations do
// ---------------------------------------------------------------------------

/// The first index of `rows` from `from` on whose row satisfies `p`.
pub open spec fn picker_position(
    rows: Seq<PickerRowModel>,
    p: spec_fn(PickerRowModel) -> bool,
    from: int,
) -> Option<int>
    decreases rows.len() - from,
{
    if from < 0 || from >= rows.len() {
        None
    } else if p(rows[from]) {
        Some(from)
    } else {
        picker_position(rows, p, from + 1)
    }
}

/// The indices among the first `n` rows of those that stand for workspaces.
pub open spec fn picker_positions(rows: Seq<PickerRowModel>, n: nat) -> Seq<usize>
    decreases n,
{
    if n == 0 {
        Seq::<usize>::empty()
    } else {
        let before = picker_positions(rows, (n - 1) as nat);
        if !rows[n - 1].is_tab {
            before.push((n - 1) as usize)
        } else {
            before
        }
    }
}

/// The first of `positions` from index `from` on whose row belongs to workspace `ws_idx`.
pub open spec fn picker_position_of(
    rows: Seq<PickerRowModel>,
    positions: Seq<usize>,
    ws_idx: usize,
    from: int,
) -> Option<int>
    decreases positions.len() - from,
{
    if from < 0 || from >= positions.len() {
        None
    } else if rows[positions[from] as int].ws_idx == ws_idx {
        Some(from)
    } else {
        picker_position_of(rows, positions, ws_idx, from + 1)
    }
}

/// The row that cycling by `delta` workspaces leads to.
pub open spec fn picker_cycled_row(
    rows: Seq<PickerRowModel>,
    selected: usize,
    delta: int,
) -> usize {
    let positions = picker_positions(rows, rows.len());
    let ws_idx = if selected < rows.len() {
        rows[selected as int].ws_idx
    } else {
        rows[positions[0] as int].ws_idx
    };
    let current = or_zero(picker_position_of(rows, positions, ws_idx, 0));
    positions[(current + delta) % (positions.len() as int)]
}

/// The message where a pane shows nothing.
pub const NO_PANE_CONTENT: &'static str = "no pane content";

impl AppModel {
    pub open spec fn with_picker(self, picker: PickerModel) -> AppModel {
        AppModel { picker, ..self }
    }

    /// The state with row `selected` of the picker selected.
    pub open spec fn with_picked(self, selected: usize) -> AppModel {
        self.with_picker(PickerModel { selected, ..self.picker })
    }

    /// The state with the picker scrolled to row `scroll`.
    pub open spec fn with_picker_scroll(self, scroll: usize) -> AppModel {
        self.with_picker(PickerModel { scroll, ..self.picker })
    }

    /// The state with the workspaces `expanded` expanded in the picker.
    pub open spec fn with_picker_expanded(self, expanded: Set<Seq<char>>) -> AppModel {
        self.with_picker(PickerModel { expanded, ..self.picker })
    }

    /// The largest scroll offset of the picker in a window of `viewport` rows.
    #[verifier::opaque]
    pub open spec fn picker_max_scroll(self, runtimes: RegistryModel, viewport: int) -> int {
        if viewport == 0 {
            0
        } else {
            minus(self.picker_rows(runtimes).len() as int, viewport)
        }
    }

    /// The scroll offset that shows the selected row, as close to the current one as it can be.
    #[verifier::opaque]
    pub open spec fn picker_scroll_to_show(self, runtimes: RegistryModel) -> int {
        let viewport = self.picker_body().height as int;
        let selected = self.picker.selected as int;
        let scroll = self.picker.scroll as int;
        if viewport == 0 {
            0
        } else {
            let wanted = if selected < scroll {
                selected
            } else if selected >= scroll + viewport {
                minus(smaller(selected + 1, usize::MAX as int), viewport)
            } else {
                scroll
            };
            smaller(wanted, self.picker_max_scroll(runtimes, viewport))
        }
    }

    /// The state with the picker scrolled to its selection.
    #[verifier::opaque]
    pub open spec fn picker_scrolled(self, runtimes: RegistryModel) -> AppModel {
        self.with_picker_scroll(self.picker_scroll_to_show(runtimes) as usize)
    }

    /// The text of a pane, or why there is none.
    pub open spec fn pane_preview(
        self,
        runtimes: RegistryModel,
        ws_idx: usize,
        pane_id: crate::terminal::PaneId,
    ) -> PickerPreviewModel {
        match self.pane_runtime(runtimes, ws_idx, pane_id) {
            Some(runtime) => if trim(runtime.visible_ansi).len() == 0 {
                PickerPreviewModel::Empty { message: NO_PANE_CONTENT@ }
            } else {
                PickerPreviewModel::Content { pane_id, text: runtime.visible_ansi }
            },
            None => PickerPreviewModel::Empty { message: NO_PANE_CONTENT@ },
        }
    }

    /// The preview of a workspace or tab: the text of its focused pane.
    #[verifier::opaque]
    pub open spec fn picker_target_preview(
        self,
        runtimes: RegistryModel,
        target: WorkspacePickerTarget,
    ) -> PickerPreviewModel {
        match target {
            WorkspacePickerTarget::Workspace { ws_idx } => if ws_idx >= self.workspaces.len() {
                PickerPreviewModel::Empty { message: WORKSPACE_UNAVAILABLE@ }
            } else {
                match self.workspaces[ws_idx as int].focused_pane() {
                    Some(pane_id) => self.pane_preview(runtimes, ws_idx, pane_id),
                    None => PickerPreviewModel::Empty { message: NO_PANE_CONTENT@ },
                }
            },
            WorkspacePickerTarget::Tab { ws_idx, tab_idx } => if self.has_tab(ws_idx, tab_idx) {
                self.pane_preview(
                    runtimes,
                    ws_idx,
                    self.workspaces[ws_idx as int].tabs[tab_idx as int].focused_pane,
                )
            } else {
                PickerPreviewModel::Empty { message: TAB_UNAVAILABLE@ }
            },
        }
    }

    /// What the selected row of the picker stands for.
    #[verifier::opaque]
    pub open spec fn picked_target(self, runtimes: RegistryModel) -> Option<WorkspacePickerTarget> {
        let rows = self.picker_rows(runtimes);
        if self.picker.selected < rows.len() {
            Some(rows[self.picker.selected as int].target)
        } else {
            None
        }
    }

    /// The workspace of the selected row of the picker.
    #[verifier::opaque]
    pub open spec fn picked_workspace(self, runtimes: RegistryModel) -> Option<usize> {
        let rows = self.picker_rows(runtimes);
        if self.picker.selected < rows.len() {
            Some(rows[self.picker.selected as int].ws_idx)
        } else {
            None
        }
    }

    /// The state with a preview in the picker.
    pub open spec fn picker_showing(
        self,
        preview: PickerPreviewModel,
        preview_ws_idx: Option<usize>,
    ) -> AppModel {
        self.with_picker(PickerModel { preview, preview_ws_idx, ..self.picker })
    }

    /// The state with the preview of the selected row of the picker.
    #[verifier::opaque]
    pub open spec fn picker_previewed(self, runtimes: RegistryModel) -> AppModel {
        match self.picked_target(runtimes) {
            Some(target) => self.picker_showing(
                self.picker_target_preview(runtimes, target),
                self.picked_workspace(runtimes),
            ),
            None => self.picker_showing(
                PickerPreviewModel::Empty {
                    message: if self.workspaces.len() == 0 {
                        NO_WORKSPACES@
                    } else {
                        NO_MATCHING_WORKSPACES@
                    },
                },
                None,
            ),
        }
    }

    /// The state with row `row` of the picker selected and shown.
    #[verifier::opaque]
    pub open spec fn picked(self, runtimes: RegistryModel, row: usize) -> AppModel {
        self.with_picked(row).picker_scrolled(runtimes).picker_previewed(runtimes)
    }

    /// The state with the selection of the picker brought into the list.
    #[verifier::opaque]
    pub open spec fn picker_clamped(self, runtimes: RegistryModel) -> AppModel {
        let last = minus(self.picker_rows(runtimes).len() as int, 1);
        self.picked(runtimes, clamped(self.picker.selected as int, last) as usize)
    }

    /// The state of an empty picker.
    #[verifier::opaque]
    pub open spec fn picker_at_nothing(self, runtimes: RegistryModel) -> AppModel {
        self.with_picked(0).with_picker_scroll(0).picker_previewed(runtimes)
    }

    /// The state with the selection of the picker moved by `delta` rows, stopping at the ends.
    #[verifier::opaque]
    pub open spec fn picker_moved(self, runtimes: RegistryModel, delta: int) -> AppModel {
        let count = self.picker_rows(runtimes).len() as int;
        if count == 0 {
            self.picker_at_nothing(runtimes)
        } else {
            let current = clamped(self.picker.selected as int, count - 1);
            self.picked(runtimes, clamped(current + delta, count - 1) as usize)
        }
    }

    /// The state with the selection of the picker cycled by `delta` workspaces.
    #[verifier::opaque]
    pub open spec fn picker_cycled(self, runtimes: RegistryModel, delta: int) -> AppModel {
        let rows = self.picker_rows(runtimes);
        if picker_positions(rows, rows.len()).len() == 0 {
            self.picker_at_nothing(runtimes)
        } else {
            self.picked(runtimes, picker_cycled_row(rows, self.picker.selected, delta))
        }
    }

    /// The state with the selected workspace of the picker expanded.
    #[verifier::opaque]
    pub open spec fn picker_expanded(self, runtimes: RegistryModel) -> AppModel {
        match self.picked_workspace(runtimes) {
            Some(i) => if i < self.workspaces.len() {
                self.with_picker_expanded(
                    self.picker.expanded.insert(self.workspaces[i as int].id),
                ).picker_clamped(runtimes)
            } else {
                self
            },
            None => self,
        }
    }

    /// The first row of workspace `i` itself, or the first row of all where there is none.
    #[verifier::opaque]
    pub open spec fn picker_row_of(self, runtimes: RegistryModel, i: usize) -> usize {
        or_zero(
            picker_position(
                self.picker_rows(runtimes),
                |row: PickerRowModel| row.ws_idx == i && !row.is_tab,
                0,
            ),
        ) as usize
    }

    /// The state with the workspace of the selected row of the picker collapsed and selected.
    #[verifier::opaque]
    pub open spec fn picker_collapsed(self, runtimes: RegistryModel) -> AppModel {
        match self.picked_workspace(runtimes) {
            Some(i) => if i < self.workspaces.len() {
                let s = self.with_picker_expanded(
                    self.picker.expanded.remove(self.workspaces[i as int].id),
                );
                s.picked(runtimes, s.picker_row_of(runtimes, i))
            } else {
                self
            },
            None => self,
        }
    }

    /// The state with the picker in mode `mode`, without a query.
    pub open spec fn with_picker_mode(self, mode: WorkspacePickerMode) -> AppModel {
        self.with_picker(PickerModel { mode, query: Seq::<char>::empty(), ..self.picker })
    }

    /// The state searching among recent workspaces.
    #[verifier::opaque]
    pub open spec fn picker_search_entered(self, runtimes: RegistryModel) -> AppModel {
        self.with_picker_mode(WorkspacePickerMode::QuickSwitchSearch).with_picker_expanded(
            Set::<Seq<char>>::empty(),
        ).picker_clamped(runtimes)
    }

    /// The state back in quick switching.
    #[verifier::opaque]
    pub open spec fn picker_search_left(self, runtimes: RegistryModel) -> AppModel {
        self.with_picker_mode(WorkspacePickerMode::QuickSwitch).picker_clamped(runtimes)
    }

    /// The state with the picker on the screen in mode `mode`, before a row is selected.
    pub open spec fn picker_shown(self, mode: WorkspacePickerMode) -> AppModel {
        AppModel {
            picker: PickerModel {
                mode,
                query: Seq::<char>::empty(),
                scroll: 0,
                expanded: Set::<Seq<char>>::empty(),
                ..self.picker
            },
            mode: Mode::WorkspacePicker,
            ..self
        }
    }

    /// The row of the active workspace, or of the selected one where none is active.
    #[verifier::opaque]
    pub open spec fn picker_row_of_active(self, runtimes: RegistryModel) -> usize {
        let target = match self.active {
            Some(active) => active,
            None => self.selected,
        };
        or_zero(
            picker_position(
                self.picker_rows(runtimes),
                |row: PickerRowModel| row.ws_idx == target,
                0,
            ),
        ) as usize
    }

    /// The row of the first workspace that is not the active one.
    #[verifier::opaque]
    pub open spec fn picker_row_of_other(self, runtimes: RegistryModel) -> usize {
        match self.active {
            Some(active) => or_zero(
                picker_position(
                    self.picker_rows(runtimes),
                    |row: PickerRowModel| row.ws_idx != active && !row.is_tab,
                    0,
                ),
            ) as usize,
            None => 0,
        }
    }

    /// The state with the picker open for searching.
    #[verifier::opaque]
    pub open spec fn picker_opened(self, runtimes: RegistryModel) -> AppModel {
        let s = self.picker_shown(WorkspacePickerMode::Search);
        s.picked(runtimes, s.picker_row_of_active(runtimes))
    }

    /// The state with the picker open for quick switching.
    #[verifier::opaque]
    pub open spec fn quick_switch_opened(self, runtimes: RegistryModel) -> AppModel {
        let s = self.picker_shown(WorkspacePickerMode::QuickSwitch);
        s.picked(runtimes, s.picker_row_of_other(runtimes))
    }

    /// The state with the picker closed.
    pub open spec fn picker_closed(self) -> AppModel {
        AppModel {
            mode: if self.active is Some {
                Mode::Terminal
            } else {
                Mode::Navigate
            },
            ..self
        }
    }

    /// Whether the workspace or tab `target` is there.
    pub open spec fn can_pick(self, target: WorkspacePickerTarget) -> bool {
        match target {
            WorkspacePickerTarget::Workspace { ws_idx } => ws_idx < self.workspaces.len(),
            WorkspacePickerTarget::Tab { ws_idx, tab_idx } => self.has_tab(ws_idx, tab_idx),
        }
    }

    /// The state with the workspace or tab `target` focused.
    #[verifier::opaque]
    pub open spec fn picked_focused(self, target: WorkspacePickerTarget) -> AppModel {
        if !self.can_pick(target) {
            self
        } else {
            let s = match target {
                WorkspacePickerTarget::Workspace { ws_idx } => self.switched(ws_idx),
                WorkspacePickerTarget::Tab { ws_idx, tab_idx } => self.switched_tab(
                    ws_idx,
                    tab_idx,
                ),
            };
            AppModel { mode: Mode::Terminal, ..s }
        }
    }

    /// Whether the selection of the picker can be accepted.
    #[verifier::opaque]
    pub open spec fn picker_accepts(self, runtimes: RegistryModel) -> bool {
        match self.picked_target(runtimes) {
            Some(target) => self.can_pick(target),
            None => false,
        }
    }

    /// The state after the selection of the picker was accepted.
    #[verifier::opaque]
    pub open spec fn picker_accepted(self, runtimes: RegistryModel) -> AppModel {
        match self.picked_target(runtimes) {
            Some(target) => self.picked_focused(target),
            None => self,
        }
    }
}

// ---------------------------------------------------------------------------
// Operations
// ---------------------------------------------------------------------------

impl AppState {
    /// The largest scroll offset in a window of `viewport` rows.
    pub fn workspace_picker_max_scroll_from(
        &self,
        terminal_runtimes: &TerminalRuntimeRegistry,
        viewport: usize,
    ) -> (r: usize)
        requires
            self@.countable(),
        ensures
            r == self@.picker_max_scroll(terminal_runtimes@, viewport as int),
    {
        proof {
            reveal(AppModel::picker_max_scroll);
        }
        if viewport == 0 {
            return 0;
        }
        self.workspace_picker_row_count_from(terminal_runtimes).saturating_sub(viewport)
    }

    pub(crate) fn scroll_picker(&mut self, scroll: usize)
        ensures
            final(self)@ == old(self)@.with_picker_scroll(scroll),
            old(self)@.picker_within_limits() ==> final(self)@.picker_within_limits(),
    {
        self.workspace_picker.scroll = scroll;
        proof {
            lemma_limits_kept(old(self)@, self@);
        }
    }

    pub(crate) fn select_picker_row(&mut self, selected: usize)
        ensures
            final(self)@ == old(self)@.with_picked(selected),
            old(self)@.picker_within_limits() ==> final(self)@.picker_within_limits(),
    {
        self.workspace_picker.selected = selected;
        proof {
            lemma_limits_kept(old(self)@, self@);
        }
    }

    fn show_picker_preview(&mut self, preview: WorkspacePickerPreview, ws_idx: Option<usize>)
        ensures
            final(self)@ == old(self)@.picker_showing(preview@, ws_idx),
            old(self)@.picker_within_limits() ==> final(self)@.picker_within_limits(),
            old(self)@.countable() ==> final(self)@.countable(),
    {
        self.workspace_picker.preview = preview;
        self.workspace_picker.preview_ws_idx = ws_idx;
        proof {
            lemma_limits_kept(old(self)@, self@);
        }
    }

    fn picker_scroll_for_selection(&self, terminal_runtimes: &TerminalRuntimeRegistry) -> (r: usize)
        requires
            self@.picker_within_limits(),
        ensures
            r == self@.picker_scroll_to_show(terminal_runtimes@),
    {
        proof {
            reveal(AppModel::picker_scroll_to_show);
            reveal(AppModel::countable);
            reveal(AppModel::picker_max_scroll);
        }
        let viewport: usize = self.workspace_picker_body_rect().height as usize;
        if viewport == 0 {
            return 0;
        }
        let max: usize = self.workspace_picker_max_scroll_from(terminal_runtimes, viewport);
        let selected: usize = self.workspace_picker.selected;
        let scroll: usize = self.workspace_picker.scroll;
        let wanted: usize = if selected < scroll {
            selected
        } else if selected - scroll >= viewport {
            selected.saturating_add(1).saturating_sub(viewport)
        } else {
            scroll
        };
        if wanted < max {
            wanted
        } else {
            max
        }
    }

    /// Scrolls to the selected row.
    pub fn ensure_workspace_picker_selection_visible_from(
        &mut self,
        terminal_runtimes: &TerminalRuntimeRegistry,
    )
        requires
            old(self)@.picker_within_limits(),
        ensures
            final(self)@ == old(self)@.picker_scrolled(terminal_runtimes@),
            final(self)@.picker_within_limits(),
    {
        proof {
            reveal(AppModel::picker_scrolled);
        }
        let scroll: usize = self.picker_scroll_for_selection(terminal_runtimes);
        self.scroll_picker(scroll);
    }

    /// The workspace of the selected row.
    pub fn selected_workspace_picker_ws_idx_from(
        &self,
        terminal_runtimes: &TerminalRuntimeRegistry,
    ) -> (r: Option<usize>)
        requires
            self@.countable(),
        ensures
            r == self@.picked_workspace(terminal_runtimes@),
    {
        proof {
            reveal(AppModel::picked_workspace);
        }
        let rows = self.workspace_picker_rows_from(terminal_runtimes);
        let selected: usize = self.workspace_picker.selected;
        if selected < rows.len() {
            proof {
                assert(views(rows@)[selected as int] == rows@[selected as int]@);
            }
            Some(rows[selected].ws_idx)
        } else {
            None
        }
    }

    pub(crate) fn selected_picker_target(&self, terminal_runtimes: &TerminalRuntimeRegistry) -> (r: Option<
        WorkspacePickerTarget,
    >)
        requires
            self@.countable(),
        ensures
            r == self@.picked_target(terminal_runtimes@),
    {
        proof {
            reveal(AppModel::picked_target);
        }
        let rows = self.workspace_picker_rows_from(terminal_runtimes);
        let selected: usize = self.workspace_picker.selected;
        if selected < rows.len() {
            proof {
                assert(views(rows@)[selected as int] == rows@[selected as int]@);
            }
            Some(rows[selected].target)
        } else {
            None
        }
    }

    fn pane_preview(
        &self,
        terminal_runtimes: &TerminalRuntimeRegistry,
        ws_idx: usize,
        pane_id: crate::terminal::PaneId,
    ) -> (r: WorkspacePickerPreview)
        ensures
            r@ == self@.pane_preview(terminal_runtimes@, ws_idx, pane_id),
    {
        if let Some(runtime) = self.runtime_for_pane_in_workspace(
            terminal_runtimes,
            ws_idx,
            pane_id,
        ) {
            let trimmed = trim_text(runtime.visible_ansi.as_str());
            if !trimmed.as_str().is_empty() {
                return WorkspacePickerPreview::Content {
                    pane_id,
                    text: runtime.visible_ansi.clone(),
                };
            }
        }
        WorkspacePickerPreview::Empty { message: NO_PANE_CONTENT.to_owned() }
    }

    /// The preview of a workspace or tab: the text of its focused pane, or why there is none.
    pub fn workspace_picker_preview_for_target_from(
        &self,
        terminal_runtimes: &TerminalRuntimeRegistry,
        target: WorkspacePickerTarget,
    ) -> (r: WorkspacePickerPreview)
        ensures
            r@ == self@.picker_target_preview(terminal_runtimes@, target),
    {
        proof {
            reveal(AppModel::picker_target_preview);
        }
        match target {
            WorkspacePickerTarget::Workspace { ws_idx } => {
                if ws_idx >= self.workspaces.len() {
                    return WorkspacePickerPreview::Empty {
                        message: WORKSPACE_UNAVAILABLE.to_owned(),
                    };
                }
                proof {
                    assert(self@.workspaces[ws_idx as int] == self.workspaces@[ws_idx as int]@);
                }
                match self.workspaces[ws_idx].focused_pane_id() {
                    Some(pane_id) => self.pane_preview(terminal_runtimes, ws_idx, pane_id),
                    None => WorkspacePickerPreview::Empty { message: NO_PANE_CONTENT.to_owned() },
                }
            },
            WorkspacePickerTarget::Tab { ws_idx, tab_idx } => {
                if ws_idx < self.workspaces.len() && tab_idx < self.workspaces[ws_idx].tabs.len() {
                    let pane_id = self.workspaces[ws_idx].tabs[tab_idx].focused_pane;
                    self.pane_preview(terminal_runtimes, ws_idx, pane_id)
                } else {
                    WorkspacePickerPreview::Empty { message: TAB_UNAVAILABLE.to_owned() }
                }
            },
        }
    }

    /// Shows the preview of the selected row.
    pub fn refresh_workspace_picker_preview_from(
        &mut self,
        terminal_runtimes: &TerminalRuntimeRegistry,
    )
        requires
            old(self)@.countable(),
        ensures
            final(self)@ == old(self)@.picker_previewed(terminal_runtimes@),
            final(self)@.countable(),
            old(self)@.picker_within_limits() ==> final(self)@.picker_within_limits(),
    {
        proof {
            reveal(AppModel::picker_previewed);
        }
        let (preview, ws_idx) = match self.selected_picker_target(terminal_runtimes) {
            Some(target) => (
                self.workspace_picker_preview_for_target_from(terminal_runtimes, target),
                self.selected_workspace_picker_ws_idx_from(terminal_runtimes),
            ),
            None => {
                let message = if self.workspaces.len() == 0 {
                    NO_WORKSPACES.to_owned()
                } else {
                    NO_MATCHING_WORKSPACES.to_owned()
                };
                (WorkspacePickerPreview::Empty { message }, None)
            },
        };
        self.show_picker_preview(preview, ws_idx);
    }

    pub(crate) fn pick_row(&mut self, terminal_runtimes: &TerminalRuntimeRegistry, row: usize)
        requires
            old(self)@.picker_within_limits(),
        ensures
            final(self)@ == old(self)@.picked(terminal_runtimes@, row),
            final(self)@.picker_within_limits(),
    {
        proof {
            reveal(AppModel::picked);
        }
        self.select_picker_row(row);
        self.ensure_workspace_picker_selection_visible_from(terminal_runtimes);
        self.refresh_workspace_picker_preview_from(terminal_runtimes);
    }

    /// Brings the selection into the list.
    pub fn clamp_workspace_picker_selection_from(
        &mut self,
        terminal_runtimes: &TerminalRuntimeRegistry,
    )
        requires
            old(self)@.picker_within_limits(),
        ensures
            final(self)@ == old(self)@.picker_clamped(terminal_runtimes@),
            final(self)@.picker_within_limits(),
    {
        proof {
            reveal(AppModel::picker_clamped);
        }
        let count: usize = self.workspace_picker_row_count_from(terminal_runtimes);
        let last: usize = count.saturating_sub(1);
        let selected: usize = if self.workspace_picker.selected > last {
            last
        } else {
            self.workspace_picker.selected
        };
        self.pick_row(terminal_runtimes, selected);
    }

    fn pick_nothing(&mut self, terminal_runtimes: &TerminalRuntimeRegistry)
        requires
            old(self)@.picker_within_limits(),
        ensures
            final(self)@ == old(self)@.picker_at_nothing(terminal_runtimes@),
            final(self)@.picker_within_limits(),
    {
        proof {
            reveal(AppModel::picker_at_nothing);
        }
        self.select_picker_row(0);
        self.scroll_picker(0);
        self.refresh_workspace_picker_preview_from(terminal_runtimes);
    }

    /// Moves the selection by `delta` rows, stopping at the ends of the list.
    pub fn move_workspace_picker_selection_from(
        &mut self,
        terminal_runtimes: &TerminalRuntimeRegistry,
        delta: isize,
    )
        requires
            old(self)@.picker_within_limits(),
        ensures
            final(self)@ == old(self)@.picker_moved(terminal_runtimes@, delta as int),
            final(self)@.picker_within_limits(),
    {
        proof {
            reveal(AppModel::picker_moved);
        }
        let count: usize = self.workspace_picker_row_count_from(terminal_runtimes);
        if count == 0 {
            self.pick_nothing(terminal_runtimes);
            return;
        }
        let selected: usize = moved_index(self.workspace_picker.selected, delta, count);
        self.pick_row(terminal_runtimes, selected);
    }

    /// Moves the selection by `delta` workspaces, round and round.
    pub fn cycle_quick_switch_workspace_from(
        &mut self,
        terminal_runtimes: &TerminalRuntimeRegistry,
        delta: isize,
    )
        requires
            old(self)@.picker_within_limits(),
        ensures
            final(self)@ == old(self)@.picker_cycled(terminal_runtimes@, delta as int),
            final(self)@.picker_within_limits(),
    {
        proof {
            reveal(AppModel::picker_cycled);
        }
        let rows = self.workspace_picker_rows_from(terminal_runtimes);
        match cycled_picker_row(&rows, self.workspace_picker.selected, delta) {
            Some(selected) => self.pick_row(terminal_runtimes, selected),
            None => self.pick_nothing(terminal_runtimes),
        }
    }

    fn expand_picker_workspace(&mut self, id: String)
        ensures
            final(self)@ == old(self)@.with_picker_expanded(
                old(self)@.picker.expanded.insert(id@),
            ),
            old(self)@.picker_within_limits() ==> final(self)@.picker_within_limits(),
    {
        self.workspace_picker.expanded_workspaces.insert(id);
        proof {
            lemma_limits_kept(old(self)@, self@);
        }
    }

    fn collapse_picker_workspace(&mut self, id: &String)
        ensures
            final(self)@ == old(self)@.with_picker_expanded(
                old(self)@.picker.expanded.remove(id@),
            ),
            old(self)@.picker_within_limits() ==> final(self)@.picker_within_limits(),
    {
        self.workspace_picker.expanded_workspaces.remove(id);
        proof {
            lemma_limits_kept(old(self)@, self@);
        }
    }

    /// Expands the selected workspace.
    pub fn expand_selected_workspace_picker_workspace_from(
        &mut self,
        terminal_runtimes: &TerminalRuntimeRegistry,
    )
        requires
            old(self)@.picker_within_limits(),
        ensures
            final(self)@ == old(self)@.picker_expanded(terminal_runtimes@),
            final(self)@.picker_within_limits(),
    {
        proof {
            reveal(AppModel::picker_expanded);
        }
        let ws_idx = match self.selected_workspace_picker_ws_idx_from(terminal_runtimes) {
            Some(i) => i,
            None => return,
        };
        if ws_idx >= self.workspaces.len() {
            return;
        }
        let id = self.workspaces[ws_idx].id.clone();
        self.expand_picker_workspace(id);
        self.clamp_workspace_picker_selection_from(terminal_runtimes);
    }

    fn picker_row_of_workspace(&self, terminal_runtimes: &TerminalRuntimeRegistry, ws_idx: usize)
        -> (r: usize)
        requires
            self@.countable(),
        ensures
            r == self@.picker_row_of(terminal_runtimes@, ws_idx),
    {
        proof {
            reveal(AppModel::picker_row_of);
        }
        let rows = self.workspace_picker_rows_from(terminal_runtimes);
        let ghost p = |row: PickerRowModel| row.ws_idx == ws_idx && !row.is_tab;
        let mut i: usize = 0;
        while i < rows.len()
            invariant
                i <= rows@.len(),
                p == (|row: PickerRowModel| row.ws_idx == ws_idx && !row.is_tab),
                views(rows@) == self@.picker_rows(terminal_runtimes@),
                self@.picker_row_of(terminal_runtimes@, ws_idx) == or_zero(
                    picker_position(self@.picker_rows(terminal_runtimes@), p, 0),
                ) as usize,
                picker_position(views(rows@), p, 0) == picker_position(views(rows@), p, i as int),
            decreases rows@.len() - i,
        {
            proof {
                assert(views(rows@)[i as int] == rows@[i as int]@);
            }
            if rows[i].ws_idx == ws_idx && !rows[i].is_tab {
                return i;
            }
            i += 1;
        }
        0
    }

    /// Collapses the workspace of the selected row and selects it.
    pub fn collapse_selected_workspace_picker_workspace_from(
        &mut self,
        terminal_runtimes: &TerminalRuntimeRegistry,
    )
        requires
            old(self)@.picker_within_limits(),
        ensures
            final(self)@ == old(self)@.picker_collapsed(terminal_runtimes@),
            final(self)@.picker_within_limits(),
    {
        proof {
            reveal(AppModel::picker_collapsed);
        }
        let ws_idx = match self.selected_workspace_picker_ws_idx_from(terminal_runtimes) {
            Some(i) => i,
            None => return,
        };
        if ws_idx >= self.workspaces.len() {
            return;
        }
        let id = self.workspaces[ws_idx].id.clone();
        self.collapse_picker_workspace(&id);
        let row: usize = self.picker_row_of_workspace(terminal_runtimes, ws_idx);
        self.pick_row(terminal_runtimes, row);
    }
}

/// The row that cycling from row `selected` by `delta` workspaces leads to, where there is a
/// workspace row.
pub fn cycled_picker_row(rows: &Vec<WorkspacePickerRow>, selected: usize, delta: isize) -> (r:
    Option<usize>)
    ensures
        match r {
            Some(row) => picker_positions(views(rows@), rows@.len()).len() > 0 && row
                == picker_cycled_row(views(rows@), selected, delta as int),
            None => picker_positions(views(rows@), rows@.len()).len() == 0,
        },
{
    let ghost all = views(rows@);
    let mut positions: Vec<usize> = Vec::new();
    let mut n: usize = 0;
    while n < rows.len()
        invariant
            n <= rows@.len(),
            all == views(rows@),
            positions@ == picker_positions(all, n as nat),
            forall|k: int| 0 <= k < positions@.len() ==> #[trigger] positions@[k] < n,
        decreases rows@.len() - n,
    {
        proof {
            assert(all[n as int] == rows@[n as int]@);
        }
        if !rows[n].is_tab {
            positions.push(n);
        }
        n += 1;
    }
    if positions.len() == 0 {
        return None;
    }
    proof {
        assert(positions@[0] < rows@.len());
        assert(all[positions@[0] as int] == rows@[positions@[0] as int]@);
    }
    let ws_idx: usize = if selected < rows.len() {
        proof {
            assert(all[selected as int] == rows@[selected as int]@);
        }
        rows[selected].ws_idx
    } else {
        rows[positions[0]].ws_idx
    };
    let mut current: usize = 0;
    let mut k: usize = 0;
    let mut found = false;
    while k < positions.len() && !found
        invariant
            k <= positions@.len(),
            positions@.len() > 0,
            all == views(rows@),
            forall|j: int| 0 <= j < positions@.len() ==> #[trigger] positions@[j] < rows@.len(),
            current < positions@.len(),
            found ==> picker_position_of(all, positions@, ws_idx, 0) == Some(current as int),
            !found ==> current == 0 && picker_position_of(all, positions@, ws_idx, 0)
                == picker_position_of(all, positions@, ws_idx, k as int),
        decreases positions@.len() - k,
    {
        proof {
            assert(positions@[k as int] < rows@.len());
            assert(all[positions@[k as int] as int] == rows@[positions@[k as int] as int]@);
        }
        if rows[positions[k]].ws_idx == ws_idx {
            current = k;
            found = true;
        }
        k += 1;
    }
    Some(positions[cycled_index(current, delta, positions.len())])
}

} // verus!
