//! The operations of the workspace switcher.

use vstd::prelude::*;
use vstd::string::*;
use crate::collections::path_key;
use crate::navigation::lemma_limits_kept;
use crate::provider::{copy_entries, DirectoryPreviewState};
use crate::row_layout::SwitcherRowLayout;
use crate::rows::{same_target, RowModel, WorkspaceSwitcherRow, WorkspaceSwitcherTarget};
use crate::state::{AppModel, AppState, SwitcherModel, WorkspaceSwitcherPreview};
use crate::switcher_model::{
    clamped, cycled_row, position_of_workspace, row_position, workspace_positions,
    NO_MATCHING_WORKSPACES, NO_WORKSPACES, TAB_UNAVAILABLE, WORKSPACE_UNAVAILABLE,
};
use crate::terminal::TerminalRuntimeRegistry;
use crate::views::{option_view, views};

verus! {

fn find_row_of_target(rows: &Vec<WorkspaceSwitcherRow>, target: &WorkspaceSwitcherTarget) -> (r:
    Option<usize>)
    ensures
        match r {
            Some(i) => i < rows@.len() && row_position(
                views(rows@),
                |row: RowModel| same_target(row.target, target@),
                0,
            ) == Some(i as int),
            None => row_position(
                views(rows@),
                |row: RowModel| same_target(row.target, target@),
                0,
            ) is None,
        },
{
    let ghost p = |row: RowModel| same_target(row.target, target@);
    let mut i: usize = 0;
    while i < rows.len()
        invariant
            i <= rows@.len(),
            p == (|row: RowModel| same_target(row.target, target@)),
            row_position(views(rows@), p, 0) == row_position(views(rows@), p, i as int),
        decreases rows@.len() - i,
    {
        proof {
            assert(views(rows@)[i as int] == rows@[i as int]@);
        }
        if rows[i].target.same_as(target) {
            return Some(i);
        }
        i += 1;
    }
    None
}

fn find_row_of_workspace(rows: &Vec<WorkspaceSwitcherRow>, ws_idx: usize) -> (r: Option<usize>)
    ensures
        match r {
            Some(i) => i < rows@.len() && row_position(
                views(rows@),
                |row: RowModel| row.ws_idx == ws_idx && !row.is_tab,
                0,
            ) == Some(i as int),
            None => row_position(
                views(rows@),
                |row: RowModel| row.ws_idx == ws_idx && !row.is_tab,
                0,
            ) is None,
        },
{
    let ghost p = |row: RowModel| row.ws_idx == ws_idx && !row.is_tab;
    let mut i: usize = 0;
    while i < rows.len()
        invariant
            i <= rows@.len(),
            p == (|row: RowModel| row.ws_idx == ws_idx && !row.is_tab),
            row_position(views(rows@), p, 0) == row_position(views(rows@), p, i as int),
        decreases rows@.len() - i,
    {
        proof {
            assert(views(rows@)[i as int] == rows@[i as int]@);
        }
        if rows[i].ws_idx == ws_idx && !rows[i].is_tab {
            return Some(i);
        }
        i += 1;
    }
    None
}

pub(crate) fn find_row_of_other_workspace(rows: &Vec<WorkspaceSwitcherRow>, active: usize) -> (r: Option<
    usize,
>)
    ensures
        match r {
            Some(i) => i < rows@.len() && row_position(
                views(rows@),
                |row: RowModel| row.ws_idx != active && !row.is_tab,
                0,
            ) == Some(i as int),
            None => row_position(
                views(rows@),
                |row: RowModel| row.ws_idx != active && !row.is_tab,
                0,
            ) is None,
        },
{
    let ghost p = |row: RowModel| row.ws_idx != active && !row.is_tab;
    let mut i: usize = 0;
    while i < rows.len()
        invariant
            i <= rows@.len(),
            p == (|row: RowModel| row.ws_idx != active && !row.is_tab),
            row_position(views(rows@), p, 0) == row_position(views(rows@), p, i as int),
        decreases rows@.len() - i,
    {
        proof {
            assert(views(rows@)[i as int] == rows@[i as int]@);
        }
        if rows[i].ws_idx != active && !rows[i].is_tab {
            return Some(i);
        }
        i += 1;
    }
    None
}

impl AppState {
    pub(crate) fn select_switcher_row(&mut self, selected: usize)
        ensures
            final(self)@ == old(self)@.with_selected(selected),
            old(self)@.within_limits() ==> final(self)@.within_limits(),
    {
        self.workspace_switcher.selected = selected;
        proof {
            lemma_limits_kept(old(self)@, self@);
        }
    }

    pub(crate) fn scroll_switcher(&mut self, scroll: usize)
        ensures
            final(self)@ == old(self)@.with_scroll(scroll),
            old(self)@.within_limits() ==> final(self)@.within_limits(),
    {
        self.workspace_switcher.scroll = scroll;
        proof {
            lemma_limits_kept(old(self)@, self@);
        }
    }

    fn show_switcher_preview(&mut self, preview: WorkspaceSwitcherPreview)
        ensures
            final(self)@ == old(self)@.showing(preview@),
            old(self)@.within_limits() ==> final(self)@.within_limits(),
    {
        self.workspace_switcher.preview = preview;
        proof {
            lemma_limits_kept(old(self)@, self@);
        }
    }

    fn record_switcher_target(&mut self, target: Option<WorkspaceSwitcherTarget>)
        ensures
            final(self)@ == old(self)@.with_recorded(option_view(target)),
            old(self)@.within_limits() ==> final(self)@.within_limits(),
    {
        self.workspace_switcher.selected_target = target;
        proof {
            lemma_limits_kept(old(self)@, self@);
        }
    }

    fn expand_switcher_workspace(&mut self, id: String)
        ensures
            final(self)@ == old(self)@.with_expanded(old(self)@.switcher.expanded.insert(id@)),
            old(self)@.within_limits() ==> final(self)@.within_limits(),
    {
        self.workspace_switcher.expanded_workspaces.insert(id);
        proof {
            lemma_limits_kept(old(self)@, self@);
        }
    }

    fn collapse_switcher_workspace(&mut self, id: &String)
        ensures
            final(self)@ == old(self)@.with_expanded(old(self)@.switcher.expanded.remove(id@)),
            old(self)@.within_limits() ==> final(self)@.within_limits(),
    {
        self.workspace_switcher.expanded_workspaces.remove(id);
        proof {
            lemma_limits_kept(old(self)@, self@);
        }
    }

    /// The number of rows.
    pub fn workspace_switcher_row_count_from(&self, terminal_runtimes: &TerminalRuntimeRegistry)
        -> (n: usize)
        ensures
            n == self@.switcher_rows(terminal_runtimes@).len(),
    {
        self.workspace_switcher_rows_from(terminal_runtimes).len()
    }

    fn set_viewport_offset(&mut self, line: usize)
        ensures
            final(self)@ == old(self)@.with_switcher(
                SwitcherModel { viewport_offset: line, ..old(self)@.switcher },
            ),
            old(self)@.within_limits() ==> final(self)@.within_limits(),
    {
        self.workspace_switcher.selected_viewport_offset = line;
        proof {
            lemma_limits_kept(old(self)@, self@);
        }
    }

    /// Records the line of the selected row in the window.
    pub fn capture_workspace_switcher_viewport_anchor(&mut self, layout: &SwitcherRowLayout)
        requires
            layout.wf(),
        ensures
            final(self)@ == old(self)@.with_anchor(layout@),
            old(self)@.within_limits() ==> final(self)@.within_limits(),
    {
        let line = layout.offset_within_window(
            self.workspace_switcher.selected,
            self.workspace_switcher.scroll,
        );
        let line: usize = match line {
            Some(line) => line,
            None => 0,
        };
        assert(old(self)@.with_anchor(layout@) == old(self)@.with_switcher(
            SwitcherModel { viewport_offset: line, ..old(self)@.switcher },
        )) by {
            reveal(AppModel::with_anchor);
        }
        self.set_viewport_offset(line);
    }

    /// Scrolls to the selected row.
    pub fn ensure_workspace_switcher_selection_visible_from(
        &mut self,
        terminal_runtimes: &TerminalRuntimeRegistry,
    )
        requires
            old(self)@.within_limits(),
        ensures
            final(self)@ == old(self)@.scrolled_to_selection(terminal_runtimes@),
            final(self)@.within_limits(),
    {
        proof {
            reveal(AppModel::scrolled_to_selection);
        }
        let layout = self.workspace_switcher_row_layout(terminal_runtimes);
        let scroll: usize = layout.scroll_to_show(
            self.workspace_switcher.selected,
            self.workspace_switcher.scroll,
        );
        self.scroll_switcher(scroll);
        self.capture_workspace_switcher_viewport_anchor(&layout);
    }

    pub(crate) fn selected_switcher_row(&self, terminal_runtimes: &TerminalRuntimeRegistry) -> (r: Option<
        (bool, WorkspaceSwitcherTarget),
    >)
        ensures
            match r {
                Some((is_directory, target)) => {
                    &&& self@.switcher.selected < self@.switcher_rows(terminal_runtimes@).len()
                    &&& is_directory == self@.switcher_rows(
                        terminal_runtimes@,
                    )[self@.switcher.selected as int].is_directory
                    &&& target@ == self@.switcher_rows(
                        terminal_runtimes@,
                    )[self@.switcher.selected as int].target
                },
                None => self@.switcher.selected >= self@.switcher_rows(terminal_runtimes@).len(),
            },
    {
        let rows = self.workspace_switcher_rows_from(terminal_runtimes);
        let selected: usize = self.workspace_switcher.selected;
        if selected < rows.len() {
            proof {
                assert(views(rows@)[selected as int] == rows@[selected as int]@);
            }
            Some((rows[selected].is_directory, rows[selected].target.clone()))
        } else {
            None
        }
    }

    fn urgent_switcher_preview(&self) -> (r: Option<WorkspaceSwitcherPreview>)
        ensures
            option_view(r) == self@.urgent_preview(),
    {
        if let Some(pending) = &self.workspace_switcher.pending_directory {
            return Some(
                WorkspaceSwitcherPreview::Opening { shown_path: pending.shown_path.clone() },
            );
        }
        match &self.workspace_switcher.search_error {
            Some(error) => Some(WorkspaceSwitcherPreview::Empty { message: error.clone() }),
            None => None,
        }
    }

    /// Records the target of the selected row and its line in the window.
    pub fn capture_workspace_switcher_target_from(
        &mut self,
        terminal_runtimes: &TerminalRuntimeRegistry,
    )
        requires
            old(self)@.within_limits(),
        ensures
            final(self)@ == old(self)@.with_target(terminal_runtimes@),
            final(self)@.within_limits(),
    {
        proof {
            reveal(AppModel::with_target);
            reveal(AppModel::target_at_selection);
        }
        let target = match self.selected_switcher_row(terminal_runtimes) {
            Some((_, target)) => Some(target),
            None => None,
        };
        let layout = self.workspace_switcher_row_layout(terminal_runtimes);
        self.record_switcher_target(target);
        self.capture_workspace_switcher_viewport_anchor(&layout);
    }

    /// The workspace and tab that `target` shows.
    pub fn workspace_switcher_target_tab_indices(&self, target: &WorkspaceSwitcherTarget) -> (r:
        Option<(usize, usize)>)
        ensures
            r == self@.target_tab(target@),
            r matches Some(at) ==> self@.has_tab(at.0, at.1),
    {
        match target {
            WorkspaceSwitcherTarget::Workspace { workspace_id } => match self.workspace_index(
                workspace_id,
            ) {
                Some(i) => {
                    let ws = &self.workspaces[i];
                    proof {
                        assert(self@.workspaces[i as int] == ws@);
                    }
                    if ws.active_tab < ws.tabs.len() {
                        Some((i, ws.active_tab))
                    } else {
                        None
                    }
                },
                None => None,
            },
            WorkspaceSwitcherTarget::Tab { tab_id } => self.tab_index(tab_id),
            WorkspaceSwitcherTarget::Directory { .. } => None,
        }
    }

    /// The preview of a workspace or tab.
    pub fn workspace_switcher_preview_for_target(&self, target: WorkspaceSwitcherTarget) -> (r:
        WorkspaceSwitcherPreview)
        ensures
            r@ == self@.target_preview(target@),
    {
        proof {
            reveal(AppModel::target_preview);
        }
        if self.workspace_switcher_target_tab_indices(&target).is_some() {
            return WorkspaceSwitcherPreview::TabSurface { target };
        }
        let message = match target {
            WorkspaceSwitcherTarget::Workspace { .. } => WORKSPACE_UNAVAILABLE.to_owned(),
            WorkspaceSwitcherTarget::Tab { .. } => TAB_UNAVAILABLE.to_owned(),
            WorkspaceSwitcherTarget::Directory { .. } => String::new(),
        };
        WorkspaceSwitcherPreview::Empty { message }
    }

    fn cached_directory_preview(&self, shown_path: &String) -> (r: Option<
        WorkspaceSwitcherPreview,
    >)
        ensures
            match r {
                Some(preview) => self@.switcher.cache.contains_key(path_key(shown_path@))
                    && preview@ == self@.directory_preview(shown_path@),
                None => !self@.switcher.cache.contains_key(path_key(shown_path@)),
            },
    {
        proof {
            reveal(AppModel::directory_preview);
        }
        match self.workspace_switcher.directory_preview_cache.get(shown_path.as_str()) {
            Some(DirectoryPreviewState::Ready(preview)) => Some(
                WorkspaceSwitcherPreview::Directory {
                    shown_path: shown_path.clone(),
                    entries: copy_entries(&preview.entries),
                    truncated: preview.truncated,
                },
            ),
            Some(DirectoryPreviewState::Error) => Some(
                WorkspaceSwitcherPreview::DirectoryError { shown_path: shown_path.clone() },
            ),
            Some(DirectoryPreviewState::Loading) => Some(
                WorkspaceSwitcherPreview::DirectoryLoading { shown_path: shown_path.clone() },
            ),
            None => None,
        }
    }

    fn request_switcher_preview(&mut self, shown_path: String)
        ensures
            final(self)@ == old(self)@.requesting(shown_path@),
            old(self)@.within_limits() ==> final(self)@.within_limits(),
    {
        self.workspace_switcher.preview_request = Some(shown_path);
        proof {
            lemma_limits_kept(old(self)@, self@);
        }
    }

    /// The preview of a directory. One that is not cached is requested.
    pub fn directory_preview_for_path(&mut self, shown_path: &String) -> (r:
        WorkspaceSwitcherPreview)
        ensures
            r@ == old(self)@.directory_preview(shown_path@),
            final(self)@ == old(self)@.with_preview_request(shown_path@),
            old(self)@.within_limits() ==> final(self)@.within_limits(),
    {
        proof {
            reveal(AppModel::directory_preview);
            reveal(AppModel::with_preview_request);
        }
        match self.cached_directory_preview(shown_path) {
            Some(preview) => preview,
            None => {
                self.request_switcher_preview(shown_path.clone());
                WorkspaceSwitcherPreview::DirectoryLoading { shown_path: shown_path.clone() }
            },
        }
    }

    /// Shows the preview of the selected row, of a directory that is being opened, or an error.
    pub fn refresh_workspace_switcher_preview_from(
        &mut self,
        terminal_runtimes: &TerminalRuntimeRegistry,
    )
        ensures
            final(self)@ == old(self)@.with_preview(terminal_runtimes@),
            old(self)@.within_limits() ==> final(self)@.within_limits(),
    {
        proof {
            reveal(AppModel::with_preview);
        }
        if let Some(preview) = self.urgent_switcher_preview() {
            self.show_switcher_preview(preview);
            return;
        }
        match self.selected_switcher_row(terminal_runtimes) {
            Some((is_directory, target)) => {
                self.show_switcher_target(is_directory, target);
            },
            None => {
                let message = if self.workspaces.len() == 0 {
                    NO_WORKSPACES.to_owned()
                } else {
                    NO_MATCHING_WORKSPACES.to_owned()
                };
                self.show_switcher_preview(WorkspaceSwitcherPreview::Empty { message });
            },
        }
    }

    fn show_switcher_target(&mut self, is_directory: bool, target: WorkspaceSwitcherTarget)
        ensures
            final(self)@ == old(self)@.showing_target(is_directory, target@),
            old(self)@.within_limits() ==> final(self)@.within_limits(),
    {
        if !is_directory {
            let preview = self.workspace_switcher_preview_for_target(target);
            self.show_switcher_preview(preview);
        } else if let WorkspaceSwitcherTarget::Directory { shown_path, .. } = target {
            let preview = self.directory_preview_for_path(&shown_path);
            self.show_switcher_preview(preview);
        }
    }

    pub(crate) fn settle_switcher_selection(&mut self, terminal_runtimes: &TerminalRuntimeRegistry)
        requires
            old(self)@.within_limits(),
        ensures
            final(self)@ == old(self)@.settled(terminal_runtimes@),
            final(self)@.within_limits(),
    {
        proof {
            reveal(AppModel::settled);
        }
        self.ensure_workspace_switcher_selection_visible_from(terminal_runtimes);
        self.refresh_workspace_switcher_preview_from(terminal_runtimes);
        self.capture_workspace_switcher_target_from(terminal_runtimes);
    }

    /// Brings the selection into the list and settles on it.
    pub fn clamp_workspace_switcher_selection_from(
        &mut self,
        terminal_runtimes: &TerminalRuntimeRegistry,
    )
        requires
            old(self)@.within_limits(),
        ensures
            final(self)@ == old(self)@.clamped_selection(terminal_runtimes@),
            final(self)@.within_limits(),
    {
        proof {
            reveal(AppModel::clamped_selection);
        }
        let count: usize = self.workspace_switcher_row_count_from(terminal_runtimes);
        let last: usize = count.saturating_sub(1);
        let selected: usize = if self.workspace_switcher.selected > last {
            last
        } else {
            self.workspace_switcher.selected
        };
        self.select_switcher_row(selected);
        self.settle_switcher_selection(terminal_runtimes);
    }

    fn select_nothing(&mut self, terminal_runtimes: &TerminalRuntimeRegistry)
        ensures
            final(self)@ == old(self)@.at_nothing(terminal_runtimes@),
            old(self)@.within_limits() ==> final(self)@.within_limits(),
    {
        proof {
            reveal(AppModel::at_nothing);
        }
        self.select_switcher_row(0);
        self.scroll_switcher(0);
        self.refresh_workspace_switcher_preview_from(terminal_runtimes);
    }

    /// Moves the selection by `delta` rows, stopping at the ends of the list.
    pub fn move_workspace_switcher_selection_from(
        &mut self,
        terminal_runtimes: &TerminalRuntimeRegistry,
        delta: isize,
    )
        requires
            old(self)@.within_limits(),
        ensures
            final(self)@ == old(self)@.moved_selection(terminal_runtimes@, delta as int),
            final(self)@.within_limits(),
    {
        proof {
            reveal(AppModel::moved_selection);
        }
        let count: usize = self.workspace_switcher_row_count_from(terminal_runtimes);
        if count == 0 {
            self.select_nothing(terminal_runtimes);
            return;
        }
        let selected: usize = moved_index(self.workspace_switcher.selected, delta, count);
        self.select_switcher_row(selected);
        self.settle_switcher_selection(terminal_runtimes);
    }

    /// Moves the selection by `delta` workspaces, round and round.
    pub fn cycle_workspace_switcher_from(
        &mut self,
        terminal_runtimes: &TerminalRuntimeRegistry,
        delta: isize,
    )
        requires
            old(self)@.within_limits(),
        ensures
            final(self)@ == old(self)@.cycled_selection(terminal_runtimes@, delta as int),
            final(self)@.within_limits(),
    {
        proof {
            reveal(AppModel::cycled_selection);
        }
        let rows = self.workspace_switcher_rows_from(terminal_runtimes);
        match cycled_switcher_row(&rows, self.workspace_switcher.selected, delta) {
            Some(selected) => {
                self.select_switcher_row(selected);
                self.settle_switcher_selection(terminal_runtimes);
            },
            None => {
                self.select_nothing(terminal_runtimes);
            },
        }
    }

    /// The workspace of the selected row, unless that is a directory.
    pub fn selected_workspace_switcher_ws_idx_from(
        &self,
        terminal_runtimes: &TerminalRuntimeRegistry,
    ) -> (r: Option<usize>)
        ensures
            r == self@.selected_workspace(terminal_runtimes@),
    {
        proof {
            reveal(AppModel::selected_workspace);
        }
        let rows = self.workspace_switcher_rows_from(terminal_runtimes);
        let selected: usize = self.workspace_switcher.selected;
        if selected < rows.len() {
            proof {
                assert(views(rows@)[selected as int] == rows@[selected as int]@);
            }
            if !rows[selected].is_directory {
                return Some(rows[selected].ws_idx);
            }
        }
        None
    }

    /// Expands the selected workspace.
    pub fn expand_selected_workspace_switcher_workspace_from(
        &mut self,
        terminal_runtimes: &TerminalRuntimeRegistry,
    )
        requires
            old(self)@.within_limits(),
        ensures
            final(self)@ == old(self)@.expanded_selection(terminal_runtimes@),
            final(self)@.within_limits(),
    {
        proof {
            reveal(AppModel::expanded_selection);
        }
        let ws_idx = match self.selected_workspace_switcher_ws_idx_from(terminal_runtimes) {
            Some(i) => i,
            None => return,
        };
        if ws_idx >= self.workspaces.len() {
            return;
        }
        let id = self.workspaces[ws_idx].id.clone();
        self.expand_switcher_workspace(id);
        self.clamp_workspace_switcher_selection_from(terminal_runtimes);
    }

    /// Collapses the workspace of the selected row and selects it.
    pub fn collapse_selected_workspace_switcher_workspace_from(
        &mut self,
        terminal_runtimes: &TerminalRuntimeRegistry,
    )
        requires
            old(self)@.within_limits(),
        ensures
            final(self)@ == old(self)@.collapsed_selection(terminal_runtimes@),
            final(self)@.within_limits(),
    {
        proof {
            reveal(AppModel::collapsed_selection);
        }
        let ws_idx = match self.switcher_ws_idx_at_selection(terminal_runtimes) {
            Some(i) => i,
            None => return,
        };
        if ws_idx >= self.workspaces.len() {
            return;
        }
        let id = self.workspaces[ws_idx].id.clone();
        self.collapse_switcher_workspace(&id);
        let selected: usize = self.switcher_row_of_workspace(terminal_runtimes, ws_idx);
        self.select_switcher_row(selected);
        self.settle_switcher_selection(terminal_runtimes);
    }

    fn switcher_ws_idx_at_selection(&self, terminal_runtimes: &TerminalRuntimeRegistry) -> (r:
        Option<usize>)
        ensures
            r == self@.ws_idx_at_selection(terminal_runtimes@),
    {
        let rows = self.workspace_switcher_rows_from(terminal_runtimes);
        let selected: usize = self.workspace_switcher.selected;
        if selected >= rows.len() {
            return None;
        }
        proof {
            assert(views(rows@)[selected as int] == rows@[selected as int]@);
        }
        Some(rows[selected].ws_idx)
    }

    fn switcher_row_of_workspace(
        &self,
        terminal_runtimes: &TerminalRuntimeRegistry,
        ws_idx: usize,
    ) -> (r: usize)
        ensures
            r == self@.row_of_workspace(terminal_runtimes@, ws_idx),
    {
        let rows = self.workspace_switcher_rows_from(terminal_runtimes);
        match find_row_of_workspace(&rows, ws_idx) {
            Some(i) => i,
            None => 0,
        }
    }

    /// Finds the selected target again after the rows have changed, and keeps it on its line of
    /// the window as far as that can be.
    pub fn reanchor_workspace_switcher_selection_from(
        &mut self,
        terminal_runtimes: &TerminalRuntimeRegistry,
    )
        requires
            old(self)@.within_limits(),
        ensures
            final(self)@ == old(self)@.reanchored(terminal_runtimes@),
            final(self)@.within_limits(),
    {
        proof {
            reveal(AppModel::reanchored);
        }
        if !self.workspace_switcher.active {
            return;
        }
        let rows = self.workspace_switcher_rows_from(terminal_runtimes);
        let position = match &self.workspace_switcher.selected_target {
            Some(target) => find_row_of_target(&rows, target),
            None => None,
        };
        if let Some(p) = position {
            let layout = self.workspace_switcher_row_layout(terminal_runtimes);
            let scroll: usize = layout.scroll_to_preserve_offset(
                p,
                self.workspace_switcher.selected_viewport_offset,
                self.workspace_switcher.scroll,
            );
            self.select_switcher_row(p);
            self.scroll_switcher(scroll);
            self.refresh_workspace_switcher_preview_from(terminal_runtimes);
            self.capture_workspace_switcher_target_from(terminal_runtimes);
        } else {
            self.clamp_workspace_switcher_selection_from(terminal_runtimes);
        }
    }
}

/// The row that cycling from row `selected` by `delta` workspaces leads to, where there is a
/// workspace row.
pub fn cycled_switcher_row(rows: &Vec<WorkspaceSwitcherRow>, selected: usize, delta: isize) -> (r:
    Option<usize>)
    ensures
        match r {
            Some(row) => workspace_positions(views(rows@), rows@.len()).len() > 0 && row
                == cycled_row(views(rows@), selected, delta as int),
            None => workspace_positions(views(rows@), rows@.len()).len() == 0,
        },
{
    let ghost all = views(rows@);
    let mut positions: Vec<usize> = Vec::new();
    let mut n: usize = 0;
    while n < rows.len()
        invariant
            n <= rows@.len(),
            all == views(rows@),
            positions@ == workspace_positions(all, n as nat),
            forall|k: int| 0 <= k < positions@.len() ==> #[trigger] positions@[k] < n,
        decreases rows@.len() - n,
    {
        proof {
            assert(all[n as int] == rows@[n as int]@);
        }
        if !rows[n].is_tab && !rows[n].is_directory {
            positions.push(n);
        }
        n += 1;
    }
    if positions.len() == 0 {
        return None;
    }
    proof {
        assert(positions@[0] < rows@.len());
        assert(all[positions@[0] as int] == rows@[positions@[0] as int]@);
    }
    let ws_idx: usize = if selected < rows.len() {
        proof {
            assert(all[selected as int] == rows@[selected as int]@);
        }
        rows[selected].ws_idx
    } else {
        rows[positions[0]].ws_idx
    };
    let mut current: usize = 0;
    let mut k: usize = 0;
    let mut found = false;
    while k < positions.len() && !found
        invariant
            k <= positions@.len(),
            positions@.len() > 0,
            all == views(rows@),
            forall|j: int| 0 <= j < positions@.len() ==> #[trigger] positions@[j] < rows@.len(),
            current < positions@.len(),
            found ==> position_of_workspace(all, positions@, ws_idx, 0) == Some(current as int),
            !found ==> current == 0 && position_of_workspace(all, positions@, ws_idx, 0)
                == position_of_workspace(all, positions@, ws_idx, k as int),
        decreases positions@.len() - k,
    {
        proof {
            assert(positions@[k as int] < rows@.len());
            assert(all[positions@[k as int] as int] == rows@[positions@[k as int] as int]@);
        }
        if rows[positions[k]].ws_idx == ws_idx {
            current = k;
            found = true;
        }
        k += 1;
    }
    Some(positions[cycled_index(current, delta, positions.len())])
}

/// The index `delta` away from `index`, both within a list of `count` items.
pub fn moved_index(index: usize, delta: isize, count: usize) -> (r: usize)
    requires
        count > 0,
    ensures
        r == clamped(clamped(index as int, count - 1) + delta, count - 1),
{
    let current: usize = if index < count { index } else { count - 1 };
    if delta >= 0 {
        let step: usize = delta as usize;
        if step > count - 1 - current {
            count - 1
        } else {
            current + step
        }
    } else {
        let step: usize = (-(delta + 1)) as usize;
        if step >= current {
            0
        } else {
            current - step - 1
        }
    }
}

/// The index `delta` away from `index` in a ring of `count` items.
pub fn cycled_index(index: usize, delta: isize, count: usize) -> (r: usize)
    requires
        index < count,
    ensures
        r == (index + delta) % (count as int),
        r < count,
{
    proof {
        vstd::arithmetic::div_mod::lemma_small_mod(index as nat, count as nat);
    }
    if delta >= 0 {
        let step: usize = (delta as usize) % count;
        proof {
            vstd::arithmetic::div_mod::lemma_add_mod_noop(
                index as int,
                delta as int,
                count as int,
            );
        }
        if step < count - index {
            proof {
                vstd::arithmetic::div_mod::lemma_small_mod((index + step) as nat, count as nat);
            }
            index + step
        } else {
            proof {
                vstd::arithmetic::div_mod::lemma_mod_add_multiples_vanish(
                    index + step - count,
                    count as int,
                );
                vstd::arithmetic::div_mod::lemma_small_mod(
                    (index + step - count) as nat,
                    count as nat,
                );
            }
            index - (count - step)
        }
    } else {
        let back: usize = (-(delta + 1)) as usize;
        let step: usize = back % count;
        // Going back by one more than `step` leads to the item before `index - step`.
        proof {
            vstd::arithmetic::div_mod::lemma_sub_mod_noop(
                index - 1,
                back as int,
                count as int,
            );
            vstd::arithmetic::div_mod::lemma_mod_bound(index - 1, count as int);
        }
        if step < index {
            proof {
                vstd::arithmetic::div_mod::lemma_small_mod((index - 1) as nat, count as nat);
                vstd::arithmetic::div_mod::lemma_small_mod(
                    (index - 1 - step) as nat,
                    count as nat,
                );
            }
            index - step - 1
        } else {
            proof {
                vstd::arithmetic::div_mod::lemma_mod_add_multiples_vanish(
                    index - 1 - step,
                    count as int,
                );
                vstd::arithmetic::div_mod::lemma_small_mod(
                    (index - 1 - step + count) as nat,
                    count as nat,
                );
                if index > 0 {
                    vstd::arithmetic::div_mod::lemma_small_mod((index - 1) as nat, count as nat);
                } else {
                    vstd::arithmetic::div_mod::lemma_mod_add_multiples_vanish(
                        -1,
                        count as int,
                    );
                    vstd::arithmetic::div_mod::lemma_small_mod(
                        (count - 1) as nat,
                        count as nat,
                    );
                    vstd::arithmetic::div_mod::lemma_mod_add_multiples_vanish(
                        count - 1 - step - count,
                        count as int,
                    );
                }
            }
            index + (count - step - 1)
        }
    }
}

} // verus!
