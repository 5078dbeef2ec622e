//! What the operations of the workspace switcher do, as functions on the state.

use vstd::prelude::*;
use crate::collections::path_key;
use crate::geometry::covers;
use crate::navigation::{tab_in_workspaces, workspace_from};
use crate::provider::PreviewStateModel;
use crate::row_layout::LayoutModel;
use crate::rows::{same_target, RowModel, TargetModel};
use crate::state::{AppModel, PreviewModel, SwitcherModel};
use crate::terminal::RegistryModel;

verus! {

/// The first index of `rows` from `from` on whose row satisfies `p`.
pub open spec fn row_position(rows: Seq<RowModel>, p: spec_fn(RowModel) -> bool, from: int) -> Option<
    int,
>
    decreases rows.len() - from,
{
    if from < 0 || from >= rows.len() {
        None
    } else if p(rows[from]) {
        Some(from)
    } else {
        row_position(rows, p, from + 1)
    }
}

/// The indices among the first `n` rows of those that stand for workspaces.
pub open spec fn workspace_positions(rows: Seq<RowModel>, n: nat) -> Seq<usize>
    decreases n,
{
    if n == 0 {
        Seq::<usize>::empty()
    } else {
        let before = workspace_positions(rows, (n - 1) as nat);
        if !rows[n - 1].is_tab && !rows[n - 1].is_directory {
            before.push((n - 1) as usize)
        } else {
            before
        }
    }
}

/// The first of `positions` from index `from` on whose row belongs to workspace `ws_idx`.
pub open spec fn position_of_workspace(
    rows: Seq<RowModel>,
    positions: Seq<usize>,
    ws_idx: usize,
    from: int,
) -> Option<int>
    decreases positions.len() - from,
{
    if from < 0 || from >= positions.len() {
        None
    } else if rows[positions[from] as int].ws_idx == ws_idx {
        Some(from)
    } else {
        position_of_workspace(rows, positions, ws_idx, from + 1)
    }
}

/// The value of an optional number, zero where there is none.
pub open spec fn or_zero(n: Option<int>) -> int {
    match n {
        Some(i) => i,
        None => 0,
    }
}

/// A number within `0` and `max`.
pub open spec fn clamped(n: int, max: int) -> int {
    if n < 0 {
        0
    } else if n > max {
        max
    } else {
        n
    }
}

/// The row that cycling by `delta` leads to: the next of the workspace rows, round and round.
pub open spec fn cycled_row(rows: Seq<RowModel>, selected: usize, delta: int) -> usize {
    let positions = workspace_positions(rows, rows.len());
    let ws_idx = if selected < rows.len() {
        rows[selected as int].ws_idx
    } else {
        rows[positions[0] as int].ws_idx
    };
    let current = or_zero(position_of_workspace(rows, positions, ws_idx, 0));
    positions[(current + delta) % (positions.len() as int)]
}

/// The message where there are no workspaces at all.
pub const NO_WORKSPACES: &'static str = "no workspaces";

/// The message where no workspace matches.
pub const NO_MATCHING_WORKSPACES: &'static str = "no matching workspaces";

pub const WORKSPACE_UNAVAILABLE: &'static str = "workspace unavailable";

pub const TAB_UNAVAILABLE: &'static str = "tab unavailable";

impl AppModel {
    pub open spec fn with_switcher(self, switcher: SwitcherModel) -> AppModel {
        AppModel { switcher, ..self }
    }

    /// The state with row `selected` selected.
    pub open spec fn with_selected(self, selected: usize) -> AppModel {
        self.with_switcher(SwitcherModel { selected, ..self.switcher })
    }

    /// The state scrolled to row `scroll`.
    pub open spec fn with_scroll(self, scroll: usize) -> AppModel {
        self.with_switcher(SwitcherModel { scroll, ..self.switcher })
    }

    /// The state with `target` recorded as the selected one.
    pub open spec fn with_recorded(self, target: Option<TargetModel>) -> AppModel {
        self.with_switcher(SwitcherModel { selected_target: target, ..self.switcher })
    }

    /// The state with the workspaces `expanded` expanded.
    pub open spec fn with_expanded(self, expanded: Set<Seq<char>>) -> AppModel {
        self.with_switcher(SwitcherModel { expanded, ..self.switcher })
    }

    /// The state with the line of the selected row recorded.
    #[verifier::opaque]
    pub open spec fn with_anchor(self, layout: LayoutModel) -> AppModel {
        self.with_switcher(
            SwitcherModel {
                viewport_offset: match layout.offset_within_window(
                    self.switcher.selected as int,
                    self.switcher.scroll as int,
                ) {
                    Some(line) => line as usize,
                    None => 0,
                },
                ..self.switcher
            },
        )
    }

    /// The state scrolled to the selected row.
    #[verifier::opaque]
    pub open spec fn scrolled_to_selection(self, runtimes: RegistryModel) -> AppModel {
        let layout = self.row_layout(runtimes);
        let scroll = layout.scroll_to_show(
            self.switcher.selected as int,
            self.switcher.scroll as int,
        );
        self.with_scroll(scroll as usize).with_anchor(layout)
    }

    /// What the selected row stands for.
    #[verifier::opaque]
    pub open spec fn target_at_selection(self, runtimes: RegistryModel) -> Option<TargetModel> {
        let rows = self.switcher_rows(runtimes);
        if self.switcher.selected < rows.len() {
            Some(rows[self.switcher.selected as int].target)
        } else {
            None
        }
    }

    /// The state with the selected target and its line recorded.
    #[verifier::opaque]
    pub open spec fn with_target(self, runtimes: RegistryModel) -> AppModel {
        self.with_recorded(self.target_at_selection(runtimes)).with_anchor(
            self.row_layout(runtimes),
        )
    }

    /// The workspace and tab that `target` shows.
    pub open spec fn target_tab(self, target: TargetModel) -> Option<(usize, usize)> {
        match target {
            TargetModel::Workspace { workspace_id } => match workspace_from(
                self.workspaces,
                workspace_id,
                0,
            ) {
                Some(i) => {
                    let ws = self.workspaces[i as int];
                    if ws.active_tab < ws.tabs.len() {
                        Some((i, ws.active_tab))
                    } else {
                        None
                    }
                },
                None => None,
            },
            TargetModel::Tab { tab_id } => tab_in_workspaces(self.workspaces, tab_id, 0),
            TargetModel::Directory { .. } => None,
        }
    }

    /// The preview of a workspace or tab.
    #[verifier::opaque]
    pub open spec fn target_preview(self, target: TargetModel) -> PreviewModel {
        if self.target_tab(target) is Some {
            PreviewModel::TabSurface { target }
        } else {
            PreviewModel::Empty {
                message: match target {
                    TargetModel::Workspace { .. } => WORKSPACE_UNAVAILABLE@,
                    TargetModel::Tab { .. } => TAB_UNAVAILABLE@,
                    TargetModel::Directory { .. } => Seq::<char>::empty(),
                },
            }
        }
    }

    /// The preview of a directory: the cached one, or a request for it.
    #[verifier::opaque]
    pub open spec fn directory_preview(self, path: Seq<char>) -> PreviewModel {
        if self.switcher.cache.contains_key(path_key(path)) {
            match self.switcher.cache[path_key(path)] {
                PreviewStateModel::Ready(preview) => PreviewModel::Directory {
                    shown_path: path,
                    entries: preview.entries,
                    truncated: preview.truncated,
                },
                PreviewStateModel::Error => PreviewModel::DirectoryError { shown_path: path },
                PreviewStateModel::Loading => PreviewModel::DirectoryLoading { shown_path: path },
            }
        } else {
            PreviewModel::DirectoryLoading { shown_path: path }
        }
    }

    /// The state in which the preview of a directory was asked for: one that is not cached is
    /// requested.
    #[verifier::opaque]
    pub open spec fn with_preview_request(self, path: Seq<char>) -> AppModel {
        if self.switcher.cache.contains_key(path_key(path)) {
            self
        } else {
            self.requesting(path)
        }
    }

    /// The state with the preview of `path` requested.
    pub open spec fn requesting(self, path: Seq<char>) -> AppModel {
        self.with_switcher(SwitcherModel { preview_request: Some(path), ..self.switcher })
    }

    /// The state with the preview of a row of the given kind and target.
    pub open spec fn showing_target(self, is_directory: bool, target: TargetModel) -> AppModel {
        if !is_directory {
            self.showing(self.target_preview(target))
        } else {
            match target {
                TargetModel::Directory { shown_path, canonical_path } =>
                    self.with_preview_request(shown_path).showing(
                    self.directory_preview(shown_path),
                ),
                _ => self,
            }
        }
    }

    /// The preview that goes before that of any row: a directory that is being opened, then an
    /// error.
    pub open spec fn urgent_preview(self) -> Option<PreviewModel> {
        match self.switcher.pending {
            Some(pending) => Some(PreviewModel::Opening { shown_path: pending.shown_path }),
            None => match self.switcher.search_error {
                Some(error) => Some(PreviewModel::Empty { message: error }),
                None => None,
            },
        }
    }

    /// The state with the preview of the selected row: a directory that is being opened first,
    /// then an error, then the row.
    #[verifier::opaque]
    pub open spec fn with_preview(self, runtimes: RegistryModel) -> AppModel {
        let rows = self.switcher_rows(runtimes);
        if self.urgent_preview() is Some {
            self.showing(self.urgent_preview()->0)
        } else if self.switcher.selected >= rows.len() {
            self.showing(
                PreviewModel::Empty {
                    message: if self.workspaces.len() == 0 {
                        NO_WORKSPACES@
                    } else {
                        NO_MATCHING_WORKSPACES@
                    },
                },
            )
        } else {
            let row = rows[self.switcher.selected as int];
            self.showing_target(row.is_directory, row.target)
        }
    }

    pub open spec fn showing(self, preview: PreviewModel) -> AppModel {
        self.with_switcher(SwitcherModel { preview, ..self.switcher })
    }

    /// The state settled on its selection: scrolled to it, with its preview and target.
    #[verifier::opaque]
    pub open spec fn settled(self, runtimes: RegistryModel) -> AppModel {
        self.scrolled_to_selection(runtimes).with_preview(runtimes).with_target(runtimes)
    }

    /// The state with the selection brought into the list.
    #[verifier::opaque]
    pub open spec fn clamped_selection(self, runtimes: RegistryModel) -> AppModel {
        let count = self.switcher_rows(runtimes).len() as int;
        self.with_selected(
            clamped(self.switcher.selected as int, crate::geometry::minus(count, 1)) as usize,
        ).settled(runtimes)
    }

    /// The state of an empty list.
    #[verifier::opaque]
    pub open spec fn at_nothing(self, runtimes: RegistryModel) -> AppModel {
        self.with_selected(0).with_scroll(0).with_preview(runtimes)
    }

    /// The state with the selection moved by `delta` rows, stopping at the ends.
    #[verifier::opaque]
    pub open spec fn moved_selection(self, runtimes: RegistryModel, delta: int) -> AppModel {
        let count = self.switcher_rows(runtimes).len() as int;
        if count == 0 {
            self.at_nothing(runtimes)
        } else {
            let current = clamped(self.switcher.selected as int, count - 1);
            self.with_selected(clamped(current + delta, count - 1) as usize).settled(runtimes)
        }
    }

    /// The state with the selection cycled by `delta` workspaces.
    #[verifier::opaque]
    pub open spec fn cycled_selection(self, runtimes: RegistryModel, delta: int) -> AppModel {
        let rows = self.switcher_rows(runtimes);
        if workspace_positions(rows, rows.len()).len() == 0 {
            self.at_nothing(runtimes)
        } else {
            self.with_selected(cycled_row(rows, self.switcher.selected, delta)).settled(runtimes)
        }
    }

    /// The workspace of the selected row, unless that is a directory.
    #[verifier::opaque]
    pub open spec fn selected_workspace(self, runtimes: RegistryModel) -> Option<usize> {
        let rows = self.switcher_rows(runtimes);
        if self.switcher.selected < rows.len()
            && !rows[self.switcher.selected as int].is_directory {
            Some(rows[self.switcher.selected as int].ws_idx)
        } else {
            None
        }
    }

    /// The state with the selected workspace expanded.
    #[verifier::opaque]
    pub open spec fn expanded_selection(self, runtimes: RegistryModel) -> AppModel {
        match self.selected_workspace(runtimes) {
            Some(i) => if i < self.workspaces.len() {
                self.with_expanded(
                    self.switcher.expanded.insert(self.workspaces[i as int].id),
                ).clamped_selection(runtimes)
            } else {
                self
            },
            None => self,
        }
    }

    /// The state with the workspace of the selected row collapsed and selected.
    #[verifier::opaque]
    pub open spec fn collapsed_selection(self, runtimes: RegistryModel) -> AppModel {
        match self.ws_idx_at_selection(runtimes) {
            Some(i) => if i < self.workspaces.len() {
                let s = self.with_expanded(
                    self.switcher.expanded.remove(self.workspaces[i as int].id),
                );
                s.with_selected(s.row_of_workspace(runtimes, i)).settled(runtimes)
            } else {
                self
            },
            None => self,
        }
    }

    /// The workspace that the selected row belongs to.
    pub open spec fn ws_idx_at_selection(self, runtimes: RegistryModel) -> Option<usize> {
        let rows = self.switcher_rows(runtimes);
        if self.switcher.selected < rows.len() {
            Some(rows[self.switcher.selected as int].ws_idx)
        } else {
            None
        }
    }

    /// The row of workspace `i`, or the first row where there is none.
    pub open spec fn row_of_workspace(self, runtimes: RegistryModel, i: usize) -> usize {
        or_zero(
            row_position(
                self.switcher_rows(runtimes),
                |row: RowModel| row.ws_idx == i && !row.is_tab,
                0,
            ),
        ) as usize
    }

    /// The state with the selection on the row that has the selected target now, with its line
    /// in the window kept as far as it can be; where no row has it, with the selection brought
    /// into the list.
    #[verifier::opaque]
    pub open spec fn reanchored(self, runtimes: RegistryModel) -> AppModel {
        if !self.switcher.active {
            self
        } else {
            let rows = self.switcher_rows(runtimes);
            let position = match self.switcher.selected_target {
                Some(target) => row_position(
                    rows,
                    |row: RowModel| same_target(row.target, target),
                    0,
                ),
                None => None,
            };
            match position {
                Some(p) => {
                    let scroll = self.row_layout(runtimes).scroll_to_preserve_offset(
                        p,
                        self.switcher.viewport_offset as int,
                        self.switcher.scroll as int,
                    );
                    self.with_selected(p as usize).with_scroll(scroll as usize).with_preview(
                        runtimes,
                    ).with_target(runtimes)
                },
                None => self.clamped_selection(runtimes),
            }
        }
    }
}

impl AppModel {
    /// The row under the cell at (`col`, `row`).
    #[verifier::opaque]
    pub open spec fn row_at(self, runtimes: RegistryModel, col: u16, row: u16) -> Option<int> {
        let body = self.switcher_body();
        if covers(body, col as int, row as int) {
            self.row_layout(runtimes).row_at_physical(
                row - body.y,
                self.switcher.scroll as int,
            )
        } else {
            None
        }
    }
}

} // verus!
