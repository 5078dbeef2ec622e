//! Opening, searching, accepting and closing the workspace switcher, and the results of the
//! search provider.

use vstd::prelude::*;
use vstd::string::*;
use crate::collections::{path_key, CacheModel};
use crate::navigation::{lemma_limits_kept, tab_in_workspaces, workspace_from};
use crate::provider::{
    CandidateModel, DirectoryPreview, DirectoryPreviewModel, DirectoryPreviewState,
    PreviewStateModel, SearchProviderCandidate, SearchProviderStatus,
};
use crate::rows::{RowModel, TargetModel, WorkspaceSwitcherTarget};
use crate::state::{
    AppModel, AppState, CanonicalModel, Mode, PendingDirectoryAccept, PendingModel, SwitcherModel,
    WorkspaceSwitcherMode, WorkspaceSwitcherState,
};
use crate::switcher::find_row_of_other_workspace;
use crate::switcher_model::{or_zero, row_position};
use crate::terminal::{PaneId, RegistryModel, TerminalRuntimeRegistry};
use crate::text::{append_printable, without_controls};
use crate::views::{option_view, views};

verus! {

// ---------------------------------------------------------------------------
// Sessions
// ---------------------------------------------------------------------------

/// The number behind `n`, zero behind the largest.
pub open spec fn next_generation(n: u64) -> u64 {
    if n == u64::MAX {
        0
    } else {
        (n + 1) as u64
    }
}

impl SwitcherModel {
    /// The switcher without anything of a search session.
    pub open spec fn provider_reset(self) -> SwitcherModel {
        SwitcherModel {
            status: SearchProviderStatus::Idle,
            candidates: Seq::<CandidateModel>::empty(),
            cache: CacheModel::empty(),
            preview_request: None,
            pending: None,
            pending_rendered: false,
            search_error: None,
            snapshot: Seq::<CanonicalModel>::empty(),
            needs_provider_refresh: false,
            needs_preview_refresh: None,
            ..self
        }
    }
}

impl AppModel {
    /// The state with the switcher on the screen for quick switching, before a row is selected.
    pub open spec fn switcher_shown(self) -> AppModel {
        self.with_switcher(
            SwitcherModel {
                mode: WorkspaceSwitcherMode::QuickSwitch,
                query: Seq::<char>::empty(),
                scroll: 0,
                expanded: Set::<Seq<char>>::empty(),
                active: true,
                branch_refresh_requested: true,
                ..self.switcher
            },
        )
    }

    /// The row that is selected when the switcher opens: the first workspace that is not the
    /// active one.
    pub open spec fn opening_row(self, runtimes: RegistryModel) -> usize {
        match self.active {
            Some(active) => or_zero(
                row_position(
                    self.switcher_rows(runtimes),
                    |row: RowModel| row.ws_idx != active && !row.is_tab,
                    0,
                ),
            ) as usize,
            None => 0,
        }
    }

    /// The state with the switcher open.
    #[verifier::opaque]
    pub open spec fn switcher_opened(self, runtimes: RegistryModel) -> AppModel {
        let s = self.switcher_shown();
        s.with_selected(s.opening_row(runtimes)).settled(runtimes)
    }

    /// The state at the start of a search session, before a row is selected.
    pub open spec fn search_started(self) -> AppModel {
        self.with_switcher(
            SwitcherModel {
                mode: WorkspaceSwitcherMode::Search,
                query: Seq::<char>::empty(),
                expanded: Set::<Seq<char>>::empty(),
                generation: next_generation(self.switcher.generation),
                search_started: true,
                selected: 0,
                scroll: 0,
                ..self.switcher.provider_reset()
            },
        )
    }

    /// The state in a new search session.
    #[verifier::opaque]
    pub open spec fn search_entered(self, runtimes: RegistryModel) -> AppModel {
        self.search_started().clamped_selection(runtimes)
    }

    /// The state with the search session over, before the selection is brought into the list.
    pub open spec fn search_ended(self) -> AppModel {
        self.with_switcher(
            SwitcherModel {
                mode: WorkspaceSwitcherMode::QuickSwitch,
                query: Seq::<char>::empty(),
                ..self.switcher.provider_reset()
            },
        )
    }

    /// The state back in quick switching.
    #[verifier::opaque]
    pub open spec fn search_left(self, runtimes: RegistryModel) -> AppModel {
        self.search_ended().clamped_selection(runtimes)
    }

    /// The state with the switcher closed.
    #[verifier::opaque]
    pub open spec fn switcher_closed(self) -> AppModel {
        AppModel {
            switcher: SwitcherModel {
                active: false,
                selected_target: None,
                branch_refresh_requested: false,
                ..self.switcher.provider_reset()
            },
            mode: if self.active is Some {
                Mode::Terminal
            } else {
                Mode::Navigate
            },
            ..self
        }
    }

    /// The state with `text` put behind the query, without its control characters.
    pub open spec fn with_pasted(self, text: Seq<char>) -> AppModel {
        self.with_switcher(
            SwitcherModel {
                query: self.switcher.query + without_controls(text),
                selected: 0,
                scroll: 0,
                ..self.switcher
            },
        )
    }

    /// Whether a paste goes into the query.
    pub open spec fn takes_paste(self) -> bool {
        self.switcher.active && self.switcher.mode == WorkspaceSwitcherMode::Search
    }

    /// The state after a paste.
    #[verifier::opaque]
    pub open spec fn query_pasted(self, runtimes: RegistryModel, text: Seq<char>) -> AppModel {
        if self.takes_paste() {
            self.with_pasted(text).settled(runtimes)
        } else {
            self
        }
    }
}

impl AppState {
    fn show_switcher(&mut self)
        ensures
            final(self)@ == old(self)@.switcher_shown(),
            old(self)@.within_limits() ==> final(self)@.within_limits(),
    {
        self.workspace_switcher.mode = WorkspaceSwitcherMode::QuickSwitch;
        self.workspace_switcher.query.clear();
        self.workspace_switcher.scroll = 0;
        self.workspace_switcher.expanded_workspaces.clear();
        self.workspace_switcher.active = true;
        self.workspace_switcher.branch_refresh_requested = true;
        proof {
            lemma_limits_kept(old(self)@, self@);
        }
    }

    fn opening_switcher_row(&self, terminal_runtimes: &TerminalRuntimeRegistry) -> (r: usize)
        ensures
            r == self@.opening_row(terminal_runtimes@),
    {
        match self.active {
            Some(active) => {
                let rows = self.workspace_switcher_rows_from(terminal_runtimes);
                match find_row_of_other_workspace(&rows, active) {
                    Some(i) => i,
                    None => 0,
                }
            },
            None => 0,
        }
    }

    /// Opens the switcher for quick switching, on the first workspace that is not the active one.
    pub fn open_workspace_switcher_from(&mut self, terminal_runtimes: &TerminalRuntimeRegistry)
        requires
            old(self)@.within_limits(),
        ensures
            final(self)@ == old(self)@.switcher_opened(terminal_runtimes@),
            final(self)@.within_limits(),
    {
        proof {
            reveal(AppModel::switcher_opened);
        }
        self.show_switcher();
        let row: usize = self.opening_switcher_row(terminal_runtimes);
        self.select_switcher_row(row);
        self.settle_switcher_selection(terminal_runtimes);
    }

    /// Opens the switcher without any terminal.
    pub fn open_workspace_switcher(&mut self)
        requires
            old(self)@.within_limits(),
        ensures
            final(self)@ == old(self)@.switcher_opened(RegistryModel::empty()),
            final(self)@.within_limits(),
    {
        self.open_workspace_switcher_from(&TerminalRuntimeRegistry::new());
    }

    /// Forgets everything of a search session.
    pub fn reset_search_provider_state(&mut self)
        ensures
            final(self)@ == old(self)@.with_switcher(old(self)@.switcher.provider_reset()),
            old(self)@.within_limits() ==> final(self)@.within_limits(),
    {
        self.workspace_switcher.provider_status = SearchProviderStatus::Idle;
        self.workspace_switcher.provider_candidates.clear();
        self.workspace_switcher.directory_preview_cache.clear();
        self.workspace_switcher.preview_request = None;
        self.workspace_switcher.pending_directory = None;
        self.workspace_switcher.pending_directory_rendered = false;
        self.workspace_switcher.search_error = None;
        self.workspace_switcher.workspace_canonical_snapshot.clear();
        self.workspace_switcher.needs_provider_refresh = false;
        self.workspace_switcher.needs_preview_refresh = None;
        proof {
            assert(self@.switcher.candidates =~= Seq::<CandidateModel>::empty());
            assert(self@.switcher.snapshot =~= Seq::<CanonicalModel>::empty());
            lemma_limits_kept(old(self)@, self@);
        }
    }

    fn start_switcher_search(&mut self)
        ensures
            final(self)@ == old(self)@.search_started(),
            old(self)@.within_limits() ==> final(self)@.within_limits(),
    {
        self.reset_search_provider_state();
        let ghost reset = self@;
        self.workspace_switcher.mode = WorkspaceSwitcherMode::Search;
        self.workspace_switcher.query.clear();
        self.workspace_switcher.expanded_workspaces.clear();
        self.workspace_switcher.search_generation =
        self.workspace_switcher.search_generation.wrapping_add(1);
        self.workspace_switcher.search_started = true;
        self.workspace_switcher.selected = 0;
        self.workspace_switcher.scroll = 0;
        proof {
            lemma_limits_kept(reset, self@);
        }
    }

    /// Starts a search session.
    pub fn enter_workspace_switcher_search_from(
        &mut self,
        terminal_runtimes: &TerminalRuntimeRegistry,
    )
        requires
            old(self)@.within_limits(),
        ensures
            final(self)@ == old(self)@.search_entered(terminal_runtimes@),
            final(self)@.within_limits(),
    {
        proof {
            reveal(AppModel::search_entered);
        }
        self.start_switcher_search();
        self.clamp_workspace_switcher_selection_from(terminal_runtimes);
    }

    fn end_switcher_search(&mut self)
        ensures
            final(self)@ == old(self)@.search_ended(),
            old(self)@.within_limits() ==> final(self)@.within_limits(),
    {
        self.reset_search_provider_state();
        let ghost reset = self@;
        self.workspace_switcher.mode = WorkspaceSwitcherMode::QuickSwitch;
        self.workspace_switcher.query.clear();
        proof {
            lemma_limits_kept(reset, self@);
        }
    }

    /// Goes back from a search session to quick switching.
    pub fn leave_workspace_switcher_search_from(
        &mut self,
        terminal_runtimes: &TerminalRuntimeRegistry,
    )
        requires
            old(self)@.within_limits(),
        ensures
            final(self)@ == old(self)@.search_left(terminal_runtimes@),
            final(self)@.within_limits(),
    {
        proof {
            reveal(AppModel::search_left);
        }
        self.end_switcher_search();
        self.clamp_workspace_switcher_selection_from(terminal_runtimes);
    }

    fn paste_into_switcher_query(&mut self, text: &str)
        ensures
            final(self)@ == old(self)@.with_pasted(text@),
            old(self)@.within_limits() ==> final(self)@.within_limits(),
    {
        append_printable(&mut self.workspace_switcher.query, text);
        self.workspace_switcher.selected = 0;
        self.workspace_switcher.scroll = 0;
        proof {
            lemma_limits_kept(old(self)@, self@);
        }
    }
}

/// Closes the switcher. The terminal gets the keyboard where a workspace is active.
pub fn close_workspace_switcher(state: &mut AppState)
    ensures
        final(state)@ == old(state)@.switcher_closed(),
        old(state)@.within_limits() ==> final(state)@.within_limits(),
{
    proof {
        reveal(AppModel::switcher_closed);
    }
    state.reset_search_provider_state();
    let ghost reset = state@;
    state.workspace_switcher.active = false;
    state.workspace_switcher.selected_target = None;
    state.workspace_switcher.branch_refresh_requested = false;
    state.mode = if state.active.is_some() { Mode::Terminal } else { Mode::Navigate };
    proof {
        lemma_limits_kept(reset, state@);
    }
}

/// Puts `text` behind the query of a search and starts again at the first row. Outside of a
/// search nothing happens, and the result is `false`.
pub fn paste_workspace_switcher_query(
    state: &mut AppState,
    terminal_runtimes: &TerminalRuntimeRegistry,
    text: &str,
) -> (b: bool)
    requires
        old(state)@.within_limits(),
    ensures
        b == old(state)@.takes_paste(),
        final(state)@ == old(state)@.query_pasted(terminal_runtimes@, text@),
        final(state)@.within_limits(),
{
    proof {
        reveal(AppModel::query_pasted);
    }
    if !state.workspace_switcher.active || !state.workspace_switcher.mode.search_visible() {
        return false;
    }
    state.paste_into_switcher_query(text);
    state.settle_switcher_selection(terminal_runtimes);
    true
}

// ---------------------------------------------------------------------------
// Acceptance
// ---------------------------------------------------------------------------

impl AppModel {
    /// The state with the switcher gone and the terminal in charge of the keyboard.
    pub open spec fn switcher_done(self) -> AppModel {
        AppModel {
            switcher: SwitcherModel { active: false, ..self.switcher },
            mode: Mode::Terminal,
            ..self
        }
    }

    /// Whether the workspace or tab `target` can be focused.
    pub open spec fn can_focus(self, target: TargetModel) -> bool {
        match target {
            TargetModel::Workspace { workspace_id } => workspace_from(
                self.workspaces,
                workspace_id,
                0,
            ) is Some,
            TargetModel::Tab { tab_id } => tab_in_workspaces(self.workspaces, tab_id, 0) is Some,
            TargetModel::Directory { .. } => false,
        }
    }

    /// The state with the workspace or tab `target` focused.
    #[verifier::opaque]
    pub open spec fn focused_target(self, target: TargetModel) -> AppModel {
        if !self.can_focus(target) {
            self
        } else {
            match target {
                TargetModel::Workspace { workspace_id } => self.switched(
                    workspace_from(self.workspaces, workspace_id, 0)->0,
                ).switcher_done(),
                TargetModel::Tab { tab_id } => {
                    let at = tab_in_workspaces(self.workspaces, tab_id, 0)->0;
                    self.switched_tab(at.0, at.1).switcher_done()
                },
                TargetModel::Directory { .. } => self,
            }
        }
    }

    /// The state with a directory accepted, before its preview is shown.
    pub open spec fn with_pending(self, pending: PendingModel) -> AppModel {
        self.with_switcher(
            SwitcherModel {
                pending: Some(pending),
                pending_rendered: false,
                search_error: None,
                ..self.switcher
            },
        )
    }

    /// The state with a directory accepted.
    #[verifier::opaque]
    pub open spec fn accepted_directory(
        self,
        runtimes: RegistryModel,
        pending: PendingModel,
    ) -> AppModel {
        self.with_pending(pending).with_preview(runtimes)
    }

    /// What an acceptance acts on: the recorded target, else that of the selected row.
    pub open spec fn acceptance_target(self, runtimes: RegistryModel) -> Option<TargetModel> {
        match self.switcher.selected_target {
            Some(target) => Some(target),
            None => self.target_at_selection(runtimes),
        }
    }

    /// Whether an acceptance succeeds. While a directory is being opened none does.
    #[verifier::opaque]
    pub open spec fn accepts(self, runtimes: RegistryModel) -> bool {
        self.switcher.pending is None && match self.acceptance_target(runtimes) {
            Some(target) => match target {
                TargetModel::Directory { .. } => true,
                _ => self.can_focus(target),
            },
            None => false,
        }
    }

    /// The state after an acceptance: a directory is recorded to be opened, a workspace or tab
    /// is focused.
    #[verifier::opaque]
    pub open spec fn accepted(self, runtimes: RegistryModel) -> AppModel {
        if self.switcher.pending is Some {
            self
        } else {
            match self.acceptance_target(runtimes) {
                Some(target) => match target {
                    TargetModel::Directory { shown_path, canonical_path } =>
                        self.accepted_directory(
                        runtimes,
                        PendingModel { shown_path, canonical_path },
                    ),
                    _ => self.focused_target(target),
                },
                None => self,
            }
        }
    }
}

impl AppState {
    fn finish_switcher(&mut self)
        ensures
            final(self)@ == old(self)@.switcher_done(),
            old(self)@.within_limits() ==> final(self)@.within_limits(),
    {
        self.workspace_switcher.active = false;
        self.mode = Mode::Terminal;
        proof {
            lemma_limits_kept(old(self)@, self@);
        }
    }

    /// Focuses the workspace or tab `target`, and returns whether it is there.
    pub fn focus_workspace_switcher_target(&mut self, target: &WorkspaceSwitcherTarget) -> (b: bool)
        ensures
            b == old(self)@.can_focus(target@),
            final(self)@ == old(self)@.focused_target(target@),
            b ==> !final(self)@.switcher.active,
            !b ==> final(self)@ == old(self)@,
    {
        proof {
            reveal(AppModel::focused_target);
        }
        match target {
            WorkspaceSwitcherTarget::Workspace { workspace_id } => match self.workspace_index(
                workspace_id,
            ) {
                Some(i) => {
                    self.switch_workspace(i);
                    self.finish_switcher();
                    true
                },
                None => false,
            },
            WorkspaceSwitcherTarget::Tab { tab_id } => match self.tab_index(tab_id) {
                Some((ws_idx, tab_idx)) => {
                    let found = self.switch_workspace_tab(ws_idx, tab_idx);
                    self.finish_switcher();
                    found
                },
                None => false,
            },
            WorkspaceSwitcherTarget::Directory { .. } => false,
        }
    }

    fn record_pending_directory(&mut self, shown_path: String, canonical_path: String)
        ensures
            final(self)@ == old(self)@.with_pending(
                PendingModel { shown_path: shown_path@, canonical_path: canonical_path@ },
            ),
            old(self)@.within_limits() ==> final(self)@.within_limits(),
    {
        self.workspace_switcher.pending_directory = Some(
            PendingDirectoryAccept { shown_path, canonical_path },
        );
        self.workspace_switcher.pending_directory_rendered = false;
        self.workspace_switcher.search_error = None;
        proof {
            lemma_limits_kept(old(self)@, self@);
        }
    }

    /// Records a directory to be opened.
    pub fn accept_directory_from(
        &mut self,
        terminal_runtimes: &TerminalRuntimeRegistry,
        shown_path: String,
        canonical_path: String,
    ) -> (b: bool)
        ensures
            b,
            final(self)@ == old(self)@.accepted_directory(
                terminal_runtimes@,
                PendingModel { shown_path: shown_path@, canonical_path: canonical_path@ },
            ),
            old(self)@.within_limits() ==> final(self)@.within_limits(),
    {
        proof {
            reveal(AppModel::accepted_directory);
        }
        self.record_pending_directory(shown_path, canonical_path);
        self.refresh_workspace_switcher_preview_from(terminal_runtimes);
        true
    }

    fn switcher_acceptance_target(&self, terminal_runtimes: &TerminalRuntimeRegistry) -> (r: Option<
        WorkspaceSwitcherTarget,
    >)
        ensures
            option_view(r) == self@.acceptance_target(terminal_runtimes@),
    {
        proof {
            reveal(AppModel::target_at_selection);
        }
        match &self.workspace_switcher.selected_target {
            Some(target) => Some(target.clone()),
            None => match self.selected_switcher_row(terminal_runtimes) {
                Some((_, target)) => Some(target),
                None => None,
            },
        }
    }

    /// Accepts the selection: focuses a workspace or tab, or records a directory to be opened.
    /// Returns whether there was something to accept.
    pub fn accept_workspace_switcher_selection_from(
        &mut self,
        terminal_runtimes: &TerminalRuntimeRegistry,
    ) -> (b: bool)
        ensures
            b == old(self)@.accepts(terminal_runtimes@),
            final(self)@ == old(self)@.accepted(terminal_runtimes@),
            old(self)@.within_limits() && final(self)@.switcher.active
                ==> final(self)@.within_limits(),
    {
        proof {
            reveal(AppModel::accepts);
            reveal(AppModel::accepted);
        }
        if self.workspace_switcher.pending_directory.is_some() {
            return false;
        }
        match self.switcher_acceptance_target(terminal_runtimes) {
            Some(target) => match target {
                WorkspaceSwitcherTarget::Directory { shown_path, canonical_path } =>
                    self.accept_directory_from(terminal_runtimes, shown_path, canonical_path),
                WorkspaceSwitcherTarget::Workspace { workspace_id } =>
                    self.focus_workspace_switcher_target(
                    &WorkspaceSwitcherTarget::Workspace { workspace_id },
                ),
                WorkspaceSwitcherTarget::Tab { tab_id } => self.focus_workspace_switcher_target(
                    &WorkspaceSwitcherTarget::Tab { tab_id },
                ),
            },
            None => false,
        }
    }
}

// ---------------------------------------------------------------------------
// Preview
// ---------------------------------------------------------------------------

impl AppModel {
    /// The workspace and tab whose surface the preview shows.
    pub open spec fn preview_tab(self) -> Option<(usize, usize)> {
        if !self.switcher.active {
            None
        } else {
            match self.switcher.preview {
                crate::state::PreviewModel::TabSurface { target } => self.target_tab(target),
                _ => None,
            }
        }
    }

    /// Whether the preview shows pane `pane_id`.
    pub open spec fn previews_pane(self, pane_id: PaneId) -> bool {
        match self.preview_tab() {
            Some((ws_idx, tab_idx)) => self.has_tab(ws_idx, tab_idx)
                && self.workspaces[ws_idx as int].tabs[tab_idx as int].panes.contains(pane_id),
            None => false,
        }
    }
}

impl AppState {
    /// The workspace and tab whose surface the preview shows.
    pub fn workspace_switcher_preview_tab_indices(&self) -> (r: Option<(usize, usize)>)
        ensures
            r == self@.preview_tab(),
    {
        if !self.workspace_switcher.active {
            return None;
        }
        match &self.workspace_switcher.preview {
            crate::state::WorkspaceSwitcherPreview::TabSurface { target } =>
                self.workspace_switcher_target_tab_indices(target),
            _ => None,
        }
    }

    /// Tests whether the preview shows pane `pane_id`.
    pub fn workspace_switcher_preview_contains_pane(&self, pane_id: PaneId) -> (b: bool)
        ensures
            b == self@.previews_pane(pane_id),
    {
        match self.workspace_switcher_preview_tab_indices() {
            Some((ws_idx, tab_idx)) => self.tab_surface_contains_pane(ws_idx, tab_idx, pane_id),
            None => false,
        }
    }
}

// ---------------------------------------------------------------------------
// Results of the search provider
// ---------------------------------------------------------------------------

/// News of background work for a search session.
#[derive(Debug)]
pub enum AppEvent {
    ZoxideQueryStarted { generation: u64 },
    ZoxideQueryCompleted {
        generation: u64,
        available: bool,
        candidates: Vec<SearchProviderCandidate>,
    },
    /// A directory was read, or could not be.
    DirectoryPreviewCompleted {
        generation: u64,
        shown_path: String,
        result: Option<DirectoryPreview>,
    },
}

/// The view of an [`AppEvent`].
pub enum AppEventModel {
    ZoxideQueryStarted { generation: u64 },
    ZoxideQueryCompleted { generation: u64, available: bool, candidates: Seq<CandidateModel> },
    DirectoryPreviewCompleted {
        generation: u64,
        shown_path: Seq<char>,
        result: Option<DirectoryPreviewModel>,
    },
}

impl View for AppEvent {
    type V = AppEventModel;

    open spec fn view(&self) -> AppEventModel {
        match *self {
            AppEvent::ZoxideQueryStarted { generation } => AppEventModel::ZoxideQueryStarted {
                generation,
            },
            AppEvent::ZoxideQueryCompleted { generation, available, candidates } =>
                AppEventModel::ZoxideQueryCompleted {
                generation,
                available,
                candidates: views(candidates@),
            },
            AppEvent::DirectoryPreviewCompleted { generation, shown_path, result } =>
                AppEventModel::DirectoryPreviewCompleted {
                generation,
                shown_path: shown_path@,
                result: option_view(result),
            },
        }
    }
}

impl AppEventModel {
    /// The search session that the event belongs to.
    pub open spec fn generation(self) -> u64 {
        match self {
            AppEventModel::ZoxideQueryStarted { generation } => generation,
            AppEventModel::ZoxideQueryCompleted { generation, .. } => generation,
            AppEventModel::DirectoryPreviewCompleted { generation, .. } => generation,
        }
    }
}

impl SwitcherModel {
    /// The switcher after an event. Events of another session than the current one are discarded.
    pub open spec fn after_event(self, event: AppEventModel) -> SwitcherModel {
        if event.generation() != self.generation {
            self
        } else {
            match event {
                AppEventModel::ZoxideQueryStarted { .. } => SwitcherModel {
                    status: SearchProviderStatus::Loading,
                    ..self
                },
                AppEventModel::ZoxideQueryCompleted { available, candidates, .. } => SwitcherModel {
                    status: if available {
                        SearchProviderStatus::Ready
                    } else {
                        SearchProviderStatus::Unavailable
                    },
                    candidates: if available {
                        candidates
                    } else {
                        Seq::<CandidateModel>::empty()
                    },
                    needs_provider_refresh: true,
                    ..self
                },
                AppEventModel::DirectoryPreviewCompleted { shown_path, result, .. } =>
                    SwitcherModel {
                    cache: self.cache.insert(
                        path_key(shown_path),
                        match result {
                            Some(preview) => PreviewStateModel::Ready(preview),
                            None => PreviewStateModel::Error,
                        },
                    ),
                    needs_preview_refresh: Some(shown_path),
                    ..self
                },
            }
        }
    }
}

impl WorkspaceSwitcherState {
    fn take_event(&mut self, event: AppEvent)
        ensures
            final(self)@ == old(self)@.after_event(event@),
    {
        match event {
            AppEvent::ZoxideQueryStarted { generation } => {
                if generation == self.search_generation {
                    self.provider_status = SearchProviderStatus::Loading;
                }
            },
            AppEvent::ZoxideQueryCompleted { generation, available, candidates } => {
                if generation == self.search_generation {
                    let status = if available {
                        SearchProviderStatus::Ready
                    } else {
                        SearchProviderStatus::Unavailable
                    };
                    let kept = if available { candidates } else { Vec::new() };
                    proof {
                        if !available {
                            assert(views(kept@) =~= Seq::<CandidateModel>::empty());
                        }
                    }
                    self.provider_status = status;
                    self.provider_candidates = kept;
                    self.needs_provider_refresh = true;
                }
            },
            AppEvent::DirectoryPreviewCompleted { generation, shown_path, result } => {
                if generation == self.search_generation {
                    let state = match result {
                        Some(preview) => DirectoryPreviewState::Ready(preview),
                        None => DirectoryPreviewState::Error,
                    };
                    self.directory_preview_cache.insert(shown_path.clone(), state);
                    self.needs_preview_refresh = Some(shown_path);
                }
            },
        }
    }
}

impl AppState {
    /// Takes in news of background work. News of an earlier search session is discarded.
    pub fn handle_app_event(&mut self, event: AppEvent)
        ensures
            final(self)@ == old(self)@.with_switcher(old(self)@.switcher.after_event(event@)),
    {
        self.workspace_switcher.take_event(event);
    }
}

} // verus!
