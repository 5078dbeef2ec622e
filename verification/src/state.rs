//! The state of the application as far as workspace navigation reads or changes it.

use vstd::prelude::*;
use vstd::string::*;
use crate::collections::{CacheModel, NameSet, PreviewCache};
use crate::copy_mode::{
    CopyModeModel, CopyModeState, ForkFeatureState, ForkModel, PaneInfo, SelectionState,
};
use crate::geometry::{empty_rect, Rect, ViewLayout, ViewState};
use crate::input::{CycleKeybinds, CycleModel};
use crate::paths::{HomeDirectory, HomeModel};
use crate::provider::{
    CandidateModel, DirectoryPreviewEntry, EntryModel, SearchProviderCandidate,
    SearchProviderStatus,
};
use crate::rows::{TargetModel, WorkspaceSwitcherTarget};
use crate::style::Palette;
use crate::terminal::PaneId;
use crate::views::{lemma_views_empty, option_view, views};
use crate::workspace::{Workspace, WorkspaceModel};

verus! {

/// What the keyboard acts on.
#[derive(Debug, Clone, Copy, PartialEq, Eq, Structural)]
pub enum Mode {
    Terminal,
    Navigate,
    WorkspacePicker,
}

// ---------------------------------------------------------------------------
// Switcher state
// ---------------------------------------------------------------------------

/// Whether the switcher cycles through workspaces or searches.
#[derive(Debug, Clone, Copy, PartialEq, Eq, Structural)]
pub enum WorkspaceSwitcherMode {
    QuickSwitch,
    Search,
}

impl WorkspaceSwitcherMode {
    /// Whether the search field is shown.
    pub open spec fn searches(self) -> bool {
        self == WorkspaceSwitcherMode::Search
    }

    /// Tests whether the search field is shown.
    pub fn search_visible(self) -> (b: bool)
        ensures
            b == self.searches(),
    {
        match self {
            WorkspaceSwitcherMode::Search => true,
            WorkspaceSwitcherMode::QuickSwitch => false,
        }
    }
}

/// What the preview pane of the switcher shows.
#[derive(Debug, PartialEq)]
pub enum WorkspaceSwitcherPreview {
    Empty { message: String },
    TabSurface { target: WorkspaceSwitcherTarget },
    Directory { shown_path: String, entries: Vec<DirectoryPreviewEntry>, truncated: bool },
    DirectoryLoading { shown_path: String },
    DirectoryError { shown_path: String },
    Opening { shown_path: String },
}

/// The view of a [`WorkspaceSwitcherPreview`].
pub enum PreviewModel {
    Empty { message: Seq<char> },
    TabSurface { target: TargetModel },
    Directory { shown_path: Seq<char>, entries: Seq<EntryModel>, truncated: bool },
    DirectoryLoading { shown_path: Seq<char> },
    DirectoryError { shown_path: Seq<char> },
    Opening { shown_path: Seq<char> },
}

impl View for WorkspaceSwitcherPreview {
    type V = PreviewModel;

    open spec fn view(&self) -> PreviewModel {
        match *self {
            WorkspaceSwitcherPreview::Empty { message } => PreviewModel::Empty {
                message: message@,
            },
            WorkspaceSwitcherPreview::TabSurface { target } => PreviewModel::TabSurface {
                target: target@,
            },
            WorkspaceSwitcherPreview::Directory { shown_path, entries, truncated } =>
                PreviewModel::Directory {
                shown_path: shown_path@,
                entries: views(entries@),
                truncated,
            },
            WorkspaceSwitcherPreview::DirectoryLoading { shown_path } =>
                PreviewModel::DirectoryLoading { shown_path: shown_path@ },
            WorkspaceSwitcherPreview::DirectoryError { shown_path } =>
                PreviewModel::DirectoryError { shown_path: shown_path@ },
            WorkspaceSwitcherPreview::Opening { shown_path } => PreviewModel::Opening {
                shown_path: shown_path@,
            },
        }
    }
}

/// The message of a preview before anything was selected.
pub const SELECT_MESSAGE: &'static str = "select a workspace";

/// A directory that was accepted and is about to be opened.
#[derive(Debug, PartialEq, Eq)]
pub struct PendingDirectoryAccept {
    pub shown_path: String,
    pub canonical_path: String,
}

/// The view of a [`PendingDirectoryAccept`].
pub struct PendingModel {
    pub shown_path: Seq<char>,
    pub canonical_path: Seq<char>,
}

impl View for PendingDirectoryAccept {
    type V = PendingModel;

    open spec fn view(&self) -> PendingModel {
        PendingModel { shown_path: self.shown_path@, canonical_path: self.canonical_path@ }
    }
}

/// The canonical working directory of one workspace.
#[derive(Debug, PartialEq, Eq)]
pub struct WorkspaceCanonicalEntry {
    pub workspace_id: String,
    pub canonical_cwd: String,
}

/// The view of a [`WorkspaceCanonicalEntry`].
pub struct CanonicalModel {
    pub workspace_id: Seq<char>,
    pub canonical_cwd: Seq<char>,
}

impl View for WorkspaceCanonicalEntry {
    type V = CanonicalModel;

    open spec fn view(&self) -> CanonicalModel {
        CanonicalModel { workspace_id: self.workspace_id@, canonical_cwd: self.canonical_cwd@ }
    }
}

/// The state of the workspace switcher.
#[derive(Debug)]
pub struct WorkspaceSwitcherState {
    pub active: bool,
    pub mode: WorkspaceSwitcherMode,
    pub query: String,
    pub selected: usize,
    pub selected_target: Option<WorkspaceSwitcherTarget>,
    pub scroll: usize,
    /// The line of the window on which the selected row stood when it was last settled.
    pub selected_viewport_offset: usize,
    pub preview: WorkspaceSwitcherPreview,
    pub expanded_workspaces: NameSet,
    /// Counts the search sessions; results of earlier sessions are discarded by it.
    pub search_generation: u64,
    pub provider_status: SearchProviderStatus,
    pub provider_candidates: Vec<SearchProviderCandidate>,
    pub directory_preview_cache: PreviewCache,
    /// A directory whose preview is to be loaded.
    pub preview_request: Option<String>,
    /// Set when a search session starts, to have the provider queried.
    pub search_started: bool,
    pub pending_directory: Option<PendingDirectoryAccept>,
    /// Whether the pending directory has been shown on the screen.
    pub pending_directory_rendered: bool,
    pub search_error: Option<String>,
    pub workspace_canonical_snapshot: Vec<WorkspaceCanonicalEntry>,
    /// Set when provider results have changed the rows.
    pub needs_provider_refresh: bool,
    /// Set when the switcher opens, to have Git branches refreshed.
    pub branch_refresh_requested: bool,
    /// A directory whose preview has just been loaded.
    pub needs_preview_refresh: Option<String>,
}

/// The view of a [`WorkspaceSwitcherState`].
pub struct SwitcherModel {
    pub active: bool,
    pub mode: WorkspaceSwitcherMode,
    pub query: Seq<char>,
    pub selected: usize,
    pub selected_target: Option<TargetModel>,
    pub scroll: usize,
    pub viewport_offset: usize,
    pub preview: PreviewModel,
    pub expanded: Set<Seq<char>>,
    pub generation: u64,
    pub status: SearchProviderStatus,
    pub candidates: Seq<CandidateModel>,
    pub cache: CacheModel,
    pub preview_request: Option<Seq<char>>,
    pub search_started: bool,
    pub pending: Option<PendingModel>,
    pub pending_rendered: bool,
    pub search_error: Option<Seq<char>>,
    pub snapshot: Seq<CanonicalModel>,
    pub needs_provider_refresh: bool,
    pub branch_refresh_requested: bool,
    pub needs_preview_refresh: Option<Seq<char>>,
}

impl View for WorkspaceSwitcherState {
    type V = SwitcherModel;

    open spec fn view(&self) -> SwitcherModel {
        SwitcherModel {
            active: self.active,
            mode: self.mode,
            query: self.query@,
            selected: self.selected,
            selected_target: option_view(self.selected_target),
            scroll: self.scroll,
            viewport_offset: self.selected_viewport_offset,
            preview: self.preview@,
            expanded: self.expanded_workspaces@,
            generation: self.search_generation,
            status: self.provider_status,
            candidates: views(self.provider_candidates@),
            cache: self.directory_preview_cache@,
            preview_request: option_view(self.preview_request),
            search_started: self.search_started,
            pending: option_view(self.pending_directory),
            pending_rendered: self.pending_directory_rendered,
            search_error: option_view(self.search_error),
            snapshot: views(self.workspace_canonical_snapshot@),
            needs_provider_refresh: self.needs_provider_refresh,
            branch_refresh_requested: self.branch_refresh_requested,
            needs_preview_refresh: option_view(self.needs_preview_refresh),
        }
    }
}

/// The switcher before it was ever opened.
pub open spec fn idle_switcher() -> SwitcherModel {
    SwitcherModel {
        active: false,
        mode: WorkspaceSwitcherMode::QuickSwitch,
        query: Seq::<char>::empty(),
        selected: 0,
        selected_target: None,
        scroll: 0,
        viewport_offset: 0,
        preview: PreviewModel::Empty { message: SELECT_MESSAGE@ },
        expanded: Set::<Seq<char>>::empty(),
        generation: 0,
        status: SearchProviderStatus::Idle,
        candidates: Seq::<CandidateModel>::empty(),
        cache: CacheModel::empty(),
        preview_request: None,
        search_started: false,
        pending: None,
        pending_rendered: false,
        search_error: None,
        snapshot: Seq::<CanonicalModel>::empty(),
        needs_provider_refresh: false,
        branch_refresh_requested: false,
        needs_preview_refresh: None,
    }
}

impl Default for WorkspaceSwitcherState {
    fn default() -> (r: WorkspaceSwitcherState)
        ensures
            r@ == idle_switcher(),
    {
        let r = WorkspaceSwitcherState {
            active: false,
            mode: WorkspaceSwitcherMode::QuickSwitch,
            query: String::new(),
            selected: 0,
            selected_target: None,
            scroll: 0,
            selected_viewport_offset: 0,
            preview: WorkspaceSwitcherPreview::Empty { message: SELECT_MESSAGE.to_owned() },
            expanded_workspaces: NameSet::new(),
            search_generation: 0,
            provider_status: SearchProviderStatus::Idle,
            provider_candidates: Vec::new(),
            directory_preview_cache: PreviewCache::new(),
            preview_request: None,
            search_started: false,
            pending_directory: None,
            pending_directory_rendered: false,
            search_error: None,
            workspace_canonical_snapshot: Vec::new(),
            needs_provider_refresh: false,
            branch_refresh_requested: false,
            needs_preview_refresh: None,
        };
        proof {
            assert(r@.candidates =~= Seq::<CandidateModel>::empty());
            assert(r@.snapshot =~= Seq::<CanonicalModel>::empty());
        }
        r
    }
}

// ---------------------------------------------------------------------------
// Picker state
// ---------------------------------------------------------------------------

/// Whether the picker searches all workspaces, cycles through recent ones, or searches those.
#[derive(Debug, Clone, Copy, PartialEq, Eq, Structural)]
pub enum WorkspacePickerMode {
    Search,
    QuickSwitch,
    QuickSwitchSearch,
}

impl WorkspacePickerMode {
    /// Whether the search field is shown.
    pub open spec fn searches(self) -> bool {
        self != WorkspacePickerMode::QuickSwitch
    }

    /// Whether workspaces are listed by recency.
    pub open spec fn quick(self) -> bool {
        self != WorkspacePickerMode::Search
    }

    /// Tests whether the search field is shown.
    pub fn search_visible(self) -> (b: bool)
        ensures
            b == self.searches(),
    {
        match self {
            WorkspacePickerMode::Search | WorkspacePickerMode::QuickSwitchSearch => true,
            WorkspacePickerMode::QuickSwitch => false,
        }
    }

    /// Tests whether workspaces are listed by recency.
    pub fn is_quick_switch(self) -> (b: bool)
        ensures
            b == self.quick(),
    {
        match self {
            WorkspacePickerMode::QuickSwitch | WorkspacePickerMode::QuickSwitchSearch => true,
            WorkspacePickerMode::Search => false,
        }
    }
}

/// What the preview pane of the picker shows.
#[derive(Debug, PartialEq)]
pub enum WorkspacePickerPreview {
    Empty { message: String },
    Content { pane_id: PaneId, text: String },
}

/// The view of a [`WorkspacePickerPreview`].
pub enum PickerPreviewModel {
    Empty { message: Seq<char> },
    Content { pane_id: PaneId, text: Seq<char> },
}

impl View for WorkspacePickerPreview {
    type V = PickerPreviewModel;

    open spec fn view(&self) -> PickerPreviewModel {
        match *self {
            WorkspacePickerPreview::Empty { message } => PickerPreviewModel::Empty {
                message: message@,
            },
            WorkspacePickerPreview::Content { pane_id, text } => PickerPreviewModel::Content {
                pane_id,
                text: text@,
            },
        }
    }
}

/// The state of the workspace picker.
#[derive(Debug)]
pub struct WorkspacePickerState {
    pub mode: WorkspacePickerMode,
    pub query: String,
    pub selected: usize,
    pub scroll: usize,
    pub preview: WorkspacePickerPreview,
    pub preview_ws_idx: Option<usize>,
    pub expanded_workspaces: NameSet,
}

/// The view of a [`WorkspacePickerState`].
pub struct PickerModel {
    pub mode: WorkspacePickerMode,
    pub query: Seq<char>,
    pub selected: usize,
    pub scroll: usize,
    pub preview: PickerPreviewModel,
    pub preview_ws_idx: Option<usize>,
    pub expanded: Set<Seq<char>>,
}

impl View for WorkspacePickerState {
    type V = PickerModel;

    open spec fn view(&self) -> PickerModel {
        PickerModel {
            mode: self.mode,
            query: self.query@,
            selected: self.selected,
            scroll: self.scroll,
            preview: self.preview@,
            preview_ws_idx: self.preview_ws_idx,
            expanded: self.expanded_workspaces@,
        }
    }
}

/// The picker before it was ever opened.
pub open spec fn idle_picker() -> PickerModel {
    PickerModel {
        mode: WorkspacePickerMode::Search,
        query: Seq::<char>::empty(),
        selected: 0,
        scroll: 0,
        preview: PickerPreviewModel::Empty { message: SELECT_MESSAGE@ },
        preview_ws_idx: None,
        expanded: Set::<Seq<char>>::empty(),
    }
}

impl Default for WorkspacePickerState {
    fn default() -> (r: WorkspacePickerState)
        ensures
            r@ == idle_picker(),
    {
        WorkspacePickerState {
            mode: WorkspacePickerMode::Search,
            query: String::new(),
            selected: 0,
            scroll: 0,
            preview: WorkspacePickerPreview::Empty { message: SELECT_MESSAGE.to_owned() },
            preview_ws_idx: None,
            expanded_workspaces: NameSet::new(),
        }
    }
}

// ---------------------------------------------------------------------------
// Application state
// ---------------------------------------------------------------------------

/// The key bindings that workspace navigation reads.
#[derive(Debug)]
pub struct Keybinds {
    pub quick_switch_workspace: CycleKeybinds,
    pub workspace_switcher: CycleKeybinds,
}

/// The view of [`Keybinds`].
pub struct KeybindsModel {
    pub quick_switch: CycleModel,
    pub switcher: CycleModel,
}

impl View for Keybinds {
    type V = KeybindsModel;

    open spec fn view(&self) -> KeybindsModel {
        KeybindsModel {
            quick_switch: self.quick_switch_workspace@,
            switcher: self.workspace_switcher@,
        }
    }
}

/// The state of the application.
#[derive(Debug)]
pub struct AppState {
    pub workspaces: Vec<Workspace>,
    /// The ids of workspaces, the most recently used first.
    pub workspace_mru: Vec<String>,
    pub active: Option<usize>,
    pub selected: usize,
    pub mode: Mode,
    pub workspace_switcher: WorkspaceSwitcherState,
    pub workspace_picker: WorkspacePickerState,
    pub view: ViewState,
    pub keybinds: Keybinds,
    pub home: Option<HomeDirectory>,
    pub palette: Palette,
    pub copy_mode: Option<CopyModeState>,
    pub selection: Option<SelectionState>,
    pub fork_features: ForkFeatureState,
    pub pane_infos: Vec<PaneInfo>,
}

/// The view of an [`AppState`].
pub struct AppModel {
    pub workspaces: Seq<WorkspaceModel>,
    pub mru: Seq<Seq<char>>,
    pub active: Option<usize>,
    pub selected: usize,
    pub mode: Mode,
    pub switcher: SwitcherModel,
    pub picker: PickerModel,
    pub view: ViewState,
    pub keybinds: KeybindsModel,
    pub home: Option<HomeModel>,
    pub palette: Palette,
    pub copy_mode: Option<CopyModeModel>,
    pub selection: Option<SelectionState>,
    pub fork: ForkModel,
    pub pane_infos: Seq<PaneInfo>,
}

impl View for AppState {
    type V = AppModel;

    open spec fn view(&self) -> AppModel {
        AppModel {
            workspaces: views(self.workspaces@),
            mru: views(self.workspace_mru@),
            active: self.active,
            selected: self.selected,
            mode: self.mode,
            switcher: self.workspace_switcher@,
            picker: self.workspace_picker@,
            view: self.view,
            keybinds: self.keybinds@,
            home: option_view(self.home),
            palette: self.palette,
            copy_mode: option_view(self.copy_mode),
            selection: self.selection,
            fork: self.fork_features@,
            pane_infos: self.pane_infos@,
        }
    }
}

impl AppState {
    /// The state without any workspace.
    pub fn new(keybinds: Keybinds, palette: Palette) -> (r: AppState)
        ensures
            r@ == (AppModel {
                workspaces: Seq::<WorkspaceModel>::empty(),
                mru: Seq::<Seq<char>>::empty(),
                active: None,
                selected: 0,
                mode: Mode::Navigate,
                switcher: idle_switcher(),
                picker: idle_picker(),
                view: ViewState {
                    layout: ViewLayout::Desktop,
                    sidebar_rect: empty_rect(),
                    terminal_area: empty_rect(),
                    mobile_header_rect: empty_rect(),
                },
                keybinds: keybinds@,
                home: None,
                palette,
                copy_mode: None,
                selection: None,
                fork: ForkModel { easymotion: None, frozen: None, notice: None },
                pane_infos: Seq::<PaneInfo>::empty(),
            }),
    {
        broadcast use lemma_views_empty;

        AppState {
            workspaces: Vec::new(),
            workspace_mru: Vec::new(),
            active: None,
            selected: 0,
            mode: Mode::Navigate,
            workspace_switcher: WorkspaceSwitcherState::default(),
            workspace_picker: WorkspacePickerState::default(),
            view: ViewState {
                layout: ViewLayout::Desktop,
                sidebar_rect: Rect::default(),
                terminal_area: Rect::default(),
                mobile_header_rect: Rect::default(),
            },
            keybinds,
            home: None,
            palette,
            copy_mode: None,
            selection: None,
            fork_features: ForkFeatureState {
                easymotion: None,
                frozen_copy_view: None,
                copy_mode_notice: None,
            },
            pane_infos: Vec::new(),
        }
    }
}

} // verus!
