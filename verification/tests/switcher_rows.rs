use herdr::geometry::{Rect, ViewLayout};
use herdr::input::{ActionKeybinds, BindingTrigger, CycleKeybinds, KeyCode, KeyCombo, KeyEvent, KeyModifiers};
use herdr::rows::{AgentState, WorkspaceSwitcherTarget};
use herdr::state::{AppState, Keybinds, Mode, WorkspaceCanonicalEntry, WorkspaceSwitcherPreview};
use herdr::style::{Color, Dot, DotPair, Palette, Style};
use herdr::switcher_input::handle_workspace_switcher_key;
use herdr::terminal::TerminalRuntimeRegistry;
use herdr::workspace::{Tab, Workspace, WorktreeSpace};
use ratatui::widgets::{Clear, Widget};

fn rect(x: u16, y: u16, width: u16, height: u16) -> Rect {
    Rect { x, y, width, height }
}

fn dot(symbol: char, color: Color) -> Dot {
    Dot { symbol, style: Style::plain().with_fg(color) }
}

fn palette() -> Palette {
    Palette {
        accent: Color::Rgb(137, 180, 250),
        panel_bg: Color::Rgb(24, 24, 37),
        text: Color::Rgb(205, 214, 244),
        subtext0: Color::Rgb(166, 173, 200),
        overlay0: Color::Rgb(108, 112, 134),
        overlay1: Color::Rgb(127, 132, 156),
        surface0: Color::Rgb(49, 50, 68),
        surface1: Color::Rgb(69, 71, 90),
        surface_dim: Color::Rgb(30, 30, 46),
        contrast_fg: Color::Rgb(17, 17, 27),
        idle: DotPair { seen: dot('○', Color::Green), unseen: dot('●', Color::Green) },
        working: DotPair { seen: dot('●', Color::Yellow), unseen: dot('●', Color::Yellow) },
        blocked: DotPair { seen: dot('●', Color::Red), unseen: dot('●', Color::Red) },
        unknown: DotPair { seen: dot('·', Color::Gray), unseen: dot('·', Color::Gray) },
    }
}

const SHIFT: KeyModifiers = KeyModifiers {
    shift: true,
    control: false,
    alt: false,
    super_key: false,
    hyper: false,
    meta: false,
};

const CONTROL: KeyModifiers = KeyModifiers {
    shift: false,
    control: true,
    alt: false,
    super_key: false,
    hyper: false,
    meta: false,
};

const ALT: KeyModifiers = KeyModifiers {
    shift: false,
    control: false,
    alt: true,
    super_key: false,
    hyper: false,
    meta: false,
};

const SUPER: KeyModifiers = KeyModifiers {
    shift: false,
    control: false,
    alt: false,
    super_key: true,
    hyper: false,
    meta: false,
};

fn both(a: KeyModifiers, b: KeyModifiers) -> KeyModifiers {
    KeyModifiers {
        shift: a.shift || b.shift,
        control: a.control || b.control,
        alt: a.alt || b.alt,
        super_key: a.super_key || b.super_key,
        hyper: a.hyper || b.hyper,
        meta: a.meta || b.meta,
    }
}

fn key(code: KeyCode, modifiers: KeyModifiers) -> KeyEvent {
    KeyEvent { code, modifiers }
}

/// The bindings that `text` asks for, such as `ctrl+tab`.
fn binding(text: &str) -> ActionKeybinds {
    let mut modifiers = KeyModifiers::none();
    let mut code = KeyCode::Null;
    for part in text.split('+') {
        match part {
            "ctrl" => modifiers = both(modifiers, CONTROL),
            "alt" => modifiers = both(modifiers, ALT),
            "cmd" | "super" => modifiers = both(modifiers, SUPER),
            "shift" => modifiers = both(modifiers, SHIFT),
            "tab" => code = KeyCode::Tab,
            "f13" => code = KeyCode::F(13),
            "f14" => code = KeyCode::F(14),
            other => panic!("unknown key {other}"),
        }
    }
    ActionKeybinds { bindings: vec![BindingTrigger::Direct(KeyCombo { code, modifiers })] }
}

fn cycle_keybinds(forward: &str, backward: Option<&str>) -> CycleKeybinds {
    CycleKeybinds {
        forward: binding(forward),
        backward: match backward {
            Some(text) => binding(text),
            None => ActionKeybinds { bindings: vec![] },
        },
    }
}

fn new_state() -> AppState {
    AppState::new(
        Keybinds {
            quick_switch_workspace: cycle_keybinds("ctrl+tab", None),
            workspace_switcher: cycle_keybinds("ctrl+tab", None),
        },
        palette(),
    )
}

fn new_tab(workspace_id: &str, number: u64, name: &str) -> Tab {
    Tab {
        tab_id: format!("{workspace_id}/{number}"),
        display_name: name.to_string(),
        panes: vec![number],
        focused_pane: number,
        activity: String::new(),
        state: AgentState::Unknown,
        seen: true,
    }
}

fn new_workspace(id: &str, name: &str) -> Workspace {
    Workspace {
        id: id.to_string(),
        custom_name: Some(name.to_string()),
        auto_label: format!("cwd-{id}"),
        root_pane: 1,
        cached_git_branch: Some("trunk".to_string()),
        worktree_space: None,
        tabs: vec![new_tab(id, 1, "1")],
        active_tab: 0,
        activity: String::new(),
        state: AgentState::Unknown,
        seen: true,
    }
}

/// Adds a tab with one pane and returns its index.
fn add_tab(ws: &mut Workspace, name: Option<&str>) -> usize {
    let number = ws.tabs.len() as u64 + 1;
    let shown = match name {
        Some(text) => text.to_string(),
        None => number.to_string(),
    };
    let tab = new_tab(&ws.id, number, &shown);
    ws.tabs.push(tab);
    ws.tabs.len() - 1
}

fn app_with_workspaces(names: &[&str]) -> AppState {
    let mut state = new_state();
    for (index, name) in names.iter().enumerate() {
        state.workspaces.push(new_workspace(&format!("w{index}"), name));
    }
    if !state.workspaces.is_empty() {
        state.active = Some(0);
        state.mode = Mode::Terminal;
    }
    state
}

fn mark_linked_worktree_with_repo(state: &mut AppState, ws_idx: usize, repo: &str) {
    state.workspaces[ws_idx].worktree_space = Some(WorktreeSpace {
        key: "repo-key".into(),
        label: repo.into(),
        is_linked_worktree: true,
    });
}

fn mark_linked_worktree(state: &mut AppState, ws_idx: usize) {
    mark_linked_worktree_with_repo(state, ws_idx, "herdr");
}

fn mark_parent_worktree(state: &mut AppState, ws_idx: usize) {
    state.workspaces[ws_idx].worktree_space = Some(WorktreeSpace {
        key: "repo-key".into(),
        label: "herdr".into(),
        is_linked_worktree: false,
    });
}

/// Lays the screen out. A screen narrower than `threshold` gets the mobile layout.
fn compute_view_below(state: &mut AppState, threshold: u16, width: u16, height: u16) {
    if width < threshold {
        let header = if height < 2 { height } else { 2 };
        state.view.layout = ViewLayout::Mobile;
        state.view.sidebar_rect = Rect::default();
        state.view.mobile_header_rect = rect(0, 0, width, header);
        state.view.terminal_area = rect(0, header, width, height - header);
    } else {
        let sidebar = if width < 26 { width } else { 26 };
        state.view.layout = ViewLayout::Desktop;
        state.view.mobile_header_rect = Rect::default();
        state.view.sidebar_rect = rect(0, 0, sidebar, height);
        state.view.terminal_area = rect(sidebar, 0, width - sidebar, height);
    }
    if state.workspace_switcher.active {
        state.ensure_workspace_switcher_selection_visible_from(&TerminalRuntimeRegistry::new());
    }
}

fn compute_view(state: &mut AppState, width: u16, height: u16) {
    compute_view_below(state, 64, width, height);
}

/// Records `cwd` as the directory of every workspace.
fn snapshot_at(state: &mut AppState, cwd: &str) {
    state.workspace_switcher.workspace_canonical_snapshot = state
        .workspaces
        .iter()
        .map(|ws| WorkspaceCanonicalEntry {
            workspace_id: ws.id.clone(),
            canonical_cwd: cwd.to_string(),
        })
        .collect();
}

fn set_snapshot(state: &mut AppState) {
    snapshot_at(state, "/repo/herdr");
}

/// Opens a search for "proj" with the third row selected, which stands three lines down.
fn open_search_anchor_at_ws2(state: &mut AppState, terminal_runtimes: &TerminalRuntimeRegistry) {
    state.open_workspace_switcher_from(terminal_runtimes);
    state.enter_workspace_switcher_search_from(terminal_runtimes);
    set_snapshot(state);
    state.workspace_switcher.query = "proj".into();
    for _ in 0..2 {
        handle_workspace_switcher_key(
            state,
            terminal_runtimes,
            key(KeyCode::Down, KeyModifiers::none()),
        );
    }
    assert_eq!(state.workspace_switcher.selected, 2);
    assert_eq!(state.workspace_switcher.scroll, 0);
    assert_eq!(state.workspace_switcher.selected_viewport_offset, 3);
}

#[test]
fn switcher_accept_resolves_stable_target_after_workspace_reorder() {
    let mut state = app_with_workspaces(&["one", "two"]);
    let terminal_runtimes = TerminalRuntimeRegistry::new();
    state.open_workspace_switcher_from(&terminal_runtimes);
    let selected_id = state.workspace_switcher_rows()[state.workspace_switcher.selected]
        .target
        .clone();

    state.workspaces.swap(0, 1);
    assert!(state.accept_workspace_switcher_selection_from(&terminal_runtimes));

    let WorkspaceSwitcherTarget::Workspace { workspace_id } = selected_id else {
        panic!("workspace row should be selected");
    };
    assert_eq!(state.workspaces[state.active.unwrap()].id, workspace_id);
}

#[test]
fn reanchor_selection_follows_target_identity_across_row_reorder() {
    let mut state = app_with_workspaces(&["one", "two", "three", "four"]);
    for ws in state.workspaces.iter_mut() {
        ws.cached_git_branch = None;
    }
    let terminal_runtimes = TerminalRuntimeRegistry::new();
    state.open_workspace_switcher_from(&terminal_runtimes);
    // Rows are [one, two, three, four]; select "three" (row 2) and
    // capture its target identity.
    state.workspace_switcher.selected = 2;
    state.clamp_workspace_switcher_selection_from(&terminal_runtimes);
    assert_eq!(state.workspace_switcher_rows()[2].ws_idx, 2);

    // A concurrent client reorders the MRU while the switcher is open:
    // rows become [one, three, four, two]. The stale numeric index 2
    // now points at "four"; the re-anchor must land on "three".
    state.workspace_mru = vec![
        state.workspaces[2].id.clone(),
        state.workspaces[3].id.clone(),
        state.workspaces[1].id.clone(),
    ];
    state.reanchor_workspace_switcher_selection_from(&terminal_runtimes);

    assert_eq!(state.workspace_switcher.selected, 1);
    assert_eq!(state.workspace_switcher_rows()[1].ws_idx, 2);
}

#[test]
fn reanchor_preserves_viewport_offset_when_result_inserted_above() {
    // Rows [proj-a(1), b(2), c(2), d(2), e(2)] for query "proj": ws0
    // matches by label (1 line), ws1..ws4 by branch (2 lines), ws5
    // matches nothing. Body is 8 lines (terminal 80x15, search mode).
    let mut state = app_with_workspaces(&["proj-a", "b", "c", "d", "e", "f"]);
    state.workspaces[0].cached_git_branch = None;
    state.workspaces[1].cached_git_branch = Some("proj-b".into());
    state.workspaces[2].cached_git_branch = Some("proj-c".into());
    state.workspaces[3].cached_git_branch = Some("proj-d".into());
    state.workspaces[4].cached_git_branch = Some("proj-e".into());
    state.workspaces[5].cached_git_branch = None;
    state.active = Some(5);
    let terminal_runtimes = TerminalRuntimeRegistry::new();
    compute_view(&mut state, 80, 15);

    open_search_anchor_at_ws2(&mut state, &terminal_runtimes);
    assert_eq!(state.workspace_switcher_body_rect().height, 8);
    let rows = state.workspace_switcher_rows_from(&terminal_runtimes);
    assert_eq!(rows.len(), 5);
    let selected_id = state.workspaces[2].id.clone();

    // Async Git refresh: ws5 gains a branch that starts with the query
    // and ranks ahead of every existing row, inserting a 2-line result
    // above the selected target.
    state.workspaces[5].cached_git_branch = Some("proj-head".into());

    state.reanchor_workspace_switcher_selection_from(&terminal_runtimes);

    // Identity preserved: the selection still targets ws2, now row 3.
    assert_eq!(state.workspace_switcher.selected, 3);
    let rows = state.workspace_switcher_rows_from(&terminal_runtimes);
    assert_eq!(rows.len(), 6);
    assert_eq!(rows[3].ws_idx, 2);
    let WorkspaceSwitcherTarget::Workspace { workspace_id } = &rows[3].target else {
        panic!("expected workspace target");
    };
    assert_eq!(workspace_id, &selected_id);
    // Physical offset 3 is preservable (window at row 1) and kept:
    // the old scroll 0 would have shown the target two lines lower.
    assert_eq!(state.workspace_switcher.scroll, 1);
    assert_eq!(state.workspace_switcher.selected_viewport_offset, 3);
}

#[test]
fn reanchor_preserves_viewport_offset_when_row_grows_above() {
    // Rows [proj-a(1), proj-b(1), c(2), d(2), e(2), f(2)] for query
    // "proj": ws0/ws1 match by label (1 line each), ws2..ws5 by branch
    // (2 lines each). Body is 8 lines (terminal 80x15, search mode).
    let mut state = app_with_workspaces(&["proj-a", "proj-b", "c", "d", "e", "f"]);
    state.workspaces[0].cached_git_branch = None;
    state.workspaces[1].cached_git_branch = None;
    state.workspaces[2].cached_git_branch = Some("proj-c".into());
    state.workspaces[3].cached_git_branch = Some("proj-d".into());
    state.workspaces[4].cached_git_branch = Some("proj-e".into());
    state.workspaces[5].cached_git_branch = Some("proj-f".into());
    let terminal_runtimes = TerminalRuntimeRegistry::new();
    compute_view(&mut state, 80, 15);

    state.open_workspace_switcher_from(&terminal_runtimes);
    state.enter_workspace_switcher_search_from(&terminal_runtimes);
    set_snapshot(&mut state);
    assert_eq!(state.workspace_switcher_body_rect().height, 8);
    state.workspace_switcher.query = "proj".into();
    for _ in 0..3 {
        handle_workspace_switcher_key(
            &mut state,
            &terminal_runtimes,
            key(KeyCode::Down, KeyModifiers::none()),
        );
    }
    assert_eq!(state.workspace_switcher.selected, 3);
    assert_eq!(state.workspace_switcher.scroll, 0);
    assert_eq!(state.workspace_switcher.selected_viewport_offset, 4);
    let selected_id = state.workspaces[3].id.clone();

    // Async Git refresh: ws1 gains a branch, so its row grows from one
    // line to two directly above the selected target.
    state.workspaces[1].cached_git_branch = Some("proj-g".into());

    state.reanchor_workspace_switcher_selection_from(&terminal_runtimes);

    // Identity preserved: the selection still targets ws3 at row 3.
    assert_eq!(state.workspace_switcher.selected, 3);
    let rows = state.workspace_switcher_rows_from(&terminal_runtimes);
    assert_eq!(rows.len(), 6);
    let WorkspaceSwitcherTarget::Workspace { workspace_id } = &rows[3].target else {
        panic!("expected workspace target");
    };
    assert_eq!(workspace_id, &selected_id);
    // Offset 4 is preservable at window start row 1; keeping scroll 0
    // would have shown the target one line lower.
    assert_eq!(state.workspace_switcher.scroll, 1);
    assert_eq!(state.workspace_switcher.selected_viewport_offset, 4);
}

#[test]
fn opening_switcher_demands_async_branch_refresh() {
    let mut state = app_with_workspaces(&["one"]);
    assert!(!state.workspace_switcher.branch_refresh_requested);
    state.open_workspace_switcher();
    assert!(state.workspace_switcher.branch_refresh_requested);
}

#[test]
fn workspace_switcher_filters_workspace_names_only() {
    let mut state = app_with_workspaces(&["one", "issue"]);
    state.workspaces[0].cached_git_branch = None;
    state.workspaces[1].cached_git_branch = None;
    state.workspaces[0].tabs[0].display_name = "weekly review".into();

    state.open_workspace_switcher();
    state
        .enter_workspace_switcher_search_from(&TerminalRuntimeRegistry::new());
    state.workspace_switcher.query = "weekly".into();
    assert!(state.workspace_switcher_rows().is_empty());

    state.workspace_switcher.query = "issu".into();
    let rows = state.workspace_switcher_rows();
    assert_eq!(rows.len(), 1);
    assert_eq!(rows[0].ws_idx, 1);
}

#[test]
fn workspace_switcher_search_ranks_matches_then_preserves_mru_order() {
    let mut state = app_with_workspaces(&["main", "other issue", "issue alpha", "issue beta"]);
    state.workspace_mru = vec![
        state.workspaces[1].id.clone(),
        state.workspaces[3].id.clone(),
        state.workspaces[2].id.clone(),
    ];

    state.open_workspace_switcher();
    state
        .enter_workspace_switcher_search_from(&TerminalRuntimeRegistry::new());
    state.workspace_switcher.query = "issue".into();

    let rows = state.workspace_switcher_rows();
    assert_eq!(
        rows.iter().map(|row| row.ws_idx).collect::<Vec<_>>(),
        vec![3, 2, 1]
    );
}

#[test]
fn workspace_switcher_empty_state_has_placeholder_preview() {
    let mut state = new_state();

    state.open_workspace_switcher();

    assert!(state.workspace_switcher.active);
    assert!(matches!(
        state.workspace_switcher.preview,
        WorkspaceSwitcherPreview::Empty { ref message } if message == "no workspaces"
    ));
}

#[test]
fn workspace_switcher_shows_branch_name_for_grouped_child() {
    let mut state = app_with_workspaces(&["main", "issue"]);
    mark_parent_worktree(&mut state, 0);
    mark_linked_worktree(&mut state, 1);
    // Clear custom name so the workspace is auto-named — this is the case
    // where grouped_child_display_label substitutes the branch name.
    state.workspaces[1].custom_name = None;
    state.workspaces[1].cached_git_branch = Some("worktree/issue-137".into());

    state.open_workspace_switcher();
    let rows = state.workspace_switcher_rows();

    // The grouped child is a managed linked worktree, so it shows the
    // composite label: repo name + branch substitution (without "worktree/" prefix).
    let child_row = rows.iter().find(|r| r.ws_idx == 1).unwrap();
    assert_eq!(child_row.label.display(), "herdr / issue-137");
    assert_eq!(child_row.label.parts().0, Some("herdr"));

    // The parent is not a linked worktree — no composite label.
    let parent_row = rows.iter().find(|r| r.ws_idx == 0).unwrap();
    assert_eq!(parent_row.label.parts().0, None);
}

#[test]
fn workspace_switcher_shows_cwd_name_for_standalone_workspace() {
    let mut state = app_with_workspaces(&["main", "issue"]);
    // No worktree_space set — standalone workspace.
    state.workspaces[1].custom_name = None;
    state.workspaces[1].cached_git_branch = Some("worktree/issue-137".into());

    let terminal_runtimes = TerminalRuntimeRegistry::new();
    let raw_label = state.workspaces[1].display_name_from(&terminal_runtimes);

    state.open_workspace_switcher();
    let rows = state.workspace_switcher_rows();

    // Standalone workspace — no branch substitution, label is CWD-derived.
    let row = rows.iter().find(|r| r.ws_idx == 1).unwrap();
    assert_eq!(row.label.display(), raw_label);
    assert_ne!(row.label.display(), "issue-137");
}

#[test]
fn workspace_switcher_keeps_custom_name_for_grouped_child() {
    let mut state = app_with_workspaces(&["main", "issue"]);
    mark_parent_worktree(&mut state, 0);
    mark_linked_worktree(&mut state, 1);
    state.workspaces[1].cached_git_branch = Some("worktree/issue-137".into());
    state.workspaces[1].custom_name = Some("my-custom-name".into());

    state.open_workspace_switcher();
    let rows = state.workspace_switcher_rows();

    // Custom name remains authoritative for the existing-label portion;
    // the repository name is still prepended.
    let child_row = rows.iter().find(|r| r.ws_idx == 1).unwrap();
    assert_eq!(child_row.label.display(), "herdr / my-custom-name");
    assert_eq!(child_row.label.parts().0, Some("herdr"));
}

#[test]
fn workspace_switcher_shows_cwd_name_for_linked_only_group() {
    // Two linked worktrees with no parent — should NOT form a parentless group.
    let mut state = app_with_workspaces(&["issue", "review"]);
    mark_linked_worktree(&mut state, 0);
    mark_linked_worktree(&mut state, 1);
    state.workspaces[0].custom_name = None;
    state.workspaces[1].custom_name = None;
    state.workspaces[0].cached_git_branch = Some("worktree/issue-137".into());
    state.workspaces[1].cached_git_branch = Some("worktree/review-42".into());

    let terminal_runtimes = TerminalRuntimeRegistry::new();
    let raw0 = state.workspaces[0].display_name_from(&terminal_runtimes);
    let raw1 = state.workspaces[1].display_name_from(&terminal_runtimes);

    state.open_workspace_switcher();
    let rows = state.workspace_switcher_rows();

    // Without a parent worktree, these are not grouped children —
    // the CWD-derived name is used for the existing-label portion, and
    // the repo name is prepended because they are linked worktrees.
    let row0 = rows.iter().find(|r| r.ws_idx == 0).unwrap();
    assert_eq!(row0.label.display(), format!("herdr / {raw0}"));
    assert_ne!(row0.label.display(), "herdr / issue-137");
    let row1 = rows.iter().find(|r| r.ws_idx == 1).unwrap();
    assert_eq!(row1.label.display(), format!("herdr / {raw1}"));
    assert_ne!(row1.label.display(), "herdr / review-42");
}

#[test]
fn composite_label_shown_for_managed_linked_worktree_in_quick_switch() {
    let mut state = app_with_workspaces(&["main", "feature"]);
    mark_parent_worktree(&mut state, 0);
    mark_linked_worktree_with_repo(&mut state, 1, "myrepo");
    state.workspaces[1].custom_name = None;
    state.workspaces[1].cached_git_branch = Some("worktree/feature-x".into());

    let terminal_runtimes = TerminalRuntimeRegistry::new();
    state.open_workspace_switcher_from(&terminal_runtimes);
    let rows = state.workspace_switcher_rows_from(&terminal_runtimes);

    let child = rows.iter().find(|r| r.ws_idx == 1).unwrap();
    assert_eq!(child.label.parts().0, Some("myrepo"));
    // Composite label includes repo name and the branch-derived label.
    assert!(child.label.display().starts_with("myrepo / "));
    assert!(child.label.display().contains("feature-x"));
}

#[test]
fn composite_label_shown_for_custom_named_linked_worktree() {
    let mut state = app_with_workspaces(&["main", "feature"]);
    mark_parent_worktree(&mut state, 0);
    mark_linked_worktree_with_repo(&mut state, 1, "myrepo");
    state.workspaces[1].custom_name = Some("custom-name".into());

    let terminal_runtimes = TerminalRuntimeRegistry::new();
    state.open_workspace_switcher_from(&terminal_runtimes);
    let rows = state.workspace_switcher_rows_from(&terminal_runtimes);

    let child = rows.iter().find(|r| r.ws_idx == 1).unwrap();
    assert_eq!(child.label.parts().0, Some("myrepo"));
    assert!(child.label.display().starts_with("myrepo / "));
    assert!(child.label.display().contains("custom-name"));
}

#[test]
fn parent_workspace_has_no_composite_label() {
    let mut state = app_with_workspaces(&["main", "feature"]);
    mark_parent_worktree(&mut state, 0);
    mark_linked_worktree(&mut state, 1);

    let terminal_runtimes = TerminalRuntimeRegistry::new();
    state.open_workspace_switcher_from(&terminal_runtimes);
    let rows = state.workspace_switcher_rows_from(&terminal_runtimes);

    let parent = rows.iter().find(|r| r.ws_idx == 0).unwrap();
    assert_eq!(parent.label.parts().0, None);
    assert!(!parent.label.display().contains(" / "));
}

#[test]
fn standalone_linked_worktree_with_custom_name_shows_composite_label() {
    // A standalone managed linked worktree (no grouped parent) with a
    // custom name should render `<repo> / <custom name>` — no branch
    // substitution, but repo context is still prepended.
    let mut state = app_with_workspaces(&["other", "my-workspace"]);
    mark_linked_worktree_with_repo(&mut state, 1, "myrepo");
    state.workspaces[1].custom_name = Some("custom-name".into());
    state.workspaces[1].cached_git_branch = Some("worktree/some-branch".into());

    let terminal_runtimes = TerminalRuntimeRegistry::new();
    state.open_workspace_switcher_from(&terminal_runtimes);
    let rows = state.workspace_switcher_rows_from(&terminal_runtimes);

    let child = rows.iter().find(|r| r.ws_idx == 1).unwrap();
    assert_eq!(child.label.parts().0, Some("myrepo"));
    assert_eq!(child.label.display(), "myrepo / custom-name");
    // The branch name must not appear — custom name is authoritative.
    assert!(!child.label.display().contains("some-branch"));
}

#[test]
fn unmanaged_workspace_has_no_composite_label() {
    let mut state = app_with_workspaces(&["main", "feature"]);
    // No worktree_space at all — completely unmanaged.

    let terminal_runtimes = TerminalRuntimeRegistry::new();
    state.open_workspace_switcher_from(&terminal_runtimes);
    let rows = state.workspace_switcher_rows_from(&terminal_runtimes);

    for row in &rows {
        assert_eq!(row.label.parts().0, None);
        assert!(!row.label.display().contains(" / "));
    }
}

#[test]
fn empty_repo_name_falls_back_to_existing_label() {
    let mut state = app_with_workspaces(&["main", "feature"]);
    mark_parent_worktree(&mut state, 0);
    mark_linked_worktree_with_repo(&mut state, 1, "");
    state.workspaces[1].custom_name = None;
    state.workspaces[1].cached_git_branch = Some("worktree/feature-x".into());

    let terminal_runtimes = TerminalRuntimeRegistry::new();
    state.open_workspace_switcher_from(&terminal_runtimes);
    let rows = state.workspace_switcher_rows_from(&terminal_runtimes);

    let child = rows.iter().find(|r| r.ws_idx == 1).unwrap();
    // Empty repo name → no composite, no separator, no placeholder.
    assert_eq!(child.label.parts().0, None);
    assert!(!child.label.display().contains(" / "));
    // The existing label (branch substitution) is still present.
    assert_eq!(child.label.display(), "feature-x");
}

#[test]
fn composite_label_consistent_across_quick_switch_empty_query_and_search() {
    let mut state = app_with_workspaces(&["main", "feature"]);
    mark_parent_worktree(&mut state, 0);
    mark_linked_worktree_with_repo(&mut state, 1, "myrepo");
    state.workspaces[1].custom_name = None;
    state.workspaces[1].cached_git_branch = Some("worktree/feature-x".into());

    let terminal_runtimes = TerminalRuntimeRegistry::new();

    // QuickSwitch mode.
    state.open_workspace_switcher_from(&terminal_runtimes);
    let qs_label = state
        .workspace_switcher_rows_from(&terminal_runtimes)
        .iter()
        .find(|r| r.ws_idx == 1)
        .map(|r| r.label.display())
        .unwrap();

    // Search mode with empty query.
    state.enter_workspace_switcher_search_from(&terminal_runtimes);
    set_snapshot(&mut state);
    let empty_label = state
        .workspace_switcher_rows_from(&terminal_runtimes)
        .iter()
        .find(|r| r.ws_idx == 1)
        .map(|r| r.label.display())
        .unwrap();

    // Search mode with a query that matches the row.
    state.workspace_switcher.query = "myrepo".into();
    let search_label = state
        .workspace_switcher_rows_from(&terminal_runtimes)
        .iter()
        .find(|r| r.ws_idx == 1)
        .map(|r| r.label.display())
        .unwrap();

    assert_eq!(qs_label, empty_label);
    assert_eq!(qs_label, search_label);
    assert!(qs_label.starts_with("myrepo / "));
}

#[test]
fn composite_row_secondary_omits_branch_already_in_primary() {
    let mut state = app_with_workspaces(&["main", "feature"]);
    mark_parent_worktree(&mut state, 0);
    mark_linked_worktree_with_repo(&mut state, 1, "myrepo");
    state.workspaces[1].custom_name = None;
    state.workspaces[1].cached_git_branch = Some("worktree/feature-x".into());
    state.workspaces[0].cached_git_branch = None;

    let terminal_runtimes = TerminalRuntimeRegistry::new();
    state.open_workspace_switcher_from(&terminal_runtimes);
    let rows = state.workspace_switcher_rows_from(&terminal_runtimes);

    let child = rows.iter().find(|r| r.ws_idx == 1).unwrap();
    // The primary title is the branch with the `worktree/` prefix
    // stripped, so the branch must not repeat on the secondary line.
    assert_eq!(child.label.display(), "myrepo / feature-x");
    assert_eq!(child.secondary, vec!["myrepo".to_string()]);
}

#[test]
fn composite_row_secondary_keeps_branch_different_from_primary() {
    let mut state = app_with_workspaces(&["main", "feature"]);
    mark_parent_worktree(&mut state, 0);
    mark_linked_worktree_with_repo(&mut state, 1, "myrepo");
    // Custom primary name does not suppress a different branch.
    state.workspaces[1].cached_git_branch = Some("worktree/other".into());
    state.workspaces[0].cached_git_branch = None;

    let terminal_runtimes = TerminalRuntimeRegistry::new();
    state.open_workspace_switcher_from(&terminal_runtimes);
    let rows = state.workspace_switcher_rows_from(&terminal_runtimes);

    let child = rows.iter().find(|r| r.ws_idx == 1).unwrap();
    assert_eq!(child.label.display(), "myrepo / feature");
    assert_eq!(
        child.secondary,
        vec!["myrepo".to_string(), "worktree/other".to_string()]
    );
}

#[test]
fn composite_row_secondary_keeps_branch_matching_custom_primary_stripped() {
    // Custom primary "feature" and branch "worktree/feature" are
    // distinct titles: the stripped-prefix equality must not suppress
    // the branch for custom names (only for branch-derived primaries).
    let mut state = app_with_workspaces(&["main", "feature"]);
    mark_parent_worktree(&mut state, 0);
    mark_linked_worktree_with_repo(&mut state, 1, "myrepo");
    state.workspaces[1].custom_name = Some("feature".to_string());
    state.workspaces[1].cached_git_branch = Some("worktree/feature".to_string());
    state.workspaces[0].cached_git_branch = None;

    let terminal_runtimes = TerminalRuntimeRegistry::new();
    state.open_workspace_switcher_from(&terminal_runtimes);
    let rows = state.workspace_switcher_rows_from(&terminal_runtimes);

    let child = rows.iter().find(|r| r.ws_idx == 1).unwrap();
    assert_eq!(child.label.display(), "myrepo / feature");
    assert_eq!(
        child.secondary,
        vec!["myrepo".to_string(), "worktree/feature".to_string()]
    );
}

#[test]
fn tab_rows_carry_tab_specific_activity_not_workspace_wide() {
    let mut state = app_with_workspaces(&["one"]);
    state.workspaces[0].cached_git_branch = None;
    // A second tab so per-tab activity differs from workspace-wide.
    add_tab(&mut state.workspaces[0], None);
    state.workspaces[0].tabs[0].activity = "1 blocked".into();
    state.workspaces[0].tabs[0].state = AgentState::Blocked;
    state.workspaces[0].tabs[1].activity = "1 working".into();
    state.workspaces[0].tabs[1].state = AgentState::Working;
    state.workspaces[0].activity = "1 blocked · 1 working".into();

    let terminal_runtimes = TerminalRuntimeRegistry::new();
    let tab_rows = state.workspace_switcher_tab_rows(0);
    assert_eq!(tab_rows.len(), 2);
    assert_eq!(tab_rows[0].secondary, vec!["1 blocked".to_string()]);
    assert_eq!(tab_rows[1].secondary, vec!["1 working".to_string()]);

    // The workspace row aggregates all tabs instead.
    let ws_row = state.workspace_switcher_workspace_row(
        0,
        state.workspace_label(0, &terminal_runtimes),
        false,
    );
    assert_eq!(ws_row.secondary, vec!["1 blocked · 1 working".to_string()]);
}
