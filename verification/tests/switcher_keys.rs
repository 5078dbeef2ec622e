use herdr::geometry::{Rect, ViewLayout};
use herdr::input::{quick_switch_modifier_release_matches, ActionKeybinds, BindingTrigger, CycleKeybinds, KeyCode, KeyCombo, KeyEvent, KeyModifiers, ModifierKeyCode, TerminalKey};
use herdr::provider::SearchProviderStatus;
use herdr::rows::{AgentState, WorkspaceSwitcherTarget};
use herdr::state::{AppState, Keybinds, Mode, WorkspaceSwitcherMode};
use herdr::style::{Color, Dot, DotPair, Palette, Style};
use herdr::switcher_input::handle_workspace_switcher_key;
use herdr::switcher_session::close_workspace_switcher;
use herdr::terminal::TerminalRuntimeRegistry;
use herdr::workspace::{Tab, Workspace};

fn rect(x: u16, y: u16, width: u16, height: u16) -> Rect {
    Rect { x, y, width, height }
}

fn dot(symbol: char, color: Color) -> Dot {
    Dot { symbol, style: Style::plain().with_fg(color) }
}

fn palette() -> Palette {
    Palette {
        accent: Color::Rgb(137, 180, 250),
        panel_bg: Color::Rgb(24, 24, 37),
        text: Color::Rgb(205, 214, 244),
        subtext0: Color::Rgb(166, 173, 200),
        overlay0: Color::Rgb(108, 112, 134),
        overlay1: Color::Rgb(127, 132, 156),
        surface0: Color::Rgb(49, 50, 68),
        surface1: Color::Rgb(69, 71, 90),
        surface_dim: Color::Rgb(30, 30, 46),
        contrast_fg: Color::Rgb(17, 17, 27),
        idle: DotPair { seen: dot('○', Color::Green), unseen: dot('●', Color::Green) },
        working: DotPair { seen: dot('●', Color::Yellow), unseen: dot('●', Color::Yellow) },
        blocked: DotPair { seen: dot('●', Color::Red), unseen: dot('●', Color::Red) },
        unknown: DotPair { seen: dot('·', Color::Gray), unseen: dot('·', Color::Gray) },
    }
}

const SHIFT: KeyModifiers = KeyModifiers {
    shift: true,
    control: false,
    alt: false,
    super_key: false,
    hyper: false,
    meta: false,
};

const CONTROL: KeyModifiers = KeyModifiers {
    shift: false,
    control: true,
    alt: false,
    super_key: false,
    hyper: false,
    meta: false,
};

const ALT: KeyModifiers = KeyModifiers {
    shift: false,
    control: false,
    alt: true,
    super_key: false,
    hyper: false,
    meta: false,
};

const SUPER: KeyModifiers = KeyModifiers {
    shift: false,
    control: false,
    alt: false,
    super_key: true,
    hyper: false,
    meta: false,
};

fn both(a: KeyModifiers, b: KeyModifiers) -> KeyModifiers {
    KeyModifiers {
        shift: a.shift || b.shift,
        control: a.control || b.control,
        alt: a.alt || b.alt,
        super_key: a.super_key || b.super_key,
        hyper: a.hyper || b.hyper,
        meta: a.meta || b.meta,
    }
}

fn key(code: KeyCode, modifiers: KeyModifiers) -> KeyEvent {
    KeyEvent { code, modifiers }
}

fn terminal_key(code: KeyCode, modifiers: KeyModifiers) -> TerminalKey {
    TerminalKey { code, modifiers, shifted_codepoint: None }
}

/// The bindings that `text` asks for, such as `ctrl+tab`.
fn binding(text: &str) -> ActionKeybinds {
    let mut modifiers = KeyModifiers::none();
    let mut code = KeyCode::Null;
    for part in text.split('+') {
        match part {
            "ctrl" => modifiers = both(modifiers, CONTROL),
            "alt" => modifiers = both(modifiers, ALT),
            "cmd" | "super" => modifiers = both(modifiers, SUPER),
            "shift" => modifiers = both(modifiers, SHIFT),
            "tab" => code = KeyCode::Tab,
            "f13" => code = KeyCode::F(13),
            "f14" => code = KeyCode::F(14),
            other => panic!("unknown key {other}"),
        }
    }
    ActionKeybinds { bindings: vec![BindingTrigger::Direct(KeyCombo { code, modifiers })] }
}

fn cycle_keybinds(forward: &str, backward: Option<&str>) -> CycleKeybinds {
    CycleKeybinds {
        forward: binding(forward),
        backward: match backward {
            Some(text) => binding(text),
            None => ActionKeybinds { bindings: vec![] },
        },
    }
}

fn new_state() -> AppState {
    AppState::new(
        Keybinds {
            quick_switch_workspace: cycle_keybinds("ctrl+tab", None),
            workspace_switcher: cycle_keybinds("ctrl+tab", None),
        },
        palette(),
    )
}

fn new_tab(workspace_id: &str, number: u64, name: &str) -> Tab {
    Tab {
        tab_id: format!("{workspace_id}/{number}"),
        display_name: name.to_string(),
        panes: vec![number],
        focused_pane: number,
        activity: String::new(),
        state: AgentState::Unknown,
        seen: true,
    }
}

fn new_workspace(id: &str, name: &str) -> Workspace {
    Workspace {
        id: id.to_string(),
        custom_name: Some(name.to_string()),
        auto_label: format!("cwd-{id}"),
        root_pane: 1,
        cached_git_branch: Some("trunk".to_string()),
        worktree_space: None,
        tabs: vec![new_tab(id, 1, "1")],
        active_tab: 0,
        activity: String::new(),
        state: AgentState::Unknown,
        seen: true,
    }
}

/// Adds a tab with one pane and returns its index.
fn add_tab(ws: &mut Workspace, name: Option<&str>) -> usize {
    let number = ws.tabs.len() as u64 + 1;
    let shown = match name {
        Some(text) => text.to_string(),
        None => number.to_string(),
    };
    let tab = new_tab(&ws.id, number, &shown);
    ws.tabs.push(tab);
    ws.tabs.len() - 1
}

fn app_with_workspaces(names: &[&str]) -> AppState {
    let mut state = new_state();
    for (index, name) in names.iter().enumerate() {
        state.workspaces.push(new_workspace(&format!("w{index}"), name));
    }
    if !state.workspaces.is_empty() {
        state.active = Some(0);
        state.mode = Mode::Terminal;
    }
    state
}

fn state_with_workspaces(names: &[&str]) -> AppState {
    let mut state = app_with_workspaces(names);
    state.selected = 0;
    state.mode = Mode::Navigate;
    state
}

/// Lays the screen out. A screen narrower than `threshold` gets the mobile layout.
fn compute_view_below(state: &mut AppState, threshold: u16, width: u16, height: u16) {
    if width < threshold {
        let header = if height < 2 { height } else { 2 };
        state.view.layout = ViewLayout::Mobile;
        state.view.sidebar_rect = Rect::default();
        state.view.mobile_header_rect = rect(0, 0, width, header);
        state.view.terminal_area = rect(0, header, width, height - header);
    } else {
        let sidebar = if width < 26 { width } else { 26 };
        state.view.layout = ViewLayout::Desktop;
        state.view.mobile_header_rect = Rect::default();
        state.view.sidebar_rect = rect(0, 0, sidebar, height);
        state.view.terminal_area = rect(sidebar, 0, width - sidebar, height);
    }
    if state.workspace_switcher.active {
        state.ensure_workspace_switcher_selection_visible_from(&TerminalRuntimeRegistry::new());
    }
}

fn compute_view(state: &mut AppState, width: u16, height: u16) {
    compute_view_below(state, 64, width, height);
}

fn selected_workspace_switcher_ws_idx(
    state: &AppState,
    terminal_runtimes: &TerminalRuntimeRegistry,
) -> usize {
    let rows = state.workspace_switcher_rows_from(terminal_runtimes);
    rows[state.workspace_switcher.selected].ws_idx
}

fn state_with_quick_switch_binding(
    forward: &str,
    backward: Option<&str>,
) -> (AppState, TerminalRuntimeRegistry, KeyModifiers) {
    let mut state = state_with_workspaces(&["main", "issue", "docs"]);
    state.keybinds.workspace_switcher = cycle_keybinds(forward, backward);
    let command_modifiers =
        state.keybinds.workspace_switcher.forward_combo().expect("a direct binding").modifiers;
    add_tab(&mut state.workspaces[1], Some("logs"));
    add_tab(&mut state.workspaces[2], Some("logs"));
    state.switch_workspace(2);
    state.switch_workspace(0);

    let terminal_runtimes = TerminalRuntimeRegistry::new();
    state.open_workspace_switcher_from(&terminal_runtimes);
    (state, terminal_runtimes, command_modifiers)
}

#[test]
fn quick_switch_uses_observed_mru_order_and_preselects_previous_workspace() {
    let mut state = app_with_workspaces(&["one", "two", "three"]);
    let terminal_runtimes = TerminalRuntimeRegistry::new();
    state.workspace_mru = vec![
        state.workspaces[2].id.clone(),
        state.workspaces[1].id.clone(),
        state.workspaces[0].id.clone(),
    ];
    state.switch_workspace(2);

    state.open_workspace_switcher_from(&terminal_runtimes);
    let rows = state.workspace_switcher_rows();

    assert_eq!(rows[0].ws_idx, 2);
    assert_eq!(rows[1].ws_idx, 1);
    assert_eq!(rows[2].ws_idx, 0);
    assert_eq!(state.workspace_switcher.selected, 1);
    assert_eq!(
        state.workspace_switcher.mode,
        WorkspaceSwitcherMode::QuickSwitch
    );
}

#[test]
fn workspace_switcher_quick_switch_tab_cycles_workspace_rows_only() {
    let mut state = app_with_workspaces(&["one", "two", "three"]);
    let terminal_runtimes = TerminalRuntimeRegistry::new();
    state.switch_workspace(1);
    state.switch_workspace(2);
    state.workspace_mru = vec![
        state.workspaces[2].id.clone(),
        state.workspaces[1].id.clone(),
        state.workspaces[0].id.clone(),
    ];
    state.open_workspace_switcher_from(&terminal_runtimes);

    state.cycle_workspace_switcher_from(&terminal_runtimes, 1);

    let selected = &state.workspace_switcher_rows()[state.workspace_switcher.selected];
    assert_eq!(selected.ws_idx, 0);
    assert!(!selected.is_tab);
}

#[test]
fn workspace_switcher_quick_switch_can_expand_and_select_workspace_tab() {
    let mut state = app_with_workspaces(&["one", "two"]);
    let terminal_runtimes = TerminalRuntimeRegistry::new();
    let second_tab = add_tab(&mut state.workspaces[1], Some("logs"));
    state.switch_workspace(1);
    state.switch_workspace(0);
    state.open_workspace_switcher_from(&terminal_runtimes);

    state.expand_selected_workspace_switcher_workspace_from(&terminal_runtimes);
    state.move_workspace_switcher_selection_from(&terminal_runtimes, 2);

    let rows = state.workspace_switcher_rows();
    let selected = &rows[state.workspace_switcher.selected];
    assert_eq!(
        selected.target,
        WorkspaceSwitcherTarget::Tab {
            tab_id: state.workspaces[1].tabs[second_tab].tab_id.clone(),
        }
    );
    assert!(state.accept_workspace_switcher_selection_from(&terminal_runtimes));
    assert_eq!(state.active, Some(1));
    assert_eq!(state.workspaces[1].active_tab, second_tab);
}

#[test]
fn quick_switch_direction_keys_expand_and_collapse_in_both_layouts() {
    for (width, expected_layout) in [(60, ViewLayout::Mobile), (120, ViewLayout::Desktop)] {
        let (mut state, terminal_runtimes, _) =
            state_with_quick_switch_binding("ctrl+tab", None);
        compute_view(&mut state, width, 30);
        assert_eq!(state.view.layout, expected_layout);
        let selected_ws = selected_workspace_switcher_ws_idx(&state, &terminal_runtimes);

        handle_workspace_switcher_key(
            &mut state,
            &terminal_runtimes,
            key(KeyCode::Right, KeyModifiers::none()),
        );
        assert!(
            state
                .workspace_switcher_rows_from(&terminal_runtimes)
                .iter()
                .any(|row| row.ws_idx == selected_ws && row.is_tab),
            "Right should expand in {expected_layout:?}"
        );
        let expanded_rows = state.workspace_switcher_rows_from(&terminal_runtimes);
        handle_workspace_switcher_key(
            &mut state,
            &terminal_runtimes,
            key(KeyCode::Right, KeyModifiers::none()),
        );
        assert_eq!(
            state.workspace_switcher_rows_from(&terminal_runtimes),
            expanded_rows
        );

        handle_workspace_switcher_key(
            &mut state,
            &terminal_runtimes,
            key(KeyCode::Left, KeyModifiers::none()),
        );
        assert!(
            !state
                .workspace_switcher_rows_from(&terminal_runtimes)
                .iter()
                .any(|row| row.ws_idx == selected_ws && row.is_tab),
            "Left should collapse in {expected_layout:?}"
        );
        let collapsed_rows = state.workspace_switcher_rows_from(&terminal_runtimes);
        handle_workspace_switcher_key(
            &mut state,
            &terminal_runtimes,
            key(KeyCode::Left, KeyModifiers::none()),
        );
        assert_eq!(
            state.workspace_switcher_rows_from(&terminal_runtimes),
            collapsed_rows
        );

        handle_workspace_switcher_key(
            &mut state,
            &terminal_runtimes,
            key(KeyCode::Right, KeyModifiers::none()),
        );
        state.open_workspace_switcher_from(&terminal_runtimes);
        assert!(state
            .workspace_switcher_rows_from(&terminal_runtimes)
            .iter()
            .all(|row| !row.is_tab));
    }
}

#[test]
fn quick_switch_direction_keys_accept_configured_command_modifiers() {
    let (mut state, terminal_runtimes, command_modifiers) =
        state_with_quick_switch_binding("alt+f13", None);
    let selected_ws = selected_workspace_switcher_ws_idx(&state, &terminal_runtimes);

    handle_workspace_switcher_key(
        &mut state,
        &terminal_runtimes,
        key(KeyCode::Right, command_modifiers),
    );
    assert!(state
        .workspace_switcher_rows_from(&terminal_runtimes)
        .iter()
        .any(|row| row.ws_idx == selected_ws && row.is_tab));

    handle_workspace_switcher_key(
        &mut state,
        &terminal_runtimes,
        key(KeyCode::Left, command_modifiers),
    );
    assert!(!state
        .workspace_switcher_rows_from(&terminal_runtimes)
        .iter()
        .any(|row| row.ws_idx == selected_ws && row.is_tab));
}

#[test]
fn quick_switch_left_from_tab_collapses_and_selects_parent_workspace() {
    let (mut state, terminal_runtimes, _) = state_with_quick_switch_binding("ctrl+tab", None);
    let selected_ws = selected_workspace_switcher_ws_idx(&state, &terminal_runtimes);

    handle_workspace_switcher_key(
        &mut state,
        &terminal_runtimes,
        key(KeyCode::Right, KeyModifiers::none()),
    );
    handle_workspace_switcher_key(
        &mut state,
        &terminal_runtimes,
        key(KeyCode::Down, KeyModifiers::none()),
    );
    assert!(
        state.workspace_switcher_rows_from(&terminal_runtimes)
            [state.workspace_switcher.selected]
            .is_tab
    );

    handle_workspace_switcher_key(
        &mut state,
        &terminal_runtimes,
        key(KeyCode::Left, KeyModifiers::none()),
    );

    let rows = state.workspace_switcher_rows_from(&terminal_runtimes);
    assert!(!rows
        .iter()
        .any(|row| row.ws_idx == selected_ws && row.is_tab));
    assert_eq!(rows[state.workspace_switcher.selected].ws_idx, selected_ws);
    assert!(!rows[state.workspace_switcher.selected].is_tab);
}

#[test]
fn search_direction_keys_leave_observable_state_and_results_unchanged() {
    let (mut state, terminal_runtimes, command_modifiers) =
        state_with_quick_switch_binding("ctrl+tab", None);
    state.enter_workspace_switcher_search_from(&terminal_runtimes);
    state.workspace_switcher.query = "main".into();
    state.clamp_workspace_switcher_selection_from(&terminal_runtimes);
    let before = format!("{:?}", state.workspace_switcher);
    let before_rows = state.workspace_switcher_rows_from(&terminal_runtimes);

    handle_workspace_switcher_key(
        &mut state,
        &terminal_runtimes,
        key(KeyCode::Left, KeyModifiers::none()),
    );
    handle_workspace_switcher_key(
        &mut state,
        &terminal_runtimes,
        key(KeyCode::Right, command_modifiers),
    );

    assert_eq!(format!("{:?}", state.workspace_switcher), before);
    assert_eq!(
        state.workspace_switcher_rows_from(&terminal_runtimes),
        before_rows
    );
}

#[test]
fn workspace_switcher_typing_filters_and_enter_switches_workspace() {
    let mut state = state_with_workspaces(&["main", "issue"]);
    let terminal_runtimes = TerminalRuntimeRegistry::new();
    state.open_workspace_switcher_from(&terminal_runtimes);

    handle_workspace_switcher_key(
        &mut state,
        &terminal_runtimes,
        key(KeyCode::Char('s'), KeyModifiers::none()),
    );
    handle_workspace_switcher_key(
        &mut state,
        &terminal_runtimes,
        key(KeyCode::Char('i'), KeyModifiers::none()),
    );
    handle_workspace_switcher_key(
        &mut state,
        &terminal_runtimes,
        key(KeyCode::Char('u'), KeyModifiers::none()),
    );
    handle_workspace_switcher_key(
        &mut state,
        &terminal_runtimes,
        key(KeyCode::Enter, KeyModifiers::none()),
    );

    assert_eq!(state.active, Some(1));
    assert_eq!(state.mode, Mode::Terminal);
}

#[test]
fn workspace_switcher_escape_closes_without_switching() {
    let mut state = state_with_workspaces(&["main", "issue"]);
    let terminal_runtimes = TerminalRuntimeRegistry::new();
    state.open_workspace_switcher_from(&terminal_runtimes);
    state.move_workspace_switcher_selection_from(&terminal_runtimes, 1);

    handle_workspace_switcher_key(
        &mut state,
        &terminal_runtimes,
        key(KeyCode::Esc, KeyModifiers::none()),
    );

    assert_eq!(state.active, Some(0));
    assert_eq!(state.mode, Mode::Terminal);
}

#[test]
fn workspace_switcher_search_returns_to_quick_switch_on_escape() {
    let mut state = state_with_workspaces(&["main", "issue"]);
    let terminal_runtimes = TerminalRuntimeRegistry::new();
    state.open_workspace_switcher_from(&terminal_runtimes);

    handle_workspace_switcher_key(
        &mut state,
        &terminal_runtimes,
        key(KeyCode::Char('s'), KeyModifiers::none()),
    );
    assert_eq!(state.workspace_switcher.mode, WorkspaceSwitcherMode::Search);

    handle_workspace_switcher_key(
        &mut state,
        &terminal_runtimes,
        key(KeyCode::Esc, KeyModifiers::none()),
    );

    assert_eq!(
        state.workspace_switcher.mode,
        WorkspaceSwitcherMode::QuickSwitch
    );
    assert!(state.workspace_switcher.active);

    handle_workspace_switcher_key(
        &mut state,
        &terminal_runtimes,
        key(KeyCode::Esc, KeyModifiers::none()),
    );

    assert!(!state.workspace_switcher.active);
    assert_eq!(state.mode, Mode::Terminal);
}

#[test]
fn workspace_switcher_quick_switch_accepts_control_modified_commands_while_shortcut_is_held() {
    let mut state = state_with_workspaces(&["main", "issue"]);
    let terminal_runtimes = TerminalRuntimeRegistry::new();
    add_tab(&mut state.workspaces[1], Some("logs"));
    state.switch_workspace(1);
    state.switch_workspace(0);
    state.open_workspace_switcher_from(&terminal_runtimes);

    handle_workspace_switcher_key(
        &mut state,
        &terminal_runtimes,
        key(KeyCode::Char('l'), CONTROL),
    );
    assert!(state
        .workspace_switcher_rows_from(&terminal_runtimes)
        .iter()
        .any(|row| row.ws_idx == 1 && row.is_tab && row.label.display() == "logs"));

    handle_workspace_switcher_key(
        &mut state,
        &terminal_runtimes,
        key(KeyCode::Char('j'), CONTROL),
    );
    assert!(
        state.workspace_switcher_rows_from(&terminal_runtimes)
            [state.workspace_switcher.selected]
            .is_tab
    );

    handle_workspace_switcher_key(
        &mut state,
        &terminal_runtimes,
        key(KeyCode::Char('k'), CONTROL),
    );
    assert!(
        !state.workspace_switcher_rows_from(&terminal_runtimes)
            [state.workspace_switcher.selected]
            .is_tab
    );

    handle_workspace_switcher_key(
        &mut state,
        &terminal_runtimes,
        key(KeyCode::Char('h'), CONTROL),
    );
    assert!(!state
        .workspace_switcher_rows_from(&terminal_runtimes)
        .iter()
        .any(|row| row.ws_idx == 1 && row.is_tab));

    handle_workspace_switcher_key(
        &mut state,
        &terminal_runtimes,
        key(KeyCode::Char('s'), CONTROL),
    );
    assert_eq!(state.workspace_switcher.mode, WorkspaceSwitcherMode::Search);
}

#[test]
fn workspace_switcher_quick_switch_cycle_and_commands_follow_configured_direct_binding() {
    let cases = [
        (
            "ctrl+tab",
            KeyCode::Tab,
            CONTROL,
            KeyCode::Tab,
            both(CONTROL, SHIFT),
        ),
        (
            "cmd+tab",
            KeyCode::Tab,
            SUPER,
            KeyCode::Tab,
            both(SUPER, SHIFT),
        ),
        (
            "alt+tab",
            KeyCode::Tab,
            ALT,
            KeyCode::Tab,
            both(ALT, SHIFT),
        ),
        (
            "super+tab",
            KeyCode::Tab,
            SUPER,
            KeyCode::Tab,
            both(SUPER, SHIFT),
        ),
        (
            "cmd+f13",
            KeyCode::F(13),
            SUPER,
            KeyCode::F(13),
            both(SUPER, SHIFT),
        ),
        (
            "ctrl+f13",
            KeyCode::F(13),
            CONTROL,
            KeyCode::F(13),
            both(CONTROL, SHIFT),
        ),
    ];

    for (binding, forward_code, forward_modifiers, backward_code, backward_modifiers) in cases {
        let (mut state, terminal_runtimes, command_modifiers) =
            state_with_quick_switch_binding(binding, None);
        let initial_ws = selected_workspace_switcher_ws_idx(&state, &terminal_runtimes);

        handle_workspace_switcher_key(
            &mut state,
            &terminal_runtimes,
            key(forward_code, forward_modifiers),
        );
        assert_ne!(
            selected_workspace_switcher_ws_idx(&state, &terminal_runtimes),
            initial_ws,
            "{binding} should cycle forward"
        );

        handle_workspace_switcher_key(
            &mut state,
            &terminal_runtimes,
            key(backward_code, backward_modifiers),
        );
        assert_eq!(
            selected_workspace_switcher_ws_idx(&state, &terminal_runtimes),
            initial_ws,
            "{binding} should cycle backward"
        );

        handle_workspace_switcher_key(
            &mut state,
            &terminal_runtimes,
            key(KeyCode::Char('l'), command_modifiers),
        );
        assert!(
            state
                .workspace_switcher_rows_from(&terminal_runtimes)
                .iter()
                .any(|row| row.ws_idx == initial_ws
                    && row.is_tab
                    && row.label.display() == "logs"),
            "{binding} should expand with the configured modifier"
        );

        handle_workspace_switcher_key(
            &mut state,
            &terminal_runtimes,
            key(KeyCode::Char('j'), command_modifiers),
        );
        assert!(
            state.workspace_switcher_rows_from(&terminal_runtimes)
                [state.workspace_switcher.selected]
                .is_tab,
            "{binding} should move down with the configured modifier"
        );

        handle_workspace_switcher_key(
            &mut state,
            &terminal_runtimes,
            key(KeyCode::Char('k'), command_modifiers),
        );
        assert!(
            !state.workspace_switcher_rows_from(&terminal_runtimes)
                [state.workspace_switcher.selected]
                .is_tab,
            "{binding} should move up with the configured modifier"
        );

        handle_workspace_switcher_key(
            &mut state,
            &terminal_runtimes,
            key(KeyCode::Char('h'), command_modifiers),
        );
        assert!(
            !state
                .workspace_switcher_rows_from(&terminal_runtimes)
                .iter()
                .any(|row| row.ws_idx == initial_ws && row.is_tab),
            "{binding} should collapse with the configured modifier"
        );

        handle_workspace_switcher_key(
            &mut state,
            &terminal_runtimes,
            key(KeyCode::Char('s'), command_modifiers),
        );
        assert_eq!(
            state.workspace_switcher.mode,
            WorkspaceSwitcherMode::Search,
            "{binding} should enter search with the configured modifier"
        );
    }
}

#[test]
fn workspace_switcher_quick_switch_backward_cycle_uses_explicit_override_when_set() {
    let (mut state, terminal_runtimes, _) =
        state_with_quick_switch_binding("cmd+f13", Some("cmd+f14"));
    let initial_ws = selected_workspace_switcher_ws_idx(&state, &terminal_runtimes);

    handle_workspace_switcher_key(
        &mut state,
        &terminal_runtimes,
        key(KeyCode::F(13), SUPER),
    );
    let after_forward = selected_workspace_switcher_ws_idx(&state, &terminal_runtimes);
    assert_ne!(after_forward, initial_ws);

    handle_workspace_switcher_key(
        &mut state,
        &terminal_runtimes,
        key(KeyCode::F(13), both(SUPER, SHIFT)),
    );
    assert_eq!(
        selected_workspace_switcher_ws_idx(&state, &terminal_runtimes),
        after_forward,
        "derived backward shortcut should not apply when an override is set"
    );

    handle_workspace_switcher_key(
        &mut state,
        &terminal_runtimes,
        key(KeyCode::F(14), SUPER),
    );
    assert_eq!(
        selected_workspace_switcher_ws_idx(&state, &terminal_runtimes),
        initial_ws
    );
}

#[test]
fn workspace_switcher_quick_switch_shift_press_cycles_backward() {
    let (mut state, terminal_runtimes, _) = state_with_quick_switch_binding("ctrl+tab", None);
    let initial_ws = selected_workspace_switcher_ws_idx(&state, &terminal_runtimes);

    // Cycle forward first
    handle_workspace_switcher_key(
        &mut state,
        &terminal_runtimes,
        key(KeyCode::Tab, CONTROL),
    );
    let after_forward = selected_workspace_switcher_ws_idx(&state, &terminal_runtimes);
    assert_ne!(after_forward, initial_ws);

    // Shift press while Ctrl held cycles backward
    handle_workspace_switcher_key(
        &mut state,
        &terminal_runtimes,
        key(
            KeyCode::Modifier(ModifierKeyCode::LeftShift),
            both(CONTROL, SHIFT),
        ),
    );
    assert_eq!(
        selected_workspace_switcher_ws_idx(&state, &terminal_runtimes),
        initial_ws,
        "Shift press while modifier held should cycle backward"
    );
}

#[test]
fn workspace_switcher_quick_shift_press_with_right_shift_cycles_backward() {
    let (mut state, terminal_runtimes, _) = state_with_quick_switch_binding("ctrl+tab", None);
    let initial_ws = selected_workspace_switcher_ws_idx(&state, &terminal_runtimes);

    handle_workspace_switcher_key(
        &mut state,
        &terminal_runtimes,
        key(KeyCode::Tab, CONTROL),
    );

    handle_workspace_switcher_key(
        &mut state,
        &terminal_runtimes,
        key(
            KeyCode::Modifier(ModifierKeyCode::RightShift),
            both(CONTROL, SHIFT),
        ),
    );
    assert_eq!(
        selected_workspace_switcher_ws_idx(&state, &terminal_runtimes),
        initial_ws,
        "Right Shift press should also cycle backward"
    );
}

#[test]
fn workspace_switcher_quick_switch_command_chars_work_with_shift_held() {
    let (mut state, terminal_runtimes, _) = state_with_quick_switch_binding("ctrl+tab", None);
    let initial_ws = selected_workspace_switcher_ws_idx(&state, &terminal_runtimes);

    // 'l' with CONTROL | SHIFT should still expand (using .contains())
    handle_workspace_switcher_key(
        &mut state,
        &terminal_runtimes,
        key(
            KeyCode::Char('l'),
            both(CONTROL, SHIFT),
        ),
    );
    assert!(
        state
            .workspace_switcher_rows_from(&terminal_runtimes)
            .iter()
            .any(|row| row.ws_idx == initial_ws && row.is_tab && row.label.display() == "logs"),
        "expand command should work when Shift is held alongside modifier"
    );

    // 'j' with CONTROL | SHIFT should still move down
    handle_workspace_switcher_key(
        &mut state,
        &terminal_runtimes,
        key(
            KeyCode::Char('j'),
            both(CONTROL, SHIFT),
        ),
    );
    assert!(
        state.workspace_switcher_rows_from(&terminal_runtimes)
            [state.workspace_switcher.selected]
            .is_tab,
        "move down command should work when Shift is held alongside modifier"
    );

    // 'k' with CONTROL | SHIFT should still move up
    handle_workspace_switcher_key(
        &mut state,
        &terminal_runtimes,
        key(
            KeyCode::Char('k'),
            both(CONTROL, SHIFT),
        ),
    );
    assert!(
        !state.workspace_switcher_rows_from(&terminal_runtimes)
            [state.workspace_switcher.selected]
            .is_tab,
        "move up command should work when Shift is held alongside modifier"
    );

    // 'h' with CONTROL | SHIFT should still collapse
    handle_workspace_switcher_key(
        &mut state,
        &terminal_runtimes,
        key(
            KeyCode::Char('h'),
            both(CONTROL, SHIFT),
        ),
    );
    assert!(
        !state
            .workspace_switcher_rows_from(&terminal_runtimes)
            .iter()
            .any(|row| row.ws_idx == initial_ws && row.is_tab),
        "collapse command should work when Shift is held alongside modifier"
    );

    // 's' with CONTROL | SHIFT should still enter search
    handle_workspace_switcher_key(
        &mut state,
        &terminal_runtimes,
        key(
            KeyCode::Char('s'),
            both(CONTROL, SHIFT),
        ),
    );
    assert_eq!(
        state.workspace_switcher.mode,
        WorkspaceSwitcherMode::Search,
        "search command should work when Shift is held alongside modifier"
    );
}

#[test]
fn workspace_switcher_quick_switch_shift_press_with_backward_override_still_works() {
    // Shift-press should cycle backward even when an explicit backward override is set
    let (mut state, terminal_runtimes, _) =
        state_with_quick_switch_binding("ctrl+tab", Some("ctrl+shift+tab"));
    let initial_ws = selected_workspace_switcher_ws_idx(&state, &terminal_runtimes);

    // Cycle forward first
    handle_workspace_switcher_key(
        &mut state,
        &terminal_runtimes,
        key(KeyCode::Tab, CONTROL),
    );
    let after_forward = selected_workspace_switcher_ws_idx(&state, &terminal_runtimes);
    assert_ne!(after_forward, initial_ws);

    // Shift press should still cycle backward (native overlay, not configurable)
    handle_workspace_switcher_key(
        &mut state,
        &terminal_runtimes,
        key(
            KeyCode::Modifier(ModifierKeyCode::LeftShift),
            both(CONTROL, SHIFT),
        ),
    );
    assert_eq!(
        selected_workspace_switcher_ws_idx(&state, &terminal_runtimes),
        initial_ws,
        "Shift press should cycle backward even with explicit backward override"
    );
}

#[test]
fn workspace_switcher_quick_switch_shift_press_without_modifier_is_noop() {
    // Shift press without the quick-switch modifier held should not cycle
    let (mut state, terminal_runtimes, _) = state_with_quick_switch_binding("ctrl+tab", None);
    let initial_ws = selected_workspace_switcher_ws_idx(&state, &terminal_runtimes);

    handle_workspace_switcher_key(
        &mut state,
        &terminal_runtimes,
        key(
            KeyCode::Modifier(ModifierKeyCode::LeftShift),
            SHIFT,
        ),
    );
    assert_eq!(
        selected_workspace_switcher_ws_idx(&state, &terminal_runtimes),
        initial_ws,
        "Shift press without quick-switch modifier should be a no-op"
    );
}

#[test]
fn workspace_switcher_quick_switch_shift_press_wraps_from_first_workspace() {
    // Picker starts at first non-active workspace in MRU order (workspace 2).
    // Cycle backward once to reach workspace 0, then again to wrap around.
    let (mut state, terminal_runtimes, _) = state_with_quick_switch_binding("ctrl+tab", None);
    let start_ws = selected_workspace_switcher_ws_idx(&state, &terminal_runtimes);

    // First backward: from start_ws → workspace 0
    handle_workspace_switcher_key(
        &mut state,
        &terminal_runtimes,
        key(
            KeyCode::Modifier(ModifierKeyCode::LeftShift),
            both(CONTROL, SHIFT),
        ),
    );
    let after_one = selected_workspace_switcher_ws_idx(&state, &terminal_runtimes);
    assert_eq!(after_one, 0, "first backward should land at workspace 0");

    // Second backward: wrap from workspace 0 to last in MRU order
    handle_workspace_switcher_key(
        &mut state,
        &terminal_runtimes,
        key(
            KeyCode::Modifier(ModifierKeyCode::LeftShift),
            both(CONTROL, SHIFT),
        ),
    );
    let after_wrap = selected_workspace_switcher_ws_idx(&state, &terminal_runtimes);
    assert_ne!(
        after_wrap, start_ws,
        "wrap-around should land on a different workspace"
    );
    assert_ne!(
        after_wrap, after_one,
        "wrap-around should move from workspace 0"
    );
}

#[test]
fn workspace_switcher_quick_switch_arrow_keys_work_with_shift_held() {
    let (mut state, terminal_runtimes, _) = state_with_quick_switch_binding("ctrl+tab", None);

    // Expand workspace so tab rows are visible for arrow navigation
    handle_workspace_switcher_key(
        &mut state,
        &terminal_runtimes,
        key(
            KeyCode::Char('l'),
            both(CONTROL, SHIFT),
        ),
    );

    // Down arrow with CONTROL | SHIFT should still move down
    handle_workspace_switcher_key(
        &mut state,
        &terminal_runtimes,
        key(KeyCode::Down, both(CONTROL, SHIFT)),
    );
    assert!(
        state.workspace_switcher_rows_from(&terminal_runtimes)
            [state.workspace_switcher.selected]
            .is_tab,
        "Down arrow should work when Shift is held alongside modifier"
    );

    // Up arrow with CONTROL | SHIFT should still move up
    handle_workspace_switcher_key(
        &mut state,
        &terminal_runtimes,
        key(KeyCode::Up, both(CONTROL, SHIFT)),
    );
    assert!(
        !state.workspace_switcher_rows_from(&terminal_runtimes)
            [state.workspace_switcher.selected]
            .is_tab,
        "Up arrow should work when Shift is held alongside modifier"
    );
}

#[test]
fn workspace_switcher_quick_switch_shift_release_does_not_accept() {
    let (state, _terminal_runtimes, _) = state_with_quick_switch_binding("ctrl+tab", None);

    // Releasing Shift while Ctrl is held should NOT trigger accept
    let accepted = quick_switch_modifier_release_matches(
        &state.keybinds.workspace_switcher.forward,
        terminal_key(
            KeyCode::Modifier(ModifierKeyCode::LeftShift),
            KeyModifiers::none(),
        ),
    );
    assert!(
        !accepted,
        "Shift release should not trigger quick-switch accept"
    );
}

#[test]
fn quick_switch_shows_all_workspaces_with_tabs_collapsed() {
    let mut state = app_with_workspaces(&["alpha", "beta", "gamma"]);
    let terminal_runtimes = TerminalRuntimeRegistry::new();
    state.open_workspace_switcher_from(&terminal_runtimes);
    // Quick Switch mode by default.
    assert_eq!(
        state.workspace_switcher.mode,
        WorkspaceSwitcherMode::QuickSwitch
    );
    let rows = state.workspace_switcher_rows_from(&terminal_runtimes);
    // All three workspaces, no tabs (collapsed), no directories.
    assert_eq!(rows.len(), 3);
    assert!(rows.iter().all(|r| !r.is_directory && !r.is_tab));
}

#[test]
fn quick_switch_accept_focuses_selected_workspace() {
    let mut state = app_with_workspaces(&["alpha", "beta"]);
    let terminal_runtimes = TerminalRuntimeRegistry::new();
    state.open_workspace_switcher_from(&terminal_runtimes);
    // Select the second workspace (index 1 in the row list).
    state.workspace_switcher.selected = 1;
    state.capture_workspace_switcher_target_from(&terminal_runtimes);
    let accepted = state.accept_workspace_switcher_selection_from(&terminal_runtimes);
    assert!(accepted);
    assert!(!state.workspace_switcher.active);
    assert_eq!(state.mode, Mode::Terminal);
}

#[test]
fn quick_switch_escape_closes_without_changing_active() {
    let mut state = app_with_workspaces(&["alpha", "beta"]);
    let original_active = state.active;
    let terminal_runtimes = TerminalRuntimeRegistry::new();
    state.open_workspace_switcher_from(&terminal_runtimes);
    assert!(state.workspace_switcher.active);
    close_workspace_switcher(&mut state);
    assert!(!state.workspace_switcher.active);
    assert_eq!(state.active, original_active);
    assert_eq!(state.mode, Mode::Terminal);
}

#[test]
fn quick_switch_no_directory_rows_or_provider_state() {
    let mut state = app_with_workspaces(&["alpha"]);
    let terminal_runtimes = TerminalRuntimeRegistry::new();
    state.open_workspace_switcher_from(&terminal_runtimes);
    let rows = state.workspace_switcher_rows_from(&terminal_runtimes);
    assert!(rows.iter().all(|r| !r.is_directory));
    assert_eq!(
        state.workspace_switcher.provider_status,
        SearchProviderStatus::Idle
    );
    assert!(state.workspace_switcher.provider_candidates.is_empty());
}
