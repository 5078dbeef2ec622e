use herdr::draw::{DrawOp, Frame, ScrollMetrics};
use herdr::geometry::{Rect, ViewLayout};
use herdr::input::{quick_switch_modifier_release_matches, ActionKeybinds, BindingTrigger, CycleKeybinds, KeyCode, KeyCombo, KeyEvent, KeyModifiers, ModifierKeyCode, MouseButton, MouseEvent, MouseEventKind, TerminalKey};
use herdr::picker_input::{handle_quick_switch_key_release, handle_workspace_picker_key, handle_workspace_picker_mouse};
use herdr::picker_render::{render_row, render_workspace_picker_overlay};
use herdr::picker_rows::{WorkspacePickerRow, WorkspacePickerTarget};
use herdr::picker_session::close_workspace_picker;
use herdr::rows::AgentState;
use herdr::state::{AppState, Keybinds, Mode, WorkspacePickerMode, WorkspacePickerPreview};
use herdr::style::{Color, Dot, DotPair, Palette, Style};
use herdr::terminal::{PaneRuntime, TerminalRuntimeRegistry};
use herdr::workspace::{Tab, Workspace, WorktreeSpace};
use ratatui::buffer::Buffer;
use ratatui::widgets::{Clear, Paragraph, Widget};

fn rect(x: u16, y: u16, width: u16, height: u16) -> Rect {
    Rect { x, y, width, height }
}

fn dot(symbol: char, color: Color) -> Dot {
    Dot { symbol, style: Style::plain().with_fg(color) }
}

fn palette() -> Palette {
    Palette {
        accent: Color::Rgb(137, 180, 250),
        panel_bg: Color::Rgb(24, 24, 37),
        text: Color::Rgb(205, 214, 244),
        subtext0: Color::Rgb(166, 173, 200),
        overlay0: Color::Rgb(108, 112, 134),
        overlay1: Color::Rgb(127, 132, 156),
        surface0: Color::Rgb(49, 50, 68),
        surface1: Color::Rgb(69, 71, 90),
        surface_dim: Color::Rgb(30, 30, 46),
        contrast_fg: Color::Rgb(17, 17, 27),
        idle: DotPair { seen: dot('○', Color::Green), unseen: dot('●', Color::Green) },
        working: DotPair { seen: dot('●', Color::Yellow), unseen: dot('●', Color::Yellow) },
        blocked: DotPair { seen: dot('●', Color::Red), unseen: dot('●', Color::Red) },
        unknown: DotPair { seen: dot('·', Color::Gray), unseen: dot('·', Color::Gray) },
    }
}

const SHIFT: KeyModifiers = KeyModifiers {
    shift: true,
    control: false,
    alt: false,
    super_key: false,
    hyper: false,
    meta: false,
};

const CONTROL: KeyModifiers = KeyModifiers {
    shift: false,
    control: true,
    alt: false,
    super_key: false,
    hyper: false,
    meta: false,
};

const ALT: KeyModifiers = KeyModifiers {
    shift: false,
    control: false,
    alt: true,
    super_key: false,
    hyper: false,
    meta: false,
};

const SUPER: KeyModifiers = KeyModifiers {
    shift: false,
    control: false,
    alt: false,
    super_key: true,
    hyper: false,
    meta: false,
};

fn both(a: KeyModifiers, b: KeyModifiers) -> KeyModifiers {
    KeyModifiers {
        shift: a.shift || b.shift,
        control: a.control || b.control,
        alt: a.alt || b.alt,
        super_key: a.super_key || b.super_key,
        hyper: a.hyper || b.hyper,
        meta: a.meta || b.meta,
    }
}

fn key(code: KeyCode, modifiers: KeyModifiers) -> KeyEvent {
    KeyEvent { code, modifiers }
}

fn terminal_key(code: KeyCode, modifiers: KeyModifiers) -> TerminalKey {
    TerminalKey { code, modifiers, shifted_codepoint: None }
}

/// The bindings that `text` asks for, such as `ctrl+tab`.
fn binding(text: &str) -> ActionKeybinds {
    let mut modifiers = KeyModifiers::none();
    let mut code = KeyCode::Null;
    for part in text.split('+') {
        match part {
            "ctrl" => modifiers = both(modifiers, CONTROL),
            "alt" => modifiers = both(modifiers, ALT),
            "cmd" | "super" => modifiers = both(modifiers, SUPER),
            "shift" => modifiers = both(modifiers, SHIFT),
            "tab" => code = KeyCode::Tab,
            "f13" => code = KeyCode::F(13),
            "f14" => code = KeyCode::F(14),
            other => panic!("unknown key {other}"),
        }
    }
    ActionKeybinds { bindings: vec![BindingTrigger::Direct(KeyCombo { code, modifiers })] }
}

fn cycle_keybinds(forward: &str, backward: Option<&str>) -> CycleKeybinds {
    CycleKeybinds {
        forward: binding(forward),
        backward: match backward {
            Some(text) => binding(text),
            None => ActionKeybinds { bindings: vec![] },
        },
    }
}

fn new_state() -> AppState {
    AppState::new(
        Keybinds {
            quick_switch_workspace: cycle_keybinds("ctrl+tab", None),
            workspace_switcher: cycle_keybinds("ctrl+tab", None),
        },
        palette(),
    )
}

fn new_tab(workspace_id: &str, number: u64, name: &str) -> Tab {
    Tab {
        tab_id: format!("{workspace_id}/{number}"),
        display_name: name.to_string(),
        panes: vec![number],
        focused_pane: number,
        activity: String::new(),
        state: AgentState::Unknown,
        seen: true,
    }
}

fn new_workspace(id: &str, name: &str) -> Workspace {
    Workspace {
        id: id.to_string(),
        custom_name: Some(name.to_string()),
        auto_label: format!("cwd-{id}"),
        root_pane: 1,
        cached_git_branch: Some("trunk".to_string()),
        worktree_space: None,
        tabs: vec![new_tab(id, 1, "1")],
        active_tab: 0,
        activity: String::new(),
        state: AgentState::Unknown,
        seen: true,
    }
}

/// Adds a tab with one pane and returns its index.
fn add_tab(ws: &mut Workspace, name: Option<&str>) -> usize {
    let number = ws.tabs.len() as u64 + 1;
    let shown = match name {
        Some(text) => text.to_string(),
        None => number.to_string(),
    };
    let tab = new_tab(&ws.id, number, &shown);
    ws.tabs.push(tab);
    ws.tabs.len() - 1
}

fn app_with_workspaces(names: &[&str]) -> AppState {
    let mut state = new_state();
    for (index, name) in names.iter().enumerate() {
        state.workspaces.push(new_workspace(&format!("w{index}"), name));
    }
    if !state.workspaces.is_empty() {
        state.active = Some(0);
        state.mode = Mode::Terminal;
    }
    state
}

fn state_with_workspaces(names: &[&str]) -> AppState {
    let mut state = app_with_workspaces(names);
    state.selected = 0;
    state.mode = Mode::Navigate;
    state
}

fn mark_linked_worktree_with_repo(state: &mut AppState, ws_idx: usize, repo: &str) {
    state.workspaces[ws_idx].worktree_space = Some(WorktreeSpace {
        key: "repo-key".into(),
        label: repo.into(),
        is_linked_worktree: true,
    });
}

fn mark_linked_worktree(state: &mut AppState, ws_idx: usize) {
    mark_linked_worktree_with_repo(state, ws_idx, "herdr");
}

fn mark_parent_worktree(state: &mut AppState, ws_idx: usize) {
    state.workspaces[ws_idx].worktree_space = Some(WorktreeSpace {
        key: "repo-key".into(),
        label: "herdr".into(),
        is_linked_worktree: false,
    });
}

/// Lays the screen out. A screen narrower than `threshold` gets the mobile layout.
fn compute_view_below(state: &mut AppState, threshold: u16, width: u16, height: u16) {
    if width < threshold {
        let header = if height < 2 { height } else { 2 };
        state.view.layout = ViewLayout::Mobile;
        state.view.sidebar_rect = Rect::default();
        state.view.mobile_header_rect = rect(0, 0, width, header);
        state.view.terminal_area = rect(0, header, width, height - header);
    } else {
        let sidebar = if width < 26 { width } else { 26 };
        state.view.layout = ViewLayout::Desktop;
        state.view.mobile_header_rect = Rect::default();
        state.view.sidebar_rect = rect(0, 0, sidebar, height);
        state.view.terminal_area = rect(sidebar, 0, width - sidebar, height);
    }
    if state.workspace_switcher.active {
        state.ensure_workspace_switcher_selection_visible_from(&TerminalRuntimeRegistry::new());
    }
}

fn compute_view(state: &mut AppState, width: u16, height: u16) {
    compute_view_below(state, 64, width, height);
}

fn screen_color(c: Color) -> ratatui::style::Color {
    match c {
        Color::Reset => ratatui::style::Color::Reset,
        Color::Black => ratatui::style::Color::Black,
        Color::Red => ratatui::style::Color::Red,
        Color::Green => ratatui::style::Color::Green,
        Color::Yellow => ratatui::style::Color::Yellow,
        Color::Blue => ratatui::style::Color::Blue,
        Color::Magenta => ratatui::style::Color::Magenta,
        Color::Cyan => ratatui::style::Color::Cyan,
        Color::Gray => ratatui::style::Color::Gray,
        Color::DarkGray => ratatui::style::Color::DarkGray,
        Color::LightRed => ratatui::style::Color::LightRed,
        Color::LightGreen => ratatui::style::Color::LightGreen,
        Color::LightYellow => ratatui::style::Color::LightYellow,
        Color::LightBlue => ratatui::style::Color::LightBlue,
        Color::LightMagenta => ratatui::style::Color::LightMagenta,
        Color::LightCyan => ratatui::style::Color::LightCyan,
        Color::White => ratatui::style::Color::White,
        Color::Rgb(r, g, b) => ratatui::style::Color::Rgb(r, g, b),
        Color::Indexed(i) => ratatui::style::Color::Indexed(i),
    }
}

fn screen_style(s: Style) -> ratatui::style::Style {
    let mut style = ratatui::style::Style::default();
    if let Some(fg) = s.fg {
        style = style.fg(screen_color(fg));
    }
    if let Some(bg) = s.bg {
        style = style.bg(screen_color(bg));
    }
    if s.add.bold {
        style = style.add_modifier(ratatui::style::Modifier::BOLD);
    }
    style
}

fn screen_rect(r: Rect) -> ratatui::layout::Rect {
    ratatui::layout::Rect::new(r.x, r.y, r.width, r.height)
}

/// Paints a thumb whose size and place follow the metrics.
fn paint_scrollbar(
    buffer: &mut Buffer,
    metrics: ScrollMetrics,
    track: Rect,
    track_color: Color,
    thumb_color: Color,
    symbol: char,
) {
    let height = track.height as usize;
    if height == 0 || metrics.max_offset_from_bottom == 0 {
        return;
    }
    let total = metrics.viewport_rows + metrics.max_offset_from_bottom;
    let thumb = (height * metrics.viewport_rows / total).max(1);
    let above = metrics.max_offset_from_bottom - metrics.offset_from_bottom;
    let start = (height - thumb) * above / metrics.max_offset_from_bottom;
    for offset in 0..height {
        let shown = if offset >= start && offset < start + thumb { thumb_color } else { track_color };
        buffer[(track.x, track.y + offset as u16)]
            .set_symbol(&symbol.to_string())
            .set_fg(screen_color(shown));
    }
}

/// Carries out the steps of `frame`.
fn paint(buffer: &mut Buffer, frame: &Frame) {
    for op in &frame.ops {
        match op {
            DrawOp::Clear { area } => Clear.render(screen_rect(*area), buffer),
            DrawOp::Fill { area, style } => {
                buffer.set_style(screen_rect(*area), screen_style(*style))
            }
            DrawOp::Plain { area, text, style } => Paragraph::new(text.as_str())
                .style(screen_style(*style))
                .render(screen_rect(*area), buffer),
            DrawOp::Lines { area, lines, style, centered } => {
                let text: Vec<ratatui::text::Line> = lines
                    .iter()
                    .map(|line| {
                        let spans: Vec<ratatui::text::Span> = line
                            .spans
                            .iter()
                            .map(|span| {
                                ratatui::text::Span::styled(
                                    span.content.as_str(),
                                    screen_style(span.style),
                                )
                            })
                            .collect();
                        ratatui::text::Line::from(spans)
                    })
                    .collect();
                let mut paragraph = Paragraph::new(text).style(screen_style(*style));
                if *centered {
                    paragraph = paragraph.centered();
                }
                paragraph.render(screen_rect(*area), buffer)
            }
            DrawOp::Cell { x, y, symbol, style } => {
                buffer[(*x, *y)].set_symbol(&symbol.to_string()).set_style(screen_style(*style));
            }
            DrawOp::Scrollbar { metrics, track, track_color, thumb_color, symbol } => {
                paint_scrollbar(buffer, *metrics, *track, *track_color, *thumb_color, *symbol)
            }
            DrawOp::TabSurface { .. } => {}
        }
    }
}

fn painted(width: u16, height: u16, frame: &Frame) -> Buffer {
    let mut buffer = Buffer::empty(ratatui::layout::Rect::new(0, 0, width, height));
    paint(&mut buffer, frame);
    buffer
}

fn selected_workspace_picker_ws_idx(
    state: &AppState,
    terminal_runtimes: &TerminalRuntimeRegistry,
) -> usize {
    let rows = state.workspace_picker_rows_from(terminal_runtimes);
    rows[state.workspace_picker.selected].ws_idx
}

fn state_with_quick_switch_binding(
    forward: &str,
    backward: Option<&str>,
) -> (AppState, TerminalRuntimeRegistry, KeyModifiers) {
    let mut state = state_with_workspaces(&["main", "issue", "docs"]);
    state.keybinds.quick_switch_workspace = cycle_keybinds(forward, backward);
    let command_modifiers =
        state.keybinds.quick_switch_workspace.forward_combo().expect("a direct binding").modifiers;
    add_tab(&mut state.workspaces[1], Some("logs"));
    add_tab(&mut state.workspaces[2], Some("logs"));
    state.switch_workspace(2);
    state.switch_workspace(0);

    let terminal_runtimes = TerminalRuntimeRegistry::new();
    state.open_quick_switch_workspace_from(&terminal_runtimes);
    (state, terminal_runtimes, command_modifiers)
}

#[test]
fn opening_workspace_picker_selects_active_workspace() {
    let mut state = app_with_workspaces(&["one", "two"]);
    state.active = Some(1);

    state.open_workspace_picker();

    assert_eq!(state.mode, Mode::WorkspacePicker);
    assert_eq!(
        state.workspace_picker_rows()[state.workspace_picker.selected].ws_idx,
        1
    );
}

#[test]
fn workspace_picker_filters_workspace_names_only() {
    let mut state = app_with_workspaces(&["one", "issue"]);
    state.workspaces[0].tabs[0].display_name = "weekly review".into();

    state.open_workspace_picker();
    state.workspace_picker.query = "weekly".into();
    assert!(state.workspace_picker_rows().is_empty());

    state.workspace_picker.query = "ie".into();
    let rows = state.workspace_picker_rows();
    assert_eq!(rows.len(), 1);
    assert_eq!(rows[0].ws_idx, 1);
}

#[test]
fn workspace_picker_empty_state_has_placeholder_preview() {
    let mut state = new_state();

    state.open_workspace_picker();

    assert_eq!(state.mode, Mode::WorkspacePicker);
    assert!(matches!(
        state.workspace_picker.preview,
        WorkspacePickerPreview::Empty { ref message } if message == "no workspaces"
    ));
}

#[test]
fn workspace_picker_preview_handles_missing_runtime() {
    let mut state = app_with_workspaces(&["one"]);

    state.open_workspace_picker();

    assert!(matches!(
        state.workspace_picker.preview,
        WorkspacePickerPreview::Empty { ref message } if message == "no pane content"
    ));
}

#[test]
fn workspace_picker_shows_branch_name_for_grouped_child() {
    let mut state = app_with_workspaces(&["main", "issue"]);
    mark_parent_worktree(&mut state, 0);
    mark_linked_worktree(&mut state, 1);
    // Clear custom name so the workspace is auto-named — this is the case
    // where grouped_child_display_label substitutes the branch name.
    state.workspaces[1].custom_name = None;
    state.workspaces[1].cached_git_branch = Some("worktree/issue-137".into());

    state.open_workspace_picker();
    let rows = state.workspace_picker_rows();

    // The grouped child should display the branch name (without "worktree/" prefix),
    // matching the sidebar's grouped_child_display_label behavior.
    let child_row = rows.iter().find(|r| r.ws_idx == 1).unwrap();
    assert_eq!(child_row.label, "issue-137");
}

#[test]
fn workspace_picker_shows_cwd_name_for_standalone_workspace() {
    let mut state = app_with_workspaces(&["main", "issue"]);
    // No worktree_space set — standalone workspace.
    state.workspaces[1].custom_name = None;
    state.workspaces[1].cached_git_branch = Some("worktree/issue-137".into());

    let terminal_runtimes = TerminalRuntimeRegistry::new();
    let raw_label = state.workspaces[1].display_name_from(&terminal_runtimes);

    state.open_workspace_picker();
    let rows = state.workspace_picker_rows();

    // Standalone workspace — no branch substitution, label is CWD-derived.
    let row = rows.iter().find(|r| r.ws_idx == 1).unwrap();
    assert_eq!(row.label, raw_label);
    assert_ne!(row.label, "issue-137");
}

#[test]
fn workspace_picker_keeps_custom_name_for_grouped_child() {
    let mut state = app_with_workspaces(&["main", "issue"]);
    mark_parent_worktree(&mut state, 0);
    mark_linked_worktree(&mut state, 1);
    state.workspaces[1].cached_git_branch = Some("worktree/issue-137".into());
    state.workspaces[1].custom_name = Some("my-custom-name".into());

    state.open_workspace_picker();
    let rows = state.workspace_picker_rows();

    let child_row = rows.iter().find(|r| r.ws_idx == 1).unwrap();
    assert_eq!(child_row.label, "my-custom-name");
}

#[test]
fn workspace_picker_shows_cwd_name_for_linked_only_group() {
    // Two linked worktrees with no parent — should NOT form a parentless group.
    let mut state = app_with_workspaces(&["issue", "review"]);
    mark_linked_worktree(&mut state, 0);
    mark_linked_worktree(&mut state, 1);
    state.workspaces[0].custom_name = None;
    state.workspaces[1].custom_name = None;
    state.workspaces[0].cached_git_branch = Some("worktree/issue-137".into());
    state.workspaces[1].cached_git_branch = Some("worktree/review-42".into());

    let terminal_runtimes = TerminalRuntimeRegistry::new();
    let raw0 = state.workspaces[0].display_name_from(&terminal_runtimes);
    let raw1 = state.workspaces[1].display_name_from(&terminal_runtimes);

    state.open_workspace_picker();
    let rows = state.workspace_picker_rows();

    // Without a parent worktree, these are not grouped children —
    // the CWD-derived name should be used unchanged.
    let row0 = rows.iter().find(|r| r.ws_idx == 0).unwrap();
    assert_eq!(row0.label, raw0);
    assert_ne!(row0.label, "issue-137");
    let row1 = rows.iter().find(|r| r.ws_idx == 1).unwrap();
    assert_eq!(row1.label, raw1);
    assert_ne!(row1.label, "review-42");
}

#[test]
fn quick_switch_uses_mru_order_and_preselects_previous_workspace() {
    let mut state = app_with_workspaces(&["one", "two", "three"]);
    let terminal_runtimes = TerminalRuntimeRegistry::new();
    state.switch_workspace(1);
    state.switch_workspace(2);

    state.open_quick_switch_workspace_from(&terminal_runtimes);
    let rows = state.workspace_picker_rows();

    assert_eq!(rows[0].ws_idx, 2);
    assert_eq!(rows[1].ws_idx, 1);
    assert_eq!(rows[2].ws_idx, 0);
    assert_eq!(state.workspace_picker.selected, 1);
    assert_eq!(
        state.workspace_picker.mode,
        WorkspacePickerMode::QuickSwitch
    );
}

#[test]
fn workspace_picker_quick_switch_tab_cycles_workspace_rows_only() {
    let mut state = app_with_workspaces(&["one", "two", "three"]);
    let terminal_runtimes = TerminalRuntimeRegistry::new();
    state.switch_workspace(1);
    state.switch_workspace(2);
    state.open_quick_switch_workspace_from(&terminal_runtimes);

    state.cycle_quick_switch_workspace_from(&terminal_runtimes, 1);

    let selected = &state.workspace_picker_rows()[state.workspace_picker.selected];
    assert_eq!(selected.ws_idx, 0);
    assert!(!selected.is_tab);
}

#[test]
fn workspace_picker_quick_switch_can_expand_and_select_workspace_tab() {
    let mut state = app_with_workspaces(&["one", "two"]);
    let terminal_runtimes = TerminalRuntimeRegistry::new();
    let second_tab = add_tab(&mut state.workspaces[1], Some("logs"));
    state.switch_workspace(1);
    state.switch_workspace(0);
    state.open_quick_switch_workspace_from(&terminal_runtimes);

    state.expand_selected_workspace_picker_workspace_from(&terminal_runtimes);
    state.move_workspace_picker_selection_from(&terminal_runtimes, 2);

    let rows = state.workspace_picker_rows();
    let selected = &rows[state.workspace_picker.selected];
    assert_eq!(
        selected.target,
        WorkspacePickerTarget::Tab {
            ws_idx: 1,
            tab_idx: second_tab
        }
    );
    assert!(state.accept_workspace_picker_selection_from(&terminal_runtimes));
    assert_eq!(state.active, Some(1));
    assert_eq!(state.workspaces[1].active_tab, second_tab);
}

#[test]
fn workspace_picker_typing_filters_and_enter_switches_workspace() {
    let mut state = state_with_workspaces(&["main", "issue"]);
    let terminal_runtimes = TerminalRuntimeRegistry::new();
    state.open_workspace_picker_from(&terminal_runtimes);

    handle_workspace_picker_key(
        &mut state,
        &terminal_runtimes,
        key(KeyCode::Char('i'), KeyModifiers::none()),
    );
    handle_workspace_picker_key(
        &mut state,
        &terminal_runtimes,
        key(KeyCode::Enter, KeyModifiers::none()),
    );

    assert_eq!(state.active, Some(1));
    assert_eq!(state.mode, Mode::Terminal);
}

#[test]
fn workspace_picker_escape_closes_without_switching() {
    let mut state = state_with_workspaces(&["main", "issue"]);
    let terminal_runtimes = TerminalRuntimeRegistry::new();
    state.open_workspace_picker_from(&terminal_runtimes);
    state.move_workspace_picker_selection_from(&terminal_runtimes, 1);

    handle_workspace_picker_key(
        &mut state,
        &terminal_runtimes,
        key(KeyCode::Esc, KeyModifiers::none()),
    );

    assert_eq!(state.active, Some(0));
    assert_eq!(state.mode, Mode::Terminal);
}

#[test]
fn quick_switch_search_toggle_returns_to_quick_switch_on_escape() {
    let mut state = state_with_workspaces(&["main", "issue"]);
    let terminal_runtimes = TerminalRuntimeRegistry::new();
    state.open_quick_switch_workspace_from(&terminal_runtimes);

    handle_workspace_picker_key(
        &mut state,
        &terminal_runtimes,
        key(KeyCode::Char('s'), KeyModifiers::none()),
    );
    assert_eq!(
        state.workspace_picker.mode,
        WorkspacePickerMode::QuickSwitchSearch
    );

    handle_workspace_picker_key(
        &mut state,
        &terminal_runtimes,
        key(KeyCode::Esc, KeyModifiers::none()),
    );

    assert_eq!(
        state.workspace_picker.mode,
        WorkspacePickerMode::QuickSwitch
    );
    assert_eq!(state.mode, Mode::WorkspacePicker);
}

#[test]
fn workspace_picker_quick_switch_accepts_control_modified_commands_while_shortcut_is_held() {
    let mut state = state_with_workspaces(&["main", "issue"]);
    let terminal_runtimes = TerminalRuntimeRegistry::new();
    add_tab(&mut state.workspaces[1], Some("logs"));
    state.switch_workspace(1);
    state.switch_workspace(0);
    state.open_quick_switch_workspace_from(&terminal_runtimes);

    handle_workspace_picker_key(
        &mut state,
        &terminal_runtimes,
        key(KeyCode::Char('l'), CONTROL),
    );
    assert!(state
        .workspace_picker_rows_from(&terminal_runtimes)
        .iter()
        .any(|row| row.ws_idx == 1 && row.is_tab && row.label == "logs"));

    handle_workspace_picker_key(
        &mut state,
        &terminal_runtimes,
        key(KeyCode::Char('j'), CONTROL),
    );
    assert!(
        state.workspace_picker_rows_from(&terminal_runtimes)[state.workspace_picker.selected]
            .is_tab
    );

    handle_workspace_picker_key(
        &mut state,
        &terminal_runtimes,
        key(KeyCode::Char('k'), CONTROL),
    );
    assert!(
        !state.workspace_picker_rows_from(&terminal_runtimes)[state.workspace_picker.selected]
            .is_tab
    );

    handle_workspace_picker_key(
        &mut state,
        &terminal_runtimes,
        key(KeyCode::Char('h'), CONTROL),
    );
    assert!(!state
        .workspace_picker_rows_from(&terminal_runtimes)
        .iter()
        .any(|row| row.ws_idx == 1 && row.is_tab));

    handle_workspace_picker_key(
        &mut state,
        &terminal_runtimes,
        key(KeyCode::Char('s'), CONTROL),
    );
    assert_eq!(
        state.workspace_picker.mode,
        WorkspacePickerMode::QuickSwitchSearch
    );
}

#[test]
fn workspace_picker_quick_switch_cycle_and_commands_follow_configured_direct_binding() {
    let cases = [
        (
            "ctrl+tab",
            KeyCode::Tab,
            CONTROL,
            KeyCode::Tab,
            both(CONTROL, SHIFT),
        ),
        (
            "cmd+tab",
            KeyCode::Tab,
            SUPER,
            KeyCode::Tab,
            both(SUPER, SHIFT),
        ),
        (
            "alt+tab",
            KeyCode::Tab,
            ALT,
            KeyCode::Tab,
            both(ALT, SHIFT),
        ),
        (
            "super+tab",
            KeyCode::Tab,
            SUPER,
            KeyCode::Tab,
            both(SUPER, SHIFT),
        ),
        (
            "cmd+f13",
            KeyCode::F(13),
            SUPER,
            KeyCode::F(13),
            both(SUPER, SHIFT),
        ),
        (
            "ctrl+f13",
            KeyCode::F(13),
            CONTROL,
            KeyCode::F(13),
            both(CONTROL, SHIFT),
        ),
    ];

    for (binding, forward_code, forward_modifiers, backward_code, backward_modifiers) in cases {
        let (mut state, terminal_runtimes, command_modifiers) =
            state_with_quick_switch_binding(binding, None);
        let initial_ws = selected_workspace_picker_ws_idx(&state, &terminal_runtimes);

        handle_workspace_picker_key(
            &mut state,
            &terminal_runtimes,
            key(forward_code, forward_modifiers),
        );
        assert_ne!(
            selected_workspace_picker_ws_idx(&state, &terminal_runtimes),
            initial_ws,
            "{binding} should cycle forward"
        );

        handle_workspace_picker_key(
            &mut state,
            &terminal_runtimes,
            key(backward_code, backward_modifiers),
        );
        assert_eq!(
            selected_workspace_picker_ws_idx(&state, &terminal_runtimes),
            initial_ws,
            "{binding} should cycle backward"
        );

        handle_workspace_picker_key(
            &mut state,
            &terminal_runtimes,
            key(KeyCode::Char('l'), command_modifiers),
        );
        assert!(
            state
                .workspace_picker_rows_from(&terminal_runtimes)
                .iter()
                .any(|row| row.ws_idx == initial_ws && row.is_tab && row.label == "logs"),
            "{binding} should expand with the configured modifier"
        );

        handle_workspace_picker_key(
            &mut state,
            &terminal_runtimes,
            key(KeyCode::Char('j'), command_modifiers),
        );
        assert!(
            state.workspace_picker_rows_from(&terminal_runtimes)
                [state.workspace_picker.selected]
                .is_tab,
            "{binding} should move down with the configured modifier"
        );

        handle_workspace_picker_key(
            &mut state,
            &terminal_runtimes,
            key(KeyCode::Char('k'), command_modifiers),
        );
        assert!(
            !state.workspace_picker_rows_from(&terminal_runtimes)
                [state.workspace_picker.selected]
                .is_tab,
            "{binding} should move up with the configured modifier"
        );

        handle_workspace_picker_key(
            &mut state,
            &terminal_runtimes,
            key(KeyCode::Char('h'), command_modifiers),
        );
        assert!(
            !state
                .workspace_picker_rows_from(&terminal_runtimes)
                .iter()
                .any(|row| row.ws_idx == initial_ws && row.is_tab),
            "{binding} should collapse with the configured modifier"
        );

        handle_workspace_picker_key(
            &mut state,
            &terminal_runtimes,
            key(KeyCode::Char('s'), command_modifiers),
        );
        assert_eq!(
            state.workspace_picker.mode,
            WorkspacePickerMode::QuickSwitchSearch,
            "{binding} should enter search with the configured modifier"
        );
    }
}

#[test]
fn workspace_picker_quick_switch_backward_cycle_uses_explicit_override_when_set() {
    let (mut state, terminal_runtimes, _) =
        state_with_quick_switch_binding("cmd+f13", Some("cmd+f14"));
    let initial_ws = selected_workspace_picker_ws_idx(&state, &terminal_runtimes);

    handle_workspace_picker_key(
        &mut state,
        &terminal_runtimes,
        key(KeyCode::F(13), SUPER),
    );
    let after_forward = selected_workspace_picker_ws_idx(&state, &terminal_runtimes);
    assert_ne!(after_forward, initial_ws);

    handle_workspace_picker_key(
        &mut state,
        &terminal_runtimes,
        key(KeyCode::F(13), both(SUPER, SHIFT)),
    );
    assert_eq!(
        selected_workspace_picker_ws_idx(&state, &terminal_runtimes),
        after_forward,
        "derived backward shortcut should not apply when an override is set"
    );

    handle_workspace_picker_key(
        &mut state,
        &terminal_runtimes,
        key(KeyCode::F(14), SUPER),
    );
    assert_eq!(
        selected_workspace_picker_ws_idx(&state, &terminal_runtimes),
        initial_ws
    );
}

#[test]
fn workspace_picker_quick_switch_shift_press_cycles_backward() {
    let (mut state, terminal_runtimes, _) = state_with_quick_switch_binding("ctrl+tab", None);
    let initial_ws = selected_workspace_picker_ws_idx(&state, &terminal_runtimes);

    // Cycle forward first
    handle_workspace_picker_key(
        &mut state,
        &terminal_runtimes,
        key(KeyCode::Tab, CONTROL),
    );
    let after_forward = selected_workspace_picker_ws_idx(&state, &terminal_runtimes);
    assert_ne!(after_forward, initial_ws);

    // Shift press while Ctrl held cycles backward
    handle_workspace_picker_key(
        &mut state,
        &terminal_runtimes,
        key(
            KeyCode::Modifier(ModifierKeyCode::LeftShift),
            both(CONTROL, SHIFT),
        ),
    );
    assert_eq!(
        selected_workspace_picker_ws_idx(&state, &terminal_runtimes),
        initial_ws,
        "Shift press while modifier held should cycle backward"
    );
}

#[test]
fn workspace_picker_quick_shift_press_with_right_shift_cycles_backward() {
    let (mut state, terminal_runtimes, _) = state_with_quick_switch_binding("ctrl+tab", None);
    let initial_ws = selected_workspace_picker_ws_idx(&state, &terminal_runtimes);

    handle_workspace_picker_key(
        &mut state,
        &terminal_runtimes,
        key(KeyCode::Tab, CONTROL),
    );

    handle_workspace_picker_key(
        &mut state,
        &terminal_runtimes,
        key(
            KeyCode::Modifier(ModifierKeyCode::RightShift),
            both(CONTROL, SHIFT),
        ),
    );
    assert_eq!(
        selected_workspace_picker_ws_idx(&state, &terminal_runtimes),
        initial_ws,
        "Right Shift press should also cycle backward"
    );
}

#[test]
fn workspace_picker_quick_switch_command_chars_work_with_shift_held() {
    let (mut state, terminal_runtimes, _) = state_with_quick_switch_binding("ctrl+tab", None);
    let initial_ws = selected_workspace_picker_ws_idx(&state, &terminal_runtimes);

    // 'l' with CONTROL | SHIFT should still expand (using .contains())
    handle_workspace_picker_key(
        &mut state,
        &terminal_runtimes,
        key(
            KeyCode::Char('l'),
            both(CONTROL, SHIFT),
        ),
    );
    assert!(
        state
            .workspace_picker_rows_from(&terminal_runtimes)
            .iter()
            .any(|row| row.ws_idx == initial_ws && row.is_tab && row.label == "logs"),
        "expand command should work when Shift is held alongside modifier"
    );

    // 'j' with CONTROL | SHIFT should still move down
    handle_workspace_picker_key(
        &mut state,
        &terminal_runtimes,
        key(
            KeyCode::Char('j'),
            both(CONTROL, SHIFT),
        ),
    );
    assert!(
        state.workspace_picker_rows_from(&terminal_runtimes)[state.workspace_picker.selected]
            .is_tab,
        "move down command should work when Shift is held alongside modifier"
    );

    // 'k' with CONTROL | SHIFT should still move up
    handle_workspace_picker_key(
        &mut state,
        &terminal_runtimes,
        key(
            KeyCode::Char('k'),
            both(CONTROL, SHIFT),
        ),
    );
    assert!(
        !state.workspace_picker_rows_from(&terminal_runtimes)[state.workspace_picker.selected]
            .is_tab,
        "move up command should work when Shift is held alongside modifier"
    );

    // 'h' with CONTROL | SHIFT should still collapse
    handle_workspace_picker_key(
        &mut state,
        &terminal_runtimes,
        key(
            KeyCode::Char('h'),
            both(CONTROL, SHIFT),
        ),
    );
    assert!(
        !state
            .workspace_picker_rows_from(&terminal_runtimes)
            .iter()
            .any(|row| row.ws_idx == initial_ws && row.is_tab),
        "collapse command should work when Shift is held alongside modifier"
    );

    // 's' with CONTROL | SHIFT should still enter search
    handle_workspace_picker_key(
        &mut state,
        &terminal_runtimes,
        key(
            KeyCode::Char('s'),
            both(CONTROL, SHIFT),
        ),
    );
    assert_eq!(
        state.workspace_picker.mode,
        WorkspacePickerMode::QuickSwitchSearch,
        "search command should work when Shift is held alongside modifier"
    );
}

#[test]
fn workspace_picker_quick_switch_shift_press_with_backward_override_still_works() {
    // Shift-press should cycle backward even when an explicit backward override is set
    let (mut state, terminal_runtimes, _) =
        state_with_quick_switch_binding("ctrl+tab", Some("ctrl+shift+tab"));
    let initial_ws = selected_workspace_picker_ws_idx(&state, &terminal_runtimes);

    // Cycle forward first
    handle_workspace_picker_key(
        &mut state,
        &terminal_runtimes,
        key(KeyCode::Tab, CONTROL),
    );
    let after_forward = selected_workspace_picker_ws_idx(&state, &terminal_runtimes);
    assert_ne!(after_forward, initial_ws);

    // Shift press should still cycle backward (native overlay, not configurable)
    handle_workspace_picker_key(
        &mut state,
        &terminal_runtimes,
        key(
            KeyCode::Modifier(ModifierKeyCode::LeftShift),
            both(CONTROL, SHIFT),
        ),
    );
    assert_eq!(
        selected_workspace_picker_ws_idx(&state, &terminal_runtimes),
        initial_ws,
        "Shift press should cycle backward even with explicit backward override"
    );
}

#[test]
fn workspace_picker_quick_switch_shift_press_without_modifier_is_noop() {
    // Shift press without the quick-switch modifier held should not cycle
    let (mut state, terminal_runtimes, _) = state_with_quick_switch_binding("ctrl+tab", None);
    let initial_ws = selected_workspace_picker_ws_idx(&state, &terminal_runtimes);

    handle_workspace_picker_key(
        &mut state,
        &terminal_runtimes,
        key(
            KeyCode::Modifier(ModifierKeyCode::LeftShift),
            SHIFT,
        ),
    );
    assert_eq!(
        selected_workspace_picker_ws_idx(&state, &terminal_runtimes),
        initial_ws,
        "Shift press without quick-switch modifier should be a no-op"
    );
}

#[test]
fn workspace_picker_quick_switch_shift_press_wraps_from_first_workspace() {
    // Picker starts at first non-active workspace in MRU order (workspace 2).
    // Cycle backward once to reach workspace 0, then again to wrap around.
    let (mut state, terminal_runtimes, _) = state_with_quick_switch_binding("ctrl+tab", None);
    let start_ws = selected_workspace_picker_ws_idx(&state, &terminal_runtimes);

    // First backward: from start_ws → workspace 0
    handle_workspace_picker_key(
        &mut state,
        &terminal_runtimes,
        key(
            KeyCode::Modifier(ModifierKeyCode::LeftShift),
            both(CONTROL, SHIFT),
        ),
    );
    let after_one = selected_workspace_picker_ws_idx(&state, &terminal_runtimes);
    assert_eq!(after_one, 0, "first backward should land at workspace 0");

    // Second backward: wrap from workspace 0 to last in MRU order
    handle_workspace_picker_key(
        &mut state,
        &terminal_runtimes,
        key(
            KeyCode::Modifier(ModifierKeyCode::LeftShift),
            both(CONTROL, SHIFT),
        ),
    );
    let after_wrap = selected_workspace_picker_ws_idx(&state, &terminal_runtimes);
    assert_ne!(
        after_wrap, start_ws,
        "wrap-around should land on a different workspace"
    );
    assert_ne!(
        after_wrap, after_one,
        "wrap-around should move from workspace 0"
    );
}

#[test]
fn workspace_picker_quick_switch_arrow_keys_work_with_shift_held() {
    let (mut state, terminal_runtimes, _) = state_with_quick_switch_binding("ctrl+tab", None);

    // Expand workspace so tab rows are visible for arrow navigation
    handle_workspace_picker_key(
        &mut state,
        &terminal_runtimes,
        key(
            KeyCode::Char('l'),
            both(CONTROL, SHIFT),
        ),
    );

    // Down arrow with CONTROL | SHIFT should still move down
    handle_workspace_picker_key(
        &mut state,
        &terminal_runtimes,
        key(KeyCode::Down, both(CONTROL, SHIFT)),
    );
    assert!(
        state.workspace_picker_rows_from(&terminal_runtimes)[state.workspace_picker.selected]
            .is_tab,
        "Down arrow should work when Shift is held alongside modifier"
    );

    // Up arrow with CONTROL | SHIFT should still move up
    handle_workspace_picker_key(
        &mut state,
        &terminal_runtimes,
        key(KeyCode::Up, both(CONTROL, SHIFT)),
    );
    assert!(
        !state.workspace_picker_rows_from(&terminal_runtimes)[state.workspace_picker.selected]
            .is_tab,
        "Up arrow should work when Shift is held alongside modifier"
    );
}

#[test]
fn workspace_picker_quick_switch_shift_release_does_not_accept() {
    let (state, _terminal_runtimes, _) = state_with_quick_switch_binding("ctrl+tab", None);

    // Releasing Shift while Ctrl is held should NOT trigger accept
    let accepted = quick_switch_modifier_release_matches(
        &state.keybinds.quick_switch_workspace.forward,
        terminal_key(
            KeyCode::Modifier(ModifierKeyCode::LeftShift),
            KeyModifiers::none(),
        ),
    );
    assert!(
        !accepted,
        "Shift release should not trigger quick-switch accept"
    );
}

#[test]
fn workspace_picker_render_row_shows_state_dot_for_blocked_workspace() {
    let app = new_state();
    let row = WorkspacePickerRow {
        target: WorkspacePickerTarget::Workspace { ws_idx: 0 },
        ws_idx: 0,
        depth: 0,
        label: "test".to_string(),
        meta: "".to_string(),
        is_current: true,
        expanded: false,
        is_tab: false,
        state: AgentState::Blocked,
        seen: false,
    };
    let area = rect(0, 0, 20, 1);
    let mut frame = Frame::new();
    render_row(&app, &mut frame, area, &row, false);
    let buffer = painted(20, 1, &frame);

    // Span layout: [" ", dot, " ", title]
    // Non-quick-switch, not selected: " ● test" → dot at position 1
    assert_eq!(buffer[(1, 0)].symbol(), "●");
}

#[test]
fn workspace_picker_render_row_shows_state_dot_for_idle_seen_workspace() {
    let app = new_state();
    let row = WorkspacePickerRow {
        target: WorkspacePickerTarget::Workspace { ws_idx: 0 },
        ws_idx: 0,
        depth: 0,
        label: "test".to_string(),
        meta: "".to_string(),
        is_current: false,
        expanded: false,
        is_tab: false,
        state: AgentState::Idle,
        seen: true,
    };
    let area = rect(0, 0, 20, 1);
    let mut frame = Frame::new();
    render_row(&app, &mut frame, area, &row, false);
    let buffer = painted(20, 1, &frame);

    // Span layout: [" ", dot, " ", title]
    // Non-quick-switch, not selected: " ○ test" → dot at position 1
    assert_eq!(buffer[(1, 0)].symbol(), "○");
}

#[test]
fn workspace_picker_render_row_shows_quick_switch_indent() {
    let mut app = new_state();
    app.workspace_picker.mode = WorkspacePickerMode::QuickSwitch;
    let row = WorkspacePickerRow {
        target: WorkspacePickerTarget::Workspace { ws_idx: 0 },
        ws_idx: 0,
        depth: 1,
        label: "ws".to_string(),
        meta: "".to_string(),
        is_current: false,
        expanded: false,
        is_tab: false,
        state: AgentState::Working,
        seen: false,
    };
    let area = rect(0, 0, 20, 1);
    let mut frame = Frame::new();
    render_row(&app, &mut frame, area, &row, false);
    let buffer = painted(20, 1, &frame);

    // Quick-switch workspace row, depth=1: "   ▸ ● ws"
    // Position 3 is caret "▸" (after leading space + 2-char indent)
    assert_eq!(buffer[(3, 0)].symbol(), "▸");
}

#[test]
fn the_picker_is_used_with_the_mouse() {
    let runtimes = TerminalRuntimeRegistry::new();
    let mut state = app_with_workspaces(&["one", "two", "three"]);
    compute_view(&mut state, 80, 30);
    state.open_workspace_picker_from(&runtimes);
    let body = state.workspace_picker_body_rect();
    assert_eq!(
        state.workspace_picker_row_index_at_from(&runtimes, body.x, body.y + 2),
        Some(2)
    );
    assert_eq!(state.workspace_picker_row_index_at_from(&runtimes, body.x, body.y + 3), None);

    let at = |kind: MouseEventKind, row: u16| MouseEvent { kind, column: body.x, row };
    handle_workspace_picker_mouse(&mut state, &runtimes, at(MouseEventKind::Moved, body.y + 1));
    assert_eq!(state.workspace_picker.selected, 1);
    let down = MouseEventKind::Down(MouseButton::Left);
    handle_workspace_picker_mouse(&mut state, &runtimes, at(down, body.y + 2));
    assert_eq!(state.active, Some(2));
    assert_eq!(state.mode, Mode::Terminal);

    state.open_workspace_picker_from(&runtimes);
    let outside = MouseEvent { kind: down, column: 0, row: 0 };
    handle_workspace_picker_mouse(&mut state, &runtimes, outside);
    assert_eq!(state.active, Some(2));
    assert_eq!(state.mode, Mode::Terminal);
}

#[test]
fn releasing_the_modifier_accepts_a_quick_switch() {
    let (mut state, runtimes, _) = state_with_quick_switch_binding("alt+tab", None);
    let chosen = selected_workspace_picker_ws_idx(&state, &runtimes);
    let other =
        terminal_key(KeyCode::Modifier(ModifierKeyCode::LeftControl), KeyModifiers::none());
    assert!(!handle_quick_switch_key_release(&mut state, &runtimes, other));
    let release =
        terminal_key(KeyCode::Modifier(ModifierKeyCode::RightAlt), KeyModifiers::none());
    assert!(handle_quick_switch_key_release(&mut state, &runtimes, release));
    assert_eq!(state.active, Some(chosen));
    assert_eq!(state.mode, Mode::Terminal);
}

#[test]
fn pane_content_is_previewed() {
    let runtimes = TerminalRuntimeRegistry {
        runtimes: vec![PaneRuntime {
            pane_id: 1,
            live_label: None,
            visible_ansi: "\x1b[32mok".to_string(),
            visible_rows: vec![],
        }],
    };
    let mut state = app_with_workspaces(&["one"]);
    compute_view(&mut state, 120, 30);
    state.open_workspace_picker_from(&runtimes);
    assert!(!matches!(state.workspace_picker.preview, WorkspacePickerPreview::Empty { .. }));
    let mut frame = Frame::new();
    let inner = state.workspace_picker_inner_rect();
    render_workspace_picker_overlay(&state, &runtimes, &mut frame, Some(inner));
    let buffer = painted(120, 30, &frame);
    let lines: Vec<String> =
        (0..30).map(|y| (0..120).map(|x| buffer[(x, y)].symbol()).collect()).collect();
    assert!(lines.join("\n").contains("ok"), "{}", lines.join("\n"));
    let shown = lines.iter().position(|line| line.contains("ok")).expect("line") as u16;
    let preview = state.workspace_picker_preview_rect();
    assert_eq!(buffer[(preview.x, shown)].fg, screen_color(Color::Green));
}

#[test]
fn rows_count_their_panes() {
    let mut state = app_with_workspaces(&["one"]);
    state.workspaces[0].tabs[0].panes = vec![1, 2];
    assert!(state.workspace_picker_rows()[0].meta.contains("2 panes"));
    state.workspaces[0].tabs[0].panes = vec![1];
    assert!(state.workspace_picker_rows()[0].meta.contains("1 pane"));
}

#[test]
fn cycling_the_picker_there_and_back_returns() {
    let (mut state, runtimes, _) = state_with_quick_switch_binding("ctrl+tab", None);
    let start = selected_workspace_picker_ws_idx(&state, &runtimes);
    for delta in [1, -1, 2, -2] {
        state.cycle_quick_switch_workspace_from(&runtimes, delta);
    }
    assert_eq!(selected_workspace_picker_ws_idx(&state, &runtimes), start);
}

#[test]
fn closing_the_picker_keeps_the_active_workspace() {
    let mut state = app_with_workspaces(&["one", "two"]);
    state.open_workspace_picker();
    close_workspace_picker(&mut state);
    assert_eq!(state.mode, Mode::Terminal);
    assert_eq!(state.active, Some(0));
    assert_eq!(state.workspace_picker.query, "");
}

#[test]
fn cycling_the_picker_goes_round_in_every_mode() {
    let runtimes = TerminalRuntimeRegistry::new();
    let mut state = app_with_workspaces(&["one", "two", "three"]);
    compute_view(&mut state, 80, 30);
    assert!(state.picker_within_limits());
    state.open_workspace_picker_from(&runtimes);
    let start = state.workspace_picker.selected;
    for (delta, back) in [(1, -1), (2, -2), (-1, 1)] {
        state.cycle_quick_switch_workspace_from(&runtimes, delta);
        assert_ne!(state.workspace_picker.selected, start);
        state.cycle_quick_switch_workspace_from(&runtimes, back);
        assert_eq!(state.workspace_picker.selected, start);
    }
    state.cycle_quick_switch_workspace_from(&runtimes, 3);
    assert_eq!(state.workspace_picker.selected, start);

    let (mut state, runtimes, _) = state_with_quick_switch_binding("ctrl+tab", None);
    let chosen = selected_workspace_picker_ws_idx(&state, &runtimes);
    state.expand_selected_workspace_picker_workspace_from(&runtimes);
    state.move_workspace_picker_selection_from(&runtimes, 1);
    assert!(state.workspace_picker_rows()[state.workspace_picker.selected].is_tab);
    state.cycle_quick_switch_workspace_from(&runtimes, 1);
    state.cycle_quick_switch_workspace_from(&runtimes, -1);
    assert!(!state.workspace_picker_rows()[state.workspace_picker.selected].is_tab);
    assert_eq!(selected_workspace_picker_ws_idx(&state, &runtimes), chosen);
}

#[test]
fn expanding_and_collapsing_in_the_picker_leads_back() {
    let (mut state, runtimes, _) = state_with_quick_switch_binding("ctrl+tab", None);
    let start = state.workspace_picker.selected;
    let rows = state.workspace_picker_rows().len();
    let workspace = selected_workspace_picker_ws_idx(&state, &runtimes);
    let tabs = state.workspaces[workspace].tabs.len();
    for down in 0..=tabs {
        state.expand_selected_workspace_picker_workspace_from(&runtimes);
        assert_eq!(state.workspace_picker_rows().len(), rows + tabs);
        state.move_workspace_picker_selection_from(&runtimes, down as isize);
        assert_eq!(state.workspace_picker.selected, start + down);
        for _ in 0..2 {
            state.collapse_selected_workspace_picker_workspace_from(&runtimes);
            assert_eq!(state.workspace_picker.selected, start);
            assert_eq!(state.workspace_picker_rows().len(), rows);
        }
    }
    state.move_workspace_picker_selection_from(&runtimes, 1);
    state.move_workspace_picker_selection_from(&runtimes, -1);
    assert_eq!(state.workspace_picker.selected, start);
}
