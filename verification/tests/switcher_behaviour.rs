use herdr::draw::{DrawOp, Frame, ScrollMetrics};
use herdr::geometry::{workspace_picker_list_width, workspace_switcher_list_width, Rect, ViewLayout};
use herdr::input::{ActionKeybinds, BindingTrigger, CycleKeybinds, KeyCode, KeyCombo, KeyEvent, KeyModifiers, ModifierKeyCode, MouseButton, MouseEvent, MouseEventKind, TerminalKey};
use herdr::picker_input::quick_switch_command_modifiers;
use herdr::provider::{DirectoryPreview, DirectoryPreviewEntry, DirectoryPreviewState, SearchProviderCandidate, SearchProviderStatus};
use herdr::rows::AgentState;
use herdr::state::{AppState, Keybinds, Mode, WorkspaceCanonicalEntry, WorkspaceSwitcherPreview};
use herdr::style::{Color, Dot, DotPair, Palette, Style};
use herdr::switcher_input::{handle_workspace_switcher_key, handle_workspace_switcher_key_release, handle_workspace_switcher_mouse, workspace_switcher_command_modifiers};
use herdr::switcher_overlay::render_workspace_switcher_overlay;
use herdr::switcher_session::{paste_workspace_switcher_query, AppEvent};
use herdr::terminal::{PaneRuntime, TerminalRuntimeRegistry};
use herdr::workspace::{Tab, Workspace};
use ratatui::buffer::Buffer;
use ratatui::widgets::{Block, Clear, Paragraph, Widget};

fn rect(x: u16, y: u16, width: u16, height: u16) -> Rect {
    Rect { x, y, width, height }
}

fn dot(symbol: char, color: Color) -> Dot {
    Dot { symbol, style: Style::plain().with_fg(color) }
}

fn palette() -> Palette {
    Palette {
        accent: Color::Rgb(137, 180, 250),
        panel_bg: Color::Rgb(24, 24, 37),
        text: Color::Rgb(205, 214, 244),
        subtext0: Color::Rgb(166, 173, 200),
        overlay0: Color::Rgb(108, 112, 134),
        overlay1: Color::Rgb(127, 132, 156),
        surface0: Color::Rgb(49, 50, 68),
        surface1: Color::Rgb(69, 71, 90),
        surface_dim: Color::Rgb(30, 30, 46),
        contrast_fg: Color::Rgb(17, 17, 27),
        idle: DotPair { seen: dot('○', Color::Green), unseen: dot('●', Color::Green) },
        working: DotPair { seen: dot('●', Color::Yellow), unseen: dot('●', Color::Yellow) },
        blocked: DotPair { seen: dot('●', Color::Red), unseen: dot('●', Color::Red) },
        unknown: DotPair { seen: dot('·', Color::Gray), unseen: dot('·', Color::Gray) },
    }
}

const SHIFT: KeyModifiers = KeyModifiers {
    shift: true,
    control: false,
    alt: false,
    super_key: false,
    hyper: false,
    meta: false,
};

const CONTROL: KeyModifiers = KeyModifiers {
    shift: false,
    control: true,
    alt: false,
    super_key: false,
    hyper: false,
    meta: false,
};

const ALT: KeyModifiers = KeyModifiers {
    shift: false,
    control: false,
    alt: true,
    super_key: false,
    hyper: false,
    meta: false,
};

const SUPER: KeyModifiers = KeyModifiers {
    shift: false,
    control: false,
    alt: false,
    super_key: true,
    hyper: false,
    meta: false,
};

fn both(a: KeyModifiers, b: KeyModifiers) -> KeyModifiers {
    KeyModifiers {
        shift: a.shift || b.shift,
        control: a.control || b.control,
        alt: a.alt || b.alt,
        super_key: a.super_key || b.super_key,
        hyper: a.hyper || b.hyper,
        meta: a.meta || b.meta,
    }
}

fn key(code: KeyCode, modifiers: KeyModifiers) -> KeyEvent {
    KeyEvent { code, modifiers }
}

fn terminal_key(code: KeyCode, modifiers: KeyModifiers) -> TerminalKey {
    TerminalKey { code, modifiers, shifted_codepoint: None }
}

/// The bindings that `text` asks for, such as `ctrl+tab`.
fn binding(text: &str) -> ActionKeybinds {
    let mut modifiers = KeyModifiers::none();
    let mut code = KeyCode::Null;
    for part in text.split('+') {
        match part {
            "ctrl" => modifiers = both(modifiers, CONTROL),
            "alt" => modifiers = both(modifiers, ALT),
            "cmd" | "super" => modifiers = both(modifiers, SUPER),
            "shift" => modifiers = both(modifiers, SHIFT),
            "tab" => code = KeyCode::Tab,
            "f13" => code = KeyCode::F(13),
            "f14" => code = KeyCode::F(14),
            other => panic!("unknown key {other}"),
        }
    }
    ActionKeybinds { bindings: vec![BindingTrigger::Direct(KeyCombo { code, modifiers })] }
}

fn cycle_keybinds(forward: &str, backward: Option<&str>) -> CycleKeybinds {
    CycleKeybinds {
        forward: binding(forward),
        backward: match backward {
            Some(text) => binding(text),
            None => ActionKeybinds { bindings: vec![] },
        },
    }
}

fn new_state() -> AppState {
    AppState::new(
        Keybinds {
            quick_switch_workspace: cycle_keybinds("ctrl+tab", None),
            workspace_switcher: cycle_keybinds("ctrl+tab", None),
        },
        palette(),
    )
}

fn new_tab(workspace_id: &str, number: u64, name: &str) -> Tab {
    Tab {
        tab_id: format!("{workspace_id}/{number}"),
        display_name: name.to_string(),
        panes: vec![number],
        focused_pane: number,
        activity: String::new(),
        state: AgentState::Unknown,
        seen: true,
    }
}

fn new_workspace(id: &str, name: &str) -> Workspace {
    Workspace {
        id: id.to_string(),
        custom_name: Some(name.to_string()),
        auto_label: format!("cwd-{id}"),
        root_pane: 1,
        cached_git_branch: Some("trunk".to_string()),
        worktree_space: None,
        tabs: vec![new_tab(id, 1, "1")],
        active_tab: 0,
        activity: String::new(),
        state: AgentState::Unknown,
        seen: true,
    }
}

/// Adds a tab with one pane and returns its index.
fn add_tab(ws: &mut Workspace, name: Option<&str>) -> usize {
    let number = ws.tabs.len() as u64 + 1;
    let shown = match name {
        Some(text) => text.to_string(),
        None => number.to_string(),
    };
    let tab = new_tab(&ws.id, number, &shown);
    ws.tabs.push(tab);
    ws.tabs.len() - 1
}

fn app_with_workspaces(names: &[&str]) -> AppState {
    let mut state = new_state();
    for (index, name) in names.iter().enumerate() {
        state.workspaces.push(new_workspace(&format!("w{index}"), name));
    }
    if !state.workspaces.is_empty() {
        state.active = Some(0);
        state.mode = Mode::Terminal;
    }
    state
}

fn state_with_workspaces(names: &[&str]) -> AppState {
    let mut state = app_with_workspaces(names);
    state.selected = 0;
    state.mode = Mode::Navigate;
    state
}

/// Lays the screen out. A screen narrower than `threshold` gets the mobile layout.
fn compute_view_below(state: &mut AppState, threshold: u16, width: u16, height: u16) {
    if width < threshold {
        let header = if height < 2 { height } else { 2 };
        state.view.layout = ViewLayout::Mobile;
        state.view.sidebar_rect = Rect::default();
        state.view.mobile_header_rect = rect(0, 0, width, header);
        state.view.terminal_area = rect(0, header, width, height - header);
    } else {
        let sidebar = if width < 26 { width } else { 26 };
        state.view.layout = ViewLayout::Desktop;
        state.view.mobile_header_rect = Rect::default();
        state.view.sidebar_rect = rect(0, 0, sidebar, height);
        state.view.terminal_area = rect(sidebar, 0, width - sidebar, height);
    }
    if state.workspace_switcher.active {
        state.ensure_workspace_switcher_selection_visible_from(&TerminalRuntimeRegistry::new());
    }
}

fn compute_view(state: &mut AppState, width: u16, height: u16) {
    compute_view_below(state, 64, width, height);
}

fn screen_color(c: Color) -> ratatui::style::Color {
    match c {
        Color::Reset => ratatui::style::Color::Reset,
        Color::Black => ratatui::style::Color::Black,
        Color::Red => ratatui::style::Color::Red,
        Color::Green => ratatui::style::Color::Green,
        Color::Yellow => ratatui::style::Color::Yellow,
        Color::Blue => ratatui::style::Color::Blue,
        Color::Magenta => ratatui::style::Color::Magenta,
        Color::Cyan => ratatui::style::Color::Cyan,
        Color::Gray => ratatui::style::Color::Gray,
        Color::DarkGray => ratatui::style::Color::DarkGray,
        Color::LightRed => ratatui::style::Color::LightRed,
        Color::LightGreen => ratatui::style::Color::LightGreen,
        Color::LightYellow => ratatui::style::Color::LightYellow,
        Color::LightBlue => ratatui::style::Color::LightBlue,
        Color::LightMagenta => ratatui::style::Color::LightMagenta,
        Color::LightCyan => ratatui::style::Color::LightCyan,
        Color::White => ratatui::style::Color::White,
        Color::Rgb(r, g, b) => ratatui::style::Color::Rgb(r, g, b),
        Color::Indexed(i) => ratatui::style::Color::Indexed(i),
    }
}

fn screen_style(s: Style) -> ratatui::style::Style {
    let mut style = ratatui::style::Style::default();
    if let Some(fg) = s.fg {
        style = style.fg(screen_color(fg));
    }
    if let Some(bg) = s.bg {
        style = style.bg(screen_color(bg));
    }
    if s.add.bold {
        style = style.add_modifier(ratatui::style::Modifier::BOLD);
    }
    style
}

fn screen_rect(r: Rect) -> ratatui::layout::Rect {
    ratatui::layout::Rect::new(r.x, r.y, r.width, r.height)
}

/// Paints a thumb whose size and place follow the metrics.
fn paint_scrollbar(
    buffer: &mut Buffer,
    metrics: ScrollMetrics,
    track: Rect,
    track_color: Color,
    thumb_color: Color,
    symbol: char,
) {
    let height = track.height as usize;
    if height == 0 || metrics.max_offset_from_bottom == 0 {
        return;
    }
    let total = metrics.viewport_rows + metrics.max_offset_from_bottom;
    let thumb = (height * metrics.viewport_rows / total).max(1);
    let above = metrics.max_offset_from_bottom - metrics.offset_from_bottom;
    let start = (height - thumb) * above / metrics.max_offset_from_bottom;
    for offset in 0..height {
        let shown = if offset >= start && offset < start + thumb { thumb_color } else { track_color };
        buffer[(track.x, track.y + offset as u16)]
            .set_symbol(&symbol.to_string())
            .set_fg(screen_color(shown));
    }
}

/// Carries out the steps of `frame`.
fn paint(buffer: &mut Buffer, frame: &Frame) {
    for op in &frame.ops {
        match op {
            DrawOp::Clear { area } => Clear.render(screen_rect(*area), buffer),
            DrawOp::Fill { area, style } => {
                buffer.set_style(screen_rect(*area), screen_style(*style))
            }
            DrawOp::Plain { area, text, style } => Paragraph::new(text.as_str())
                .style(screen_style(*style))
                .render(screen_rect(*area), buffer),
            DrawOp::Lines { area, lines, style, centered } => {
                let text: Vec<ratatui::text::Line> = lines
                    .iter()
                    .map(|line| {
                        let spans: Vec<ratatui::text::Span> = line
                            .spans
                            .iter()
                            .map(|span| {
                                ratatui::text::Span::styled(
                                    span.content.as_str(),
                                    screen_style(span.style),
                                )
                            })
                            .collect();
                        ratatui::text::Line::from(spans)
                    })
                    .collect();
                let mut paragraph = Paragraph::new(text).style(screen_style(*style));
                if *centered {
                    paragraph = paragraph.centered();
                }
                paragraph.render(screen_rect(*area), buffer)
            }
            DrawOp::Cell { x, y, symbol, style } => {
                buffer[(*x, *y)].set_symbol(&symbol.to_string()).set_style(screen_style(*style));
            }
            DrawOp::Scrollbar { metrics, track, track_color, thumb_color, symbol } => {
                paint_scrollbar(buffer, *metrics, *track, *track_color, *thumb_color, *symbol)
            }
            DrawOp::TabSurface { .. } => {}
        }
    }
}

/// The whole screen with the switcher on it, inside a border where the layout is wide.
fn rendered_overlay(
    state: &AppState,
    terminal_runtimes: &TerminalRuntimeRegistry,
    width: u16,
    height: u16,
) -> Buffer {
    let mut buffer = Buffer::empty(ratatui::layout::Rect::new(0, 0, width, height));
    let layout = state.workspace_switcher_layout();
    if !layout.mobile_fullscreen {
        Clear.render(screen_rect(layout.popup), &mut buffer);
        Block::bordered().render(screen_rect(layout.popup), &mut buffer);
    }
    let mut frame = Frame::new();
    render_workspace_switcher_overlay(state, terminal_runtimes, &mut frame, true);
    paint(&mut buffer, &frame);
    buffer
}

fn rendered_screen(state: &AppState, width: u16, height: u16) -> Vec<String> {
    let buffer = rendered_overlay(state, &TerminalRuntimeRegistry::new(), width, height);
    (0..height).map(|y| rendered_line(&buffer, y, width)).collect()
}

fn rendered_line(buffer: &Buffer, y: u16, width: u16) -> String {
    (0..width).map(|x| buffer[(x, y)].symbol()).collect()
}

fn selected_workspace_switcher_ws_idx(
    state: &AppState,
    terminal_runtimes: &TerminalRuntimeRegistry,
) -> usize {
    let rows = state.workspace_switcher_rows_from(terminal_runtimes);
    rows[state.workspace_switcher.selected].ws_idx
}

/// The key by which a score is ordered.
fn score_key(score: f64) -> u64 {
    score.to_bits()
}

fn candidate(shown: &str, canonical: &str, score: f64) -> SearchProviderCandidate {
    SearchProviderCandidate {
        shown_path: shown.to_string(),
        canonical_path: canonical.to_string(),
        score: score_key(score),
    }
}

/// Records `cwd` as the directory of every workspace.
fn snapshot_at(state: &mut AppState, cwd: &str) {
    state.workspace_switcher.workspace_canonical_snapshot = state
        .workspaces
        .iter()
        .map(|ws| WorkspaceCanonicalEntry {
            workspace_id: ws.id.clone(),
            canonical_cwd: cwd.to_string(),
        })
        .collect();
}

fn set_snapshot(state: &mut AppState) {
    snapshot_at(state, "/repo/herdr");
}

fn enter_search(state: &mut AppState) {
    let terminal_runtimes = TerminalRuntimeRegistry::new();
    state.open_workspace_switcher_from(&terminal_runtimes);
    state.enter_workspace_switcher_search_from(&terminal_runtimes);
    set_snapshot(state);
}

fn set_query(state: &mut AppState, query: &str) {
    state.workspace_switcher.query = query.to_string();
}

fn state_with_quick_switch_binding(
    forward: &str,
    backward: Option<&str>,
) -> (AppState, TerminalRuntimeRegistry, KeyModifiers) {
    let mut state = state_with_workspaces(&["main", "issue", "docs"]);
    state.keybinds.workspace_switcher = cycle_keybinds(forward, backward);
    let command_modifiers =
        state.keybinds.workspace_switcher.forward_combo().expect("a direct binding").modifiers;
    add_tab(&mut state.workspaces[1], Some("logs"));
    add_tab(&mut state.workspaces[2], Some("logs"));
    state.switch_workspace(2);
    state.switch_workspace(0);

    let terminal_runtimes = TerminalRuntimeRegistry::new();
    state.open_workspace_switcher_from(&terminal_runtimes);
    (state, terminal_runtimes, command_modifiers)
}

fn click(column: u16, row: u16) -> MouseEvent {
    MouseEvent { kind: MouseEventKind::Down(MouseButton::Left), column, row }
}

#[test]
fn every_selection_stays_visible_while_moving() {
    let names: Vec<String> = (0..20).map(|idx| format!("ws-{idx}")).collect();
    let name_refs: Vec<&str> = names.iter().map(String::as_str).collect();
    let runtimes = TerminalRuntimeRegistry::new();
    let mut state = app_with_workspaces(&name_refs);
    compute_view(&mut state, 80, 16);
    state.open_workspace_switcher_from(&runtimes);
    for delta in [1, 1, 5, -3, 100, -7, -100, 4] {
        let before = state.workspace_switcher.selected as isize;
        state.move_workspace_switcher_selection_from(&runtimes, delta);
        let expected = (before + delta).clamp(0, 19) as usize;
        assert_eq!(state.workspace_switcher.selected, expected);
        let layout = state.workspace_switcher_row_layout(&runtimes);
        let first = state.workspace_switcher.scroll;
        let shown = layout.visible_count_at(first);
        assert!(first <= expected && expected < first + shown);
    }
}

#[test]
fn drawn_rows_are_hit_by_the_mouse() {
    let runtimes = TerminalRuntimeRegistry::new();
    let mut state = app_with_workspaces(&["one", "two", "three"]);
    state.workspaces[1].cached_git_branch = None;
    compute_view(&mut state, 80, 30);
    state.open_workspace_switcher_from(&runtimes);
    let body = state.workspace_switcher_body_rect();
    let hits: Vec<Option<usize>> = (0..6)
        .map(|line| state.workspace_switcher_row_index_at_from(&runtimes, body.x, body.y + line))
        .collect();
    assert_eq!(hits, vec![Some(0), Some(0), Some(1), Some(2), Some(2), None]);
    assert_eq!(state.workspace_switcher_row_index_at_from(&runtimes, body.x - 1, body.y), None);
}

#[test]
fn a_click_outside_closes_and_one_inside_accepts() {
    let runtimes = TerminalRuntimeRegistry::new();
    let mut state = app_with_workspaces(&["one", "two"]);
    compute_view(&mut state, 80, 30);
    state.open_workspace_switcher_from(&runtimes);
    handle_workspace_switcher_mouse(&mut state, &runtimes, click(0, 0));
    assert!(!state.workspace_switcher.active);
    assert_eq!(state.active, Some(0));

    state.open_workspace_switcher_from(&runtimes);
    let body = state.workspace_switcher_body_rect();
    handle_workspace_switcher_mouse(&mut state, &runtimes, click(body.x, body.y + 2));
    assert!(!state.workspace_switcher.active);
    assert_eq!(state.active, Some(1));
    assert_eq!(state.workspace_mru[0], state.workspaces[1].id);
}

#[test]
fn releasing_the_modifier_accepts_while_quick_switching_only() {
    let (mut state, runtimes, _) = state_with_quick_switch_binding("ctrl+tab", None);
    let chosen = selected_workspace_switcher_ws_idx(&state, &runtimes);
    let release =
        terminal_key(KeyCode::Modifier(ModifierKeyCode::LeftControl), KeyModifiers::none());
    assert!(handle_workspace_switcher_key_release(&mut state, &runtimes, release));
    assert!(!state.workspace_switcher.active);
    assert_eq!(state.active, Some(chosen));

    state.open_workspace_switcher_from(&runtimes);
    state.enter_workspace_switcher_search_from(&runtimes);
    assert!(!handle_workspace_switcher_key_release(&mut state, &runtimes, release));
    assert!(state.workspace_switcher.active);
}

#[test]
fn pasted_text_joins_the_query_without_control_characters() {
    let runtimes = TerminalRuntimeRegistry::new();
    let mut state = app_with_workspaces(&["alpha", "beta"]);
    assert!(!paste_workspace_switcher_query(&mut state, &runtimes, "beta"));
    state.open_workspace_switcher_from(&runtimes);
    assert!(!paste_workspace_switcher_query(&mut state, &runtimes, "beta"));
    assert_eq!(state.workspace_switcher.query, "");

    state.enter_workspace_switcher_search_from(&runtimes);
    assert!(paste_workspace_switcher_query(&mut state, &runtimes, "be\nt\u{1b}a"));
    assert_eq!(state.workspace_switcher.query, "beta");
    let rows = state.workspace_switcher_rows_from(&runtimes);
    assert_eq!(rows.len(), 1);
    assert_eq!(rows[0].ws_idx, 1);
}

#[test]
fn the_query_is_edited_by_keys() {
    let runtimes = TerminalRuntimeRegistry::new();
    let mut state = app_with_workspaces(&["alpha", "beta"]);
    state.open_workspace_switcher_from(&runtimes);
    state.enter_workspace_switcher_search_from(&runtimes);
    for c in ['b', 'e', 'x'] {
        let typed = key(KeyCode::Char(c), KeyModifiers::none());
        handle_workspace_switcher_key(&mut state, &runtimes, typed);
    }
    assert_eq!(state.workspace_switcher.query, "bex");
    let erase = key(KeyCode::Backspace, KeyModifiers::none());
    handle_workspace_switcher_key(&mut state, &runtimes, erase);
    assert_eq!(state.workspace_switcher.query, "be");
    handle_workspace_switcher_key(&mut state, &runtimes, key(KeyCode::Char('u'), CONTROL));
    assert_eq!(state.workspace_switcher.query, "");
    handle_workspace_switcher_key(&mut state, &runtimes, erase);
    assert_eq!(state.workspace_switcher.query, "");
    handle_workspace_switcher_key(&mut state, &runtimes, key(KeyCode::Char('q'), KeyModifiers::none()));
    assert!(!state.workspace_switcher.active);
}

#[test]
fn an_acceptance_without_a_target_changes_nothing() {
    let runtimes = TerminalRuntimeRegistry::new();
    let mut state = app_with_workspaces(&["alpha"]);
    state.open_workspace_switcher_from(&runtimes);
    state.enter_workspace_switcher_search_from(&runtimes);
    state.workspace_switcher.query = "missing".into();
    state.clamp_workspace_switcher_selection_from(&runtimes);
    let before = format!("{state:?}");
    assert!(!state.accept_workspace_switcher_selection_from(&runtimes));
    assert_eq!(format!("{state:?}"), before);
}

#[test]
fn switching_moves_a_workspace_to_the_front() {
    let mut state = app_with_workspaces(&["one", "two", "three"]);
    state.switch_workspace(1);
    state.switch_workspace(2);
    assert_eq!(state.workspace_mru_indices(), vec![2, 1, 0]);
    state.switch_workspace(1);
    assert_eq!(state.workspace_mru_indices(), vec![1, 2, 0]);
    assert_eq!(state.active, Some(1));
    // An index without a workspace is ignored.
    state.switch_workspace(7);
    assert_eq!(state.active, Some(1));
}

#[test]
fn cycling_there_and_back_returns_to_the_same_workspace() {
    let (mut state, runtimes, _) = state_with_quick_switch_binding("ctrl+tab", None);
    let start = selected_workspace_switcher_ws_idx(&state, &runtimes);
    for delta in [1, -1, 2, -2, -1, 1] {
        state.cycle_workspace_switcher_from(&runtimes, delta);
    }
    assert_eq!(selected_workspace_switcher_ws_idx(&state, &runtimes), start);
}

#[test]
fn the_parts_of_the_popup_stay_inside_it() {
    for width in [64u16, 80, 100, 200] {
        for height in [5u16, 9, 20, 60] {
            let mut state = app_with_workspaces(&["one"]);
            compute_view(&mut state, width, height);
            state.open_workspace_switcher();
            let popup = state.workspace_switcher_popup_rect();
            for part in [
                state.workspace_switcher_inner_rect(),
                state.workspace_switcher_content_rect(),
                state.workspace_switcher_body_rect(),
            ] {
                assert!(part.x >= popup.x && part.x + part.width <= popup.x + popup.width);
                assert!(part.y >= popup.y && part.y + part.height <= popup.y + popup.height);
            }
        }
    }
}

#[test]
fn list_widths_follow_their_formula() {
    assert_eq!(workspace_switcher_list_width(47), 47);
    assert_eq!(workspace_switcher_list_width(48), 24);
    assert_eq!(workspace_switcher_list_width(98), 32);
    assert_eq!(workspace_picker_list_width(47), 47);
    assert_eq!(workspace_picker_list_width(98), 32);
}

#[test]
fn sections_of_a_screen_are_joined() {
    // A screen whose parts do not start at the origin.
    let mut state = app_with_workspaces(&["one"]);
    state.view.sidebar_rect = rect(2, 1, 20, 30);
    state.view.terminal_area = rect(22, 2, 98, 29);
    assert_eq!(state.workspace_switcher_popup_rect(), rect(11, 4, 100, 24));
    assert_eq!(state.workspace_switcher_inner_rect(), rect(12, 5, 98, 22));
}

#[test]
fn live_labels_replace_directory_names() {
    let mut state = app_with_workspaces(&["one"]);
    state.workspaces[0].custom_name = None;
    let none = TerminalRuntimeRegistry::new();
    assert_eq!(state.workspaces[0].display_name_from(&none), "cwd-w0");
    let live = TerminalRuntimeRegistry {
        runtimes: vec![PaneRuntime {
            pane_id: 1,
            live_label: Some("api".to_string()),
            visible_ansi: String::new(),
            visible_rows: vec![],
        }],
    };
    assert_eq!(state.workspaces[0].display_name_from(&live), "api");
    state.workspaces[0].custom_name = Some("mine".to_string());
    assert_eq!(state.workspaces[0].display_name_from(&live), "mine");
}

#[test]
fn previews_follow_the_selected_tab() {
    let runtimes = TerminalRuntimeRegistry::new();
    let mut state = app_with_workspaces(&["one", "two"]);
    state.workspaces[1].tabs[0].panes = vec![5, 6];
    state.open_workspace_switcher_from(&runtimes);
    assert_eq!(state.workspace_switcher_preview_tab_indices(), Some((1, 0)));
    assert!(state.workspace_switcher_preview_contains_pane(6));
    assert!(!state.workspace_switcher_preview_contains_pane(1));
}

#[test]
fn a_search_that_loads_says_so() {
    let runtimes = TerminalRuntimeRegistry::new();
    let mut state = app_with_workspaces(&["one"]);
    compute_view(&mut state, 120, 30);
    state.open_workspace_switcher_from(&runtimes);
    state.enter_workspace_switcher_search_from(&runtimes);
    let generation = state.workspace_switcher.search_generation;
    state.handle_app_event(AppEvent::ZoxideQueryStarted { generation });
    let screen = rendered_screen(&state, 120, 30).join("\n");
    assert!(screen.contains("loading…"), "{screen}");
    assert_eq!(state.workspace_switcher.provider_status, SearchProviderStatus::Loading);
}

#[test]
fn directory_previews_list_entries() {
    let runtimes = TerminalRuntimeRegistry::new();
    let mut state = app_with_workspaces(&["one"]);
    compute_view(&mut state, 120, 30);
    enter_search(&mut state);
    state.workspace_switcher.provider_candidates = vec![candidate("/tmp/dir", "/tmp/dir", 1.0)];
    set_query(&mut state, "dir");
    state.workspace_switcher.directory_preview_cache.insert(
        "/tmp/dir".to_string(),
        DirectoryPreviewState::Ready(DirectoryPreview {
            entries: vec![DirectoryPreviewEntry { name: "sub".to_string(), is_dir: true }],
            truncated: true,
        }),
    );
    state.clamp_workspace_switcher_selection_from(&runtimes);
    let screen = rendered_screen(&state, 120, 30).join("\n");
    assert!(screen.contains("sub"), "{screen}");
    assert!(matches!(
        state.workspace_switcher.preview,
        WorkspaceSwitcherPreview::Directory { truncated: true, .. }
    ));

    state.workspace_switcher.directory_preview_cache.clear();
    state.refresh_workspace_switcher_preview_from(&runtimes);
    assert!(matches!(
        state.workspace_switcher.preview,
        WorkspaceSwitcherPreview::DirectoryLoading { .. }
    ));
    state
        .workspace_switcher
        .directory_preview_cache
        .insert("/tmp/dir".to_string(), DirectoryPreviewState::Error);
    state.refresh_workspace_switcher_preview_from(&runtimes);
    assert!(matches!(
        state.workspace_switcher.preview,
        WorkspaceSwitcherPreview::DirectoryError { .. }
    ));
}

#[test]
fn sideways_scrolling_changes_nothing() {
    let runtimes = TerminalRuntimeRegistry::new();
    let mut state = app_with_workspaces(&["one", "two"]);
    compute_view(&mut state, 80, 30);
    state.open_workspace_switcher_from(&runtimes);
    let before = format!("{state:?}");
    for kind in [MouseEventKind::ScrollLeft, MouseEventKind::ScrollRight] {
        let event = MouseEvent { kind, column: 20, row: 10 };
        handle_workspace_switcher_mouse(&mut state, &runtimes, event);
    }
    assert_eq!(format!("{state:?}"), before);
}

#[test]
fn only_ordinary_states_are_within_limits() {
    let state = app_with_workspaces(&["one", "two"]);
    assert!(state.within_limits());
}

#[test]
fn commands_need_no_modifier_or_the_bound_one() {
    let (state, _, held) = state_with_quick_switch_binding("alt+f13", None);
    assert_eq!(held, ALT);
    assert!(workspace_switcher_command_modifiers(&state, KeyModifiers::none()));
    assert!(workspace_switcher_command_modifiers(&state, ALT));
    assert!(workspace_switcher_command_modifiers(&state, both(ALT, SHIFT)));
    assert!(!workspace_switcher_command_modifiers(&state, CONTROL));
    assert!(!workspace_switcher_command_modifiers(&state, SHIFT));
    assert!(quick_switch_command_modifiers(&state, CONTROL));
    assert!(!quick_switch_command_modifiers(&state, ALT));
}

#[test]
fn pages_and_ends_are_reached_by_keys() {
    let names: Vec<String> = (0..20).map(|idx| format!("ws-{idx}")).collect();
    let name_refs: Vec<&str> = names.iter().map(String::as_str).collect();
    let runtimes = TerminalRuntimeRegistry::new();
    let mut state = app_with_workspaces(&name_refs);
    compute_view(&mut state, 80, 16);
    state.open_workspace_switcher_from(&runtimes);
    handle_workspace_switcher_key(&mut state, &runtimes, key(KeyCode::End, KeyModifiers::none()));
    assert_eq!(state.workspace_switcher.selected, 19);
    assert_eq!(
        state.workspace_switcher.scroll,
        state.workspace_switcher_max_scroll_from(&runtimes)
    );
    handle_workspace_switcher_key(&mut state, &runtimes, key(KeyCode::Home, KeyModifiers::none()));
    assert_eq!(state.workspace_switcher.selected, 0);
    assert_eq!(state.workspace_switcher.scroll, 0);
}

fn selected_row(state: &AppState) -> (usize, bool) {
    let row = &state.workspace_switcher_rows()[state.workspace_switcher.selected];
    (row.ws_idx, row.is_tab)
}

#[test]
fn a_move_is_undone_by_the_opposite_one() {
    let (mut state, runtimes, _) = state_with_quick_switch_binding("ctrl+tab", None);
    let start = state.workspace_switcher.selected;
    let rows = state.workspace_switcher_rows().len();
    state.move_workspace_switcher_selection_from(&runtimes, 1);
    assert_eq!(state.workspace_switcher.selected, start + 1);
    assert!(state.workspace_switcher.active);
    assert_eq!(state.workspace_switcher_rows().len(), rows);
    state.move_workspace_switcher_selection_from(&runtimes, -1);
    assert_eq!(state.workspace_switcher.selected, start);
}

#[test]
fn expanding_and_collapsing_leads_back() {
    let (mut state, runtimes, _) = state_with_quick_switch_binding("ctrl+tab", None);
    let start = state.workspace_switcher.selected;
    let rows = state.workspace_switcher_rows().len();
    let workspace = selected_row(&state).0;
    let tabs = state.workspaces[workspace].tabs.len();
    for down in 0..=tabs {
        state.expand_selected_workspace_switcher_workspace_from(&runtimes);
        assert_eq!(state.workspace_switcher_rows().len(), rows + tabs);
        state.move_workspace_switcher_selection_from(&runtimes, down as isize);
        assert_eq!(selected_row(&state), (workspace, down > 0));
        for _ in 0..2 {
            state.collapse_selected_workspace_switcher_workspace_from(&runtimes);
            assert_eq!(state.workspace_switcher.selected, start);
            assert_eq!(state.workspace_switcher_rows().len(), rows);
        }
    }
}

#[test]
fn cycling_goes_round_from_tabs_and_in_a_search() {
    let (mut state, runtimes, _) = state_with_quick_switch_binding("ctrl+tab", None);
    let workspace = selected_row(&state).0;
    state.expand_selected_workspace_switcher_workspace_from(&runtimes);
    state.move_workspace_switcher_selection_from(&runtimes, 1);
    assert_eq!(selected_row(&state), (workspace, true));
    state.cycle_workspace_switcher_from(&runtimes, 1);
    assert!(!selected_row(&state).1);
    state.cycle_workspace_switcher_from(&runtimes, -1);
    assert_eq!(selected_row(&state), (workspace, false));

    state.enter_workspace_switcher_search_from(&runtimes);
    let start = selected_row(&state);
    for (delta, back) in [(1, -1), (2, -2), (-1, 1)] {
        state.cycle_workspace_switcher_from(&runtimes, delta);
        assert_ne!(selected_row(&state), start);
        state.cycle_workspace_switcher_from(&runtimes, back);
        assert_eq!(selected_row(&state), start);
    }
    state.cycle_workspace_switcher_from(&runtimes, 3);
    assert_eq!(selected_row(&state), start);
}

#[test]
fn workspaces_stand_by_recency_behind_the_active_one() {
    let mut state = app_with_workspaces(&["a", "b", "c", "d", "e"]);
    let id = |state: &AppState, i: usize| state.workspaces[i].id.clone();
    state.active = Some(1);
    state.workspace_mru =
        vec![id(&state, 3), "gone".to_string(), id(&state, 2), id(&state, 3), id(&state, 1)];
    assert_eq!(state.workspace_mru_indices(), vec![1, 3, 2, 0, 4]);
    state.active = None;
    assert_eq!(state.workspace_mru_indices(), vec![3, 2, 1, 0, 4]);
}

#[test]
fn the_mobile_switcher_fits_every_screen() {
    let runtimes = TerminalRuntimeRegistry::new();
    let mut state = app_with_workspaces(&["one", "two"]);
    compute_view_below(&mut state, u16::MAX, 60, u16::MAX);
    assert!(state.is_countable());
    assert!(state.within_limits());
    state.open_workspace_switcher_from(&runtimes);
    assert_eq!(selected_row(&state), (1, false));
}
