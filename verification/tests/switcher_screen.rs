use herdr::draw::{DrawOp, Frame, ScrollMetrics};
use herdr::geometry::{Rect, ViewLayout};
use herdr::input::{ActionKeybinds, BindingTrigger, CycleKeybinds, KeyCode, KeyCombo, KeyEvent, KeyModifiers, MouseButton, MouseEvent, MouseEventKind};
use herdr::row_layout::{switcher_row_height, SwitcherRowLayout};
use herdr::rows::{AgentState, SwitcherLabel, WorkspaceSwitcherRow, WorkspaceSwitcherTarget};
use herdr::state::{AppState, Keybinds, Mode, WorkspaceSwitcherMode};
use herdr::style::{Color, Dot, DotPair, Palette, Style};
use herdr::switcher_input::{handle_workspace_switcher_key, handle_workspace_switcher_mouse};
use herdr::switcher_overlay::render_workspace_switcher_overlay;
use herdr::switcher_render::{render_row, render_rows};
use herdr::terminal::TerminalRuntimeRegistry;
use herdr::workspace::{Tab, Workspace, WorktreeSpace};
use ratatui::buffer::Buffer;
use ratatui::widgets::{Block, Clear, Paragraph, Widget};

fn rect(x: u16, y: u16, width: u16, height: u16) -> Rect {
    Rect { x, y, width, height }
}

fn dot(symbol: char, color: Color) -> Dot {
    Dot { symbol, style: Style::plain().with_fg(color) }
}

fn palette() -> Palette {
    Palette {
        accent: Color::Rgb(137, 180, 250),
        panel_bg: Color::Rgb(24, 24, 37),
        text: Color::Rgb(205, 214, 244),
        subtext0: Color::Rgb(166, 173, 200),
        overlay0: Color::Rgb(108, 112, 134),
        overlay1: Color::Rgb(127, 132, 156),
        surface0: Color::Rgb(49, 50, 68),
        surface1: Color::Rgb(69, 71, 90),
        surface_dim: Color::Rgb(30, 30, 46),
        contrast_fg: Color::Rgb(17, 17, 27),
        idle: DotPair { seen: dot('○', Color::Green), unseen: dot('●', Color::Green) },
        working: DotPair { seen: dot('●', Color::Yellow), unseen: dot('●', Color::Yellow) },
        blocked: DotPair { seen: dot('●', Color::Red), unseen: dot('●', Color::Red) },
        unknown: DotPair { seen: dot('·', Color::Gray), unseen: dot('·', Color::Gray) },
    }
}

const SHIFT: KeyModifiers = KeyModifiers {
    shift: true,
    control: false,
    alt: false,
    super_key: false,
    hyper: false,
    meta: false,
};

const CONTROL: KeyModifiers = KeyModifiers {
    shift: false,
    control: true,
    alt: false,
    super_key: false,
    hyper: false,
    meta: false,
};

const ALT: KeyModifiers = KeyModifiers {
    shift: false,
    control: false,
    alt: true,
    super_key: false,
    hyper: false,
    meta: false,
};

const SUPER: KeyModifiers = KeyModifiers {
    shift: false,
    control: false,
    alt: false,
    super_key: true,
    hyper: false,
    meta: false,
};

fn both(a: KeyModifiers, b: KeyModifiers) -> KeyModifiers {
    KeyModifiers {
        shift: a.shift || b.shift,
        control: a.control || b.control,
        alt: a.alt || b.alt,
        super_key: a.super_key || b.super_key,
        hyper: a.hyper || b.hyper,
        meta: a.meta || b.meta,
    }
}

fn key(code: KeyCode, modifiers: KeyModifiers) -> KeyEvent {
    KeyEvent { code, modifiers }
}

/// The bindings that `text` asks for, such as `ctrl+tab`.
fn binding(text: &str) -> ActionKeybinds {
    let mut modifiers = KeyModifiers::none();
    let mut code = KeyCode::Null;
    for part in text.split('+') {
        match part {
            "ctrl" => modifiers = both(modifiers, CONTROL),
            "alt" => modifiers = both(modifiers, ALT),
            "cmd" | "super" => modifiers = both(modifiers, SUPER),
            "shift" => modifiers = both(modifiers, SHIFT),
            "tab" => code = KeyCode::Tab,
            "f13" => code = KeyCode::F(13),
            "f14" => code = KeyCode::F(14),
            other => panic!("unknown key {other}"),
        }
    }
    ActionKeybinds { bindings: vec![BindingTrigger::Direct(KeyCombo { code, modifiers })] }
}

fn cycle_keybinds(forward: &str, backward: Option<&str>) -> CycleKeybinds {
    CycleKeybinds {
        forward: binding(forward),
        backward: match backward {
            Some(text) => binding(text),
            None => ActionKeybinds { bindings: vec![] },
        },
    }
}

fn new_state() -> AppState {
    AppState::new(
        Keybinds {
            quick_switch_workspace: cycle_keybinds("ctrl+tab", None),
            workspace_switcher: cycle_keybinds("ctrl+tab", None),
        },
        palette(),
    )
}

fn new_tab(workspace_id: &str, number: u64, name: &str) -> Tab {
    Tab {
        tab_id: format!("{workspace_id}/{number}"),
        display_name: name.to_string(),
        panes: vec![number],
        focused_pane: number,
        activity: String::new(),
        state: AgentState::Unknown,
        seen: true,
    }
}

fn new_workspace(id: &str, name: &str) -> Workspace {
    Workspace {
        id: id.to_string(),
        custom_name: Some(name.to_string()),
        auto_label: format!("cwd-{id}"),
        root_pane: 1,
        cached_git_branch: Some("trunk".to_string()),
        worktree_space: None,
        tabs: vec![new_tab(id, 1, "1")],
        active_tab: 0,
        activity: String::new(),
        state: AgentState::Unknown,
        seen: true,
    }
}

fn app_with_workspaces(names: &[&str]) -> AppState {
    let mut state = new_state();
    for (index, name) in names.iter().enumerate() {
        state.workspaces.push(new_workspace(&format!("w{index}"), name));
    }
    if !state.workspaces.is_empty() {
        state.active = Some(0);
        state.mode = Mode::Terminal;
    }
    state
}

fn mark_linked_worktree_with_repo(state: &mut AppState, ws_idx: usize, repo: &str) {
    state.workspaces[ws_idx].worktree_space = Some(WorktreeSpace {
        key: "repo-key".into(),
        label: repo.into(),
        is_linked_worktree: true,
    });
}

fn mark_parent_worktree(state: &mut AppState, ws_idx: usize) {
    state.workspaces[ws_idx].worktree_space = Some(WorktreeSpace {
        key: "repo-key".into(),
        label: "herdr".into(),
        is_linked_worktree: false,
    });
}

/// Lays the screen out. A screen narrower than `threshold` gets the mobile layout.
fn compute_view_below(state: &mut AppState, threshold: u16, width: u16, height: u16) {
    if width < threshold {
        let header = if height < 2 { height } else { 2 };
        state.view.layout = ViewLayout::Mobile;
        state.view.sidebar_rect = Rect::default();
        state.view.mobile_header_rect = rect(0, 0, width, header);
        state.view.terminal_area = rect(0, header, width, height - header);
    } else {
        let sidebar = if width < 26 { width } else { 26 };
        state.view.layout = ViewLayout::Desktop;
        state.view.mobile_header_rect = Rect::default();
        state.view.sidebar_rect = rect(0, 0, sidebar, height);
        state.view.terminal_area = rect(sidebar, 0, width - sidebar, height);
    }
    if state.workspace_switcher.active {
        state.ensure_workspace_switcher_selection_visible_from(&TerminalRuntimeRegistry::new());
    }
}

fn compute_view(state: &mut AppState, width: u16, height: u16) {
    compute_view_below(state, 64, width, height);
}

fn screen_color(c: Color) -> ratatui::style::Color {
    match c {
        Color::Reset => ratatui::style::Color::Reset,
        Color::Black => ratatui::style::Color::Black,
        Color::Red => ratatui::style::Color::Red,
        Color::Green => ratatui::style::Color::Green,
        Color::Yellow => ratatui::style::Color::Yellow,
        Color::Blue => ratatui::style::Color::Blue,
        Color::Magenta => ratatui::style::Color::Magenta,
        Color::Cyan => ratatui::style::Color::Cyan,
        Color::Gray => ratatui::style::Color::Gray,
        Color::DarkGray => ratatui::style::Color::DarkGray,
        Color::LightRed => ratatui::style::Color::LightRed,
        Color::LightGreen => ratatui::style::Color::LightGreen,
        Color::LightYellow => ratatui::style::Color::LightYellow,
        Color::LightBlue => ratatui::style::Color::LightBlue,
        Color::LightMagenta => ratatui::style::Color::LightMagenta,
        Color::LightCyan => ratatui::style::Color::LightCyan,
        Color::White => ratatui::style::Color::White,
        Color::Rgb(r, g, b) => ratatui::style::Color::Rgb(r, g, b),
        Color::Indexed(i) => ratatui::style::Color::Indexed(i),
    }
}

fn screen_style(s: Style) -> ratatui::style::Style {
    let mut style = ratatui::style::Style::default();
    if let Some(fg) = s.fg {
        style = style.fg(screen_color(fg));
    }
    if let Some(bg) = s.bg {
        style = style.bg(screen_color(bg));
    }
    if s.add.bold {
        style = style.add_modifier(ratatui::style::Modifier::BOLD);
    }
    style
}

fn screen_rect(r: Rect) -> ratatui::layout::Rect {
    ratatui::layout::Rect::new(r.x, r.y, r.width, r.height)
}

/// Paints a thumb whose size and place follow the metrics.
fn paint_scrollbar(
    buffer: &mut Buffer,
    metrics: ScrollMetrics,
    track: Rect,
    track_color: Color,
    thumb_color: Color,
    symbol: char,
) {
    let height = track.height as usize;
    if height == 0 || metrics.max_offset_from_bottom == 0 {
        return;
    }
    let total = metrics.viewport_rows + metrics.max_offset_from_bottom;
    let thumb = (height * metrics.viewport_rows / total).max(1);
    let above = metrics.max_offset_from_bottom - metrics.offset_from_bottom;
    let start = (height - thumb) * above / metrics.max_offset_from_bottom;
    for offset in 0..height {
        let shown = if offset >= start && offset < start + thumb { thumb_color } else { track_color };
        buffer[(track.x, track.y + offset as u16)]
            .set_symbol(&symbol.to_string())
            .set_fg(screen_color(shown));
    }
}

/// Carries out the steps of `frame`.
fn paint(buffer: &mut Buffer, frame: &Frame) {
    for op in &frame.ops {
        match op {
            DrawOp::Clear { area } => Clear.render(screen_rect(*area), buffer),
            DrawOp::Fill { area, style } => {
                buffer.set_style(screen_rect(*area), screen_style(*style))
            }
            DrawOp::Plain { area, text, style } => Paragraph::new(text.as_str())
                .style(screen_style(*style))
                .render(screen_rect(*area), buffer),
            DrawOp::Lines { area, lines, style, centered } => {
                let text: Vec<ratatui::text::Line> = lines
                    .iter()
                    .map(|line| {
                        let spans: Vec<ratatui::text::Span> = line
                            .spans
                            .iter()
                            .map(|span| {
                                ratatui::text::Span::styled(
                                    span.content.as_str(),
                                    screen_style(span.style),
                                )
                            })
                            .collect();
                        ratatui::text::Line::from(spans)
                    })
                    .collect();
                let mut paragraph = Paragraph::new(text).style(screen_style(*style));
                if *centered {
                    paragraph = paragraph.centered();
                }
                paragraph.render(screen_rect(*area), buffer)
            }
            DrawOp::Cell { x, y, symbol, style } => {
                buffer[(*x, *y)].set_symbol(&symbol.to_string()).set_style(screen_style(*style));
            }
            DrawOp::Scrollbar { metrics, track, track_color, thumb_color, symbol } => {
                paint_scrollbar(buffer, *metrics, *track, *track_color, *thumb_color, *symbol)
            }
            DrawOp::TabSurface { .. } => {}
        }
    }
}

fn painted(width: u16, height: u16, frame: &Frame) -> Buffer {
    let mut buffer = Buffer::empty(ratatui::layout::Rect::new(0, 0, width, height));
    paint(&mut buffer, frame);
    buffer
}

/// The whole screen with the switcher on it, inside a border where the layout is wide.
fn rendered_overlay(
    state: &AppState,
    terminal_runtimes: &TerminalRuntimeRegistry,
    width: u16,
    height: u16,
) -> Buffer {
    let mut buffer = Buffer::empty(ratatui::layout::Rect::new(0, 0, width, height));
    let layout = state.workspace_switcher_layout();
    if !layout.mobile_fullscreen {
        Clear.render(screen_rect(layout.popup), &mut buffer);
        Block::bordered().render(screen_rect(layout.popup), &mut buffer);
    }
    let mut frame = Frame::new();
    render_workspace_switcher_overlay(state, terminal_runtimes, &mut frame, true);
    paint(&mut buffer, &frame);
    buffer
}

fn rendered_screen(state: &AppState, width: u16, height: u16) -> Vec<String> {
    let buffer = rendered_overlay(state, &TerminalRuntimeRegistry::new(), width, height);
    (0..height).map(|y| rendered_line(&buffer, y, width)).collect()
}

fn rendered_line(buffer: &Buffer, y: u16, width: u16) -> String {
    (0..width).map(|x| buffer[(x, y)].symbol()).collect()
}

fn rendered_rect_line(buffer: &Buffer, rect: Rect, y: u16) -> String {
    (rect.x..rect.x + rect.width).map(|x| buffer[(x, y)].symbol()).collect()
}

fn assert_no_preview_text(screen: &[String]) {
    let joined = screen.join("\n");
    assert!(!joined.contains("preview:"), "no preview text expected: {joined}");
}

fn assert_no_preview_divider(screen: &[String], first_row: u16, row_count: u16) {
    for (row_idx, row) in
        screen.iter().enumerate().skip(first_row as usize).take(row_count as usize)
    {
        assert!(!row.contains('│'), "no preview divider expected on row {row_idx}: {row}");
    }
}

fn set_switcher_view(state: &mut AppState, width: u16, height: u16) {
    state.view.sidebar_rect = Rect::default();
    state.view.terminal_area = rect(0, 0, width, height);
}

#[test]
fn mobile_quick_switch_uses_full_frame_without_footer() {
    let mut state = app_with_workspaces(&["alpha", "beta"]);
    compute_view(&mut state, 60, 20);
    state.open_workspace_switcher();

    assert_eq!(state.view.layout, ViewLayout::Mobile);
    assert_eq!(
        state.workspace_switcher_popup_rect(),
        rect(0, 0, 60, 20)
    );
    assert_eq!(
        state.workspace_switcher_inner_rect(),
        rect(0, 0, 60, 20)
    );
    assert_eq!(
        state.workspace_switcher_top_bar_rect(),
        rect(0, 0, 60, 1)
    );
    assert_eq!(
        state.workspace_switcher_close_rect(),
        rect(50, 0, 10, 1)
    );
    assert_eq!(state.workspace_switcher_search_rect(), Rect::default());
    assert_eq!(
        state.workspace_switcher_content_rect(),
        rect(0, 1, 60, 19)
    );
    assert_eq!(
        state.workspace_switcher_body_rect(),
        rect(0, 1, 60, 19)
    );
    assert_eq!(state.workspace_switcher_divider_rect(), Rect::default());
    assert_eq!(state.workspace_switcher_preview_rect(), Rect::default());
    assert_eq!(state.workspace_switcher_footer_rect(), Rect::default());

    let screen = rendered_screen(&state, 60, 20);
    assert!(screen[0].contains("workspace switcher"), "{}", screen[0]);
    assert!(screen[0].contains("close"), "{}", screen[0]);
    assert!(screen[0].contains('×'), "{}", screen[0]);
    assert!(!screen.join("\n").contains("enter"));
    assert!(!screen.join("\n").contains("collapse/expand"));
    assert_ne!(screen[0].chars().next(), Some('┌'));
    assert_ne!(screen[19].chars().next(), Some('└'));
    assert_no_preview_text(&screen);
    assert_no_preview_divider(&screen, 1, 19);
}

#[test]
fn mobile_switcher_hides_preview_below_and_at_old_threshold_widths() {
    let terminal_runtimes = TerminalRuntimeRegistry::new();
    for width in [40u16, 47, 48, 60, 80] {
        for mode in [
            WorkspaceSwitcherMode::QuickSwitch,
            WorkspaceSwitcherMode::Search,
        ] {
            let mut state = app_with_workspaces(&["alpha", "beta"]);
            compute_view_below(&mut state, 90, width, 20);
            assert_eq!(state.view.layout, ViewLayout::Mobile, "width {width}");
            state.open_workspace_switcher_from(&terminal_runtimes);
            state.workspace_switcher.mode = mode;
            let content = state.workspace_switcher_content_rect();
            let body = state.workspace_switcher_body_rect();
            assert_eq!(
                body, content,
                "width {width} {mode:?}: body must fill content"
            );
            assert_eq!(
                state.workspace_switcher_divider_rect(),
                Rect::default(),
                "width {width} {mode:?}: divider must be empty"
            );
            assert_eq!(
                state.workspace_switcher_preview_rect(),
                Rect::default(),
                "width {width} {mode:?}: preview must be empty"
            );

            let screen = rendered_screen(&state, width, 20);
            assert_no_preview_text(&screen);
            assert_no_preview_divider(&screen, content.y, content.height);
        }
    }
}

#[test]
fn mobile_switcher_keeps_tiny_width_geometry_in_bounds() {
    let terminal_runtimes = TerminalRuntimeRegistry::new();
    let mut state = app_with_workspaces(&["alpha"]);
    compute_view_below(&mut state, 90, 5, 3);
    state.open_workspace_switcher_from(&terminal_runtimes);
    assert_eq!(
        state.workspace_switcher_content_rect(),
        rect(0, 1, 5, 2)
    );
    assert_eq!(
        state.workspace_switcher_body_rect(),
        state.workspace_switcher_content_rect()
    );
    assert_eq!(state.workspace_switcher_divider_rect(), Rect::default());
    assert_eq!(state.workspace_switcher_preview_rect(), Rect::default());
    let screen = rendered_screen(&state, 5, 3);
    assert_no_preview_text(&screen);
}

#[test]
fn desktop_switcher_keeps_list_only_below_48_and_preview_at_48() {
    let app = |width: u16| -> AppState {
        let mut state = app_with_workspaces(&["alpha", "beta"]);
        compute_view_below(&mut state, 40, width, 20);
        assert_eq!(state.view.layout, ViewLayout::Desktop);
        state.open_workspace_switcher();
        state
    };

    // Terminal width 57 -> popup inner content width 47: list only.
    let state = app(57);
    assert_eq!(
        state.workspace_switcher_content_rect(),
        rect(5, 3, 47, 13)
    );
    assert_eq!(
        state.workspace_switcher_body_rect(),
        rect(5, 3, 47, 13)
    );
    assert_eq!(state.workspace_switcher_divider_rect(), Rect::default());
    assert_eq!(
        state.workspace_switcher_preview_rect().width,
        0,
        "content width 47 must stay list-only"
    );
    let screen = rendered_screen(&state, 57, 20);
    assert_no_preview_text(&screen);

    // Terminal width 58 -> popup inner content width 48: list + divider + preview.
    let state = app(58);
    assert_eq!(
        state.workspace_switcher_content_rect(),
        rect(5, 3, 48, 13)
    );
    assert_eq!(
        state.workspace_switcher_body_rect(),
        rect(5, 3, 24, 13)
    );
    assert_eq!(
        state.workspace_switcher_divider_rect(),
        rect(29, 3, 1, 13)
    );
    assert_eq!(
        state.workspace_switcher_preview_rect(),
        rect(30, 3, 23, 13)
    );
    let screen = rendered_screen(&state, 58, 20);
    assert!(
        screen.join("\n").contains("preview:"),
        "{}",
        screen.join("\n")
    );
    assert!(screen[3..16].iter().any(|row| row.contains('│')));
}

#[test]
fn layout_switch_toggles_mobile_preview_without_reopen() {
    let terminal_runtimes = TerminalRuntimeRegistry::new();
    let mut state = app_with_workspaces(&["alpha", "beta"]);
    compute_view(&mut state, 120, 30);
    state.open_workspace_switcher_from(&terminal_runtimes);

    // Desktop: existing list + divider + preview.
    assert_eq!(state.view.layout, ViewLayout::Desktop);
    assert_eq!(
        state.workspace_switcher_body_rect(),
        rect(11, 4, 32, 21)
    );
    assert_eq!(
        state.workspace_switcher_divider_rect(),
        rect(43, 4, 1, 21)
    );
    assert_eq!(
        state.workspace_switcher_preview_rect(),
        rect(44, 4, 65, 21)
    );
    let screen = rendered_screen(&state, 120, 30);
    assert!(
        screen.join("\n").contains("preview:"),
        "{}",
        screen.join("\n")
    );
    assert!(screen[4..25].iter().any(|row| row.contains('│')));

    // Cross into Mobile while open: list fills content, preview hidden.
    compute_view(&mut state, 60, 20);
    assert_eq!(state.view.layout, ViewLayout::Mobile);
    assert!(state.workspace_switcher.active);
    assert_eq!(
        state.workspace_switcher_content_rect(),
        rect(0, 1, 60, 19)
    );
    assert_eq!(
        state.workspace_switcher_body_rect(),
        state.workspace_switcher_content_rect()
    );
    assert_eq!(state.workspace_switcher_divider_rect(), Rect::default());
    assert_eq!(state.workspace_switcher_preview_rect(), Rect::default());
    let screen = rendered_screen(&state, 60, 20);
    assert_no_preview_text(&screen);
    assert_no_preview_divider(&screen, 1, 19);

    // Cross back to Desktop while open: preview restored immediately.
    compute_view(&mut state, 120, 30);
    assert_eq!(state.view.layout, ViewLayout::Desktop);
    assert!(state.workspace_switcher.active);
    assert_eq!(
        state.workspace_switcher_body_rect(),
        rect(11, 4, 32, 21)
    );
    assert_eq!(
        state.workspace_switcher_divider_rect(),
        rect(43, 4, 1, 21)
    );
    assert_eq!(
        state.workspace_switcher_preview_rect(),
        rect(44, 4, 65, 21)
    );
    let screen = rendered_screen(&state, 120, 30);
    assert!(
        screen.join("\n").contains("preview:"),
        "{}",
        screen.join("\n")
    );
    assert!(screen[4..25].iter().any(|row| row.contains('│')));
}

#[test]
fn mobile_search_places_search_below_top_bar_and_returns_footer_row_to_content() {
    let mut state = app_with_workspaces(&["alpha", "beta"]);
    let terminal_runtimes = TerminalRuntimeRegistry::new();
    compute_view(&mut state, 60, 20);
    state.open_workspace_switcher_from(&terminal_runtimes);
    state.enter_workspace_switcher_search_from(&terminal_runtimes);

    assert_eq!(
        state.workspace_switcher_search_rect(),
        rect(0, 1, 60, 1)
    );
    assert_eq!(
        state.workspace_switcher_content_rect(),
        rect(0, 3, 60, 17)
    );
    assert_eq!(
        state.workspace_switcher_body_rect(),
        rect(0, 3, 60, 17)
    );
    assert_eq!(state.workspace_switcher_divider_rect(), Rect::default());
    assert_eq!(state.workspace_switcher_preview_rect(), Rect::default());
    assert_eq!(state.workspace_switcher_footer_rect(), Rect::default());

    let screen = rendered_screen(&state, 60, 20);
    assert!(screen[0].contains("workspace switcher"), "{}", screen[0]);
    assert!(
        screen[1].contains("search workspace names"),
        "{}",
        screen[1]
    );
    assert!(!screen[1].contains("workspace switcher"), "{}", screen[1]);
    assert_no_preview_text(&screen);
}

#[test]
fn mobile_close_control_closes_switcher_without_accepting_a_row() {
    let mut state = app_with_workspaces(&["alpha", "beta"]);
    let terminal_runtimes = TerminalRuntimeRegistry::new();
    compute_view(&mut state, 40, 20);
    state.open_workspace_switcher_from(&terminal_runtimes);
    let active = state.active;
    let close = state.workspace_switcher_close_rect();

    handle_workspace_switcher_mouse(
        &mut state,
        &terminal_runtimes,
        MouseEvent {
            kind: MouseEventKind::Down(MouseButton::Left),
            column: close.x + 1,
            row: close.y,
        },
    );

    assert!(!state.workspace_switcher.active);
    assert_eq!(state.active, active);
    assert_eq!(state.mode, Mode::Terminal);
}

#[test]
fn mobile_fullscreen_keeps_tiny_height_geometry_in_bounds() {
    let terminal_runtimes = TerminalRuntimeRegistry::new();
    let mut state = app_with_workspaces(&["alpha"]);
    compute_view(&mut state, 40, 1);
    state.open_workspace_switcher_from(&terminal_runtimes);

    assert_eq!(
        state.workspace_switcher_top_bar_rect(),
        rect(0, 0, 40, 1)
    );
    assert_eq!(state.workspace_switcher_body_rect().height, 0);
    let quick_screen = rendered_screen(&state, 40, 1);
    assert!(quick_screen[0].contains("workspace switcher"));

    compute_view(&mut state, 40, 2);
    state.enter_workspace_switcher_search_from(&terminal_runtimes);
    assert_eq!(
        state.workspace_switcher_search_rect(),
        rect(0, 1, 40, 1)
    );
    assert_eq!(state.workspace_switcher_body_rect().height, 0);
    let search_screen = rendered_screen(&state, 40, 2);
    assert!(search_screen[1].contains("search workspace names"));
}

#[test]
fn desktop_switcher_keeps_bordered_popup_geometry_and_footer() {
    let mut state = app_with_workspaces(&["alpha", "beta"]);
    compute_view(&mut state, 120, 30);
    state.open_workspace_switcher();

    assert_eq!(state.view.layout, ViewLayout::Desktop);
    assert_eq!(
        state.workspace_switcher_popup_rect(),
        rect(10, 3, 100, 24)
    );
    assert_eq!(
        state.workspace_switcher_inner_rect(),
        rect(11, 4, 98, 22)
    );
    assert_eq!(state.workspace_switcher_top_bar_rect(), Rect::default());
    assert_eq!(state.workspace_switcher_close_rect(), Rect::default());
    assert_eq!(
        state.workspace_switcher_content_rect(),
        rect(11, 4, 98, 21)
    );
    assert_eq!(
        state.workspace_switcher_footer_rect(),
        rect(11, 25, 98, 1)
    );

    let screen = rendered_screen(&state, 120, 30);
    assert_eq!(screen[3].chars().nth(10), Some('┌'));
    assert_eq!(screen[26].chars().nth(10), Some('└'));
    assert!(screen[25].contains("enter"), "{}", screen[25]);
    assert!(screen[25].contains("←/→ collapse/expand"), "{}", screen[25]);
}

#[test]
fn workspace_switcher_render_row_shows_state_dot_for_blocked_workspace() {
    let app = new_state();
    let row = WorkspaceSwitcherRow {
        target: WorkspaceSwitcherTarget::Workspace {
            workspace_id: String::new(),
        },
        ws_idx: 0,
        depth: 0,
        label: SwitcherLabel::plain("test".to_string()),
        secondary: Vec::new(),
        is_current: true,
        expanded: false,
        is_tab: false,
        is_directory: false,
        state: AgentState::Blocked,
        seen: false,
    };
    let area = rect(0, 0, 20, 2);
    let mut frame = Frame::new();
    render_row(&app, &mut frame, area, &row, false);
    let buffer = painted(20, 2, &frame);

    assert_eq!(buffer[(3, 0)].symbol(), "●");
}

#[test]
fn workspace_switcher_render_row_shows_state_dot_for_idle_seen_workspace() {
    let app = new_state();
    let row = WorkspaceSwitcherRow {
        target: WorkspaceSwitcherTarget::Workspace {
            workspace_id: String::new(),
        },
        ws_idx: 0,
        depth: 0,
        label: SwitcherLabel::plain("test".to_string()),
        secondary: Vec::new(),
        is_current: false,
        expanded: false,
        is_tab: false,
        is_directory: false,
        state: AgentState::Idle,
        seen: true,
    };
    let area = rect(0, 0, 20, 2);
    let mut frame = Frame::new();
    render_row(&app, &mut frame, area, &row, false);
    let buffer = painted(20, 2, &frame);

    assert_eq!(buffer[(3, 0)].symbol(), "○");
}

#[test]
fn workspace_switcher_render_row_shows_quick_switch_indent() {
    let mut app = new_state();
    app.workspace_switcher.mode = WorkspaceSwitcherMode::QuickSwitch;
    let row = WorkspaceSwitcherRow {
        target: WorkspaceSwitcherTarget::Workspace {
            workspace_id: String::new(),
        },
        ws_idx: 0,
        depth: 1,
        label: SwitcherLabel::plain("ws".to_string()),
        secondary: Vec::new(),
        is_current: false,
        expanded: false,
        is_tab: false,
        is_directory: false,
        state: AgentState::Working,
        seen: false,
    };
    let area = rect(0, 0, 20, 2);
    let mut frame = Frame::new();
    render_row(&app, &mut frame, area, &row, false);
    let buffer = painted(20, 2, &frame);

    // Workspace switcher row, depth=1: "   ▸ ● ws"
    // Position 3 is caret "▸" (after leading space + 2-char indent)
    assert_eq!(buffer[(3, 0)].symbol(), "▸");
}

#[test]
fn render_linked_workspace_uses_label_primary_and_repo_activity_secondary() {
    let app = new_state();
    let row = WorkspaceSwitcherRow {
        target: WorkspaceSwitcherTarget::Workspace {
            workspace_id: String::new(),
        },
        ws_idx: 0,
        depth: 0,
        label: SwitcherLabel::composite("herdr".to_string(), "feature-x".to_string()),
        secondary: vec!["herdr".to_string(), "1 working".to_string()],
        is_current: false,
        expanded: false,
        is_tab: false,
        is_directory: false,
        state: AgentState::Idle,
        seen: false,
    };
    let area = rect(0, 0, 40, 2);
    let mut frame = Frame::new();
    render_row(&app, &mut frame, area, &row, false);
    let buffer = painted(40, 2, &frame);

    let primary = rendered_line(&buffer, 0, 40);
    let secondary = rendered_line(&buffer, 1, 40);
    assert!(primary.contains("feature-x"));
    assert!(!primary.contains("herdr"));
    assert!(!primary.contains("pane"));
    assert!(secondary.contains("herdr · 1 working"));
    assert_eq!(
        primary.chars().position(|ch| ch == 'f'),
        secondary.chars().position(|ch| ch == 'h')
    );
}

#[test]
fn render_workspace_directory_and_tab_secondary_lines() {
    let app = new_state();
    let rows = [
        WorkspaceSwitcherRow {
            target: WorkspaceSwitcherTarget::Workspace {
                workspace_id: String::new(),
            },
            ws_idx: 0,
            depth: 0,
            label: SwitcherLabel::plain("workspace".to_string()),
            secondary: vec!["2 blocked".to_string()],
            is_current: false,
            expanded: false,
            is_tab: false,
            is_directory: false,
            state: AgentState::Idle,
            seen: false,
        },
        WorkspaceSwitcherRow {
            target: WorkspaceSwitcherTarget::Directory {
                shown_path: "/work/project".into(),
                canonical_path: "/work/project".into(),
            },
            ws_idx: usize::MAX,
            depth: 0,
            label: SwitcherLabel::plain("project".to_string()),
            secondary: vec!["/work/project".to_string()],
            is_current: false,
            expanded: false,
            is_tab: false,
            is_directory: true,
            state: AgentState::Idle,
            seen: false,
        },
        WorkspaceSwitcherRow {
            target: WorkspaceSwitcherTarget::Tab {
                tab_id: String::new(),
            },
            ws_idx: 0,
            depth: 1,
            label: SwitcherLabel::plain("tab".to_string()),
            secondary: Vec::new(),
            is_current: false,
            expanded: false,
            is_tab: true,
            is_directory: false,
            state: AgentState::Idle,
            seen: false,
        },
    ];

    for (row, expected_secondary) in rows.iter().zip(["2 blocked", "/work/project", ""]) {
        let height = switcher_row_height(row) as u16;
        let mut frame = Frame::new();
        render_row(&app, &mut frame, rect(0, 0, 40, height), row, true);
        let buffer = painted(40, 2, &frame);
        let primary = rendered_line(&buffer, 0, 40);
        let secondary = if height >= 2 {
            rendered_line(&buffer, 1, 40)
        } else {
            String::new()
        };
        // Selected styling covers exactly the rendered item height.
        for y in 0..height {
            assert_eq!(buffer[(0, y)].bg, screen_color(app.palette.accent));
        }
        if height < 2 {
            assert_ne!(buffer[(0, 1)].bg, screen_color(app.palette.accent));
        }
        if expected_secondary.is_empty() {
            assert!(secondary.trim().is_empty());
        } else {
            assert!(secondary.contains(expected_secondary));
        }
        // The primary line never renders secondary metadata or pane
        // counts.
        assert!(!primary.contains("pane"));
        if !expected_secondary.is_empty() {
            assert!(!primary.contains(expected_secondary));
        }
    }
}

#[test]
fn primary_title_uses_width_released_from_pane_count() {
    let app = new_state();
    let row = WorkspaceSwitcherRow {
        target: WorkspaceSwitcherTarget::Workspace {
            workspace_id: String::new(),
        },
        ws_idx: 0,
        depth: 0,
        label: SwitcherLabel::plain("very-long-workspace-name".to_string()),
        secondary: Vec::new(),
        is_current: false,
        expanded: false,
        is_tab: false,
        is_directory: false,
        state: AgentState::Idle,
        seen: false,
    };

    for width in [30u16, 38, 46] {
        let mut frame = Frame::new();
        render_row(&app, &mut frame, rect(0, 0, width, 1), &row, false);
        let buffer = painted(width, 1, &frame);
        let primary = rendered_line(&buffer, 0, width);
        assert!(
            primary.contains("very-long-workspace-name"),
            "width {width}: {primary:?}"
        );
        assert!(!primary.contains("pane"));
    }
}

#[test]
fn selected_style_covers_both_item_lines() {
    let app = new_state();
    let row = WorkspaceSwitcherRow {
        target: WorkspaceSwitcherTarget::Workspace {
            workspace_id: String::new(),
        },
        ws_idx: 0,
        depth: 0,
        label: SwitcherLabel::plain("workspace".to_string()),
        secondary: vec!["1 working".to_string()],
        is_current: false,
        expanded: false,
        is_tab: false,
        is_directory: false,
        state: AgentState::Working,
        seen: false,
    };
    let mut frame = Frame::new();
    render_row(&app, &mut frame, rect(0, 0, 40, 2), &row, true);
    let buffer = painted(40, 2, &frame);

    for y in 0..2 {
        assert_eq!(buffer[(0, y)].bg, screen_color(app.palette.accent));
        assert_eq!(buffer[(5, y)].fg, screen_color(app.palette.contrast_fg));
    }
    assert_eq!(
        buffer[(3, 0)].fg,
        screen_color(app.palette.state_dot(row.state, row.seen).style.fg.unwrap())
    );
}

#[test]
fn selected_style_covers_exactly_one_line_for_plain_item() {
    let app = new_state();
    let row = WorkspaceSwitcherRow {
        target: WorkspaceSwitcherTarget::Workspace {
            workspace_id: String::new(),
        },
        ws_idx: 0,
        depth: 0,
        label: SwitcherLabel::plain("workspace".to_string()),
        secondary: Vec::new(),
        is_current: false,
        expanded: false,
        is_tab: false,
        is_directory: false,
        state: AgentState::Idle,
        seen: false,
    };
    let mut frame = Frame::new();
    render_row(&app, &mut frame, rect(0, 0, 40, 1), &row, true);
    let buffer = painted(40, 1, &frame);

    assert_eq!(buffer[(0, 0)].bg, screen_color(app.palette.accent));
    assert_eq!(buffer[(39, 0)].bg, screen_color(app.palette.accent));
}

#[test]
fn mixed_height_items_render_in_mobile_and_desktop_layouts() {
    let terminal_runtimes = TerminalRuntimeRegistry::new();
    for (width, expected_layout) in [
        (44, ViewLayout::Mobile),
        (80, ViewLayout::Desktop),
    ] {
        let mut app = app_with_workspaces(&["main", "feature"]);
        mark_parent_worktree(&mut app, 0);
        mark_linked_worktree_with_repo(&mut app, 1, "herdr");
        app.workspaces[1].custom_name = Some("feature".to_string());
        // Deterministic mixed heights: the parent workspace carries no
        // secondary line, the linked worktree renders repo + branch.
        app.workspaces[0].cached_git_branch = None;
        app.workspaces[1].cached_git_branch = Some("worktree/issue-137".to_string());
        compute_view(&mut app, width, 24);
        app.open_workspace_switcher_from(&terminal_runtimes);
        assert_eq!(app.view.layout, expected_layout);

        let body = app.workspace_switcher_body_rect();
        let rows = app.workspace_switcher_rows_from(&terminal_runtimes);
        let layout = SwitcherRowLayout::new(&rows, body.height as usize);
        assert_eq!(layout.height(0), 1);
        assert_eq!(layout.height(1), 2);

        let buffer = rendered_overlay(&app, &terminal_runtimes, width, 24);

        let feature_y = (body.y..body.y + body.height)
            .find(|&y| rendered_rect_line(&buffer, body, y).contains("feature"))
            .expect("linked workspace primary line should render");
        // The two-line item starts on the odd physical offset left by
        // the one-line item above it, not on a fixed stride.
        assert_eq!((feature_y - body.y) as usize, layout.physical_offset(1));
        assert!(rendered_rect_line(&buffer, body, feature_y + 1).contains("herdr"));
    }
}

#[test]
fn render_rows_only_uses_complete_item_capacity_in_both_modes() {
    let terminal_runtimes = TerminalRuntimeRegistry::new();
    for mode in [
        WorkspaceSwitcherMode::QuickSwitch,
        WorkspaceSwitcherMode::Search,
    ] {
        let mut app = app_with_workspaces(&["one", "two", "three"]);
        app.workspace_switcher.active = true;
        app.workspace_switcher.mode = mode;
        let mut frame = Frame::new();
        render_rows(&app, &terminal_runtimes, &mut frame, rect(0, 0, 30, 5));
        let buffer = painted(30, 5, &frame);

        assert!(!rendered_line(&buffer, 0, 30).trim().is_empty());
        assert!(!rendered_line(&buffer, 2, 30).trim().is_empty());
        assert!(rendered_line(&buffer, 4, 30).trim().is_empty());
    }
}

#[test]
fn render_rows_reports_hidden_items_when_no_complete_item_fits() {
    let mut app = app_with_workspaces(&["one", "two", "three"]);
    app.workspace_switcher.active = true;
    let terminal_runtimes = TerminalRuntimeRegistry::new();
    let mut frame = Frame::new();
    render_rows(&app, &terminal_runtimes, &mut frame, rect(0, 0, 30, 1));
    let buffer = painted(30, 1, &frame);

    assert_eq!(rendered_line(&buffer, 0, 30).trim_end(), "3 items hidden");
}

#[test]
fn zero_result_messages_take_priority_over_zero_capacity_message() {
    let terminal_runtimes = TerminalRuntimeRegistry::new();
    let cases = [
        (new_state(), "no workspaces"),
        (
            {
                let mut app = app_with_workspaces(&["one"]);
                app.workspace_switcher.mode = WorkspaceSwitcherMode::Search;
                app.workspace_switcher.query = "missing".to_string();
                app
            },
            "no matching workspaces",
        ),
    ];

    for (app, expected) in cases {
        let mut frame = Frame::new();
        render_rows(&app, &terminal_runtimes, &mut frame, rect(0, 0, 30, 1));
        let buffer = painted(30, 1, &frame);
        assert!(rendered_line(&buffer, 0, 30).contains(expected));
    }
}

#[test]
fn hit_testing_maps_mixed_height_lines_and_rejects_trailing_rows() {
    let mut state = app_with_workspaces(&[
        "one", "two", "three", "four", "five", "six", "seven", "eight",
    ]);
    // Alternate row heights: even rows carry no secondary (1 line), odd
    // rows carry a branch (2 lines).
    for (idx, ws) in state.workspaces.iter_mut().enumerate() {
        ws.cached_git_branch = if idx % 2 == 1 {
            Some(format!("branch-{idx}"))
        } else {
            None
        };
    }
    let terminal_runtimes = TerminalRuntimeRegistry::new();
    for height in 12..40 {
        set_switcher_view(&mut state, 80, height);
        if state.workspace_switcher_body_rect().height == 7 {
            break;
        }
    }
    let body = state.workspace_switcher_body_rect();
    assert_eq!(body.height, 7);
    state.open_workspace_switcher_from(&terminal_runtimes);

    let rows = state.workspace_switcher_rows_from(&terminal_runtimes);
    let layout = SwitcherRowLayout::new(&rows, body.height as usize);
    assert_eq!(
        (0..rows.len())
            .map(|i| layout.height(i))
            .collect::<Vec<_>>(),
        vec![1, 2, 1, 2, 1, 2, 1, 2]
    );

    // At scroll 0 the rows fill the body exactly (1+2+1+2+1 = 7 lines),
    // so every body line maps to its item and both lines of a two-line
    // item map to the same row.
    let expected_at_top: [usize; 7] = [0, 1, 1, 2, 3, 3, 4];
    for (offset, expected) in expected_at_top.iter().enumerate() {
        assert_eq!(
            state.workspace_switcher_row_index_at_from(
                &terminal_runtimes,
                body.x,
                body.y + offset as u16
            ),
            Some(*expected)
        );
    }

    // Scrolled to the end, rows 4..=7 use 6 of the 7 body lines; the
    // final trailing line must reject hit-testing.
    handle_workspace_switcher_key(
        &mut state,
        &terminal_runtimes,
        key(KeyCode::End, KeyModifiers::none()),
    );
    assert_eq!(state.workspace_switcher.scroll, 4);
    let expected_at_bottom: [Option<usize>; 7] =
        [Some(4), Some(5), Some(5), Some(6), Some(7), Some(7), None];
    for (offset, expected) in expected_at_bottom.iter().enumerate() {
        assert_eq!(
            state.workspace_switcher_row_index_at_from(
                &terminal_runtimes,
                body.x,
                body.y + offset as u16
            ),
            *expected
        );
    }
}

#[test]
fn second_line_hover_and_click_target_the_same_item() {
    let mut state = app_with_workspaces(&["one", "two", "three"]);
    set_switcher_view(&mut state, 80, 30);
    let terminal_runtimes = TerminalRuntimeRegistry::new();
    state.open_workspace_switcher_from(&terminal_runtimes);
    let body = state.workspace_switcher_body_rect();
    let expected = state.workspace_switcher.scroll + 1;

    handle_workspace_switcher_mouse(
        &mut state,
        &terminal_runtimes,
        MouseEvent {
            kind: MouseEventKind::Moved,
            column: body.x,
            row: body.y + 3,
        },
    );
    assert_eq!(state.workspace_switcher.selected, expected);

    let expected_workspace = state.workspace_switcher_rows()[expected].ws_idx;
    handle_workspace_switcher_mouse(
        &mut state,
        &terminal_runtimes,
        MouseEvent {
            kind: MouseEventKind::Down(MouseButton::Left),
            column: body.x,
            row: body.y + 3,
        },
    );
    assert_eq!(state.active, Some(expected_workspace));
    assert!(!state.workspace_switcher.active);
}

#[test]
fn page_navigation_and_resize_use_mixed_height_item_capacity() {
    let names = (0..20).map(|idx| format!("ws-{idx}")).collect::<Vec<_>>();
    let name_refs = names.iter().map(String::as_str).collect::<Vec<_>>();
    let mut state = app_with_workspaces(&name_refs);
    // Alternate row heights: even rows 1 line, odd rows 2 lines (30
    // physical lines for 20 rows).
    for (idx, ws) in state.workspaces.iter_mut().enumerate() {
        ws.cached_git_branch = if idx % 2 == 1 {
            Some(format!("branch-{idx}"))
        } else {
            None
        };
    }
    let terminal_runtimes = TerminalRuntimeRegistry::new();
    compute_view(&mut state, 80, 30);
    state.open_workspace_switcher_from(&terminal_runtimes);
    let rows = state.workspace_switcher_rows_from(&terminal_runtimes);
    let layout =
        SwitcherRowLayout::new(&rows, state.workspace_switcher_body_rect().height as usize);
    assert_eq!(layout.total_physical(), 30);
    // Body 21 lines fits 14 alternating rows (7 pairs of 3 lines).
    let page = layout.visible_count_at(0);
    assert_eq!(page, 14);
    state.workspace_switcher.selected = 0;
    state.workspace_switcher.scroll = 0;
    handle_workspace_switcher_key(
        &mut state,
        &terminal_runtimes,
        key(KeyCode::PageDown, KeyModifiers::none()),
    );
    assert_eq!(state.workspace_switcher.selected, page);
    handle_workspace_switcher_key(
        &mut state,
        &terminal_runtimes,
        key(KeyCode::PageUp, KeyModifiers::none()),
    );
    assert_eq!(state.workspace_switcher.selected, 0);

    state.enter_workspace_switcher_search_from(&terminal_runtimes);
    let search_layout =
        SwitcherRowLayout::new(&rows, state.workspace_switcher_body_rect().height as usize);
    // Search row + separator shrink the body to 19 lines, fitting 13
    // rows (19 of the 30 physical lines).
    let search_page = search_layout.visible_count_at(0);
    assert_eq!(search_page, 13);
    state.workspace_switcher.selected = 0;
    state.workspace_switcher.scroll = 0;
    handle_workspace_switcher_key(
        &mut state,
        &terminal_runtimes,
        key(KeyCode::PageDown, KeyModifiers::none()),
    );
    assert_eq!(state.workspace_switcher.selected, search_page);
    handle_workspace_switcher_key(
        &mut state,
        &terminal_runtimes,
        key(KeyCode::PageUp, KeyModifiers::none()),
    );
    assert_eq!(state.workspace_switcher.selected, 0);

    state.workspace_switcher.selected = state.workspace_switcher_rows().len() - 1;
    compute_view(&mut state, 80, 16);
    let resized_layout =
        SwitcherRowLayout::new(&rows, state.workspace_switcher_body_rect().height as usize);
    assert!(state.workspace_switcher.selected >= state.workspace_switcher.scroll);
    assert!(
        state.workspace_switcher.selected
            < state.workspace_switcher.scroll.saturating_add(
                resized_layout.visible_count_at(state.workspace_switcher.scroll)
            )
    );
    assert_eq!(state.workspace_switcher.scroll, resized_layout.max_scroll());
}

#[test]
fn mouse_wheel_moves_three_logical_items() {
    let names = (0..20).map(|idx| format!("ws-{idx}")).collect::<Vec<_>>();
    let name_refs = names.iter().map(String::as_str).collect::<Vec<_>>();
    let mut state = app_with_workspaces(&name_refs);
    // Mixed heights: wheel movement counts rows, not physical lines.
    for (idx, ws) in state.workspaces.iter_mut().enumerate() {
        ws.cached_git_branch = if idx % 2 == 1 {
            Some(format!("branch-{idx}"))
        } else {
            None
        };
    }
    set_switcher_view(&mut state, 80, 20);
    let terminal_runtimes = TerminalRuntimeRegistry::new();
    state.open_workspace_switcher_from(&terminal_runtimes);
    state.workspace_switcher.selected = 0;
    state.workspace_switcher.scroll = 0;
    let body = state.workspace_switcher_body_rect();

    handle_workspace_switcher_mouse(
        &mut state,
        &terminal_runtimes,
        MouseEvent {
            kind: MouseEventKind::ScrollDown,
            column: body.x,
            row: body.y,
        },
    );
    assert_eq!(state.workspace_switcher.scroll, 3);
    assert_eq!(state.workspace_switcher.selected, 3);

    handle_workspace_switcher_mouse(
        &mut state,
        &terminal_runtimes,
        MouseEvent {
            kind: MouseEventKind::ScrollUp,
            column: body.x,
            row: body.y,
        },
    );
    assert_eq!(state.workspace_switcher.scroll, 0);
    assert_eq!(state.workspace_switcher.selected, 0);
}

#[test]
fn scrollbar_tracks_mixed_height_window_position() {
    let mut state = app_with_workspaces(&[
        "one", "two", "three", "four", "five", "six", "seven", "eight",
    ]);
    for (idx, ws) in state.workspaces.iter_mut().enumerate() {
        ws.cached_git_branch = if idx % 2 == 1 {
            Some(format!("branch-{idx}"))
        } else {
            None
        };
    }
    let terminal_runtimes = TerminalRuntimeRegistry::new();
    set_switcher_view(&mut state, 80, 12);
    assert_eq!(state.workspace_switcher_body_rect().height, 7);
    state.open_workspace_switcher_from(&terminal_runtimes);
    let body = state.workspace_switcher_body_rect();
    let track_x = body.x + body.width - 1;

    let thumb_rows = |state: &AppState| -> Vec<u16> {
        let buffer = rendered_overlay(state, &terminal_runtimes, 80, 12);
        (body.y..body.y + body.height)
            .filter(|&y| {
                buffer[(track_x, y)].symbol() == "▕"
                    && buffer[(track_x, y)].fg == screen_color(state.palette.overlay0)
            })
            .collect()
    };

    // At the top of the list the thumb starts at the top of the track.
    let top_thumb = thumb_rows(&state);
    assert!(!top_thumb.is_empty());
    assert_eq!(top_thumb.first(), Some(&body.y));

    // Scrolling to the end moves the thumb to the bottom of the track.
    handle_workspace_switcher_key(
        &mut state,
        &terminal_runtimes,
        key(KeyCode::End, KeyModifiers::none()),
    );
    let bottom_thumb = thumb_rows(&state);
    assert!(!bottom_thumb.is_empty());
    assert_eq!(bottom_thumb.last(), Some(&(body.y + body.height - 1)));
    assert!(bottom_thumb.first() > top_thumb.first());
}
