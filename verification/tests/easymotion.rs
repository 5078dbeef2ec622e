use herdr::copy_mode::{CopyModeNotice, CopyModeState, CopySearch, EASYMOTION_LABELS, EASYMOTION_MAX_MATCHES, EasyMotionMatch, EasyMotionState, PaneInfo, SelectionState};
use herdr::easymotion::{append_easymotion_row_matches, char_cell_width, easymotion_chars_equal, easymotion_label_at, easymotion_query_is_case_sensitive, CodepointWidth, CodepointWidths};
use herdr::easymotion_session::{CaptureRequest, CopyModeFollowUp};
use herdr::geometry::Rect;
use herdr::input::{copy_mode_command_char, ActionKeybinds, BindingTrigger, CycleKeybinds, KeyCode, KeyCombo, KeyEvent, KeyModifiers, TerminalKey};
use herdr::rows::AgentState;
use herdr::state::{AppState, Keybinds, Mode};
use herdr::style::{Color, Dot, DotPair, Palette, Style};
use herdr::terminal::{CellPosition, CellSnapshot, PaneRuntime, TerminalRuntimeRegistry, TextMatch};
use herdr::workspace::{Tab, Workspace};

fn rect(x: u16, y: u16, width: u16, height: u16) -> Rect {
    Rect { x, y, width, height }
}

fn dot(symbol: char, color: Color) -> Dot {
    Dot { symbol, style: Style::plain().with_fg(color) }
}

fn palette() -> Palette {
    Palette {
        accent: Color::Rgb(137, 180, 250),
        panel_bg: Color::Rgb(24, 24, 37),
        text: Color::Rgb(205, 214, 244),
        subtext0: Color::Rgb(166, 173, 200),
        overlay0: Color::Rgb(108, 112, 134),
        overlay1: Color::Rgb(127, 132, 156),
        surface0: Color::Rgb(49, 50, 68),
        surface1: Color::Rgb(69, 71, 90),
        surface_dim: Color::Rgb(30, 30, 46),
        contrast_fg: Color::Rgb(17, 17, 27),
        idle: DotPair { seen: dot('○', Color::Green), unseen: dot('●', Color::Green) },
        working: DotPair { seen: dot('●', Color::Yellow), unseen: dot('●', Color::Yellow) },
        blocked: DotPair { seen: dot('●', Color::Red), unseen: dot('●', Color::Red) },
        unknown: DotPair { seen: dot('·', Color::Gray), unseen: dot('·', Color::Gray) },
    }
}

const SHIFT: KeyModifiers = KeyModifiers {
    shift: true,
    control: false,
    alt: false,
    super_key: false,
    hyper: false,
    meta: false,
};

const CONTROL: KeyModifiers = KeyModifiers {
    shift: false,
    control: true,
    alt: false,
    super_key: false,
    hyper: false,
    meta: false,
};

const ALT: KeyModifiers = KeyModifiers {
    shift: false,
    control: false,
    alt: true,
    super_key: false,
    hyper: false,
    meta: false,
};

const SUPER: KeyModifiers = KeyModifiers {
    shift: false,
    control: false,
    alt: false,
    super_key: true,
    hyper: false,
    meta: false,
};

fn both(a: KeyModifiers, b: KeyModifiers) -> KeyModifiers {
    KeyModifiers {
        shift: a.shift || b.shift,
        control: a.control || b.control,
        alt: a.alt || b.alt,
        super_key: a.super_key || b.super_key,
        hyper: a.hyper || b.hyper,
        meta: a.meta || b.meta,
    }
}

fn key(code: KeyCode, modifiers: KeyModifiers) -> KeyEvent {
    KeyEvent { code, modifiers }
}

fn terminal_key(code: KeyCode, modifiers: KeyModifiers) -> TerminalKey {
    TerminalKey { code, modifiers, shifted_codepoint: None }
}

/// The bindings that `text` asks for, such as `ctrl+tab`.
fn binding(text: &str) -> ActionKeybinds {
    let mut modifiers = KeyModifiers::none();
    let mut code = KeyCode::Null;
    for part in text.split('+') {
        match part {
            "ctrl" => modifiers = both(modifiers, CONTROL),
            "alt" => modifiers = both(modifiers, ALT),
            "cmd" | "super" => modifiers = both(modifiers, SUPER),
            "shift" => modifiers = both(modifiers, SHIFT),
            "tab" => code = KeyCode::Tab,
            "f13" => code = KeyCode::F(13),
            "f14" => code = KeyCode::F(14),
            other => panic!("unknown key {other}"),
        }
    }
    ActionKeybinds { bindings: vec![BindingTrigger::Direct(KeyCombo { code, modifiers })] }
}

fn cycle_keybinds(forward: &str, backward: Option<&str>) -> CycleKeybinds {
    CycleKeybinds {
        forward: binding(forward),
        backward: match backward {
            Some(text) => binding(text),
            None => ActionKeybinds { bindings: vec![] },
        },
    }
}

fn new_state() -> AppState {
    AppState::new(
        Keybinds {
            quick_switch_workspace: cycle_keybinds("ctrl+tab", None),
            workspace_switcher: cycle_keybinds("ctrl+tab", None),
        },
        palette(),
    )
}

fn new_tab(workspace_id: &str, number: u64, name: &str) -> Tab {
    Tab {
        tab_id: format!("{workspace_id}/{number}"),
        display_name: name.to_string(),
        panes: vec![number],
        focused_pane: number,
        activity: String::new(),
        state: AgentState::Unknown,
        seen: true,
    }
}

fn new_workspace(id: &str, name: &str) -> Workspace {
    Workspace {
        id: id.to_string(),
        custom_name: Some(name.to_string()),
        auto_label: format!("cwd-{id}"),
        root_pane: 1,
        cached_git_branch: Some("trunk".to_string()),
        worktree_space: None,
        tabs: vec![new_tab(id, 1, "1")],
        active_tab: 0,
        activity: String::new(),
        state: AgentState::Unknown,
        seen: true,
    }
}

fn app_with_workspaces(names: &[&str]) -> AppState {
    let mut state = new_state();
    for (index, name) in names.iter().enumerate() {
        state.workspaces.push(new_workspace(&format!("w{index}"), name));
    }
    if !state.workspaces.is_empty() {
        state.active = Some(0);
        state.mode = Mode::Terminal;
    }
    state
}

fn narrow() -> CodepointWidths {
    CodepointWidths { listed: vec![], otherwise: 1 }
}

#[test]
fn easymotion_match_columns_follow_copy_mode_widths() {
    let prefix = "界\u{301}\u{fe0f}";
    let widths = CodepointWidths {
        listed: vec![
            CodepointWidth { ch: '界', width: 2 },
            CodepointWidth { ch: '\u{301}', width: 0 },
            CodepointWidth { ch: '\u{fe0f}', width: 0 },
        ],
        otherwise: 1,
    };
    let mut easymotion = EasyMotionState::new();

    append_easymotion_row_matches(&format!("{prefix}th"), &widths, 0, 't', 'h', &mut easymotion);

    let expected_col = prefix
        .chars()
        .fold(0u16, |col, ch| col.saturating_add(u16::from(widths.width(ch)).max(1)));
    assert_eq!(easymotion.labels[0].col, expected_col);
    assert_eq!(expected_col, 4);
}

#[test]
fn cells_are_at_least_one_wide() {
    let widths =
        CodepointWidths { listed: vec![CodepointWidth { ch: '界', width: 2 }], otherwise: 0 };
    assert_eq!(char_cell_width(&widths, '界'), 2);
    assert_eq!(char_cell_width(&widths, 'a'), 1);
}

#[test]
fn labels_follow_the_home_row_and_run_out() {
    assert_eq!(easymotion_label_at(0), Some('a'));
    assert_eq!(easymotion_label_at(1), Some('s'));
    assert_eq!(easymotion_label_at(24), Some('m'));
    assert_eq!(easymotion_label_at(25), None);
    assert!(!EASYMOTION_LABELS.contains('q'));
    assert_eq!(EASYMOTION_LABELS.chars().count(), EASYMOTION_MAX_MATCHES);
}

#[test]
fn targets_beyond_the_labels_are_dropped() {
    let mut easymotion = EasyMotionState::new();
    let text = "ab".repeat(30);
    append_easymotion_row_matches(&text, &narrow(), 3, 'a', 'b', &mut easymotion);
    assert_eq!(easymotion.labels.len(), EASYMOTION_MAX_MATCHES);
    assert_eq!(easymotion.labels[24], EasyMotionMatch { label: 'm', row: 3, col: 48 });
    append_easymotion_row_matches("ab", &narrow(), 4, 'a', 'b', &mut easymotion);
    assert_eq!(easymotion.labels.len(), EASYMOTION_MAX_MATCHES);
}

#[test]
fn case_counts_only_with_an_uppercase_character() {
    assert!(!easymotion_query_is_case_sensitive('a', 'b'));
    assert!(easymotion_query_is_case_sensitive('A', 'b'));
    assert!(easymotion_query_is_case_sensitive('a', 'Ä'));
    assert!(easymotion_chars_equal('Ä', 'ä', false));
    assert!(!easymotion_chars_equal('Ä', 'ä', true));
    assert!(!easymotion_chars_equal('a', 'b', false));
    // A character whose lowercase form has two characters equals itself alone.
    assert!(easymotion_chars_equal('İ', 'İ', false));
    assert!(!easymotion_chars_equal('İ', 'i', false));
}

const PANE: u64 = 1;

fn snapshot(rows: &[&str]) -> CellSnapshot {
    CellSnapshot {
        first_row: 10,
        width: 20,
        rows: rows.iter().map(|row| row.to_string()).collect(),
    }
}

fn pane_showing(rows: &[&str]) -> TerminalRuntimeRegistry {
    TerminalRuntimeRegistry {
        runtimes: vec![PaneRuntime {
            pane_id: PANE,
            live_label: None,
            visible_ansi: String::new(),
            visible_rows: rows.iter().map(|row| row.to_string()).collect(),
        }],
    }
}

fn state_in_copy_mode() -> AppState {
    let mut state = app_with_workspaces(&["main"]);
    state.copy_mode = Some(CopyModeState {
        pane_id: PANE,
        cursor_row: 0,
        cursor_col: 0,
        search: CopySearch { query: String::new(), matches: vec![], current: None },
    });
    state.pane_infos = vec![PaneInfo { pane_id: PANE, inner_rect: rect(0, 0, 20, 2) }];
    state
}

fn typed(c: char) -> TerminalKey {
    terminal_key(KeyCode::Char(c), KeyModifiers::none())
}

#[test]
fn two_characters_and_a_label_jump_to_the_target() {
    let runtimes = pane_showing(&["the path", "other"]);
    let mut state = state_in_copy_mode();
    state.begin_copy_mode_easymotion(&runtimes, Some(snapshot(&["the path", "other"])), vec![]);
    assert!(state.fork_features.frozen_copy_view.is_some());

    for c in ['t', 'h'] {
        let follow_up = state.handle_copy_mode_easymotion_key(&runtimes, &narrow(), typed(c));
        assert_eq!(follow_up, CopyModeFollowUp::Nothing);
    }
    assert_eq!(
        state.fork_features.easymotion.as_ref().expect("jump").labels,
        vec![
            EasyMotionMatch { label: 'a', row: 0, col: 0 },
            EasyMotionMatch { label: 's', row: 0, col: 6 },
            EasyMotionMatch { label: 'd', row: 1, col: 1 },
        ]
    );

    // A character that is no label changes nothing.
    let follow_up = state.handle_copy_mode_easymotion_key(&runtimes, &narrow(), typed('x'));
    assert_eq!(follow_up, CopyModeFollowUp::Nothing);
    assert!(state.fork_features.easymotion.is_some());

    let follow_up = state.handle_copy_mode_easymotion_key(&runtimes, &narrow(), typed('s'));
    assert_eq!(follow_up, CopyModeFollowUp::SyncSelection);
    let copy_mode = state.copy_mode.as_ref().expect("copy mode");
    assert_eq!((copy_mode.cursor_row, copy_mode.cursor_col), (0, 6));
    assert!(state.fork_features.easymotion.is_none());
}

#[test]
fn uppercase_pairs_heed_case() {
    let runtimes = pane_showing(&["the The"]);
    let mut state = state_in_copy_mode();
    state.begin_copy_mode_easymotion(&runtimes, Some(snapshot(&["the The"])), vec![]);
    let shifted = TerminalKey {
        code: KeyCode::Char('t'),
        modifiers: KeyModifiers::shift(),
        shifted_codepoint: Some('T' as u32),
    };
    state.handle_copy_mode_easymotion_key(&runtimes, &narrow(), shifted);
    state.handle_copy_mode_easymotion_key(&runtimes, &narrow(), typed('h'));
    let jump = state.fork_features.easymotion.as_ref().expect("jump");
    assert!(jump.case_sensitive);
    assert_eq!(jump.labels, vec![EasyMotionMatch { label: 'a', row: 0, col: 4 }]);
}

#[test]
fn escape_and_q_cancel_a_jump() {
    let runtimes = pane_showing(&["the path"]);
    for cancel in [terminal_key(KeyCode::Esc, KeyModifiers::none()), typed('q')] {
        let mut state = state_in_copy_mode();
        state.begin_copy_mode_easymotion(&runtimes, Some(snapshot(&["the path"])), vec![]);
        assert!(state.fork_features.easymotion.is_some());
        state.handle_copy_mode_easymotion_key(&runtimes, &narrow(), cancel);
        assert!(state.fork_features.easymotion.is_none());
        assert!(state.copy_mode.is_some());
    }
}

#[test]
fn the_view_is_frozen_once() {
    let runtimes = pane_showing(&["the path"]);
    let mut state = state_in_copy_mode();
    let wanted = CaptureRequest { pane_id: PANE, width: 20, height: 2 };
    assert_eq!(state.copy_mode_capture_request(&runtimes), Some(wanted));
    state.begin_copy_mode_easymotion(&runtimes, Some(snapshot(&["the path"])), vec![]);
    state.cancel_copy_mode_easymotion();
    assert_eq!(state.copy_mode_capture_request(&runtimes), None);
    state.begin_copy_mode_easymotion(&runtimes, Some(snapshot(&["all new"])), vec![]);
    let view = state.fork_features.frozen_copy_view.as_ref().expect("frozen view");
    assert_eq!(view.cells.rows, vec!["the path".to_string()]);
    assert!(state.fork_features.easymotion.is_some());
}

#[test]
fn a_view_that_cannot_be_captured_gives_a_notice() {
    let runtimes = pane_showing(&["the path"]);
    let mut state = state_in_copy_mode();
    state.begin_copy_mode_easymotion(&runtimes, None, vec![]);
    assert!(state.fork_features.easymotion.is_none());
    assert_eq!(state.fork_features.copy_mode_notice, Some(CopyModeNotice::SnapshotFailed));

    // Without a terminal nothing is asked for, and nothing is frozen.
    let none = TerminalRuntimeRegistry::new();
    let mut state = state_in_copy_mode();
    assert_eq!(state.copy_mode_capture_request(&none), None);
    state.begin_copy_mode_easymotion(&none, Some(snapshot(&["the path"])), vec![]);
    assert!(state.fork_features.frozen_copy_view.is_none());
    assert_eq!(state.fork_features.copy_mode_notice, Some(CopyModeNotice::SnapshotFailed));
}

#[test]
fn a_pane_that_is_not_on_the_screen_is_not_captured() {
    let runtimes = pane_showing(&["the path"]);
    let mut state = state_in_copy_mode();
    state.pane_infos.clear();
    assert_eq!(state.copy_mode_capture_request(&runtimes), None);
    state.begin_copy_mode_easymotion(&runtimes, Some(snapshot(&["the path"])), vec![]);
    assert!(state.fork_features.easymotion.is_none());
    assert_eq!(state.fork_features.copy_mode_notice, None);
}

#[test]
fn a_selection_outside_the_view_is_dropped() {
    let runtimes = pane_showing(&["the path"]);
    for (row, kept) in [(10, true), (9, false), (11, false)] {
        let mut state = state_in_copy_mode();
        state.selection =
            Some(SelectionState { pane_id: PANE, anchor: CellPosition { row, col: 3 } });
        state.begin_copy_mode_easymotion(&runtimes, Some(snapshot(&["the path"])), vec![]);
        assert_eq!(state.selection.is_some(), kept, "row {row}");
        assert_eq!(
            state.fork_features.copy_mode_notice,
            if kept { None } else { Some(CopyModeNotice::SelectionOutsideSnapshot) }
        );
    }
}

#[test]
fn copy_mode_ends_when_its_pane_is_gone() {
    let runtimes = pane_showing(&["the path"]);
    let mut state = state_in_copy_mode();
    state.begin_copy_mode_easymotion(&runtimes, Some(snapshot(&["the path"])), vec![]);
    state.pane_infos.clear();
    state.handle_copy_mode_easymotion_key(&runtimes, &narrow(), typed('t'));
    let follow_up = state.handle_copy_mode_easymotion_key(&runtimes, &narrow(), typed('h'));
    assert_eq!(follow_up, CopyModeFollowUp::CancelCopyMode);
}

#[test]
fn the_search_is_repeated_on_the_frozen_view() {
    let hit = |row: u64, col: u16| TextMatch {
        start: CellPosition { row, col },
        end: CellPosition { row, col: col + 2 },
    };
    let runtimes = pane_showing(&["the path"]);
    for (query, asked, found, matches, current) in [
        ("th", Some(false), vec![hit(10, 0), hit(10, 7)], 2, Some(1)),
        ("Th", Some(true), vec![hit(10, 7)], 1, Some(0)),
        ("", None, vec![], 1, Some(0)),
    ] {
        let mut state = state_in_copy_mode();
        let search = CopySearch {
            query: query.to_string(),
            matches: vec![hit(10, 7)],
            current: Some(0),
        };
        state.copy_mode.as_mut().expect("copy mode").search = search;
        let request = state.copy_mode_search_request();
        assert_eq!(request.as_ref().map(|r| r.case_sensitive), asked, "{query}");
        assert_eq!(request.map(|r| r.query), asked.map(|_| query.to_string()));
        state.begin_copy_mode_easymotion(&runtimes, Some(snapshot(&["the path"])), found);
        let search = &state.copy_mode.as_ref().expect("copy mode").search;
        assert_eq!(search.matches.len(), matches, "{query}");
        assert_eq!(search.current, current, "{query}");
    }
}

#[test]
fn sameness_of_characters_is_an_equivalence() {
    let chars = ['t', 'T', 'ä', 'Ä', 'İ', '1'];
    for a in chars {
        for b in chars {
            assert_eq!(easymotion_chars_equal(a, b, true), a == b);
            assert_eq!(easymotion_chars_equal(a, b, false), easymotion_chars_equal(b, a, false));
            if a == b {
                assert!(easymotion_chars_equal(a, b, false));
            }
        }
    }
    for (large, small) in ('A'..='Z').zip('a'..='z') {
        assert!(easymotion_chars_equal(large, small, false));
        assert!(!easymotion_chars_equal(large, small, true));
    }
    assert!(!easymotion_chars_equal('@', '`', false));
    assert!(!easymotion_chars_equal('[', '{', false));
}

#[test]
fn keys_with_other_modifiers_type_nothing() {
    assert_eq!(copy_mode_command_char(terminal_key(KeyCode::Char('t'), CONTROL)), None);
    assert_eq!(copy_mode_command_char(terminal_key(KeyCode::Char('t'), SHIFT)), Some('T'));
    assert_eq!(copy_mode_command_char(terminal_key(KeyCode::Char('1'), SHIFT)), Some('!'));
    assert_eq!(copy_mode_command_char(terminal_key(KeyCode::Tab, KeyModifiers::none())), None);
    let coded = |n: u32| TerminalKey {
        code: KeyCode::Char('a'),
        modifiers: KeyModifiers::shift(),
        shifted_codepoint: Some(n),
    };
    assert_eq!(copy_mode_command_char(coded('Ä' as u32)), Some('Ä'));
    // A number that is no character is passed over.
    assert_eq!(copy_mode_command_char(coded(0xD800)), Some('A'));
}
