//! What keys mean to a list of workspaces.

use vstd::prelude::*;
use crate::input::{
    is_combo, key_event_matches_combo, no_modifiers, only_control, only_shift, CycleKeybinds,
    CycleModel, KeyCode, KeyEvent, KeyModifiers, ModifierKeyCode,
};

verus! {

/// What a key asks of a list of workspaces.
#[derive(Debug, Clone, Copy, PartialEq, Eq, Structural)]
pub enum ListAction {
    Nothing,
    /// Close the list.
    Close,
    /// Go back from searching to quick switching.
    LeaveSearch,
    /// Go from quick switching to searching.
    EnterSearch,
    /// Accept the selection.
    Accept,
    /// Remove the last character of the query.
    EraseChar,
    /// Remove the whole query.
    EraseQuery,
    /// Put a character behind the query.
    TypeChar(char),
    /// Select the next or previous row.
    NextRow,
    PreviousRow,
    /// Go one page down or up.
    NextPage,
    PreviousPage,
    /// Select the first or last row.
    FirstRow,
    LastRow,
    /// Go to the next or previous workspace, round and round.
    CycleForward,
    CycleBackward,
    /// Show or hide the tabs of the selected workspace.
    Expand,
    Collapse,
}

/// Whether `code` is a shift key on its own.
pub open spec fn is_shift_key(code: KeyCode) -> bool {
    code == KeyCode::Modifier(ModifierKeyCode::LeftShift) || code == KeyCode::Modifier(
        ModifierKeyCode::RightShift,
    )
}

/// What a key means in a search, where `escape` tells what the escape key means.
#[verifier::opaque]
pub open spec fn search_action(key: KeyEvent, query_empty: bool, escape: ListAction) -> ListAction {
    let bare = key.modifiers == no_modifiers();
    let control = key.modifiers == only_control();
    if key.code == KeyCode::Esc {
        escape
    } else if key.code == KeyCode::Enter {
        ListAction::Accept
    } else if key.code == KeyCode::Char('c') && control {
        ListAction::Close
    } else if key.code == KeyCode::Char('q') && bare && query_empty {
        ListAction::Close
    } else if key.code == KeyCode::Backspace {
        ListAction::EraseChar
    } else if key.code == KeyCode::Char('u') && control {
        ListAction::EraseQuery
    } else if key.code == KeyCode::Char('n') && control {
        ListAction::NextRow
    } else if key.code == KeyCode::Char('p') && control {
        ListAction::PreviousRow
    } else if (key.code == KeyCode::Down || key.code == KeyCode::Char('j')) && bare {
        ListAction::NextRow
    } else if (key.code == KeyCode::Up || key.code == KeyCode::Char('k')) && bare {
        ListAction::PreviousRow
    } else if key.code == KeyCode::PageDown {
        ListAction::NextPage
    } else if key.code == KeyCode::PageUp {
        ListAction::PreviousPage
    } else if key.code == KeyCode::Home {
        ListAction::FirstRow
    } else if key.code == KeyCode::End {
        ListAction::LastRow
    } else {
        match key.code {
            KeyCode::Char(c) => if bare || key.modifiers == only_shift() {
                ListAction::TypeChar(c)
            } else {
                ListAction::Nothing
            },
            _ => ListAction::Nothing,
        }
    }
}

/// What a key means while quick switching. `wide` tells whether the arrow keys expand and
/// collapse and the page keys turn pages.
#[verifier::opaque]
pub open spec fn quick_action(key: KeyEvent, keybinds: CycleModel, wide: bool) -> ListAction {
    let command = keybinds.is_command(key.modifiers);
    if key.code == KeyCode::Esc {
        ListAction::Close
    } else if key.code == KeyCode::Enter {
        ListAction::Accept
    } else if key.code == KeyCode::Char('c') && key.modifiers == only_control() {
        ListAction::Close
    } else if is_combo(key, keybinds.forward_combo()) {
        ListAction::CycleForward
    } else if is_combo(key, keybinds.backward_combo()) {
        ListAction::CycleBackward
    } else if is_shift_key(key.code) && command {
        ListAction::CycleBackward
    } else if key.code == KeyCode::Char('s') && command {
        ListAction::EnterSearch
    } else if (key.code == KeyCode::Char('l') || (wide && key.code == KeyCode::Right)) && command {
        ListAction::Expand
    } else if (key.code == KeyCode::Char('h') || (wide && key.code == KeyCode::Left)) && command {
        ListAction::Collapse
    } else if (key.code == KeyCode::Down || key.code == KeyCode::Char('j')) && command {
        ListAction::NextRow
    } else if (key.code == KeyCode::Up || key.code == KeyCode::Char('k')) && command {
        ListAction::PreviousRow
    } else if wide && key.code == KeyCode::PageDown {
        ListAction::NextPage
    } else if wide && key.code == KeyCode::PageUp {
        ListAction::PreviousPage
    } else if key.code == KeyCode::Home {
        ListAction::FirstRow
    } else if key.code == KeyCode::End {
        ListAction::LastRow
    } else {
        ListAction::Nothing
    }
}

/// Decides what a key means in a search.
pub fn search_key_action(key: KeyEvent, query_empty: bool, escape: ListAction) -> (r: ListAction)
    ensures
        r == search_action(key, query_empty, escape),
{
    proof {
        reveal(search_action);
    }
    let bare = key.modifiers.is_empty();
    let control = key.modifiers == KeyModifiers::control();
    match key.code {
        KeyCode::Esc => escape,
        KeyCode::Enter => ListAction::Accept,
        KeyCode::Char('c') if control => ListAction::Close,
        KeyCode::Char('q') if bare && query_empty => ListAction::Close,
        KeyCode::Backspace => ListAction::EraseChar,
        KeyCode::Char('u') if control => ListAction::EraseQuery,
        KeyCode::Char('n') if control => ListAction::NextRow,
        KeyCode::Char('p') if control => ListAction::PreviousRow,
        KeyCode::Down if bare => ListAction::NextRow,
        KeyCode::Char('j') if bare => ListAction::NextRow,
        KeyCode::Up if bare => ListAction::PreviousRow,
        KeyCode::Char('k') if bare => ListAction::PreviousRow,
        KeyCode::PageDown => ListAction::NextPage,
        KeyCode::PageUp => ListAction::PreviousPage,
        KeyCode::Home => ListAction::FirstRow,
        KeyCode::End => ListAction::LastRow,
        KeyCode::Char(c) if bare || key.modifiers == KeyModifiers::shift() => ListAction::TypeChar(
            c,
        ),
        _ => ListAction::Nothing,
    }
}

/// Decides what a key means while quick switching.
pub fn quick_key_action(key: KeyEvent, keybinds: &CycleKeybinds, wide: bool) -> (r: ListAction)
    ensures
        r == quick_action(key, keybinds@, wide),
{
    proof {
        reveal(quick_action);
    }
    let command = keybinds.is_command(key.modifiers);
    let forward = key_event_matches_combo(key, keybinds.forward_combo());
    let backward = key_event_matches_combo(key, keybinds.backward_combo());
    match key.code {
        KeyCode::Esc => ListAction::Close,
        KeyCode::Enter => ListAction::Accept,
        KeyCode::Char('c') if key.modifiers == KeyModifiers::control() => ListAction::Close,
        _ if forward => ListAction::CycleForward,
        _ if backward => ListAction::CycleBackward,
        KeyCode::Modifier(ModifierKeyCode::LeftShift) if command => ListAction::CycleBackward,
        KeyCode::Modifier(ModifierKeyCode::RightShift) if command => ListAction::CycleBackward,
        KeyCode::Char('s') if command => ListAction::EnterSearch,
        KeyCode::Char('l') if command => ListAction::Expand,
        KeyCode::Right if command && wide => ListAction::Expand,
        KeyCode::Char('h') if command => ListAction::Collapse,
        KeyCode::Left if command && wide => ListAction::Collapse,
        KeyCode::Down if command => ListAction::NextRow,
        KeyCode::Char('j') if command => ListAction::NextRow,
        KeyCode::Up if command => ListAction::PreviousRow,
        KeyCode::Char('k') if command => ListAction::PreviousRow,
        KeyCode::PageDown if wide => ListAction::NextPage,
        KeyCode::PageUp if wide => ListAction::PreviousPage,
        KeyCode::Home => ListAction::FirstRow,
        KeyCode::End => ListAction::LastRow,
        _ => ListAction::Nothing,
    }
}

} // verus!
