//! Keys, mouse events and key bindings.

use vstd::prelude::*;

verus! {

/// A modifier key that is pressed or released on its own.
#[derive(Debug, Clone, Copy, PartialEq, Eq, Structural)]
pub enum ModifierKeyCode {
    LeftShift,
    LeftControl,
    LeftAlt,
    LeftSuper,
    LeftHyper,
    LeftMeta,
    RightShift,
    RightControl,
    RightAlt,
    RightSuper,
    RightHyper,
    RightMeta,
    IsoLevel3Shift,
    IsoLevel5Shift,
}

/// A key.
#[derive(Debug, Clone, Copy, PartialEq, Eq, Structural)]
pub enum KeyCode {
    Backspace,
    Enter,
    Left,
    Right,
    Up,
    Down,
    Home,
    End,
    PageUp,
    PageDown,
    Tab,
    BackTab,
    Delete,
    Insert,
    F(u8),
    Char(char),
    Null,
    Esc,
    CapsLock,
    ScrollLock,
    NumLock,
    PrintScreen,
    Pause,
    Menu,
    KeypadBegin,
    Media(u8),
    Modifier(ModifierKeyCode),
}

/// The modifiers that are held with a key.
#[derive(Debug, Clone, Copy, PartialEq, Eq, Structural)]
pub struct KeyModifiers {
    pub shift: bool,
    pub control: bool,
    pub alt: bool,
    pub super_key: bool,
    pub hyper: bool,
    pub meta: bool,
}

/// No modifier.
pub open spec fn no_modifiers() -> KeyModifiers {
    KeyModifiers {
        shift: false,
        control: false,
        alt: false,
        super_key: false,
        hyper: false,
        meta: false,
    }
}

/// Shift alone.
pub open spec fn only_shift() -> KeyModifiers {
    KeyModifiers { shift: true, ..no_modifiers() }
}

/// Control alone.
pub open spec fn only_control() -> KeyModifiers {
    KeyModifiers { control: true, ..no_modifiers() }
}

/// Whether every modifier of `b` is one of `a`.
pub open spec fn has_modifiers(a: KeyModifiers, b: KeyModifiers) -> bool {
    &&& b.shift ==> a.shift
    &&& b.control ==> a.control
    &&& b.alt ==> a.alt
    &&& b.super_key ==> a.super_key
    &&& b.hyper ==> a.hyper
    &&& b.meta ==> a.meta
}

impl KeyModifiers {
    /// No modifier.
    pub fn none() -> (r: KeyModifiers)
        ensures
            r == no_modifiers(),
    {
        KeyModifiers {
            shift: false,
            control: false,
            alt: false,
            super_key: false,
            hyper: false,
            meta: false,
        }
    }

    /// Shift alone.
    pub fn shift() -> (r: KeyModifiers)
        ensures
            r == only_shift(),
    {
        KeyModifiers { shift: true, ..KeyModifiers::none() }
    }

    /// Control alone.
    pub fn control() -> (r: KeyModifiers)
        ensures
            r == only_control(),
    {
        KeyModifiers { control: true, ..KeyModifiers::none() }
    }

    /// Tests whether no modifier is held.
    pub fn is_empty(&self) -> (b: bool)
        ensures
            b == (*self == no_modifiers()),
    {
        *self == KeyModifiers::none()
    }

    /// Tests whether every modifier of `other` is held.
    pub fn contains(&self, other: KeyModifiers) -> (b: bool)
        ensures
            b == has_modifiers(*self, other),
    {
        (self.shift || !other.shift) && (self.control || !other.control) && (self.alt || !other.alt)
            && (self.super_key || !other.super_key) && (self.hyper || !other.hyper) && (self.meta
            || !other.meta)
    }
}

/// A key that is pressed.
#[derive(Debug, Clone, Copy, PartialEq, Eq, Structural)]
pub struct KeyEvent {
    pub code: KeyCode,
    pub modifiers: KeyModifiers,
}

/// A key as the terminal reports it.
#[derive(Debug, Clone, Copy, PartialEq, Eq, Structural)]
pub struct TerminalKey {
    pub code: KeyCode,
    pub modifiers: KeyModifiers,
    /// The code point that the key gives with shift, where the terminal reports it.
    pub shifted_codepoint: Option<u32>,
}

#[derive(Debug, Clone, Copy, PartialEq, Eq, Structural)]
pub enum MouseButton {
    Left,
    Right,
    Middle,
}

#[derive(Debug, Clone, Copy, PartialEq, Eq, Structural)]
pub enum MouseEventKind {
    Down(MouseButton),
    Up(MouseButton),
    Drag(MouseButton),
    Moved,
    ScrollDown,
    ScrollUp,
    ScrollLeft,
    ScrollRight,
}

/// A mouse event at a cell of the screen.
#[derive(Debug, Clone, Copy, PartialEq, Eq, Structural)]
pub struct MouseEvent {
    pub kind: MouseEventKind,
    pub column: u16,
    pub row: u16,
}

// ---------------------------------------------------------------------------
// Characters of keys
// ---------------------------------------------------------------------------

/// Whether `n` is the number of a character.
pub open spec fn is_char_number(n: u32) -> bool {
    n <= 0xd7ff || 0xe000 <= n <= 0x10ffff
}

/// `char::from_u32`: the character with the number `n`, or `None` where `n` is the number of no
/// character.
pub assume_specification[ char::from_u32 ](n: u32) -> (c: Option<char>)
    ensures
        c == (if is_char_number(n) { Some(n as char) } else { None }),
;

/// The character that `ch` becomes with shift on a US keyboard.
pub open spec fn shifted(ch: char) -> Option<char> {
    if 'a' <= ch <= 'z' {
        Some(((ch as u32 - 32) as u32) as char)
    } else {
        match ch {
            '1' => Some('!'),
            '2' => Some('@'),
            '3' => Some('#'),
            '4' => Some('$'),
            '5' => Some('%'),
            '6' => Some('^'),
            '7' => Some('&'),
            '8' => Some('*'),
            '9' => Some('('),
            '0' => Some(')'),
            '-' => Some('_'),
            '=' => Some('+'),
            '[' => Some('{'),
            ']' => Some('}'),
            '\\' => Some('|'),
            ';' => Some(':'),
            '\'' => Some('"'),
            ',' => Some('<'),
            '.' => Some('>'),
            '/' => Some('?'),
            '`' => Some('~'),
            _ => None,
        }
    }
}

/// The character that `ch` becomes with shift on a US keyboard.
pub fn shifted_ascii_char(ch: char) -> (r: Option<char>)
    ensures
        r == shifted(ch),
{
    if 'a' <= ch && ch <= 'z' {
        return Some((ch as u8 - 32) as char);
    }
    match ch {
        '1' => Some('!'),
        '2' => Some('@'),
        '3' => Some('#'),
        '4' => Some('$'),
        '5' => Some('%'),
        '6' => Some('^'),
        '7' => Some('&'),
        '8' => Some('*'),
        '9' => Some('('),
        '0' => Some(')'),
        '-' => Some('_'),
        '=' => Some('+'),
        '[' => Some('{'),
        ']' => Some('}'),
        '\\' => Some('|'),
        ';' => Some(':'),
        '\'' => Some('"'),
        ',' => Some('<'),
        '.' => Some('>'),
        '/' => Some('?'),
        '`' => Some('~'),
        _ => None,
    }
}

/// The character that `key` types in copy mode: the shifted character that the terminal
/// reports, else the character of the key, shifted where shift is held. With any other
/// modifier, and for keys without a character, there is none.
pub open spec fn command_char(key: TerminalKey) -> Option<char> {
    if (KeyModifiers { shift: false, ..key.modifiers }) != no_modifiers() {
        None
    } else if key.shifted_codepoint is Some && is_char_number(key.shifted_codepoint->0) {
        Some(key.shifted_codepoint->0 as char)
    } else {
        match key.code {
            KeyCode::Char(ch) => if key.modifiers.shift && shifted(ch) is Some {
                shifted(ch)
            } else {
                Some(ch)
            },
            _ => None,
        }
    }
}

/// The character that `key` types in copy mode.
pub fn copy_mode_command_char(key: TerminalKey) -> (r: Option<char>)
    ensures
        r == command_char(key),
{
    let other = KeyModifiers { shift: false, ..key.modifiers };
    if !other.is_empty() {
        return None;
    }
    if let Some(n) = key.shifted_codepoint {
        if let Some(ch) = char::from_u32(n) {
            return Some(ch);
        }
    }
    if let KeyCode::Char(ch) = key.code {
        if key.modifiers.shift {
            match shifted_ascii_char(ch) {
                Some(upper) => Some(upper),
                None => Some(ch),
            }
        } else {
            Some(ch)
        }
    } else {
        None
    }
}

// ---------------------------------------------------------------------------
// Key bindings
// ---------------------------------------------------------------------------

/// A key with the modifiers that are held with it.
#[derive(Debug, Clone, Copy, PartialEq, Eq, Structural)]
pub struct KeyCombo {
    pub code: KeyCode,
    pub modifiers: KeyModifiers,
}

/// What triggers a binding.
#[derive(Debug, Clone, Copy, PartialEq, Eq, Structural)]
pub enum BindingTrigger {
    /// A key on its own.
    Direct(KeyCombo),
    /// A key behind the prefix key.
    Prefix(KeyCombo),
    /// Several keys behind the prefix key.
    PrefixSequence,
}

/// The bindings of one action.
#[derive(Debug)]
pub struct ActionKeybinds {
    pub bindings: Vec<BindingTrigger>,
}

impl View for ActionKeybinds {
    type V = Seq<BindingTrigger>;

    open spec fn view(&self) -> Seq<BindingTrigger> {
        self.bindings@
    }
}

/// The first direct combo of `bindings` from index `from` on.
pub open spec fn first_direct(bindings: Seq<BindingTrigger>, from: int) -> Option<KeyCombo>
    decreases bindings.len() - from,
{
    if from < 0 || from >= bindings.len() {
        None
    } else {
        match bindings[from] {
            BindingTrigger::Direct(combo) => Some(combo),
            _ => first_direct(bindings, from + 1),
        }
    }
}

impl ActionKeybinds {
    /// The first combo that triggers the action directly.
    pub fn direct_combo(&self) -> (r: Option<KeyCombo>)
        ensures
            r == first_direct(self@, 0),
    {
        let mut i: usize = 0;
        while i < self.bindings.len()
            invariant
                i <= self.bindings@.len(),
                first_direct(self@, 0) == first_direct(self@, i as int),
            decreases self.bindings@.len() - i,
        {
            if let BindingTrigger::Direct(combo) = self.bindings[i] {
                return Some(combo);
            }
            i += 1;
        }
        None
    }
}

/// The bindings that cycle through workspaces: forward, and backward where they are set.
#[derive(Debug)]
pub struct CycleKeybinds {
    pub forward: ActionKeybinds,
    pub backward: ActionKeybinds,
}

/// The view of [`CycleKeybinds`].
#[verifier::ext_equal]
pub struct CycleModel {
    pub forward: Seq<BindingTrigger>,
    pub backward: Seq<BindingTrigger>,
}

impl View for CycleKeybinds {
    type V = CycleModel;

    open spec fn view(&self) -> CycleModel {
        CycleModel { forward: self.forward@, backward: self.backward@ }
    }
}

impl CycleModel {
    /// The combo that cycles forward.
    pub open spec fn forward_combo(self) -> Option<KeyCombo> {
        first_direct(self.forward, 0)
    }

    /// The combo that cycles backward: the bound one, else the forward one with shift.
    pub open spec fn backward_combo(self) -> Option<KeyCombo> {
        match first_direct(self.backward, 0) {
            Some(combo) => Some(combo),
            None => match self.forward_combo() {
                Some(combo) => Some(
                    KeyCombo {
                        code: combo.code,
                        modifiers: KeyModifiers { shift: true, ..combo.modifiers },
                    },
                ),
                None => None,
            },
        }
    }

    /// Whether a command key counts with `modifiers`: with none, and with those of the forward
    /// combo, which are held while cycling.
    pub open spec fn is_command(self, modifiers: KeyModifiers) -> bool {
        modifiers == no_modifiers() || match self.forward_combo() {
            Some(combo) => has_modifiers(modifiers, combo.modifiers),
            None => false,
        }
    }
}

impl CycleKeybinds {
    /// The combo that cycles forward.
    pub fn forward_combo(&self) -> (r: Option<KeyCombo>)
        ensures
            r == self@.forward_combo(),
    {
        self.forward.direct_combo()
    }

    /// The combo that cycles backward.
    pub fn backward_combo(&self) -> (r: Option<KeyCombo>)
        ensures
            r == self@.backward_combo(),
    {
        match self.backward.direct_combo() {
            Some(combo) => Some(combo),
            None => match self.forward.direct_combo() {
                Some(combo) => Some(
                    KeyCombo {
                        code: combo.code,
                        modifiers: KeyModifiers { shift: true, ..combo.modifiers },
                    },
                ),
                None => None,
            },
        }
    }

    /// Tests whether a command key counts with `modifiers`.
    pub fn is_command(&self, modifiers: KeyModifiers) -> (b: bool)
        ensures
            b == self@.is_command(modifiers),
    {
        if modifiers.is_empty() {
            return true;
        }
        match self.forward_combo() {
            Some(combo) => modifiers.contains(combo.modifiers),
            None => false,
        }
    }
}

/// Whether `key` is the combo `combo`.
pub open spec fn is_combo(key: KeyEvent, combo: Option<KeyCombo>) -> bool {
    combo == Some(KeyCombo { code: key.code, modifiers: key.modifiers })
}

/// Tests whether `key` is the combo `combo`.
pub fn key_event_matches_combo(key: KeyEvent, combo: Option<KeyCombo>) -> (b: bool)
    ensures
        b == is_combo(key, combo),
{
    match combo {
        Some(c) => c.code == key.code && c.modifiers == key.modifiers,
        None => false,
    }
}

/// The modifier that a released key stands for.
pub open spec fn modifier_of(code: KeyCode) -> Option<KeyModifiers> {
    match code {
        KeyCode::Modifier(key) => match key {
            ModifierKeyCode::LeftShift | ModifierKeyCode::RightShift => Some(only_shift()),
            ModifierKeyCode::LeftControl | ModifierKeyCode::RightControl => Some(only_control()),
            ModifierKeyCode::LeftAlt | ModifierKeyCode::RightAlt => Some(
                KeyModifiers { alt: true, ..no_modifiers() },
            ),
            ModifierKeyCode::LeftSuper | ModifierKeyCode::RightSuper => Some(
                KeyModifiers { super_key: true, ..no_modifiers() },
            ),
            ModifierKeyCode::LeftHyper | ModifierKeyCode::RightHyper => Some(
                KeyModifiers { hyper: true, ..no_modifiers() },
            ),
            ModifierKeyCode::LeftMeta | ModifierKeyCode::RightMeta => Some(
                KeyModifiers { meta: true, ..no_modifiers() },
            ),
            _ => None,
        },
        _ => None,
    }
}

/// The modifier that a released key stands for.
pub fn released_modifier(code: KeyCode) -> (r: Option<KeyModifiers>)
    ensures
        r == modifier_of(code),
{
    let none = KeyModifiers::none();
    if let KeyCode::Modifier(key) = code {
        match key {
            ModifierKeyCode::LeftShift | ModifierKeyCode::RightShift => Some(KeyModifiers::shift()),
            ModifierKeyCode::LeftControl | ModifierKeyCode::RightControl => Some(
                KeyModifiers::control(),
            ),
            ModifierKeyCode::LeftAlt | ModifierKeyCode::RightAlt => Some(
                KeyModifiers { alt: true, ..none },
            ),
            ModifierKeyCode::LeftSuper | ModifierKeyCode::RightSuper => Some(
                KeyModifiers { super_key: true, ..none },
            ),
            ModifierKeyCode::LeftHyper | ModifierKeyCode::RightHyper => Some(
                KeyModifiers { hyper: true, ..none },
            ),
            ModifierKeyCode::LeftMeta | ModifierKeyCode::RightMeta => Some(
                KeyModifiers { meta: true, ..none },
            ),
            _ => None,
        }
    } else {
        None
    }
}

/// Whether some direct combo of `bindings` holds `modifier`.
pub open spec fn some_combo_holds(bindings: Seq<BindingTrigger>, modifier: KeyModifiers) -> bool {
    exists|i: int|
        0 <= i < bindings.len() && match #[trigger] bindings[i] {
            BindingTrigger::Direct(combo) => has_modifiers(combo.modifiers, modifier),
            _ => false,
        }
}

/// Whether releasing `code` lets go of a modifier of some direct combo of `bindings`.
pub open spec fn release_matches(bindings: Seq<BindingTrigger>, code: KeyCode) -> bool {
    match modifier_of(code) {
        Some(modifier) => some_combo_holds(bindings, modifier),
        None => false,
    }
}

/// Tests whether releasing `key` lets go of a modifier of some direct combo of `bindings`.
pub fn quick_switch_modifier_release_matches(bindings: &ActionKeybinds, key: TerminalKey) -> (b:
    bool)
    ensures
        b == release_matches(bindings@, key.code),
{
    let modifier = match released_modifier(key.code) {
        Some(modifier) => modifier,
        None => return false,
    };
    let mut i: usize = 0;
    while i < bindings.bindings.len()
        invariant
            i <= bindings.bindings@.len(),
            modifier_of(key.code) == Some(modifier),
            forall|k: int|
                0 <= k < i ==> match #[trigger] bindings@[k] {
                    BindingTrigger::Direct(combo) => !has_modifiers(combo.modifiers, modifier),
                    _ => true,
                },
        decreases bindings.bindings@.len() - i,
    {
        if let BindingTrigger::Direct(combo) = bindings.bindings[i] {
            if combo.modifiers.contains(modifier) {
                proof {
                    assert(bindings@[i as int] == BindingTrigger::Direct(combo));
                }
                return true;
            }
        }
        i += 1;
    }
    false
}

/// Whether every direct combo of `bindings` comes without modifiers.
pub open spec fn direct_combos_bare(bindings: Seq<BindingTrigger>) -> bool {
    forall|i: int|
        0 <= i < bindings.len() ==> match #[trigger] bindings[i] {
            BindingTrigger::Direct(combo) => combo.modifiers == no_modifiers(),
            _ => true,
        }
}

/// Whether every one of `bindings` is a direct combo without modifiers.
pub open spec fn all_direct_and_bare(bindings: Seq<BindingTrigger>) -> bool {
    forall|i: int|
        0 <= i < bindings.len() ==> match #[trigger] bindings[i] {
            BindingTrigger::Direct(combo) => combo.modifiers == no_modifiers(),
            _ => false,
        }
}

impl ActionKeybinds {
    /// Tests whether every direct combo comes without modifiers.
    pub fn has_bare_direct_combos(&self) -> (b: bool)
        ensures
            b == direct_combos_bare(self@),
    {
        let mut i: usize = 0;
        while i < self.bindings.len()
            invariant
                i <= self.bindings@.len(),
                forall|k: int|
                    0 <= k < i ==> match #[trigger] self@[k] {
                        BindingTrigger::Direct(combo) => combo.modifiers == no_modifiers(),
                        _ => true,
                    },
            decreases self.bindings@.len() - i,
        {
            if let BindingTrigger::Direct(combo) = self.bindings[i] {
                if !combo.modifiers.is_empty() {
                    proof {
                        assert(self@[i as int] == BindingTrigger::Direct(combo));
                    }
                    return false;
                }
            }
            i += 1;
        }
        true
    }

    /// Tests whether every binding is a direct combo without modifiers.
    pub fn is_direct_and_bare(&self) -> (b: bool)
        ensures
            b == all_direct_and_bare(self@),
    {
        let mut i: usize = 0;
        while i < self.bindings.len()
            invariant
                i <= self.bindings@.len(),
                forall|k: int|
                    0 <= k < i ==> match #[trigger] self@[k] {
                        BindingTrigger::Direct(combo) => combo.modifiers == no_modifiers(),
                        _ => false,
                    },
            decreases self.bindings@.len() - i,
        {
            let bare = match self.bindings[i] {
                BindingTrigger::Direct(combo) => combo.modifiers.is_empty(),
                _ => false,
            };
            if !bare {
                proof {
                    let trigger_at = self@[i as int];
                    assert(trigger_at == self.bindings@[i as int]);
                }
                return false;
            }
            i += 1;
        }
        true
    }
}

} // verus!
