//! The state of copy mode.

use vstd::prelude::*;
use crate::geometry::Rect;
use crate::terminal::{CellPosition, CellSnapshot, PaneId, SnapshotModel, TextMatch};
use crate::views::option_view;

verus! {

/// The search of copy mode.
#[derive(Debug)]
pub struct CopySearch {
    pub query: String,
    pub matches: Vec<TextMatch>,
    pub current: Option<usize>,
}

/// The view of a [`CopySearch`].
#[verifier::ext_equal]
pub struct CopySearchModel {
    pub query: Seq<char>,
    pub matches: Seq<TextMatch>,
    pub current: Option<usize>,
}

impl View for CopySearch {
    type V = CopySearchModel;

    open spec fn view(&self) -> CopySearchModel {
        CopySearchModel { query: self.query@, matches: self.matches@, current: self.current }
    }
}

/// A running copy mode.
#[derive(Debug)]
pub struct CopyModeState {
    pub pane_id: PaneId,
    pub cursor_row: u16,
    pub cursor_col: u16,
    pub search: CopySearch,
}

/// The view of a [`CopyModeState`].
#[verifier::ext_equal]
pub struct CopyModeModel {
    pub pane_id: PaneId,
    pub cursor_row: u16,
    pub cursor_col: u16,
    pub search: CopySearchModel,
}

impl View for CopyModeState {
    type V = CopyModeModel;

    open spec fn view(&self) -> CopyModeModel {
        CopyModeModel {
            pane_id: self.pane_id,
            cursor_row: self.cursor_row,
            cursor_col: self.cursor_col,
            search: self.search@,
        }
    }
}

/// A selection of text, by where it started.
#[derive(Debug, Clone, Copy, PartialEq, Eq, Structural)]
pub struct SelectionState {
    pub pane_id: PaneId,
    pub anchor: CellPosition,
}

/// Where a pane is on the screen.
#[derive(Debug, Clone, Copy, PartialEq, Eq, Structural)]
pub struct PaneInfo {
    pub pane_id: PaneId,
    pub inner_rect: Rect,
}

/// Something that copy mode tells the user.
#[derive(Debug, Clone, Copy, PartialEq, Eq, Structural)]
pub enum CopyModeNotice {
    SnapshotFailed,
    SelectionOutsideSnapshot,
}

/// The visible cells of a pane, kept while copy mode runs.
#[derive(Debug)]
pub struct FrozenCopyView {
    pub pane_id: PaneId,
    pub cells: CellSnapshot,
}

/// The view of a [`FrozenCopyView`].
#[verifier::ext_equal]
pub struct FrozenModel {
    pub pane_id: PaneId,
    pub cells: SnapshotModel,
}

impl View for FrozenCopyView {
    type V = FrozenModel;

    open spec fn view(&self) -> FrozenModel {
        FrozenModel { pane_id: self.pane_id, cells: self.cells@ }
    }
}

/// The labels of jump targets, in the order in which they are given out. `q` is none of them: it
/// cancels.
pub const EASYMOTION_LABELS: &'static str = "asdfghjklwertyuiopzxcvbnm";

/// The largest number of jump targets.
pub const EASYMOTION_MAX_MATCHES: usize = 25;

/// One jump target.
#[derive(Debug, Clone, Copy, PartialEq, Eq, Structural)]
pub struct EasyMotionMatch {
    pub label: char,
    pub row: u16,
    pub col: u16,
}

/// A running jump: the two characters that are looked for, and the targets with their labels.
#[derive(Debug)]
pub struct EasyMotionState {
    pub first: Option<char>,
    pub second: Option<char>,
    pub labels: Vec<EasyMotionMatch>,
    pub case_sensitive: bool,
}

/// The view of an [`EasyMotionState`].
#[verifier::ext_equal]
pub struct EasyMotionModel {
    pub first: Option<char>,
    pub second: Option<char>,
    pub labels: Seq<EasyMotionMatch>,
    pub case_sensitive: bool,
}

impl View for EasyMotionState {
    type V = EasyMotionModel;

    open spec fn view(&self) -> EasyMotionModel {
        EasyMotionModel {
            first: self.first,
            second: self.second,
            labels: self.labels@,
            case_sensitive: self.case_sensitive,
        }
    }
}

/// A jump that was just started.
pub open spec fn fresh_easymotion() -> EasyMotionModel {
    EasyMotionModel {
        first: None,
        second: None,
        labels: Seq::<EasyMotionMatch>::empty(),
        case_sensitive: false,
    }
}

impl EasyMotionModel {
    /// The two characters that are looked for, once both are known.
    pub open spec fn target(self) -> Option<(char, char)> {
        match (self.first, self.second) {
            (Some(first), Some(second)) => Some((first, second)),
            _ => None,
        }
    }

    /// The jump with one more character of its query.
    pub open spec fn with_query_char(self, ch: char) -> EasyMotionModel {
        if self.first is None {
            EasyMotionModel { first: Some(ch), ..self }
        } else if self.second is None {
            EasyMotionModel { second: Some(ch), ..self }
        } else {
            self
        }
    }
}

impl EasyMotionState {
    /// A jump that was just started.
    pub fn new() -> (r: EasyMotionState)
        ensures
            r@ == fresh_easymotion(),
    {
        EasyMotionState { first: None, second: None, labels: Vec::new(), case_sensitive: false }
    }

    /// The two characters that are looked for, once both are known.
    pub fn target(&self) -> (r: Option<(char, char)>)
        ensures
            r == self@.target(),
    {
        match (self.first, self.second) {
            (Some(first), Some(second)) => Some((first, second)),
            _ => None,
        }
    }

    /// Adds a character to the query.
    pub fn push_query_char(&mut self, ch: char)
        ensures
            final(self)@ == old(self)@.with_query_char(ch),
    {
        if self.first.is_none() {
            self.first = Some(ch);
        } else if self.second.is_none() {
            self.second = Some(ch);
        }
    }
}

/// The state of features on top of copy mode.
#[derive(Debug)]
pub struct ForkFeatureState {
    pub easymotion: Option<EasyMotionState>,
    pub frozen_copy_view: Option<FrozenCopyView>,
    pub copy_mode_notice: Option<CopyModeNotice>,
}

/// The view of a [`ForkFeatureState`].
#[verifier::ext_equal]
pub struct ForkModel {
    pub easymotion: Option<EasyMotionModel>,
    pub frozen: Option<FrozenModel>,
    pub notice: Option<CopyModeNotice>,
}

impl View for ForkFeatureState {
    type V = ForkModel;

    open spec fn view(&self) -> ForkModel {
        ForkModel {
            easymotion: option_view(self.easymotion),
            frozen: option_view(self.frozen_copy_view),
            notice: self.copy_mode_notice,
        }
    }
}

} // verus!
