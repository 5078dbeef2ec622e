//! Running a jump: starting it, its keys, and its targets.

use vstd::prelude::*;
use crate::copy_mode::{
    fresh_easymotion, CopyModeModel, CopyModeNotice, CopySearch, CopySearchModel, EasyMotionMatch,
    EasyMotionModel, EasyMotionState, ForkModel, FrozenCopyView, FrozenModel, PaneInfo,
    SelectionState, EASYMOTION_MAX_MATCHES,
};
use crate::easymotion::{
    append_easymotion_row_matches, easymotion_query_is_case_sensitive, labelled_in_order,
    lemma_labelled, lemma_labels_distinct, lemma_labels_used_up,
    uppercase, with_row_targets, CodepointWidths, WidthsModel,
};
use crate::input::{command_char, copy_mode_command_char, KeyCode, TerminalKey};
use crate::state::{AppModel, AppState};
use crate::terminal::{
    copy_texts, CellSnapshot, PaneId, RegistryModel, SnapshotModel, TerminalRuntimeRegistry,
    TextMatch,
};
use crate::text::chars_of;
use crate::views::{option_view, views};

verus! {

// ---------------------------------------------------------------------------
// Searching the frozen view
// ---------------------------------------------------------------------------

/// Whether one of the characters of `s` is uppercase.
pub open spec fn has_uppercase(s: Seq<char>) -> bool {
    exists|i: int| 0 <= i < s.len() && #[trigger] uppercase(s[i])
}

/// The index of the match at the same place as `wanted`, from index `from` on.
pub open spec fn match_index(matches: Seq<TextMatch>, wanted: TextMatch, from: int) -> Option<usize>
    decreases matches.len() - from,
{
    if from < 0 || from >= matches.len() {
        None
    } else if matches[from] == wanted {
        Some(from as usize)
    } else {
        match_index(matches, wanted, from + 1)
    }
}

impl CopySearchModel {
    /// The match that is current.
    pub open spec fn current_match(self) -> Option<TextMatch> {
        match self.current {
            Some(i) => if i < self.matches.len() {
                Some(self.matches[i as int])
            } else {
                None
            },
            None => None,
        }
    }

    /// The search repeated on `matches`; the current match stays current where it is found again.
    pub open spec fn on_matches(self, matches: Seq<TextMatch>) -> CopySearchModel {
        CopySearchModel {
            matches,
            current: match self.current_match() {
                Some(wanted) => match_index(matches, wanted, 0),
                None => None,
            },
            ..self
        }
    }

    /// The search repeated with the result `matches`; without a query there is nothing to repeat.
    pub open spec fn repeated(self, matches: Seq<TextMatch>) -> CopySearchModel {
        if self.query.len() == 0 {
            self
        } else {
            self.on_matches(matches)
        }
    }

    /// The search that is to be repeated on a view: without regard to case unless the query has an
    /// uppercase character.
    pub open spec fn request(self) -> Option<SearchRequestModel> {
        if self.query.len() == 0 {
            None
        } else {
            Some(SearchRequestModel { query: self.query, case_sensitive: has_uppercase(self.query) })
        }
    }
}

/// A search that is to be made in the captured cells of a pane.
#[derive(Debug, PartialEq, Eq)]
pub struct SearchRequest {
    pub query: String,
    pub case_sensitive: bool,
}

/// The view of a [`SearchRequest`].
pub struct SearchRequestModel {
    pub query: Seq<char>,
    pub case_sensitive: bool,
}

impl View for SearchRequest {
    type V = SearchRequestModel;

    open spec fn view(&self) -> SearchRequestModel {
        SearchRequestModel { query: self.query@, case_sensitive: self.case_sensitive }
    }
}

fn text_has_uppercase(text: &str) -> (b: bool)
    ensures
        b == has_uppercase(text@),
{
    let chars = chars_of(text);
    let mut i: usize = 0;
    while i < chars.len()
        invariant
            i <= chars@.len(),
            chars@ == text@,
            forall|k: int| 0 <= k < i ==> !#[trigger] uppercase(text@[k]),
        decreases chars@.len() - i,
    {
        if crate::easymotion::is_uppercase(chars[i]) {
            return true;
        }
        i += 1;
    }
    false
}

/// Finds the match at the same place as `wanted`.
pub fn find_match(matches: &Vec<TextMatch>, wanted: TextMatch) -> (r: Option<usize>)
    ensures
        r == match_index(matches@, wanted, 0),
{
    let mut i: usize = 0;
    while i < matches.len()
        invariant
            i <= matches@.len(),
            match_index(matches@, wanted, 0) == match_index(matches@, wanted, i as int),
        decreases matches@.len() - i,
    {
        if matches[i].start == wanted.start && matches[i].end == wanted.end {
            return Some(i);
        }
        i += 1;
    }
    None
}

impl CopySearch {
    /// Repeats the search on `matches`.
    pub fn set_matches(&mut self, matches: Vec<TextMatch>)
        ensures
            final(self)@ == old(self)@.on_matches(matches@),
    {
        let current = match self.current {
            Some(i) => if i < self.matches.len() {
                find_match(&matches, self.matches[i])
            } else {
                None
            },
            None => None,
        };
        self.current = current;
        self.matches = matches;
    }

    /// The search that is to be repeated on a view.
    pub fn request(&self) -> (r: Option<SearchRequest>)
        ensures
            option_view(r) == self@.request(),
    {
        if self.query.as_str().is_empty() {
            return None;
        }
        let case_sensitive = text_has_uppercase(self.query.as_str());
        Some(SearchRequest { query: self.query.clone(), case_sensitive })
    }

    /// Repeats the search with the result `matches`.
    pub fn repeat(&mut self, matches: Vec<TextMatch>)
        ensures
            final(self)@ == old(self)@.repeated(matches@),
    {
        if !self.query.as_str().is_empty() {
            self.set_matches(matches);
        }
    }
}

// ---------------------------------------------------------------------------
// Starting
// ---------------------------------------------------------------------------

/// The visible cells that are to be captured before a jump.
#[derive(Debug, Clone, Copy, PartialEq, Eq, Structural)]
pub struct CaptureRequest {
    pub pane_id: PaneId,
    pub width: u16,
    pub height: u16,
}

/// What the caller has to do after a key of a jump.
#[derive(Debug, Clone, Copy, PartialEq, Eq, Structural)]
pub enum CopyModeFollowUp {
    Nothing,
    /// Extend the selection to the cursor.
    SyncSelection,
    /// Leave copy mode.
    CancelCopyMode,
}

/// The place of pane `pane_id`, where the list is read from index `from` on.
pub open spec fn pane_info_from(infos: Seq<PaneInfo>, pane_id: PaneId, from: int) -> Option<
    PaneInfo,
>
    decreases infos.len() - from,
{
    if from < 0 || from >= infos.len() {
        None
    } else if infos[from].pane_id == pane_id {
        Some(infos[from])
    } else {
        pane_info_from(infos, pane_id, from + 1)
    }
}

/// Whether the selection starts outside the frozen view.
pub open spec fn anchor_outside(
    selection: Option<SelectionState>,
    frozen: Option<FrozenModel>,
    pane_id: PaneId,
) -> bool {
    match (selection, frozen) {
        (Some(selection), Some(frozen)) => selection.pane_id != pane_id || !frozen.cells.holds(
            selection.anchor,
        ),
        _ => false,
    }
}

impl AppModel {
    /// The visible rows of pane `pane_id` of the active workspace, where it has a terminal.
    #[verifier::opaque]
    pub open spec fn live_rows(self, runtimes: RegistryModel, pane_id: PaneId) -> Option<
        Seq<Seq<char>>,
    > {
        match self.active {
            Some(ws_idx) => match self.pane_runtime(runtimes, ws_idx, pane_id) {
                Some(runtime) => Some(runtime.visible_rows),
                None => None,
            },
            None => None,
        }
    }

    /// What is to be captured before a jump: the inside of the pane of copy mode, where it is on
    /// the screen and has a terminal, unless a view is frozen already.
    pub open spec fn capture_request(self, runtimes: RegistryModel) -> Option<CaptureRequest> {
        match self.copy_mode {
            Some(copy_mode) => match pane_info_from(self.pane_infos, copy_mode.pane_id, 0) {
                Some(info) => if self.fork.frozen is None && self.live_rows(
                    runtimes,
                    copy_mode.pane_id,
                ) is Some {
                    Some(
                        CaptureRequest {
                            pane_id: copy_mode.pane_id,
                            width: info.inner_rect.width,
                            height: info.inner_rect.height,
                        },
                    )
                } else {
                    None
                },
                None => None,
            },
            None => None,
        }
    }

    /// The state with a view frozen and the search of copy mode repeated on it with the result
    /// `matches`.
    pub open spec fn with_frozen_view(
        self,
        cells: SnapshotModel,
        matches: Seq<TextMatch>,
    ) -> AppModel {
        match self.copy_mode {
            Some(copy_mode) => AppModel {
                copy_mode: Some(
                    CopyModeModel { search: copy_mode.search.repeated(matches), ..copy_mode },
                ),
                fork: ForkModel {
                    frozen: Some(FrozenModel { pane_id: copy_mode.pane_id, cells }),
                    ..self.fork
                },
                ..self
            },
            None => self,
        }
    }

    /// The state after a view could not be captured.
    pub open spec fn without_view(self) -> AppModel {
        AppModel {
            fork: ForkModel {
                easymotion: None,
                notice: Some(CopyModeNotice::SnapshotFailed),
                ..self.fork
            },
            ..self
        }
    }

    /// The state with a jump started on a frozen view. A selection that starts outside the view
    /// is dropped.
    pub open spec fn with_fresh_jump(self, pane_id: PaneId) -> AppModel {
        let outside = anchor_outside(self.selection, self.fork.frozen, pane_id);
        AppModel {
            selection: if outside {
                None
            } else {
                self.selection
            },
            fork: ForkModel {
                easymotion: Some(fresh_easymotion()),
                notice: if outside {
                    Some(CopyModeNotice::SelectionOutsideSnapshot)
                } else if self.fork.notice == Some(CopyModeNotice::SnapshotFailed) {
                    None
                } else {
                    self.fork.notice
                },
                ..self.fork
            },
            ..self
        }
    }

    /// The state with a jump started. The captured cells are frozen unless a view is already:
    /// `cells` is what came of the capture that was requested, and `matches` what the search of
    /// copy mode finds in them.
    pub open spec fn jump_begun(
        self,
        runtimes: RegistryModel,
        cells: Option<SnapshotModel>,
        matches: Seq<TextMatch>,
    ) -> AppModel {
        match self.copy_mode {
            None => self,
            Some(copy_mode) => {
                let pane_id = copy_mode.pane_id;
                if self.fork.frozen is Some {
                    self.with_fresh_jump(pane_id)
                } else if pane_info_from(self.pane_infos, pane_id, 0) is None {
                    self
                } else if self.capture_request(runtimes) is Some && cells is Some {
                    self.with_frozen_view(cells->0, matches).with_fresh_jump(pane_id)
                } else {
                    self.without_view()
                }
            },
        }
    }

    /// The state without a jump.
    pub open spec fn jump_cancelled(self) -> AppModel {
        AppModel { fork: ForkModel { easymotion: None, ..self.fork }, ..self }
    }
}

impl AppState {
    /// The place of pane `pane_id` on the screen.
    pub fn pane_info_by_id(&self, pane_id: PaneId) -> (r: Option<PaneInfo>)
        ensures
            r == pane_info_from(self@.pane_infos, pane_id, 0),
    {
        let mut i: usize = 0;
        while i < self.pane_infos.len()
            invariant
                i <= self.pane_infos@.len(),
                pane_info_from(self.pane_infos@, pane_id, 0) == pane_info_from(
                    self.pane_infos@,
                    pane_id,
                    i as int,
                ),
            decreases self.pane_infos@.len() - i,
        {
            if self.pane_infos[i].pane_id == pane_id {
                return Some(self.pane_infos[i]);
            }
            i += 1;
        }
        None
    }

    fn visible_rows_of(&self, terminal_runtimes: &TerminalRuntimeRegistry, pane_id: PaneId) -> (r:
        Option<Vec<String>>)
        ensures
            match r {
                Some(rows) => self@.live_rows(terminal_runtimes@, pane_id) == Some(views(rows@)),
                None => self@.live_rows(terminal_runtimes@, pane_id) is None,
            },
    {
        proof {
            reveal(AppModel::live_rows);
        }
        let ws_idx: usize = match self.active {
            Some(ws_idx) => ws_idx,
            None => return None,
        };
        match self.runtime_for_pane_in_workspace(terminal_runtimes, ws_idx, pane_id) {
            Some(runtime) => Some(copy_texts(&runtime.visible_rows)),
            None => None,
        }
    }

    /// What is to be captured before a jump.
    pub fn copy_mode_capture_request(&self, terminal_runtimes: &TerminalRuntimeRegistry) -> (r:
        Option<CaptureRequest>)
        ensures
            r == self@.capture_request(terminal_runtimes@),
    {
        let pane_id: PaneId = match &self.copy_mode {
            Some(copy_mode) => copy_mode.pane_id,
            None => return None,
        };
        let info = match self.pane_info_by_id(pane_id) {
            Some(info) => info,
            None => return None,
        };
        if self.fork_features.frozen_copy_view.is_some() || self.visible_rows_of(
            terminal_runtimes,
            pane_id,
        ).is_none() {
            return None;
        }
        Some(
            CaptureRequest {
                pane_id,
                width: info.inner_rect.width,
                height: info.inner_rect.height,
            },
        )
    }

    /// The search that is to be made in captured cells.
    pub fn copy_mode_search_request(&self) -> (r: Option<SearchRequest>)
        ensures
            option_view(r) == (match self@.copy_mode {
                Some(copy_mode) => copy_mode.search.request(),
                None => None,
            }),
    {
        match &self.copy_mode {
            Some(copy_mode) => copy_mode.search.request(),
            None => None,
        }
    }

    fn freeze_view(&mut self, cells: CellSnapshot, matches: Vec<TextMatch>)
        ensures
            final(self)@ == old(self)@.with_frozen_view(cells@, matches@),
    {
        if let Some(mut copy_mode) = self.copy_mode.take() {
            copy_mode.search.repeat(matches);
            self.fork_features.frozen_copy_view = Some(
                FrozenCopyView { pane_id: copy_mode.pane_id, cells },
            );
            self.copy_mode = Some(copy_mode);
        }
    }

    fn give_up_view(&mut self)
        ensures
            final(self)@ == old(self)@.without_view(),
    {
        self.fork_features.easymotion = None;
        self.fork_features.copy_mode_notice = Some(CopyModeNotice::SnapshotFailed);
    }

    fn selection_is_outside(&self, pane_id: PaneId) -> (b: bool)
        ensures
            b == anchor_outside(self@.selection, self@.fork.frozen, pane_id),
    {
        match (&self.selection, &self.fork_features.frozen_copy_view) {
            (Some(selection), Some(frozen)) => selection.pane_id != pane_id
                || !frozen.cells.contains_absolute_cell(selection.anchor),
            _ => false,
        }
    }

    fn start_jump(&mut self, pane_id: PaneId)
        ensures
            final(self)@ == old(self)@.with_fresh_jump(pane_id),
    {
        if self.selection_is_outside(pane_id) {
            self.selection = None;
            self.fork_features.copy_mode_notice = Some(CopyModeNotice::SelectionOutsideSnapshot);
        } else if self.fork_features.copy_mode_notice == Some(CopyModeNotice::SnapshotFailed) {
            self.fork_features.copy_mode_notice = None;
        }
        self.fork_features.easymotion = Some(EasyMotionState::new());
    }

    /// Starts a jump on the frozen view of copy mode. Where there is none yet, `cells` is frozen:
    /// what came of the capture that [`AppState::copy_mode_capture_request`] asks for. `matches`
    /// is what the search of [`AppState::copy_mode_search_request`] finds in it.
    pub fn begin_copy_mode_easymotion(
        &mut self,
        terminal_runtimes: &TerminalRuntimeRegistry,
        cells: Option<CellSnapshot>,
        matches: Vec<TextMatch>,
    )
        ensures
            final(self)@ == old(self)@.jump_begun(
                terminal_runtimes@,
                option_view(cells),
                matches@,
            ),
    {
        let pane_id: PaneId = match &self.copy_mode {
            Some(copy_mode) => copy_mode.pane_id,
            None => return,
        };
        if self.fork_features.frozen_copy_view.is_none() {
            if self.pane_info_by_id(pane_id).is_none() {
                return;
            }
            let requested = self.copy_mode_capture_request(terminal_runtimes).is_some();
            match cells {
                Some(cells) if requested => self.freeze_view(cells, matches),
                _ => {
                    self.give_up_view();
                    return;
                },
            }
        }
        self.start_jump(pane_id);
    }

    /// Cancels the jump.
    pub fn cancel_copy_mode_easymotion(&mut self)
        ensures
            final(self)@ == old(self)@.jump_cancelled(),
    {
        self.fork_features.easymotion = None;
    }
}

// ---------------------------------------------------------------------------
// Targets
// ---------------------------------------------------------------------------

impl AppModel {
    /// The text of row `row` in copy mode: that of the frozen view of the pane, else that of its
    /// terminal.
    pub open spec fn copy_row(self, runtimes: RegistryModel, row: int) -> Option<Seq<char>> {
        match self.copy_rows(runtimes) {
            Some(rows) => if 0 <= row < rows.len() {
                Some(rows[row])
            } else {
                None
            },
            None => None,
        }
    }

    /// The rows that copy mode shows.
    #[verifier::opaque]
    pub open spec fn copy_rows(self, runtimes: RegistryModel) -> Option<Seq<Seq<char>>> {
        match (self.copy_mode, self.fork.frozen) {
            (Some(copy_mode), Some(frozen)) => if frozen.pane_id == copy_mode.pane_id {
                Some(frozen.cells.rows)
            } else {
                self.live_rows(runtimes, copy_mode.pane_id)
            },
            (Some(copy_mode), None) => self.live_rows(runtimes, copy_mode.pane_id),
            (None, _) => None,
        }
    }
}

/// The targets of the pair of characters in the first `n` rows.
pub open spec fn targets_in_rows(
    rows: spec_fn(int) -> Option<Seq<char>>,
    widths: WidthsModel,
    first: char,
    second: char,
    n: nat,
) -> Seq<EasyMotionMatch>
    decreases n,
{
    if n == 0 {
        Seq::<EasyMotionMatch>::empty()
    } else {
        let before = targets_in_rows(rows, widths, first, second, (n - 1) as nat);
        match rows(n - 1) {
            Some(text) => with_row_targets(
                before,
                text,
                widths,
                (n - 1) as u16,
                first,
                second,
                uppercase(first) || uppercase(second),
            ),
            None => before,
        }
    }
}

/// Where no label is left, further rows add no target.
proof fn lemma_rows_used_up(
    rows: spec_fn(int) -> Option<Seq<char>>,
    widths: WidthsModel,
    first: char,
    second: char,
    n: nat,
    m: nat,
)
    requires
        n <= m,
        targets_in_rows(rows, widths, first, second, n).len() >= EASYMOTION_MAX_MATCHES,
    ensures
        targets_in_rows(rows, widths, first, second, m) == targets_in_rows(
            rows,
            widths,
            first,
            second,
            n,
        ),
    decreases m,
{
    if n < m {
        lemma_rows_used_up(rows, widths, first, second, n, (m - 1) as nat);
        let before = targets_in_rows(rows, widths, first, second, (m - 1) as nat);
        let case_sensitive = uppercase(first) || uppercase(second);
        match rows(m - 1) {
            Some(text) => lemma_labels_used_up(
                before,
                crate::easymotion::pairs(text, first, second, case_sensitive),
                crate::easymotion::cells_of(text, widths),
                (m - 1) as u16,
                text.len(),
            ),
            None => {},
        }
    }
}

impl AppModel {
    /// The pair of characters that a running jump looks for.
    pub open spec fn jump_target(self) -> Option<(char, char)> {
        match (self.copy_mode, self.fork.easymotion) {
            (Some(_), Some(jump)) => jump.target(),
            _ => None,
        }
    }

    /// The place of the pane of copy mode.
    pub open spec fn copy_pane_info(self) -> Option<PaneInfo> {
        match self.copy_mode {
            Some(copy_mode) => pane_info_from(self.pane_infos, copy_mode.pane_id, 0),
            None => None,
        }
    }

    /// The state with the jump `jump`.
    pub open spec fn with_jump(self, jump: Option<EasyMotionModel>) -> AppModel {
        AppModel { fork: ForkModel { easymotion: jump, ..self.fork }, ..self }
    }

    /// The targets of the pair `pair` on the screen.
    #[verifier::opaque]
    pub open spec fn jump_targets(
        self,
        runtimes: RegistryModel,
        widths: WidthsModel,
        pair: (char, char),
        height: u16,
    ) -> Seq<EasyMotionMatch> {
        targets_in_rows(
            |row: int| self.copy_row(runtimes, row),
            widths,
            pair.0,
            pair.1,
            height as nat,
        )
    }

    /// The state with the targets of the jump found again.
    #[verifier::opaque]
    pub open spec fn jump_rebuilt(self, runtimes: RegistryModel, widths: WidthsModel) -> AppModel {
        match (self.jump_target(), self.copy_pane_info()) {
            (Some(pair), Some(info)) => self.with_jump(
                Some(
                    EasyMotionModel {
                        labels: self.jump_targets(
                            runtimes,
                            widths,
                            pair,
                            info.inner_rect.height,
                        ),
                        case_sensitive: uppercase(pair.0) || uppercase(pair.1),
                        ..self.fork.easymotion->0
                    },
                ),
            ),
            _ => self,
        }
    }

    /// What is to be done after the targets were found again: without a place for the pane, copy
    /// mode ends.
    #[verifier::opaque]
    pub open spec fn rebuild_follow_up(self) -> CopyModeFollowUp {
        if self.jump_target() is Some && self.copy_pane_info() is None {
            CopyModeFollowUp::CancelCopyMode
        } else {
            CopyModeFollowUp::Nothing
        }
    }
}

impl AppState {
    fn shown_rows(&self, terminal_runtimes: &TerminalRuntimeRegistry) -> (r: Option<Vec<String>>)
        ensures
            match r {
                Some(rows) => self@.copy_rows(terminal_runtimes@) == Some(views(rows@)),
                None => self@.copy_rows(terminal_runtimes@) is None,
            },
    {
        proof {
            reveal(AppModel::copy_rows);
        }
        let pane_id: PaneId = match &self.copy_mode {
            Some(copy_mode) => copy_mode.pane_id,
            None => return None,
        };
        if let Some(frozen) = &self.fork_features.frozen_copy_view {
            if frozen.pane_id == pane_id {
                return Some(copy_texts(&frozen.cells.rows));
            }
        }
        self.visible_rows_of(terminal_runtimes, pane_id)
    }

    fn find_jump_targets(
        &self,
        terminal_runtimes: &TerminalRuntimeRegistry,
        widths: &CodepointWidths,
        pair: (char, char),
        height: u16,
    ) -> (r: Vec<EasyMotionMatch>)
        ensures
            r@ == self@.jump_targets(terminal_runtimes@, widths@, pair, height),
    {
        let (first, second) = pair;
        let ghost s = self@;
        let ghost rt = terminal_runtimes@;
        let ghost rows = |row: int| s.copy_row(rt, row);
        proof {
            reveal(AppModel::jump_targets);
        }
        let texts = self.shown_rows(terminal_runtimes);
        let mut jump = EasyMotionState::new();
        jump.case_sensitive = easymotion_query_is_case_sensitive(first, second);
        let mut row: u16 = 0;
        while row < height
            invariant
                row <= height,
                s == self@,
                rt == terminal_runtimes@,
                rows == (|row: int| s.copy_row(rt, row)),
                match texts {
                    Some(texts) => s.copy_rows(rt) == Some(views(texts@)),
                    None => s.copy_rows(rt) is None,
                },
                jump.case_sensitive == (uppercase(first) || uppercase(second)),
                jump.labels@ == targets_in_rows(rows, widths@, first, second, row as nat),
                pair == (first, second),
                s.jump_targets(rt, widths@, pair, height) == targets_in_rows(
                    rows,
                    widths@,
                    first,
                    second,
                    height as nat,
                ),
            decreases height - row,
        {
            if let Some(texts) = &texts {
                if (row as usize) < texts.len() {
                    proof {
                        assert(views(texts@)[row as int] == texts@[row as int]@);
                    }
                    append_easymotion_row_matches(
                        texts[row as usize].as_str(),
                        widths,
                        row,
                        first,
                        second,
                        &mut jump,
                    );
                }
            }
            row += 1;
            if jump.labels.len() >= EASYMOTION_MAX_MATCHES {
                proof {
                    lemma_rows_used_up(rows, widths@, first, second, row as nat, height as nat);
                }
                return jump.labels;
            }
        }
        jump.labels
    }

    fn set_jump_targets(
        &mut self,
        first: char,
        second: char,
        labels: Vec<EasyMotionMatch>,
        case_sensitive: bool,
    )
        requires
            old(self)@.fork.easymotion is Some,
            old(self)@.fork.easymotion->0.target() == Some((first, second)),
        ensures
            final(self)@ == old(self)@.with_jump(
                Some(
                    EasyMotionModel {
                        labels: labels@,
                        case_sensitive,
                        ..old(self)@.fork.easymotion->0
                    },
                ),
            ),
    {
        self.fork_features.easymotion = Some(
            EasyMotionState { first: Some(first), second: Some(second), labels, case_sensitive },
        );
    }

    /// Finds the targets of the jump again.
    pub fn rebuild_copy_mode_easymotion_matches(
        &mut self,
        terminal_runtimes: &TerminalRuntimeRegistry,
        widths: &CodepointWidths,
    ) -> (r: CopyModeFollowUp)
        ensures
            final(self)@ == old(self)@.jump_rebuilt(terminal_runtimes@, widths@),
            r == old(self)@.rebuild_follow_up(),
    {
        proof {
            reveal(AppModel::jump_rebuilt);
            reveal(AppModel::rebuild_follow_up);
        }
        let pane_id: PaneId = match &self.copy_mode {
            Some(copy_mode) => copy_mode.pane_id,
            None => return CopyModeFollowUp::Nothing,
        };
        let pair = match &self.fork_features.easymotion {
            Some(jump) => match jump.target() {
                Some(pair) => pair,
                None => return CopyModeFollowUp::Nothing,
            },
            None => return CopyModeFollowUp::Nothing,
        };
        let info = match self.pane_info_by_id(pane_id) {
            Some(info) => info,
            None => return CopyModeFollowUp::CancelCopyMode,
        };
        let labels = self.find_jump_targets(
            terminal_runtimes,
            widths,
            pair,
            info.inner_rect.height,
        );
        let case_sensitive = easymotion_query_is_case_sensitive(pair.0, pair.1);
        self.set_jump_targets(pair.0, pair.1, labels, case_sensitive);
        CopyModeFollowUp::Nothing
    }
}

// ---------------------------------------------------------------------------
// Keys
// ---------------------------------------------------------------------------

/// The target with the label `label`, where the list is read from index `from` on.
pub open spec fn target_labelled(targets: Seq<EasyMotionMatch>, label: char, from: int) -> Option<
    EasyMotionMatch,
>
    decreases targets.len() - from,
{
    if from < 0 || from >= targets.len() {
        None
    } else if targets[from].label == label {
        Some(targets[from])
    } else {
        target_labelled(targets, label, from + 1)
    }
}

impl EasyMotionState {
    /// The target with the label `label`.
    pub fn target_with_label(&self, label: char) -> (r: Option<EasyMotionMatch>)
        ensures
            r == target_labelled(self@.labels, label, 0),
    {
        let mut i: usize = 0;
        while i < self.labels.len()
            invariant
                i <= self.labels@.len(),
                target_labelled(self.labels@, label, 0) == target_labelled(
                    self.labels@,
                    label,
                    i as int,
                ),
            decreases self.labels@.len() - i,
        {
            if self.labels[i].label == label {
                return Some(self.labels[i]);
            }
            i += 1;
        }
        None
    }
}

impl AppModel {
    /// The state after a jump to `target`.
    #[verifier::opaque]
    pub open spec fn jumped_to(self, target: EasyMotionMatch) -> AppModel {
        match self.copy_mode {
            Some(copy_mode) => AppModel {
                copy_mode: Some(
                    CopyModeModel { cursor_row: target.row, cursor_col: target.col, ..copy_mode },
                ),
                fork: ForkModel { easymotion: None, ..self.fork },
                ..self
            },
            None => self,
        }
    }

    /// The state with one more character in the query of the jump. The notice about a dropped
    /// selection goes.
    #[verifier::opaque]
    pub open spec fn with_jump_char(self, ch: char) -> AppModel {
        match self.fork.easymotion {
            Some(jump) => AppModel {
                fork: ForkModel {
                    easymotion: Some(jump.with_query_char(ch)),
                    notice: if self.fork.notice == Some(CopyModeNotice::SelectionOutsideSnapshot) {
                        None
                    } else {
                        self.fork.notice
                    },
                    ..self.fork
                },
                ..self
            },
            None => self,
        }
    }

    /// The target that the character `ch` jumps to.
    pub open spec fn chosen_target(self, ch: char) -> Option<EasyMotionMatch> {
        match self.fork.easymotion {
            Some(jump) => target_labelled(jump.labels, ch, 0),
            None => None,
        }
    }

    /// The state after a character that chooses the target `chosen`, or none, and what is to be
    /// done then.
    pub open spec fn after_label(self, chosen: Option<EasyMotionMatch>) -> (
        AppModel,
        CopyModeFollowUp,
    ) {
        match chosen {
            Some(target) => (self.jumped_to(target), CopyModeFollowUp::SyncSelection),
            None => (self, CopyModeFollowUp::Nothing),
        }
    }

    /// The state after one more character of the pair, and what is to be done then.
    pub open spec fn after_pair_char(
        self,
        runtimes: RegistryModel,
        widths: WidthsModel,
        ch: char,
    ) -> (AppModel, CopyModeFollowUp) {
        let s = self.with_jump_char(ch);
        (s.jump_rebuilt(runtimes, widths), s.rebuild_follow_up())
    }

    /// The state after the character `ch` was typed into a jump, and what is to be done then.
    /// With the pair of characters complete, it is a label; else it belongs to the pair, and a
    /// complete pair has its targets found.
    pub open spec fn after_jump_char(
        self,
        runtimes: RegistryModel,
        widths: WidthsModel,
        ch: char,
    ) -> (AppModel, CopyModeFollowUp) {
        if self.copy_mode is None || self.fork.easymotion is None {
            (self, CopyModeFollowUp::Nothing)
        } else if self.jump_target() is Some {
            self.after_label(self.chosen_target(ch))
        } else {
            self.after_pair_char(runtimes, widths, ch)
        }
    }

    /// The state after a key of a jump, and what is to be done then. Escape and `q` cancel.
    pub open spec fn after_jump_key(
        self,
        runtimes: RegistryModel,
        widths: WidthsModel,
        key: TerminalKey,
    ) -> (AppModel, CopyModeFollowUp) {
        if key.code == KeyCode::Esc || command_char(key) == Some('q') {
            (self.jump_cancelled(), CopyModeFollowUp::Nothing)
        } else {
            match command_char(key) {
                Some(ch) => self.after_jump_char(runtimes, widths, ch),
                None => (self, CopyModeFollowUp::Nothing),
            }
        }
    }
}

impl AppState {
    fn jump_to(&mut self, target: EasyMotionMatch)
        ensures
            final(self)@ == old(self)@.jumped_to(target),
    {
        proof {
            reveal(AppModel::jumped_to);
        }
        if let Some(mut copy_mode) = self.copy_mode.take() {
            copy_mode.cursor_row = target.row;
            copy_mode.cursor_col = target.col;
            self.copy_mode = Some(copy_mode);
            self.fork_features.easymotion = None;
        }
    }

    fn type_into_jump(&mut self, ch: char)
        ensures
            final(self)@ == old(self)@.with_jump_char(ch),
    {
        proof {
            reveal(AppModel::with_jump_char);
        }
        if let Some(mut jump) = self.fork_features.easymotion.take() {
            jump.push_query_char(ch);
            self.fork_features.easymotion = Some(jump);
            if self.fork_features.copy_mode_notice == Some(
                CopyModeNotice::SelectionOutsideSnapshot,
            ) {
                self.fork_features.copy_mode_notice = None;
            }
        }
    }

    /// Whether a jump is under way with its pair of characters complete, and the target that `ch`
    /// chooses then.
    fn jump_choice(&self, ch: char) -> (r: Option<(bool, Option<EasyMotionMatch>)>)
        ensures
            match r {
                Some((complete, chosen)) => {
                    &&& self@.copy_mode is Some
                    &&& self@.fork.easymotion is Some
                    &&& complete == self@.jump_target() is Some
                    &&& chosen == self@.chosen_target(ch)
                },
                None => self@.copy_mode is None || self@.fork.easymotion is None,
            },
    {
        if self.copy_mode.is_none() {
            return None;
        }
        match &self.fork_features.easymotion {
            Some(jump) => Some((jump.target().is_some(), jump.target_with_label(ch))),
            None => None,
        }
    }

    fn take_label(&mut self, chosen: Option<EasyMotionMatch>) -> (r: CopyModeFollowUp)
        ensures
            (final(self)@, r) == old(self)@.after_label(chosen),
    {
        match chosen {
            Some(target) => {
                self.jump_to(target);
                CopyModeFollowUp::SyncSelection
            },
            None => CopyModeFollowUp::Nothing,
        }
    }

    fn take_pair_char(
        &mut self,
        terminal_runtimes: &TerminalRuntimeRegistry,
        widths: &CodepointWidths,
        ch: char,
    ) -> (r: CopyModeFollowUp)
        ensures
            (final(self)@, r) == old(self)@.after_pair_char(terminal_runtimes@, widths@, ch),
    {
        self.type_into_jump(ch);
        self.rebuild_copy_mode_easymotion_matches(terminal_runtimes, widths)
    }

    fn handle_jump_char(
        &mut self,
        terminal_runtimes: &TerminalRuntimeRegistry,
        widths: &CodepointWidths,
        ch: char,
    ) -> (r: CopyModeFollowUp)
        ensures
            (final(self)@, r) == old(self)@.after_jump_char(terminal_runtimes@, widths@, ch),
    {
        match self.jump_choice(ch) {
            Some((true, chosen)) => self.take_label(chosen),
            Some((false, _)) => self.take_pair_char(terminal_runtimes, widths, ch),
            None => CopyModeFollowUp::Nothing,
        }
    }

    /// Handles a key of a jump, and returns what is to be done then.
    pub fn handle_copy_mode_easymotion_key(
        &mut self,
        terminal_runtimes: &TerminalRuntimeRegistry,
        widths: &CodepointWidths,
        key: TerminalKey,
    ) -> (r: CopyModeFollowUp)
        ensures
            (final(self)@, r) == old(self)@.after_jump_key(terminal_runtimes@, widths@, key),
    {
        if key.code == KeyCode::Esc {
            self.cancel_copy_mode_easymotion();
            return CopyModeFollowUp::Nothing;
        }
        let ch = match copy_mode_command_char(key) {
            Some(ch) => ch,
            None => return CopyModeFollowUp::Nothing,
        };
        if ch == 'q' {
            self.cancel_copy_mode_easymotion();
            return CopyModeFollowUp::Nothing;
        }
        self.handle_jump_char(terminal_runtimes, widths, ch)
    }
}

// ---------------------------------------------------------------------------
// Laws
// ---------------------------------------------------------------------------

proof fn lemma_targets_in_rows(
    rows: spec_fn(int) -> Option<Seq<char>>,
    widths: WidthsModel,
    first: char,
    second: char,
    n: nat,
)
    ensures
        labelled_in_order(targets_in_rows(rows, widths, first, second, n)),
    decreases n,
{
    if n > 0 {
        lemma_targets_in_rows(rows, widths, first, second, (n - 1) as nat);
        let before = targets_in_rows(rows, widths, first, second, (n - 1) as nat);
        let case_sensitive = uppercase(first) || uppercase(second);
        match rows(n - 1) {
            Some(text) => lemma_labelled(
                before,
                crate::easymotion::pairs(text, first, second, case_sensitive),
                crate::easymotion::cells_of(text, widths),
                (n - 1) as u16,
                text.len(),
            ),
            None => {},
        }
    }
}

/// The targets of a jump have different labels, at most as many as there are.
pub proof fn lemma_jump_targets(
    s: AppModel,
    runtimes: RegistryModel,
    widths: WidthsModel,
    pair: (char, char),
    height: u16,
)
    ensures
        labelled_in_order(s.jump_targets(runtimes, widths, pair, height)),
{
    reveal(AppModel::jump_targets);
    lemma_targets_in_rows(
        |row: int| s.copy_row(runtimes, row),
        widths,
        pair.0,
        pair.1,
        height as nat,
    );
}

proof fn lemma_target_labelled(targets: Seq<EasyMotionMatch>, i: int, from: int)
    requires
        labelled_in_order(targets),
        0 <= from <= i < targets.len(),
    ensures
        target_labelled(targets, targets[i].label, from) == Some(targets[i]),
    decreases i - from,
{
    lemma_labels_distinct(targets);
    if from < i {
        assert(targets[from].label != targets[i].label);
        lemma_target_labelled(targets, i, from + 1);
    }
}

/// Typing the label of a target moves the cursor to that target, ends the jump, and asks for the
/// selection to follow.
pub proof fn lemma_label_jumps(
    s: AppModel,
    runtimes: RegistryModel,
    widths: WidthsModel,
    i: int,
)
    requires
        s.copy_mode is Some,
        s.jump_target() is Some,
        labelled_in_order(s.fork.easymotion->0.labels),
        0 <= i < s.fork.easymotion->0.labels.len(),
    ensures
        ({
            let target = s.fork.easymotion->0.labels[i];
            let (after, follow_up) = s.after_jump_char(runtimes, widths, target.label);
            &&& follow_up == CopyModeFollowUp::SyncSelection
            &&& after.fork.easymotion is None
            &&& after.copy_mode is Some
            &&& after.copy_mode->0.cursor_row == target.row
            &&& after.copy_mode->0.cursor_col == target.col
            &&& after.copy_mode->0.pane_id == s.copy_mode->0.pane_id
            &&& after.selection == s.selection
        }),
{
    reveal(AppModel::jumped_to);
    lemma_target_labelled(s.fork.easymotion->0.labels, i, 0);
}

/// A jump that was started and cancelled leaves the frozen view in place. After that nothing is
/// captured any more, and a second start uses the same view whatever is handed to it.
pub proof fn lemma_view_frozen_once(
    s: AppModel,
    runtimes: RegistryModel,
    cells: Option<SnapshotModel>,
    matches: Seq<TextMatch>,
    later: RegistryModel,
    later_cells: Option<SnapshotModel>,
    later_matches: Seq<TextMatch>,
)
    requires
        s.copy_mode is Some,
        s.jump_begun(runtimes, cells, matches).fork.frozen is Some,
    ensures
        ({
            let begun = s.jump_begun(runtimes, cells, matches);
            let cancelled = begun.jump_cancelled();
            &&& cancelled.fork.easymotion is None
            &&& cancelled.capture_request(later) is None
            &&& cancelled.jump_begun(later, later_cells, later_matches).fork.frozen
                == begun.fork.frozen
            &&& s.fork.frozen is Some ==> begun.fork.frozen == s.fork.frozen
            &&& s.fork.frozen is None ==> begun.fork.frozen->0.cells == cells->0
        }),
{
}

/// A jump keeps a selection that starts in the frozen view.
pub proof fn lemma_selection_kept(
    s: AppModel,
    runtimes: RegistryModel,
    cells: Option<SnapshotModel>,
    matches: Seq<TextMatch>,
)
    requires
        s.copy_mode is Some,
        s.fork.frozen is Some,
        !anchor_outside(s.selection, s.fork.frozen, s.copy_mode->0.pane_id),
    ensures
        s.jump_begun(runtimes, cells, matches).selection == s.selection,
{
}

} // verus!
