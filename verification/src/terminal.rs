//! What is known of the terminals behind the panes.

use vstd::prelude::*;
use crate::views::{option_view, views};

verus! {

/// The number of a pane.
pub type PaneId = u64;

/// A place in the text of a terminal: a line of the scrollback and a column.
#[derive(Debug, Clone, Copy, PartialEq, Eq, Structural)]
pub struct CellPosition {
    pub row: u64,
    pub col: u16,
}

/// One match of a text search.
#[derive(Debug, Clone, Copy, PartialEq, Eq, Structural)]
pub struct TextMatch {
    pub start: CellPosition,
    pub end: CellPosition,
}

/// The visible cells of a pane at one moment.
#[derive(Debug)]
pub struct CellSnapshot {
    /// The scrollback line of the first visible row.
    pub first_row: u64,
    pub width: u16,
    /// The text of each visible row.
    pub rows: Vec<String>,
}

/// The view of a [`CellSnapshot`].
#[verifier::ext_equal]
pub struct SnapshotModel {
    pub first_row: u64,
    pub width: u16,
    pub rows: Seq<Seq<char>>,
}

impl View for CellSnapshot {
    type V = SnapshotModel;

    open spec fn view(&self) -> SnapshotModel {
        SnapshotModel { first_row: self.first_row, width: self.width, rows: views(self.rows@) }
    }
}

impl SnapshotModel {
    /// Whether the cell at `position` is one of the snapshot.
    pub open spec fn holds(self, position: CellPosition) -> bool {
        self.first_row <= position.row < self.first_row + self.rows.len() && position.col
            < self.width
    }
}

/// Copies a list of texts.
pub fn copy_texts(texts: &Vec<String>) -> (r: Vec<String>)
    ensures
        r@ == texts@,
{
    let mut r: Vec<String> = Vec::new();
    let mut i: usize = 0;
    while i < texts.len()
        invariant
            i <= texts@.len(),
            r@ == texts@.take(i as int),
        decreases texts@.len() - i,
    {
        proof {
            assert(texts@.take(i + 1) =~= texts@.take(i as int).push(texts@[i as int]));
        }
        r.push(texts[i].clone());
        i += 1;
    }
    proof {
        assert(texts@.take(i as int) =~= texts@);
    }
    r
}

impl CellSnapshot {
    /// Tests whether the cell at `position` is one of the snapshot.
    pub fn contains_absolute_cell(&self, position: CellPosition) -> (b: bool)
        ensures
            b == self@.holds(position),
    {
        position.row >= self.first_row && position.row - self.first_row < self.rows.len() as u64
            && position.col < self.width
    }
}

/// The running terminal of one pane.
#[derive(Debug)]
pub struct PaneRuntime {
    pub pane_id: PaneId,
    /// The label that the terminal reports, where it reports one.
    pub live_label: Option<String>,
    /// The visible text with its escape sequences.
    pub visible_ansi: String,
    /// The text of each visible row.
    pub visible_rows: Vec<String>,
}

/// The view of a [`PaneRuntime`].
#[verifier::ext_equal]
pub struct RuntimeModel {
    pub pane_id: PaneId,
    pub live_label: Option<Seq<char>>,
    pub visible_ansi: Seq<char>,
    pub visible_rows: Seq<Seq<char>>,
}

impl View for PaneRuntime {
    type V = RuntimeModel;

    open spec fn view(&self) -> RuntimeModel {
        RuntimeModel {
            pane_id: self.pane_id,
            live_label: option_view(self.live_label),
            visible_ansi: self.visible_ansi@,
            visible_rows: views(self.visible_rows@),
        }
    }
}

/// The running terminals.
#[derive(Debug)]
pub struct TerminalRuntimeRegistry {
    pub runtimes: Vec<PaneRuntime>,
}

/// The view of a [`TerminalRuntimeRegistry`].
pub type RegistryModel = Seq<RuntimeModel>;

impl View for TerminalRuntimeRegistry {
    type V = RegistryModel;

    open spec fn view(&self) -> RegistryModel {
        views(self.runtimes@)
    }
}

/// The index of the runtime of pane `pane_id`, from index `from` on.
pub open spec fn runtime_index(runtimes: RegistryModel, pane_id: PaneId, from: int) -> Option<int>
    decreases runtimes.len() - from,
{
    if from < 0 || from >= runtimes.len() {
        None
    } else if runtimes[from].pane_id == pane_id {
        Some(from)
    } else {
        runtime_index(runtimes, pane_id, from + 1)
    }
}

/// The runtime of pane `pane_id`.
pub open spec fn runtime_of(runtimes: RegistryModel, pane_id: PaneId) -> Option<RuntimeModel> {
    match runtime_index(runtimes, pane_id, 0) {
        Some(i) => Some(runtimes[i]),
        None => None,
    }
}

impl TerminalRuntimeRegistry {
    /// A registry without terminals.
    pub fn new() -> (r: TerminalRuntimeRegistry)
        ensures
            r@ == RegistryModel::empty(),
    {
        let r = TerminalRuntimeRegistry { runtimes: Vec::new() };
        proof {
            assert(r@ =~= RegistryModel::empty());
        }
        r
    }

    /// The runtime of pane `pane_id`.
    pub fn get(&self, pane_id: PaneId) -> (r: Option<&PaneRuntime>)
        ensures
            match r {
                Some(runtime) => runtime_of(self@, pane_id) == Some(runtime@),
                None => runtime_of(self@, pane_id) is None,
            },
    {
        let mut i: usize = 0;
        while i < self.runtimes.len()
            invariant
                i <= self.runtimes@.len(),
                runtime_index(self@, pane_id, 0) == runtime_index(self@, pane_id, i as int),
            decreases self.runtimes@.len() - i,
        {
            proof {
                assert(self@[i as int] == self.runtimes@[i as int]@);
            }
            if self.runtimes[i].pane_id == pane_id {
                return Some(&self.runtimes[i]);
            }
            i += 1;
        }
        None
    }
}

} // verus!
