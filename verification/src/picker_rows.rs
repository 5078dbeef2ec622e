//! The rows that the picker lists.

use vstd::prelude::*;
use vstd::string::*;
use crate::matching::{match_rank, workspace_picker_match_rank};
use crate::navigation::{distinct_below, lemma_items_in, panes_in};
use crate::rows::AgentState;
use crate::sorting::{stable_sort, stably_sorted};
use crate::state::{AppModel, AppState, WorkspacePickerMode};
use crate::switcher_rows::SearchEntry;
use crate::terminal::{RegistryModel, TerminalRuntimeRegistry};
use crate::text::{decimal, decimal_text, trim, trim_text, SECONDARY_SEPARATOR};
use crate::views::{lemma_views_push, views};

verus! {

/// What a picker row stands for.
#[derive(Debug, Clone, Copy, PartialEq, Eq, Structural)]
pub enum WorkspacePickerTarget {
    Workspace { ws_idx: usize },
    Tab { ws_idx: usize, tab_idx: usize },
}

/// One row of the picker list.
#[derive(Debug, PartialEq, Eq)]
pub struct WorkspacePickerRow {
    pub target: WorkspacePickerTarget,
    pub ws_idx: usize,
    pub depth: u8,
    pub label: String,
    pub meta: String,
    pub is_current: bool,
    pub expanded: bool,
    pub is_tab: bool,
    pub state: AgentState,
    pub seen: bool,
}

/// The view of a [`WorkspacePickerRow`].
pub struct PickerRowModel {
    pub target: WorkspacePickerTarget,
    pub ws_idx: usize,
    pub depth: u8,
    pub label: Seq<char>,
    pub meta: Seq<char>,
    pub is_current: bool,
    pub expanded: bool,
    pub is_tab: bool,
    pub state: AgentState,
    pub seen: bool,
}

impl View for WorkspacePickerRow {
    type V = PickerRowModel;

    open spec fn view(&self) -> PickerRowModel {
        PickerRowModel {
            target: self.target,
            ws_idx: self.ws_idx,
            depth: self.depth,
            label: self.label@,
            meta: self.meta@,
            is_current: self.is_current,
            expanded: self.expanded,
            is_tab: self.is_tab,
            state: self.state,
            seen: self.seen,
        }
    }
}

/// The text for a number of panes.
pub open spec fn panes_text(n: nat) -> Seq<char> {
    if n == 1 {
        "1 pane"@
    } else {
        decimal(n) + " panes"@
    }
}

/// Writes a number of panes.
pub fn pane_count_text(n: usize) -> (r: String)
    ensures
        r@ == panes_text(n as nat),
{
    if n == 1 {
        "1 pane".to_owned()
    } else {
        let mut r = decimal_text(n);
        r.append(" panes");
        r
    }
}

impl AppModel {
    /// The row of workspace `i`, with its number of panes and what its agents are doing.
    pub open spec fn picker_workspace_row(
        self,
        i: int,
        label: Seq<char>,
        expanded: bool,
    ) -> PickerRowModel {
        let ws = self.workspaces[i];
        let panes = panes_text(panes_in(ws.tabs, ws.tabs.len()));
        PickerRowModel {
            target: WorkspacePickerTarget::Workspace { ws_idx: i as usize },
            ws_idx: i as usize,
            depth: 0,
            label,
            meta: if ws.activity.len() == 0 {
                panes
            } else {
                panes + SECONDARY_SEPARATOR@ + ws.activity
            },
            is_current: self.active == Some(i as usize),
            expanded,
            is_tab: false,
            state: ws.state,
            seen: ws.seen,
        }
    }

    /// The row of tab `t` of workspace `i`.
    pub open spec fn picker_tab_row(self, i: int, t: int) -> PickerRowModel {
        let ws = self.workspaces[i];
        let tab = ws.tabs[t];
        PickerRowModel {
            target: WorkspacePickerTarget::Tab { ws_idx: i as usize, tab_idx: t as usize },
            ws_idx: i as usize,
            depth: 1,
            label: tab.display_name,
            meta: panes_text(tab.panes.len()),
            is_current: self.active == Some(i as usize) && ws.active_tab == t,
            expanded: false,
            is_tab: true,
            state: tab.state,
            seen: tab.seen,
        }
    }

    /// The rows of the tabs of workspace `i`.
    pub open spec fn picker_tab_rows(self, i: int) -> Seq<PickerRowModel> {
        if i < self.workspaces.len() {
            Seq::new(self.workspaces[i].tabs.len(), |t: int| self.picker_tab_row(i, t))
        } else {
            Seq::<PickerRowModel>::empty()
        }
    }

    /// The order in which the picker lists workspaces: by recency while quick switching, else
    /// as they are.
    pub open spec fn picker_order(self) -> Seq<usize> {
        if self.picker.mode.quick() {
            self.mru_indices()
        } else {
            Seq::new(self.workspaces.len(), |i: int| i as usize)
        }
    }

    /// Whether workspace `i` shows its tabs, which only happens in quick switching.
    pub open spec fn picker_expands(self, i: int) -> bool {
        self.picker.mode == WorkspacePickerMode::QuickSwitch && self.picker.expanded.contains(
            self.workspaces[i].id,
        )
    }

    /// The rows of the first `n` workspaces of `order`, each followed by its tabs where it is
    /// expanded.
    pub open spec fn picker_listed(
        self,
        runtimes: RegistryModel,
        order: Seq<usize>,
        n: nat,
    ) -> Seq<PickerRowModel>
        decreases n,
    {
        if n == 0 {
            Seq::<PickerRowModel>::empty()
        } else {
            let before = self.picker_listed(runtimes, order, (n - 1) as nat);
            let i = order[n - 1] as int;
            let with_row = before.push(
                self.picker_workspace_row(
                    i,
                    self.label(runtimes, i).existing,
                    self.picker_expands(i),
                ),
            );
            if self.picker_expands(i) {
                with_row + self.picker_tab_rows(i)
            } else {
                with_row
            }
        }
    }

    /// The results of a search for `query` among the first `n` workspaces of `order`.
    pub open spec fn picker_entries(
        self,
        runtimes: RegistryModel,
        order: Seq<usize>,
        query: Seq<char>,
        n: nat,
    ) -> Seq<SearchEntry>
        decreases n,
    {
        if n == 0 {
            Seq::<SearchEntry>::empty()
        } else {
            let before = self.picker_entries(runtimes, order, query, (n - 1) as nat);
            let i = order[n - 1];
            match match_rank(query, self.label(runtimes, i as int).existing) {
                Some(rank) => before.push(
                    SearchEntry {
                        rank,
                        is_directory: false,
                        score: 0,
                        order: (n - 1) as usize,
                        source: i,
                    },
                ),
                None => before,
            }
        }
    }

    /// The rows of the workspaces whose labels match `query`, the best match first and of equal
    /// ones the earlier.
    pub open spec fn picker_found(
        self,
        runtimes: RegistryModel,
        order: Seq<usize>,
        query: Seq<char>,
    ) -> Seq<PickerRowModel> {
        let entries = stably_sorted::<SearchEntry>(
            self.picker_entries(runtimes, order, query, order.len()),
        );
        Seq::new(
            entries.len(),
            |k: int|
                self.picker_workspace_row(
                    entries[k].source as int,
                    self.label(runtimes, entries[k].source as int).existing,
                    false,
                ),
        )
    }

    /// The rows of the picker.
    #[verifier::opaque]
    pub open spec fn picker_rows(self, runtimes: RegistryModel) -> Seq<PickerRowModel> {
        let query = trim(self.picker.query);
        let order = self.picker_order();
        if self.picker.mode.searches() && query.len() > 0 {
            self.picker_found(runtimes, order, query)
        } else {
            self.picker_listed(runtimes, order, order.len())
        }
    }
}

impl AppState {
    /// The row of workspace `ws_idx`.
    pub fn workspace_picker_workspace_row(&self, ws_idx: usize, label: String, expanded: bool) -> (r:
        WorkspacePickerRow)
        requires
            ws_idx < self@.workspaces.len(),
            self@.countable(),
        ensures
            r@ == self@.picker_workspace_row(ws_idx as int, label@, expanded),
    {
        let ws = &self.workspaces[ws_idx];
        let ghost tabs = self@.workspaces[ws_idx as int].tabs;
        proof {
            assert(self@.workspaces[ws_idx as int] == ws@);
            reveal(AppModel::countable);
            lemma_items_in(self@.workspaces, self@.workspaces.len(), ws_idx as int);
        }
        let mut panes: usize = 0;
        let mut t: usize = 0;
        while t < ws.tabs.len()
            invariant
                t <= ws.tabs@.len(),
                tabs == views(ws.tabs@),
                panes == panes_in(tabs, t as nat),
                panes_in(tabs, tabs.len()) <= usize::MAX,
            decreases ws.tabs@.len() - t,
        {
            proof {
                lemma_panes_in(tabs, (t + 1) as nat, tabs.len());
                assert(tabs[t as int] == ws.tabs@[t as int]@);
            }
            panes = panes + ws.tabs[t].panes.len();
            t += 1;
        }
        let mut meta = pane_count_text(panes);
        if !ws.activity.as_str().is_empty() {
            meta.append(SECONDARY_SEPARATOR);
            meta.append(ws.activity.as_str());
        }
        let is_current = match self.active {
            Some(active) => active == ws_idx,
            None => false,
        };
        WorkspacePickerRow {
            target: WorkspacePickerTarget::Workspace { ws_idx },
            ws_idx,
            depth: 0,
            label,
            meta,
            is_current,
            expanded,
            is_tab: false,
            state: ws.state,
            seen: ws.seen,
        }
    }

    /// The rows of the tabs of workspace `ws_idx`.
    pub fn workspace_picker_tab_rows(&self, ws_idx: usize) -> (r: Vec<WorkspacePickerRow>)
        ensures
            views(r@) == self@.picker_tab_rows(ws_idx as int),
    {
        let mut rows: Vec<WorkspacePickerRow> = Vec::new();
        if ws_idx >= self.workspaces.len() {
            proof {
                assert(views(rows@) =~= self@.picker_tab_rows(ws_idx as int));
            }
            return rows;
        }
        let ws = &self.workspaces[ws_idx];
        let active = match self.active {
            Some(active) => active == ws_idx,
            None => false,
        };
        let mut t: usize = 0;
        while t < ws.tabs.len()
            invariant
                ws_idx < self.workspaces@.len(),
                *ws == self.workspaces@[ws_idx as int],
                active == (self.active == Some(ws_idx)),
                t <= ws.tabs@.len(),
                rows@.len() == t,
                forall|k: int|
                    0 <= k < t ==> (#[trigger] rows@[k])@ == self@.picker_tab_row(
                        ws_idx as int,
                        k,
                    ),
            decreases ws.tabs@.len() - t,
        {
            let tab = &ws.tabs[t];
            proof {
                assert(self@.workspaces[ws_idx as int].tabs[t as int] == tab@);
            }
            rows.push(
                WorkspacePickerRow {
                    target: WorkspacePickerTarget::Tab { ws_idx, tab_idx: t },
                    ws_idx,
                    depth: 1,
                    label: tab.display_name.clone(),
                    meta: pane_count_text(tab.panes.len()),
                    is_current: active && ws.active_tab == t,
                    expanded: false,
                    is_tab: true,
                    state: tab.state,
                    seen: tab.seen,
                },
            );
            t += 1;
        }
        proof {
            assert(views(rows@) =~= self@.picker_tab_rows(ws_idx as int));
        }
        rows
    }

    fn workspace_picker_order(&self) -> (order: Vec<usize>)
        ensures
            order@ == self@.picker_order(),
            distinct_below(order@, self@.workspaces.len()),
    {
        if self.workspace_picker.mode.is_quick_switch() {
            return self.workspace_mru_indices();
        }
        let mut order: Vec<usize> = Vec::new();
        let mut i: usize = 0;
        while i < self.workspaces.len()
            invariant
                i <= self.workspaces@.len(),
                order@.len() == i,
                forall|k: int| 0 <= k < i ==> order@[k] == k,
            decreases self.workspaces@.len() - i,
        {
            order.push(i);
            i += 1;
        }
        proof {
            assert(order@ =~= self@.picker_order());
        }
        order
    }

    fn picker_search_rows(
        &self,
        terminal_runtimes: &TerminalRuntimeRegistry,
        query: &str,
        order: &Vec<usize>,
    ) -> (r: Vec<WorkspacePickerRow>)
        requires
            distinct_below(order@, self@.workspaces.len()),
            self@.countable(),
        ensures
            views(r@) == self@.picker_found(terminal_runtimes@, order@, query@),
    {
        let ghost s = self@;
        let ghost rt = terminal_runtimes@;
        let mut entries: Vec<SearchEntry> = Vec::new();
        let mut k: usize = 0;
        while k < order.len()
            invariant
                k <= order@.len(),
                s == self@,
                rt == terminal_runtimes@,
                distinct_below(order@, s.workspaces.len()),
                entries@ == s.picker_entries(rt, order@, query@, k as nat),
                forall|j: int|
                    0 <= j < entries@.len() ==> (#[trigger] entries@[j]).source
                        < s.workspaces.len(),
            decreases order@.len() - k,
        {
            let ws_idx: usize = order[k];
            proof {
                assert(order@[k as int] < s.workspaces.len());
            }
            let label = self.workspace_label(ws_idx, terminal_runtimes);
            if let Some(rank) = workspace_picker_match_rank(query, label.existing.as_str()) {
                entries.push(
                    SearchEntry { rank, is_directory: false, score: 0, order: k, source: ws_idx },
                );
            }
            k += 1;
        }
        let ghost unsorted = entries@;
        proof {
            assert(views(entries@) =~= entries@);
            crate::sorting::lemma_sorted_permutation::<SearchEntry>(unsorted);
        }
        let sorted = stable_sort(entries);
        proof {
            assert(views(sorted@) =~= sorted@);
            assert forall|j: int| 0 <= j < sorted@.len() implies (#[trigger] sorted@[j]).source
                < s.workspaces.len() by {
                broadcast use vstd::seq_lib::group_to_multiset_ensures;

                assert(sorted@.to_multiset().count(sorted@[j]) > 0);
                assert(unsorted.contains(sorted@[j]));
                let i = choose|i: int| 0 <= i < unsorted.len() && unsorted[i] == sorted@[j];
                assert(unsorted[i].source < s.workspaces.len());
            }
        }
        let mut rows: Vec<WorkspacePickerRow> = Vec::new();
        let mut j: usize = 0;
        while j < sorted.len()
            invariant
                j <= sorted@.len(),
                s == self@,
                s.countable(),
                rt == terminal_runtimes@,
                forall|i: int|
                    0 <= i < sorted@.len() ==> (#[trigger] sorted@[i]).source < s.workspaces.len(),
                rows@.len() == j,
                forall|i: int|
                    0 <= i < j ==> (#[trigger] rows@[i])@ == s.picker_workspace_row(
                        sorted@[i].source as int,
                        s.label(rt, sorted@[i].source as int).existing,
                        false,
                    ),
            decreases sorted@.len() - j,
        {
            let source: usize = sorted[j].source;
            proof {
                assert(sorted@[j as int].source < s.workspaces.len());
            }
            let label = self.workspace_label(source, terminal_runtimes);
            rows.push(self.workspace_picker_workspace_row(source, label.existing, false));
            j += 1;
        }
        proof {
            assert(views(rows@) =~= s.picker_found(rt, order@, query@));
        }
        rows
    }

    /// The rows of the picker: the workspaces in their order, by recency with the tabs of
    /// expanded ones while quick switching, and ranked where there is a query.
    pub fn workspace_picker_rows_from(&self, terminal_runtimes: &TerminalRuntimeRegistry) -> (r: Vec<
        WorkspacePickerRow,
    >)
        requires
            self@.countable(),
        ensures
            views(r@) == self@.picker_rows(terminal_runtimes@),
    {
        let ghost s = self@;
        let ghost rt = terminal_runtimes@;
        proof {
            reveal(AppModel::picker_rows);
        }
        let query = trim_text(self.workspace_picker.query.as_str());
        let order = self.workspace_picker_order();
        if self.workspace_picker.mode.search_visible() && !query.as_str().is_empty() {
            return self.picker_search_rows(terminal_runtimes, query.as_str(), &order);
        }
        let include_tabs = !self.workspace_picker.mode.search_visible();
        let mut rows: Vec<WorkspacePickerRow> = Vec::new();
        let mut k: usize = 0;
        proof {
            assert(views(rows@) =~= Seq::<PickerRowModel>::empty());
        }
        while k < order.len()
            invariant
                k <= order@.len(),
                s == self@,
                s.countable(),
                rt == terminal_runtimes@,
                distinct_below(order@, s.workspaces.len()),
                include_tabs == (s.picker.mode == WorkspacePickerMode::QuickSwitch),
                views(rows@) == s.picker_listed(rt, order@, k as nat),
            decreases order@.len() - k,
        {
            broadcast use lemma_views_push;

            let ws_idx: usize = order[k];
            proof {
                assert(order@[k as int] < s.workspaces.len());
                assert(s.workspaces[ws_idx as int] == self.workspaces@[ws_idx as int]@);
            }
            let expanded = include_tabs && self.workspace_picker.expanded_workspaces.contains(
                &self.workspaces[ws_idx].id,
            );
            let label = self.workspace_label(ws_idx, terminal_runtimes);
            rows.push(self.workspace_picker_workspace_row(ws_idx, label.existing, expanded));
            if expanded {
                let ghost with_row = rows@;
                let mut tabs = self.workspace_picker_tab_rows(ws_idx);
                let ghost tab_rows = tabs@;
                rows.append(&mut tabs);
                proof {
                    assert(views(rows@) =~= views(with_row) + views(tab_rows));
                }
            }
            k += 1;
        }
        rows
    }

    /// The rows of the picker without any terminal.
    pub fn workspace_picker_rows(&self) -> (r: Vec<WorkspacePickerRow>)
        requires
            self@.countable(),
        ensures
            views(r@) == self@.picker_rows(RegistryModel::empty()),
    {
        self.workspace_picker_rows_from(&TerminalRuntimeRegistry::new())
    }

    /// The number of rows of the picker.
    pub fn workspace_picker_row_count_from(&self, terminal_runtimes: &TerminalRuntimeRegistry) -> (n:
        usize)
        requires
            self@.countable(),
        ensures
            n == self@.picker_rows(terminal_runtimes@).len(),
    {
        self.workspace_picker_rows_from(terminal_runtimes).len()
    }
}

proof fn lemma_panes_in(tabs: Seq<crate::workspace::TabModel>, m: nat, n: nat)
    requires
        m <= n,
    ensures
        panes_in(tabs, m) <= panes_in(tabs, n),
    decreases n,
{
    if m < n {
        lemma_panes_in(tabs, m, (n - 1) as nat);
    }
}

} // verus!
