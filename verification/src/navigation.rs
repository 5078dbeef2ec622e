//! Workspaces by id, by recency and by group, and switching between them.

use vstd::prelude::*;
use crate::state::{AppModel, AppState};
use crate::terminal::{
    runtime_of, PaneId, PaneRuntime, RegistryModel, RuntimeModel, TerminalRuntimeRegistry,
};
use crate::views::{lemma_views_empty, lemma_views_push, views};
use crate::workspace::{panes_contain, TabModel, WorkspaceModel};

verus! {

// ---------------------------------------------------------------------------
// Limits
// ---------------------------------------------------------------------------

/// The number of panes of the first `n` of `tabs`.
pub open spec fn panes_in(tabs: Seq<TabModel>, n: nat) -> nat
    decreases n,
{
    if n == 0 {
        0
    } else {
        panes_in(tabs, (n - 1) as nat) + tabs[n - 1].panes.len()
    }
}

/// The number of workspaces, tabs and panes in the first `n` of `workspaces`.
pub open spec fn items_in(workspaces: Seq<WorkspaceModel>, n: nat) -> nat
    decreases n,
{
    if n == 0 {
        0
    } else {
        items_in(workspaces, (n - 1) as nat) + 1 + workspaces[n - 1].tabs.len() + panes_in(
            workspaces[n - 1].tabs,
            workspaces[n - 1].tabs.len(),
        )
    }
}

impl AppModel {
    /// An upper bound of the number of rows of any list.
    pub open spec fn size(self) -> nat {
        items_in(self.workspaces, self.workspaces.len()) + self.switcher.candidates.len()
    }

    /// The lists fit in memory with room to count their lines.
    #[verifier::opaque]
    pub open spec fn countable(self) -> bool {
        2 * self.size() + u16::MAX + 1 <= usize::MAX
    }

    /// The lists fit in memory, and so does the switcher on the screen.
    pub open spec fn within_limits(self) -> bool {
        self.countable() && self.view.switcher_fits()
    }

    /// The lists fit in memory, and popups on the screen.
    pub open spec fn picker_within_limits(self) -> bool {
        self.countable() && self.view.fits()
    }
}

impl AppState {
    /// Tests whether the lists fit in memory and the switcher on the screen, as the operations of
    /// the switcher require.
    pub fn within_limits(&self) -> (b: bool)
        ensures
            b == self@.within_limits(),
    {
        self.is_countable() && self.view.switcher_in_range()
    }

    /// Tests whether the lists fit in memory and popups on the screen, as the operations of the
    /// picker require.
    pub fn picker_within_limits(&self) -> (b: bool)
        ensures
            b == self@.picker_within_limits(),
    {
        self.is_countable() && self.view.popup_fits()
    }

    /// Tests whether the lists fit in memory with room to count their lines.
    pub fn is_countable(&self) -> (b: bool)
        ensures
            b == self@.countable(),
    {
        proof {
            reveal(AppModel::countable);
        }
        let ghost all = self@.workspaces;
        let mut size: usize = 0;
        let mut i: usize = 0;
        let mut fits = true;
        while i < self.workspaces.len()
            invariant
                i <= self.workspaces@.len(),
                all == self@.workspaces,
                fits ==> size == items_in(all, i as nat),
                !fits ==> items_in(all, i as nat) > usize::MAX,
            decreases self.workspaces@.len() - i,
        {
            let tabs = &self.workspaces[i].tabs;
            let ghost tab_models = all[i as int].tabs;
            proof {
                assert(tab_models == views(tabs@));
            }
            let mut panes: usize = 0;
            let mut fits_here = true;
            let mut t: usize = 0;
            while t < tabs.len()
                invariant
                    t <= tabs@.len(),
                    tab_models == views(tabs@),
                    fits_here ==> panes == panes_in(tab_models, t as nat),
                    !fits_here ==> panes_in(tab_models, t as nat) > usize::MAX,
                decreases tabs@.len() - t,
            {
                proof {
                    assert(tab_models[t as int] == tabs@[t as int]@);
                }
                match panes.checked_add(tabs[t].panes.len()) {
                    Some(n) if fits_here => {
                        panes = n;
                    },
                    _ => {
                        fits_here = false;
                    },
                }
                t += 1;
            }
            let own = match panes.checked_add(tabs.len()) {
                Some(n) => n.checked_add(1),
                None => None,
            };
            let sum = match own {
                Some(n) => size.checked_add(n),
                None => None,
            };
            match sum {
                Some(n) if fits && fits_here => {
                    size = n;
                },
                _ => {
                    fits = false;
                },
            }
            i += 1;
        }
        if !fits {
            return false;
        }
        match size.checked_add(self.workspace_switcher.provider_candidates.len()) {
            Some(n) => n <= (usize::MAX - 65536) / 2,
            None => false,
        }
    }
}

/// The limits depend on the workspaces, the number of candidates and the screen alone.
pub proof fn lemma_limits_kept(a: AppModel, b: AppModel)
    requires
        b.workspaces == a.workspaces,
        b.switcher.candidates.len() <= a.switcher.candidates.len(),
        b.view == a.view,
    ensures
        a.countable() ==> b.countable(),
        a.within_limits() ==> b.within_limits(),
        a.picker_within_limits() ==> b.picker_within_limits(),
{
    reveal(AppModel::countable);
}

/// Each workspace and its tabs count toward the size.
pub proof fn lemma_items_in(workspaces: Seq<WorkspaceModel>, n: nat, i: int)
    requires
        0 <= i < n <= workspaces.len(),
    ensures
        n <= items_in(workspaces, n),
        1 + workspaces[i].tabs.len() + panes_in(workspaces[i].tabs, workspaces[i].tabs.len())
            <= items_in(workspaces, n),
    decreases n,
{
    if i < n - 1 {
        lemma_items_in(workspaces, (n - 1) as nat, i);
    } else if n > 1 {
        lemma_items_in(workspaces, (n - 1) as nat, 0);
    }
}

// ---------------------------------------------------------------------------
// Ids
// ---------------------------------------------------------------------------

/// The index of the first workspace with the id `id`, from index `from` on.
pub open spec fn workspace_from(
    workspaces: Seq<WorkspaceModel>,
    id: Seq<char>,
    from: int,
) -> Option<usize>
    decreases workspaces.len() - from,
{
    if from < 0 || from >= workspaces.len() {
        None
    } else if workspaces[from].id == id {
        Some(from as usize)
    } else {
        workspace_from(workspaces, id, from + 1)
    }
}

/// The index of the tab with the id `id`, from index `from` on.
pub open spec fn tab_from(tabs: Seq<TabModel>, id: Seq<char>, from: int) -> Option<usize>
    decreases tabs.len() - from,
{
    if from < 0 || from >= tabs.len() {
        None
    } else if tabs[from].tab_id == id {
        Some(from as usize)
    } else {
        tab_from(tabs, id, from + 1)
    }
}

/// The workspace and tab index of the first tab with the id `id`, from workspace `from` on.
pub open spec fn tab_in_workspaces(
    workspaces: Seq<WorkspaceModel>,
    id: Seq<char>,
    from: int,
) -> Option<(usize, usize)>
    decreases workspaces.len() - from,
{
    if from < 0 || from >= workspaces.len() {
        None
    } else {
        match tab_from(workspaces[from].tabs, id, 0) {
            Some(tab) => Some((from as usize, tab)),
            None => tab_in_workspaces(workspaces, id, from + 1),
        }
    }
}

/// What is found has the id, and nothing before it has.
pub proof fn lemma_workspace_from(workspaces: Seq<WorkspaceModel>, id: Seq<char>, from: int)
    requires
        0 <= from,
        workspaces.len() <= usize::MAX,
    ensures
        match workspace_from(workspaces, id, from) {
            Some(i) => {
                &&& from <= i < workspaces.len()
                &&& workspaces[i as int].id == id
                &&& forall|k: int| from <= k < i ==> (#[trigger] workspaces[k]).id != id
            },
            None => forall|k: int| from <= k < workspaces.len() ==> (#[trigger] workspaces[k]).id
                != id,
        },
    decreases workspaces.len() - from,
{
    if from < workspaces.len() && workspaces[from].id != id {
        lemma_workspace_from(workspaces, id, from + 1);
    }
}

proof fn lemma_tab_from(tabs: Seq<TabModel>, id: Seq<char>, from: int)
    requires
        0 <= from,
        tabs.len() <= usize::MAX,
    ensures
        tab_from(tabs, id, from) matches Some(t) ==> from <= t < tabs.len()
            && tabs[t as int].tab_id == id,
    decreases tabs.len() - from,
{
    if from < tabs.len() && tabs[from].tab_id != id {
        lemma_tab_from(tabs, id, from + 1);
    }
}

impl AppState {
    /// The index of the workspace with the id `id`.
    pub fn workspace_index(&self, id: &String) -> (r: Option<usize>)
        ensures
            r == workspace_from(self@.workspaces, id@, 0),
            r matches Some(i) ==> i < self@.workspaces.len(),
    {
        let ghost all = self@.workspaces;
        let mut i: usize = 0;
        while i < self.workspaces.len()
            invariant
                i <= self.workspaces@.len(),
                all == self@.workspaces,
                workspace_from(all, id@, 0) == workspace_from(all, id@, i as int),
            decreases self.workspaces@.len() - i,
        {
            proof {
                assert(all[i as int] == self.workspaces@[i as int]@);
            }
            if self.workspaces[i].id == *id {
                return Some(i);
            }
            i += 1;
        }
        None
    }

    /// The workspace and tab index of the tab with the id `id`.
    pub fn tab_index(&self, id: &String) -> (r: Option<(usize, usize)>)
        ensures
            r == tab_in_workspaces(self@.workspaces, id@, 0),
            r matches Some(at) ==> at.0 < self@.workspaces.len() && at.1
                < self@.workspaces[at.0 as int].tabs.len(),
    {
        let ghost all = self@.workspaces;
        let mut i: usize = 0;
        while i < self.workspaces.len()
            invariant
                i <= self.workspaces@.len(),
                all == self@.workspaces,
                tab_in_workspaces(all, id@, 0) == tab_in_workspaces(all, id@, i as int),
            decreases self.workspaces@.len() - i,
        {
            let tabs = &self.workspaces[i].tabs;
            let ghost tab_models = all[i as int].tabs;
            proof {
                assert(tab_models == views(tabs@));
            }
            let mut t: usize = 0;
            while t < tabs.len()
                invariant
                    i < self.workspaces@.len(),
                    all == self@.workspaces,
                    tab_in_workspaces(all, id@, 0) == tab_in_workspaces(all, id@, i as int),
                    t <= tabs@.len(),
                    tab_models == all[i as int].tabs,
                    tab_models == views(tabs@),
                    tab_from(tab_models, id@, 0) == tab_from(tab_models, id@, t as int),
                decreases tabs@.len() - t,
            {
                proof {
                    assert(tab_models[t as int] == tabs@[t as int]@);
                }
                if tabs[t].tab_id == *id {
                    return Some((i, t));
                }
                t += 1;
            }
            i += 1;
        }
        None
    }
}

// ---------------------------------------------------------------------------
// Recency
// ---------------------------------------------------------------------------

/// The first index of `s` that holds `x`, from index `from` on.
pub open spec fn index_from(s: Seq<usize>, x: usize, from: int) -> Option<int>
    decreases s.len() - from,
{
    if from < 0 || from >= s.len() {
        None
    } else if s[from] == x {
        Some(from)
    } else {
        index_from(s, x, from + 1)
    }
}

/// `s` with `x` appended where it does not hold it yet.
pub open spec fn with_index(s: Seq<usize>, x: usize) -> Seq<usize> {
    if index_from(s, x, 0) is Some {
        s
    } else {
        s.push(x)
    }
}

/// The indices of the workspaces that the first `n` ids of `mru` name, each once.
pub open spec fn recent(
    workspaces: Seq<WorkspaceModel>,
    mru: Seq<Seq<char>>,
    n: nat,
) -> Seq<usize>
    decreases n,
{
    if n == 0 {
        Seq::<usize>::empty()
    } else {
        let before = recent(workspaces, mru, (n - 1) as nat);
        match workspace_from(workspaces, mru[n - 1], 0) {
            Some(i) => with_index(before, i),
            None => before,
        }
    }
}

/// `order` with the active workspace put first.
pub open spec fn active_first(
    order: Seq<usize>,
    active: Option<usize>,
    count: nat,
) -> Seq<usize> {
    match active {
        Some(a) => match index_from(order, a, 0) {
            Some(p) => order.remove(p).insert(0, a),
            None => if a < count {
                order.insert(0, a)
            } else {
                order
            },
        },
        None => order,
    }
}

/// `order` with every index below `n` that it lacks appended.
pub open spec fn filled_up(order: Seq<usize>, n: nat) -> Seq<usize>
    decreases n,
{
    if n == 0 {
        order
    } else {
        with_index(filled_up(order, (n - 1) as nat), (n - 1) as usize)
    }
}

impl AppModel {
    /// The indices of all workspaces: the active one, then the recently used ones, then the rest
    /// in their order.
    pub open spec fn mru_indices(self) -> Seq<usize> {
        let known = recent(self.workspaces, self.mru, self.mru.len());
        filled_up(
            active_first(known, self.active, self.workspaces.len()),
            self.workspaces.len(),
        )
    }
}

proof fn lemma_index_from(s: Seq<usize>, x: usize, from: int)
    requires
        0 <= from,
    ensures
        match index_from(s, x, from) {
            Some(i) => from <= i < s.len() && s[i] == x && forall|k: int|
                from <= k < i ==> s[k] != x,
            None => forall|k: int| from <= k < s.len() ==> s[k] != x,
        },
    decreases s.len() - from,
{
    if from < s.len() && s[from] != x {
        lemma_index_from(s, x, from + 1);
    }
}

fn find_index(s: &Vec<usize>, x: usize) -> (r: Option<usize>)
    ensures
        match r {
            Some(i) => i < s@.len() && index_from(s@, x, 0) == Some(i as int),
            None => index_from(s@, x, 0) is None,
        },
{
    let mut i: usize = 0;
    while i < s.len()
        invariant
            i <= s@.len(),
            index_from(s@, x, 0) == index_from(s@, x, i as int),
        decreases s@.len() - i,
    {
        if s[i] == x {
            return Some(i);
        }
        i += 1;
    }
    None
}

/// Whether `s` holds indices below `count`, each at most once.
pub open spec fn distinct_below(s: Seq<usize>, count: nat) -> bool {
    &&& forall|i: int| 0 <= i < s.len() ==> (#[trigger] s[i]) < count
    &&& forall|i: int, j: int| 0 <= i < j < s.len() ==> s[i] != s[j]
}

proof fn lemma_with_index(s: Seq<usize>, x: usize, count: nat)
    requires
        distinct_below(s, count),
        x < count,
    ensures
        distinct_below(with_index(s, x), count),
        with_index(s, x).contains(x),
        forall|y: usize| s.contains(y) ==> with_index(s, x).contains(y),
        s.len() > 0 ==> with_index(s, x)[0] == s[0],
{
    lemma_index_from(s, x, 0);
    let r = with_index(s, x);
    if index_from(s, x, 0) is None {
        assert(r[s.len() as int] == x);
        assert forall|y: usize| s.contains(y) implies r.contains(y) by {
            let k = choose|k: int| 0 <= k < s.len() && s[k] == y;
            assert(r[k] == y);
        }
    }
}

proof fn lemma_recent(workspaces: Seq<WorkspaceModel>, mru: Seq<Seq<char>>, n: nat)
    requires
        n <= mru.len(),
        workspaces.len() <= usize::MAX,
    ensures
        distinct_below(recent(workspaces, mru, n), workspaces.len()),
    decreases n,
{
    if n > 0 {
        lemma_recent(workspaces, mru, (n - 1) as nat);
        lemma_workspace_from(workspaces, mru[n - 1], 0);
        match workspace_from(workspaces, mru[n - 1], 0) {
            Some(i) => {
                lemma_with_index(recent(workspaces, mru, (n - 1) as nat), i, workspaces.len());
            },
            None => {},
        }
    }
}

proof fn lemma_active_first(order: Seq<usize>, active: Option<usize>, count: nat)
    requires
        distinct_below(order, count),
    ensures
        distinct_below(active_first(order, active, count), count),
        active matches Some(a) ==> a < count ==> active_first(order, active, count).len() > 0
            && active_first(order, active, count)[0] == a,
{
    match active {
        Some(a) => {
            lemma_index_from(order, a, 0);
        },
        None => {},
    }
}

proof fn lemma_filled_up(order: Seq<usize>, n: nat, count: nat)
    requires
        distinct_below(order, count),
        n <= count <= usize::MAX,
    ensures
        distinct_below(filled_up(order, n), count),
        forall|y: usize| y < n ==> filled_up(order, n).contains(y),
        forall|y: usize| order.contains(y) ==> filled_up(order, n).contains(y),
        order.len() > 0 ==> filled_up(order, n).len() > 0 && filled_up(order, n)[0] == order[0],
    decreases n,
{
    if n > 0 {
        lemma_filled_up(order, (n - 1) as nat, count);
        lemma_with_index(filled_up(order, (n - 1) as nat), (n - 1) as usize, count);
        assert forall|y: usize| y < n implies filled_up(order, n).contains(y) by {
            if y < n - 1 {
                assert(filled_up(order, (n - 1) as nat).contains(y));
            }
        }
    }
}

/// Whether one of the first `n` ids of `mru` names workspace `i`.
pub open spec fn named_within(
    workspaces: Seq<WorkspaceModel>,
    mru: Seq<Seq<char>>,
    i: usize,
    n: int,
) -> bool {
    exists|k: int| 0 <= k < n && #[trigger] workspace_from(workspaces, mru[k], 0) == Some(i)
}

/// Whether the first `n` ids of `mru` name workspace `a` before they name workspace `b`.
pub open spec fn named_before(
    workspaces: Seq<WorkspaceModel>,
    mru: Seq<Seq<char>>,
    a: usize,
    b: usize,
    n: int,
) -> bool {
    exists|k: int|
        0 <= k < n && #[trigger] workspace_from(workspaces, mru[k], 0) == Some(a) && !named_within(
            workspaces,
            mru,
            b,
            k + 1,
        )
}

impl AppModel {
    /// Whether workspace `a` was used before workspace `b` was: the recency list names it first,
    /// or names neither and it has the lower index.
    pub open spec fn more_recent(self, a: usize, b: usize) -> bool {
        let n = self.mru.len() as int;
        if named_within(self.workspaces, self.mru, a, n) {
            named_before(self.workspaces, self.mru, a, b, n)
        } else {
            !named_within(self.workspaces, self.mru, b, n) && a < b
        }
    }
}

proof fn lemma_recent_order(workspaces: Seq<WorkspaceModel>, mru: Seq<Seq<char>>, n: nat)
    requires
        n <= mru.len(),
        workspaces.len() <= usize::MAX,
    ensures
        forall|i: usize|
            recent(workspaces, mru, n).contains(i) <==> #[trigger] named_within(
                workspaces,
                mru,
                i,
                n as int,
            ),
        forall|p: int, q: int|
            0 <= p < q < recent(workspaces, mru, n).len() ==> named_before(
                workspaces,
                mru,
                #[trigger] recent(workspaces, mru, n)[p],
                #[trigger] recent(workspaces, mru, n)[q],
                n as int,
            ),
    decreases n,
{
    if n > 0 {
        let m = (n - 1) as nat;
        let before = recent(workspaces, mru, m);
        let r = recent(workspaces, mru, n);
        lemma_recent_order(workspaces, mru, m);
        let named = workspace_from(workspaces, mru[n - 1], 0);
        if named is Some {
            lemma_index_from(before, named->0, 0);
        }
        assert forall|i: usize|
            r.contains(i) <==> #[trigger] named_within(workspaces, mru, i, n as int) by {
            assert(before.contains(i) <==> named_within(workspaces, mru, i, m as int));
            if r.contains(i) {
                let k = choose|k: int| 0 <= k < r.len() && r[k] == i;
                if k < before.len() {
                    assert(before[k] == i);
                    let w = choose|w: int|
                        0 <= w < m && #[trigger] workspace_from(workspaces, mru[w], 0) == Some(i);
                    assert(0 <= w < n);
                } else {
                    assert(workspace_from(workspaces, mru[n - 1], 0) == Some(i));
                }
            }
            if named_within(workspaces, mru, i, n as int) {
                let w = choose|w: int|
                    0 <= w < n && #[trigger] workspace_from(workspaces, mru[w], 0) == Some(i);
                if w < m {
                    assert(before.contains(i));
                    let k = choose|k: int| 0 <= k < before.len() && before[k] == i;
                    assert(r[k] == i);
                } else if index_from(before, i, 0) is Some {
                    assert(r[index_from(before, i, 0)->0] == i);
                } else {
                    assert(r[before.len() as int] == i);
                }
            }
        }
        assert forall|p: int, q: int| 0 <= p < q < r.len() implies named_before(
            workspaces,
            mru,
            #[trigger] r[p],
            #[trigger] r[q],
            n as int,
        ) by {
            if q < before.len() {
                assert(named_before(workspaces, mru, before[p], before[q], m as int));
                let w = choose|w: int|
                    0 <= w < m && #[trigger] workspace_from(workspaces, mru[w], 0) == Some(before[p])
                        && !named_within(workspaces, mru, before[q], w + 1);
                assert(0 <= w < n);
            } else {
                assert(before.contains(before[p]));
                assert(named_within(workspaces, mru, before[p], m as int));
                let w = choose|w: int|
                    0 <= w < m && #[trigger] workspace_from(workspaces, mru[w], 0) == Some(
                        before[p],
                    );
                assert(!before.contains(r[q]));
                assert(!named_within(workspaces, mru, r[q], m as int));
                assert(!named_within(workspaces, mru, r[q], w + 1));
            }
        }
    }
}

proof fn lemma_filled_up_order(order: Seq<usize>, n: nat)
    requires
        n <= usize::MAX,
    ensures
        order.len() <= filled_up(order, n).len(),
        forall|p: int| 0 <= p < order.len() ==> #[trigger] filled_up(order, n)[p] == order[p],
        forall|p: int|
            order.len() <= p < filled_up(order, n).len() ==> !order.contains(
                #[trigger] filled_up(order, n)[p],
            ) && filled_up(order, n)[p] < n,
        forall|p: int, q: int|
            order.len() <= p < q < filled_up(order, n).len() ==> #[trigger] filled_up(order, n)[p]
                < #[trigger] filled_up(order, n)[q],
    decreases n,
{
    if n > 0 {
        let before = filled_up(order, (n - 1) as nat);
        lemma_filled_up_order(order, (n - 1) as nat);
        lemma_index_from(before, (n - 1) as usize, 0);
        if index_from(before, (n - 1) as usize, 0) is None {
            assert(!order.contains((n - 1) as usize)) by {
                if order.contains((n - 1) as usize) {
                    let k = choose|k: int| 0 <= k < order.len() && order[k] == (n - 1) as usize;
                    assert(before[k] == order[k]);
                }
            }
        }
    }
}

proof fn lemma_active_first_order(order: Seq<usize>, active: Option<usize>, count: nat, p: int, q: int)
    requires
        distinct_below(order, count),
        0 <= p < q < active_first(order, active, count).len(),
        active != Some(active_first(order, active, count)[p]),
        active != Some(active_first(order, active, count)[q]),
    ensures
        exists|j: int, k: int|
            0 <= j < k < order.len() && #[trigger] order[j] == active_first(order, active, count)[p]
                && #[trigger] order[k] == active_first(order, active, count)[q],
{
    let r = active_first(order, active, count);
    match active {
        Some(a) => {
            lemma_index_from(order, a, 0);
            match index_from(order, a, 0) {
                Some(at) => {
                    let j = if p - 1 < at {
                        p - 1
                    } else {
                        p
                    };
                    let k = if q - 1 < at {
                        q - 1
                    } else {
                        q
                    };
                    assert(order[j] == r[p] && order[k] == r[q]);
                },
                None => {
                    if a < count {
                        assert(order[p - 1] == r[p] && order[q - 1] == r[q]);
                    } else {
                        assert(order[p] == r[p] && order[q] == r[q]);
                    }
                },
            }
        },
        None => {
            assert(order[p] == r[p] && order[q] == r[q]);
        },
    }
}

proof fn lemma_active_first_holds(order: Seq<usize>, active: Option<usize>, count: nat, i: usize)
    requires
        active != Some(i),
    ensures
        active_first(order, active, count).contains(i) <==> order.contains(i),
{
    let r = active_first(order, active, count);
    match active {
        Some(a) => {
            lemma_index_from(order, a, 0);
            if order.contains(i) {
                let k = choose|k: int| 0 <= k < order.len() && order[k] == i;
                match index_from(order, a, 0) {
                    Some(at) => {
                        assert(k != at);
                        assert(r[if k < at {
                            k + 1
                        } else {
                            k
                        }] == i);
                    },
                    None => {
                        assert(r[if a < count {
                            k + 1
                        } else {
                            k
                        }] == i);
                    },
                }
            }
            if r.contains(i) {
                let k = choose|k: int| 0 <= k < r.len() && r[k] == i;
                match index_from(order, a, 0) {
                    Some(at) => {
                        assert(order[if k - 1 < at {
                            k - 1
                        } else {
                            k
                        }] == i);
                    },
                    None => {
                        assert(order[if a < count {
                            k - 1
                        } else {
                            k
                        }] == i);
                    },
                }
            }
        },
        None => {},
    }
}

/// The recency order names every workspace exactly once, and the active one first. Behind it the
/// others stand by recency: those that the recency list names in the order in which it names them
/// first, then the rest by index. Ids that name no workspace count for nothing.
pub proof fn lemma_mru_indices(s: AppModel)
    requires
        s.workspaces.len() <= usize::MAX,
    ensures
        distinct_below(s.mru_indices(), s.workspaces.len()),
        forall|i: usize| i < s.workspaces.len() ==> s.mru_indices().contains(i),
        s.active matches Some(a) ==> a < s.workspaces.len() ==> s.mru_indices().len() > 0
            && s.mru_indices()[0] == a,
        forall|p: int, q: int|
            0 <= p < q < s.mru_indices().len() && s.active != Some(s.mru_indices()[p]) && s.active
                != Some(s.mru_indices()[q]) ==> s.more_recent(
                #[trigger] s.mru_indices()[p],
                #[trigger] s.mru_indices()[q],
            ),
{
    let n = s.workspaces.len();
    let known = recent(s.workspaces, s.mru, s.mru.len());
    let first = active_first(known, s.active, n);
    let r = s.mru_indices();
    lemma_recent(s.workspaces, s.mru, s.mru.len());
    lemma_active_first(known, s.active, n);
    lemma_filled_up(first, n, n);
    lemma_recent_order(s.workspaces, s.mru, s.mru.len());
    lemma_filled_up_order(first, n);
    assert forall|p: int, q: int|
        0 <= p < q < r.len() && s.active != Some(r[p]) && s.active != Some(
            r[q],
        ) implies s.more_recent(#[trigger] r[p], #[trigger] r[q]) by {
        let len = s.mru.len() as int;
        lemma_active_first_holds(known, s.active, n, r[p]);
        lemma_active_first_holds(known, s.active, n, r[q]);
        assert(known.contains(r[p]) <==> named_within(s.workspaces, s.mru, r[p], len));
        assert(known.contains(r[q]) <==> named_within(s.workspaces, s.mru, r[q], len));
        if q < first.len() {
            lemma_active_first_order(known, s.active, n, p, q);
            let (j, k) = choose|j: int, k: int|
                0 <= j < k < known.len() && #[trigger] known[j] == first[p] && #[trigger] known[k]
                    == first[q];
            assert(known.contains(known[j]));
            assert(named_before(s.workspaces, s.mru, known[j], known[k], len));
        } else if p < first.len() {
            assert(first.contains(first[p]));
            let w = choose|w: int|
                0 <= w < len && #[trigger] workspace_from(s.workspaces, s.mru[w], 0) == Some(r[p]);
            assert(!named_within(s.workspaces, s.mru, r[q], len));
            assert(!named_within(s.workspaces, s.mru, r[q], w + 1));
        }
    }
}

impl AppState {
    /// The indices of all workspaces by recency: the active one first, then the others in the
    /// order in which they were last used, then those that were never used.
    pub fn workspace_mru_indices(&self) -> (order: Vec<usize>)
        ensures
            order@ == self@.mru_indices(),
            distinct_below(order@, self@.workspaces.len()),
    {
        let ghost workspaces = self@.workspaces;
        let ghost mru = self@.mru;
        let mut order: Vec<usize> = Vec::new();
        let mut n: usize = 0;
        while n < self.workspace_mru.len()
            invariant
                n <= self.workspace_mru@.len(),
                workspaces == self@.workspaces,
                mru == self@.mru,
                order@ == recent(workspaces, mru, n as nat),
            decreases self.workspace_mru@.len() - n,
        {
            proof {
                assert(mru[n as int] == self.workspace_mru@[n as int]@);
            }
            if let Some(i) = self.workspace_index(&self.workspace_mru[n]) {
                if find_index(&order, i).is_none() {
                    order.push(i);
                }
            }
            n += 1;
        }
        let ghost known = order@;
        if let Some(active) = self.active {
            match find_index(&order, active) {
                Some(p) => {
                    let a: usize = order.remove(p);
                    order.insert(0, a);
                    proof {
                        lemma_index_from(known, active, 0);
                        assert(order@ =~= known.remove(p as int).insert(0, active));
                    }
                },
                None => {
                    if active < self.workspaces.len() {
                        order.insert(0, active);
                    }
                },
            }
        }
        let ghost first = order@;
        let mut i: usize = 0;
        while i < self.workspaces.len()
            invariant
                i <= self.workspaces@.len(),
                order@ == filled_up(first, i as nat),
            decreases self.workspaces@.len() - i,
        {
            if find_index(&order, i).is_none() {
                order.push(i);
            }
            i += 1;
        }
        proof {
            lemma_mru_indices(self@);
        }
        order
    }
}

// ---------------------------------------------------------------------------
// Switching
// ---------------------------------------------------------------------------

/// `mru` with `id` put first.
pub open spec fn used(mru: Seq<Seq<char>>, id: Seq<char>) -> Seq<Seq<char>> {
    seq![id] + without_id(mru, id)
}

/// `mru` without `id`.
pub open spec fn without_id(mru: Seq<Seq<char>>, id: Seq<char>) -> Seq<Seq<char>>
    decreases mru.len(),
{
    if mru.len() == 0 {
        mru
    } else if mru.last() == id {
        without_id(mru.drop_last(), id)
    } else {
        without_id(mru.drop_last(), id).push(mru.last())
    }
}

impl AppModel {
    /// The state with workspace `ws_idx` active and most recently used.
    pub open spec fn switched(self, ws_idx: usize) -> AppModel {
        if ws_idx < self.workspaces.len() {
            AppModel {
                active: Some(ws_idx),
                selected: ws_idx,
                mru: used(self.mru, self.workspaces[ws_idx as int].id),
                ..self
            }
        } else {
            self
        }
    }

    /// Whether workspace `ws_idx` has a tab `tab_idx`.
    pub open spec fn has_tab(self, ws_idx: usize, tab_idx: usize) -> bool {
        ws_idx < self.workspaces.len() && tab_idx < self.workspaces[ws_idx as int].tabs.len()
    }

    /// The state with tab `tab_idx` of workspace `ws_idx` active.
    pub open spec fn switched_tab(self, ws_idx: usize, tab_idx: usize) -> AppModel {
        if self.has_tab(ws_idx, tab_idx) {
            let s = self.switched(ws_idx);
            let ws = s.workspaces[ws_idx as int];
            AppModel {
                workspaces: s.workspaces.update(
                    ws_idx as int,
                    WorkspaceModel { active_tab: tab_idx, ..ws },
                ),
                ..s
            }
        } else {
            self
        }
    }
}

impl AppState {
    /// Makes workspace `ws_idx` the active and most recently used one.
    pub fn switch_workspace(&mut self, ws_idx: usize)
        ensures
            final(self)@ == old(self)@.switched(ws_idx),
    {
        broadcast use {lemma_views_push, lemma_views_empty};

        if ws_idx >= self.workspaces.len() {
            return;
        }
        let ghost mru = self@.mru;
        let id = self.workspaces[ws_idx].id.clone();
        proof {
            assert(id@ == self@.workspaces[ws_idx as int].id);
        }
        let mut rest: Vec<String> = Vec::new();
        let mut i: usize = 0;
        proof {
            assert(mru.take(0) =~= Seq::<Seq<char>>::empty());
        }
        while i < self.workspace_mru.len()
            invariant
                i <= self.workspace_mru@.len(),
                mru == views(self.workspace_mru@),
                views(rest@) == without_id(mru.take(i as int), id@),
            decreases self.workspace_mru@.len() - i,
        {
            broadcast use lemma_views_push;

            proof {
                assert(mru.take(i + 1).drop_last() =~= mru.take(i as int));
                assert(mru[i as int] == self.workspace_mru@[i as int]@);
            }
            if self.workspace_mru[i] != id {
                rest.push(self.workspace_mru[i].clone());
            }
            i += 1;
        }
        proof {
            assert(mru.take(i as int) =~= mru);
        }
        let ghost tail = views(rest@);
        rest.insert(0, id);
        proof {
            assert(views(rest@) =~= seq![id@] + tail);
        }
        self.workspace_mru = rest;
        self.active = Some(ws_idx);
        self.selected = ws_idx;
    }

    /// Makes tab `tab_idx` of workspace `ws_idx` active, and returns whether there is such a tab.
    pub fn switch_workspace_tab(&mut self, ws_idx: usize, tab_idx: usize) -> (b: bool)
        ensures
            b == old(self)@.has_tab(ws_idx, tab_idx),
            final(self)@ == old(self)@.switched_tab(ws_idx, tab_idx),
    {
        if ws_idx >= self.workspaces.len() || tab_idx >= self.workspaces[ws_idx].tabs.len() {
            return false;
        }
        self.switch_workspace(ws_idx);
        let ghost before = self.workspaces@;
        self.workspaces[ws_idx].active_tab = tab_idx;
        proof {
            let i = ws_idx as int;
            let after = self.workspaces@;
            assert(after =~= before.update(i, after[i]));
            assert(after[i]@ == (WorkspaceModel { active_tab: tab_idx, ..before[i]@ }));
            assert(views(after) =~= views(before).update(i, after[i]@));
        }
        true
    }
}

// ---------------------------------------------------------------------------
// Groups and panes
// ---------------------------------------------------------------------------

impl AppModel {
    /// Whether workspace `ws_idx` is a linked worktree whose main worktree is open too.
    pub open spec fn is_grouped_child(self, ws_idx: int) -> bool {
        match self.workspaces[ws_idx].space {
            Some(space) => space.is_linked_worktree && exists|p: int|
                0 <= p < self.workspaces.len() && is_parent_of(#[trigger] self.workspaces[p], space.key),
            None => false,
        }
    }

    /// The runtime of pane `pane_id` of workspace `ws_idx`.
    pub open spec fn pane_runtime(
        self,
        runtimes: RegistryModel,
        ws_idx: usize,
        pane_id: PaneId,
    ) -> Option<RuntimeModel> {
        if ws_idx < self.workspaces.len() && self.workspaces[ws_idx as int].has_pane(pane_id) {
            runtime_of(runtimes, pane_id)
        } else {
            None
        }
    }
}

/// Whether `ws` is the main worktree of the repository with the key `key`.
pub open spec fn is_parent_of(ws: WorkspaceModel, key: Seq<char>) -> bool {
    match ws.space {
        Some(space) => !space.is_linked_worktree && space.key == key,
        None => false,
    }
}

impl AppState {
    /// Tests whether workspace `ws_idx` is a linked worktree whose main worktree is open too.
    pub fn is_grouped_child_worktree(&self, ws_idx: usize) -> (b: bool)
        requires
            ws_idx < self@.workspaces.len(),
        ensures
            b == self@.is_grouped_child(ws_idx as int),
    {
        let ghost all = self@.workspaces;
        proof {
            assert(all[ws_idx as int] == self.workspaces@[ws_idx as int]@);
        }
        let space = match &self.workspaces[ws_idx].worktree_space {
            Some(space) => space,
            None => return false,
        };
        if !space.is_linked_worktree {
            return false;
        }
        let mut p: usize = 0;
        while p < self.workspaces.len()
            invariant
                p <= self.workspaces@.len(),
                ws_idx < self.workspaces@.len(),
                all == self@.workspaces,
                all[ws_idx as int].space == Some(space@),
                space.is_linked_worktree,
                forall|k: int| 0 <= k < p ==> !is_parent_of(#[trigger] all[k], space.key@),
            decreases self.workspaces@.len() - p,
        {
            proof {
                assert(all[p as int] == self.workspaces@[p as int]@);
            }
            if let Some(other) = &self.workspaces[p].worktree_space {
                if !other.is_linked_worktree && other.key == space.key {
                    proof {
                        assert(is_parent_of(all[p as int], space.key@));
                    }
                    return true;
                }
            }
            p += 1;
        }
        false
    }

    /// The runtime of pane `pane_id` of workspace `ws_idx`.
    pub fn runtime_for_pane_in_workspace<'a>(
        &self,
        terminal_runtimes: &'a TerminalRuntimeRegistry,
        ws_idx: usize,
        pane_id: PaneId,
    ) -> (r: Option<&'a PaneRuntime>)
        ensures
            match r {
                Some(runtime) => self@.pane_runtime(terminal_runtimes@, ws_idx, pane_id) == Some(
                    runtime@,
                ),
                None => self@.pane_runtime(terminal_runtimes@, ws_idx, pane_id) is None,
            },
    {
        if ws_idx < self.workspaces.len() {
            proof {
                assert(self@.workspaces[ws_idx as int] == self.workspaces@[ws_idx as int]@);
            }
            if self.workspaces[ws_idx].find_tab_index_for_pane(pane_id).is_some() {
                return terminal_runtimes.get(pane_id);
            }
        }
        None
    }

    /// Tests whether tab `tab_idx` of workspace `ws_idx` holds pane `pane_id`.
    pub fn tab_surface_contains_pane(&self, ws_idx: usize, tab_idx: usize, pane_id: PaneId) -> (b:
        bool)
        ensures
            b == (self@.has_tab(ws_idx, tab_idx) && self@.workspaces[ws_idx as int].tabs[tab_idx as
                int].panes.contains(pane_id)),
    {
        if ws_idx >= self.workspaces.len() || tab_idx >= self.workspaces[ws_idx].tabs.len() {
            return false;
        }
        panes_contain(&self.workspaces[ws_idx].tabs[tab_idx].panes, pane_id)
    }
}

} // verus!
