//! The variable-height layout of the switcher list.
//!
//! One layout, made from the current rows and the body height, drives every consumer of the
//! geometry: row rectangles, page and wheel movement, the scroll limit, selection visibility,
//! mouse hits and the scrollbar.

use vstd::prelude::*;
use crate::rows::{RowModel, WorkspaceSwitcherRow};
use crate::views::views;

verus! {

/// The number of lines a row takes: two for a directory and for a row with metadata, else one.
pub open spec fn row_height(row: RowModel) -> nat {
    if row.is_directory || row.secondary.len() > 0 {
        2
    } else {
        1
    }
}

/// The number of lines a row takes.
pub fn switcher_row_height(row: &WorkspaceSwitcherRow) -> (h: usize)
    ensures
        h == row_height(row@),
{
    if row.is_directory || row.secondary.len() > 0 {
        2
    } else {
        1
    }
}

/// The number of lines that the first `n` rows take.
pub open spec fn lines_before(rows: Seq<RowModel>, n: nat) -> nat
    decreases n,
{
    if n == 0 {
        0
    } else {
        lines_before(rows, (n - 1) as nat) + row_height(rows[n - 1])
    }
}

/// A layout: `prefix[i]` lines stand above row `i`, and the last entry counts all lines.
pub struct LayoutModel {
    pub prefix: Seq<nat>,
    pub body: nat,
}

/// The first index from `from` on at which `prefix` reaches `limit`, and `to` at the latest.
pub open spec fn first_reaching(prefix: Seq<nat>, limit: int, from: int, to: int) -> int
    decreases to - from,
{
    if from >= to {
        to
    } else if prefix[from] >= limit {
        from
    } else {
        first_reaching(prefix, limit, from + 1, to)
    }
}

/// How many rows from `start` on end at most at line `limit`.
pub open spec fn rows_within(prefix: Seq<nat>, limit: int, start: int) -> nat
    decreases prefix.len() - start,
{
    if 0 <= start < prefix.len() - 1 && prefix[start + 1] <= limit {
        1 + rows_within(prefix, limit, start + 1)
    } else {
        0
    }
}

pub open spec fn min_int(a: int, b: int) -> int {
    if a <= b {
        a
    } else {
        b
    }
}

pub open spec fn distance(a: int, b: int) -> nat {
    if a <= b {
        (b - a) as nat
    } else {
        (a - b) as nat
    }
}

impl LayoutModel {
    /// The layout of `rows` in a body of `body` lines.
    #[verifier::opaque]
    pub open spec fn of(rows: Seq<RowModel>, body: nat) -> LayoutModel {
        LayoutModel { prefix: Seq::new(rows.len() + 1, |i: int| lines_before(rows, i as nat)), body }
    }

    /// Rows start at line zero and take one or two lines each.
    pub open spec fn wf(self) -> bool {
        &&& self.prefix.len() > 0
        &&& self.prefix[0] == 0
        &&& forall|i: int|
            0 <= i < self.prefix.len() - 1 ==> #[trigger] self.prefix[i] + 1 <= self.prefix[i + 1]
                <= self.prefix[i] + 2
    }

    pub open spec fn rows(self) -> int {
        self.prefix.len() - 1
    }

    pub open spec fn total(self) -> nat {
        self.prefix[self.rows()]
    }

    pub open spec fn height(self, index: int) -> nat {
        if 0 <= index < self.rows() {
            (self.prefix[index + 1] - self.prefix[index]) as nat
        } else {
            0
        }
    }

    pub open spec fn offset(self, index: int) -> nat {
        if 0 <= index <= self.rows() {
            self.prefix[index]
        } else {
            0
        }
    }

    /// How many rows from `start` on fit completely in the body.
    pub open spec fn visible_count_at(self, start: int) -> nat {
        if start >= self.rows() {
            0
        } else {
            rows_within(self.prefix, (self.prefix[start] + self.body) as int, start)
        }
    }

    /// The first scroll offset from which the rest of the list fits, and the last row at most.
    #[verifier::opaque]
    pub open spec fn max_scroll(self) -> int {
        if self.rows() == 0 {
            0
        } else {
            first_reaching(self.prefix, self.total() - self.body, 0, self.rows() - 1)
        }
    }

    /// Whether row `row` is completely visible when the window starts at `scroll`.
    pub open spec fn shows(self, row: int, scroll: int) -> bool {
        scroll <= row < scroll + self.visible_count_at(scroll)
    }

    /// The scroll offset that shows `selected`, as close to `scroll` as it can be.
    #[verifier::opaque]
    pub open spec fn scroll_to_show(self, selected: int, scroll: int) -> int {
        if self.rows() == 0 || self.body == 0 {
            0
        } else {
            let row = min_int(selected, self.rows() - 1);
            let from = min_int(scroll, self.max_scroll());
            let result = if row < from {
                row
            } else if self.shows(row, from) || self.height(row) > self.body {
                from
            } else {
                first_reaching(self.prefix, self.prefix[row + 1] - self.body, 0, row)
            };
            min_int(result, self.max_scroll())
        }
    }

    /// The row that covers line `physical` of the window that starts at `scroll`.
    #[verifier::opaque]
    pub open spec fn row_at_physical(self, physical: int, scroll: int) -> Option<int> {
        if self.rows() == 0 {
            None
        } else {
            let first = min_int(scroll, self.rows() - 1);
            let end = first + self.visible_count_at(first);
            let line = self.prefix[first] + physical;
            if line >= self.prefix[end] {
                None
            } else {
                Some(first_reaching(self.prefix, line + 1, first + 1, end) - 1)
            }
        }
    }

    /// The line of the window that starts at `scroll` on which `row` starts, where the row is
    /// completely visible there.
    #[verifier::opaque]
    pub open spec fn offset_within_window(self, row: int, scroll: int) -> Option<nat> {
        if self.rows() == 0 {
            None
        } else {
            let row = min_int(row, self.rows() - 1);
            let first = min_int(scroll, self.rows() - 1);
            if self.shows(row, first) {
                Some((self.prefix[row] - self.prefix[first]) as nat)
            } else {
                None
            }
        }
    }

    /// The best of the scroll offsets below `n` for `selected`, with its deviation from `wanted`:
    /// the one that shows the row closest to the wanted line, the smaller one on a tie.
    pub open spec fn best_scroll(self, selected: int, wanted: int, n: nat) -> Option<(nat, int)>
        decreases n,
    {
        if n == 0 {
            None
        } else {
            let before = self.best_scroll(selected, wanted, (n - 1) as nat);
            match self.offset_within_window(selected, n - 1) {
                Some(offset) => {
                    let deviation = distance(offset as int, wanted);
                    match before {
                        Some((best, scroll)) if best <= deviation => before,
                        _ => Some((deviation, n - 1)),
                    }
                },
                None => before,
            }
        }
    }

    /// The scroll offset that keeps `selected` closest to line `wanted` of the window.
    #[verifier::opaque]
    pub open spec fn scroll_to_preserve_offset(
        self,
        selected: int,
        wanted: int,
        current: int,
    ) -> int {
        if self.rows() == 0 || self.body == 0 {
            0
        } else {
            let row = min_int(selected, self.rows() - 1);
            match self.best_scroll(row, wanted, (min_int(row, self.max_scroll()) + 1) as nat) {
                Some((deviation, scroll)) => scroll,
                None => self.scroll_to_show(row, current),
            }
        }
    }
}

proof fn lemma_lines_before(rows: Seq<RowModel>, n: nat)
    ensures
        n <= lines_before(rows, n) <= 2 * n,
    decreases n,
{
    if n > 0 {
        lemma_lines_before(rows, (n - 1) as nat);
    }
}

/// The layout of any rows is well formed, and takes at most two lines for each row.
pub proof fn lemma_layout_wf(rows: Seq<RowModel>, body: nat)
    ensures
        LayoutModel::of(rows, body).wf(),
        LayoutModel::of(rows, body).rows() == rows.len(),
        LayoutModel::of(rows, body).body == body,
        LayoutModel::of(rows, body).total() <= 2 * rows.len(),
{
    reveal(LayoutModel::of);
    let layout = LayoutModel::of(rows, body);
    lemma_lines_before(rows, rows.len());
    assert forall|i: int| 0 <= i < layout.prefix.len() - 1 implies #[trigger] layout.prefix[i] + 1
        <= layout.prefix[i + 1] <= layout.prefix[i] + 2 by {
        assert(layout.prefix[i + 1] == lines_before(rows, (i + 1) as nat));
    }
}

/// Later rows start further down.
pub proof fn lemma_prefix_monotonic(layout: LayoutModel, i: int, j: int)
    requires
        layout.wf(),
        0 <= i <= j < layout.prefix.len(),
    ensures
        layout.prefix[i] + (j - i) <= layout.prefix[j],
        layout.prefix[j] <= layout.prefix[i] + 2 * (j - i),
    decreases j - i,
{
    if i < j {
        lemma_prefix_monotonic(layout, i, j - 1);
        assert(layout.prefix[j - 1] + 1 <= layout.prefix[j - 1 + 1]);
    }
}

proof fn lemma_first_reaching(layout: LayoutModel, limit: int, from: int, to: int)
    requires
        layout.wf(),
        0 <= from <= to < layout.prefix.len(),
    ensures
        ({
            let r = first_reaching(layout.prefix, limit, from, to);
            &&& from <= r <= to
            &&& r < to ==> layout.prefix[r] >= limit
            &&& forall|k: int| from <= k < r ==> #[trigger] layout.prefix[k] < limit
        }),
    decreases to - from,
{
    if from < to && layout.prefix[from] < limit {
        lemma_first_reaching(layout, limit, from + 1, to);
    }
}

/// `first_reaching` is the one index with its properties.
proof fn lemma_first_reaching_unique(layout: LayoutModel, limit: int, from: int, to: int, r: int)
    requires
        layout.wf(),
        0 <= from <= r <= to < layout.prefix.len(),
        r < to ==> layout.prefix[r] >= limit,
        r > from ==> layout.prefix[r - 1] < limit,
    ensures
        first_reaching(layout.prefix, limit, from, to) == r,
{
    lemma_first_reaching(layout, limit, from, to);
    let q = first_reaching(layout.prefix, limit, from, to);
    if q < r {
        lemma_prefix_monotonic(layout, q, r - 1);
    }
    if r < q {
        assert(layout.prefix[r] < limit);
    }
}

proof fn lemma_rows_within(layout: LayoutModel, limit: int, start: int)
    requires
        layout.wf(),
        0 <= start < layout.prefix.len(),
    ensures
        ({
            let end = start + rows_within(layout.prefix, limit, start);
            &&& end <= layout.rows()
            &&& end > start ==> layout.prefix[end] <= limit
            &&& end < layout.rows() ==> layout.prefix[end + 1] > limit
        }),
    decreases layout.prefix.len() - start,
{
    if start < layout.prefix.len() - 1 && layout.prefix[start + 1] <= limit {
        lemma_rows_within(layout, limit, start + 1);
    }
}

/// `rows_within` is the one count with its properties.
proof fn lemma_rows_within_unique(layout: LayoutModel, limit: int, start: int, n: nat)
    requires
        layout.wf(),
        0 <= start < layout.prefix.len(),
        start + n <= layout.rows(),
        n > 0 ==> layout.prefix[start + n] <= limit,
        start + n < layout.rows() ==> layout.prefix[start + n + 1] > limit,
    ensures
        rows_within(layout.prefix, limit, start) == n,
{
    lemma_rows_within(layout, limit, start);
    let m = rows_within(layout.prefix, limit, start);
    if m < n {
        lemma_prefix_monotonic(layout, start + m + 1, start + n);
    }
    if n < m {
        lemma_prefix_monotonic(layout, start + n + 1, start + m);
    }
}

/// The number of rows that a page holds at the scroll offset `scroll`, one at least.
pub open spec fn max_page(layout: LayoutModel, scroll: int) -> int {
    if layout.visible_count_at(scroll) == 0 {
        1
    } else {
        layout.visible_count_at(scroll) as int
    }
}

/// The layout of the switcher list.
#[derive(Debug)]
pub struct SwitcherRowLayout {
    prefix: Vec<usize>,
    body_height: usize,
}

impl View for SwitcherRowLayout {
    type V = LayoutModel;

    closed spec fn view(&self) -> LayoutModel {
        LayoutModel {
            prefix: Seq::new(self.prefix@.len(), |i: int| self.prefix@[i] as nat),
            body: self.body_height as nat,
        }
    }
}

impl SwitcherRowLayout {
    /// The layout is well formed and its line numbers can be added to the body height.
    #[verifier::opaque]
    pub open spec fn wf(self) -> bool {
        &&& self@.wf()
        &&& self@.total() + self@.body <= usize::MAX
        &&& self@.prefix.len() <= usize::MAX
    }

    /// The layout of `rows` in a body of `body_height` lines.
    pub fn new(rows: &Vec<WorkspaceSwitcherRow>, body_height: usize) -> (r: SwitcherRowLayout)
        requires
            2 * rows@.len() + body_height <= usize::MAX,
        ensures
            r.wf(),
            r@ == LayoutModel::of(views(rows@), body_height as nat),
    {
        proof {
            reveal(SwitcherRowLayout::wf);
        }
        let ghost all = views(rows@);
        let mut prefix: Vec<usize> = Vec::new();
        prefix.push(0);
        let mut lines: usize = 0;
        let mut i: usize = 0;
        while i < rows.len()
            invariant
                i <= rows@.len(),
                2 * rows@.len() + body_height <= usize::MAX,
                all == views(rows@),
                prefix@.len() == i + 1,
                lines == lines_before(all, i as nat),
                forall|k: int|
                    0 <= k <= i ==> #[trigger] prefix@[k] == lines_before(all, k as nat),
            decreases rows@.len() - i,
        {
            proof {
                lemma_lines_before(all, i as nat);
            }
            lines = lines + switcher_row_height(&rows[i]);
            prefix.push(lines);
            i += 1;
        }
        let r = SwitcherRowLayout { prefix, body_height };
        proof {
            lemma_layout_wf(all, body_height as nat);
            reveal(LayoutModel::of);
            assert(r@.prefix =~= LayoutModel::of(all, body_height as nat).prefix);
        }
        r
    }

    /// The number of rows.
    pub fn rows(&self) -> (r: usize)
        requires
            self.wf(),
        ensures
            r == self@.rows(),
    {
        proof {
            reveal(SwitcherRowLayout::wf);
        }
        self.prefix.len() - 1
    }

    /// The number of lines that all rows take.
    pub fn total_physical(&self) -> (r: usize)
        requires
            self.wf(),
        ensures
            r == self@.total(),
    {
        proof {
            reveal(SwitcherRowLayout::wf);
        }
        self.prefix[self.prefix.len() - 1]
    }

    /// The number of lines that row `index` takes; zero where there is no such row.
    pub fn height(&self, index: usize) -> (r: usize)
        requires
            self.wf(),
        ensures
            r == self@.height(index as int),
    {
        proof {
            reveal(SwitcherRowLayout::wf);
        }
        if index < self.rows() {
            proof {
                lemma_prefix_monotonic(self@, index as int, index + 1);
                assert(self@.prefix[index + 1] == self.prefix@[index + 1]);
                assert(self@.prefix[index as int] == self.prefix@[index as int]);
            }
            self.prefix[index + 1] - self.prefix[index]
        } else {
            0
        }
    }

    /// The number of lines above row `index`; zero where there is no such row.
    pub fn physical_offset(&self, index: usize) -> (r: usize)
        requires
            self.wf(),
        ensures
            r == self@.offset(index as int),
    {
        proof {
            reveal(SwitcherRowLayout::wf);
        }
        if index < self.prefix.len() {
            self.prefix[index]
        } else {
            0
        }
    }

    /// The number of rows, starting at `start`, that fit completely in the body.
    pub fn visible_count_at(&self, start: usize) -> (r: usize)
        requires
            self.wf(),
        ensures
            r == self@.visible_count_at(start as int),
            start <= self@.rows() ==> start + r <= self@.rows(),
    {
        proof {
            reveal(SwitcherRowLayout::wf);
        }
        let rows: usize = self.rows();
        if start >= rows {
            return 0;
        }
        proof {
            lemma_prefix_monotonic(self@, start as int, self@.rows());
            assert(self@.prefix[start as int] == self.prefix@[start as int]);
        }
        let limit: usize = self.prefix[start] + self.body_height;
        let mut lo: usize = start;
        let mut hi: usize = rows;
        while lo < hi
            invariant
                self.wf(),
                rows == self@.rows(),
                start <= lo <= hi <= rows,
                start < rows,
                limit == self@.prefix[start as int] + self@.body,
                self@.prefix[lo as int] <= limit,
                hi < rows ==> self@.prefix[hi + 1] > limit,
            decreases hi - lo,
        {
            let gap: usize = hi - lo;
            let mid: usize = lo + (gap / 2 + gap % 2);
            proof {
                assert(self@.prefix[mid as int] == self.prefix@[mid as int]);
            }
            if self.prefix[mid] <= limit {
                lo = mid;
            } else {
                hi = mid - 1;
            }
        }
        proof {
            lemma_rows_within_unique(self@, limit as int, start as int, (lo - start) as nat);
        }
        lo - start
    }

    fn find_reaching(&self, limit: usize, to: usize) -> (r: usize)
        requires
            self.wf(),
            to < self@.prefix.len(),
        ensures
            r == first_reaching(self@.prefix, limit as int, 0, to as int),
    {
        proof {
            reveal(SwitcherRowLayout::wf);
        }
        let mut lo: usize = 0;
        let mut hi: usize = to;
        while lo < hi
            invariant
                self.wf(),
                to < self@.prefix.len(),
                lo <= hi <= to,
                hi < to ==> self@.prefix[hi as int] >= limit,
                lo > 0 ==> self@.prefix[lo - 1] < limit,
            decreases hi - lo,
        {
            let mid: usize = lo + (hi - lo) / 2;
            proof {
                assert(self@.prefix[mid as int] == self.prefix@[mid as int]);
            }
            if self.prefix[mid] >= limit {
                hi = mid;
            } else {
                lo = mid + 1;
            }
        }
        proof {
            lemma_first_reaching_unique(self@, limit as int, 0, to as int, lo as int);
        }
        lo
    }

    /// The largest scroll offset: the first from which the rest of the list fits, or the last
    /// row where not even that fits.
    pub fn max_scroll(&self) -> (r: usize)
        requires
            self.wf(),
        ensures
            r == self@.max_scroll(),
            self@.rows() > 0 ==> r < self@.rows(),
    {
        proof {
            reveal(SwitcherRowLayout::wf);
        }
        proof {
            reveal(LayoutModel::max_scroll);
        }
        let rows: usize = self.rows();
        if rows == 0 {
            return 0;
        }
        let total: usize = self.total_physical();
        let limit: usize = total.saturating_sub(self.body_height);
        proof {
            lemma_first_reaching(self@, limit as int, 0, rows - 1);
            lemma_first_reaching(self@, self@.total() - self@.body, 0, rows - 1);
            let r = first_reaching(self@.prefix, limit as int, 0, rows - 1);
            lemma_first_reaching_unique(self@, self@.total() - self@.body, 0, rows - 1, r);
        }
        self.find_reaching(limit, rows - 1)
    }

    /// The scroll offset that keeps `selected` visible. It stays where the row is visible, puts
    /// the row on the bottom edge when it scrolls down, and on the top edge when it scrolls up.
    pub fn scroll_to_show(&self, selected: usize, scroll: usize) -> (r: usize)
        requires
            self.wf(),
        ensures
            r == self@.scroll_to_show(selected as int, scroll as int),
    {
        proof {
            reveal(SwitcherRowLayout::wf);
        }
        proof {
            reveal(LayoutModel::max_scroll);
            reveal(LayoutModel::scroll_to_show);
            reveal(LayoutModel::offset_within_window);
        }
        let rows: usize = self.rows();
        if rows == 0 || self.body_height == 0 {
            return 0;
        }
        let row: usize = if selected < rows { selected } else { rows - 1 };
        let max: usize = self.max_scroll();
        let from: usize = if scroll < max { scroll } else { max };
        let result: usize = if row < from {
            row
        } else if row < from + self.visible_count_at(from) {
            from
        } else if self.height(row) > self.body_height {
            from
        } else {
            proof {
                assert(self@.prefix[row + 1] == self.prefix@[row + 1]);
            }
            let limit: usize = self.prefix[row + 1].saturating_sub(self.body_height);
            proof {
                lemma_first_reaching(self@, limit as int, 0, row as int);
                let r = first_reaching(self@.prefix, limit as int, 0, row as int);
                lemma_first_reaching_unique(
                    self@,
                    self@.prefix[row + 1] - self@.body,
                    0,
                    row as int,
                    r,
                );
            }
            self.find_reaching(limit, row)
        };
        if result < max {
            result
        } else {
            max
        }
    }

    /// The row at line `physical` of the window that starts at `scroll`. The blank lines behind
    /// the last completely visible row belong to no row.
    pub fn row_at_physical(&self, physical: usize, scroll: usize) -> (r: Option<usize>)
        requires
            self.wf(),
        ensures
            match r {
                Some(row) => self@.row_at_physical(physical as int, scroll as int) == Some(
                    row as int,
                ),
                None => self@.row_at_physical(physical as int, scroll as int) is None,
            },
            r matches Some(row) ==> row < self@.rows(),
    {
        proof {
            reveal(SwitcherRowLayout::wf);
        }
        proof {
            reveal(LayoutModel::row_at_physical);
        }
        let rows: usize = self.rows();
        if rows == 0 {
            return None;
        }
        let first: usize = if scroll < rows { scroll } else { rows - 1 };
        let visible: usize = self.visible_count_at(first);
        let end: usize = first + visible;
        proof {
            lemma_prefix_monotonic(self@, first as int, end as int);
            lemma_prefix_monotonic(self@, end as int, self@.rows());
            assert(self@.prefix[first as int] == self.prefix@[first as int]);
            assert(self@.prefix[end as int] == self.prefix@[end as int]);
        }
        let base: usize = self.prefix[first];
        let used: usize = self.prefix[end] - base;
        if physical >= used {
            return None;
        }
        let mut lo: usize = first;
        let mut hi: usize = end - 1;
        while lo < hi
            invariant
                self.wf(),
                rows == self@.rows(),
                first <= lo <= hi < end <= rows,
                base == self@.prefix[first as int],
                base + physical < self@.prefix[end as int] <= usize::MAX,
                hi < end - 1 ==> self@.prefix[hi + 1] > base + physical,
                lo > first ==> self@.prefix[lo as int] <= base + physical,
            decreases hi - lo,
        {
            let mid: usize = lo + (hi - lo) / 2;
            proof {
                assert(self@.prefix[mid + 1] == self.prefix@[mid + 1]);
            }
            if self.prefix[mid + 1] > base + physical {
                hi = mid;
            } else {
                lo = mid + 1;
            }
        }
        proof {
            lemma_first_reaching_unique(
                self@,
                base + physical + 1,
                first + 1,
                end as int,
                lo + 1,
            );
        }
        Some(lo)
    }

    /// The line of `row` within the window that starts at `scroll`, or `None` where the row is
    /// not completely visible there.
    pub fn offset_within_window(&self, row: usize, scroll: usize) -> (r: Option<usize>)
        requires
            self.wf(),
        ensures
            match r {
                Some(line) => self@.offset_within_window(row as int, scroll as int) == Some(
                    line as nat,
                ),
                None => self@.offset_within_window(row as int, scroll as int) is None,
            },
    {
        proof {
            reveal(SwitcherRowLayout::wf);
        }
        proof {
            reveal(LayoutModel::offset_within_window);
        }
        let rows: usize = self.rows();
        if rows == 0 {
            return None;
        }
        let row: usize = if row < rows { row } else { rows - 1 };
        let first: usize = if scroll < rows { scroll } else { rows - 1 };
        if row >= first && row < first + self.visible_count_at(first) {
            proof {
                lemma_prefix_monotonic(self@, first as int, row as int);
            }
            Some(self.physical_offset(row) - self.physical_offset(first))
        } else {
            None
        }
    }

    /// The scroll offset that keeps `selected` completely visible as close to line
    /// `wanted_offset` of the window as can be, the smaller one on a tie; where no offset shows
    /// the row, the one that [`Self::scroll_to_show`] gives from `current`.
    pub fn scroll_to_preserve_offset(
        &self,
        selected: usize,
        wanted_offset: usize,
        current: usize,
    ) -> (r: usize)
        requires
            self.wf(),
        ensures
            r == self@.scroll_to_preserve_offset(
                selected as int,
                wanted_offset as int,
                current as int,
            ),
    {
        proof {
            reveal(SwitcherRowLayout::wf);
        }
        proof {
            reveal(LayoutModel::max_scroll);
            reveal(LayoutModel::scroll_to_show);
            reveal(LayoutModel::offset_within_window);
            reveal(LayoutModel::scroll_to_preserve_offset);
        }
        let rows: usize = self.rows();
        if rows == 0 || self.body_height == 0 {
            return 0;
        }
        let row: usize = if selected < rows { selected } else { rows - 1 };
        let max: usize = self.max_scroll();
        let last: usize = if row < max { row } else { max };
        let mut best: Option<(usize, usize)> = None;
        let mut scroll: usize = 0;
        while scroll <= last
            invariant
                self.wf(),
                scroll <= last + 1,
                last < rows,
                rows == self@.rows(),
                match best {
                    Some(b) => self@.best_scroll(
                        row as int,
                        wanted_offset as int,
                        scroll as nat,
                    ) == Some((b.0 as nat, b.1 as int)),
                    None => self@.best_scroll(
                        row as int,
                        wanted_offset as int,
                        scroll as nat,
                    ) is None,
                },
            decreases last + 1 - scroll,
        {
            if let Some(offset) = self.offset_within_window(row, scroll) {
                let deviation: usize = if offset <= wanted_offset {
                    wanted_offset - offset
                } else {
                    offset - wanted_offset
                };
                let better = match best {
                    Some(b) => deviation < b.0,
                    None => true,
                };
                if better {
                    best = Some((deviation, scroll));
                }
            }
            scroll += 1;
        }
        match best {
            Some(b) => b.1,
            None => self.scroll_to_show(row, current),
        }
    }

    /// The number of lines between the start of row `scroll` and that of row `index`, which is
    /// visible from there.
    pub fn window_offset(&self, scroll: usize, index: usize) -> (r: usize)
        requires
            self.wf(),
            scroll < self@.rows(),
            scroll <= index < scroll + self@.visible_count_at(scroll as int),
        ensures
            r == self@.offset(index as int) - self@.offset(scroll as int),
            r + self@.height(index as int) <= self@.body,
    {
        proof {
            reveal(SwitcherRowLayout::wf);
            lemma_visible_count(self@, scroll as int);
            let end = scroll + self@.visible_count_at(scroll as int);
            lemma_prefix_monotonic(self@, scroll as int, index as int);
            lemma_prefix_monotonic(self@, index as int, index + 1);
            lemma_prefix_monotonic(self@, index + 1, end);
        }
        self.physical_offset(index) - self.physical_offset(scroll)
    }
}

/// A row is shown exactly where it starts at or below the window and ends within the body.
proof fn lemma_shows(layout: LayoutModel, row: int, scroll: int)
    requires
        layout.wf(),
        0 <= scroll <= row < layout.rows(),
    ensures
        layout.shows(row, scroll) <==> layout.prefix[row + 1] <= layout.prefix[scroll]
            + layout.body,
{
    let limit = (layout.prefix[scroll] + layout.body) as int;
    lemma_rows_within(layout, limit, scroll);
    let end = scroll + layout.visible_count_at(scroll);
    if row < end {
        lemma_prefix_monotonic(layout, row + 1, end);
    } else if layout.prefix[row + 1] <= limit {
        lemma_prefix_monotonic(layout, end + 1, row + 1);
    }
}

/// The scroll limit is a row, or zero in an empty list.
pub proof fn lemma_max_scroll_is_a_row(layout: LayoutModel)
    requires
        layout.wf(),
    ensures
        0 <= layout.max_scroll(),
        layout.rows() > 0 ==> layout.max_scroll() < layout.rows(),
{
    reveal(LayoutModel::max_scroll);
    if layout.rows() > 0 {
        lemma_first_reaching(layout, layout.total() - layout.body, 0, layout.rows() - 1);
    }
}

/// At the scroll limit the last row is shown, wherever the body can hold it at all, and one
/// row earlier it is not.
pub proof fn lemma_max_scroll_shows_last_row(layout: LayoutModel)
    requires
        layout.wf(),
        layout.rows() > 0,
        layout.height(layout.rows() - 1) <= layout.body,
    ensures
        layout.shows(layout.rows() - 1, layout.max_scroll()),
        layout.max_scroll() > 0 ==> !layout.shows(layout.rows() - 1, layout.max_scroll() - 1),
{
    reveal(LayoutModel::max_scroll);
    let max = layout.max_scroll();
    let last = layout.rows() - 1;
    lemma_first_reaching(layout, layout.total() - layout.body, 0, last);
    lemma_shows(layout, last, max);
    if max > 0 {
        lemma_shows(layout, last, max - 1);
        assert(layout.prefix[max - 1] < layout.total() - layout.body);
    }
}

/// Scrolling to a row never passes the scroll limit.
pub proof fn lemma_scroll_to_show_within_limit(layout: LayoutModel, selected: int, scroll: int)
    requires
        layout.wf(),
        0 <= selected,
        0 <= scroll,
    ensures
        0 <= layout.scroll_to_show(selected, scroll) <= layout.max_scroll(),
{
    reveal(LayoutModel::max_scroll);
    reveal(LayoutModel::scroll_to_show);
    reveal(LayoutModel::offset_within_window);
    lemma_max_scroll_is_a_row(layout);
    if layout.rows() > 0 && layout.body > 0 {
        let row = min_int(selected, layout.rows() - 1);
        lemma_first_reaching(layout, layout.prefix[row + 1] - layout.body, 0, row);
    }
}

/// Scrolling to a row shows it completely, wherever the body can hold it at all.
pub proof fn lemma_scroll_to_show_shows(layout: LayoutModel, selected: int, scroll: int)
    requires
        layout.wf(),
        0 <= selected < layout.rows(),
        0 <= scroll,
        0 < layout.height(selected) <= layout.body,
    ensures
        layout.shows(selected, layout.scroll_to_show(selected, scroll)),
{
    reveal(LayoutModel::max_scroll);
    reveal(LayoutModel::scroll_to_show);
    reveal(LayoutModel::offset_within_window);
    let max = layout.max_scroll();
    lemma_max_scroll_is_a_row(layout);
    lemma_first_reaching(layout, layout.total() - layout.body, 0, layout.rows() - 1);
    let from = min_int(scroll, max);
    if selected < from {
        lemma_shows(layout, selected, selected);
    } else if !layout.shows(selected, from) {
        let limit = layout.prefix[selected + 1] - layout.body;
        lemma_first_reaching(layout, limit, 0, selected);
        let first = first_reaching(layout.prefix, limit, 0, selected);
        lemma_prefix_monotonic(layout, selected + 1, layout.rows());
        assert(first <= max) by {
            if max < first {
                assert(layout.prefix[max] < limit);
            }
        }
        lemma_shows(layout, selected, first);
    }
}

/// A scroll offset within the limit that shows the row is kept.
pub proof fn lemma_scroll_to_show_keeps(layout: LayoutModel, selected: int, scroll: int)
    requires
        layout.wf(),
        0 <= selected < layout.rows(),
        0 <= scroll <= layout.max_scroll(),
        layout.body > 0,
        layout.shows(selected, scroll),
    ensures
        layout.scroll_to_show(selected, scroll) == scroll,
{
    reveal(LayoutModel::max_scroll);
    reveal(LayoutModel::scroll_to_show);
    reveal(LayoutModel::offset_within_window);
}

/// A second scroll to the same row changes nothing.
pub proof fn lemma_scroll_to_show_idempotent(layout: LayoutModel, selected: int, scroll: int)
    requires
        layout.wf(),
        0 <= selected,
        0 <= scroll,
    ensures
        layout.scroll_to_show(selected, layout.scroll_to_show(selected, scroll))
            == layout.scroll_to_show(selected, scroll),
{
    reveal(LayoutModel::scroll_to_show);
    reveal(LayoutModel::max_scroll);
    reveal(LayoutModel::offset_within_window);
    lemma_scroll_to_show_within_limit(layout, selected, scroll);
    lemma_max_scroll_is_a_row(layout);
    if layout.rows() > 0 && layout.body > 0 {
        let row = min_int(selected, layout.rows() - 1);
        let result = layout.scroll_to_show(selected, scroll);
        lemma_prefix_monotonic(layout, row, row + 1);
        if layout.height(row) <= layout.body {
            lemma_scroll_to_show_shows(layout, row, scroll);
            lemma_scroll_to_show_keeps(layout, row, result);
        }
    }
}

/// A line of the window belongs to the row that covers it: each line of a shown row is hit as
/// that row.
pub proof fn lemma_row_at_physical_hits(layout: LayoutModel, row: int, scroll: int, line: int)
    requires
        layout.wf(),
        0 <= scroll <= row < layout.rows(),
        layout.shows(row, scroll),
        0 <= line < layout.height(row),
    ensures
        layout.offset_within_window(row, scroll) is Some,
        layout.row_at_physical(layout.offset_within_window(row, scroll)->0 + line, scroll) == Some(
            row,
        ),
{
    reveal(LayoutModel::row_at_physical);
    reveal(LayoutModel::offset_within_window);
    let end = scroll + layout.visible_count_at(scroll);
    lemma_rows_within(layout, (layout.prefix[scroll] + layout.body) as int, scroll);
    lemma_prefix_monotonic(layout, scroll, row);
    lemma_prefix_monotonic(layout, row + 1, end);
    lemma_first_reaching_unique(
        layout,
        layout.prefix[row] + line + 1,
        scroll + 1,
        end,
        row + 1,
    );
}

/// Only shown rows are hit, and only on their own lines.
pub proof fn lemma_row_at_physical_sound(layout: LayoutModel, physical: int, scroll: int)
    requires
        layout.wf(),
        0 <= scroll < layout.rows(),
        0 <= physical,
        layout.row_at_physical(physical, scroll) is Some,
    ensures
        ({
            let row = layout.row_at_physical(physical, scroll)->0;
            &&& layout.shows(row, scroll)
            &&& layout.prefix[row] - layout.prefix[scroll] <= physical < layout.prefix[row + 1]
                - layout.prefix[scroll]
        }),
{
    reveal(LayoutModel::row_at_physical);
    let end = scroll + layout.visible_count_at(scroll);
    lemma_rows_within(layout, (layout.prefix[scroll] + layout.body) as int, scroll);
    lemma_first_reaching(layout, layout.prefix[scroll] + physical + 1, scroll + 1, end);
    let row = layout.row_at_physical(physical, scroll)->0;
    if row > scroll {
        assert(layout.prefix[row] < layout.prefix[scroll] + physical + 1);
    }
}

proof fn lemma_best_scroll(layout: LayoutModel, row: int, wanted: int, n: nat)
    requires
        layout.wf(),
        0 <= row < layout.rows(),
        n <= row + 1,
    ensures
        match layout.best_scroll(row, wanted, n) {
            Some((deviation, scroll)) => {
                &&& 0 <= scroll < n
                &&& layout.shows(row, scroll)
                &&& deviation == distance(layout.prefix[row] - layout.prefix[scroll], wanted)
                &&& forall|s: int|
                    0 <= s < n && #[trigger] layout.shows(row, s) ==> deviation < distance(
                        layout.prefix[row] - layout.prefix[s],
                        wanted,
                    ) || (deviation == distance(layout.prefix[row] - layout.prefix[s], wanted)
                        && scroll <= s)
            },
            None => forall|s: int| 0 <= s < n ==> !#[trigger] layout.shows(row, s),
        },
    decreases n,
{
    reveal(LayoutModel::max_scroll);
    reveal(LayoutModel::scroll_to_show);
    reveal(LayoutModel::offset_within_window);
    if n > 0 {
        lemma_best_scroll(layout, row, wanted, (n - 1) as nat);
        lemma_prefix_monotonic(layout, n - 1, row);
    }
}

/// Preserving the offset of a row picks, among the scroll offsets within the limit that show the
/// row, the one that moves it least; of two that move it equally, the smaller.
pub proof fn lemma_preserve_offset_is_closest(
    layout: LayoutModel,
    selected: int,
    wanted: int,
    current: int,
    other: int,
)
    requires
        layout.wf(),
        0 <= selected < layout.rows(),
        layout.body > 0,
        0 <= other <= layout.max_scroll(),
        layout.shows(selected, other),
    ensures
        ({
            let scroll = layout.scroll_to_preserve_offset(selected, wanted, current);
            let moved = distance(layout.prefix[selected] - layout.prefix[scroll], wanted);
            let other_moved = distance(layout.prefix[selected] - layout.prefix[other], wanted);
            &&& 0 <= scroll <= layout.max_scroll()
            &&& layout.shows(selected, scroll)
            &&& moved < other_moved || (moved == other_moved && scroll <= other)
        }),
{
    reveal(LayoutModel::max_scroll);
    reveal(LayoutModel::scroll_to_preserve_offset);
    reveal(LayoutModel::scroll_to_show);
    reveal(LayoutModel::offset_within_window);
    lemma_max_scroll_is_a_row(layout);
    let n = (min_int(selected, layout.max_scroll()) + 1) as nat;
    lemma_best_scroll(layout, selected, wanted, n);
}

/// A row that can stay on its line stays there.
pub proof fn lemma_preserve_offset_keeps(
    layout: LayoutModel,
    selected: int,
    scroll: int,
    current: int,
)
    requires
        layout.wf(),
        0 <= selected < layout.rows(),
        layout.body > 0,
        0 <= scroll <= layout.max_scroll(),
        layout.shows(selected, scroll),
    ensures
        layout.scroll_to_preserve_offset(
            selected,
            layout.prefix[selected] - layout.prefix[scroll],
            current,
        ) == scroll,
{
    reveal(LayoutModel::max_scroll);
    reveal(LayoutModel::scroll_to_preserve_offset);
    reveal(LayoutModel::scroll_to_show);
    reveal(LayoutModel::offset_within_window);
    let wanted = layout.prefix[selected] - layout.prefix[scroll];
    lemma_preserve_offset_is_closest(layout, selected, wanted, current, scroll);
    let result = layout.scroll_to_preserve_offset(selected, wanted, current);
    lemma_max_scroll_is_a_row(layout);
    if result < scroll {
        lemma_prefix_monotonic(layout, result, scroll);
    }
}

/// The visible rows are rows of the list, and together they fit in the body.
pub proof fn lemma_visible_count(layout: LayoutModel, start: int)
    requires
        layout.wf(),
        0 <= start,
    ensures
        layout.visible_count_at(start) <= layout.rows(),
        start < layout.rows() ==> start + layout.visible_count_at(start) <= layout.rows(),
        layout.visible_count_at(start) > 0 ==> layout.offset(
            start + layout.visible_count_at(start),
        ) <= layout.offset(start) + layout.body,
{
    if start < layout.rows() {
        lemma_rows_within(layout, (layout.prefix[start] + layout.body) as int, start);
    }
}

} // verus!
