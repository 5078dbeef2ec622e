//! Jumps to a pair of characters in copy mode.

use vstd::prelude::*;
use vstd::string::*;
use crate::copy_mode::{
    EasyMotionMatch, EasyMotionModel, EasyMotionState, EASYMOTION_LABELS, EASYMOTION_MAX_MATCHES,
};
use crate::text::{ascii_lowercase, chars_of, same_chars};

verus! {

// ---------------------------------------------------------------------------
// Characters
// ---------------------------------------------------------------------------

/// Whether `c` is an uppercase letter, as Unicode has it.
pub uninterp spec fn uppercase(c: char) -> bool;

/// The lowercase form of `c`, as Unicode has it.
pub uninterp spec fn lowercase_form(c: char) -> Seq<char>;

/// Calls `char::is_uppercase` of the standard library, which tells whether a character has the
/// Unicode property `Uppercase`. The contract says that the result depends on the character alone.
#[verifier::external_body]
pub(crate) fn is_uppercase(c: char) -> (b: bool)
    ensures
        b == uppercase(c),
{
    c.is_uppercase()
}

/// Calls `char::to_lowercase` of the standard library, which maps a character to one or more
/// characters. The contract says that the result depends on the character alone, and that a large
/// letter of ASCII becomes the small one while other ASCII characters stay as they are.
#[verifier::external_body]
fn lowercase_form_of(c: char) -> (r: Vec<char>)
    ensures
        r@ == lowercase_form(c),
        c <= '\u{7f}' ==> r@ == seq![ascii_lowercase(c)],
{
    c.to_lowercase().collect()
}

/// The lowercase form of `c`.
pub open spec fn lowered_form(c: char) -> Seq<char> {
    if c <= '\u{7f}' {
        seq![ascii_lowercase(c)]
    } else {
        lowercase_form(c)
    }
}

/// The width of one character.
#[derive(Debug, Clone, Copy, PartialEq, Eq, Structural)]
pub struct CodepointWidth {
    pub ch: char,
    pub width: u8,
}

/// The widths of characters in the terminal: those listed, and one for all others.
#[derive(Debug)]
pub struct CodepointWidths {
    pub listed: Vec<CodepointWidth>,
    pub otherwise: u8,
}

/// The view of [`CodepointWidths`].
pub struct WidthsModel {
    pub listed: Seq<CodepointWidth>,
    pub otherwise: u8,
}

impl View for CodepointWidths {
    type V = WidthsModel;

    open spec fn view(&self) -> WidthsModel {
        WidthsModel { listed: self.listed@, otherwise: self.otherwise }
    }
}

impl WidthsModel {
    /// The width of `ch`, where the list is read from index `from` on.
    pub open spec fn width_from(self, ch: char, from: int) -> u8
        decreases self.listed.len() - from,
    {
        if from < 0 || from >= self.listed.len() {
            self.otherwise
        } else if self.listed[from].ch == ch {
            self.listed[from].width
        } else {
            self.width_from(ch, from + 1)
        }
    }

    /// The number of cells that `ch` takes: at least one.
    pub open spec fn cells(self, ch: char) -> u16 {
        let width = self.width_from(ch, 0);
        if width == 0 {
            1
        } else {
            width as u16
        }
    }
}

impl CodepointWidths {
    /// The width of `ch`.
    pub fn width(&self, ch: char) -> (r: u8)
        ensures
            r == self@.width_from(ch, 0),
    {
        let mut i: usize = 0;
        while i < self.listed.len()
            invariant
                i <= self.listed@.len(),
                self@.width_from(ch, 0) == self@.width_from(ch, i as int),
            decreases self.listed@.len() - i,
        {
            if self.listed[i].ch == ch {
                return self.listed[i].width;
            }
            i += 1;
        }
        self.otherwise
    }
}

/// The number of cells that `ch` takes: at least one.
pub fn char_cell_width(widths: &CodepointWidths, ch: char) -> (r: u16)
    ensures
        r == widths@.cells(ch),
{
    let width: u8 = widths.width(ch);
    if width == 0 {
        1
    } else {
        width as u16
    }
}

/// The label with index `index`.
pub fn easymotion_label_at(index: usize) -> (r: Option<char>)
    ensures
        r == (if index < EASYMOTION_MAX_MATCHES {
            Some(EASYMOTION_LABELS@[index as int])
        } else {
            None
        }),
{
    if index >= EASYMOTION_MAX_MATCHES {
        return None;
    }
    proof {
        reveal_strlit("asdfghjklwertyuiopzxcvbnm");
    }
    Some(EASYMOTION_LABELS.get_char(index))
}

/// Tests whether a query is taken with regard to case: where one of its characters is uppercase.
pub fn easymotion_query_is_case_sensitive(first: char, second: char) -> (b: bool)
    ensures
        b == (uppercase(first) || uppercase(second)),
{
    is_uppercase(first) || is_uppercase(second)
}

/// Whether `actual` is the character `target`, with or without regard to case.
pub open spec fn same_char(actual: char, target: char, case_sensitive: bool) -> bool {
    if case_sensitive {
        actual == target
    } else {
        lowered_form(actual) == lowered_form(target)
    }
}

/// Tests whether `actual` is the character `target`, with or without regard to case.
pub fn easymotion_chars_equal(actual: char, target: char, case_sensitive: bool) -> (b: bool)
    ensures
        b == same_char(actual, target, case_sensitive),
{
    if case_sensitive {
        actual == target
    } else {
        same_chars(&lowercase_form_of(actual), &lowercase_form_of(target))
    }
}

/// With regard to case, two characters are the same exactly where they are equal. Without it, the
/// relation is an equivalence, and characters that are the same with regard to case still are.
pub proof fn lemma_same_char(a: char, b: char, c: char)
    ensures
        same_char(a, b, true) <==> a == b,
        same_char(a, a, false),
        same_char(a, b, false) == same_char(b, a, false),
        same_char(a, b, false) && same_char(b, c, false) ==> same_char(a, c, false),
        same_char(a, b, true) ==> same_char(a, b, false),
{
}

/// ASCII characters are the same without regard to case exactly where they are written alike in
/// small letters. So a large letter and its small one are the same, but not with regard to case.
pub proof fn lemma_same_ascii_char(a: char, b: char)
    requires
        a <= '\u{7f}',
        b <= '\u{7f}',
    ensures
        same_char(a, b, false) <==> ascii_lowercase(a) == ascii_lowercase(b),
        'A' <= a <= 'Z' ==> same_char(a, ascii_lowercase(a), false) && !same_char(
            a,
            ascii_lowercase(a),
            true,
        ),
{
    assert(seq![ascii_lowercase(a)][0] == ascii_lowercase(a));
    assert(seq![ascii_lowercase(b)][0] == ascii_lowercase(b));
}

// ---------------------------------------------------------------------------
// Targets
// ---------------------------------------------------------------------------

/// Whether the pair of characters stands at index `i` of `text`.
pub open spec fn pair_at(
    text: Seq<char>,
    i: int,
    first: char,
    second: char,
    case_sensitive: bool,
) -> bool {
    &&& 0 <= i
    &&& i + 1 < text.len()
    &&& same_char(text[i], first, case_sensitive)
    &&& same_char(text[i + 1], second, case_sensitive)
}

/// For each index of `text` whether the pair of characters stands there.
pub open spec fn pairs(
    text: Seq<char>,
    first: char,
    second: char,
    case_sensitive: bool,
) -> Seq<bool> {
    Seq::new(text.len(), |i: int| pair_at(text, i, first, second, case_sensitive))
}

/// The number of cells that the first `n` characters take together.
pub open spec fn cells_before(cells: Seq<u16>, n: nat) -> nat
    decreases n,
{
    if n == 0 {
        0
    } else {
        cells_before(cells, (n - 1) as nat) + cells[n - 1] as nat
    }
}

/// The column of the character with index `n`.
pub open spec fn column(cells: Seq<u16>, n: nat) -> u16 {
    if cells_before(cells, n) > u16::MAX {
        u16::MAX
    } else {
        cells_before(cells, n) as u16
    }
}

/// The target with the label number `k` at the character with index `n` of row `row`.
pub open spec fn target_at(k: nat, cells: Seq<u16>, row: u16, n: nat) -> EasyMotionMatch {
    EasyMotionMatch { label: EASYMOTION_LABELS@[k as int], row, col: column(cells, n) }
}

/// `targets` with those among the first `n` characters of row `row` behind them: every index
/// where `hits` holds, as long as there are labels left.
pub open spec fn labelled(
    targets: Seq<EasyMotionMatch>,
    hits: Seq<bool>,
    cells: Seq<u16>,
    row: u16,
    n: nat,
) -> Seq<EasyMotionMatch>
    decreases n,
{
    if n == 0 {
        targets
    } else {
        let before = labelled(targets, hits, cells, row, (n - 1) as nat);
        if hits[n - 1] && before.len() < EASYMOTION_MAX_MATCHES {
            before.push(target_at(before.len(), cells, row, (n - 1) as nat))
        } else {
            before
        }
    }
}

/// The cells that the characters of `text` take.
pub open spec fn cells_of(text: Seq<char>, widths: WidthsModel) -> Seq<u16> {
    Seq::new(text.len(), |i: int| widths.cells(text[i]))
}

/// `targets` with those of one row behind them.
pub open spec fn with_row_targets(
    targets: Seq<EasyMotionMatch>,
    text: Seq<char>,
    widths: WidthsModel,
    row: u16,
    first: char,
    second: char,
    case_sensitive: bool,
) -> Seq<EasyMotionMatch> {
    labelled(
        targets,
        pairs(text, first, second, case_sensitive),
        cells_of(text, widths),
        row,
        text.len(),
    )
}

/// Where no label is left, no target is added.
pub proof fn lemma_labels_used_up(
    targets: Seq<EasyMotionMatch>,
    hits: Seq<bool>,
    cells: Seq<u16>,
    row: u16,
    n: nat,
)
    requires
        targets.len() >= EASYMOTION_MAX_MATCHES,
    ensures
        labelled(targets, hits, cells, row, n) == targets,
    decreases n,
{
    if n > 0 {
        lemma_labels_used_up(targets, hits, cells, row, (n - 1) as nat);
    }
}

/// Whether every target has the label that belongs to its place in the list.
pub open spec fn labelled_in_order(targets: Seq<EasyMotionMatch>) -> bool {
    &&& targets.len() <= EASYMOTION_MAX_MATCHES
    &&& forall|i: int|
        0 <= i < targets.len() ==> (#[trigger] targets[i]).label == EASYMOTION_LABELS@[i]
}

proof fn lemma_labelled_step(
    targets: Seq<EasyMotionMatch>,
    hits: Seq<bool>,
    cells: Seq<u16>,
    row: u16,
    m: nat,
)
    ensures
        ({
            let before = labelled(targets, hits, cells, row, m);
            let r = labelled(targets, hits, cells, row, m + 1);
            if hits[m as int] && before.len() < EASYMOTION_MAX_MATCHES {
                &&& r.len() == before.len() + 1
                &&& r.drop_last() == before
                &&& r.last().label == EASYMOTION_LABELS@[before.len() as int]
                &&& r.last().row == row
                &&& r.last().col == column(cells, m)
            } else {
                r == before
            }
        }),
{
    let before = labelled(targets, hits, cells, row, m);
    let r = labelled(targets, hits, cells, row, m + 1);
    if hits[m as int] && before.len() < EASYMOTION_MAX_MATCHES {
        assert(r.drop_last() =~= before);
    }
}

/// The targets of a row come behind those that are there, with the next labels in order, and there
/// are never more targets than labels.
pub proof fn lemma_labelled(
    targets: Seq<EasyMotionMatch>,
    hits: Seq<bool>,
    cells: Seq<u16>,
    row: u16,
    n: nat,
)
    requires
        labelled_in_order(targets),
        n <= hits.len(),
    ensures
        ({
            let r = labelled(targets, hits, cells, row, n);
            &&& labelled_in_order(r)
            &&& targets.len() <= r.len()
            &&& r.take(targets.len() as int) == targets
            &&& forall|i: int|
                targets.len() <= i < r.len() ==> (#[trigger] r[i]).row == row && is_hit(
                    hits,
                    cells,
                    n,
                    r[i].col,
                )
        }),
    decreases n,
{
    if n == 0 {
        assert(targets.take(targets.len() as int) =~= targets);
    } else {
        let m = (n - 1) as nat;
        lemma_labelled(targets, hits, cells, row, m);
        let before = labelled(targets, hits, cells, row, m);
        let r = labelled(targets, hits, cells, row, n);
        lemma_labelled_step(targets, hits, cells, row, m);
        if r != before {
            assert(r =~= before.push(r.last()));
        }
        assert(r.take(targets.len() as int) =~= before.take(targets.len() as int));
        assert forall|i: int| targets.len() <= i < r.len() implies (#[trigger] r[i]).row == row
            && is_hit(hits, cells, n, r[i].col) by {
            if i < before.len() {
                assert(r[i] == before[i]);
                assert(is_hit(hits, cells, m, before[i].col));
                let k = choose|k: int|
                    0 <= k < m && #[trigger] hits[k] && column(cells, k as nat) == before[i].col;
                assert(hits[k]);
            } else {
                assert(hits[n - 1]);
            }
        }
    }
}

/// Whether `col` is the column of one of the first `n` characters, at which `hits` holds.
pub open spec fn is_hit(hits: Seq<bool>, cells: Seq<u16>, n: nat, col: u16) -> bool {
    exists|k: int| 0 <= k < n && #[trigger] hits[k] && column(cells, k as nat) == col
}

/// The labels of targets are all different, and none of them is `q`.
pub proof fn lemma_labels_distinct(targets: Seq<EasyMotionMatch>)
    requires
        labelled_in_order(targets),
    ensures
        forall|i: int, j: int|
            0 <= i < j < targets.len() ==> #[trigger] targets[i].label
                != #[trigger] targets[j].label,
        forall|i: int| 0 <= i < targets.len() ==> (#[trigger] targets[i]).label != 'q',
{
    reveal_strlit("asdfghjklwertyuiopzxcvbnm");
}

/// Adds the targets of row `row` behind `targets`: every index where `hits` holds, as long as there
/// are labels left.
pub fn append_labelled_hits(
    targets: &mut Vec<EasyMotionMatch>,
    hits: &Vec<bool>,
    cells: &Vec<u16>,
    row: u16,
)
    requires
        hits@.len() == cells@.len(),
    ensures
        final(targets)@ == labelled(old(targets)@, hits@, cells@, row, hits@.len()),
{
    let ghost before = targets@;
    let mut col: u16 = 0;
    let mut i: usize = 0;
    while i < hits.len()
        invariant
            i <= hits@.len(),
            hits@.len() == cells@.len(),
            targets@ == labelled(before, hits@, cells@, row, i as nat),
            col == column(cells@, i as nat),
        decreases hits@.len() - i,
    {
        if hits[i] {
            let index: usize = targets.len();
            if let Some(label) = easymotion_label_at(index) {
                targets.push(EasyMotionMatch { label, row, col });
            }
        }
        col = col.saturating_add(cells[i]);
        i += 1;
    }
}

/// Adds the targets of the row `row` with the text `text`.
pub fn append_easymotion_row_matches(
    text: &str,
    widths: &CodepointWidths,
    row: u16,
    first: char,
    second: char,
    easymotion: &mut EasyMotionState,
)
    ensures
        final(easymotion)@ == (EasyMotionModel {
            labels: with_row_targets(
                old(easymotion)@.labels,
                text@,
                widths@,
                row,
                first,
                second,
                old(easymotion)@.case_sensitive,
            ),
            ..old(easymotion)@
        }),
{
    let case_sensitive = easymotion.case_sensitive;
    let chars = chars_of(text);
    let mut hits: Vec<bool> = Vec::new();
    let mut cells: Vec<u16> = Vec::new();
    let mut i: usize = 0;
    while i < chars.len()
        invariant
            i <= chars@.len(),
            chars@ == text@,
            hits@.len() == i,
            cells@.len() == i,
            forall|k: int|
                0 <= k < i ==> #[trigger] hits@[k] == pair_at(
                    text@,
                    k,
                    first,
                    second,
                    case_sensitive,
                ),
            forall|k: int| 0 <= k < i ==> #[trigger] cells@[k] == widths@.cells(text@[k]),
        decreases chars@.len() - i,
    {
        let hit = i + 1 < chars.len() && easymotion_chars_equal(chars[i], first, case_sensitive)
            && easymotion_chars_equal(chars[i + 1], second, case_sensitive);
        hits.push(hit);
        cells.push(char_cell_width(widths, chars[i]));
        i += 1;
    }
    proof {
        assert(hits@ =~= pairs(text@, first, second, case_sensitive));
        assert(cells@ =~= cells_of(text@, widths@));
    }
    append_labelled_hits(&mut easymotion.labels, &hits, &cells, row);
}

} // verus!
