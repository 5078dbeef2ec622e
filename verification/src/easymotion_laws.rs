//! What a jump labels and where it leads, in terms of the text on the screen.

use vstd::prelude::*;
use vstd::string::*;
use crate::copy_mode::{CopyModeNotice, EasyMotionMatch, EASYMOTION_LABELS, EASYMOTION_MAX_MATCHES};
use crate::easymotion::{
    cells_before, cells_of, column, labelled, pair_at, pairs, same_char, uppercase, with_row_targets,
    WidthsModel,
};
use crate::easymotion_session::{match_index, targets_in_rows, CopyModeFollowUp};
use crate::input::{command_char, shifted, KeyCode, KeyModifiers, TerminalKey};
use crate::state::AppModel;
use crate::terminal::{RegistryModel, SnapshotModel, TextMatch};

verus! {

// ---------------------------------------------------------------------------
// Labels and columns
// ---------------------------------------------------------------------------

/// Every small letter but `q` is a label, and nothing else is; no letter is a label twice.
pub proof fn lemma_labels(c: char)
    ensures
        EASYMOTION_LABELS@.len() == 25,
        EASYMOTION_MAX_MATCHES == 25,
        'a' <= c <= 'z' && c != 'q' <==> exists|i: int|
            0 <= i < 25 && #[trigger] EASYMOTION_LABELS@[i] == c,
        forall|i: int, j: int|
            0 <= i < j < 25 ==> #[trigger] EASYMOTION_LABELS@[i]
                != #[trigger] EASYMOTION_LABELS@[j],
{
    reveal_strlit("asdfghjklwertyuiopzxcvbnm");
    let l = EASYMOTION_LABELS@;
    assert(l[0] == 'a' && l[1] == 's' && l[2] == 'd' && l[3] == 'f' && l[4] == 'g' && l[5] == 'h'
        && l[6] == 'j' && l[7] == 'k' && l[8] == 'l' && l[9] == 'w' && l[10] == 'e' && l[11] == 'r'
        && l[12] == 't' && l[13] == 'y' && l[14] == 'u' && l[15] == 'i' && l[16] == 'o' && l[17]
        == 'p' && l[18] == 'z' && l[19] == 'x' && l[20] == 'c' && l[21] == 'v' && l[22] == 'b'
        && l[23] == 'n' && l[24] == 'm');
    if 'a' <= c <= 'z' && c != 'q' {
        assert(c == 'a' || c == 'b' || c == 'c' || c == 'd' || c == 'e' || c == 'f' || c == 'g' || c
            == 'h' || c == 'i' || c == 'j' || c == 'k' || c == 'l' || c == 'm' || c == 'n' || c
            == 'o' || c == 'p' || c == 'r' || c == 's' || c == 't' || c == 'u' || c == 'v' || c
            == 'w' || c == 'x' || c == 'y' || c == 'z');
    }
}

/// A character has the width that is listed first for it, or the common one where none is listed.
pub proof fn lemma_width(widths: WidthsModel, ch: char, k: int, from: int)
    requires
        0 <= from <= k <= widths.listed.len(),
        forall|i: int| from <= i < k ==> (#[trigger] widths.listed[i]).ch != ch,
        k < widths.listed.len() ==> widths.listed[k].ch == ch,
    ensures
        widths.width_from(ch, from) == if k < widths.listed.len() {
            widths.listed[k].width
        } else {
            widths.otherwise
        },
    decreases k - from,
{
    if from < k {
        lemma_width(widths, ch, k, from + 1);
    }
}

/// The column of a character is the number of cells that the characters before it take, each as
/// wide as it is shown and one cell at least, up to the largest column.
pub proof fn lemma_column(text: Seq<char>, widths: WidthsModel, i: int)
    requires
        0 <= i < text.len(),
    ensures
        ({
            let cells = cells_of(text, widths);
            let width = widths.width_from(text[i], 0);
            let next = column(cells, i as nat) + if width == 0 {
                1int
            } else {
                width as int
            };
            &&& column(cells, 0) == 0
            &&& column(cells, (i + 1) as nat) == if next <= 65535 {
                next
            } else {
                65535
            }
        }),
{
    let cells = cells_of(text, widths);
    assert(cells_before(cells, 0) == 0);
    assert(cells_before(cells, (i + 1) as nat) == cells_before(cells, i as nat) + cells[i]);
    assert(cells[i] == widths.cells(text[i]));
}

// ---------------------------------------------------------------------------
// Targets
// ---------------------------------------------------------------------------

/// Whether the two characters stand in `text` at index `i`, whatever stands before and behind
/// them.
pub open spec fn both_at(
    text: Seq<char>,
    i: int,
    first: char,
    second: char,
    case_sensitive: bool,
) -> bool {
    &&& 0 <= i
    &&& i + 1 < text.len()
    &&& same_char(text[i], first, case_sensitive)
    &&& same_char(text[i + 1], second, case_sensitive)
}

/// Whether `at` lists from left to right the places in the first `n` characters of `text` where the
/// two characters stand: all of them, or the first `room` where there are more.
pub open spec fn lists_places(
    at: Seq<int>,
    text: Seq<char>,
    n: int,
    first: char,
    second: char,
    case_sensitive: bool,
    room: int,
) -> bool {
    &&& at.len() <= room
    &&& forall|k: int|
        0 <= k < at.len() ==> #[trigger] at[k] < n && both_at(
            text,
            at[k],
            first,
            second,
            case_sensitive,
        )
    &&& forall|j: int, k: int| 0 <= j < k < at.len() ==> at[j] < at[k]
    &&& forall|i: int|
        i < n && #[trigger] both_at(text, i, first, second, case_sensitive) ==> at.contains(i) || (
        at.len() == room && forall|k: int| 0 <= k < at.len() ==> #[trigger] at[k] < i)
}

proof fn lemma_places(
    targets: Seq<EasyMotionMatch>,
    text: Seq<char>,
    widths: WidthsModel,
    row: u16,
    first: char,
    second: char,
    case_sensitive: bool,
    n: nat,
) -> (at: Seq<int>)
    requires
        targets.len() <= 25,
        n <= text.len(),
    ensures
        lists_places(at, text, n as int, first, second, case_sensitive, 25 - targets.len()),
        ({
            let cells = cells_of(text, widths);
            let r = labelled(
                targets,
                pairs(text, first, second, case_sensitive),
                cells,
                row,
                n,
            );
            &&& r.len() == targets.len() + at.len()
            &&& forall|k: int| 0 <= k < targets.len() ==> #[trigger] r[k] == targets[k]
            &&& forall|k: int|
                targets.len() <= k < r.len() ==> {
                    &&& (#[trigger] r[k]).row == row
                    &&& r[k].col == column(cells, at[k - targets.len()] as nat)
                    &&& r[k].label == EASYMOTION_LABELS@[k]
                }
        }),
    decreases n,
{
    let cells = cells_of(text, widths);
    let hits = pairs(text, first, second, case_sensitive);
    let room = 25 - targets.len();
    if n == 0 {
        Seq::<int>::empty()
    } else {
        let m = (n - 1) as nat;
        let before = lemma_places(
            targets,
            text,
            widths,
            row,
            first,
            second,
            case_sensitive,
            m,
        );
        let old = labelled(targets, hits, cells, row, m);
        let r = labelled(targets, hits, cells, row, n);
        assert(hits[m as int] == pair_at(text, m as int, first, second, case_sensitive));
        assert(both_at(text, m as int, first, second, case_sensitive) == pair_at(
            text,
            m as int,
            first,
            second,
            case_sensitive,
        ));
        if hits[m as int] && old.len() < EASYMOTION_MAX_MATCHES {
            let at = before.push(m as int);
            assert forall|k: int| 0 <= k < at.len() implies #[trigger] at[k] < n && both_at(
                text,
                at[k],
                first,
                second,
                case_sensitive,
            ) by {
                if k < before.len() {
                    assert(before[k] < m);
                }
            }
            assert forall|i: int|
                i < n && #[trigger] both_at(
                    text,
                    i,
                    first,
                    second,
                    case_sensitive,
                ) implies at.contains(i) by {
                if i < m {
                    assert(before.contains(i));
                    let k = choose|k: int| 0 <= k < before.len() && before[k] == i;
                    assert(at[k] == i);
                } else {
                    assert(at[before.len() as int] == i);
                }
            }
            assert forall|k: int| targets.len() <= k < r.len() implies {
                &&& (#[trigger] r[k]).row == row
                &&& r[k].col == column(cells, at[k - targets.len()] as nat)
                &&& r[k].label == EASYMOTION_LABELS@[k]
            } by {
                if k < old.len() {
                    assert(r[k] == old[k]);
                }
            }
            assert forall|k: int| 0 <= k < targets.len() implies #[trigger] r[k] == targets[k] by {
                assert(r[k] == old[k]);
            }
            at
        } else {
            assert forall|i: int|
                i < n && #[trigger] both_at(
                    text,
                    i,
                    first,
                    second,
                    case_sensitive,
                ) implies before.contains(i) || (before.len() == room && forall|k: int|
                0 <= k < before.len() ==> #[trigger] before[k] < i) by {
                if i == m {
                    assert(before.len() == room);
                }
            }
            before
        }
    }
}

/// A row adds one target for each place where the two characters stand, from left to right, behind
/// the targets that are there, each with the next label and at the column of its place. Only where
/// the labels run out are places left over, and then the last ones of the row.
pub proof fn lemma_row_targets(
    targets: Seq<EasyMotionMatch>,
    text: Seq<char>,
    widths: WidthsModel,
    row: u16,
    first: char,
    second: char,
    case_sensitive: bool,
)
    requires
        targets.len() <= 25,
    ensures
        ({
            let cells = cells_of(text, widths);
            let r = with_row_targets(targets, text, widths, row, first, second, case_sensitive);
            exists|at: Seq<int>|
                {
                    &&& #[trigger] lists_places(
                        at,
                        text,
                        text.len() as int,
                        first,
                        second,
                        case_sensitive,
                        25 - targets.len(),
                    )
                    &&& r.len() == targets.len() + at.len()
                    &&& forall|k: int| 0 <= k < targets.len() ==> #[trigger] r[k] == targets[k]
                    &&& forall|k: int|
                        targets.len() <= k < r.len() ==> {
                            &&& (#[trigger] r[k]).row == row
                            &&& r[k].col == column(cells, at[k - targets.len()] as nat)
                            &&& r[k].label == EASYMOTION_LABELS@[k]
                        }
                }
        }),
{
    let at = lemma_places(
        targets,
        text,
        widths,
        row,
        first,
        second,
        case_sensitive,
        text.len(),
    );
    assert(lists_places(
        at,
        text,
        text.len() as int,
        first,
        second,
        case_sensitive,
        25 - targets.len(),
    ));
}

/// While labels are left, every place where the two characters stand has a target.
pub proof fn lemma_every_place_labelled(
    targets: Seq<EasyMotionMatch>,
    text: Seq<char>,
    widths: WidthsModel,
    row: u16,
    first: char,
    second: char,
    case_sensitive: bool,
    i: int,
)
    requires
        targets.len() <= 25,
        0 <= i,
        i + 1 < text.len(),
        same_char(text[i], first, case_sensitive),
        same_char(text[i + 1], second, case_sensitive),
    ensures
        ({
            let r = with_row_targets(targets, text, widths, row, first, second, case_sensitive);
            r.len() < 25 ==> exists|k: int|
                targets.len() <= k < r.len() && (#[trigger] r[k]).row == row && r[k].col == column(
                    cells_of(text, widths),
                    i as nat,
                )
        }),
{
    let r = with_row_targets(targets, text, widths, row, first, second, case_sensitive);
    let at = lemma_places(
        targets,
        text,
        widths,
        row,
        first,
        second,
        case_sensitive,
        text.len(),
    );
    assert(both_at(text, i, first, second, case_sensitive));
    if r.len() < 25 {
        assert(at.contains(i));
        let k = choose|k: int| 0 <= k < at.len() && at[k] == i;
        assert(r[targets.len() + k].row == row);
    }
}

/// Whether `targets` has a target in row `y` at the column of character `i` of `text`.
pub open spec fn has_target(
    targets: Seq<EasyMotionMatch>,
    text: Seq<char>,
    widths: WidthsModel,
    y: int,
    i: int,
) -> bool {
    exists|k: int|
        0 <= k < targets.len() && (#[trigger] targets[k]).row == y && targets[k].col == column(
            cells_of(text, widths),
            i as nat,
        )
}

/// Whether the two characters stand in row `y` at index `i`. Case counts where one of the two is
/// uppercase.
pub open spec fn both_in_row(
    rows: spec_fn(int) -> Option<Seq<char>>,
    y: int,
    i: int,
    first: char,
    second: char,
) -> bool {
    rows(y) is Some && both_at(rows(y)->0, i, first, second, uppercase(first) || uppercase(second))
}

/// Whether `target` stands in one of the first `n` rows where the two characters do.
pub open spec fn is_target_in(
    target: EasyMotionMatch,
    rows: spec_fn(int) -> Option<Seq<char>>,
    widths: WidthsModel,
    first: char,
    second: char,
    n: int,
) -> bool {
    target.row < n && exists|i: int|
        #[trigger] both_in_row(rows, target.row as int, i, first, second) && target.col == column(
            cells_of(rows(target.row as int)->0, widths),
            i as nat,
        )
}

proof fn lemma_rows_labelled(
    rows: spec_fn(int) -> Option<Seq<char>>,
    widths: WidthsModel,
    first: char,
    second: char,
    n: nat,
)
    requires
        n <= 65536,
    ensures
        ({
            let r = targets_in_rows(rows, widths, first, second, n);
            &&& r.len() <= 25
            &&& r.len() < 25 ==> forall|y: int, i: int|
                0 <= y < n && #[trigger] both_in_row(rows, y, i, first, second) ==> has_target(
                    r,
                    rows(y)->0,
                    widths,
                    y,
                    i,
                )
            &&& forall|k: int|
                0 <= k < r.len() ==> is_target_in(
                    #[trigger] r[k],
                    rows,
                    widths,
                    first,
                    second,
                    n as int,
                )
            &&& forall|j: int, k: int| 0 <= j < k < r.len() ==> r[j].row <= r[k].row
        }),
    decreases n,
{
    let case_sensitive = uppercase(first) || uppercase(second);
    let r = targets_in_rows(rows, widths, first, second, n);
    if n > 0 {
        let m = (n - 1) as nat;
        let before = targets_in_rows(rows, widths, first, second, m);
        lemma_rows_labelled(rows, widths, first, second, m);
        match rows(m as int) {
            Some(text) => {
                lemma_next_row_labelled(
                    before,
                    rows,
                    widths,
                    first,
                    second,
                    m,
                    text,
                    case_sensitive,
                    r,
                );
            },
            None => {
                assert forall|k: int| 0 <= k < r.len() implies is_target_in(
                    #[trigger] r[k],
                    rows,
                    widths,
                    first,
                    second,
                    n as int,
                ) by {
                    assert(is_target_in(before[k], rows, widths, first, second, m as int));
                }
            },
        }
    }
}

proof fn lemma_next_row_labelled(
    before: Seq<EasyMotionMatch>,
    rows: spec_fn(int) -> Option<Seq<char>>,
    widths: WidthsModel,
    first: char,
    second: char,
    m: nat,
    text: Seq<char>,
    case_sensitive: bool,
    r: Seq<EasyMotionMatch>,
)
    requires
        case_sensitive == (uppercase(first) || uppercase(second)),
        r == with_row_targets(before, text, widths, m as u16, first, second, case_sensitive),
        m < 65536,
        rows(m as int) == Some(text),
        before.len() <= 25,
        before.len() < 25 ==> forall|y: int, i: int|
            0 <= y < m && #[trigger] both_in_row(rows, y, i, first, second) ==> has_target(
                before,
                rows(y)->0,
                widths,
                y,
                i,
            ),
        forall|k: int|
            0 <= k < before.len() ==> is_target_in(
                #[trigger] before[k],
                rows,
                widths,
                first,
                second,
                m as int,
            ),
        forall|j: int, k: int| 0 <= j < k < before.len() ==> before[j].row <= before[k].row,
    ensures
        r.len() <= 25,
        r.len() < 25 ==> forall|y: int, i: int|
            0 <= y < m + 1 && #[trigger] both_in_row(rows, y, i, first, second) ==> has_target(
                r,
                rows(y)->0,
                widths,
                y,
                i,
            ),
        forall|k: int|
            0 <= k < r.len() ==> is_target_in(
                #[trigger] r[k],
                rows,
                widths,
                first,
                second,
                m as int + 1,
            ),
        forall|j: int, k: int| 0 <= j < k < r.len() ==> r[j].row <= r[k].row,
{
    let at = lemma_places(
        before,
        text,
        widths,
        m as u16,
        first,
        second,
        case_sensitive,
        text.len(),
    );
    if r.len() < 25 {
        assert forall|y: int, i: int|
            0 <= y < m + 1 && #[trigger] both_in_row(rows, y, i, first, second) implies has_target(
            r,
            rows(y)->0,
            widths,
            y,
            i,
        ) by {
            if y < m {
                assert(has_target(before, rows(y)->0, widths, y, i));
                let k = choose|k: int|
                    0 <= k < before.len() && (#[trigger] before[k]).row == y && before[k].col
                        == column(cells_of(rows(y)->0, widths), i as nat);
                assert(r[k] == before[k]);
            } else {
                assert(both_at(text, i, first, second, case_sensitive));
                assert(at.contains(i));
                let k = choose|k: int| 0 <= k < at.len() && at[k] == i;
                assert(r[before.len() + k].row == m);
            }
        }
    }
    assert forall|k: int| 0 <= k < r.len() implies is_target_in(
        #[trigger] r[k],
        rows,
        widths,
        first,
        second,
        m as int + 1,
    ) by {
        if k < before.len() {
            assert(r[k] == before[k]);
            assert(is_target_in(before[k], rows, widths, first, second, m as int));
        } else {
            let i = at[k - before.len()];
            assert(both_in_row(rows, m as int, i, first, second));
        }
    }
    assert forall|j: int, k: int| 0 <= j < k < r.len() implies r[j].row <= r[k].row by {
        if j < before.len() {
            assert(r[j] == before[j]);
            assert(is_target_in(before[j], rows, widths, first, second, m as int));
        }
        if k < before.len() {
            assert(r[k] == before[k]);
        }
    }
}

/// A jump labels every place on the screen where the two characters stand, unless there are more
/// than labels, and it labels nothing else; targets further up come first.
pub proof fn lemma_jump_labels_screen(
    s: AppModel,
    runtimes: RegistryModel,
    widths: WidthsModel,
    pair: (char, char),
    height: u16,
)
    ensures
        ({
            let rows = |row: int| s.copy_row(runtimes, row);
            let r = s.jump_targets(runtimes, widths, pair, height);
            &&& r.len() < 25 ==> forall|y: int, i: int|
                0 <= y < height && #[trigger] both_in_row(rows, y, i, pair.0, pair.1) ==> has_target(
                    r,
                    rows(y)->0,
                    widths,
                    y,
                    i,
                )
            &&& forall|k: int|
                0 <= k < r.len() ==> is_target_in(
                    #[trigger] r[k],
                    rows,
                    widths,
                    pair.0,
                    pair.1,
                    height as int,
                )
            &&& forall|j: int, k: int| 0 <= j < k < r.len() ==> r[j].row <= r[k].row
        }),
{
    reveal(AppModel::jump_targets);
    let rows = |row: int| s.copy_row(runtimes, row);
    lemma_rows_labelled(rows, widths, pair.0, pair.1, height as nat);
}

// ---------------------------------------------------------------------------
// Keys of a jump
// ---------------------------------------------------------------------------

proof fn lemma_rows_unchanged(s: AppModel, t: AppModel, runtimes: RegistryModel, row: int)
    requires
        s.copy_mode == t.copy_mode,
        s.fork.frozen == t.fork.frozen,
        s.active == t.active,
        s.workspaces == t.workspaces,
    ensures
        s.copy_row(runtimes, row) == t.copy_row(runtimes, row),
{
    reveal(AppModel::copy_rows);
    reveal(AppModel::live_rows);
}

/// The first character of a jump is the first of the pair that is looked for. It labels nothing.
pub proof fn lemma_first_char_typed(
    s: AppModel,
    runtimes: RegistryModel,
    widths: WidthsModel,
    a: char,
)
    requires
        s.copy_mode is Some,
        s.fork.easymotion is Some,
        s.fork.easymotion->0.first is None,
        s.fork.easymotion->0.second is None,
    ensures
        ({
            let (t, follow_up) = s.after_jump_char(runtimes, widths, a);
            &&& t.fork.easymotion is Some
            &&& t.fork.easymotion->0.first == Some(a)
            &&& t.fork.easymotion->0.second is None
            &&& t.fork.easymotion->0.labels == s.fork.easymotion->0.labels
            &&& follow_up == CopyModeFollowUp::Nothing
            &&& t.copy_mode == s.copy_mode
            &&& t.selection == s.selection
            &&& t.fork.frozen == s.fork.frozen
            &&& t.pane_infos == s.pane_infos
            &&& t.active == s.active
            &&& t.workspaces == s.workspaces
        }),
{
    reveal(AppModel::with_jump_char);
    reveal(AppModel::jump_rebuilt);
    reveal(AppModel::rebuild_follow_up);
}

/// With the second character the pair is complete, and the places on the screen are labelled. Case
/// counts where one of the two is uppercase.
pub proof fn lemma_second_char_typed(
    s: AppModel,
    runtimes: RegistryModel,
    widths: WidthsModel,
    b: char,
)
    requires
        s.copy_mode is Some,
        s.fork.easymotion is Some,
        s.fork.easymotion->0.first is Some,
        s.fork.easymotion->0.second is None,
        s.copy_pane_info() is Some,
    ensures
        ({
            let (t, follow_up) = s.after_jump_char(runtimes, widths, b);
            let a = s.fork.easymotion->0.first->0;
            &&& follow_up == CopyModeFollowUp::Nothing
            &&& t.fork.easymotion is Some
            &&& t.fork.easymotion->0.first == Some(a)
            &&& t.fork.easymotion->0.second == Some(b)
            &&& t.fork.easymotion->0.case_sensitive == (uppercase(a) || uppercase(b))
            &&& t.fork.easymotion->0.labels == s.jump_targets(
                runtimes,
                widths,
                (a, b),
                s.copy_pane_info()->0.inner_rect.height,
            )
            &&& t.copy_mode == s.copy_mode
            &&& t.selection == s.selection
            &&& t.fork.frozen == s.fork.frozen
        }),
{
    let a = s.fork.easymotion->0.first->0;
    let height = s.copy_pane_info()->0.inner_rect.height;
    let typed = s.with_jump_char(b);
    assert(typed.copy_mode == s.copy_mode && typed.fork.frozen == s.fork.frozen && typed.active
        == s.active && typed.workspaces == s.workspaces && typed.pane_infos == s.pane_infos
        && typed.selection == s.selection && typed.fork.easymotion is Some
        && typed.fork.easymotion->0.first == Some(a) && typed.fork.easymotion->0.second == Some(
        b,
    )) by {
        reveal(AppModel::with_jump_char);
    }
    assert(typed.jump_targets(runtimes, widths, (a, b), height) == s.jump_targets(
        runtimes,
        widths,
        (a, b),
        height,
    )) by {
        reveal(AppModel::jump_targets);
        let before = |row: int| s.copy_row(runtimes, row);
        let after = |row: int| typed.copy_row(runtimes, row);
        assert forall|row: int| #[trigger] before(row) == after(row) by {
            lemma_rows_unchanged(s, typed, runtimes, row);
        }
        assert(before =~= after);
    }
    assert(typed.copy_pane_info() == s.copy_pane_info());
    reveal(AppModel::jump_rebuilt);
    reveal(AppModel::rebuild_follow_up);
}

/// The escape key and `q` end a jump and leave the cursor where it is. Keys that type nothing
/// change nothing, and so does a character that is no label once the pair is complete.
pub proof fn lemma_jump_keys(
    s: AppModel,
    runtimes: RegistryModel,
    widths: WidthsModel,
    key: TerminalKey,
)
    requires
        s.copy_mode is Some,
        s.fork.easymotion is Some,
    ensures
        ({
            let (t, follow_up) = s.after_jump_key(runtimes, widths, key);
            let jump = s.fork.easymotion->0;
            &&& key.code == KeyCode::Esc || command_char(key) == Some('q') ==> t.fork.easymotion
                is None && t.copy_mode == s.copy_mode && t.selection == s.selection
                && t.fork.frozen == s.fork.frozen && follow_up == CopyModeFollowUp::Nothing
            &&& key.code != KeyCode::Esc && command_char(key) is None ==> t == s && follow_up
                == CopyModeFollowUp::Nothing
            &&& key.code != KeyCode::Esc && command_char(key) is Some && command_char(key)->0 != 'q'
                && jump.first is Some && jump.second is Some && (forall|i: int|
                0 <= i < jump.labels.len() ==> (#[trigger] jump.labels[i]).label != command_char(
                    key,
                )->0) ==> t == s && follow_up == CopyModeFollowUp::Nothing
        }),
{
    if command_char(key) is Some {
        let ch = command_char(key)->0;
        let jump = s.fork.easymotion->0;
        if forall|i: int| 0 <= i < jump.labels.len() ==> (#[trigger] jump.labels[i]).label != ch {
            lemma_no_target(jump.labels, ch, 0);
        }
    }
}

proof fn lemma_no_target(targets: Seq<EasyMotionMatch>, label: char, from: int)
    requires
        0 <= from,
        forall|i: int| 0 <= i < targets.len() ==> (#[trigger] targets[i]).label != label,
    ensures
        crate::easymotion_session::target_labelled(targets, label, from) is None,
    decreases targets.len() - from,
{
    if from < targets.len() {
        assert(targets[from].label != label);
        lemma_no_target(targets, label, from + 1);
    }
}

/// A key types its character. Shift makes small letters large; no other modifier may be held. A
/// character that the terminal reports for the key goes before its own.
pub proof fn lemma_typed_char(key: TerminalKey, c: char)
    ensures
        key.modifiers.control || key.modifiers.alt || key.modifiers.super_key
            || key.modifiers.hyper || key.modifiers.meta ==> command_char(key) is None,
        key.code == KeyCode::Char(c) && key.shifted_codepoint is None && !key.modifiers.shift
            && !key.modifiers.control && !key.modifiers.alt && !key.modifiers.super_key
            && !key.modifiers.hyper && !key.modifiers.meta ==> command_char(key) == Some(c),
        key.code == KeyCode::Char(c) && key.shifted_codepoint is None && key.modifiers.shift
            && !key.modifiers.control && !key.modifiers.alt && !key.modifiers.super_key
            && !key.modifiers.hyper && !key.modifiers.meta && 'a' <= c <= 'z' ==> command_char(
            key,
        ) == Some(((c as u32 - 32) as u32) as char),
        key.shifted_codepoint == Some(c as u32) && !key.modifiers.control && !key.modifiers.alt
            && !key.modifiers.super_key && !key.modifiers.hyper && !key.modifiers.meta
            ==> command_char(key) == Some(c),
{
    assert(key.modifiers.control || key.modifiers.alt || key.modifiers.super_key
        || key.modifiers.hyper || key.modifiers.meta ==> (KeyModifiers {
        shift: false,
        ..key.modifiers
    }) != crate::input::no_modifiers());
}

/// The characters of the unshifted keys of a US keyboard other than letters.
pub open spec fn plain_row() -> Seq<char> {
    seq![
        '`', '1', '2', '3', '4', '5', '6', '7', '8', '9', '0', '-', '=', '[', ']', '\\', ';', '\'',
        ',', '.', '/',
    ]
}

/// The characters of the same keys with shift.
pub open spec fn shifted_row() -> Seq<char> {
    seq![
        '~', '!', '@', '#', '$', '%', '^', '&', '*', '(', ')', '_', '+', '{', '}', '|', ':', '"',
        '<', '>', '?',
    ]
}

/// Shift turns each key of a US keyboard into the character above it, letters into large ones, and
/// leaves all other characters alone.
pub proof fn lemma_shifted(c: char)
    ensures
        forall|i: int|
            0 <= i < plain_row().len() ==> shifted(#[trigger] plain_row()[i]) == Some(
                shifted_row()[i],
            ),
        'a' <= c <= 'z' ==> shifted(c) == Some(((c as u32 - 32) as u32) as char),
        !('a' <= c <= 'z') && !plain_row().contains(c) ==> shifted(c) is None,
{
    let p = plain_row();
    if !plain_row().contains(c) {
        assert(p[0] != c && p[1] != c && p[2] != c && p[3] != c && p[4] != c && p[5] != c && p[6]
            != c && p[7] != c && p[8] != c && p[9] != c && p[10] != c && p[11] != c && p[12] != c
            && p[13] != c && p[14] != c && p[15] != c && p[16] != c && p[17] != c && p[18] != c
            && p[19] != c && p[20] != c);
    }
}

// ---------------------------------------------------------------------------
// Starting a jump
// ---------------------------------------------------------------------------

/// Whether a cell lies in the captured rows.
pub open spec fn cell_in_view(cells: SnapshotModel, row: int, col: int) -> bool {
    cells.first_row <= row < cells.first_row + cells.rows.len() && col < cells.width
}

/// A jump that starts on captured cells freezes them for the pane of copy mode, knows no character
/// yet and has no target. It keeps the cursor, and drops the selection exactly where that is of
/// another pane or starts outside of the cells.
pub proof fn lemma_jump_starts(
    s: AppModel,
    runtimes: RegistryModel,
    cells: SnapshotModel,
    matches: Seq<TextMatch>,
)
    requires
        s.copy_mode is Some,
        s.fork.frozen is None,
        s.capture_request(runtimes) is Some,
    ensures
        ({
            let t = s.jump_begun(runtimes, Some(cells), matches);
            let pane_id = s.copy_mode->0.pane_id;
            let kept = s.selection is None || (s.selection->0.pane_id == pane_id && cell_in_view(
                cells,
                s.selection->0.anchor.row as int,
                s.selection->0.anchor.col as int,
            ));
            &&& t.fork.frozen is Some
            &&& t.fork.frozen->0.pane_id == pane_id
            &&& t.fork.frozen->0.cells == cells
            &&& t.fork.easymotion is Some
            &&& t.fork.easymotion->0.first is None
            &&& t.fork.easymotion->0.second is None
            &&& t.fork.easymotion->0.labels.len() == 0
            &&& kept ==> t.selection == s.selection
            &&& !kept ==> t.selection is None && t.fork.notice == Some(
                CopyModeNotice::SelectionOutsideSnapshot,
            )
            &&& t.copy_mode is Some
            &&& t.copy_mode->0.pane_id == pane_id
            &&& t.copy_mode->0.cursor_row == s.copy_mode->0.cursor_row
            &&& t.copy_mode->0.cursor_col == s.copy_mode->0.cursor_col
            &&& t.copy_mode->0.search.query == s.copy_mode->0.search.query
            &&& s.copy_mode->0.search.query.len() > 0 ==> t.copy_mode->0.search.matches == matches
            &&& s.copy_mode->0.search.query.len() == 0 ==> t.copy_mode->0.search
                == s.copy_mode->0.search
        }),
{
}

/// A capture is asked for exactly where copy mode has a pane on the screen with a terminal and no
/// view is frozen. Where it fails, no jump starts, nothing is frozen, and a notice tells so.
pub proof fn lemma_capture_fails(s: AppModel, runtimes: RegistryModel, matches: Seq<TextMatch>)
    requires
        s.copy_mode is Some,
        s.fork.frozen is None,
        s.copy_pane_info() is Some,
    ensures
        ({
            let t = s.jump_begun(runtimes, None, matches);
            let info = s.copy_pane_info()->0;
            let wanted = s.capture_request(runtimes);
            &&& t.fork.easymotion is None
            &&& t.fork.frozen is None
            &&& t.fork.notice == Some(CopyModeNotice::SnapshotFailed)
            &&& t.copy_mode == s.copy_mode
            &&& t.selection == s.selection
            &&& wanted is Some <==> s.live_rows(runtimes, s.copy_mode->0.pane_id) is Some
            &&& wanted is Some ==> wanted->0.pane_id == s.copy_mode->0.pane_id && wanted->0.width
                == info.inner_rect.width && wanted->0.height == info.inner_rect.height
        }),
{
}

proof fn lemma_match_index(matches: Seq<TextMatch>, wanted: TextMatch, from: int)
    requires
        0 <= from,
        matches.len() <= usize::MAX,
    ensures
        match match_index(matches, wanted, from) {
            Some(i) => from <= i < matches.len() && matches[i as int] == wanted,
            None => forall|i: int| from <= i < matches.len() ==> #[trigger] matches[i] != wanted,
        },
    decreases matches.len() - from,
{
    if from < matches.len() && matches[from] != wanted {
        lemma_match_index(matches, wanted, from + 1);
    }
}

/// Where a search is repeated, the match that was current stays so where it is found again, and
/// else none is.
pub proof fn lemma_current_match_kept(
    search: crate::copy_mode::CopySearchModel,
    matches: Seq<TextMatch>,
)
    requires
        search.query.len() > 0,
        matches.len() <= usize::MAX,
    ensures
        ({
            let t = search.repeated(matches);
            let known = search.current is Some && search.current->0 < search.matches.len();
            let wanted = search.matches[search.current->0 as int];
            &&& t.matches == matches
            &&& t.query == search.query
            &&& known && matches.contains(wanted) ==> t.current is Some && t.current->0
                < matches.len() && matches[t.current->0 as int] == wanted
            &&& !known || !matches.contains(wanted) ==> t.current is None
        }),
{
    if search.current is Some && search.current->0 < search.matches.len() {
        let wanted = search.matches[search.current->0 as int];
        lemma_match_index(matches, wanted, 0);
        if matches.contains(wanted) {
            let i = choose|i: int| 0 <= i < matches.len() && matches[i] == wanted;
            assert(matches[i] == wanted);
        }
    }
}

/// A search is repeated with its own query, with regard to case exactly where one of its
/// characters is uppercase.
pub proof fn lemma_search_request(search: crate::copy_mode::CopySearchModel)
    ensures
        search.query.len() == 0 <==> search.request() is None,
        search.request() is Some ==> search.request()->0.query == search.query,
        search.request() is Some ==> (search.request()->0.case_sensitive <==> exists|i: int|
            0 <= i < search.query.len() && #[trigger] uppercase(search.query[i])),
{
}

} // verus!
