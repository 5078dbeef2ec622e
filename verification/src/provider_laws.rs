//! What the provider's output and a directory's entries become, in terms of their characters.

use vstd::prelude::*;
use crate::provider::{
    arranged_preview, first_space, lemma_arranged_preview, line_fields, lines_fields, output_lines,
    resolved_candidates, scored_lines, text_lt, DirectoryPreviewEntry, EntryModel, ZoxideLineModel,
    ZoxideDirectoryModel,
};
use crate::sorting::{lemma_sorted_permutation, stably_sorted, Ordered};
use crate::text::{fields, is_whitespace, lemma_fields_parted};
use crate::text_laws::{lemma_one_field, lemma_start_trimmed, lemma_trimmed};

verus! {

// ---------------------------------------------------------------------------
// Lines
// ---------------------------------------------------------------------------

proof fn lemma_lines_fields_joined(a: Seq<Seq<char>>, b: Seq<Seq<char>>)
    ensures
        lines_fields(a + b) == lines_fields(a) + lines_fields(b),
    decreases b.len(),
{
    if b.len() == 0 {
        assert(a + b =~= a);
        assert(lines_fields(a) + lines_fields(b) =~= lines_fields(a));
    } else {
        lemma_lines_fields_joined(a, b.drop_last());
        assert((a + b).drop_last() =~= a + b.drop_last());
        assert(lines_fields(a + b) =~= lines_fields(a) + lines_fields(b));
    }
}

/// A line end parts the lines before it from the lines behind it, and none is lost.
pub proof fn lemma_output_parted(front: Seq<char>, back: Seq<char>)
    ensures
        output_lines(front.push('\n') + back) == output_lines(front) + output_lines(back),
{
    let separator = |c: char| c == '\n';
    lemma_fields_parted(front, '\n', back, separator);
    lemma_lines_fields_joined(fields(front, separator), fields(back, separator));
}

proof fn lemma_first_space(word: Seq<char>, back: Seq<char>)
    requires
        forall|i: int| 0 <= i < word.len() ==> !is_whitespace(#[trigger] word[i]),
        back.len() == 0 || is_whitespace(back[0]),
    ensures
        first_space(word + back) == word.len(),
    decreases word.len(),
{
    let whole = word + back;
    if word.len() == 0 {
        assert(whole =~= back);
    } else {
        assert(whole[0] == word[0]);
        assert(whole.drop_first() =~= word.drop_first() + back);
        lemma_first_space(word.drop_first(), back);
    }
}

proof fn lemma_one_line(line: Seq<char>)
    requires
        forall|i: int| 0 <= i < line.len() ==> #[trigger] line[i] != '\n',
    ensures
        output_lines(line) == match line_fields(line) {
            Some(fields) => seq![fields],
            None => Seq::<ZoxideLineModel>::empty(),
        },
{
    lemma_one_field(line, |c: char| c == '\n');
    let none = Seq::<Seq<char>>::empty();
    assert(seq![line].drop_last() =~= none);
    assert(lines_fields(none) == Seq::<ZoxideLineModel>::empty());
    assert(seq![line].last() == line);
    match line_fields(line) {
        Some(fields) => {
            assert(Seq::<ZoxideLineModel>::empty().push(fields) =~= seq![fields]);
        },
        None => {},
    }
}

/// A line of a score, white space and a path gives just these two, with any white space around
/// them. The path may hold white space itself.
pub proof fn lemma_well_formed_line(
    front: Seq<char>,
    score: Seq<char>,
    gap: Seq<char>,
    path: Seq<char>,
    back: Seq<char>,
)
    requires
        forall|i: int| 0 <= i < front.len() ==> is_whitespace(#[trigger] front[i]),
        score.len() > 0,
        forall|i: int| 0 <= i < score.len() ==> !is_whitespace(#[trigger] score[i]),
        gap.len() > 0,
        forall|i: int| 0 <= i < gap.len() ==> is_whitespace(#[trigger] gap[i]),
        path.len() > 0,
        !is_whitespace(path[0]),
        !is_whitespace(path.last()),
        forall|i: int| 0 <= i < back.len() ==> is_whitespace(#[trigger] back[i]),
        forall|i: int|
            0 <= i < (front + score + gap + path + back).len() ==> #[trigger] (front + score + gap
                + path + back)[i] != '\n',
    ensures
        output_lines(front + score + gap + path + back) == seq![ZoxideLineModel { score, path }],
{
    let line = front + score + gap + path + back;
    let body = score + gap + path;
    assert(line =~= front + body + back);
    assert(body[0] == score[0]);
    assert(body.last() == path.last());
    lemma_trimmed(front, body, back);
    assert(body =~= score + (gap + path));
    assert((gap + path)[0] == gap[0]);
    lemma_first_space(score, gap + path);
    let n = score.len() as int;
    let rest = gap.drop_first();
    assert(body.take(n) =~= score);
    assert(body.skip(n + 1) =~= rest + path);
    assert forall|i: int| 0 <= i < rest.len() implies is_whitespace(#[trigger] rest[i]) by {
        assert(is_whitespace(gap[i + 1]));
    }
    lemma_start_trimmed(rest, path);
    lemma_one_line(line);
}

/// A line of one word, or of none, gives nothing.
pub proof fn lemma_malformed_line(front: Seq<char>, word: Seq<char>, back: Seq<char>)
    requires
        forall|i: int| 0 <= i < front.len() ==> is_whitespace(#[trigger] front[i]),
        forall|i: int| 0 <= i < word.len() ==> !is_whitespace(#[trigger] word[i]),
        forall|i: int| 0 <= i < back.len() ==> is_whitespace(#[trigger] back[i]),
        forall|i: int|
            0 <= i < (front + word + back).len() ==> #[trigger] (front + word + back)[i] != '\n',
    ensures
        output_lines(front + word + back) == Seq::<ZoxideLineModel>::empty(),
{
    let none = Seq::<char>::empty();
    lemma_trimmed(front, word, back);
    lemma_first_space(word, none);
    assert(word + none =~= word);
    lemma_one_line(front + word + back);
}

/// Whether `at` lists from left to right the lines that have a score.
pub open spec fn lists_scored(at: Seq<int>, scores: Seq<Option<u64>>, n: int) -> bool {
    &&& forall|k: int|
        0 <= k < at.len() ==> 0 <= #[trigger] at[k] < n && at[k] < scores.len()
            && scores[at[k]] is Some
    &&& forall|j: int, k: int| 0 <= j < k < at.len() ==> at[j] < at[k]
    &&& forall|i: int|
        0 <= i < n && i < scores.len() && (#[trigger] scores[i]) is Some ==> at.contains(i)
}

proof fn lemma_scored(
    lines: Seq<ZoxideLineModel>,
    scores: Seq<Option<u64>>,
    n: nat,
) -> (at: Seq<int>)
    requires
        n <= lines.len(),
    ensures
        lists_scored(at, scores, n as int),
        at.len() == scored_lines(lines, scores, n).len(),
        forall|k: int|
            0 <= k < at.len() ==> #[trigger] scored_lines(lines, scores, n)[k] == (
            ZoxideDirectoryModel { shown_path: lines[at[k]].path, score: scores[at[k]]->0 }),
    decreases n,
{
    if n == 0 {
        Seq::<int>::empty()
    } else {
        let m = (n - 1) as nat;
        let before = lemma_scored(lines, scores, m);
        let found = scored_lines(lines, scores, n);
        if m < scores.len() && scores[m as int] is Some {
            let at = before.push(m as int);
            assert forall|i: int|
                0 <= i < n && i < scores.len() && (#[trigger] scores[i])
                    is Some implies at.contains(i) by {
                if i < m {
                    assert(before.contains(i));
                    let k = choose|k: int| 0 <= k < before.len() && before[k] == i;
                    assert(at[k] == i);
                } else {
                    assert(at[before.len() as int] == i);
                }
            }
            assert forall|k: int| 0 <= k < at.len() implies #[trigger] found[k] == (
            ZoxideDirectoryModel { shown_path: lines[at[k]].path, score: scores[at[k]]->0 }) by {
                if k < before.len() {
                    assert(found[k] == scored_lines(lines, scores, m)[k]);
                }
            }
            at
        } else {
            assert(found == scored_lines(lines, scores, m));
            before
        }
    }
}

/// Every line whose score is a number gives a directory with its path and that number, in the
/// order of the lines, and no other line gives one.
pub proof fn lemma_scored_lines(lines: Seq<ZoxideLineModel>, scores: Seq<Option<u64>>)
    ensures
        ({
            let found = scored_lines(lines, scores, lines.len());
            exists|at: Seq<int>|
                {
                    &&& #[trigger] lists_scored(at, scores, lines.len() as int)
                    &&& at.len() == found.len()
                    &&& forall|k: int|
                        0 <= k < found.len() ==> (#[trigger] found[k]).shown_path
                            == lines[at[k]].path && Some(found[k].score) == scores[at[k]]
                }
        }),
{
    let found = scored_lines(lines, scores, lines.len());
    let at = lemma_scored(lines, scores, lines.len());
    assert(lists_scored(at, scores, lines.len() as int));
    assert forall|k: int| 0 <= k < found.len() implies (#[trigger] found[k]).shown_path
        == lines[at[k]].path && Some(found[k].score) == scores[at[k]] by {
        assert(scores[at[k]] is Some);
    }
}

/// Where every line has a score that is a number, there are as many directories as lines, each with
/// the path and the score of its line.
pub proof fn lemma_all_lines_scored(output: Seq<char>, scores: Seq<Option<u64>>)
    requires
        scores.len() >= output_lines(output).len(),
        forall|k: int| 0 <= k < output_lines(output).len() ==> (#[trigger] scores[k]) is Some,
    ensures
        ({
            let lines = output_lines(output);
            let found = scored_lines(lines, scores, lines.len());
            &&& found.len() == lines.len()
            &&& forall|k: int|
                0 <= k < lines.len() ==> (#[trigger] found[k]).shown_path == lines[k].path
                    && Some(found[k].score) == scores[k]
        }),
{
    let lines = output_lines(output);
    lemma_scored_prefix(lines, scores, lines.len());
}

proof fn lemma_scored_prefix(lines: Seq<ZoxideLineModel>, scores: Seq<Option<u64>>, n: nat)
    requires
        n <= lines.len(),
        n <= scores.len(),
        forall|k: int| 0 <= k < n ==> (#[trigger] scores[k]) is Some,
    ensures
        ({
            let found = scored_lines(lines, scores, n);
            &&& found.len() == n
            &&& forall|k: int|
                0 <= k < n ==> (#[trigger] found[k]).shown_path == lines[k].path && Some(
                    found[k].score,
                ) == scores[k]
        }),
    decreases n,
{
    if n > 0 {
        lemma_scored_prefix(lines, scores, (n - 1) as nat);
        assert(scores[n - 1] is Some);
    }
}

/// Each directory becomes one candidate with its path and score. Its canonical path is the one
/// that was found for it, or its own where none was.
pub proof fn lemma_resolved(
    directories: Seq<ZoxideDirectoryModel>,
    resolved: Seq<Option<Seq<char>>>,
    i: int,
)
    requires
        0 <= i < directories.len(),
    ensures
        resolved_candidates(directories, resolved).len() == directories.len(),
        resolved_candidates(directories, resolved)[i].shown_path == directories[i].shown_path,
        resolved_candidates(directories, resolved)[i].score == directories[i].score,
        forall|path: Seq<char>|
            i < resolved.len() && #[trigger] resolved[i] == Some(path) ==> resolved_candidates(
                directories,
                resolved,
            )[i].canonical_path == path,
        i >= resolved.len() || resolved[i] is None ==> resolved_candidates(
            directories,
            resolved,
        )[i].canonical_path == directories[i].shown_path,
{
}

// ---------------------------------------------------------------------------
// Directory previews
// ---------------------------------------------------------------------------

/// Whether `a` is the smaller of two names: at the first place where they differ it has the smaller
/// character, or it ends there.
pub open spec fn differs_at(a: Seq<char>, b: Seq<char>, k: int) -> bool {
    &&& 0 <= k <= a.len()
    &&& k < b.len()
    &&& forall|i: int| 0 <= i < k ==> a[i] == #[trigger] b[i]
    &&& k < a.len() ==> a[k] < b[k]
}

/// A name comes before another exactly where it is the smaller at the first difference.
pub proof fn lemma_name_order(a: Seq<char>, b: Seq<char>)
    ensures
        text_lt(a, b) <==> exists|k: int| #[trigger] differs_at(a, b, k),
        text_lt(a, b) || text_lt(b, a) || a == b,
    decreases a.len(),
{
    if a.len() == 0 {
        if b.len() > 0 {
            assert(differs_at(a, b, 0));
        } else {
            assert(a =~= b);
        }
    } else if b.len() > 0 {
        let x = a.drop_first();
        let y = b.drop_first();
        if a[0] == b[0] {
            lemma_name_order(x, y);
            if text_lt(x, y) {
                let k = choose|k: int| #[trigger] differs_at(x, y, k);
                assert forall|i: int| 0 <= i < k + 1 implies a[i] == #[trigger] b[i] by {
                    if i > 0 {
                        assert(x[i - 1] == y[i - 1]);
                    }
                }
                assert(differs_at(a, b, k + 1));
            }
            if exists|k: int| #[trigger] differs_at(a, b, k) {
                let k = choose|k: int| #[trigger] differs_at(a, b, k);
                assert(k > 0);
                assert forall|i: int| 0 <= i < k - 1 implies x[i] == #[trigger] y[i] by {
                    assert(a[i + 1] == b[i + 1]);
                }
                assert(differs_at(x, y, k - 1));
            }
            if x == y {
                assert(a =~= seq![a[0]] + x);
                assert(b =~= seq![b[0]] + y);
            }
        } else {
            if a[0] < b[0] {
                assert(differs_at(a, b, 0));
            }
            if exists|k: int| #[trigger] differs_at(a, b, k) {
                let k = choose|k: int| #[trigger] differs_at(a, b, k);
                assert(k == 0) by {
                    if k > 0 {
                        assert(a[0] == b[0]);
                    }
                }
            }
        }
    }
}

/// Of two entries in a preview the first is a directory unless both are files, and of two of one
/// kind the first has the smaller name, or the same.
pub proof fn lemma_preview_order(entries: Seq<EntryModel>, i: int, j: int)
    requires
        0 <= i < j < arranged_preview(entries).entries.len(),
    ensures
        ({
            let a = arranged_preview(entries).entries[i];
            let b = arranged_preview(entries).entries[j];
            &&& b.is_dir ==> a.is_dir
            &&& a.is_dir == b.is_dir ==> a.name == b.name || exists|k: int|
                #[trigger] differs_at(a.name, b.name, k)
        }),
{
    let listed = arranged_preview(entries).entries;
    lemma_arranged_preview(entries);
    assert(!DirectoryPreviewEntry::precedes(listed[j], listed[i]));
    lemma_name_order(listed[i].name, listed[j].name);
}

/// Whether `x` is not to be listed before `y`: it is a file and `y` a directory, or both are of one
/// kind and `x` has the greater name or the same.
pub open spec fn not_before(x: EntryModel, y: EntryModel) -> bool {
    &&& x.is_dir ==> y.is_dir
    &&& x.is_dir == y.is_dir ==> x.name == y.name || exists|k: int|
        #[trigger] differs_at(y.name, x.name, k)
}

/// A preview lists every entry of the directory once, up to the limit: what is left out is not to
/// be listed before anything that is listed.
pub proof fn lemma_preview_cut(entries: Seq<EntryModel>)
    ensures
        ({
            let listed = arranged_preview(entries).entries;
            &&& listed.len() == if entries.len() <= 200 {
                entries.len()
            } else {
                200
            }
            &&& arranged_preview(entries).truncated <==> entries.len() > 200
            &&& exists|rest: Seq<EntryModel>|
                {
                    &&& #[trigger] (listed + rest).to_multiset() == entries.to_multiset()
                    &&& forall|i: int, j: int|
                        0 <= i < rest.len() && 0 <= j < listed.len() ==> not_before(
                            #[trigger] rest[i],
                            #[trigger] listed[j],
                        )
                }
        }),
{
    let sorted = stably_sorted::<DirectoryPreviewEntry>(entries);
    let listed = arranged_preview(entries).entries;
    lemma_sorted_permutation::<DirectoryPreviewEntry>(entries);
    sorted.to_multiset_ensures();
    entries.to_multiset_ensures();
    assert(sorted.len() == entries.len());
    let rest = sorted.skip(listed.len() as int);
    assert(listed + rest =~= sorted);
    assert forall|i: int, j: int|
        0 <= i < rest.len() && 0 <= j < listed.len() implies not_before(
        #[trigger] rest[i],
        #[trigger] listed[j],
    ) by {
        let at = listed.len() + i;
        assert(rest[i] == sorted[at] && listed[j] == sorted[j]);
        assert(!DirectoryPreviewEntry::precedes(sorted[at], sorted[j]));
        lemma_name_order(listed[j].name, rest[i].name);
    }
    assert((listed + rest).to_multiset() == entries.to_multiset());
}

} // verus!
