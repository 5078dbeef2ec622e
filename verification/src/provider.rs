//! The directory search provider: its candidates, the output of its query, directory previews
//! and the course of a query.

use vstd::prelude::*;
use vstd::string::*;
use crate::matching::{match_rank, workspace_switcher_match_rank, Rank};
use crate::paths::{
    abbreviate_home, abbreviated, basename, path_basename, paths_equal, same_path, HomeDirectory,
};
use crate::sorting::{is_sorted, lemma_sorted_permutation, stable_sort, stably_sorted, Ordered};
use crate::text::{
    char_is_whitespace, chars_of, fields, is_whitespace, skip_whitespace, split_fields, text_of,
    trim, trim_start, trim_text,
};
use crate::views::{lemma_views_empty, lemma_views_push, option_view, views};

verus! {

/// The largest number of rows that a search shows.
pub const SEARCH_RESULTS_LIMIT: usize = 100;

/// The largest number of entries that a directory preview lists.
pub const DIRECTORY_PREVIEW_LIMIT: usize = 200;

/// One directory that the search provider suggests.
#[derive(Debug, PartialEq)]
pub struct SearchProviderCandidate {
    /// The path as the provider reports it, which the row shows.
    pub shown_path: String,
    /// The canonical path, which tells whether two candidates are one directory.
    pub canonical_path: String,
    /// The relevance as a number that orders as the provider's score does; higher is better.
    pub score: u64,
}

/// The view of a [`SearchProviderCandidate`].
#[verifier::ext_equal]
pub struct CandidateModel {
    pub shown_path: Seq<char>,
    pub canonical_path: Seq<char>,
    pub score: u64,
}

impl View for SearchProviderCandidate {
    type V = CandidateModel;

    open spec fn view(&self) -> CandidateModel {
        CandidateModel {
            shown_path: self.shown_path@,
            canonical_path: self.canonical_path@,
            score: self.score,
        }
    }
}

impl CandidateModel {
    /// The rank of the basename, and of the whole path where the basename does not match.
    pub open spec fn match_rank(self, query: Seq<char>) -> Option<Rank> {
        match match_rank(query, basename(self.shown_path)) {
            Some(rank) => Some(rank),
            None => match_rank(query, self.shown_path),
        }
    }
}

impl Clone for SearchProviderCandidate {
    fn clone(&self) -> (r: Self)
        ensures
            r@ == self@,
    {
        SearchProviderCandidate {
            shown_path: self.shown_path.clone(),
            canonical_path: self.canonical_path.clone(),
            score: self.score,
        }
    }
}

impl SearchProviderCandidate {
    /// A candidate for a reported path with its canonical path. Where none could be resolved,
    /// the reported path is the canonical one.
    pub fn from_shown_path(shown_path: String, resolved: Option<String>, score: u64) -> (r: Self)
        ensures
            r@ == (CandidateModel {
                shown_path: shown_path@,
                canonical_path: match resolved {
                    Some(path) => path@,
                    None => shown_path@,
                },
                score,
            }),
    {
        let canonical_path = match resolved {
            Some(path) => path,
            None => shown_path.clone(),
        };
        SearchProviderCandidate { shown_path, canonical_path, score }
    }

    /// The file name of the shown path, or all of it where it has none.
    pub fn basename(&self) -> (r: String)
        ensures
            r@ == basename(self@.shown_path),
    {
        path_basename(self.shown_path.as_str())
    }

    /// The shown path in full.
    pub fn display_path(&self) -> (r: String)
        ensures
            r@ == self@.shown_path,
    {
        self.shown_path.clone()
    }

    /// The shown path with a leading home directory abbreviated.
    pub fn abbreviated_path(&self, home: &Option<HomeDirectory>) -> (r: String)
        ensures
            r@ == abbreviated(self@.shown_path, option_view(*home)),
    {
        abbreviate_home(self.shown_path.as_str(), home)
    }

    /// Ranks the candidate for `query`. A match of the basename wins over any match of the path.
    pub fn match_rank(&self, query: &str) -> (r: Option<Rank>)
        ensures
            r == self@.match_rank(query@),
    {
        let name = self.basename();
        match workspace_switcher_match_rank(query, name.as_str()) {
            Some(rank) => Some(rank),
            None => workspace_switcher_match_rank(query, self.shown_path.as_str()),
        }
    }
}

// ---------------------------------------------------------------------------
// Provider output
// ---------------------------------------------------------------------------

/// One line of provider output: a score and a path.
#[derive(Debug, PartialEq, Eq)]
pub struct ZoxideLine {
    pub score: String,
    pub path: String,
}

/// The view of a [`ZoxideLine`].
#[verifier::ext_equal]
pub struct ZoxideLineModel {
    pub score: Seq<char>,
    pub path: Seq<char>,
}

impl View for ZoxideLine {
    type V = ZoxideLineModel;

    open spec fn view(&self) -> ZoxideLineModel {
        ZoxideLineModel { score: self.score@, path: self.path@ }
    }
}

/// The index of the first white space of `s`, or its length.
pub open spec fn first_space(s: Seq<char>) -> nat
    decreases s.len(),
{
    if s.len() == 0 || is_whitespace(s[0]) {
        0
    } else {
        1 + first_space(s.drop_first())
    }
}

/// A line taken apart: the score up to the first white space of the trimmed line, and the path
/// behind that white space. A line without white space is malformed.
pub open spec fn line_fields(line: Seq<char>) -> Option<ZoxideLineModel> {
    let t = trim(line);
    let n = first_space(t) as int;
    if n >= t.len() {
        None
    } else {
        let path = trim_start(t.skip(n + 1));
        if path.len() == 0 {
            None
        } else {
            Some(ZoxideLineModel { score: t.take(n), path })
        }
    }
}

/// The well-formed ones of `lines`, taken apart.
pub open spec fn lines_fields(lines: Seq<Seq<char>>) -> Seq<ZoxideLineModel>
    decreases lines.len(),
{
    if lines.len() == 0 {
        Seq::<ZoxideLineModel>::empty()
    } else {
        match line_fields(lines.last()) {
            Some(line) => lines_fields(lines.drop_last()).push(line),
            None => lines_fields(lines.drop_last()),
        }
    }
}

/// The lines of provider output with their scores and paths.
pub open spec fn output_lines(output: Seq<char>) -> Seq<ZoxideLineModel> {
    lines_fields(fields(output, |c: char| c == '\n'))
}

fn is_newline(c: char) -> (b: bool)
    ensures
        b == (c == '\n'),
{
    c == '\n'
}

fn split_line(line: &Vec<char>) -> (r: Option<ZoxideLine>)
    ensures
        option_view(r) == line_fields(line@),
{
    let text = text_of(line, 0, line.len());
    proof {
        assert(text@ =~= line@);
    }
    let trimmed = trim_text(text.as_str());
    let chars = chars_of(trimmed.as_str());
    let ghost t = trim(line@);
    let mut n: usize = 0;
    proof {
        assert(t.skip(0) =~= t);
    }
    while n < chars.len() && !char_is_whitespace(chars[n])
        invariant
            n <= chars@.len(),
            chars@ == t,
            first_space(t) == n + first_space(t.skip(n as int)),
        decreases chars@.len() - n,
    {
        proof {
            assert(t.skip(n as int).drop_first() =~= t.skip(n + 1));
        }
        n += 1;
    }
    if n >= chars.len() {
        return None;
    }
    let from: usize = skip_whitespace(&chars, n + 1);
    if from == chars.len() {
        proof {
            assert(trim_start(t.skip(n + 1)).len() == 0);
        }
        return None;
    }
    let score = text_of(&chars, 0, n);
    let path = text_of(&chars, from, chars.len());
    proof {
        assert(score@ =~= t.take(n as int));
        assert(path@ =~= t.skip(from as int));
    }
    Some(ZoxideLine { score, path })
}

/// Splits provider output into lines of a score and a path. The path keeps everything behind the
/// first run of white space, so paths with spaces survive; malformed lines are left out.
pub fn zoxide_lines(output: &str) -> (r: Vec<ZoxideLine>)
    ensures
        views(r@) == output_lines(output@),
{
    broadcast use {lemma_views_push, lemma_views_empty};

    let lines = split_fields(&chars_of(output), is_newline, Ghost(|c: char| c == '\n'));
    let ghost all = views(lines@);
    let mut r: Vec<ZoxideLine> = Vec::new();
    let mut i: usize = 0;
    proof {
        assert(all.take(0) =~= Seq::<Seq<char>>::empty());
    }
    while i < lines.len()
        invariant
            i <= lines@.len(),
            all == views(lines@),
            views(r@) == lines_fields(all.take(i as int)),
        decreases lines@.len() - i,
    {
        broadcast use lemma_views_push;

        proof {
            assert(all.take(i + 1).drop_last() =~= all.take(i as int));
        }
        if let Some(line) = split_line(&lines[i]) {
            r.push(line);
        }
        i += 1;
    }
    proof {
        assert(all.take(i as int) =~= all);
    }
    r
}

/// One directory of provider output.
#[derive(Debug, PartialEq, Eq)]
pub struct ZoxideDirectory {
    pub shown_path: String,
    pub score: u64,
}

/// The view of a [`ZoxideDirectory`].
#[verifier::ext_equal]
pub struct ZoxideDirectoryModel {
    pub shown_path: Seq<char>,
    pub score: u64,
}

impl View for ZoxideDirectory {
    type V = ZoxideDirectoryModel;

    open spec fn view(&self) -> ZoxideDirectoryModel {
        ZoxideDirectoryModel { shown_path: self.shown_path@, score: self.score }
    }
}

/// The first `n` of `lines` whose score is a number, given the numbers by line.
pub open spec fn scored_lines(
    lines: Seq<ZoxideLineModel>,
    scores: Seq<Option<u64>>,
    n: nat,
) -> Seq<ZoxideDirectoryModel>
    decreases n,
{
    if n == 0 {
        Seq::<ZoxideDirectoryModel>::empty()
    } else {
        let before = scored_lines(lines, scores, (n - 1) as nat);
        if n <= scores.len() && scores[n - 1] is Some {
            before.push(
                ZoxideDirectoryModel {
                    shown_path: lines[n - 1].path,
                    score: scores[n - 1]->0,
                },
            )
        } else {
            before
        }
    }
}

/// The directories of provider output. `scores` holds, for each line of [`zoxide_lines`], the
/// ordering number of its score, or `None` where the score is no finite number; such lines are
/// left out.
pub fn parse_zoxide_list(output: &str, scores: &Vec<Option<u64>>) -> (r: Vec<ZoxideDirectory>)
    ensures
        views(r@) == scored_lines(
            output_lines(output@),
            scores@,
            output_lines(output@).len(),
        ),
{
    broadcast use {lemma_views_push, lemma_views_empty};

    let lines = zoxide_lines(output);
    let ghost all = output_lines(output@);
    let mut r: Vec<ZoxideDirectory> = Vec::new();
    let mut i: usize = 0;
    while i < lines.len()
        invariant
            i <= lines@.len(),
            views(lines@) == all,
            views(r@) == scored_lines(all, scores@, i as nat),
        decreases lines@.len() - i,
    {
        broadcast use lemma_views_push;

        proof {
            assert(all[i as int] == lines@[i as int]@);
        }
        if i < scores.len() {
            if let Some(score) = scores[i] {
                r.push(ZoxideDirectory { shown_path: lines[i].path.clone(), score });
            }
        }
        i += 1;
    }
    r
}

// ---------------------------------------------------------------------------
// Aliases
// ---------------------------------------------------------------------------

/// The index of the candidate in `s` with the canonical path `canonical`, from index `from` on.
pub open spec fn identity_index(
    s: Seq<CandidateModel>,
    canonical: Seq<char>,
    from: int,
) -> Option<int>
    decreases s.len() - from,
{
    if from < 0 || from >= s.len() {
        None
    } else if same_path(s[from].canonical_path, canonical) {
        Some(from)
    } else {
        identity_index(s, canonical, from + 1)
    }
}

/// The candidates of `s` without aliases: one for each canonical path, in the order in which the
/// paths first appear, and of two with one path the first with the higher score.
pub open spec fn without_aliases(s: Seq<CandidateModel>) -> Seq<CandidateModel>
    decreases s.len(),
{
    if s.len() == 0 {
        s
    } else {
        let before = without_aliases(s.drop_last());
        let candidate = s.last();
        match identity_index(before, candidate.canonical_path, 0) {
            Some(i) => if candidate.score > before[i].score {
                before.update(i, candidate)
            } else {
                before
            },
            None => before.push(candidate),
        }
    }
}

proof fn lemma_identity_index(s: Seq<CandidateModel>, canonical: Seq<char>, from: int)
    requires
        0 <= from <= s.len(),
    ensures
        match identity_index(s, canonical, from) {
            Some(i) => {
                &&& from <= i < s.len()
                &&& same_path(s[i].canonical_path, canonical)
                &&& forall|k: int|
                    from <= k < i ==> !same_path(#[trigger] s[k].canonical_path, canonical)
            },
            None => forall|k: int|
                from <= k < s.len() ==> !same_path(#[trigger] s[k].canonical_path, canonical),
        },
    decreases s.len() - from,
{
    if from < s.len() && !same_path(s[from].canonical_path, canonical) {
        lemma_identity_index(s, canonical, from + 1);
    }
}

/// The index of the candidate with the canonical path `canonical`.
pub fn find_identity(candidates: &Vec<SearchProviderCandidate>, canonical: &str) -> (r: Option<
    usize,
>)
    ensures
        match r {
            Some(i) => i < candidates@.len() && identity_index(
                views(candidates@),
                canonical@,
                0,
            ) == Some(i as int),
            None => identity_index(views(candidates@), canonical@, 0) is None,
        },
{
    let ghost all = views(candidates@);
    let mut i: usize = 0;
    while i < candidates.len()
        invariant
            i <= candidates@.len(),
            all == views(candidates@),
            identity_index(all, canonical@, 0) == identity_index(all, canonical@, i as int),
        decreases candidates@.len() - i,
    {
        proof {
            assert(all[i as int] == candidates@[i as int]@);
        }
        if paths_equal(candidates[i].canonical_path.as_str(), canonical) {
            return Some(i);
        }
        i += 1;
    }
    None
}

/// Collapses candidates that share a canonical path, keeping the one with the highest score.
pub fn dedup_by_canonical_identity(candidates: Vec<SearchProviderCandidate>) -> (r: Vec<
    SearchProviderCandidate,
>)
    ensures
        views(r@) == without_aliases(views(candidates@)),
{
    broadcast use {lemma_views_push, lemma_views_empty};

    let ghost all = views(candidates@);
    let mut r: Vec<SearchProviderCandidate> = Vec::new();
    let mut i: usize = 0;
    proof {
        assert(all.take(0) =~= Seq::<CandidateModel>::empty());
    }
    while i < candidates.len()
        invariant
            i <= candidates@.len(),
            all == views(candidates@),
            views(r@) == without_aliases(all.take(i as int)),
        decreases candidates@.len() - i,
    {
        broadcast use lemma_views_push;

        let candidate = candidates[i].clone();
        proof {
            assert(all.take(i + 1).drop_last() =~= all.take(i as int));
            assert(candidate@ == all[i as int]);
        }
        let ghost before = views(r@);
        match find_identity(&r, candidate.canonical_path.as_str()) {
            Some(k) => {
                if candidate.score > r[k].score {
                    r.set(k, candidate);
                    proof {
                        assert(views(r@) =~= before.update(k as int, all[i as int]));
                    }
                }
            },
            None => {
                r.push(candidate);
            },
        }
        i += 1;
    }
    proof {
        assert(all.take(i as int) =~= all);
    }
    r
}

/// Without aliases no two candidates share a canonical path, and each candidate comes from the
/// list.
pub proof fn lemma_without_aliases_distinct(s: Seq<CandidateModel>)
    ensures
        forall|i: int, j: int|
            0 <= i < j < without_aliases(s).len() ==> !same_path(
                (#[trigger] without_aliases(s)[i]).canonical_path,
                (#[trigger] without_aliases(s)[j]).canonical_path,
            ),
        forall|i: int|
            0 <= i < without_aliases(s).len() ==> s.contains(#[trigger] without_aliases(s)[i]),
    decreases s.len(),
{
    if s.len() > 0 {
        let before = without_aliases(s.drop_last());
        let candidate = s.last();
        lemma_without_aliases_distinct(s.drop_last());
        lemma_identity_index(before, candidate.canonical_path, 0);
        let r = without_aliases(s);
        assert forall|i: int| 0 <= i < r.len() implies s.contains(#[trigger] r[i]) by {
            if r[i] == candidate {
                assert(s[s.len() - 1] == candidate);
            } else {
                assert(r[i] == before[i]);
                assert(s.drop_last().contains(before[i]));
                let k = choose|k: int| 0 <= k < s.len() - 1 && s.drop_last()[k] == before[i];
                assert(s[k] == before[i]);
            }
        }
    }
}

/// Every candidate of the list has its canonical path among those that are kept, with a score
/// that is no lower than its own.
pub proof fn lemma_without_aliases_best(s: Seq<CandidateModel>, n: int)
    requires
        0 <= n < s.len(),
    ensures
        exists|i: int|
            0 <= i < without_aliases(s).len() && same_path(
                (#[trigger] without_aliases(s)[i]).canonical_path,
                s[n].canonical_path,
            ) && without_aliases(s)[i].score >= s[n].score,
    decreases s.len(),
{
    let before = without_aliases(s.drop_last());
    let candidate = s.last();
    lemma_identity_index(before, candidate.canonical_path, 0);
    let r = without_aliases(s);
    if n < s.len() - 1 {
        lemma_without_aliases_best(s.drop_last(), n);
        let i = choose|i: int|
            0 <= i < before.len() && same_path(
                (#[trigger] before[i]).canonical_path,
                s[n].canonical_path,
            ) && before[i].score >= s[n].score;
        assert(i < r.len());
        assert(same_path(r[i].canonical_path, s[n].canonical_path));
    } else {
        match identity_index(before, candidate.canonical_path, 0) {
            Some(i) => {
                assert(same_path(r[i].canonical_path, candidate.canonical_path));
            },
            None => {
                assert(r[before.len() as int] == candidate);
            },
        }
    }
}

proof fn lemma_identity_index_front(s: Seq<CandidateModel>, canonical: Seq<char>, from: int)
    requires
        0 <= from < s.len(),
    ensures
        match identity_index(s.drop_last(), canonical, from) {
            Some(i) => identity_index(s, canonical, from) == Some(i),
            None => identity_index(s, canonical, from) == if same_path(
                s.last().canonical_path,
                canonical,
            ) {
                Some(s.len() - 1)
            } else {
                None
            },
        },
    decreases s.len() - from,
{
    if from < s.len() - 1 {
        if !same_path(s[from].canonical_path, canonical) {
            lemma_identity_index_front(s, canonical, from + 1);
        }
    } else {
        assert(identity_index(s, canonical, from + 1) is None);
    }
}

proof fn lemma_identity_index_same(
    s: Seq<CandidateModel>,
    a: Seq<char>,
    b: Seq<char>,
    from: int,
)
    requires
        same_path(a, b),
        0 <= from,
    ensures
        identity_index(s, a, from) == identity_index(s, b, from),
    decreases s.len() - from,
{
    if from < s.len() {
        lemma_identity_index_same(s, a, b, from + 1);
    }
}

/// The candidates that are kept stand in the order in which their canonical paths first appear in
/// the list.
pub proof fn lemma_without_aliases_order(s: Seq<CandidateModel>)
    ensures
        forall|i: int|
            0 <= i < without_aliases(s).len() ==> identity_index(
                s,
                (#[trigger] without_aliases(s)[i]).canonical_path,
                0,
            ) is Some,
        forall|i: int, j: int|
            0 <= i < j < without_aliases(s).len() ==> identity_index(
                s,
                (#[trigger] without_aliases(s)[i]).canonical_path,
                0,
            )->0 < identity_index(s, (#[trigger] without_aliases(s)[j]).canonical_path, 0)->0,
    decreases s.len(),
{
    if s.len() > 0 {
        let front = s.drop_last();
        let before = without_aliases(front);
        let candidate = s.last();
        let r = without_aliases(s);
        lemma_without_aliases_order(front);
        lemma_identity_index(before, candidate.canonical_path, 0);
        lemma_identity_index(front, candidate.canonical_path, 0);
        lemma_identity_index_front(s, candidate.canonical_path, 0);
        if identity_index(front, candidate.canonical_path, 0) is Some {
            lemma_without_aliases_best(
                front,
                identity_index(front, candidate.canonical_path, 0)->0,
            );
        }
        assert forall|i: int| 0 <= i < before.len() implies identity_index(
            s,
            (#[trigger] r[i]).canonical_path,
            0,
        ) == identity_index(front, before[i].canonical_path, 0) by {
            lemma_identity_index_same(s, r[i].canonical_path, before[i].canonical_path, 0);
            lemma_identity_index_front(s, before[i].canonical_path, 0);
        }
        assert forall|i: int| 0 <= i < before.len() implies identity_index(
            front,
            (#[trigger] before[i]).canonical_path,
            0,
        )->0 < front.len() by {
            lemma_identity_index(front, before[i].canonical_path, 0);
        }
        assert forall|i: int, j: int| 0 <= i < j < r.len() implies identity_index(
            s,
            (#[trigger] r[i]).canonical_path,
            0,
        )->0 < identity_index(s, (#[trigger] r[j]).canonical_path, 0)->0 by {
            assert(identity_index(front, before[i].canonical_path, 0)->0 < front.len());
            if j < before.len() {
                assert(identity_index(front, before[i].canonical_path, 0)->0 < identity_index(
                    front,
                    before[j].canonical_path,
                    0,
                )->0);
            }
        }
    }
}

/// Whether the candidate at `n` is the one to keep of those with its canonical path: none has a
/// higher score, and none before it has the same.
pub open spec fn is_kept(s: Seq<CandidateModel>, n: int) -> bool {
    &&& 0 <= n < s.len()
    &&& forall|k: int|
        0 <= k < s.len() && same_path((#[trigger] s[k]).canonical_path, s[n].canonical_path)
            ==> s[k].score <= s[n].score && (k < n ==> s[k].score < s[n].score)
}

/// Of the candidates with one canonical path the one with the highest score is kept, and of those
/// with that score the one that comes first in the list.
pub proof fn lemma_without_aliases_earliest(s: Seq<CandidateModel>, i: int)
    requires
        0 <= i < without_aliases(s).len(),
    ensures
        exists|n: int| #[trigger] is_kept(s, n) && s[n] == without_aliases(s)[i],
    decreases s.len(),
{
    let front = s.drop_last();
    let before = without_aliases(front);
    let candidate = s.last();
    let last = s.len() - 1;
    lemma_identity_index(before, candidate.canonical_path, 0);
    lemma_without_aliases_distinct(front);
    if i < before.len() {
        lemma_without_aliases_earliest(front, i);
        let n = choose|n: int| #[trigger] is_kept(front, n) && front[n] == before[i];
        assert(s[n] == front[n]);
        assert forall|k: int|
            0 <= k < last && same_path(
                (#[trigger] s[k]).canonical_path,
                before[i].canonical_path,
            ) implies s[k].score <= before[i].score && (k < n ==> s[k].score < before[i].score) by {
            assert(front[k] == s[k]);
        }
        if without_aliases(s)[i] == before[i] {
            if same_path(candidate.canonical_path, before[i].canonical_path) {
                let at = identity_index(before, candidate.canonical_path, 0)->0;
                assert(same_path(before[at].canonical_path, before[i].canonical_path));
                assert(at == i);
            }
            assert(is_kept(s, n));
        } else {
            assert(is_kept(s, last));
        }
    } else {
        assert forall|k: int|
            0 <= k < last && same_path(
                (#[trigger] s[k]).canonical_path,
                candidate.canonical_path,
            ) implies false by {
            assert(front[k] == s[k]);
            lemma_without_aliases_best(front, k);
        }
        assert(is_kept(s, last));
    }
}

proof fn lemma_no_aliases(s: Seq<CandidateModel>)
    requires
        forall|i: int, j: int|
            0 <= i < j < s.len() ==> !same_path(
                (#[trigger] s[i]).canonical_path,
                (#[trigger] s[j]).canonical_path,
            ),
    ensures
        without_aliases(s) == s,
    decreases s.len(),
{
    if s.len() > 0 {
        let front = s.drop_last();
        assert forall|i: int, j: int| 0 <= i < j < front.len() implies !same_path(
            (#[trigger] front[i]).canonical_path,
            (#[trigger] front[j]).canonical_path,
        ) by {
            assert(!same_path(s[i].canonical_path, s[j].canonical_path));
        }
        lemma_no_aliases(front);
        lemma_identity_index(front, s.last().canonical_path, 0);
        if identity_index(front, s.last().canonical_path, 0) is Some {
            let k = identity_index(front, s.last().canonical_path, 0)->0;
            assert(!same_path(s[k].canonical_path, s[s.len() - 1].canonical_path));
        }
        assert(front.push(s.last()) =~= s);
    }
}

/// A list without aliases stays as it is.
pub proof fn lemma_without_aliases_twice(s: Seq<CandidateModel>)
    ensures
        without_aliases(without_aliases(s)) == without_aliases(s),
{
    lemma_without_aliases_distinct(s);
    lemma_no_aliases(without_aliases(s));
}

// ---------------------------------------------------------------------------
// Directory previews
// ---------------------------------------------------------------------------

/// One entry of a directory preview.
#[derive(Debug, PartialEq, Eq)]
pub struct DirectoryPreviewEntry {
    pub name: String,
    pub is_dir: bool,
}

/// The view of a [`DirectoryPreviewEntry`].
#[verifier::ext_equal]
pub struct EntryModel {
    pub name: Seq<char>,
    pub is_dir: bool,
}

impl View for DirectoryPreviewEntry {
    type V = EntryModel;

    open spec fn view(&self) -> EntryModel {
        EntryModel { name: self.name@, is_dir: self.is_dir }
    }
}

impl Clone for DirectoryPreviewEntry {
    fn clone(&self) -> (r: Self)
        ensures
            r@ == self@,
    {
        DirectoryPreviewEntry { name: self.name.clone(), is_dir: self.is_dir }
    }
}

/// Whether `a` comes before `b` character by character.
pub open spec fn text_lt(a: Seq<char>, b: Seq<char>) -> bool
    decreases a.len(),
{
    if b.len() == 0 {
        false
    } else if a.len() == 0 {
        true
    } else if a[0] != b[0] {
        a[0] < b[0]
    } else {
        text_lt(a.drop_first(), b.drop_first())
    }
}

proof fn lemma_text_lt_asymmetric(a: Seq<char>, b: Seq<char>)
    requires
        text_lt(a, b),
    ensures
        !text_lt(b, a),
    decreases a.len(),
{
    if a.len() > 0 && a[0] == b[0] {
        lemma_text_lt_asymmetric(a.drop_first(), b.drop_first());
    }
}

proof fn lemma_text_lt_negatively_transitive(a: Seq<char>, b: Seq<char>, c: Seq<char>)
    requires
        !text_lt(b, a),
        !text_lt(c, b),
    ensures
        !text_lt(c, a),
    decreases a.len(),
{
    if a.len() > 0 && b.len() > 0 && c.len() > 0 && a[0] == b[0] && b[0] == c[0] {
        lemma_text_lt_negatively_transitive(a.drop_first(), b.drop_first(), c.drop_first());
    }
}

fn text_before(a: &str, b: &str) -> (r: bool)
    ensures
        r == text_lt(a@, b@),
{
    let x = chars_of(a);
    let y = chars_of(b);
    let mut i: usize = 0;
    proof {
        assert(x@.skip(0) =~= x@);
        assert(y@.skip(0) =~= y@);
    }
    while i < x.len() && i < y.len()
        invariant
            i <= x@.len(),
            i <= y@.len(),
            x@ == a@,
            y@ == b@,
            text_lt(x@, y@) == text_lt(x@.skip(i as int), y@.skip(i as int)),
        decreases x@.len() - i,
    {
        proof {
            assert(x@.skip(i as int)[0] == x@[i as int]);
            assert(y@.skip(i as int)[0] == y@[i as int]);
        }
        if x[i] != y[i] {
            return x[i] < y[i];
        }
        proof {
            assert(x@.skip(i as int).drop_first() =~= x@.skip(i + 1));
            assert(y@.skip(i as int).drop_first() =~= y@.skip(i + 1));
        }
        i += 1;
    }
    i < y.len()
}

impl Ordered for DirectoryPreviewEntry {
    /// Directories come before files, and each group is ordered by name.
    open spec fn precedes(a: EntryModel, b: EntryModel) -> bool {
        if a.is_dir != b.is_dir {
            a.is_dir
        } else {
            text_lt(a.name, b.name)
        }
    }

    fn comes_before(&self, other: &Self) -> (b: bool) {
        if self.is_dir != other.is_dir {
            self.is_dir
        } else {
            text_before(self.name.as_str(), other.name.as_str())
        }
    }

    proof fn lemma_asymmetric(a: EntryModel, b: EntryModel) {
        if a.is_dir == b.is_dir {
            lemma_text_lt_asymmetric(a.name, b.name);
        }
    }

    proof fn lemma_negatively_transitive(a: EntryModel, b: EntryModel, c: EntryModel) {
        if a.is_dir == b.is_dir && b.is_dir == c.is_dir {
            lemma_text_lt_negatively_transitive(a.name, b.name, c.name);
        }
    }
}

/// One level of a directory.
#[derive(Debug, PartialEq, Eq)]
pub struct DirectoryPreview {
    pub entries: Vec<DirectoryPreviewEntry>,
    /// Whether the directory holds more entries than are listed.
    pub truncated: bool,
}

/// The view of a [`DirectoryPreview`].
#[verifier::ext_equal]
pub struct DirectoryPreviewModel {
    pub entries: Seq<EntryModel>,
    pub truncated: bool,
}

impl View for DirectoryPreview {
    type V = DirectoryPreviewModel;

    open spec fn view(&self) -> DirectoryPreviewModel {
        DirectoryPreviewModel { entries: views(self.entries@), truncated: self.truncated }
    }
}

/// Copies a list of entries.
pub fn copy_entries(entries: &Vec<DirectoryPreviewEntry>) -> (r: Vec<DirectoryPreviewEntry>)
    ensures
        views(r@) == views(entries@),
{
    broadcast use {lemma_views_push, lemma_views_empty};

    let mut r: Vec<DirectoryPreviewEntry> = Vec::new();
    let mut i: usize = 0;
    proof {
        assert(views(entries@).take(0) =~= Seq::<EntryModel>::empty());
    }
    while i < entries.len()
        invariant
            i <= entries@.len(),
            views(r@) == views(entries@).take(i as int),
        decreases entries@.len() - i,
    {
        broadcast use lemma_views_push;

        proof {
            assert(views(entries@).take(i + 1) =~= views(entries@).take(i as int).push(
                entries@[i as int]@,
            ));
        }
        r.push(entries[i].clone());
        i += 1;
    }
    proof {
        assert(views(entries@).take(i as int) =~= views(entries@));
    }
    r
}

/// The preview of a directory with the given entries: sorted and cut to the limit.
pub open spec fn arranged_preview(entries: Seq<EntryModel>) -> DirectoryPreviewModel {
    let sorted = stably_sorted::<DirectoryPreviewEntry>(entries);
    DirectoryPreviewModel {
        entries: if sorted.len() > DIRECTORY_PREVIEW_LIMIT {
            sorted.take(DIRECTORY_PREVIEW_LIMIT as int)
        } else {
            sorted
        },
        truncated: sorted.len() > DIRECTORY_PREVIEW_LIMIT,
    }
}

/// Arranges the entries of one directory level for the preview pane: directories before files,
/// each group by name, and at most [`DIRECTORY_PREVIEW_LIMIT`] entries.
pub fn arrange_directory_preview(entries: Vec<DirectoryPreviewEntry>) -> (r: DirectoryPreview)
    ensures
        r@ == arranged_preview(views(entries@)),
{
    let mut entries = stable_sort(entries);
    let truncated = entries.len() > DIRECTORY_PREVIEW_LIMIT;
    let ghost sorted = views(entries@);
    entries.truncate(DIRECTORY_PREVIEW_LIMIT);
    proof {
        if truncated {
            assert(views(entries@) =~= sorted.take(DIRECTORY_PREVIEW_LIMIT as int));
        } else {
            assert(views(entries@) =~= sorted);
        }
    }
    DirectoryPreview { entries, truncated }
}

/// A preview lists directories before files and each group by name, at most as many entries as the
/// limit allows, all of them entries of the directory, and tells whether there are more.
pub proof fn lemma_arranged_preview(entries: Seq<EntryModel>)
    ensures
        ({
            let preview = arranged_preview(entries);
            &&& is_sorted::<DirectoryPreviewEntry>(preview.entries)
            &&& preview.entries.len() <= DIRECTORY_PREVIEW_LIMIT
            &&& preview.truncated <==> entries.len() > DIRECTORY_PREVIEW_LIMIT
            &&& !preview.truncated ==> preview.entries.to_multiset() == entries.to_multiset()
            &&& forall|i: int|
                0 <= i < preview.entries.len() ==> entries.contains(#[trigger] preview.entries[i])
        }),
{
    broadcast use vstd::seq_lib::group_to_multiset_ensures;

    lemma_sorted_permutation::<DirectoryPreviewEntry>(entries);
    let sorted = stably_sorted::<DirectoryPreviewEntry>(entries);
    let listed = arranged_preview(entries).entries;
    assert forall|i: int, j: int|
        0 <= i <= j < listed.len() implies !#[trigger] DirectoryPreviewEntry::precedes(
        listed[j],
        listed[i],
    ) by {
        assert(!DirectoryPreviewEntry::precedes(sorted[j], sorted[i]));
    }
    assert forall|i: int| 0 <= i < listed.len() implies entries.contains(
        #[trigger] listed[i],
    ) by {
        assert(listed[i] == sorted[i]);
        assert(sorted.contains(sorted[i]));
        assert(sorted.to_multiset().count(sorted[i]) > 0);
    }
}

// ---------------------------------------------------------------------------
// The course of a query
// ---------------------------------------------------------------------------

/// How far the search provider has come in a search session.
#[derive(Debug, Clone, Copy, PartialEq, Eq, Structural)]
pub enum SearchProviderStatus {
    /// Nothing was asked yet.
    Idle,
    /// A query runs.
    Loading,
    /// A query has completed, maybe without results.
    Ready,
    /// There is no provider.
    Unavailable,
}

/// The cached preview of one directory.
#[derive(Debug, PartialEq, Eq)]
pub enum DirectoryPreviewState {
    Loading,
    Ready(DirectoryPreview),
    Error,
}

/// The view of a [`DirectoryPreviewState`].
#[verifier::ext_equal]
pub enum PreviewStateModel {
    Loading,
    Ready(DirectoryPreviewModel),
    Error,
}

impl View for DirectoryPreviewState {
    type V = PreviewStateModel;

    open spec fn view(&self) -> PreviewStateModel {
        match *self {
            DirectoryPreviewState::Loading => PreviewStateModel::Loading,
            DirectoryPreviewState::Ready(preview) => PreviewStateModel::Ready(preview@),
            DirectoryPreviewState::Error => PreviewStateModel::Error,
        }
    }
}

/// What became of a provider query.
#[derive(Debug, PartialEq)]
pub struct ZoxideQueryResult {
    /// Whether the provider could be started.
    pub available: bool,
    /// The candidates without aliases; none where the query failed.
    pub candidates: Vec<SearchProviderCandidate>,
}

/// The view of a [`ZoxideQueryResult`].
#[verifier::ext_equal]
pub struct QueryResultModel {
    pub available: bool,
    pub candidates: Seq<CandidateModel>,
}

impl View for ZoxideQueryResult {
    type V = QueryResultModel;

    open spec fn view(&self) -> QueryResultModel {
        QueryResultModel { available: self.available, candidates: views(self.candidates@) }
    }
}

/// What is seen of the provider process.
#[derive(Debug, Clone, Copy, PartialEq, Eq, Structural)]
pub enum QueryEvent {
    /// The process could not be started.
    SpawnFailed,
    /// The process still runs; `expired` tells whether its time is up.
    Running { expired: bool },
    /// The process could not be asked for its state.
    WaitFailed,
    /// The process has ended.
    Exited { success: bool },
}

/// What is to be done next for a provider query.
#[derive(Debug, Clone, Copy, PartialEq, Eq, Structural)]
pub enum QueryAction {
    /// Ask again after [`QUERY_POLL_MILLIS`].
    Poll,
    /// Kill the process, wait for it, and finish without output.
    Abort,
    /// Finish without output.
    Discard { available: bool },
    /// Parse the collected output and finish with it.
    Parse,
}

/// The pause between two looks at the provider process.
pub const QUERY_POLL_MILLIS: u64 = 20;

/// The next action of a query.
pub open spec fn next_query_action(event: QueryEvent) -> QueryAction {
    match event {
        QueryEvent::SpawnFailed => QueryAction::Discard { available: false },
        QueryEvent::Running { expired } => if expired {
            QueryAction::Abort
        } else {
            QueryAction::Poll
        },
        QueryEvent::WaitFailed => QueryAction::Abort,
        QueryEvent::Exited { success } => if success {
            QueryAction::Parse
        } else {
            QueryAction::Discard { available: true }
        },
    }
}

/// Decides what is to be done after `event`: poll while the process runs and has time, abort it
/// when the time is up or it cannot be watched, parse the output of a successful end, and
/// contribute nothing in every other case.
pub fn run_zoxide_query_step(event: QueryEvent) -> (r: QueryAction)
    ensures
        r == next_query_action(event),
{
    match event {
        QueryEvent::SpawnFailed => QueryAction::Discard { available: false },
        QueryEvent::Running { expired } => if expired {
            QueryAction::Abort
        } else {
            QueryAction::Poll
        },
        QueryEvent::WaitFailed => QueryAction::Abort,
        QueryEvent::Exited { success } => if success {
            QueryAction::Parse
        } else {
            QueryAction::Discard { available: true }
        },
    }
}

/// Whatever happens to a query that could be started, the provider counts as available: only a
/// provider that cannot be started does not. Output is used only after a successful end.
pub proof fn lemma_query_actions(event: QueryEvent)
    ensures
        next_query_action(event) == (QueryAction::Discard { available: false }) <==> event
            == QueryEvent::SpawnFailed,
        next_query_action(event) == QueryAction::Parse <==> event == (QueryEvent::Exited {
            success: true,
        }),
        next_query_action(event) == QueryAction::Poll <==> event == (QueryEvent::Running {
            expired: false,
        }),
{
}

/// The result of a query without output.
pub fn empty_query_result(available: bool) -> (r: ZoxideQueryResult)
    ensures
        r@ == (QueryResultModel { available, candidates: Seq::<CandidateModel>::empty() }),
{
    let candidates: Vec<SearchProviderCandidate> = Vec::new();
    proof {
        assert(views(candidates@) =~= Seq::<CandidateModel>::empty());
    }
    ZoxideQueryResult { available, candidates }
}

/// The candidates of `directories` with the canonical paths that were resolved for them.
pub open spec fn resolved_candidates(
    directories: Seq<ZoxideDirectoryModel>,
    resolved: Seq<Option<Seq<char>>>,
) -> Seq<CandidateModel> {
    Seq::new(
        directories.len(),
        |i: int|
            CandidateModel {
                shown_path: directories[i].shown_path,
                canonical_path: if i < resolved.len() && resolved[i] is Some {
                    resolved[i]->0
                } else {
                    directories[i].shown_path
                },
                score: directories[i].score,
            },
    )
}

/// The views of optional texts.
pub open spec fn option_views(s: Seq<Option<String>>) -> Seq<Option<Seq<char>>> {
    Seq::new(s.len(), |i: int| option_view(s[i]))
}

/// Finishes a successful query: each directory of the output becomes a candidate with the
/// canonical path that was resolved for it, and aliases collapse.
pub fn finish_zoxide_query(directories: &Vec<ZoxideDirectory>, resolved: &Vec<Option<String>>)
    -> (r: ZoxideQueryResult)
    ensures
        r@ == (QueryResultModel {
            available: true,
            candidates: without_aliases(
                resolved_candidates(views(directories@), option_views(resolved@)),
            ),
        }),
{
    let ghost all = resolved_candidates(views(directories@), option_views(resolved@));
    let mut candidates: Vec<SearchProviderCandidate> = Vec::new();
    let mut i: usize = 0;
    while i < directories.len()
        invariant
            i <= directories@.len(),
            all == resolved_candidates(views(directories@), option_views(resolved@)),
            candidates@.len() == i,
            forall|k: int| 0 <= k < i ==> (#[trigger] candidates@[k])@ == all[k],
        decreases directories@.len() - i,
    {
        let canonical = if i < resolved.len() {
            match &resolved[i] {
                Some(path) => Some(path.clone()),
                None => None,
            }
        } else {
            None
        };
        let candidate = SearchProviderCandidate::from_shown_path(
            directories[i].shown_path.clone(),
            canonical,
            directories[i].score,
        );
        proof {
            assert(candidate@ =~= all[i as int]);
        }
        candidates.push(candidate);
        i += 1;
    }
    proof {
        assert(views(candidates@) =~= all);
    }
    ZoxideQueryResult { available: true, candidates: dedup_by_canonical_identity(candidates) }
}

} // verus!
