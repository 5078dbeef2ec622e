//! How well a query matches a label.

use vstd::prelude::*;
use crate::text::{
    ascii_lowered, byte_offset, chars_of, each_lowered, fields, find_text, first_occurrence,
    is_ascii, is_subsequence, is_whitespace, lemma_trim_ascii, lemma_trim_twice,
    lemma_words_lowered, lemma_words_spaced, lemma_words_trimmed, matches_at, occurs_at, saturated,
    split_fields, split_words, subsequence, trim, trim_text, utf8_len, words,
};
use crate::views::views;

verus! {

/// The lowercase form of a text, as `str::to_lowercase` gives it.
pub uninterp spec fn lowercase(s: Seq<char>) -> Seq<char>;

/// Whether a character is alphanumeric, as `char::is_alphanumeric` says.
pub uninterp spec fn alphanumeric(c: char) -> bool;

/// `str::to_lowercase`: the Unicode lowercase form of `s`. On ASCII text it writes the letters
/// small and leaves all else. On other text its result is named, not described.
#[verifier::external_body]
fn lowercase_of(s: &str) -> (r: String)
    ensures
        r@ == lowercase(s@),
        is_ascii(s@) ==> r@ == ascii_lowered(s@),
{
    s.to_lowercase()
}

/// The lowercase form of a text.
pub open spec fn lowered(s: Seq<char>) -> Seq<char> {
    if is_ascii(s) {
        ascii_lowered(s)
    } else {
        lowercase(s)
    }
}

/// `char::is_alphanumeric`: whether `c` is alphabetic or numeric in Unicode. Its result is named,
/// not described.
#[verifier::external_body]
fn is_alphanumeric(c: char) -> (b: bool)
    ensures
        b == alphanumeric(c),
{
    c.is_alphanumeric()
}

fn is_word_break(c: char) -> (b: bool)
    ensures
        b == !alphanumeric(c),
{
    !is_alphanumeric(c)
}

/// A match quality with a position sum. Smaller pairs are better matches.
pub type Rank = (u8, usize);

/// Lexicographic order of ranks.
pub open spec fn rank_lt(a: Rank, b: Rank) -> bool {
    a.0 < b.0 || (a.0 == b.0 && a.1 < b.1)
}

/// The quality of a match in which every term starts a word.
pub const QUALITY_WORD_PREFIX: u8 = 0;

/// The quality of a match in which every term occurs somewhere.
pub const QUALITY_SUBSTRING: u8 = 1;

/// The quality of a match in which every term is a subsequence.
pub const QUALITY_FUZZY: u8 = 2;

/// The byte offset at which `term` first occurs in `hay`, or zero where it does not.
pub open spec fn term_offset(term: Seq<char>, hay: Seq<char>) -> nat {
    match first_occurrence(term, hay) {
        Some(i) => utf8_len(hay.take(i as int)),
        None => 0,
    }
}

/// The sum of the byte offsets at which `terms` first occur in `hay`; a term that does not
/// occur adds nothing.
pub open spec fn position_sum(terms: Seq<Seq<char>>, hay: Seq<char>) -> nat
    decreases terms.len(),
{
    if terms.len() == 0 {
        0
    } else {
        position_sum(terms.drop_last(), hay) + term_offset(terms.last(), hay)
    }
}

/// Whether `term` starts one of `words`.
pub open spec fn starts_some_word(term: Seq<char>, words: Seq<Seq<char>>) -> bool {
    exists|w: int| 0 <= w < words.len() && #[trigger] occurs_at(term, words[w], 0)
}

/// Whether every one of `terms` starts one of `words`.
pub open spec fn all_start_words(terms: Seq<Seq<char>>, words: Seq<Seq<char>>) -> bool {
    forall|t: int| 0 <= t < terms.len() ==> #[trigger] starts_some_word(terms[t], words)
}

/// Whether every one of `terms` occurs in `hay`.
pub open spec fn all_occur(terms: Seq<Seq<char>>, hay: Seq<char>) -> bool {
    forall|t: int| 0 <= t < terms.len() ==> (#[trigger] first_occurrence(terms[t], hay)) is Some
}

/// Whether `term` has at least two characters and is a subsequence of `hay`.
pub open spec fn is_fuzzy(term: Seq<char>, hay: Seq<char>) -> bool {
    term.len() > 1 && is_subsequence(term, hay)
}

/// Whether every one of `terms` matches `hay` fuzzily.
pub open spec fn all_fuzzy(terms: Seq<Seq<char>>, hay: Seq<char>) -> bool {
    forall|t: int| 0 <= t < terms.len() ==> #[trigger] is_fuzzy(terms[t], hay)
}

/// The rank of `terms` against the text `hay` with the words `words`.
pub open spec fn terms_rank(
    terms: Seq<Seq<char>>,
    words: Seq<Seq<char>>,
    hay: Seq<char>,
) -> Option<Rank> {
    if terms.len() == 0 {
        Some((QUALITY_WORD_PREFIX, 0usize))
    } else if all_start_words(terms, words) {
        Some((QUALITY_WORD_PREFIX, saturated(position_sum(terms, hay) as int)))
    } else if all_occur(terms, hay) {
        Some((QUALITY_SUBSTRING, saturated(position_sum(terms, hay) as int)))
    } else if all_fuzzy(terms, hay) {
        Some((QUALITY_FUZZY, usize::MAX / 2))
    } else {
        None
    }
}

/// The pieces of `s` between characters that are not alphanumeric.
pub open spec fn alphanumeric_words(s: Seq<char>) -> Seq<Seq<char>> {
    fields(s, |c: char| !alphanumeric(c))
}

/// The rank of `query` against `text`. Both are compared in lowercase, the query by its words.
/// A query without a word matches every text best.
pub open spec fn match_rank(query: Seq<char>, text: Seq<char>) -> Option<Rank> {
    let hay = lowered(text);
    terms_rank(words(lowered(trim(query))), alphanumeric_words(hay), hay)
}

/// A text that matches better in kind ranks before one that matches worse, whatever the positions
/// are: terms that all start words come before terms that all occur, and those before terms that
/// are only subsequences.
pub proof fn lemma_rank_tiers(
    terms: Seq<Seq<char>>,
    words_a: Seq<Seq<char>>,
    a: Seq<char>,
    words_b: Seq<Seq<char>>,
    b: Seq<char>,
)
    requires
        terms.len() > 0,
        terms_rank(terms, words_b, b) is Some,
        !all_start_words(terms, words_b),
        all_start_words(terms, words_a) || (all_occur(terms, a) && !all_occur(terms, b)),
    ensures
        terms_rank(terms, words_a, a) is Some,
        rank_lt(terms_rank(terms, words_a, a)->0, terms_rank(terms, words_b, b)->0),
{
}

/// A text matches exactly where every term starts a word, or every term occurs, or every term is
/// a subsequence of two or more characters.
pub proof fn lemma_matches_iff(terms: Seq<Seq<char>>, words: Seq<Seq<char>>, hay: Seq<char>)
    ensures
        terms_rank(terms, words, hay) is Some <==> terms.len() == 0 || all_start_words(terms, words)
            || all_occur(terms, hay) || all_fuzzy(terms, hay),
{
}

/// Among texts of the same kind of match, the one in which the terms stand further to the front
/// ranks first; a query without a term matches every text alike.
pub proof fn lemma_rank_within_tier(
    terms: Seq<Seq<char>>,
    words_a: Seq<Seq<char>>,
    a: Seq<char>,
    words_b: Seq<Seq<char>>,
    b: Seq<char>,
)
    requires
        terms.len() > 0,
        all_start_words(terms, words_a),
        all_start_words(terms, words_b),
        position_sum(terms, a) < position_sum(terms, b) <= usize::MAX,
    ensures
        rank_lt(terms_rank(terms, words_a, a)->0, terms_rank(terms, words_b, b)->0),
{
}

proof fn lemma_position_sum_remove(terms: Seq<Seq<char>>, hay: Seq<char>, i: int)
    requires
        0 <= i < terms.len(),
    ensures
        position_sum(terms, hay) == position_sum(terms.remove(i), hay) + term_offset(terms[i], hay),
    decreases terms.len(),
{
    if i == terms.len() - 1 {
        assert(terms.remove(i) =~= terms.drop_last());
    } else {
        lemma_position_sum_remove(terms.drop_last(), hay, i);
        assert(terms.remove(i).drop_last() =~= terms.drop_last().remove(i));
        assert(terms.remove(i).last() == terms.last());
    }
}

proof fn lemma_position_sum_order(a: Seq<Seq<char>>, b: Seq<Seq<char>>, hay: Seq<char>)
    requires
        a.to_multiset() == b.to_multiset(),
    ensures
        position_sum(a, hay) == position_sum(b, hay),
    decreases a.len(),
{
    broadcast use vstd::seq_lib::group_to_multiset_ensures;

    assert(a.len() == a.to_multiset().len());
    assert(b.len() == b.to_multiset().len());
    if a.len() > 0 {
        let x = a.last();
        assert(a.contains(x));
        assert(b.to_multiset().count(x) > 0);
        assert(b.contains(x));
        let i = choose|i: int| 0 <= i < b.len() && b[i] == x;
        lemma_position_sum_remove(b, hay, i);
        assert(a.drop_last().to_multiset() =~= b.remove(i).to_multiset()) by {
            assert(a =~= a.drop_last().push(x));
            assert(a.to_multiset() =~= a.drop_last().to_multiset().insert(x));
            assert(b.remove(i).to_multiset() =~= b.to_multiset().remove(x));
        }
        lemma_position_sum_order(a.drop_last(), b.remove(i), hay);
    }
}

proof fn lemma_same_terms(
    a: Seq<Seq<char>>,
    b: Seq<Seq<char>>,
    words: Seq<Seq<char>>,
    hay: Seq<char>,
)
    requires
        forall|t: int| 0 <= t < a.len() ==> b.contains(#[trigger] a[t]),
    ensures
        all_start_words(b, words) ==> all_start_words(a, words),
        all_occur(b, hay) ==> all_occur(a, hay),
        all_fuzzy(b, hay) ==> all_fuzzy(a, hay),
{
    assert forall|t: int| 0 <= t < a.len() implies exists|u: int|
        0 <= u < b.len() && b[u] == #[trigger] a[t] by {
        assert(b.contains(a[t]));
    }
}

/// The rank does not depend on the order of the terms.
pub proof fn lemma_term_order(
    a: Seq<Seq<char>>,
    b: Seq<Seq<char>>,
    words: Seq<Seq<char>>,
    hay: Seq<char>,
)
    requires
        a.to_multiset() == b.to_multiset(),
    ensures
        terms_rank(a, words, hay) == terms_rank(b, words, hay),
{
    broadcast use vstd::seq_lib::group_to_multiset_ensures;

    lemma_position_sum_order(a, b, hay);
    assert(a.len() == a.to_multiset().len());
    assert(b.len() == b.to_multiset().len());
    assert forall|t: int| 0 <= t < a.len() implies b.contains(#[trigger] a[t]) by {
        assert(a.contains(a[t]));
        assert(b.to_multiset().count(a[t]) > 0);
    }
    assert forall|t: int| 0 <= t < b.len() implies a.contains(#[trigger] b[t]) by {
        assert(b.contains(b[t]));
        assert(a.to_multiset().count(b[t]) > 0);
    }
    lemma_same_terms(a, b, words, hay);
    lemma_same_terms(b, a, words, hay);
}

/// The rank of a query depends on the words of its lowercase text alone: neither the spacing
/// between them nor their order counts.
pub proof fn lemma_query_words(a: Seq<char>, b: Seq<char>, text: Seq<char>)
    requires
        words(lowered(trim(a))).to_multiset() == words(lowered(trim(b))).to_multiset(),
    ensures
        match_rank(a, text) == match_rank(b, text),
{
    let hay = lowered(text);
    lemma_term_order(
        words(lowered(trim(a))),
        words(lowered(trim(b))),
        alphanumeric_words(hay),
        hay,
    );
}

/// Two queries whose lowercase texts differ in the length of a run of white space alone have the
/// same rank.
pub proof fn lemma_query_spacing(
    a: Seq<char>,
    b: Seq<char>,
    text: Seq<char>,
    front: Seq<char>,
    first_gap: Seq<char>,
    second_gap: Seq<char>,
    back: Seq<char>,
)
    requires
        lowered(trim(a)) == front + first_gap + back,
        lowered(trim(b)) == front + second_gap + back,
        first_gap.len() > 0,
        second_gap.len() > 0,
        forall|i: int| 0 <= i < first_gap.len() ==> is_whitespace(#[trigger] first_gap[i]),
        forall|i: int| 0 <= i < second_gap.len() ==> is_whitespace(#[trigger] second_gap[i]),
    ensures
        match_rank(a, text) == match_rank(b, text),
{
    lemma_words_spaced(front, first_gap, back);
    lemma_words_spaced(front, second_gap, back);
}

/// The terms of an ASCII query are its words, written small.
pub proof fn lemma_ascii_terms(query: Seq<char>)
    requires
        is_ascii(query),
    ensures
        words(lowered(trim(query))) == each_lowered(words(query)),
{
    lemma_trim_ascii(query);
    lemma_words_lowered(trim(query));
    lemma_words_trimmed(query);
}

/// The rank of an ASCII query depends on its words alone, written small: neither their order, nor
/// the white space around and between them, nor the case of their letters counts.
pub proof fn lemma_ascii_query(a: Seq<char>, b: Seq<char>, text: Seq<char>)
    requires
        is_ascii(a),
        is_ascii(b),
        each_lowered(words(a)).to_multiset() == each_lowered(words(b)).to_multiset(),
    ensures
        match_rank(a, text) == match_rank(b, text),
{
    lemma_ascii_terms(a);
    lemma_ascii_terms(b);
    lemma_query_words(a, b, text);
}

/// The length of a run of white space in an ASCII query does not count.
pub proof fn lemma_ascii_query_spacing(
    front: Seq<char>,
    first_gap: Seq<char>,
    second_gap: Seq<char>,
    back: Seq<char>,
    text: Seq<char>,
)
    requires
        is_ascii(front),
        is_ascii(first_gap),
        is_ascii(second_gap),
        is_ascii(back),
        first_gap.len() > 0,
        second_gap.len() > 0,
        forall|i: int| 0 <= i < first_gap.len() ==> is_whitespace(#[trigger] first_gap[i]),
        forall|i: int| 0 <= i < second_gap.len() ==> is_whitespace(#[trigger] second_gap[i]),
    ensures
        match_rank(front + first_gap + back, text) == match_rank(front + second_gap + back, text),
{
    lemma_words_spaced(front, first_gap, back);
    lemma_words_spaced(front, second_gap, back);
    lemma_ascii_query(front + first_gap + back, front + second_gap + back, text);
}

/// The case of the letters of an ASCII query does not count.
pub proof fn lemma_ascii_query_case(a: Seq<char>, b: Seq<char>, text: Seq<char>)
    requires
        is_ascii(a),
        is_ascii(b),
        ascii_lowered(a) == ascii_lowered(b),
    ensures
        match_rank(a, text) == match_rank(b, text),
{
    lemma_words_lowered(a);
    lemma_words_lowered(b);
    lemma_ascii_query(a, b, text);
}

/// The case of the letters of an ASCII text does not count.
pub proof fn lemma_ascii_text_case(query: Seq<char>, a: Seq<char>, b: Seq<char>)
    requires
        is_ascii(a),
        is_ascii(b),
        ascii_lowered(a) == ascii_lowered(b),
    ensures
        match_rank(query, a) == match_rank(query, b),
{
}

/// White space around a query does not count.
pub proof fn lemma_query_trimmed(query: Seq<char>, text: Seq<char>)
    ensures
        match_rank(trim(query), text) == match_rank(query, text),
{
    lemma_trim_twice(query);
}

/// Sums the byte offsets at which `terms` first occur in `haystack`.
pub fn workspace_switcher_match_position_sum(terms: &Vec<Vec<char>>, haystack: &Vec<char>) -> (r:
    usize)
    ensures
        r == saturated(position_sum(views(terms@), haystack@) as int),
{
    let ghost all = views(terms@);
    let mut sum: usize = 0;
    let mut t: usize = 0;
    proof {
        assert(all.take(0) =~= Seq::<Seq<char>>::empty());
    }
    while t < terms.len()
        invariant
            t <= terms@.len(),
            all == views(terms@),
            sum == saturated(position_sum(all.take(t as int), haystack@) as int),
        decreases terms@.len() - t,
    {
        proof {
            assert(all.take(t + 1).drop_last() =~= all.take(t as int));
        }
        if let Some(i) = find_text(&terms[t], haystack) {
            sum = sum.saturating_add(byte_offset(haystack, i));
        }
        t += 1;
    }
    proof {
        assert(all.take(t as int) =~= all);
    }
    sum
}

/// Tests whether `needle` is a subsequence of `haystack`.
pub fn workspace_switcher_fuzzy_match(needle: &Vec<char>, haystack: &Vec<char>) -> (b: bool)
    ensures
        b == is_subsequence(needle@, haystack@),
{
    subsequence(needle, haystack)
}

fn term_starts_word(term: &Vec<char>, words: &Vec<Vec<char>>) -> (b: bool)
    ensures
        b == starts_some_word(term@, views(words@)),
{
    let mut w: usize = 0;
    while w < words.len()
        invariant
            w <= words@.len(),
            forall|k: int| 0 <= k < w ==> !#[trigger] occurs_at(term@, views(words@)[k], 0),
        decreases words@.len() - w,
    {
        if matches_at(term, &words[w], 0) {
            proof {
                assert(occurs_at(term@, views(words@)[w as int], 0));
            }
            return true;
        }
        w += 1;
    }
    false
}

/// Ranks `terms` against the text `haystack` with the words `words`: every term a word prefix,
/// else every term a substring, else every term of two or more characters a subsequence.
pub fn rank_terms(terms: &Vec<Vec<char>>, words: &Vec<Vec<char>>, haystack: &Vec<char>) -> (r:
    Option<Rank>)
    ensures
        r == terms_rank(views(terms@), views(words@), haystack@),
{
    if terms.len() == 0 {
        return Some((QUALITY_WORD_PREFIX, 0));
    }
    let mut prefix = true;
    let mut substring = true;
    let mut fuzzy = true;
    let mut t: usize = 0;
    let ghost all = views(terms@);
    while t < terms.len()
        invariant
            t <= terms@.len(),
            all == views(terms@),
            prefix == (forall|k: int|
                0 <= k < t ==> #[trigger] starts_some_word(all[k], views(words@))),
            substring == (forall|k: int|
                0 <= k < t ==> (#[trigger] first_occurrence(all[k], haystack@)) is Some),
            fuzzy == (forall|k: int| 0 <= k < t ==> #[trigger] is_fuzzy(all[k], haystack@)),
        decreases terms@.len() - t,
    {
        let term = &terms[t];
        proof {
            assert(all[t as int] == term@);
            assert(is_fuzzy(all[t as int], haystack@) == is_fuzzy(term@, haystack@));
        }
        let term_prefix = term_starts_word(term, words);
        let term_substring = find_text(term, haystack).is_some();
        let term_fuzzy = term.len() > 1 && workspace_switcher_fuzzy_match(term, haystack);
        prefix = prefix && term_prefix;
        substring = substring && term_substring;
        fuzzy = fuzzy && term_fuzzy;
        t += 1;
    }
    proof {
        assert(prefix == all_start_words(all, views(words@)));
        assert(substring == all_occur(all, haystack@));
        assert(fuzzy == all_fuzzy(all, haystack@));
    }
    if prefix {
        Some((QUALITY_WORD_PREFIX, workspace_switcher_match_position_sum(terms, haystack)))
    } else if substring {
        Some((QUALITY_SUBSTRING, workspace_switcher_match_position_sum(terms, haystack)))
    } else if fuzzy {
        Some((QUALITY_FUZZY, usize::MAX / 2))
    } else {
        None
    }
}

/// Ranks `query` against `text`.
pub fn workspace_switcher_match_rank(query: &str, text: &str) -> (r: Option<Rank>)
    ensures
        r == match_rank(query@, text@),
{
    let trimmed = trim_text(query);
    let small = lowercase_of(trimmed.as_str());
    let terms = split_words(&chars_of(small.as_str()));
    let haystack = chars_of(lowercase_of(text).as_str());
    let words = split_fields(&haystack, is_word_break, Ghost(|c: char| !alphanumeric(c)));
    rank_terms(&terms, &words, &haystack)
}

/// Ranks `query` against `text`; the picker and the switcher rank alike.
pub fn workspace_picker_match_rank(query: &str, text: &str) -> (r: Option<Rank>)
    ensures
        r == match_rank(query@, text@),
{
    workspace_switcher_match_rank(query, text)
}

/// Sums the byte offsets at which `terms` first occur in `haystack`.
pub fn workspace_picker_match_position_sum(terms: &Vec<Vec<char>>, haystack: &Vec<char>) -> (r:
    usize)
    ensures
        r == saturated(position_sum(views(terms@), haystack@) as int),
{
    workspace_switcher_match_position_sum(terms, haystack)
}

/// Tests whether `needle` is a subsequence of `haystack`.
pub fn workspace_picker_fuzzy_match(needle: &Vec<char>, haystack: &Vec<char>) -> (b: bool)
    ensures
        b == is_subsequence(needle@, haystack@),
{
    subsequence(needle, haystack)
}

} // verus!
