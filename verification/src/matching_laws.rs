//! What a query finds, in terms of the characters of the query and the text.

use vstd::prelude::*;
use crate::matching::{
    all_fuzzy, all_occur, all_start_words, alphanumeric, alphanumeric_words, is_fuzzy,
    lemma_ascii_terms, lowered, match_rank, position_sum, starts_some_word, terms_rank,
};
use crate::text::{
    ascii_lowercase, each_lowered, fields, first_occurrence, is_ascii, is_whitespace,
    lemma_fields_nonempty, lemma_fields_parted, lemma_words_spaced, occurs_at, saturated, stands_at,
    trim, words,
};
use crate::text_laws::{
    lemma_ascii_bytes, lemma_field_in_text, lemma_first_occurrence, lemma_one_word,
};

verus! {

/// Whether the characters of `term` stand in `hay` one behind the other from index `i` on.
pub open spec fn contained_at(term: Seq<char>, hay: Seq<char>, i: int) -> bool {
    &&& 0 <= i
    &&& i + term.len() <= hay.len()
    &&& forall|k: int| 0 <= k < term.len() ==> hay[i + k] == #[trigger] term[k]
}

/// Whether the characters of `term` stand in `hay` somewhere, one behind the other.
pub open spec fn contained(term: Seq<char>, hay: Seq<char>) -> bool {
    exists|i: int| #[trigger] contained_at(term, hay, i)
}

/// Whether the characters of `term` stand in `hay` at the places `at`, from left to right, with
/// anything between them.
pub open spec fn scattered_at(term: Seq<char>, hay: Seq<char>, at: Seq<int>) -> bool {
    &&& at.len() == term.len()
    &&& forall|k: int| 0 <= k < at.len() ==> 0 <= #[trigger] at[k] < hay.len()
    &&& forall|k: int| 0 <= k < at.len() ==> hay[at[k]] == #[trigger] term[k]
    &&& forall|j: int, k: int| 0 <= j < k < at.len() ==> at[j] < at[k]
}

/// Whether the characters of `term` stand in `hay` from left to right, with anything between them.
pub open spec fn scattered(term: Seq<char>, hay: Seq<char>) -> bool {
    exists|at: Seq<int>| #[trigger] scattered_at(term, hay, at)
}

/// Whether one of `pieces` starts with the characters of `term`.
pub open spec fn starts_one(term: Seq<char>, pieces: Seq<Seq<char>>) -> bool {
    exists|w: int| 0 <= w < pieces.len() && contained_at(term, #[trigger] pieces[w], 0)
}

proof fn lemma_occurs_is_contained(term: Seq<char>, hay: Seq<char>, i: int)
    ensures
        occurs_at(term, hay, i) <==> contained_at(term, hay, i),
{
    if 0 <= i && i + term.len() <= hay.len() {
        let part = hay.subrange(i, i + term.len());
        if part == term {
            assert forall|k: int| 0 <= k < term.len() implies hay[i + k] == #[trigger] term[k] by {
                assert(part[k] == hay[i + k]);
            }
        }
        if contained_at(term, hay, i) {
            assert(part =~= term);
        }
    }
}

proof fn lemma_first_is_contained(term: Seq<char>, hay: Seq<char>)
    ensures
        first_occurrence(term, hay) is Some <==> contained(term, hay),
        first_occurrence(term, hay) matches Some(i) ==> contained_at(term, hay, i as int)
            && forall|j: int| 0 <= j < i ==> !#[trigger] contained_at(term, hay, j),
{
    lemma_first_occurrence(term, hay);
    match first_occurrence(term, hay) {
        Some(i) => {
            lemma_occurs_is_contained(term, hay, i as int);
            assert forall|j: int| 0 <= j < i implies !#[trigger] contained_at(term, hay, j) by {
                lemma_occurs_is_contained(term, hay, j);
                assert(hay.subrange(j, j + term.len()) != term);
            }
        },
        None => {
            assert forall|j: int| !#[trigger] contained_at(term, hay, j) by {
                lemma_occurs_is_contained(term, hay, j);
                if contained_at(term, hay, j) {
                    assert(hay.subrange(j, j + term.len()) == term);
                }
            }
        },
    }
}

proof fn lemma_fuzzy_is_scattered(term: Seq<char>, hay: Seq<char>)
    ensures
        is_fuzzy(term, hay) <==> term.len() >= 2 && scattered(term, hay),
{
    if term.len() >= 2 && scattered(term, hay) {
        let at = choose|at: Seq<int>| #[trigger] scattered_at(term, hay, at);
        assert forall|k: int| 0 <= k < term.len() implies 0 <= #[trigger] at[k] < hay.len()
            && hay[at[k]] == term[k] by {
            assert(hay[at[k]] == term[k]);
        }
        assert(stands_at(term, hay, at));
    }
    if is_fuzzy(term, hay) {
        let at = choose|at: Seq<int>| stands_at(term, hay, at);
        assert forall|k: int| 0 <= k < at.len() implies hay[at[k]] == #[trigger] term[k] by {
            assert(0 <= at[k] < hay.len());
        }
        assert(scattered_at(term, hay, at));
    }
}

/// The rank of a query with at least one term. Best is a text in which every term starts a word,
/// next one that contains every term, and last one in which the characters of every term stand
/// from left to right; for the last a term needs two characters or more, however many. No other
/// text is found.
pub proof fn lemma_rank_by_characters(
    terms: Seq<Seq<char>>,
    pieces: Seq<Seq<char>>,
    hay: Seq<char>,
)
    requires
        terms.len() > 0,
    ensures
        ({
            let start = forall|t: int|
                0 <= t < terms.len() ==> starts_one(#[trigger] terms[t], pieces);
            let inside = forall|t: int|
                0 <= t < terms.len() ==> contained(#[trigger] terms[t], hay);
            let spread = forall|t: int|
                0 <= t < terms.len() ==> (#[trigger] terms[t]).len() >= 2 && scattered(
                    terms[t],
                    hay,
                );
            let rank = terms_rank(terms, pieces, hay);
            &&& rank is Some <==> start || inside || spread
            &&& start ==> (rank->0).0 == 0
            &&& !start && inside ==> (rank->0).0 == 1
            &&& !start && !inside && spread ==> rank->0 == (2u8, usize::MAX / 2)
        }),
{
    assert forall|t: int| 0 <= t < terms.len() implies starts_some_word(
        #[trigger] terms[t],
        pieces,
    ) == starts_one(terms[t], pieces) by {
        if starts_some_word(terms[t], pieces) {
            let w = choose|w: int|
                0 <= w < pieces.len() && #[trigger] occurs_at(terms[t], pieces[w], 0);
            lemma_occurs_is_contained(terms[t], pieces[w], 0);
        }
        if starts_one(terms[t], pieces) {
            let w = choose|w: int|
                0 <= w < pieces.len() && contained_at(terms[t], #[trigger] pieces[w], 0);
            lemma_occurs_is_contained(terms[t], pieces[w], 0);
        }
    }
    assert forall|t: int| 0 <= t < terms.len() implies (first_occurrence(
        #[trigger] terms[t],
        hay,
    ) is Some) == contained(terms[t], hay) by {
        lemma_first_is_contained(terms[t], hay);
    }
    assert forall|t: int| 0 <= t < terms.len() implies is_fuzzy(#[trigger] terms[t], hay) == (
    terms[t].len() >= 2 && scattered(terms[t], hay)) by {
        lemma_fuzzy_is_scattered(terms[t], hay);
    }
}

/// A text that holds the characters of every word of a query, from left to right, is found,
/// whatever the length of the words, as long as each has two characters or more.
pub proof fn lemma_scattered_query_found(query: Seq<char>, text: Seq<char>, at: Seq<Seq<int>>)
    requires
        at.len() == words(lowered(trim(query))).len(),
        forall|t: int|
            0 <= t < at.len() ==> words(lowered(trim(query)))[t].len() >= 2 && scattered_at(
                words(lowered(trim(query)))[t],
                lowered(text),
                #[trigger] at[t],
            ),
    ensures
        match_rank(query, text) is Some,
{
    let terms = words(lowered(trim(query)));
    let hay = lowered(text);
    if terms.len() > 0 {
        assert forall|t: int| 0 <= t < terms.len() implies (#[trigger] terms[t]).len() >= 2
            && scattered(terms[t], hay) by {
            assert(scattered_at(terms[t], hay, at[t]));
        }
        lemma_rank_by_characters(terms, alphanumeric_words(hay), hay);
    }
}

proof fn lemma_contained_is_scattered(term: Seq<char>, hay: Seq<char>, i: int)
    requires
        contained_at(term, hay, i),
    ensures
        scattered(term, hay),
{
    let at = Seq::new(term.len(), |k: int| i + k);
    assert forall|k: int| 0 <= k < at.len() implies hay[at[k]] == #[trigger] term[k] by {
        assert(hay[i + k] == term[k]);
    }
    assert(scattered_at(term, hay, at));
}

proof fn lemma_word_start_is_contained(term: Seq<char>, hay: Seq<char>)
    requires
        starts_one(term, alphanumeric_words(hay)),
    ensures
        contained(term, hay),
{
    let pieces = alphanumeric_words(hay);
    let separator = |c: char| !alphanumeric(c);
    let w = choose|w: int| 0 <= w < pieces.len() && contained_at(term, #[trigger] pieces[w], 0);
    lemma_field_in_text(hay, separator, w);
    let a = choose|a: int|
        0 <= a && a + pieces[w].len() <= hay.len() && #[trigger] hay.subrange(
            a,
            a + pieces[w].len(),
        ) == pieces[w];
    assert forall|k: int| 0 <= k < term.len() implies hay[a + k] == #[trigger] term[k] by {
        assert(pieces[w][0 + k] == term[k]);
        assert(hay.subrange(a, a + pieces[w].len())[k] == hay[a + k]);
    }
    assert(contained_at(term, hay, a));
}

/// Nothing is found by a query unless it holds the characters of every word of it, from left to
/// right.
pub proof fn lemma_found_holds_query(query: Seq<char>, text: Seq<char>, t: int)
    requires
        match_rank(query, text) is Some,
        0 <= t < words(lowered(trim(query))).len(),
    ensures
        scattered(words(lowered(trim(query)))[t], lowered(text)),
{
    let terms = words(lowered(trim(query)));
    let hay = lowered(text);
    lemma_rank_by_characters(terms, alphanumeric_words(hay), hay);
    if starts_one(terms[t], alphanumeric_words(hay)) {
        lemma_word_start_is_contained(terms[t], hay);
    }
    if contained(terms[t], hay) {
        let i = choose|i: int| #[trigger] contained_at(terms[t], hay, i);
        lemma_contained_is_scattered(terms[t], hay, i);
    }
}

// ---------------------------------------------------------------------------
// One ASCII word
// ---------------------------------------------------------------------------

/// Whether `query` is a word of ASCII characters.
pub open spec fn is_ascii_word(query: Seq<char>) -> bool {
    &&& query.len() > 0
    &&& forall|i: int| 0 <= i < query.len() ==> #[trigger] query[i] <= '\u{7f}'
    &&& forall|i: int| 0 <= i < query.len() ==> !is_whitespace(#[trigger] query[i])
}

/// The characters of `s` with the large letters of ASCII written small.
pub open spec fn small(s: Seq<char>) -> Seq<char> {
    Seq::new(s.len(), |i: int| ascii_lowercase(s[i]))
}

proof fn lemma_word_terms(query: Seq<char>)
    requires
        is_ascii_word(query),
    ensures
        words(lowered(trim(query))) == seq![small(query)],
{
    assert(is_ascii(query));
    lemma_ascii_terms(query);
    lemma_one_word(query);
    assert(each_lowered(seq![query]) =~= seq![small(query)]);
}

proof fn lemma_first_field_start(
    front: Seq<char>,
    back: Seq<char>,
    separator: spec_fn(char) -> bool,
)
    requires
        forall|i: int| 0 <= i < front.len() ==> !separator(#[trigger] front[i]),
    ensures
        contained_at(front, fields(front + back, separator)[0], 0),
    decreases back.len(),
{
    let whole = front + back;
    lemma_fields_nonempty(whole, separator);
    if back.len() == 0 {
        assert(whole =~= front);
        crate::text_laws::lemma_one_field(front, separator);
        assert(contained_at(front, front, 0));
    } else {
        assert(whole.drop_last() =~= front + back.drop_last());
        lemma_first_field_start(front, back.drop_last(), separator);
        let before = fields(whole.drop_last(), separator);
        let all = fields(whole, separator);
        lemma_fields_nonempty(whole.drop_last(), separator);
        assert forall|k: int| 0 <= k < front.len() implies all[0][0 + k] == #[trigger] front[k] by {
            assert(before[0][0 + k] == front[k]);
        }
    }
}

proof fn lemma_word_start(term: Seq<char>, hay: Seq<char>, i: int)
    requires
        contained_at(term, hay, i),
        i == 0 || !alphanumeric(hay[i - 1]),
        forall|k: int| 0 <= k < term.len() ==> alphanumeric(#[trigger] term[k]),
    ensures
        starts_one(term, alphanumeric_words(hay)),
{
    let separator = |c: char| !alphanumeric(c);
    let rest = hay.skip(i + term.len());
    let tail = hay.skip(i);
    assert(tail =~= term + rest) by {
        assert forall|k: int| 0 <= k < tail.len() implies tail[k] == (term + rest)[k] by {
            if k < term.len() {
                assert(hay[i + k] == term[k]);
            }
        }
    }
    lemma_first_field_start(term, rest, separator);
    lemma_fields_nonempty(tail, separator);
    let pieces = alphanumeric_words(hay);
    if i == 0 {
        assert(tail =~= hay);
        assert(contained_at(term, pieces[0], 0));
    } else {
        let front = hay.take(i - 1);
        assert(hay =~= front.push(hay[i - 1]) + tail);
        lemma_fields_parted(front, hay[i - 1], tail, separator);
        let n = fields(front, separator).len() as int;
        assert(pieces[n] == fields(tail, separator)[0]);
        assert(contained_at(term, pieces[n], 0));
    }
}

/// What a query of one ASCII word finds in an ASCII text, without regard to case. It finds the text
/// where it stands in it, the better where it stands at the start of a word, and the further to
/// the front the better; and, with two characters or more, also where only its characters stand
/// in the text from left to right. It finds no other text.
pub proof fn lemma_ascii_word_rank(query: Seq<char>, text: Seq<char>, i: int)
    requires
        is_ascii_word(query),
        forall|k: int| 0 <= k < text.len() ==> #[trigger] text[k] <= '\u{7f}',
        text.len() <= usize::MAX,
    ensures
        ({
            let term = small(query);
            let hay = small(text);
            let rank = match_rank(query, text);
            &&& rank is Some ==> scattered(term, hay)
            &&& scattered(term, hay) && query.len() >= 2 ==> rank is Some
            &&& contained(term, hay) ==> rank is Some && (rank->0).0 <= 1
            &&& rank is Some && !contained(term, hay) ==> rank->0 == (2u8, usize::MAX / 2)
            &&& contained_at(term, hay, i) && (forall|j: int|
                0 <= j < i ==> !#[trigger] contained_at(term, hay, j)) ==> (rank->0).1 == i
            &&& contained_at(term, hay, i) && (i == 0 || !alphanumeric(hay[i - 1])) && (forall|
                k: int,
            |
                0 <= k < term.len() ==> alphanumeric(#[trigger] term[k])) ==> (rank->0).0 == 0
            &&& rank is Some && (rank->0).0 == 0 ==> starts_one(term, alphanumeric_words(hay))
        }),
{
    let term = small(query);
    let hay = small(text);
    assert(is_ascii(text));
    assert(lowered(text) =~= hay);
    lemma_word_terms(query);
    let terms = seq![term];
    let pieces = alphanumeric_words(hay);
    lemma_rank_by_characters(terms, pieces, hay);
    assert(terms[0] == term);
    if starts_one(term, pieces) {
        lemma_word_start_is_contained(term, hay);
    }
    if contained(term, hay) {
        let j = choose|j: int| #[trigger] contained_at(term, hay, j);
        lemma_contained_is_scattered(term, hay, j);
        lemma_first_is_contained(term, hay);
        let first = first_occurrence(term, hay)->0;
        let part = hay.take(first as int);
        assert forall|k: int| 0 <= k < part.len() implies #[trigger] part[k] <= '\u{7f}' by {
            assert(text[k] <= '\u{7f}');
        }
        lemma_ascii_bytes(part);
        reveal_with_fuel(position_sum, 2);
        assert(terms.drop_last() =~= Seq::<Seq<char>>::empty());
        assert(position_sum(terms, hay) == first);
        if contained_at(term, hay, i) && (forall|j: int|
            0 <= j < i ==> !#[trigger] contained_at(term, hay, j)) {
            assert(i == first) by {
                if first < i {
                    assert(!contained_at(term, hay, first as int));
                }
            }
        }
    }
    if contained_at(term, hay, i) && (i == 0 || !alphanumeric(hay[i - 1])) && (forall|k: int|
        0 <= k < term.len() ==> alphanumeric(#[trigger] term[k])) {
        lemma_word_start(term, hay, i);
    }
}

// ---------------------------------------------------------------------------
// Several words
// ---------------------------------------------------------------------------

proof fn lemma_position_sum_joined(a: Seq<Seq<char>>, b: Seq<Seq<char>>, hay: Seq<char>)
    ensures
        position_sum(a + b, hay) == position_sum(a, hay) + position_sum(b, hay),
    decreases b.len(),
{
    if b.len() == 0 {
        assert(a + b =~= a);
    } else {
        lemma_position_sum_joined(a, b.drop_last(), hay);
        assert((a + b).drop_last() =~= a + b.drop_last());
    }
}

proof fn lemma_every_term(a: Seq<Seq<char>>, b: Seq<Seq<char>>, pieces: Seq<Seq<char>>, hay: Seq<char>)
    ensures
        all_start_words(a + b, pieces) <==> all_start_words(a, pieces) && all_start_words(b, pieces),
        all_occur(a + b, hay) <==> all_occur(a, hay) && all_occur(b, hay),
        all_fuzzy(a + b, hay) <==> all_fuzzy(a, hay) && all_fuzzy(b, hay),
{
    let all = a + b;
    assert(forall|t: int| 0 <= t < a.len() ==> a[t] == #[trigger] all[t]);
    assert(forall|t: int| 0 <= t < b.len() ==> #[trigger] b[t] == all[a.len() + t]);
    assert forall|t: int| 0 <= t < all.len() implies #[trigger] all[t] == if t < a.len() {
        a[t]
    } else {
        b[t - a.len()]
    } by {}
    if all_start_words(all, pieces) {
        assert forall|t: int| 0 <= t < a.len() implies #[trigger] starts_some_word(a[t], pieces) by {
            assert(starts_some_word(all[t], pieces));
        }
        assert forall|t: int| 0 <= t < b.len() implies #[trigger] starts_some_word(b[t], pieces) by {
            assert(starts_some_word(all[a.len() + t], pieces));
        }
    }
    if all_occur(all, hay) {
        assert forall|t: int| 0 <= t < a.len() implies (#[trigger] first_occurrence(a[t], hay))
            is Some by {
            assert(first_occurrence(all[t], hay) is Some);
        }
        assert forall|t: int| 0 <= t < b.len() implies (#[trigger] first_occurrence(b[t], hay))
            is Some by {
            assert(first_occurrence(all[a.len() + t], hay) is Some);
        }
    }
    if all_fuzzy(all, hay) {
        assert forall|t: int| 0 <= t < a.len() implies #[trigger] is_fuzzy(a[t], hay) by {
            assert(is_fuzzy(all[t], hay));
        }
        assert forall|t: int| 0 <= t < b.len() implies #[trigger] is_fuzzy(b[t], hay) by {
            assert(is_fuzzy(all[a.len() + t], hay));
        }
    }
}

proof fn lemma_starting_terms_occur(terms: Seq<Seq<char>>, hay: Seq<char>)
    requires
        all_start_words(terms, alphanumeric_words(hay)),
    ensures
        all_occur(terms, hay),
{
    let pieces = alphanumeric_words(hay);
    assert forall|t: int| 0 <= t < terms.len() implies (#[trigger] first_occurrence(
        terms[t],
        hay,
    )) is Some by {
        assert(starts_some_word(terms[t], pieces));
        let w = choose|w: int|
            0 <= w < pieces.len() && #[trigger] occurs_at(terms[t], pieces[w], 0);
        lemma_occurs_is_contained(terms[t], pieces[w], 0);
        assert(starts_one(terms[t], pieces));
        lemma_word_start_is_contained(terms[t], hay);
        lemma_first_is_contained(terms[t], hay);
    }
}

/// An ASCII query of several words finds what its parts find. Where each part stands at the start
/// of words the whole does, where each is contained the whole is, and the places add up; and what
/// the whole finds each part finds.
pub proof fn lemma_ascii_query_parts(
    a: Seq<char>,
    gap: Seq<char>,
    b: Seq<char>,
    text: Seq<char>,
)
    requires
        is_ascii(a),
        is_ascii(gap),
        is_ascii(b),
        gap.len() > 0,
        forall|i: int| 0 <= i < gap.len() ==> is_whitespace(#[trigger] gap[i]),
        words(a).len() > 0,
        words(b).len() > 0,
    ensures
        ({
            let first = match_rank(a, text);
            let second = match_rank(b, text);
            let both = match_rank(a + gap + b, text);
            let near = first is Some && (first->0).0 <= 1 && second is Some && (second->0).0 <= 1;
            &&& both is Some ==> first is Some && second is Some
            &&& near ==> both == Some(
                (
                    if (first->0).0 == 0 && (second->0).0 == 0 {
                        0u8
                    } else {
                        1u8
                    },
                    saturated((first->0).1 + (second->0).1),
                ),
            )
            &&& !near && both is Some ==> both->0 == (2u8, usize::MAX / 2)
        }),
{
    let whole = a + gap + b;
    let hay = lowered(text);
    let pieces = alphanumeric_words(hay);
    let ta = each_lowered(words(a));
    let tb = each_lowered(words(b));
    assert(is_ascii(whole));
    lemma_ascii_terms(a);
    lemma_ascii_terms(b);
    lemma_ascii_terms(whole);
    lemma_words_spaced(a, gap, b);
    assert(each_lowered(words(a) + words(b)) =~= ta + tb);
    lemma_every_term(ta, tb, pieces, hay);
    lemma_position_sum_joined(ta, tb, hay);
    if all_start_words(ta, pieces) {
        lemma_starting_terms_occur(ta, hay);
    }
    if all_start_words(tb, pieces) {
        lemma_starting_terms_occur(tb, hay);
    }
}

/// A query without a word finds every text, and none is better than another.
pub proof fn lemma_blank_query(query: Seq<char>, text: Seq<char>)
    requires
        forall|i: int| 0 <= i < query.len() ==> is_whitespace(#[trigger] query[i]),
    ensures
        match_rank(query, text) == Some((0u8, 0usize)),
{
    let none = Seq::<char>::empty();
    crate::text_laws::lemma_trimmed(query, none, none);
    assert(query + none + none =~= query);
    assert(lowered(none) =~= none);
    lemma_one_word(none);
}

} // verus!
