//! What holds of the operations on texts, in terms of the characters of the texts.

use vstd::prelude::*;
use crate::text::{
    decimal, fields, first_from, first_occurrence, is_whitespace, nonempty, trim, trim_end,
    trim_start, utf8_len, without_controls, without_prefix, words,
};

verus! {

// ---------------------------------------------------------------------------
// Taking texts apart
// ---------------------------------------------------------------------------

/// A text without separators is one field. With the law that a separator parts the fields before
/// it from the fields behind it, this says what the fields of every text are.
pub proof fn lemma_one_field(s: Seq<char>, separator: spec_fn(char) -> bool)
    requires
        forall|i: int| 0 <= i < s.len() ==> !separator(#[trigger] s[i]),
    ensures
        fields(s, separator) == seq![s],
    decreases s.len(),
{
    if s.len() == 0 {
        assert(s =~= Seq::<char>::empty());
    } else {
        let front = s.drop_last();
        assert forall|i: int| 0 <= i < front.len() implies !separator(#[trigger] front[i]) by {
            assert(!separator(s[i]));
        }
        lemma_one_field(front, separator);
        assert(seq![front].drop_last() =~= Seq::<Seq<char>>::empty());
        assert(front.push(s.last()) =~= s);
        assert(fields(s, separator) =~= seq![s]);
    }
}

/// Every field is a part of the text.
pub proof fn lemma_field_in_text(s: Seq<char>, separator: spec_fn(char) -> bool, k: int)
    requires
        0 <= k < fields(s, separator).len(),
    ensures
        exists|a: int|
            0 <= a && a + fields(s, separator)[k].len() <= s.len() && #[trigger] s.subrange(
                a,
                a + fields(s, separator)[k].len(),
            ) == fields(s, separator)[k] && (k == fields(s, separator).len() - 1 ==> a
                + fields(s, separator)[k].len() == s.len()),
    decreases s.len(),
{
    let all = fields(s, separator);
    if s.len() == 0 {
        assert(all[k].len() == 0);
        assert(s.subrange(0, 0int + all[k].len()) =~= all[k]);
    } else {
        let front = s.drop_last();
        let before = fields(front, separator);
        crate::text::lemma_fields_nonempty(front, separator);
        let last = if separator(s.last()) {
            before.len() as int
        } else {
            before.len() - 1
        };
        if k < last {
            lemma_field_in_text(front, separator, k);
            let a = choose|a: int|
                0 <= a && a + before[k].len() <= front.len() && #[trigger] front.subrange(
                    a,
                    a + before[k].len(),
                ) == before[k];
            assert(all[k] == before[k]);
            assert(s.subrange(a, a + all[k].len()) =~= all[k]);
        } else if separator(s.last()) {
            assert(all[k].len() == 0);
            assert(s.subrange(s.len() as int, s.len() as int + all[k].len()) =~= all[k]);
        } else {
            lemma_field_in_text(front, separator, k);
            let a = choose|a: int|
                0 <= a && a + before[k].len() <= front.len() && #[trigger] front.subrange(
                    a,
                    a + before[k].len(),
                ) == before[k] && a + before[k].len() == front.len();
            assert(all[k] == before[k].push(s.last()));
            assert forall|i: int| 0 <= i < all[k].len() implies s.subrange(
                a,
                a + all[k].len(),
            )[i] == #[trigger] all[k][i] by {
                if i < before[k].len() {
                    assert(front.subrange(a, a + before[k].len())[i] == before[k][i]);
                }
            }
            assert(s.subrange(a, a + all[k].len()) =~= all[k]);
        }
    }
}

/// A text without white space is one word, and an empty one has none. With the law that a run of
/// white space parts the words before it from the words behind it, this says what the words of
/// every text are.
pub proof fn lemma_one_word(s: Seq<char>)
    requires
        forall|i: int| 0 <= i < s.len() ==> !is_whitespace(#[trigger] s[i]),
    ensures
        s.len() > 0 ==> words(s) == seq![s],
        s.len() == 0 ==> words(s) == Seq::<Seq<char>>::empty(),
{
    let separator = |c: char| is_whitespace(c);
    lemma_one_field(s, separator);
    let none = Seq::<Seq<char>>::empty();
    assert(seq![s].drop_last() =~= none);
    assert(nonempty(none) == none);
    assert(s.len() > 0 ==> none.push(s) =~= seq![s]);
}

proof fn lemma_trim_start_of(front: Seq<char>, body: Seq<char>)
    requires
        forall|i: int| 0 <= i < front.len() ==> is_whitespace(#[trigger] front[i]),
        body.len() > 0 ==> !is_whitespace(body[0]),
    ensures
        trim_start(front + body) == body,
    decreases front.len(),
{
    let whole = front + body;
    if front.len() == 0 {
        assert(whole =~= body);
    } else {
        let rest = front.drop_first();
        assert(whole[0] == front[0]);
        assert(whole.drop_first() =~= rest + body);
        lemma_trim_start_of(rest, body);
    }
}

proof fn lemma_trim_end_of(body: Seq<char>, back: Seq<char>)
    requires
        forall|i: int| 0 <= i < back.len() ==> is_whitespace(#[trigger] back[i]),
        body.len() > 0 ==> !is_whitespace(body.last()),
    ensures
        trim_end(body + back) == body,
    decreases back.len(),
{
    let whole = body + back;
    if back.len() == 0 {
        assert(whole =~= body);
    } else {
        assert(whole.last() == back.last());
        assert(whole.drop_last() =~= body + back.drop_last());
        lemma_trim_end_of(body, back.drop_last());
    }
}

/// Trimming removes the white space at both ends and nothing else.
pub proof fn lemma_trimmed(front: Seq<char>, body: Seq<char>, back: Seq<char>)
    requires
        forall|i: int| 0 <= i < front.len() ==> is_whitespace(#[trigger] front[i]),
        forall|i: int| 0 <= i < back.len() ==> is_whitespace(#[trigger] back[i]),
        body.len() > 0 ==> !is_whitespace(body[0]) && !is_whitespace(body.last()),
    ensures
        trim(front + body + back) == body,
{
    let rest = body + back;
    assert(front + body + back =~= front + rest);
    if body.len() > 0 {
        assert(rest[0] == body[0]);
        lemma_trim_start_of(front, rest);
        lemma_trim_end_of(body, back);
    } else {
        assert(front + rest =~= (front + back) + body);
        lemma_trim_start_of(front + back, body);
    }
}

/// Trimming the start removes the white space there and nothing else.
pub proof fn lemma_start_trimmed(front: Seq<char>, body: Seq<char>)
    requires
        forall|i: int| 0 <= i < front.len() ==> is_whitespace(#[trigger] front[i]),
        body.len() > 0 ==> !is_whitespace(body[0]),
    ensures
        trim_start(front + body) == body,
{
    lemma_trim_start_of(front, body);
}

/// The control characters of a text are left out, and every other character is kept in its place
/// among the others.
pub proof fn lemma_controls_left_out(a: Seq<char>, c: char, b: Seq<char>)
    ensures
        without_controls(a + b) == without_controls(a) + without_controls(b),
        c <= '\u{1f}' || '\u{7f}' <= c <= '\u{9f}' ==> without_controls(seq![c]) == Seq::<
            char,
        >::empty(),
        !(c <= '\u{1f}' || '\u{7f}' <= c <= '\u{9f}') ==> without_controls(seq![c]) == seq![c],
    decreases b.len(),
{
    reveal_with_fuel(without_controls, 2);
    assert(seq![c].drop_last() =~= Seq::<char>::empty());
    assert(Seq::<char>::empty().push(c) =~= seq![c]);
    if b.len() == 0 {
        assert(a + b =~= a);
        assert(without_controls(a) + without_controls(b) =~= without_controls(a));
    } else {
        lemma_controls_left_out(a, c, b.drop_last());
        assert((a + b).drop_last() =~= a + b.drop_last());
        assert(without_controls(a + b) =~= without_controls(a) + without_controls(b));
    }
}

/// A prefix is taken off where it is there, and else nothing is.
pub proof fn lemma_prefix_removed(prefix: Seq<char>, rest: Seq<char>, s: Seq<char>)
    ensures
        without_prefix(prefix + rest, prefix) == rest,
        s.len() < prefix.len() ==> without_prefix(s, prefix) == s,
        (exists|i: int| 0 <= i < prefix.len() && i < s.len() && prefix[i] != #[trigger] s[i])
            ==> without_prefix(s, prefix) == s,
{
    let whole = prefix + rest;
    assert(whole.subrange(0, prefix.len() as int) =~= prefix);
    assert(whole.skip(prefix.len() as int) =~= rest);
    if (exists|i: int| 0 <= i < prefix.len() && i < s.len() && prefix[i] != #[trigger] s[i])
        && prefix.len() <= s.len() {
        let i = choose|i: int| 0 <= i < prefix.len() && i < s.len() && prefix[i] != #[trigger] s[i];
        assert(s.subrange(0, prefix.len() as int)[i] == s[i]);
    }
}

// ---------------------------------------------------------------------------
// Finding texts in texts
// ---------------------------------------------------------------------------

proof fn lemma_first_from(needle: Seq<char>, hay: Seq<char>, from: nat)
    ensures
        match first_from(needle, hay, from) {
            Some(i) => {
                &&& from <= i
                &&& i + needle.len() <= hay.len()
                &&& hay.subrange(i as int, (i + needle.len()) as int) == needle
                &&& forall|j: int|
                    from <= j < i ==> #[trigger] hay.subrange(j, j + needle.len()) != needle
            },
            None => forall|j: int|
                from <= j && j + needle.len() <= hay.len() ==> #[trigger] hay.subrange(
                    j,
                    j + needle.len(),
                ) != needle,
        },
    decreases hay.len() + 1 - from,
{
    if from + needle.len() <= hay.len() && hay.subrange(
        from as int,
        (from + needle.len()) as int,
    ) != needle {
        lemma_first_from(needle, hay, from + 1);
    }
}

/// The first occurrence is an occurrence, and none is further to the front. Where there is no
/// first one there is none at all.
pub proof fn lemma_first_occurrence(needle: Seq<char>, hay: Seq<char>)
    ensures
        match first_occurrence(needle, hay) {
            Some(i) => {
                &&& i + needle.len() <= hay.len()
                &&& hay.subrange(i as int, (i + needle.len()) as int) == needle
                &&& forall|j: int|
                    0 <= j < i ==> #[trigger] hay.subrange(j, j + needle.len()) != needle
            },
            None => forall|j: int|
                0 <= j && j + needle.len() <= hay.len() ==> #[trigger] hay.subrange(
                    j,
                    j + needle.len(),
                ) != needle,
        },
{
    lemma_first_from(needle, hay, 0);
}

/// A text takes as many bytes as its parts together: one for each ASCII character, and two to four
/// for each other one.
pub proof fn lemma_bytes(a: Seq<char>, b: Seq<char>, c: char)
    ensures
        utf8_len(a + b) == utf8_len(a) + utf8_len(b),
        utf8_len(seq![c]) == if c <= '\u{7f}' {
            1nat
        } else if c <= '\u{7ff}' {
            2
        } else if c <= '\u{ffff}' {
            3
        } else {
            4
        },
    decreases b.len(),
{
    reveal_with_fuel(utf8_len, 2);
    assert(seq![c].drop_last() =~= Seq::<char>::empty());
    if b.len() == 0 {
        assert(a + b =~= a);
    } else {
        lemma_bytes(a, b.drop_last(), c);
        assert((a + b).drop_last() =~= a + b.drop_last());
    }
}

/// ASCII text takes one byte for each character.
pub proof fn lemma_ascii_bytes(s: Seq<char>)
    requires
        forall|i: int| 0 <= i < s.len() ==> #[trigger] s[i] <= '\u{7f}',
    ensures
        utf8_len(s) == s.len(),
    decreases s.len(),
{
    if s.len() > 0 {
        let front = s.drop_last();
        assert forall|i: int| 0 <= i < front.len() implies #[trigger] front[i] <= '\u{7f}' by {
            assert(s[i] <= '\u{7f}');
        }
        lemma_ascii_bytes(front);
    }
}

/// The decimal form of a number has one digit more than that of a tenth of it, and a digit alone
/// stands for a number below ten.
pub proof fn lemma_decimal(n: nat, d: nat)
    requires
        d < 10,
    ensures
        n > 0 ==> decimal(10 * n + d) == decimal(n) + decimal(d),
        decimal(d).len() == 1,
        decimal(d)[0] as u32 == 48 + d,
{
    if n > 0 {
        assert((10 * n + d) / 10 == n && (10 * n + d) % 10 == d) by (nonlinear_arith)
            requires
                d < 10,
        ;
        assert(decimal(10 * n + d) =~= decimal(n) + decimal(d));
    }
}

} // verus!
