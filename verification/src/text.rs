//! Operations on text, specified on sequences of characters.

use vstd::prelude::*;
use vstd::string::*;
use crate::views::{lemma_views_empty, lemma_views_push, views};

verus! {

/// `String::push` appends one character.
pub assume_specification[ String::push ](s: &mut String, c: char)
    ensures
        final(s)@ == old(s)@.push(c),
;

/// `String::pop` removes the last character and returns it; an empty string gives `None`
/// and stays empty.
pub assume_specification[ String::pop ](s: &mut String) -> (c: Option<char>)
    ensures
        final(s)@ == without_last(old(s)@),
        c == (if old(s)@.len() == 0 { None } else { Some(old(s)@.last()) }),
;

/// `String::clear` leaves the empty string.
pub assume_specification[ String::clear ](s: &mut String)
    ensures
        final(s)@ == Seq::<char>::empty(),
;

/// `s` without its last character; an empty text stays empty.
pub open spec fn without_last(s: Seq<char>) -> Seq<char> {
    if s.len() == 0 {
        s
    } else {
        s.drop_last()
    }
}

/// Whether `c` has the Unicode property `White_Space`.
pub open spec fn is_whitespace(c: char) -> bool {
    ||| '\u{9}' <= c <= '\u{d}'
    ||| c == ' '
    ||| c == '\u{85}'
    ||| c == '\u{a0}'
    ||| c == '\u{1680}'
    ||| '\u{2000}' <= c <= '\u{200a}'
    ||| c == '\u{2028}'
    ||| c == '\u{2029}'
    ||| c == '\u{202f}'
    ||| c == '\u{205f}'
    ||| c == '\u{3000}'
}

/// Whether `c` is a control character (general category `Cc`).
pub open spec fn is_control(c: char) -> bool {
    c <= '\u{1f}' || '\u{7f}' <= c <= '\u{9f}'
}

/// Whether every character of `s` is an ASCII character.
pub open spec fn is_ascii(s: Seq<char>) -> bool {
    forall|i: int| 0 <= i < s.len() ==> #[trigger] s[i] <= '\u{7f}'
}

/// `c`, written small where it is a large letter of ASCII.
pub open spec fn ascii_lowercase(c: char) -> char {
    if 'A' <= c <= 'Z' {
        ((c as u8 + 32) as u8) as char
    } else {
        c
    }
}

/// `s` with the large letters of ASCII written small.
pub open spec fn ascii_lowered(s: Seq<char>) -> Seq<char> {
    Seq::new(s.len(), |i: int| ascii_lowercase(s[i]))
}

/// Tests for `White_Space`.
pub fn char_is_whitespace(c: char) -> (b: bool)
    ensures
        b == is_whitespace(c),
{
    ('\u{9}' <= c && c <= '\u{d}') || c == ' ' || c == '\u{85}' || c == '\u{a0}'
        || c == '\u{1680}' || ('\u{2000}' <= c && c <= '\u{200a}') || c == '\u{2028}'
        || c == '\u{2029}' || c == '\u{202f}' || c == '\u{205f}' || c == '\u{3000}'
}

/// Tests for the general category `Cc`.
pub fn char_is_control(c: char) -> (b: bool)
    ensures
        b == is_control(c),
{
    c <= '\u{1f}' || ('\u{7f}' <= c && c <= '\u{9f}')
}

/// The characters of `s`.
pub fn chars_of(s: &str) -> (chars: Vec<char>)
    ensures
        chars@ == s@,
{
    let mut chars: Vec<char> = Vec::new();
    for c in it: s.chars()
        invariant
            it.seq() == s@,
            chars@ == s@.take(it.index()),
    {
        proof {
            assert(s@.take(it.index() + 1) =~= s@.take(it.index()).push(s@[it.index()]));
        }
        chars.push(c);
    }
    proof {
        assert(s@.take(s@.len() as int) =~= s@);
    }
    chars
}

/// The text made of the characters from `from` up to `to`.
pub fn text_of(chars: &Vec<char>, from: usize, to: usize) -> (s: String)
    requires
        from <= to <= chars@.len(),
    ensures
        s@ == chars@.subrange(from as int, to as int),
{
    let mut s = String::new();
    let mut i: usize = from;
    while i < to
        invariant
            from <= i <= to <= chars@.len(),
            s@ == chars@.subrange(from as int, i as int),
        decreases to - i,
    {
        proof {
            assert(chars@.subrange(from as int, i + 1)
                =~= chars@.subrange(from as int, i as int).push(chars@[i as int]));
        }
        s.push(chars[i]);
        i += 1;
    }
    s
}

/// `s` from its first character that is not white space.
pub open spec fn trim_start(s: Seq<char>) -> Seq<char>
    decreases s.len(),
{
    if s.len() > 0 && is_whitespace(s[0]) {
        trim_start(s.drop_first())
    } else {
        s
    }
}

/// `s` up to its last character that is not white space.
pub open spec fn trim_end(s: Seq<char>) -> Seq<char>
    decreases s.len(),
{
    if s.len() > 0 && is_whitespace(s.last()) {
        trim_end(s.drop_last())
    } else {
        s
    }
}

/// `s` without the white space at both ends.
pub open spec fn trim(s: Seq<char>) -> Seq<char> {
    trim_end(trim_start(s))
}

/// The first index from `from` on that does not hold white space.
pub fn skip_whitespace(chars: &Vec<char>, from: usize) -> (i: usize)
    requires
        from <= chars@.len(),
    ensures
        from <= i <= chars@.len(),
        trim_start(chars@.skip(from as int)) == chars@.skip(i as int),
{
    let mut i: usize = from;
    while i < chars.len() && char_is_whitespace(chars[i])
        invariant
            from <= i <= chars@.len(),
            trim_start(chars@.skip(from as int)) == trim_start(chars@.skip(i as int)),
        decreases chars@.len() - i,
    {
        proof {
            assert(chars@.skip(i as int).drop_first() =~= chars@.skip(i + 1));
        }
        i += 1;
    }
    i
}

/// Removes leading and trailing white space.
pub fn trim_text(s: &str) -> (t: String)
    ensures
        t@ == trim(s@),
{
    let chars = chars_of(s);
    proof {
        assert(chars@.skip(0) =~= chars@);
    }
    let from: usize = skip_whitespace(&chars, 0);
    let mut to: usize = chars.len();
    proof {
        assert(chars@.subrange(from as int, to as int) =~= chars@.skip(from as int));
    }
    while to > from && char_is_whitespace(chars[to - 1])
        invariant
            from <= to <= chars@.len(),
            trim(s@) == trim_end(chars@.subrange(from as int, to as int)),
        decreases to,
    {
        proof {
            let t = chars@.subrange(from as int, to as int);
            assert(t.drop_last() =~= chars@.subrange(from as int, to - 1));
            assert(t.last() == chars@[to - 1]);
        }
        to -= 1;
    }
    proof {
        let t = chars@.subrange(from as int, to as int);
        assert(t.len() > 0 ==> t.last() == chars@[to - 1]);
    }
    text_of(&chars, from, to)
}

proof fn lemma_trim_start_ends(s: Seq<char>)
    ensures
        trim_start(s).len() > 0 ==> !is_whitespace(trim_start(s)[0]),
    decreases s.len(),
{
    if s.len() > 0 && is_whitespace(s[0]) {
        lemma_trim_start_ends(s.drop_first());
    }
}

proof fn lemma_trim_end_ends(s: Seq<char>)
    ensures
        trim_end(s).len() <= s.len(),
        trim_end(s).len() > 0 ==> !is_whitespace(trim_end(s).last()) && trim_end(s)[0] == s[0],
    decreases s.len(),
{
    if s.len() > 0 && is_whitespace(s.last()) {
        lemma_trim_end_ends(s.drop_last());
    }
}

/// A text without white space at its ends has nothing more to trim.
pub proof fn lemma_trim_twice(s: Seq<char>)
    ensures
        trim(trim(s)) == trim(s),
{
    lemma_trim_start_ends(s);
    lemma_trim_end_ends(trim_start(s));
}

/// The pieces of `s` between the characters that satisfy `separator`: one more than there are
/// such characters, each possibly empty.
pub open spec fn fields(s: Seq<char>, separator: spec_fn(char) -> bool) -> Seq<Seq<char>>
    decreases s.len(),
{
    if s.len() == 0 {
        seq![Seq::<char>::empty()]
    } else {
        let before = fields(s.drop_last(), separator);
        if separator(s.last()) {
            before.push(Seq::<char>::empty())
        } else {
            before.drop_last().push(before.last().push(s.last()))
        }
    }
}

/// A text has at least one field.
pub proof fn lemma_fields_nonempty(s: Seq<char>, separator: spec_fn(char) -> bool)
    ensures
        fields(s, separator).len() > 0,
    decreases s.len(),
{
    if s.len() > 0 {
        lemma_fields_nonempty(s.drop_last(), separator);
    }
}

/// Splits `chars` at every character for which `is_separator` holds.
pub(crate) fn split_fields<F: Fn(char) -> bool>(
    chars: &Vec<char>,
    is_separator: F,
    Ghost(separator): Ghost<spec_fn(char) -> bool>,
) -> (out: Vec<Vec<char>>)
    requires
        forall|c: char| is_separator.requires((c,)),
        forall|c: char, b: bool| is_separator.ensures((c,), b) ==> b == separator(c),
    ensures
        views(out@) == fields(chars@, separator),
{
    broadcast use {lemma_views_push, lemma_views_empty};

    let mut out: Vec<Vec<char>> = Vec::new();
    let mut current: Vec<char> = Vec::new();
    let mut i: usize = 0;
    proof {
        assert(chars@.take(0) =~= Seq::<char>::empty());
        assert(views(out@).push(current@) =~= fields(chars@.take(0), separator));
    }
    while i < chars.len()
        invariant
            i <= chars@.len(),
            forall|c: char| is_separator.requires((c,)),
            forall|c: char, b: bool| is_separator.ensures((c,), b) ==> b == separator(c),
            views(out@).push(current@) == fields(chars@.take(i as int), separator),
        decreases chars@.len() - i,
    {
        broadcast use {lemma_views_push, lemma_views_empty};

        let c = chars[i];
        let ghost so_far = views(out@).push(current@);
        proof {
            assert(chars@.take(i + 1).drop_last() =~= chars@.take(i as int));
            assert(chars@.take(i + 1).last() == c);
            assert(so_far.drop_last() =~= views(out@));
            assert(so_far.last() == current@);
        }
        if is_separator(c) {
            out.push(current);
            current = Vec::new();
        } else {
            current.push(c);
        }
        i += 1;
    }
    proof {
        assert(chars@.take(i as int) =~= chars@);
    }
    out.push(current);
    out
}

/// The items of `s` that are not empty.
pub open spec fn nonempty(s: Seq<Seq<char>>) -> Seq<Seq<char>>
    decreases s.len(),
{
    if s.len() == 0 {
        s
    } else if s.last().len() == 0 {
        nonempty(s.drop_last())
    } else {
        nonempty(s.drop_last()).push(s.last())
    }
}

/// The words of `s`: its maximal runs of characters that are not white space.
pub open spec fn words(s: Seq<char>) -> Seq<Seq<char>> {
    nonempty(fields(s, |c: char| is_whitespace(c)))
}

proof fn lemma_nonempty_push(s: Seq<Seq<char>>, field: Seq<char>)
    ensures
        nonempty(s.push(field)) == if field.len() == 0 {
            nonempty(s)
        } else {
            nonempty(s).push(field)
        },
{
    assert(s.push(field).drop_last() =~= s);
}

/// A white space character parts the words before it from the words behind it.
proof fn lemma_words_parted(front: Seq<char>, gap: char, back: Seq<char>)
    requires
        is_whitespace(gap),
    ensures
        words(front.push(gap) + back) == words(front) + words(back),
{
    let separator = |c: char| is_whitespace(c);
    lemma_fields_parted(front, gap, back, separator);
    lemma_nonempty_joined(fields(front, separator), fields(back, separator));
}

/// A separator parts the fields before it from the fields behind it.
pub proof fn lemma_fields_parted(
    front: Seq<char>,
    gap: char,
    back: Seq<char>,
    separator: spec_fn(char) -> bool,
)
    requires
        separator(gap),
    ensures
        fields(front.push(gap) + back, separator) == fields(front, separator) + fields(
            back,
            separator,
        ),
    decreases back.len(),
{
    let whole = front.push(gap) + back;
    if back.len() == 0 {
        assert(whole.drop_last() =~= front);
        assert(fields(front, separator).push(Seq::<char>::empty()) =~= fields(front, separator)
            + fields(back, separator));
    } else {
        lemma_fields_parted(front, gap, back.drop_last(), separator);
        lemma_fields_nonempty(back.drop_last(), separator);
        assert(whole.drop_last() =~= front.push(gap) + back.drop_last());
        assert(whole.last() == back.last());
        assert(fields(whole, separator) =~= fields(front, separator) + fields(back, separator));
    }
}

proof fn lemma_nonempty_joined(a: Seq<Seq<char>>, b: Seq<Seq<char>>)
    ensures
        nonempty(a + b) == nonempty(a) + nonempty(b),
    decreases b.len(),
{
    if b.len() == 0 {
        assert(a + b =~= a);
        assert(nonempty(a) + nonempty(b) =~= nonempty(a));
    } else {
        lemma_nonempty_joined(a, b.drop_last());
        assert((a + b).drop_last() =~= a + b.drop_last());
        assert(nonempty(a + b) =~= nonempty(a) + nonempty(b));
    }
}

proof fn lemma_words_empty()
    ensures
        words(Seq::<char>::empty()) == Seq::<Seq<char>>::empty(),
{
    let none = Seq::<char>::empty();
    lemma_nonempty_push(Seq::<Seq<char>>::empty(), none);
    assert(fields(none, |c: char| is_whitespace(c)) =~= Seq::<Seq<char>>::empty().push(none));
}

/// A run of white space, however long, parts the words before it from the words behind it.
pub proof fn lemma_words_spaced(front: Seq<char>, gap: Seq<char>, back: Seq<char>)
    requires
        gap.len() > 0,
        forall|i: int| 0 <= i < gap.len() ==> is_whitespace(#[trigger] gap[i]),
    ensures
        words(front + gap + back) == words(front) + words(back),
    decreases gap.len(),
{
    let rest = gap.drop_last();
    assert(front + gap + back =~= (front + rest).push(gap.last()) + back);
    lemma_words_parted(front + rest, gap.last(), back);
    if rest.len() == 0 {
        assert(front + rest =~= front);
    } else {
        let none = Seq::<char>::empty();
        lemma_words_spaced(front, rest, none);
        assert(front + rest + none =~= front + rest);
        lemma_words_empty();
        assert(words(front) + words(none) =~= words(front));
    }
}

proof fn lemma_words_trim_start(s: Seq<char>)
    ensures
        words(trim_start(s)) == words(s),
    decreases s.len(),
{
    if s.len() > 0 && is_whitespace(s[0]) {
        let none = Seq::<char>::empty();
        lemma_words_trim_start(s.drop_first());
        lemma_words_parted(none, s[0], s.drop_first());
        lemma_words_empty();
        assert(none.push(s[0]) + s.drop_first() =~= s);
        assert(words(none) + words(s.drop_first()) =~= words(s.drop_first()));
    }
}

proof fn lemma_words_trim_end(s: Seq<char>)
    ensures
        words(trim_end(s)) == words(s),
    decreases s.len(),
{
    if s.len() > 0 && is_whitespace(s.last()) {
        let none = Seq::<char>::empty();
        lemma_words_trim_end(s.drop_last());
        lemma_words_parted(s.drop_last(), s.last(), none);
        lemma_words_empty();
        assert(s.drop_last().push(s.last()) + none =~= s);
        assert(words(s.drop_last()) + words(none) =~= words(s.drop_last()));
    }
}

/// White space at the ends of a text parts no words.
pub proof fn lemma_words_trimmed(s: Seq<char>)
    ensures
        words(trim(s)) == words(s),
{
    lemma_words_trim_start(s);
    lemma_words_trim_end(trim_start(s));
}

proof fn lemma_trim_start_ascii(s: Seq<char>)
    requires
        is_ascii(s),
    ensures
        is_ascii(trim_start(s)),
    decreases s.len(),
{
    if s.len() > 0 && is_whitespace(s[0]) {
        lemma_trim_start_ascii(s.drop_first());
    }
}

proof fn lemma_trim_end_ascii(s: Seq<char>)
    requires
        is_ascii(s),
    ensures
        is_ascii(trim_end(s)),
    decreases s.len(),
{
    if s.len() > 0 && is_whitespace(s.last()) {
        lemma_trim_end_ascii(s.drop_last());
    }
}

/// Trimming ASCII text leaves ASCII text.
pub proof fn lemma_trim_ascii(s: Seq<char>)
    requires
        is_ascii(s),
    ensures
        is_ascii(trim(s)),
{
    lemma_trim_start_ascii(s);
    lemma_trim_end_ascii(trim_start(s));
}

/// Each of `pieces` with the large letters of ASCII written small.
pub open spec fn each_lowered(pieces: Seq<Seq<char>>) -> Seq<Seq<char>> {
    Seq::new(pieces.len(), |i: int| ascii_lowered(pieces[i]))
}

proof fn lemma_fields_lowered(s: Seq<char>)
    ensures
        ({
            let separator = |c: char| is_whitespace(c);
            fields(ascii_lowered(s), separator) == each_lowered(fields(s, separator))
        }),
    decreases s.len(),
{
    let separator = |c: char| is_whitespace(c);
    let small = ascii_lowered(s);
    if s.len() == 0 {
        assert(ascii_lowered(Seq::<char>::empty()) =~= Seq::<char>::empty());
        assert(fields(small, separator) =~= each_lowered(fields(s, separator)));
    } else {
        let before = fields(s.drop_last(), separator);
        lemma_fields_lowered(s.drop_last());
        lemma_fields_nonempty(s.drop_last(), separator);
        assert(small.drop_last() =~= ascii_lowered(s.drop_last()));
        assert(separator(small.last()) == separator(s.last()));
        assert(ascii_lowered(Seq::<char>::empty()) =~= Seq::<char>::empty());
        assert(ascii_lowered(before.last().push(s.last())) =~= ascii_lowered(before.last()).push(
            small.last(),
        ));
        assert(fields(small, separator) =~= each_lowered(fields(s, separator)));
    }
}

proof fn lemma_nonempty_lowered(pieces: Seq<Seq<char>>)
    ensures
        nonempty(each_lowered(pieces)) == each_lowered(nonempty(pieces)),
    decreases pieces.len(),
{
    if pieces.len() == 0 {
        assert(each_lowered(pieces) =~= pieces);
    } else {
        lemma_nonempty_lowered(pieces.drop_last());
        assert(each_lowered(pieces).drop_last() =~= each_lowered(pieces.drop_last()));
        assert(nonempty(each_lowered(pieces)) =~= each_lowered(nonempty(pieces)));
    }
}

/// The words of a text that is written small are its words, written small.
pub proof fn lemma_words_lowered(s: Seq<char>)
    ensures
        words(ascii_lowered(s)) == each_lowered(words(s)),
{
    lemma_fields_lowered(s);
    lemma_nonempty_lowered(fields(s, |c: char| is_whitespace(c)));
}

/// Splits `chars` into its words.
pub fn split_words(chars: &Vec<char>) -> (out: Vec<Vec<char>>)
    ensures
        views(out@) == words(chars@),
{
    broadcast use {lemma_views_push, lemma_views_empty};

    let ghost separator = |c: char| is_whitespace(c);
    let mut pieces = split_fields(chars, char_is_whitespace, Ghost(separator));
    let ghost all = views(pieces@);
    let mut out: Vec<Vec<char>> = Vec::new();
    pieces.push(Vec::new());
    proof {
        assert(all.take(0) =~= Seq::<Seq<char>>::empty());
    }
    let count: usize = pieces.len() - 1;
    let mut i: usize = 0;
    while i < count
        invariant
            i <= count,
            count == all.len(),
            pieces@.len() == count + 1,
            forall|k: int| i <= k < count ==> pieces@[k]@ == all[k],
            views(out@) == nonempty(all.take(i as int)),
        decreases count - i,
    {
        broadcast use lemma_views_push;

        proof {
            assert(all.take(i + 1).drop_last() =~= all.take(i as int));
        }
        let mut piece: Vec<char> = Vec::new();
        std::mem::swap(&mut piece, &mut pieces[i]);
        if piece.len() > 0 {
            out.push(piece);
        }
        i += 1;
    }
    proof {
        assert(all.take(i as int) =~= all);
    }
    out
}

/// Whether `needle` stands in `hay` at index `i`.
pub open spec fn occurs_at(needle: Seq<char>, hay: Seq<char>, i: int) -> bool {
    0 <= i && i + needle.len() <= hay.len() && hay.subrange(i, i + needle.len()) == needle
}

/// The first index from `from` on at which `needle` stands in `hay`.
pub open spec fn first_from(needle: Seq<char>, hay: Seq<char>, from: nat) -> Option<nat>
    decreases hay.len() + 1 - from,
{
    if from + needle.len() > hay.len() {
        None
    } else if occurs_at(needle, hay, from as int) {
        Some(from)
    } else {
        first_from(needle, hay, from + 1)
    }
}

/// The first index at which `needle` stands in `hay`.
pub open spec fn first_occurrence(needle: Seq<char>, hay: Seq<char>) -> Option<nat> {
    first_from(needle, hay, 0)
}

/// Tests whether `needle` stands in `hay` at index `i`.
pub fn matches_at(needle: &Vec<char>, hay: &Vec<char>, i: usize) -> (b: bool)
    ensures
        b == occurs_at(needle@, hay@, i as int),
{
    let end: usize = hay.len();
    if i > end || needle.len() > end - i {
        return false;
    }
    let mut k: usize = 0;
    while k < needle.len()
        invariant
            k <= needle@.len(),
            end == hay@.len(),
            i + needle@.len() <= hay@.len(),
            forall|j: int| 0 <= j < k ==> needle@[j] == hay@[i + j],
        decreases needle@.len() - k,
    {
        if needle[k] != hay[i + k] {
            proof {
                let sub = hay@.subrange(i as int, i + needle@.len());
                assert(sub[k as int] == hay@[i + k]);
            }
            return false;
        }
        k += 1;
    }
    proof {
        assert(hay@.subrange(i as int, i + needle@.len()) =~= needle@);
    }
    true
}

/// Finds the first occurrence of `needle` in `hay`.
pub fn find_text(needle: &Vec<char>, hay: &Vec<char>) -> (r: Option<usize>)
    ensures
        match r {
            Some(i) => first_occurrence(needle@, hay@) == Some(i as nat),
            None => first_occurrence(needle@, hay@) is None,
        },
        r matches Some(i) ==> i <= hay@.len(),
{
    let mut i: usize = 0;
    while i <= hay.len() && needle.len() <= hay.len() - i
        invariant
            i <= hay@.len() + 1,
            first_occurrence(needle@, hay@) == first_from(needle@, hay@, i as nat),
        decreases hay@.len() + 1 - i,
    {
        if matches_at(needle, hay, i) {
            return Some(i);
        }
        if i == hay.len() {
            proof {
                assert(hay@.subrange(i as int, i + needle@.len()) =~= needle@);
            }
            return None;
        }
        i += 1;
    }
    None
}

/// The number of bytes of `c` in UTF-8.
pub open spec fn utf8_width(c: char) -> nat {
    if c <= '\u{7f}' {
        1
    } else if c <= '\u{7ff}' {
        2
    } else if c <= '\u{ffff}' {
        3
    } else {
        4
    }
}

/// The number of bytes of `s` in UTF-8.
pub open spec fn utf8_len(s: Seq<char>) -> nat
    decreases s.len(),
{
    if s.len() == 0 {
        0
    } else {
        utf8_len(s.drop_last()) + utf8_width(s.last())
    }
}

/// `n`, or the largest `usize` where `n` does not fit.
pub open spec fn saturated(n: int) -> usize {
    if n <= usize::MAX {
        n as usize
    } else {
        usize::MAX
    }
}

/// The byte offset of the character at index `n`, up to the largest `usize`.
pub fn byte_offset(chars: &Vec<char>, n: usize) -> (len: usize)
    requires
        n <= chars@.len(),
    ensures
        len == saturated(utf8_len(chars@.take(n as int)) as int),
{
    let mut len: usize = 0;
    let mut i: usize = 0;
    while i < n
        invariant
            i <= n <= chars@.len(),
            len == saturated(utf8_len(chars@.take(i as int)) as int),
        decreases n - i,
    {
        let c = chars[i];
        proof {
            assert(chars@.take(i + 1).drop_last() =~= chars@.take(i as int));
        }
        let width: usize = if c <= '\u{7f}' {
            1
        } else if c <= '\u{7ff}' {
            2
        } else if c <= '\u{ffff}' {
            3
        } else {
            4
        };
        len = len.saturating_add(width);
        i += 1;
    }
    len
}

/// Whether the characters of `needle` stand in `hay` at `positions`, each further to the right than
/// the one before.
pub open spec fn stands_at(needle: Seq<char>, hay: Seq<char>, positions: Seq<int>) -> bool {
    &&& positions.len() == needle.len()
    &&& forall|k: int|
        0 <= k < needle.len() ==> 0 <= #[trigger] positions[k] < hay.len() && hay[positions[k]]
            == needle[k]
    &&& forall|j: int, k: int| 0 <= j < k < needle.len() ==> positions[j] < positions[k]
}

/// Whether the characters of `needle` occur in `hay` in their order, with anything between them.
pub open spec fn is_subsequence(needle: Seq<char>, hay: Seq<char>) -> bool {
    exists|positions: Seq<int>| stands_at(needle, hay, positions)
}

proof fn lemma_empty_needle(needle: Seq<char>, hay: Seq<char>)
    requires
        needle.len() == 0,
    ensures
        is_subsequence(needle, hay),
{
    assert(stands_at(needle, hay, Seq::<int>::empty()));
}

/// The first character of `needle` can stand at the first place of `hay` that holds it.
proof fn lemma_first_matched(needle: Seq<char>, hay: Seq<char>)
    requires
        needle.len() > 0,
        hay.len() > 0,
    ensures
        needle[0] == hay[0] ==> is_subsequence(needle, hay) == is_subsequence(
            needle.drop_first(),
            hay.drop_first(),
        ),
        needle[0] != hay[0] ==> is_subsequence(needle, hay) == is_subsequence(
            needle,
            hay.drop_first(),
        ),
{
    let rest = if needle[0] == hay[0] {
        needle.drop_first()
    } else {
        needle
    };
    if is_subsequence(needle, hay) {
        let p = choose|p: Seq<int>| stands_at(needle, hay, p);
        let skipped: int = if needle[0] == hay[0] { 1 } else { 0 };
        let q = Seq::new(rest.len(), |k: int| p[k + skipped] - 1);
        assert forall|k: int| 0 <= k < rest.len() implies 0 <= #[trigger] q[k]
            < hay.drop_first().len() && hay.drop_first()[q[k]] == rest[k] by {
            assert(hay[p[k + skipped]] == needle[k + skipped]);
            assert(p[0] >= 0);
            if skipped == 1 {
                assert(p[0] < p[k + 1]);
            } else {
                assert(p[0] != 0);
                if k > 0 {
                    assert(p[0] < p[k]);
                }
            }
        }
        assert(stands_at(rest, hay.drop_first(), q));
    }
    if is_subsequence(rest, hay.drop_first()) {
        let q = choose|q: Seq<int>| stands_at(rest, hay.drop_first(), q);
        let moved = Seq::new(q.len(), |k: int| q[k] + 1);
        if needle[0] == hay[0] {
            let p = seq![0int] + moved;
            assert forall|k: int| 0 <= k < needle.len() implies 0 <= #[trigger] p[k] < hay.len()
                && hay[p[k]] == needle[k] by {
                if k > 0 {
                    assert(p[k] == q[k - 1] + 1);
                    assert(hay.drop_first()[q[k - 1]] == rest[k - 1]);
                }
            }
            assert forall|j: int, k: int| 0 <= j < k < needle.len() implies p[j] < p[k] by {
                assert(p[k] == q[k - 1] + 1);
                if j > 0 {
                    assert(p[j] == q[j - 1] + 1);
                    assert(q[j - 1] < q[k - 1]);
                }
            }
            assert(stands_at(needle, hay, p));
        } else {
            assert forall|k: int| 0 <= k < needle.len() implies 0 <= #[trigger] moved[k]
                < hay.len() && hay[moved[k]] == needle[k] by {
                assert(hay.drop_first()[q[k]] == rest[k]);
            }
            assert(stands_at(needle, hay, moved));
        }
    }
}

/// Tests whether `needle` is a subsequence of `hay`.
pub fn subsequence(needle: &Vec<char>, hay: &Vec<char>) -> (b: bool)
    ensures
        b == is_subsequence(needle@, hay@),
{
    let mut k: usize = 0;
    let mut i: usize = 0;
    proof {
        assert(needle@.skip(0) =~= needle@);
        assert(hay@.skip(0) =~= hay@);
    }
    while k < needle.len() && i < hay.len()
        invariant
            k <= needle@.len(),
            i <= hay@.len(),
            is_subsequence(needle@, hay@) == is_subsequence(
                needle@.skip(k as int),
                hay@.skip(i as int),
            ),
        decreases hay@.len() - i,
    {
        proof {
            assert(needle@.skip(k as int).drop_first() =~= needle@.skip(k + 1));
            assert(hay@.skip(i as int).drop_first() =~= hay@.skip(i + 1));
            lemma_first_matched(needle@.skip(k as int), hay@.skip(i as int));
        }
        if needle[k] == hay[i] {
            k += 1;
        }
        i += 1;
    }
    proof {
        let rest = needle@.skip(k as int);
        let left = hay@.skip(i as int);
        if rest.len() == 0 {
            lemma_empty_needle(rest, left);
        } else if is_subsequence(rest, left) {
            let p = choose|p: Seq<int>| stands_at(rest, left, p);
            assert(0 <= p[0] < left.len());
        }
    }
    k == needle.len()
}

/// The decimal digit `d`.
pub open spec fn digit(d: nat) -> char {
    if d == 0 { '0' } else if d == 1 { '1' } else if d == 2 { '2' } else if d == 3 { '3' }
    else if d == 4 { '4' } else if d == 5 { '5' } else if d == 6 { '6' } else if d == 7 { '7' }
    else if d == 8 { '8' } else { '9' }
}

/// `n` in decimal.
pub open spec fn decimal(n: nat) -> Seq<char>
    decreases n,
{
    if n < 10 {
        seq![digit(n)]
    } else {
        decimal(n / 10).push(digit(n % 10))
    }
}

/// Writes `n` in decimal.
pub fn decimal_text(n: usize) -> (s: String)
    ensures
        s@ == decimal(n as nat),
    decreases n,
{
    let mut s = if n < 10 { String::new() } else { decimal_text(n / 10) };
    let d: usize = n % 10;
    let c = if d == 0 { '0' } else if d == 1 { '1' } else if d == 2 { '2' } else if d == 3 { '3' }
        else if d == 4 { '4' } else if d == 5 { '5' } else if d == 6 { '6' } else if d == 7 { '7' }
        else if d == 8 { '8' } else { '9' };
    s.push(c);
    proof {
        assert(n < 10 ==> s@ =~= seq![digit(n as nat)]);
    }
    s
}

/// `text` cut to at most `width` characters, the last of which is then an ellipsis.
pub open spec fn truncated(text: Seq<char>, width: nat) -> Seq<char> {
    if text.len() <= width {
        text
    } else if width == 0 {
        Seq::<char>::empty()
    } else {
        text.take(width - 1).push('…')
    }
}

/// Cuts `text` to at most `max_width` characters. A cut text ends in an ellipsis.
pub fn truncate_text(text: &str, max_width: usize) -> (r: String)
    ensures
        r@ == truncated(text@, max_width as nat),
{
    let chars = chars_of(text);
    if chars.len() <= max_width {
        return text.to_owned();
    }
    if max_width == 0 {
        return String::new();
    }
    let mut r = text_of(&chars, 0, max_width - 1);
    proof {
        assert(chars@.subrange(0, max_width - 1) =~= chars@.take(max_width - 1));
    }
    r.push('…');
    r
}

/// The separator between secondary metadata segments.
pub const SECONDARY_SEPARATOR: &'static str = " · ";

/// The first `n` of `segments`, joined by `separator`.
pub open spec fn joined(segments: Seq<Seq<char>>, n: nat, separator: Seq<char>) -> Seq<char>
    decreases n,
{
    if n == 0 {
        Seq::<char>::empty()
    } else if n == 1 {
        segments[0]
    } else {
        joined(segments, (n - 1) as nat, separator) + separator + segments[n - 1]
    }
}

/// How many of `segments` fit side by side in `width`, given that `n` do.
pub open spec fn fitting(
    segments: Seq<Seq<char>>,
    n: nat,
    separator: Seq<char>,
    width: nat,
) -> nat
    decreases segments.len() - n,
{
    if n < segments.len() && joined(segments, n + 1, separator).len() <= width {
        fitting(segments, n + 1, separator, width)
    } else {
        n
    }
}

/// `segments` joined by `separator` within `width`. Earlier segments are kept before later ones.
/// The first one that does not fit is cut with an ellipsis where two columns remain for it (or
/// where it is the very first); what follows it is dropped.
pub open spec fn fitted_segments(
    segments: Seq<Seq<char>>,
    separator: Seq<char>,
    width: nat,
) -> Seq<char> {
    let n = fitting(segments, 0, separator, width);
    let head = joined(segments, n, separator);
    if n >= segments.len() {
        head
    } else if n == 0 {
        truncated(segments[0], width)
    } else if head.len() + separator.len() + 2 <= width {
        head + separator + truncated(
            segments[n as int],
            (width - head.len() - separator.len()) as nat,
        )
    } else {
        head
    }
}

/// A cut text fits, and starts like the text it was cut from. Only a text that does not fit is
/// cut.
pub proof fn lemma_truncated(text: Seq<char>, width: nat)
    ensures
        truncated(text, width).len() <= width,
        text.len() <= width ==> truncated(text, width) == text,
        text.len() > width > 0 ==> truncated(text, width).len() == width && truncated(
            text,
            width,
        ).drop_last() == text.take(width - 1) && truncated(text, width).last() == '…',
{
    if text.len() > width && width > 0 {
        assert(truncated(text, width).drop_last() =~= text.take(width - 1));
    }
}

/// Whether `text` is the first segments joined, with the last of them cut to some of its
/// characters.
pub open spec fn ends_in_segment(
    text: Seq<char>,
    segments: Seq<Seq<char>>,
    separator: Seq<char>,
    n: nat,
    width: nat,
) -> bool {
    &&& 0 < n <= segments.len()
    &&& 0 < width
    &&& text == if n == 1 {
        truncated(segments[0], width)
    } else {
        joined(segments, (n - 1) as nat, separator) + separator + truncated(
            segments[n - 1],
            width,
        )
    }
}

proof fn lemma_fitting(segments: Seq<Seq<char>>, n: nat, separator: Seq<char>, width: nat)
    requires
        n <= segments.len(),
        joined(segments, n, separator).len() <= width,
    ensures
        ({
            let m = fitting(segments, n, separator, width);
            &&& n <= m <= segments.len()
            &&& joined(segments, m, separator).len() <= width
            &&& m < segments.len() ==> joined(segments, m + 1, separator).len() > width
        }),
    decreases segments.len() - n,
{
    if n < segments.len() && joined(segments, n + 1, separator).len() <= width {
        lemma_fitting(segments, n + 1, separator, width);
    }
}

/// Joined segments never take more than the width.
pub proof fn lemma_fitted_segments_fit(
    segments: Seq<Seq<char>>,
    separator: Seq<char>,
    width: nat,
)
    ensures
        fitted_segments(segments, separator, width).len() <= width,
{
    lemma_fitting(segments, 0, separator, width);
    let n = fitting(segments, 0, separator, width);
    if n < segments.len() {
        lemma_truncated(segments[0], width);
        let head = joined(segments, n, separator);
        if n > 0 && head.len() + separator.len() + 2 <= width {
            lemma_truncated(
                segments[n as int],
                (width - head.len() - separator.len()) as nat,
            );
        }
    }
}

/// Where no segment is empty, joined segments end in characters of a segment: no separator is left
/// dangling. All segments before it stand in full.
pub proof fn lemma_fitted_segments_no_dangling_separator(
    segments: Seq<Seq<char>>,
    separator: Seq<char>,
    width: nat,
)
    requires
        segments.len() > 0,
        width > 0,
        forall|i: int| 0 <= i < segments.len() ==> (#[trigger] segments[i]).len() > 0,
    ensures
        exists|n: nat, w: nat|
            #[trigger] ends_in_segment(
                fitted_segments(segments, separator, width),
                segments,
                separator,
                n,
                w,
            ),
{
    let text = fitted_segments(segments, separator, width);
    lemma_fitting(segments, 0, separator, width);
    let n = fitting(segments, 0, separator, width);
    let head = joined(segments, n, separator);
    if n < segments.len() && n == 0 {
        assert(ends_in_segment(text, segments, separator, 1, width));
    } else if n < segments.len() && head.len() + separator.len() + 2 <= width {
        let w = (width - head.len() - separator.len()) as nat;
        assert(ends_in_segment(text, segments, separator, n + 1, w));
    } else {
        let last = segments[n - 1];
        assert(truncated(last, last.len()) == last);
        assert(ends_in_segment(text, segments, separator, n, last.len()));
    }
}

/// Where the segments fit, they stand there in full.
pub proof fn lemma_fitted_segments_complete(
    segments: Seq<Seq<char>>,
    separator: Seq<char>,
    width: nat,
)
    requires
        forall|n: nat|
            n <= segments.len() ==> (#[trigger] joined(segments, n, separator)).len() <= width,
    ensures
        fitted_segments(segments, separator, width) == joined(segments, segments.len(), separator),
{
    lemma_fitting(segments, 0, separator, width);
    let n = fitting(segments, 0, separator, width);
    if n < segments.len() {
        assert(joined(segments, n + 1, separator).len() <= width);
    }
}

/// Joins secondary metadata segments with ` · ` for the given width, keeping left-to-right
/// priority.
pub fn truncate_secondary_segments(segments: &Vec<String>, max_width: usize) -> (r: String)
    ensures
        r@ == fitted_segments(views(segments@), SECONDARY_SEPARATOR@, max_width as nat),
{
    let ghost all = views(segments@);
    let ghost separator = SECONDARY_SEPARATOR@;
    proof {
        reveal_strlit(" · ");
        assert(separator.len() == 3);
    }
    let mut out = String::new();
    let mut used: usize = 0;
    let mut index: usize = 0;
    while index < segments.len()
        invariant
            index <= segments@.len(),
            all == views(segments@),
            separator == SECONDARY_SEPARATOR@,
            separator.len() == 3,
            out@ == joined(all, index as nat, separator),
            used == out@.len(),
            used <= max_width,
            fitting(all, 0, separator, max_width as nat) == fitting(
                all,
                index as nat,
                separator,
                max_width as nat,
            ),
        decreases segments@.len() - index,
    {
        let segment = &segments[index];
        let width: usize = segment.as_str().unicode_len();
        let remaining: usize = max_width - used;
        if index == 0 {
            if width > remaining {
                return truncate_text(segment.as_str(), max_width);
            }
            out.append(segment.as_str());
            proof {
                assert(out@ =~= all[0]);
            }
            used = width;
        } else {
            proof {
                assert(joined(all, (index + 1) as nat, separator) == out@ + separator
                    + all[index as int]);
            }
            if remaining < 3 || width > remaining - 3 {
                if remaining >= 5 {
                    let cut = truncate_text(segment.as_str(), remaining - 3);
                    out.append(SECONDARY_SEPARATOR);
                    out.append(cut.as_str());
                }
                return out;
            }
            out.append(SECONDARY_SEPARATOR);
            out.append(segment.as_str());
            used = used + 3 + width;
        }
        index += 1;
    }
    out
}

/// What is left of `s` behind the prefix `prefix`, or `s` itself where it has no such prefix.
pub open spec fn without_prefix(s: Seq<char>, prefix: Seq<char>) -> Seq<char> {
    if occurs_at(prefix, s, 0) {
        s.skip(prefix.len() as int)
    } else {
        s
    }
}

/// Removes the prefix `prefix` where `s` has it.
pub fn strip_text_prefix(s: &str, prefix: &str) -> (r: String)
    ensures
        r@ == without_prefix(s@, prefix@),
{
    let chars = chars_of(s);
    let start = chars_of(prefix);
    if matches_at(&start, &chars, 0) {
        let r = text_of(&chars, start.len(), chars.len());
        proof {
            assert(r@ =~= s@.skip(prefix@.len() as int));
        }
        r
    } else {
        s.to_owned()
    }
}

/// `a` followed by `b`.
pub fn concat_text(a: &str, b: &str) -> (r: String)
    ensures
        r@ == a@ + b@,
{
    let mut r = a.to_owned();
    r.append(b);
    r
}

/// `s` without its control characters.
pub open spec fn without_controls(s: Seq<char>) -> Seq<char>
    decreases s.len(),
{
    if s.len() == 0 {
        s
    } else if is_control(s.last()) {
        without_controls(s.drop_last())
    } else {
        without_controls(s.drop_last()).push(s.last())
    }
}

/// What is left of a text without its control characters has none.
pub proof fn lemma_without_controls(s: Seq<char>)
    ensures
        forall|i: int|
            0 <= i < without_controls(s).len() ==> !is_control(#[trigger] without_controls(s)[i]),
        without_controls(s).len() <= s.len(),
    decreases s.len(),
{
    if s.len() > 0 {
        lemma_without_controls(s.drop_last());
    }
}

/// Appends the characters of `extra` that are no control characters to `s`.
pub fn append_printable(s: &mut String, extra: &str)
    ensures
        final(s)@ == old(s)@ + without_controls(extra@),
{
    let chars = chars_of(extra);
    let mut i: usize = 0;
    proof {
        assert(chars@.take(0) =~= Seq::<char>::empty());
        assert(s@ + without_controls(chars@.take(0)) =~= s@);
    }
    while i < chars.len()
        invariant
            i <= chars@.len(),
            s@ == old(s)@ + without_controls(chars@.take(i as int)),
        decreases chars@.len() - i,
    {
        proof {
            assert(chars@.take(i + 1).drop_last() =~= chars@.take(i as int));
        }
        if !char_is_control(chars[i]) {
            proof {
                let kept = without_controls(chars@.take(i as int));
                assert((old(s)@ + kept).push(chars@[i as int]) =~= old(s)@ + kept.push(
                    chars@[i as int],
                ));
            }
            s.push(chars[i]);
        }
        i += 1;
    }
    proof {
        assert(chars@.take(i as int) =~= chars@);
    }
}

/// Tests whether two lists of characters are equal.
pub fn same_chars(a: &Vec<char>, b: &Vec<char>) -> (r: bool)
    ensures
        r == (a@ == b@),
{
    if a.len() != b.len() {
        return false;
    }
    let mut i: usize = 0;
    while i < a.len()
        invariant
            i <= a@.len(),
            a@.len() == b@.len(),
            forall|k: int| 0 <= k < i ==> a@[k] == b@[k],
        decreases a@.len() - i,
    {
        if a[i] != b[i] {
            proof {
                assert(a@[i as int] != b@[i as int]);
            }
            return false;
        }
        i += 1;
    }
    proof {
        assert(a@ =~= b@);
    }
    true
}

} // verus!
