//! Text with escape sequences, as terminals write it.

use vstd::prelude::*;
use vstd::string::*;
use crate::style::{
    deemphasized, emphasized, no_emphasis, plain_style, Color, Emphasis, Style,
};
use crate::text::{byte_offset, chars_of, fields, saturated, split_fields, text_of, utf8_len};
use crate::views::{lemma_views_empty, lemma_views_push, views};

verus! {

// ---------------------------------------------------------------------------
// Styled text
// ---------------------------------------------------------------------------

/// A piece of text in one style.
#[derive(Debug)]
pub struct StyledSpan {
    pub content: String,
    pub style: Style,
}

/// The view of a [`StyledSpan`].
pub struct SpanModel {
    pub content: Seq<char>,
    pub style: Style,
}

impl View for StyledSpan {
    type V = SpanModel;

    open spec fn view(&self) -> SpanModel {
        SpanModel { content: self.content@, style: self.style }
    }
}

/// One line of styled text.
#[derive(Debug)]
pub struct StyledLine {
    pub spans: Vec<StyledSpan>,
}

impl View for StyledLine {
    type V = Seq<SpanModel>;

    open spec fn view(&self) -> Seq<SpanModel> {
        views(self.spans@)
    }
}

/// Lines of styled text.
#[derive(Debug)]
pub struct StyledText {
    pub lines: Vec<StyledLine>,
}

impl View for StyledText {
    type V = Seq<Seq<SpanModel>>;

    open spec fn view(&self) -> Seq<Seq<SpanModel>> {
        views(self.lines@)
    }
}

// ---------------------------------------------------------------------------
// Numbers
// ---------------------------------------------------------------------------

/// Whether `c` is a decimal digit.
pub open spec fn is_digit(c: char) -> bool {
    '0' <= c <= '9'
}

/// Whether every character of `s` is a decimal digit.
pub open spec fn all_digits(s: Seq<char>) -> bool {
    forall|i: int| 0 <= i < s.len() ==> is_digit(#[trigger] s[i])
}

/// The number that the digits `s` write.
pub open spec fn number(s: Seq<char>) -> int
    decreases s.len(),
{
    if s.len() == 0 {
        0
    } else {
        number(s.drop_last()) * 10 + (s.last() as int - '0' as int)
    }
}

/// `s` without a plus sign at its front.
pub open spec fn without_plus(s: Seq<char>) -> Seq<char> {
    if s.len() > 0 && s[0] == '+' {
        s.skip(1)
    } else {
        s
    }
}

/// The number below 65536 that `s` writes: digits, possibly behind a plus sign.
pub open spec fn parsed_u16(s: Seq<char>) -> Option<u16> {
    let digits = without_plus(s);
    if digits.len() > 0 && all_digits(digits) && number(digits) <= u16::MAX {
        Some(number(digits) as u16)
    } else {
        None
    }
}

/// Reads a number below 65536.
pub fn parse_u16(s: &Vec<char>) -> (r: Option<u16>)
    ensures
        r == parsed_u16(s@),
{
    let from: usize = if s.len() > 0 && s[0] == '+' {
        1
    } else {
        0
    };
    let ghost digits = without_plus(s@);
    if from >= s.len() {
        return None;
    }
    let mut value: u32 = 0;
    let mut i: usize = from;
    proof {
        assert(digits.take(0) =~= Seq::<char>::empty());
    }
    while i < s.len()
        invariant
            from <= i <= s@.len(),
            digits.len() == s@.len() - from,
            forall|k: int| 0 <= k < digits.len() ==> digits[k] == s@[from + k],
            all_digits(digits.take(i - from)),
            value <= 65536,
            value < 65536 ==> value == number(digits.take(i - from)),
            value == 65536 ==> number(digits.take(i - from)) >= 65536,
            digits == without_plus(s@),
        decreases s@.len() - i,
    {
        let c = s[i];
        proof {
            assert(digits.take(i - from + 1).drop_last() =~= digits.take(i - from));
            assert(digits.take(i - from + 1).last() == c);
        }
        if c < '0' || c > '9' {
            proof {
                assert(!is_digit(digits[i - from]));
            }
            return None;
        }
        let d: u32 = c as u32 - '0' as u32;
        let next: u32 = value * 10 + d;
        value = if next < 65536 {
            next
        } else {
            65536
        };
        i += 1;
    }
    proof {
        assert(digits.take(i - from) =~= digits);
    }
    if value < 65536 {
        Some(value as u16)
    } else {
        None
    }
}

// ---------------------------------------------------------------------------
// Colors
// ---------------------------------------------------------------------------

/// One of the eight named colors, in its normal or its bright form.
pub open spec fn basic_color(idx: int, bright: bool) -> Color {
    if bright {
        indexed_basic(idx + 8)
    } else {
        indexed_basic(idx)
    }
}

/// The first sixteen colors of the palette.
pub open spec fn indexed_basic(idx: int) -> Color {
    if idx == 0 {
        Color::Black
    } else if idx == 1 {
        Color::Red
    } else if idx == 2 {
        Color::Green
    } else if idx == 3 {
        Color::Yellow
    } else if idx == 4 {
        Color::Blue
    } else if idx == 5 {
        Color::Magenta
    } else if idx == 6 {
        Color::Cyan
    } else if idx == 7 {
        Color::Gray
    } else if idx == 8 {
        Color::DarkGray
    } else if idx == 9 {
        Color::LightRed
    } else if idx == 10 {
        Color::LightGreen
    } else if idx == 11 {
        Color::LightYellow
    } else if idx == 12 {
        Color::LightBlue
    } else if idx == 13 {
        Color::LightMagenta
    } else if idx == 14 {
        Color::LightCyan
    } else {
        Color::White
    }
}

/// One of the eight named colors, in its normal or its bright form. For any other number it is
/// the color of the terminal.
pub fn basic_ansi_color(idx: u16, bright: bool) -> (r: Color)
    ensures
        r == (if idx < 8 {
            basic_color(idx as int, bright)
        } else {
            Color::Reset
        }),
{
    match (idx, bright) {
        (0, false) => Color::Black,
        (1, false) => Color::Red,
        (2, false) => Color::Green,
        (3, false) => Color::Yellow,
        (4, false) => Color::Blue,
        (5, false) => Color::Magenta,
        (6, false) => Color::Cyan,
        (7, false) => Color::Gray,
        (0, true) => Color::DarkGray,
        (1, true) => Color::LightRed,
        (2, true) => Color::LightGreen,
        (3, true) => Color::LightYellow,
        (4, true) => Color::LightBlue,
        (5, true) => Color::LightMagenta,
        (6, true) => Color::LightCyan,
        (7, true) => Color::White,
        _ => Color::Reset,
    }
}

/// The brightness of step `step` of the color cube.
pub open spec fn cube_level(step: int) -> int {
    if step == 0 {
        0
    } else {
        55 + step * 40
    }
}

/// The brightness of step `value` of the color cube.
pub fn color_cube_value(value: u8) -> (r: u8)
    requires
        value < 6,
    ensures
        r == cube_level(value as int),
{
    if value == 0 {
        0
    } else {
        55 + value * 40
    }
}

/// The color with the number `idx` of the palette of 256: sixteen named ones, a cube of six steps
/// for each of red, green and blue, and a scale of grays.
pub open spec fn indexed_color(idx: u8) -> Color {
    if idx < 16 {
        indexed_basic(idx as int)
    } else if idx < 232 {
        Color::Rgb(
            cube_level((idx as int - 16) / 36) as u8,
            cube_level((idx as int - 16) / 6 % 6) as u8,
            cube_level((idx as int - 16) % 6) as u8,
        )
    } else {
        let level = (8 + (idx as int - 232) * 10) as u8;
        Color::Rgb(level, level, level)
    }
}

/// The color with the number `idx` of the palette of 256.
pub fn indexed_ansi_color(idx: u8) -> (r: Color)
    ensures
        r == indexed_color(idx),
{
    if idx < 8 {
        return basic_ansi_color(idx as u16, false);
    }
    if idx < 16 {
        return basic_ansi_color((idx - 8) as u16, true);
    }
    if idx <= 231 {
        let n: u8 = idx - 16;
        let r: u8 = n / 36;
        let g: u8 = (n / 6) % 6;
        let b: u8 = n % 6;
        return Color::Rgb(color_cube_value(r), color_cube_value(g), color_cube_value(b));
    }
    let level: u8 = 8 + (idx - 232) * 10;
    Color::Rgb(level, level, level)
}

/// The number at index `i`, where there is one.
pub open spec fn value_at(values: Seq<Option<u16>>, i: int) -> Option<u16> {
    if 0 <= i < values.len() {
        values[i]
    } else {
        None
    }
}

/// The low byte of `n`.
pub open spec fn low_byte(n: u16) -> u8 {
    (n % 256) as u8
}

/// A color from the palette of 256 or by red, green and blue, as the numbers from index `from` on
/// give it, and how many numbers it takes.
pub open spec fn extended_color(values: Seq<Option<u16>>, from: int) -> Option<(Color, int)> {
    match value_at(values, from) {
        Some(kind) => if kind == 2 {
            match (
                value_at(values, from + 1),
                value_at(values, from + 2),
                value_at(values, from + 3),
            ) {
                (Some(r), Some(g), Some(b)) => Some(
                    (Color::Rgb(low_byte(r), low_byte(g), low_byte(b)), 4),
                ),
                _ => None,
            }
        } else if kind == 5 {
            match value_at(values, from + 1) {
                Some(idx) => Some((indexed_color(low_byte(idx)), 2)),
                None => None,
            }
        } else {
            None
        },
        None => None,
    }
}

fn get_value(values: &Vec<Option<u16>>, from: usize, offset: usize) -> (r: Option<u16>)
    ensures
        r == value_at(values@, from + offset),
{
    if from < values.len() && offset < values.len() - from {
        values[from + offset]
    } else {
        None
    }
}

/// A color from the palette of 256 or by red, green and blue, as the numbers from index `from` on
/// give it, and how many numbers it takes.
pub fn extended_ansi_color(values: &Vec<Option<u16>>, from: usize) -> (r: Option<(Color, usize)>)
    ensures
        match r {
            Some((color, used)) => extended_color(values@, from as int) == Some(
                (color, used as int),
            ),
            None => extended_color(values@, from as int) is None,
        },
{
    let kind: u16 = match get_value(values, from, 0) {
        Some(kind) => kind,
        None => return None,
    };
    if kind == 2 {
        match (
            get_value(values, from, 1),
            get_value(values, from, 2),
            get_value(values, from, 3),
        ) {
            (Some(r), Some(g), Some(b)) => Some(
                (Color::Rgb((r % 256) as u8, (g % 256) as u8, (b % 256) as u8), 4),
            ),
            _ => None,
        }
    } else if kind == 5 {
        match get_value(values, from, 1) {
            Some(idx) => Some((indexed_ansi_color((idx % 256) as u8), 2)),
            None => None,
        }
    } else {
        None
    }
}

// ---------------------------------------------------------------------------
// Styles
// ---------------------------------------------------------------------------

/// The emphasis that the number `n` turns on.
pub open spec fn emphasis_on(n: int) -> Option<Emphasis> {
    if n == 1 {
        Some(Emphasis { bold: true, ..no_emphasis() })
    } else if n == 2 {
        Some(Emphasis { dim: true, ..no_emphasis() })
    } else if n == 3 {
        Some(Emphasis { italic: true, ..no_emphasis() })
    } else if n == 4 {
        Some(Emphasis { underlined: true, ..no_emphasis() })
    } else if n == 7 {
        Some(Emphasis { reversed: true, ..no_emphasis() })
    } else if n == 9 {
        Some(Emphasis { crossed_out: true, ..no_emphasis() })
    } else {
        None
    }
}

/// The emphasis that the number `n` turns off.
pub open spec fn emphasis_off(n: int) -> Option<Emphasis> {
    if n == 22 {
        Some(Emphasis { bold: true, dim: true, ..no_emphasis() })
    } else if n == 23 || n == 24 || n == 27 || n == 29 {
        emphasis_on(n - 20)
    } else {
        None
    }
}

/// The foreground color that the number `n` sets by itself.
pub open spec fn color_number(n: int) -> Option<Color> {
    if 30 <= n <= 37 {
        Some(basic_color(n - 30, false))
    } else if n == 39 {
        Some(Color::Reset)
    } else if 90 <= n <= 97 {
        Some(basic_color(n - 90, true))
    } else {
        None
    }
}

/// `style` after the number `n`, which needs no further numbers.
pub open spec fn style_after(style: Style, n: int) -> Style {
    if n == 0 {
        plain_style()
    } else if emphasis_on(n) is Some {
        emphasized(style, emphasis_on(n)->0)
    } else if emphasis_off(n) is Some {
        deemphasized(style, emphasis_off(n)->0)
    } else if color_number(n) is Some {
        Style { fg: color_number(n), ..style }
    } else if color_number(n - 10) is Some {
        Style { bg: color_number(n - 10), ..style }
    } else {
        style
    }
}

/// `style` after the numbers from index `i` on. A number that could not be read counts as zero.
pub open spec fn style_after_values(style: Style, values: Seq<Option<u16>>, i: int) -> Style
    decreases values.len() - i,
{
    if i < 0 || i >= values.len() {
        style
    } else {
        let n = match values[i] {
            Some(n) => n as int,
            None => 0,
        };
        if n == 38 || n == 48 {
            match extended_color(values, i + 1) {
                Some((color, used)) => style_after_values(
                    if n == 38 {
                        Style { fg: Some(color), ..style }
                    } else {
                        Style { bg: Some(color), ..style }
                    },
                    values,
                    i + used + 1,
                ),
                None => style_after_values(style, values, i + 1),
            }
        } else {
            style_after_values(style_after(style, n), values, i + 1)
        }
    }
}

/// The numbers of a style sequence, which stand between semicolons. Without any it is a zero.
pub open spec fn sequence_values(params: Seq<char>) -> Seq<Option<u16>> {
    let pieces = fields(
        if params.len() == 0 {
            seq!['0']
        } else {
            params
        },
        |c: char| c == ';',
    );
    Seq::new(pieces.len(), |i: int| parsed_u16(pieces[i]))
}

/// `style` after the style sequence `params`.
pub open spec fn style_after_sequence(style: Style, params: Seq<char>) -> Style {
    style_after_values(style, sequence_values(params), 0)
}

fn get_emphasis_on(n: u16) -> (r: Option<Emphasis>)
    ensures
        r == emphasis_on(n as int),
{
    let none = Emphasis::none();
    match n {
        1 => Some(Emphasis { bold: true, ..none }),
        2 => Some(Emphasis { dim: true, ..none }),
        3 => Some(Emphasis { italic: true, ..none }),
        4 => Some(Emphasis { underlined: true, ..none }),
        7 => Some(Emphasis { reversed: true, ..none }),
        9 => Some(Emphasis { crossed_out: true, ..none }),
        _ => None,
    }
}

fn get_emphasis_off(n: u16) -> (r: Option<Emphasis>)
    ensures
        r == emphasis_off(n as int),
{
    match n {
        22 => Some(Emphasis { bold: true, dim: true, ..Emphasis::none() }),
        23 | 24 | 27 | 29 => get_emphasis_on(n - 20),
        _ => None,
    }
}

fn get_color_number(n: u16) -> (r: Option<Color>)
    ensures
        r == color_number(n as int),
{
    if 30 <= n && n <= 37 {
        Some(basic_ansi_color(n - 30, false))
    } else if n == 39 {
        Some(Color::Reset)
    } else if 90 <= n && n <= 97 {
        Some(basic_ansi_color(n - 90, true))
    } else {
        None
    }
}

/// Applies one number of a style sequence, which needs no further numbers.
pub fn apply_style_number(style: Style, n: u16) -> (r: Style)
    ensures
        r == style_after(style, n as int),
{
    if n == 0 {
        return Style::plain();
    }
    if let Some(e) = get_emphasis_on(n) {
        return style.add_modifier(e);
    }
    if let Some(e) = get_emphasis_off(n) {
        return style.remove_modifier(e);
    }
    if let Some(color) = get_color_number(n) {
        return style.with_fg(color);
    }
    if n >= 10 {
        if let Some(color) = get_color_number(n - 10) {
            return style.with_bg(color);
        }
    }
    style
}

fn is_semicolon(c: char) -> (b: bool)
    ensures
        b == (c == ';'),
{
    c == ';'
}

fn read_values(params: &Vec<char>) -> (r: Vec<Option<u16>>)
    ensures
        r@ == sequence_values(params@),
{
    let pieces = if params.len() == 0 {
        let mut zero: Vec<char> = Vec::new();
        zero.push('0');
        proof {
            assert(zero@ =~= seq!['0']);
        }
        split_fields(&zero, is_semicolon, Ghost(|c: char| c == ';'))
    } else {
        split_fields(params, is_semicolon, Ghost(|c: char| c == ';'))
    };
    let mut r: Vec<Option<u16>> = Vec::new();
    let mut i: usize = 0;
    while i < pieces.len()
        invariant
            i <= pieces@.len(),
            r@.len() == i,
            forall|k: int| 0 <= k < i ==> #[trigger] r@[k] == parsed_u16(pieces@[k]@),
        decreases pieces@.len() - i,
    {
        r.push(parse_u16(&pieces[i]));
        i += 1;
    }
    proof {
        let all = views(pieces@);
        assert(forall|k: int| 0 <= k < all.len() ==> #[trigger] all[k] == pieces@[k]@);
        assert(r@ =~= sequence_values(params@));
    }
    r
}

/// Applies the numbers of a style sequence.
pub fn apply_values(values: &Vec<Option<u16>>, style: &mut Style)
    ensures
        *final(style) == style_after_values(*old(style), values@, 0),
{
    let ghost before = *style;
    let mut i: usize = 0;
    while i < values.len()
        invariant
            style_after_values(before, values@, 0) == style_after_values(*style, values@, i as int),
        decreases values@.len() - i,
    {
        let n: u16 = match values[i] {
            Some(n) => n,
            None => 0,
        };
        if n == 38 || n == 48 {
            if let Some((color, used)) = extended_ansi_color(values, i + 1) {
                if n == 38 {
                    *style = style.with_fg(color);
                } else {
                    *style = style.with_bg(color);
                }
                i += used;
            }
        } else {
            *style = apply_style_number(*style, n);
        }
        i += 1;
    }
}

/// Applies the style sequence `params`.
pub fn apply_sgr(params: &str, style: &mut Style)
    ensures
        *final(style) == style_after_sequence(*old(style), params@),
{
    let values = read_values(&chars_of(params));
    apply_values(&values, style);
}

// ---------------------------------------------------------------------------
// Sequences
// ---------------------------------------------------------------------------

/// Whether `c` ends an escape sequence.
pub open spec fn ends_sequence(c: char) -> bool {
    '@' <= c <= '~'
}

/// The first index from `from` on whose character ends an escape sequence.
pub open spec fn sequence_end(s: Seq<char>, from: int) -> Option<int>
    decreases s.len() - from,
{
    if from < 0 || from >= s.len() {
        None
    } else if ends_sequence(s[from]) {
        Some(from)
    } else {
        sequence_end(s, from + 1)
    }
}

/// Where an escape sequence ends, the text goes at least that far.
pub proof fn lemma_sequence_end(s: Seq<char>, from: int)
    requires
        0 <= from,
    ensures
        sequence_end(s, from) matches Some(end) ==> from <= end < s.len() && ends_sequence(s[end]),
    decreases s.len() - from,
{
    if from < s.len() {
        lemma_sequence_end(s, from + 1);
    }
}

fn find_sequence_end(s: &Vec<char>, from: usize) -> (r: Option<usize>)
    requires
        from <= s@.len(),
    ensures
        match r {
            Some(i) => sequence_end(s@, from as int) == Some(i as int) && from <= i < s@.len(),
            None => sequence_end(s@, from as int) is None,
        },
{
    let mut i: usize = from;
    while i < s.len()
        invariant
            from <= i <= s@.len(),
            sequence_end(s@, from as int) == sequence_end(s@, i as int),
        decreases s@.len() - i,
    {
        if '@' <= s[i] && s[i] <= '~' {
            return Some(i);
        }
        i += 1;
    }
    None
}

/// The character that ends the escape sequence at the front of `input`, and its byte offset.
pub fn csi_final_byte(input: &str) -> (r: Option<(usize, char)>)
    ensures
        match sequence_end(input@, 0) {
            Some(i) => r == Some((saturated(utf8_len(input@.take(i)) as int), input@[i])),
            None => r is None,
        },
{
    let chars = chars_of(input);
    match find_sequence_end(&chars, 0) {
        Some(i) => Some((byte_offset(&chars, i), chars[i])),
        None => None,
    }
}

/// How far a text has been read.
pub struct ReaderModel {
    /// The lines that are complete.
    pub lines: Seq<Seq<SpanModel>>,
    /// The spans of the current line that are complete.
    pub spans: Seq<SpanModel>,
    /// The text of the current span.
    pub buf: Seq<char>,
    pub style: Style,
}

impl ReaderModel {
    /// With nothing read.
    pub open spec fn start() -> ReaderModel {
        ReaderModel {
            lines: Seq::<Seq<SpanModel>>::empty(),
            spans: Seq::<SpanModel>::empty(),
            buf: Seq::<char>::empty(),
            style: plain_style(),
        }
    }

    /// With the current span complete. There is no empty span.
    pub open spec fn flushed(self) -> ReaderModel {
        if self.buf.len() == 0 {
            self
        } else {
            ReaderModel {
                spans: self.spans.push(SpanModel { content: self.buf, style: self.style }),
                buf: Seq::<char>::empty(),
                ..self
            }
        }
    }

    /// With the current line complete.
    pub open spec fn line_ended(self) -> ReaderModel {
        let flushed = self.flushed();
        ReaderModel {
            lines: flushed.lines.push(flushed.spans),
            spans: Seq::<SpanModel>::empty(),
            ..flushed
        }
    }

    /// With the character `c` read. Carriage returns are dropped.
    pub open spec fn with_char(self, c: char) -> ReaderModel {
        if c == '\n' {
            self.line_ended()
        } else if c == '\r' {
            self
        } else {
            ReaderModel { buf: self.buf.push(c), ..self }
        }
    }

    /// With an escape sequence read. Only those that end in `m` do something.
    pub open spec fn with_sequence(self, params: Seq<char>, end: char) -> ReaderModel {
        let flushed = self.flushed();
        if end == 'm' {
            ReaderModel { style: style_after_sequence(flushed.style, params), ..flushed }
        } else {
            flushed
        }
    }

    /// With `s` read from index `i` on. Where an escape sequence does not end, its first
    /// character is an ordinary one.
    pub open spec fn read(self, s: Seq<char>, i: int) -> ReaderModel
        decreases s.len() - i,
    {
        if i < 0 || i >= s.len() {
            self
        } else if starts_sequence(s, i) {
            match sequence_end(s, i + 2) {
                Some(end) => {
                    proof {
                        lemma_sequence_end(s, i + 2);
                    }
                    self.with_sequence(s.subrange(i + 2, end), s[end]).read(s, end + 1)
                },
                None => self.flushed().with_char(s[i]).read(s, i + 1),
            }
        } else {
            self.with_char(s[i]).read(s, i + 1)
        }
    }
}

/// Whether an escape sequence starts at index `i`.
pub open spec fn starts_sequence(s: Seq<char>, i: int) -> bool {
    0 <= i && i + 1 < s.len() && s[i] == '\u{1b}' && s[i + 1] == '['
}

/// The styled lines of a text with escape sequences.
pub open spec fn styled_lines(s: Seq<char>) -> Seq<Seq<SpanModel>> {
    ReaderModel::start().read(s, 0).line_ended().lines
}

/// A text being read.
struct Reader {
    lines: Vec<StyledLine>,
    spans: Vec<StyledSpan>,
    buf: String,
    style: Style,
}

impl View for Reader {
    type V = ReaderModel;

    closed spec fn view(&self) -> ReaderModel {
        ReaderModel {
            lines: views(self.lines@),
            spans: views(self.spans@),
            buf: self.buf@,
            style: self.style,
        }
    }
}

/// Completes the span with the text `buf`, where it is not empty.
pub fn flush_span(spans: &mut Vec<StyledSpan>, buf: &mut String, style: Style)
    ensures
        final(buf)@.len() == 0,
        views(final(spans)@) == (if old(buf)@.len() == 0 {
            views(old(spans)@)
        } else {
            views(old(spans)@).push(SpanModel { content: old(buf)@, style })
        }),
{
    broadcast use lemma_views_push;

    if buf.as_str().is_empty() {
        return;
    }
    let mut content = String::new();
    std::mem::swap(&mut content, buf);
    spans.push(StyledSpan { content, style });
}

impl Reader {
    fn flush(&mut self)
        ensures
            final(self)@ == old(self)@.flushed(),
    {
        flush_span(&mut self.spans, &mut self.buf, self.style);
        proof {
            assert(self@.buf =~= old(self)@.flushed().buf);
        }
    }

    fn end_line(&mut self)
        ensures
            final(self)@ == old(self)@.line_ended(),
    {
        broadcast use {lemma_views_push, lemma_views_empty};

        self.flush();
        let mut spans: Vec<StyledSpan> = Vec::new();
        std::mem::swap(&mut spans, &mut self.spans);
        self.lines.push(StyledLine { spans });
        proof {
            assert(self@.spans =~= Seq::<SpanModel>::empty());
            assert(self@.lines =~= old(self)@.line_ended().lines);
        }
    }

    fn take_char(&mut self, c: char)
        ensures
            final(self)@ == old(self)@.with_char(c),
    {
        if c == '\n' {
            self.end_line();
        } else if c != '\r' {
            self.buf.push(c);
        }
    }

    fn take_sequence(&mut self, params: String, end: char)
        ensures
            final(self)@ == old(self)@.with_sequence(params@, end),
    {
        self.flush();
        if end == 'm' {
            apply_sgr(params.as_str(), &mut self.style);
        }
    }
}

/// Reads a text with escape sequences into styled lines.
pub fn ansi_to_text(input: &str) -> (r: StyledText)
    ensures
        r@ == styled_lines(input@),
{
    broadcast use lemma_views_empty;

    let chars = chars_of(input);
    let mut reader = Reader {
        lines: Vec::new(),
        spans: Vec::new(),
        buf: String::new(),
        style: Style::plain(),
    };
    proof {
        assert(reader@.lines =~= ReaderModel::start().lines);
        assert(reader@.spans =~= ReaderModel::start().spans);
        assert(reader@.buf =~= ReaderModel::start().buf);
    }
    let mut i: usize = 0;
    while i < chars.len()
        invariant
            i <= chars@.len(),
            chars@ == input@,
            ReaderModel::start().read(input@, 0) == reader@.read(input@, i as int),
        decreases chars@.len() - i,
    {
        if i + 1 < chars.len() && chars[i] == '\u{1b}' && chars[i + 1] == '[' {
            if let Some(end) = find_sequence_end(&chars, i + 2) {
                reader.take_sequence(text_of(&chars, i + 2, end), chars[end]);
                i = end + 1;
                continue ;
            }
            reader.flush();
        }
        reader.take_char(chars[i]);
        i += 1;
    }
    reader.end_line();
    StyledText { lines: reader.lines }
}

// ---------------------------------------------------------------------------
// Laws
// ---------------------------------------------------------------------------

proof fn lemma_decimal_digits(n: nat)
    ensures
        all_digits(crate::text::decimal(n)),
        crate::text::decimal(n).len() > 0,
        number(crate::text::decimal(n)) == n,
        crate::text::decimal(n)[0] != '+',
    decreases n,
{
    let s = crate::text::decimal(n);
    if n >= 10 {
        lemma_decimal_digits(n / 10);
        assert(s.drop_last() =~= crate::text::decimal(n / 10));
        assert(s.last() == crate::text::digit(n % 10));
        assert(number(s) == number(s.drop_last()) * 10 + (s.last() as int - '0' as int));
    } else {
        assert(s.drop_last() =~= Seq::<char>::empty());
        assert(number(s.drop_last()) == 0);
    }
}

/// A number that is written in decimal is read again as the same number.
pub proof fn lemma_number_read_back(n: nat)
    ensures
        parsed_u16(crate::text::decimal(n)) == (if n <= u16::MAX {
            Some(n as u16)
        } else {
            None
        }),
{
    lemma_decimal_digits(n);
}

/// Whether `s` holds ordinary characters only: no escape character and no line break.
pub open spec fn is_ordinary(s: Seq<char>) -> bool {
    forall|i: int|
        0 <= i < s.len() ==> #[trigger] s[i] != '\u{1b}' && s[i] != '\n' && s[i] != '\r'
}

proof fn lemma_read_ordinary(m: ReaderModel, s: Seq<char>, i: int)
    requires
        is_ordinary(s),
        0 <= i <= s.len(),
    ensures
        m.read(s, i) == (ReaderModel { buf: m.buf + s.skip(i), ..m }),
    decreases s.len() - i,
{
    if i < s.len() {
        assert(s[i] != '\u{1b}');
        lemma_read_ordinary(m.with_char(s[i]), s, i + 1);
        assert(m.buf.push(s[i]) + s.skip(i + 1) =~= m.buf + s.skip(i));
    } else {
        assert(m.buf + s.skip(i) =~= m.buf);
    }
}

/// A text of ordinary characters is one line with one span in no style, which holds all of it.
pub proof fn lemma_ordinary_text(s: Seq<char>)
    requires
        is_ordinary(s),
        s.len() > 0,
    ensures
        styled_lines(s) == seq![seq![SpanModel { content: s, style: plain_style() }]],
{
    lemma_read_ordinary(ReaderModel::start(), s, 0);
    assert(Seq::<char>::empty() + s.skip(0) =~= s);
    assert(styled_lines(s) =~= seq![seq![SpanModel { content: s, style: plain_style() }]]) by {
        assert(Seq::<SpanModel>::empty().push(SpanModel { content: s, style: plain_style() })
            =~= seq![SpanModel { content: s, style: plain_style() }]);
    }
}

/// A reset takes back every style: whatever came before, the style after the sequence for a reset
/// is that of the start.
pub proof fn lemma_reset(style: Style)
    ensures
        style_after_sequence(style, Seq::<char>::empty()) == plain_style(),
        style_after_values(style, seq![Some(0u16)], 0) == plain_style(),
{
    let zero = seq!['0'];
    assert(zero.drop_last() =~= Seq::<char>::empty());
    let pieces = fields(zero, |c: char| c == ';');
    assert(fields(zero.drop_last(), |c: char| c == ';') == seq![Seq::<char>::empty()]);
    assert(pieces =~= seq![zero]) by {
        assert(Seq::<char>::empty().push('0') =~= zero);
    }
    assert(number(zero.drop_last()) == 0);
    assert(number(zero) == 0);
    assert(without_plus(zero) == zero);
    assert(all_digits(zero));
    assert(sequence_values(Seq::<char>::empty()) =~= seq![Some(0u16)]);
    reveal_with_fuel(style_after_values, 3);
}

/// Emphasis that is turned on and off again is off.
pub proof fn lemma_emphasis_off(style: Style, e: Emphasis)
    ensures
        ({
            let r = deemphasized(emphasized(style, e), e);
            &&& r.fg == style.fg
            &&& r.bg == style.bg
            &&& e.bold ==> !r.add.bold && r.sub.bold
            &&& e.dim ==> !r.add.dim && r.sub.dim
            &&& e.italic ==> !r.add.italic && r.sub.italic
            &&& e.underlined ==> !r.add.underlined && r.sub.underlined
            &&& e.reversed ==> !r.add.reversed && r.sub.reversed
            &&& e.crossed_out ==> !r.add.crossed_out && r.sub.crossed_out
        }),
{
}

} // verus!
