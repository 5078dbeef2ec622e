use herdr::ansi::{ansi_to_text, apply_sgr, basic_ansi_color, color_cube_value, csi_final_byte, extended_ansi_color, indexed_ansi_color, parse_u16};
use herdr::style::{Color, Style};


#[test]
fn ansi_to_text_preserves_sgr_styles() {
    let text = ansi_to_text("plain \x1b[31;1mred\x1b[0m\n\x1b[38;2;1;2;3mtrue");

    assert_eq!(text.lines.len(), 2);
    assert_eq!(text.lines[0].spans[0].content.as_str(), "plain ");
    assert_eq!(text.lines[0].spans[1].content.as_str(), "red");
    assert_eq!(text.lines[0].spans[1].style.fg, Some(Color::Red));
    assert!(text.lines[0].spans[1].style.add.bold);
    assert_eq!(text.lines[1].spans[0].style.fg, Some(Color::Rgb(1, 2, 3)));
}

#[test]
fn ansi_to_text_ignores_non_sgr_csi() {
    let text = ansi_to_text("a\x1b[2Kb");

    assert_eq!(text.lines[0].spans[0].content.as_str(), "a");
    assert_eq!(text.lines[0].spans[1].content.as_str(), "b");
}

fn shown(input: &str) -> Vec<Vec<(String, Style)>> {
    ansi_to_text(input)
        .lines
        .iter()
        .map(|line| line.spans.iter().map(|span| (span.content.clone(), span.style)).collect())
        .collect()
}

#[test]
fn ordinary_text_is_one_plain_span() {
    assert_eq!(shown("hello"), vec![vec![("hello".to_string(), Style::plain())]]);
}

#[test]
fn carriage_returns_are_left_out_and_line_breaks_split() {
    let lines = shown("a\r\nb");
    assert_eq!(lines.len(), 2);
    assert_eq!(lines[0][0].0, "a");
    assert_eq!(lines[1][0].0, "b");
}

#[test]
fn numbers_are_read_up_to_their_limit() {
    let number = |s: &str| parse_u16(&s.chars().collect());
    assert_eq!(number("0"), Some(0));
    assert_eq!(number("38"), Some(38));
    assert_eq!(number("65535"), Some(65535));
    assert_eq!(number("65536"), None);
    assert_eq!(number(""), None);
    assert_eq!(number("1x"), None);
}

#[test]
fn basic_colors_have_bright_forms() {
    assert_eq!(basic_ansi_color(1, false), Color::Red);
    assert_eq!(basic_ansi_color(1, true), Color::LightRed);
    assert_eq!(basic_ansi_color(0, true), Color::DarkGray);
    assert_eq!(basic_ansi_color(7, false), Color::Gray);
    assert_eq!(basic_ansi_color(7, true), Color::White);
}

#[test]
fn indexed_colors_cover_the_cube_and_the_grays() {
    assert_eq!(indexed_ansi_color(9), Color::LightRed);
    assert_eq!(indexed_ansi_color(16), Color::Rgb(0, 0, 0));
    assert_eq!(indexed_ansi_color(16 + 36 * 5 + 6 * 4 + 3), Color::Rgb(255, 215, 175));
    assert_eq!(indexed_ansi_color(231), Color::Rgb(255, 255, 255));
    assert_eq!(indexed_ansi_color(232), Color::Rgb(8, 8, 8));
    assert_eq!(indexed_ansi_color(255), Color::Rgb(238, 238, 238));
    assert_eq!(color_cube_value(0), 0);
    assert_eq!(color_cube_value(1), 95);
    assert_eq!(color_cube_value(5), 255);
}

#[test]
fn extended_colors_take_an_index_or_three_parts() {
    let values = |v: &[u16]| -> Vec<Option<u16>> { v.iter().map(|n| Some(*n)).collect() };
    assert_eq!(extended_ansi_color(&values(&[5, 196]), 0), Some((Color::Rgb(255, 0, 0), 2)));
    assert_eq!(extended_ansi_color(&values(&[2, 1, 2, 3]), 0), Some((Color::Rgb(1, 2, 3), 4)));
    assert_eq!(extended_ansi_color(&values(&[2, 1, 2]), 0), None);
    assert_eq!(extended_ansi_color(&values(&[7, 1]), 0), None);
}

#[test]
fn a_reset_undoes_every_style() {
    let mut style = Style::plain();
    apply_sgr("1;3;4;31;42", &mut style);
    assert_eq!(style.fg, Some(Color::Red));
    assert_eq!(style.bg, Some(Color::Green));
    assert!(style.add.bold && style.add.italic && style.add.underlined);
    apply_sgr("0", &mut style);
    let mut fresh = Style::plain();
    apply_sgr("0", &mut fresh);
    assert_eq!(style, fresh);
    let mut empty = Style::plain();
    apply_sgr("", &mut empty);
    assert_eq!(empty, fresh);
}

#[test]
fn emphasis_can_be_switched_off() {
    let mut style = Style::plain();
    apply_sgr("1;2;3;9", &mut style);
    apply_sgr("22", &mut style);
    assert!(!style.add.bold && !style.add.dim);
    assert!(style.add.italic && style.add.crossed_out);
    apply_sgr("39;49", &mut style);
    assert_eq!(style.fg, Some(Color::Reset));
    assert_eq!(style.bg, Some(Color::Reset));
}

#[test]
fn a_sequence_ends_at_its_final_byte() {
    assert_eq!(csi_final_byte("31mred"), Some((2, 'm')));
    assert_eq!(csi_final_byte("2K"), Some((1, 'K')));
    assert_eq!(csi_final_byte("31;"), None);
}
