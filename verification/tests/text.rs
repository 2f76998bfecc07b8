use rsvp_reader::{char_at, char_at_end, get_category, len_utf8, sanitize_string, CharCategory};

#[test]
fn whitespace_characters() {
    assert_eq!(get_category(' '), CharCategory::WhiteSpace);
    assert_eq!(get_category('\n'), CharCategory::WhiteSpace);
    assert_eq!(get_category('\t'), CharCategory::WhiteSpace);
}

#[test]
fn punctuation_characters() {
    for c in ['.', ':', ';', ',', '-'] {
        assert_eq!(get_category(c), CharCategory::Punctuation);
    }
}

#[test]
fn glyph_characters() {
    for c in ['a', 'Z', '0', '!', '?', '\r', '_', '\u{e9}', '\u{a0}', '"', '\''] {
        assert_eq!(get_category(c), CharCategory::Glyph);
    }
}

#[test]
fn sanitize_replaces_line_breaks() {
    assert_eq!(sanitize_string(String::from("a\nb")), "a b");
    assert_eq!(sanitize_string(String::from("a\r\nb")), "a b");
    assert_eq!(sanitize_string(String::from("\n\n")), "  ");
    assert_eq!(sanitize_string(String::from("\r\n\r\n")), "  ");
    assert_eq!(sanitize_string(String::from("one\r\ntwo\nthree")), "one two three");
}

#[test]
fn sanitize_keeps_other_text() {
    assert_eq!(sanitize_string(String::new()), "");
    assert_eq!(sanitize_string(String::from("plain text")), "plain text");
    assert_eq!(sanitize_string(String::from("tab\there")), "tab\there");
    assert_eq!(sanitize_string(String::from("h\u{e9}llo \u{1f600}")), "h\u{e9}llo \u{1f600}");
}

#[test]
fn sanitize_keeps_lone_carriage_returns() {
    assert_eq!(sanitize_string(String::from("a\rb")), "a\rb");
    assert_eq!(sanitize_string(String::from("a\r")), "a\r");
    assert_eq!(sanitize_string(String::from("\r")), "\r");
    assert_eq!(sanitize_string(String::from("\r\r\n")), "\r ");
    assert_eq!(sanitize_string(String::from("\r\r")), "\r\r");
    assert_eq!(sanitize_string(String::from("\n\r")), " \r");
    assert_eq!(sanitize_string(String::from("\r\r\r\nx\r")), "\r\r x\r");
}

#[test]
fn sanitize_agrees_with_two_replacements() {
    let samples = ["", "\r", "\n", "\r\n", "\n\r\n\r", "a\r\r\nb\n\nc\r", "x\r\n\r\ny", "\r\r\r"];
    for sample in samples {
        let expected = sample.replace("\r\n", "\n").replace("\n", " ");
        assert_eq!(sanitize_string(String::from(sample)), expected);
    }
}

#[test]
fn sanitize_shortens_by_one_per_pair() {
    let out = sanitize_string(String::from("a\r\nb\r\n\r\nc\n"));
    assert_eq!(out, "a b  c ");
    assert_eq!(out.chars().count(), 10 - 3);
}

#[test]
fn char_at_reads_ascii() {
    let text = String::from("abc");
    assert_eq!(char_at(0, &text), Some('a'));
    assert_eq!(char_at(1, &text), Some('b'));
    assert_eq!(char_at(2, &text), Some('c'));
    assert_eq!(char_at(3, &text), None);
}

#[test]
fn char_at_reads_at_byte_positions() {
    let text = String::from("a\u{e9}\u{20ac}\u{1f600}z");
    assert_eq!(char_at(0, &text), Some('a'));
    assert_eq!(char_at(1, &text), Some('\u{e9}'));
    assert_eq!(char_at(3, &text), Some('\u{20ac}'));
    assert_eq!(char_at(6, &text), Some('\u{1f600}'));
    assert_eq!(char_at(10, &text), Some('z'));
    assert_eq!(char_at(11, &text), None);
}

#[test]
fn char_at_of_empty_string() {
    let text = String::new();
    assert_eq!(char_at(0, &text), None);
    assert_eq!(char_at_end(0, &text), None);
}

#[test]
fn char_at_end_gives_the_next_position() {
    let text = String::from("a\u{e9}\u{20ac}\u{1f600}z");
    assert_eq!(char_at_end(0, &text), Some((1, 'a')));
    assert_eq!(char_at_end(1, &text), Some((3, '\u{e9}')));
    assert_eq!(char_at_end(3, &text), Some((6, '\u{20ac}')));
    assert_eq!(char_at_end(6, &text), Some((10, '\u{1f600}')));
    assert_eq!(char_at_end(10, &text), Some((11, 'z')));
    assert_eq!(char_at_end(11, &text), None);
}

#[test]
fn char_at_end_walks_a_string() {
    let text = String::from("na\u{ef}ve \u{2014} caf\u{e9} \u{1f980}");
    let mut pos = 0;
    let mut seen = String::new();
    while let Some((end, ch)) = char_at_end(pos, &text) {
        assert!(text.is_char_boundary(end));
        seen.push(ch);
        pos = end;
    }
    assert_eq!(pos, text.len());
    assert_eq!(seen, text);
}

#[test]
fn len_utf8_agrees_with_the_encoding() {
    let samples = [
        '\0', 'a', '\u{7f}', '\u{80}', '\u{7ff}', '\u{800}', '\u{d7ff}', '\u{e000}', '\u{ffff}',
        '\u{10000}', '\u{10ffff}',
    ];
    for c in samples {
        assert_eq!(len_utf8(c), c.len_utf8());
    }
    assert_eq!(len_utf8('a'), 1);
    assert_eq!(len_utf8('\u{e9}'), 2);
    assert_eq!(len_utf8('\u{20ac}'), 3);
    assert_eq!(len_utf8('\u{1f600}'), 4);
}
