use hledger_parser::text::{
    byte_position, chars_of, copy_range, copy_trimmed, copy_trimmed_end, literal, newline,
    one_of, read_number, read_small, skip_line, skip_run, skip_text, skip_until, trim_end,
    trim_start, CharClass,
};

fn chars(text: &str) -> Vec<char> {
    text.chars().collect()
}

#[test]
fn chars_of_gives_the_characters_in_order() {
    assert_eq!(chars_of(""), Vec::<char>::new());
    assert_eq!(chars_of("a\u{20ac}\u{1f60e}b"), vec!['a', '\u{20ac}', '\u{1f60e}', 'b']);
}

#[test]
fn classes_hold_their_characters() {
    for c in [' ', '\t', '\u{a0}'] {
        assert!(CharClass::Blank.contains(c));
    }
    assert!(!CharClass::Blank.contains('\n'));
    assert!(!CharClass::Blank.contains('\u{2003}'));
    assert!(CharClass::Digit.contains('0') && CharClass::Digit.contains('9'));
    assert!(!CharClass::Digit.contains('a') && !CharClass::Digit.contains('\u{667}'));
    for c in "\t\n\u{b}\u{c}\r \u{85}\u{a0}\u{1680}\u{2000}\u{200a}\u{2028}\u{2029}\u{202f}\u{205f}\u{3000}".chars() {
        assert!(CharClass::Space.contains(c), "{c:?}");
        assert!(c.is_whitespace());
    }
    for c in "a\u{200b}\u{1c}\u{180e}\u{feff}".chars() {
        assert!(!CharClass::Space.contains(c), "{c:?}");
        assert!(!c.is_whitespace());
    }
    assert!(CharClass::Letter.contains('a') && CharClass::Letter.contains('\u{e9}'));
    assert!(!CharClass::Letter.contains('1') && !CharClass::Letter.contains('$'));
}

#[test]
fn runs_and_texts_end_where_their_class_ends() {
    let input = chars("  12ab;c|d\ne");
    assert_eq!(skip_run(&input, 0, CharClass::Blank), 2);
    assert_eq!(skip_run(&input, 2, CharClass::Digit), 4);
    assert_eq!(skip_run(&input, 4, CharClass::Digit), 4);
    assert_eq!(skip_run(&input, 99, CharClass::Digit), 99);
    assert_eq!(skip_line(&input, 0), 10);
    assert_eq!(skip_until(&input, 0, ';'), 6);
    assert_eq!(skip_text(&input, 0, &['|', 'c']), 7);
    assert_eq!(skip_text(&input, 10, &[]), 10);
    assert!(one_of('c', &['|', 'c']));
    assert!(!one_of('d', &['|', 'c']));
}

#[test]
fn newline_takes_one_line_break() {
    let input = chars("\r\n\n\rx\u{85}\u{2028}\u{2029}\u{b}\u{c}");
    assert_eq!(newline(&input, 0), Some(2));
    assert_eq!(newline(&input, 1), Some(2));
    assert_eq!(newline(&input, 2), Some(3));
    assert_eq!(newline(&input, 3), Some(4));
    assert_eq!(newline(&input, 4), None);
    for i in 5..10 {
        assert_eq!(newline(&input, i), Some(i + 1));
    }
    assert_eq!(newline(&input, 10), None);
}

#[test]
fn literal_matches_the_whole_word() {
    let input = chars("payee x");
    assert_eq!(literal(&input, 0, "payee"), Some(5));
    assert_eq!(literal(&input, 0, "pay\u{e9}e"), None);
    assert_eq!(literal(&input, 3, "ee x"), Some(7));
    assert_eq!(literal(&input, 3, "ee x!"), None);
    assert_eq!(literal(&input, 7, ""), Some(7));
    assert_eq!(literal(&input, 8, ""), None);
}

#[test]
fn copies_and_trims() {
    let input = chars(" \u{2003}a b\t\n");
    assert_eq!(copy_range(&input, 1, 4), "\u{2003}a ");
    assert_eq!(trim_start(&input, 0, 7), 2);
    assert_eq!(trim_end(&input, 0, 7), 5);
    assert_eq!(trim_end(&input, 0, 2), 0);
    assert_eq!(copy_trimmed(&input, 0, 7), "a b");
    assert_eq!(copy_trimmed_end(&input, 0, 7), " \u{2003}a b");
    assert_eq!(copy_trimmed(&input, 0, 2), "");
}

#[test]
fn numbers_skip_what_is_no_digit() {
    let input = chars("1,234.50x");
    assert_eq!(read_number(&input, 0, 8), Some(123450));
    assert_eq!(read_number(&input, 0, 0), Some(0));
    assert_eq!(read_number(&input, 8, 9), Some(0));
    assert_eq!(read_small(&input, 2, 5), 234);
    let big = chars("18446744073709551615");
    assert_eq!(read_number(&big, 0, 20), Some(u64::MAX));
    let too_big = chars("18446744073709551616");
    assert_eq!(read_number(&too_big, 0, 20), None);
}

#[test]
fn byte_positions_count_utf8() {
    let text = "a\u{e9}\u{20ac}\u{1f60e}b";
    let input = chars(text);
    let expected: Vec<usize> =
        text.char_indices().map(|(i, _)| i).chain(std::iter::once(text.len())).collect();
    for (i, want) in expected.iter().enumerate() {
        assert_eq!(byte_position(&input, i), Some(*want));
    }
    assert_eq!(expected, vec![0, 1, 3, 6, 10, 11]);
    assert_eq!(byte_position(&input, 99), Some(11));
}
