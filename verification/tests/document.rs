use hledger_parser::component::date::Date;
use hledger_parser::component::quantity::Quantity;
use hledger_parser::diagnostic::{in_bytes, Diagnostic, DiagnosticKind, Reason};
use hledger_parser::directive::decimal_mark::DecimalMark;
use hledger_parser::directive::year::Year;
use hledger_parser::directive::{advance, directive, directives, item, recognize, Directive};
use hledger_parser::state::{ParseState, Separator};
use hledger_parser::text::chars_of;
use hledger_parser::{document, parse, parse_chars};

fn amount_places(d: &Directive) -> Vec<Quantity> {
    match d {
        Directive::Transaction(t) => {
            t.postings.iter().filter_map(|p| p.amount.as_ref().map(|a| a.quantity)).collect()
        }
        _ => vec![],
    }
}

#[test]
fn empty_document_is_valid() {
    assert_eq!(parse(""), Ok(vec![]));
    assert_eq!(parse("\n\n"), Ok(vec![]));
    assert_eq!(parse("   \n; note\n# note\n"), Ok(vec![]));
}

#[test]
fn comments_and_blank_lines_leave_no_entry() {
    let text = "; top\n\naccount a:b\n# done\ncomment\nhidden\nend comment\n\ntag t";
    let found = parse(text).unwrap();
    assert_eq!(found.len(), 2);
    assert!(matches!(found[0], Directive::Account(_)));
    assert!(matches!(found[1], Directive::Tag(_)));
}

#[test]
fn every_kind_of_directive_is_recognised() {
    let text = "account a\n= q\n a  1\n b  2\ncommodity $1.00\ndecimal-mark .\ninclude x.journal\npayee p\nP 2020-01-01 $ 1 EUR\ntag t\n2020-01-02 shop\n~ monthly\nyear 2021";
    let found = parse(text).unwrap();
    assert_eq!(found.len(), 11);
    assert!(matches!(found[0], Directive::Account(_)));
    assert!(matches!(found[1], Directive::AutoPosting(_)));
    assert!(matches!(found[2], Directive::Commodity(_)));
    assert!(matches!(found[3], Directive::DecimalMark(_)));
    assert!(matches!(found[4], Directive::Include(_)));
    assert!(matches!(found[5], Directive::Payee(_)));
    assert!(matches!(found[6], Directive::Price(_)));
    assert!(matches!(found[7], Directive::Tag(_)));
    assert!(matches!(found[8], Directive::Transaction(_)));
    assert!(matches!(found[9], Directive::PeriodicTransaction(_)));
    assert!(matches!(found[10], Directive::Year(_)));
}

#[test]
fn decimal_mark_applies_forward_only() {
    let text = "2020-01-01 before\n  a  1.234\ndecimal-mark ,\n2020-01-02 after\n  a  1.234\n  b  1,5";
    let found = parse(text).unwrap();
    assert_eq!(found.len(), 3);
    assert_eq!(amount_places(&found[0]), vec![Quantity { mantissa: 1234, places: 3 }]);
    assert_eq!(
        amount_places(&found[2]),
        vec![Quantity { mantissa: 1234, places: 0 }, Quantity { mantissa: 15, places: 1 }]
    );
}

#[test]
fn decimal_mark_rejects_the_other_mark_as_fraction() {
    let text = "decimal-mark ,\n2020-01-02 after\n  a  1.5";
    let reports = parse(text).unwrap_err();
    assert_eq!(reports.len(), 1);
    assert_eq!(reports[0].kind(), DiagnosticKind::Expected);
    assert!(parse("2020-01-02 after\n  a  1.5").is_ok());
}

#[test]
fn year_applies_forward_only() {
    let text = "1/1 a\nyear 2020\n1/2 b\n2021/1/3 c\n1/4 d";
    let found = parse(text).unwrap();
    let years: Vec<Option<u16>> = found
        .iter()
        .filter_map(|d| match d {
            Directive::Transaction(t) => Some(t.date.year),
            _ => None,
        })
        .collect();
    assert_eq!(years, vec![None, Some(2020), Some(2021), Some(2021)]);
}

#[test]
fn parsing_twice_gives_the_same() {
    let text = "decimal-mark ,\nyear 2020\n1/2 shop | food\n  a:b  1.234,5 EUR\n  c\n";
    assert_eq!(parse(text), parse(text));
    let broken = "2020-13-01 x\n  a  1\nwhat";
    assert_eq!(parse(broken), parse(broken));
    assert!(parse(broken).is_err());
}

#[test]
fn structural_failure_reports_where_parsing_stopped() {
    let reports = parse("account a\nnonsense here\naccount b").unwrap_err();
    assert_eq!(reports, vec![Diagnostic { start: 10, end: 11, reason: Reason::Unexpected }]);
    assert_eq!(reports[0].kind(), DiagnosticKind::Expected);
    let reports = parse("tag a b").unwrap_err();
    assert_eq!(reports, vec![Diagnostic { start: 6, end: 7, reason: Reason::Unexpected }]);
}

#[test]
fn range_reports_come_with_the_failure_and_without() {
    let reports = parse("2020-13-01 x\n  a  1").unwrap_err();
    assert_eq!(
        reports,
        vec![Diagnostic { start: 5, end: 7, reason: Reason::OutOfRange { value: 13, low: 1, high: 12 } }]
    );
    assert_eq!(reports[0].kind(), DiagnosticKind::Custom);
    let reports = parse("P 2020-01-32 25:00:00 $ 1 EUR\n2020-00-01 x\n???").unwrap_err();
    assert_eq!(
        reports,
        vec![
            Diagnostic { start: 10, end: 12, reason: Reason::OutOfRange { value: 32, low: 1, high: 31 } },
            Diagnostic { start: 13, end: 15, reason: Reason::OutOfRange { value: 25, low: 0, high: 23 } },
            Diagnostic { start: 35, end: 37, reason: Reason::OutOfRange { value: 0, low: 1, high: 12 } },
            Diagnostic { start: 43, end: 44, reason: Reason::Unexpected },
        ]
    );
}

#[test]
fn reading_goes_on_behind_a_line_that_failed() {
    let text = "year 2020\noops\n1/2 x\n  a  $1 ???\ntag t\n!";
    let reports = parse(text).unwrap_err();
    assert_eq!(
        reports,
        vec![
            Diagnostic { start: 10, end: 11, reason: Reason::Unexpected },
            Diagnostic { start: 29, end: 30, reason: Reason::Unexpected },
            Diagnostic { start: 39, end: 40, reason: Reason::Unexpected },
        ]
    );
    let input = chars_of(text);
    let mut state = ParseState::new();
    let mut told = vec![];
    let found = document(&input, 0, &mut state, &mut told);
    assert_eq!(told, reports);
    assert_eq!(found.len(), 3);
    assert!(matches!(found[0], Directive::Year(_)));
    assert!(matches!(found[2], Directive::Tag(_)));
    match &found[1] {
        Directive::Transaction(t) => {
            assert_eq!(t.date, Date { year: Some(2020), month: 1, day: 2 });
            assert_eq!(t.postings.len(), 1);
        }
        other => panic!("{other:?}"),
    }
    assert_eq!(state.default_year, Some(2020));
}

#[test]
fn a_failed_directive_leaves_state_and_reports_alone() {
    let input = chars_of("decimal-mark ;");
    let mut state = ParseState { decimal_mark: Some(Separator::Period), default_year: Some(1) };
    let mut reports = vec![Diagnostic { start: 0, end: 0, reason: Reason::Unexpected }];
    assert_eq!(directive(&input, 0, &mut state, &mut reports), None);
    assert_eq!(state, ParseState { decimal_mark: Some(Separator::Period), default_year: Some(1) });
    assert_eq!(reports.len(), 1);
}

#[test]
fn a_directive_moves_the_state_on() {
    let input = chars_of("decimal-mark ,");
    let mut state = ParseState::new();
    let mut reports = vec![];
    let found = directive(&input, 0, &mut state, &mut reports);
    assert_eq!(found, Some((Directive::DecimalMark(DecimalMark(',')), 14)));
    assert_eq!(state, ParseState { decimal_mark: Some(Separator::Comma), default_year: None });
    assert!(reports.is_empty());

    let input = chars_of("2020-02-30 x");
    let found = directive(&input, 0, &mut state, &mut reports).unwrap().0;
    assert!(matches!(found, Directive::Transaction(_)));
    assert_eq!(state.default_year, Some(2020));
    assert!(reports.is_empty());

    assert_eq!(
        advance(&state, &Directive::Year(Year(1999))),
        ParseState { decimal_mark: Some(Separator::Comma), default_year: Some(1999) }
    );
    assert_eq!(ParseState::default(), ParseState::new());
}

#[test]
fn recognize_reads_without_changing_the_state() {
    let input = chars_of("year 2020");
    let state = ParseState::new();
    assert_eq!(recognize(&input, 0, &state), Some((Directive::Year(Year(2020)), 9)));
    assert_eq!(recognize(&input, 1, &state), None);
}

#[test]
fn items_are_directives_comments_or_blanks() {
    let input = chars_of("  \n; c\nyear 2020\nx");
    let mut state = ParseState::new();
    let mut reports = vec![];
    assert_eq!(item(&input, 0, &mut state, &mut reports), (None, 2));
    assert_eq!(item(&input, 3, &mut state, &mut reports), (None, 6));
    assert_eq!(item(&input, 7, &mut state, &mut reports), (Some(Directive::Year(Year(2020))), 16));
    assert_eq!(item(&input, 17, &mut state, &mut reports), (None, 17));
    let mut state = ParseState::new();
    let (found, end) = directives(&input, 0, &mut state, &mut reports);
    assert_eq!(found, vec![Directive::Year(Year(2020))]);
    assert_eq!(end, 17);
    assert_eq!(state.default_year, Some(2020));
}

#[test]
fn parse_chars_agrees_with_parse() {
    let text = "1/2 \u{e9}picerie\n  d\u{e9}penses  3 \u{20ac}";
    let input: Vec<char> = text.chars().collect();
    assert_eq!(chars_of(text), input);
    assert_eq!(parse_chars(&input), parse(text));
    let found = parse(text).unwrap();
    match &found[0] {
        Directive::Transaction(t) => {
            assert_eq!(t.date, Date { year: None, month: 1, day: 2 });
            assert_eq!(t.payee, "\u{e9}picerie");
        }
        other => panic!("{other:?}"),
    }
}

#[test]
fn parse_counts_spans_in_bytes() {
    let text = "tag \u{e9}t\u{e9} x\nP 2020-01-01 \u{20ac} 1 $\n2020-\u{20ac}";
    let input: Vec<char> = text.chars().collect();
    let in_chars = parse_chars(&input).unwrap_err();
    assert_eq!(
        in_chars,
        vec![
            Diagnostic { start: 8, end: 9, reason: Reason::Unexpected },
            Diagnostic { start: 29, end: 30, reason: Reason::Unexpected },
        ]
    );
    let told = parse(text).unwrap_err();
    assert_eq!(
        told,
        vec![
            Diagnostic { start: 10, end: 11, reason: Reason::Unexpected },
            Diagnostic { start: 33, end: 34, reason: Reason::Unexpected },
        ]
    );
    assert_eq!(in_bytes(&input, &in_chars), told);
    for d in &told {
        assert!(text.is_char_boundary(d.start));
        assert!(d.start <= d.end && d.end <= text.len());
    }
    assert_eq!(&text[told[0].start..told[0].end], "x");
}

#[test]
fn range_reports_in_bytes_point_at_the_digits() {
    let text = "; \u{1f60e}\n2020-13-01 caf\u{e9}";
    let told = parse(text).unwrap_err();
    assert_eq!(
        told,
        vec![Diagnostic { start: 12, end: 14, reason: Reason::OutOfRange { value: 13, low: 1, high: 12 } }]
    );
    assert_eq!(&text[told[0].start..told[0].end], "13");
}
