use hledger_parser::component::account_name::AccountName;
use hledger_parser::component::amount::Amount;
use hledger_parser::component::commodity::Commodity as ParsedCommodity;
use hledger_parser::component::date::Date;
use hledger_parser::component::quantity::Quantity;
use hledger_parser::diagnostic::{Diagnostic, Reason};
use hledger_parser::directive::account::{account, Account};
use hledger_parser::directive::commodity::{commodity, Commodity};
use hledger_parser::directive::decimal_mark::{decimal_mark, DecimalMark};
use hledger_parser::directive::inclusion::{include_directive, Format, Include};
use hledger_parser::directive::payee::{payee, Payee};
use hledger_parser::directive::price::{price, price_diagnostics, Price};
use hledger_parser::directive::tag::{tag, Tag};
use hledger_parser::directive::year::{year, Year};
use hledger_parser::state::{ParseState, Separator};
use hledger_parser::utils::{end_of_line, end_of_line_prefixed, keyword};
use hledger_parser::component::comment::Comment;

fn whole<T>(text: &str, r: Option<(T, usize)>) -> Result<T, ()> {
    match r {
        Some((v, end)) if end == text.chars().count() => Ok(v),
        _ => Err(()),
    }
}

fn chars(text: &str) -> Vec<char> {
    text.chars().collect()
}

fn parse_account(text: &str) -> Result<Account, ()> {
    whole(text, account(&chars(text), 0))
}

fn parse_commodity(text: &str) -> Result<Commodity, ()> {
    whole(text, commodity(&chars(text), 0, None))
}

fn parse_decimal_mark(text: &str) -> Result<DecimalMark, ()> {
    whole(text, decimal_mark(&chars(text), 0))
}

fn parse_include(text: &str) -> Result<Include, ()> {
    whole(text, include_directive(&chars(text), 0))
}

fn parse_format(text: &str) -> Result<Format, ()> {
    whole(text, hledger_parser::directive::inclusion::format(&chars(text), 0))
}

fn parse_payee(text: &str) -> Result<Payee, ()> {
    whole(text, payee(&chars(text), 0))
}

fn parse_price(text: &str) -> Result<Price, ()> {
    whole(text, price(&chars(text), 0, &ParseState::new()))
}

fn parse_tag(text: &str) -> Result<Tag, ()> {
    whole(text, tag(&chars(text), 0))
}

fn one_two_three() -> AccountName {
    AccountName::from_strs(&[String::from("one"), String::from("two"), String::from("three")])
}

#[test]
fn account_ok_simple() {
    let result = parse_account("account one:two:three");
    assert_eq!(result, Ok(Account { account_name: one_two_three() }));
}

#[test]
fn ok_with_padding() {
    let result = parse_account("account     one:two:three   ");
    assert_eq!(result, Ok(Account { account_name: one_two_three() }));
}

#[test]
fn ok_comment_merged() {
    let result = parse_account("account     one:two:three ; comment ");
    assert_eq!(
        result,
        Ok(Account {
            account_name: AccountName::from_strs(&[
                String::from("one"),
                String::from("two"),
                String::from("three ; comment"),
            ])
        })
    );
}

#[test]
fn account_ok_with_comment() {
    let result = parse_account("account     one:two:three   ; comment ");
    assert_eq!(result, Ok(Account { account_name: one_two_three() }));
}

#[test]
fn account_err() {
    let result = parse_account("acount     one:two:three   ; comment ");
    assert!(result.is_err());
}

#[test]
fn account_needs_a_blank_and_a_name() {
    assert!(parse_account("accountone").is_err());
    assert!(parse_account("account ").is_err());
    assert!(parse_account("account").is_err());
}

#[test]
fn with_symbol() {
    let result = parse_commodity("commodity $1000.00");
    assert_eq!(
        result,
        Ok(Commodity::Amount(Amount {
            commodity: ParsedCommodity::from_str("$"),
            quantity: Quantity { mantissa: 100_000, places: 2 },
            is_negative: false,
        }))
    );
}

#[test]
fn no_symbol() {
    let result = parse_commodity("commodity 1,000,000.0000");
    assert_eq!(
        result,
        Ok(Commodity::Amount(Amount {
            commodity: ParsedCommodity::from_str(""),
            quantity: Quantity { mantissa: 10_000_000_000, places: 4 },
            is_negative: false,
        }))
    );
}

#[test]
fn commodity_comment() {
    let result = parse_commodity("commodity 1. USD ; with comment");
    assert_eq!(
        result,
        Ok(Commodity::Amount(Amount {
            commodity: ParsedCommodity::from_str("USD"),
            quantity: Quantity { mantissa: 1, places: 0 },
            is_negative: false,
        }))
    );
}

#[test]
fn just_currency() {
    let result = parse_commodity("commodity \"AAAA 2023\"  ");
    assert_eq!(result, Ok(Commodity::Commodity(ParsedCommodity::from_str("AAAA 2023"))));
}

#[test]
fn commodity_needs_its_keyword() {
    assert!(parse_commodity("comodity $1").is_err());
    assert!(parse_commodity("commodity").is_err());
}

#[test]
fn decimal_mark_ok_trailing() {
    let result = parse_decimal_mark("decimal-mark , ");
    assert_eq!(result, Ok(DecimalMark(',')));
}

#[test]
fn decimal_mark_ok_comma() {
    let result = parse_decimal_mark("decimal-mark ,");
    assert_eq!(result, Ok(DecimalMark(',')));
}

#[test]
fn decimal_mark_ok_dot() {
    let result = parse_decimal_mark("decimal-mark .");
    assert_eq!(result, Ok(DecimalMark('.')));
}

#[test]
fn ok_comment() {
    let result = parse_decimal_mark("decimal-mark .  ; test");
    assert_eq!(result, Ok(DecimalMark('.')));
}

#[test]
fn decimal_mark_err_format() {
    let result = parse_decimal_mark("decimal-mark ");
    assert!(result.is_err());
}

#[test]
fn decimal_mark_as_separator() {
    assert_eq!(DecimalMark('.').separator(), Some(Separator::Period));
    assert_eq!(DecimalMark(',').separator(), Some(Separator::Comma));
    assert_eq!(DecimalMark(';').separator(), None);
    assert!(parse_decimal_mark("decimal-mark ;").is_err());
}

#[test]
fn include_ok_without_format() {
    let result = parse_include("include path");
    assert_eq!(result, Ok(Include { format: None, path: String::from("path") }));
}

#[test]
fn include_ok_with_comment() {
    let result = parse_include("include path  ; with a comment !");
    assert_eq!(result, Ok(Include { format: None, path: String::from("path") }));
}

#[test]
fn ok_with_spaces() {
    let result = parse_include("include Path with space.csv");
    assert_eq!(result, Ok(Include { format: None, path: String::from("Path with space.csv") }));
}

#[test]
fn include_ok_with_format() {
    let result = parse_include("include rules:path");
    assert_eq!(result, Ok(Include { format: Some(Format::Rules), path: String::from("path") }));
}

#[test]
fn include_ok_trailing() {
    let result = parse_include("include path   ");
    assert_eq!(result, Ok(Include { format: None, path: String::from("path") }));
}

#[test]
fn include_err() {
    let result = parse_include("inlude path");
    assert!(result.is_err());
}

#[test]
fn include_format_needs_its_colon() {
    assert_eq!(
        parse_include("include csvfile"),
        Ok(Include { format: None, path: String::from("csvfile") })
    );
    assert_eq!(
        parse_include("include timedot:a b"),
        Ok(Include { format: Some(Format::Timedot), path: String::from("a b") })
    );
}

#[test]
fn ok_journal() {
    assert_eq!(parse_format("journal"), Ok(Format::Journal));
}

#[test]
fn ok_timeclock() {
    assert_eq!(parse_format("timeclock"), Ok(Format::Timeclock));
}

#[test]
fn ok_timedot() {
    assert_eq!(parse_format("timedot"), Ok(Format::Timedot));
}

#[test]
fn ok_csv() {
    assert_eq!(parse_format("csv"), Ok(Format::Csv));
}

#[test]
fn ok_ssv() {
    assert_eq!(parse_format("ssv"), Ok(Format::Ssv));
}

#[test]
fn ok_tsv() {
    assert_eq!(parse_format("tsv"), Ok(Format::Tsv));
}

#[test]
fn ok_rules() {
    assert_eq!(parse_format("rules"), Ok(Format::Rules));
}

#[test]
fn format_err() {
    assert!(parse_format("err").is_err());
}

#[test]
fn payee_ok_simple() {
    let result = parse_payee("payee Test");
    assert_eq!(result, Ok(Payee("Test".to_string())));
}

#[test]
fn payee_ok_with_comment() {
    let result = parse_payee("payee Test ; comment");
    assert_eq!(result, Ok(Payee("Test".to_string())));
}

#[test]
fn payee_ok_with_space() {
    let result = parse_payee("payee Testing things");
    assert_eq!(result, Ok(Payee("Testing things".to_string())));
}

#[test]
fn payee_ok_with_trailing() {
    let result = parse_payee("payee 123  ");
    assert_eq!(result, Ok(Payee("123".to_string())));
}

#[test]
fn payee_err() {
    let result = parse_payee("paye Test");
    assert!(result.is_err());
}

#[test]
fn payee_needs_a_name() {
    assert!(parse_payee("payee ").is_err());
    assert!(parse_payee("payee ; only a comment").is_err());
}

#[test]
fn price_simple() {
    let result = parse_price("P 2009-01-01 \u{20ac} $1.35");
    assert_eq!(
        result,
        Ok(Price {
            date: Date { year: Some(2009), month: 1, day: 1 },
            commodity: ParsedCommodity::from_str("\u{20ac}"),
            amount: Amount {
                quantity: Quantity { mantissa: 135, places: 2 },
                commodity: ParsedCommodity::from_str("$"),
                ..Amount::default()
            },
        })
    );
}

#[test]
fn with_time() {
    let result = parse_price("P 2024-04-18 00:00:00 BTC 691747.70790400 SEK");
    assert_eq!(
        result,
        Ok(Price {
            date: Date { year: Some(2024), month: 4, day: 18 },
            commodity: ParsedCommodity::from_str("BTC"),
            amount: Amount {
                quantity: Quantity { mantissa: 69_174_770_790_400, places: 8 },
                commodity: ParsedCommodity::from_str("SEK"),
                ..Amount::default()
            },
        })
    );
}

#[test]
fn price_comment() {
    let result = parse_price("P 2009-01-01 \u{20ac} $1.35  ; with comment");
    assert_eq!(
        result,
        Ok(Price {
            date: Date { year: Some(2009), month: 1, day: 1 },
            commodity: ParsedCommodity::from_str("\u{20ac}"),
            amount: Amount {
                quantity: Quantity { mantissa: 135, places: 2 },
                commodity: ParsedCommodity::from_str("$"),
                ..Amount::default()
            },
        })
    );
}

#[test]
fn price_takes_year_and_decimal_mark_from_the_state() {
    let text = "P 04-18 BTC 1.234 SEK";
    let state = ParseState { decimal_mark: Some(Separator::Comma), default_year: Some(2024) };
    let found = whole(text, price(&chars(text), 0, &state)).unwrap();
    assert_eq!(found.date, Date { year: Some(2024), month: 4, day: 18 });
    assert_eq!(found.amount.quantity, Quantity { mantissa: 1234, places: 0 });
    let plain = parse_price(text).unwrap();
    assert_eq!(plain.date, Date { year: None, month: 4, day: 18 });
    assert_eq!(plain.amount.quantity, Quantity { mantissa: 1234, places: 3 });
}

#[test]
fn price_reports_date_and_time_out_of_range() {
    let text = "P 2024-14-18 24:00:00 BTC 1 SEK";
    let input = chars(text);
    let state = ParseState::new();
    assert!(price(&input, 0, &state).is_some());
    assert_eq!(
        price_diagnostics(&input, 0, &state),
        vec![
            Diagnostic { start: 7, end: 9, reason: Reason::OutOfRange { value: 14, low: 1, high: 12 } },
            Diagnostic { start: 13, end: 15, reason: Reason::OutOfRange { value: 24, low: 0, high: 23 } },
        ]
    );
    let broken = chars("P 2024-14-18 BTC");
    assert!(price(&broken, 0, &state).is_none());
    assert_eq!(price_diagnostics(&broken, 0, &state), vec![]);
}

#[test]
fn tag_ok_simple() {
    let result = parse_tag("tag test-tag");
    assert_eq!(result, Ok(Tag("test-tag".to_string())));
}

#[test]
fn tag_ok_with_comment() {
    let result = parse_tag("tag Test ; comment");
    assert_eq!(result, Ok(Tag("Test".to_string())));
}

#[test]
fn err_with_space() {
    let result = parse_tag("tag Testing things");
    assert!(result.is_err());
}

#[test]
fn tag_ok_with_trailing() {
    let result = parse_tag("tag 123  ");
    assert_eq!(result, Ok(Tag("123".to_string())));
}

#[test]
fn tag_err() {
    let result = parse_tag("t Test");
    assert!(result.is_err());
}

#[test]
fn year_sets_four_digits() {
    let text = "year 2024  ; from now on";
    assert_eq!(whole(text, year(&chars(text), 0)), Ok(Year(2024)));
    assert!(year(&chars("year 24"), 0).is_none());
    assert!(year(&chars("year2024"), 0).is_none());
}

#[test]
fn end_of_line_takes_blanks_and_a_comment() {
    let input = chars("x  ; note\ny");
    assert_eq!(end_of_line(&input, 1), (Some(Comment::from_str(" note")), 9));
    assert_eq!(end_of_line(&input, 0), (None, 0));
    assert_eq!(end_of_line_prefixed(&input, 1, 2), (Some(Comment::from_str(" note")), 9));
    assert_eq!(end_of_line_prefixed(&input, 1, 3), (None, 3));
    assert_eq!(end_of_line_prefixed(&input, 2, 2), (None, 3));
}

#[test]
fn keyword_needs_a_blank_behind_it() {
    let input = chars("tag\tx");
    assert_eq!(keyword(&input, 0, "tag"), Some(4));
    assert_eq!(keyword(&input, 0, "ta"), None);
    assert_eq!(keyword(&input, 1, "tag"), None);
    assert_eq!(keyword(&input, 9, "tag"), None);
}
