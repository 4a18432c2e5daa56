use hledger_parser::component::account_name::AccountName;
use hledger_parser::component::amount::Amount;
use hledger_parser::component::commodity::Commodity;
use hledger_parser::component::date::Date;
use hledger_parser::component::period::{period, period_diagnostics, Interval, Period};
use hledger_parser::component::quantity::Quantity;
use hledger_parser::component::status::Status;
use hledger_parser::diagnostic::{Diagnostic, Reason};
use hledger_parser::directive::auto_postings::{
    auto_posting, auto_postings, AutoPosting, AutoPostings, Query,
};
use hledger_parser::directive::periodic;
use hledger_parser::directive::posting::Posting;
use hledger_parser::directive::transaction::{header, postings, transaction, Header, Transaction};
use hledger_parser::state::{ParseState, Separator};

fn whole<T>(text: &str, r: Option<(T, usize)>) -> Result<T, ()> {
    match r {
        Some((v, end)) if end == text.chars().count() => Ok(v),
        _ => Err(()),
    }
}

fn parse_transaction(text: &str) -> Result<Transaction, ()> {
    let input: Vec<char> = text.chars().collect();
    whole(text, transaction(&input, 0, &ParseState::new()))
}

fn name(parts: &[&str]) -> AccountName {
    let owned: Vec<String> = parts.iter().map(|s| s.to_string()).collect();
    AccountName::from_strs(&owned)
}

fn plain(account: AccountName, amount: Option<Amount>) -> Posting {
    Posting { status: None, account_name: account, is_virtual: false, amount, price: None, assertion: None }
}

fn dollars(n: u64) -> Amount {
    Amount { is_negative: false, quantity: Quantity::from_u64(n), commodity: Commodity::from_str("$") }
}

fn full_transaction() -> Transaction {
    Transaction {
        date: Date { year: Some(2008), month: 1, day: 1 },
        code: Some(String::from("123")),
        status: Some(Status::Cleared),
        payee: String::from("salary"),
        description: Some(String::from("january ")),
        postings: vec![
            plain(name(&["assets", "bank", "checking"]), Some(dollars(1))),
            plain(name(&["income", "salary"]), None),
        ],
    }
}

fn simple_transaction() -> Transaction {
    Transaction {
        date: Date { year: Some(2008), month: 1, day: 1 },
        code: None,
        status: None,
        payee: String::from("salary"),
        description: None,
        postings: vec![
            plain(name(&["assets", "bank", "checking"]), Some(dollars(1))),
            plain(name(&["income", "salary"]), None),
        ],
    }
}

const FULL: &str = "2008/01/01 * (123) salary | january ; transaction comment
                                                 ; same comment second line
    assets:bank:checking   $1  ; posting comment
                               ; same comment second line
    income:salary  ";

const SIMPLE: &str = "2008/01/01 salary
    assets:bank:checking   $1
    income:salary  ";

#[test]
fn transaction_full() {
    assert_eq!(parse_transaction(FULL), Ok(full_transaction()));
}

#[test]
fn transaction_simple() {
    assert_eq!(parse_transaction(SIMPLE), Ok(simple_transaction()));
}

#[test]
fn simple_full() {
    assert_eq!(parse_transaction(FULL), Ok(full_transaction()));
}

#[test]
fn simple_simple() {
    assert_eq!(parse_transaction(SIMPLE), Ok(simple_transaction()));
}

#[test]
fn just_date() {
    let result = parse_transaction("2008/1/1");
    assert_eq!(
        result,
        Ok(Transaction {
            date: Date { year: Some(2008), month: 1, day: 1 },
            code: None,
            status: None,
            payee: String::new(),
            description: None,
            postings: vec![],
        })
    );
}

#[test]
fn transaction_takes_the_default_year() {
    let text = "1/2 rent";
    let input: Vec<char> = text.chars().collect();
    let state = ParseState { decimal_mark: None, default_year: Some(1999) };
    let found = transaction(&input, 0, &state).unwrap().0;
    assert_eq!(found.date, Date { year: Some(1999), month: 1, day: 2 });
    let found = transaction(&input, 0, &ParseState::new()).unwrap().0;
    assert_eq!(found.date, Date { year: None, month: 1, day: 2 });
    let dated: Vec<char> = "2001/1/2 rent".chars().collect();
    let found = transaction(&dated, 0, &state).unwrap().0;
    assert_eq!(found.date.year, Some(2001));
}

#[test]
fn transaction_needs_a_date() {
    assert!(parse_transaction("salary").is_err());
    assert!(parse_transaction(" 2008/01/01").is_err());
}

#[test]
fn transaction_stops_before_a_line_that_is_no_posting() {
    let text = "2008/01/01 x\n  a  $1\nb";
    let input: Vec<char> = text.chars().collect();
    let (found, end) = transaction(&input, 0, &ParseState::new()).unwrap();
    assert_eq!(found.postings.len(), 1);
    assert_eq!(end, 20);
}

#[test]
fn header_parts_are_optional() {
    let input: Vec<char> = " ! (7) shop | food ; c".chars().collect();
    assert_eq!(
        header(&input, 0),
        (
            Header {
                status: Some(Status::Pending),
                code: Some(String::from("7")),
                payee: String::from("shop"),
                description: Some(String::from("food ")),
            },
            22
        )
    );
    let input: Vec<char> = "() shop".chars().collect();
    assert_eq!(
        header(&input, 0),
        (Header { status: None, code: None, payee: String::from("() shop"), description: None }, 7)
    );
}

#[test]
fn postings_take_the_lines_that_follow() {
    let input: Vec<char> = "x\n a\n b  2\n\n c".chars().collect();
    let (found, end) = postings(&input, 1, None);
    assert_eq!(
        found,
        vec![
            plain(name(&["a"]), None),
            plain(
                name(&["b"]),
                Some(Amount {
                    is_negative: false,
                    quantity: Quantity::from_u64(2),
                    commodity: Commodity::from_str("")
                })
            )
        ]
    );
    assert_eq!(end, 10);
    assert_eq!(postings(&input, 0, None), (vec![], 0));
}

#[test]
fn periodic_simple() {
    let text = "~ monthly from 2023-04-15 to 2023-06-16  electricity
    expenses:utilities          $400
    assets:bank:checking";
    let input: Vec<char> = text.chars().collect();
    let result = whole(text, periodic::transaction(&input, 0, None));
    assert_eq!(
        result,
        Ok(periodic::Transaction {
            period: Period {
                interval: Some(Interval::NthMonth(1)),
                begin: Some(Date { year: Some(2023), month: 4, day: 15 }),
                end: Some(Date { year: Some(2023), month: 6, day: 16 }),
            },
            code: None,
            status: None,
            payee: String::from("electricity"),
            description: None,
            postings: vec![
                plain(name(&["expenses", "utilities"]), Some(dollars(400))),
                plain(name(&["assets", "bank", "checking"]), None),
            ],
        })
    );
}

#[test]
fn period_parts_are_optional() {
    let input: Vec<char> = "biweekly to 2023-06-16".chars().collect();
    assert_eq!(
        period(&input, 0),
        (
            Period {
                interval: Some(Interval::NthWeek(2)),
                begin: None,
                end: Some(Date { year: Some(2023), month: 6, day: 16 })
            },
            22
        )
    );
    let input: Vec<char> = "from 1/2".chars().collect();
    assert_eq!(
        period(&input, 0),
        (Period { interval: None, begin: Some(Date { year: None, month: 1, day: 2 }), end: None }, 8)
    );
    let input: Vec<char> = "rent".chars().collect();
    assert_eq!(period(&input, 0), (Period { interval: None, begin: None, end: None }, 0));
    for (word, expected) in [
        ("daily", Interval::NthDay(1)),
        ("weekly", Interval::NthWeek(1)),
        ("fortnightly", Interval::NthWeek(2)),
        ("bimonthly", Interval::NthMonth(2)),
        ("quarterly", Interval::NthQuarter(1)),
        ("yearly", Interval::NthYear(1)),
    ] {
        let input: Vec<char> = word.chars().collect();
        assert_eq!(period(&input, 0).0.interval, Some(expected), "{word}");
    }
}

#[test]
fn period_reports_dates_out_of_range() {
    let input: Vec<char> = "monthly from 2023-13-15 to 2023-06-40".chars().collect();
    assert_eq!(
        period_diagnostics(&input, 0),
        vec![
            Diagnostic { start: 18, end: 20, reason: Reason::OutOfRange { value: 13, low: 1, high: 12 } },
            Diagnostic { start: 35, end: 37, reason: Reason::OutOfRange { value: 40, low: 1, high: 31 } },
        ]
    );
}

#[test]
fn periodic_needs_its_mark() {
    let input: Vec<char> = "monthly rent".chars().collect();
    assert_eq!(periodic::transaction(&input, 0, None), None);
}

#[test]
fn auto_postings_full() {
    let text = "= expenses:gifts
    assets:checking:gifts  *-1$
    (assets:checking)         1";
    let input: Vec<char> = text.chars().collect();
    let result = whole(text, auto_postings(&input, 0, None));
    assert_eq!(
        result,
        Ok(AutoPostings {
            query: Query::from_str("expenses:gifts"),
            postings: vec![
                AutoPosting {
                    account_name: AccountName(vec![
                        String::from("assets"),
                        String::from("checking"),
                        String::from("gifts")
                    ]),
                    is_virtual: false,
                    is_mul: true,
                    amount: Amount {
                        is_negative: true,
                        quantity: Quantity::from_u64(1),
                        commodity: Commodity::from_str("$"),
                    },
                },
                AutoPosting {
                    account_name: AccountName(vec![
                        String::from("assets"),
                        String::from("checking"),
                    ]),
                    is_virtual: true,
                    is_mul: false,
                    amount: Amount {
                        is_negative: false,
                        quantity: Quantity::from_u64(1),
                        commodity: Commodity::from_str(""),
                    },
                }
            ],
        })
    );
}

#[test]
fn auto_postings_need_a_query_and_two_postings() {
    let input: Vec<char> = "= q\n a  1\n".chars().collect();
    assert_eq!(auto_postings(&input, 0, None), None);
    let input: Vec<char> = "=  \n a  1\n b  2".chars().collect();
    assert_eq!(auto_postings(&input, 0, None), None);
    let input: Vec<char> = "= q ; why\n a  1\n b  *2".chars().collect();
    let (found, end) = auto_postings(&input, 0, Some(Separator::Comma)).unwrap();
    assert_eq!(found.query, Query::from_str("q"));
    assert_eq!(found.postings.len(), 2);
    assert!(found.postings[1].is_mul);
    assert_eq!(end, input.len());
}

#[test]
fn auto_posting_needs_two_blanks_and_an_amount() {
    let input: Vec<char> = " a 1".chars().collect();
    assert_eq!(auto_posting(&input, 0, None), None);
    let input: Vec<char> = " a  ".chars().collect();
    assert_eq!(auto_posting(&input, 0, None), None);
    let input: Vec<char> = "a  1".chars().collect();
    assert_eq!(auto_posting(&input, 0, None), None);
}
