use hledger_parser::component::account_name::AccountName;
use hledger_parser::component::amount::Amount;
use hledger_parser::component::commodity::Commodity;
use hledger_parser::component::price::Price;
use hledger_parser::component::quantity::Quantity;
use hledger_parser::component::status::Status;
use hledger_parser::directive::assertion::{assertion, Assertion};
use hledger_parser::directive::posting::{account_ref, posting, Posting};
use hledger_parser::state::Separator;

fn whole<T>(text: &str, r: Option<(T, usize)>) -> Result<T, ()> {
    match r {
        Some((v, end)) if end == text.chars().count() => Ok(v),
        _ => Err(()),
    }
}

fn parse_posting(text: &str) -> Result<Posting, ()> {
    let input: Vec<char> = text.chars().collect();
    whole(text, posting(&input, 0, None))
}

fn parse_assertion(text: &str) -> Result<Assertion, ()> {
    let input: Vec<char> = text.chars().collect();
    whole(text, assertion(&input, 0, None))
}

fn checking() -> AccountName {
    AccountName::from_strs(&[
        String::from("assets"),
        String::from("bank"),
        String::from("checking"),
    ])
}

fn money(n: u64, commodity: &str) -> Amount {
    Amount {
        is_negative: false,
        quantity: Quantity::from_u64(n),
        commodity: Commodity::from_str(commodity),
    }
}

#[test]
fn posting_full() {
    let result = parse_posting(" ! assets:bank:checking   $1");
    assert_eq!(
        result,
        Ok(Posting {
            status: Some(Status::Pending),
            account_name: checking(),
            is_virtual: false,
            amount: Some(money(1, "$")),
            price: None,
            assertion: None,
        })
    );
}

#[test]
fn posting_no_amount() {
    let result = parse_posting(" ! assets:bank:checking");
    assert_eq!(
        result,
        Ok(Posting {
            status: Some(Status::Pending),
            account_name: checking(),
            is_virtual: false,
            amount: None,
            price: None,
            assertion: None,
        })
    );
}

#[test]
fn posting_no_status() {
    let result = parse_posting(" assets:bank:checking   $1");
    assert_eq!(
        result,
        Ok(Posting {
            status: None,
            account_name: checking(),
            is_virtual: false,
            amount: Some(money(1, "$")),
            price: None,
            assertion: None,
        })
    );
}

#[test]
fn posting_with_comment() {
    let result = parse_posting(" assets:bank:checking  ; some comment");
    assert_eq!(
        result,
        Ok(Posting {
            status: None,
            account_name: checking(),
            is_virtual: false,
            amount: None,
            price: None,
            assertion: None,
        })
    );
}

#[test]
fn posting_no_status_no_amount() {
    let result = parse_posting(" assets:bank:checking");
    assert_eq!(
        result,
        Ok(Posting {
            status: None,
            account_name: checking(),
            is_virtual: false,
            amount: None,
            price: None,
            assertion: None,
        })
    );
}

#[test]
fn with_price_assertion() {
    let result = parse_posting(" assets:bank:checking  1 EUR@@1 USD=1 USD");
    assert_eq!(
        result,
        Ok(Posting {
            status: None,
            account_name: checking(),
            is_virtual: false,
            amount: Some(money(1, "EUR")),
            price: Some(Price::Total(money(1, "USD"))),
            assertion: Some(Assertion {
                price: None,
                amount: money(1, "USD"),
                is_subaccount_inclusive: false,
                is_strict: false,
            }),
        })
    );
}

#[test]
fn with_assertion() {
    let result = parse_posting(" assets:bank:checking  1 USD == 1 USD");
    assert_eq!(
        result,
        Ok(Posting {
            status: None,
            account_name: checking(),
            is_virtual: false,
            amount: Some(money(1, "USD")),
            price: None,
            assertion: Some(Assertion {
                price: None,
                amount: money(1, "USD"),
                is_subaccount_inclusive: false,
                is_strict: true,
            }),
        })
    );
}

#[test]
fn with_price() {
    let result = parse_posting(" assets:bank:checking  1 USD @ 1 EUR");
    assert_eq!(
        result,
        Ok(Posting {
            status: None,
            account_name: checking(),
            is_virtual: false,
            amount: Some(money(1, "USD")),
            price: Some(Price::Unit(money(1, "EUR"))),
            assertion: None,
        })
    );
}

#[test]
fn posting_not_enough_spaces() {
    let result = parse_posting(" assets:bank:checking $1");
    assert_eq!(
        result,
        Ok(Posting {
            status: None,
            account_name: AccountName::from_strs(&[
                String::from("assets"),
                String::from("bank"),
                String::from("checking $1"),
            ]),
            is_virtual: false,
            amount: None,
            price: None,
            assertion: None,
        })
    );
}

#[test]
fn posting_no_ident() {
    let result = parse_posting("assets:bank:checking $1");
    assert!(result.is_err());
}

#[test]
fn posting_three_spaces_split_account_and_amount() {
    let result = parse_posting(" assets:bank:checking   $1").unwrap();
    assert_eq!(result.account_name, checking());
    assert_eq!(result.amount, Some(money(1, "$")));
}

#[test]
fn posting_in_parentheses_is_virtual() {
    let result = parse_posting("  (assets:bank:checking)  $1");
    assert_eq!(
        result,
        Ok(Posting {
            status: None,
            account_name: checking(),
            is_virtual: true,
            amount: Some(money(1, "$")),
            price: None,
            assertion: None,
        })
    );
    let input: Vec<char> = "(a:b".chars().collect();
    assert_eq!(
        account_ref(&input, 0),
        Some((AccountName::from_strs(&[String::from("(a"), String::from("b")]), false, 4))
    );
}

#[test]
fn posting_status_needs_a_blank() {
    let result = parse_posting(" *assets").unwrap();
    assert_eq!(result.status, None);
    assert_eq!(result.account_name, AccountName::from_strs(&[String::from("*assets")]));
    let result = parse_posting(" * assets").unwrap();
    assert_eq!(result.status, Some(Status::Cleared));
}

#[test]
fn posting_amount_follows_the_decimal_mark() {
    let text = " a  1.234";
    let input: Vec<char> = text.chars().collect();
    let free = posting(&input, 0, None).unwrap().0;
    let fixed = posting(&input, 0, Some(Separator::Comma)).unwrap().0;
    assert_eq!(free.amount.unwrap().quantity, Quantity { mantissa: 1234, places: 3 });
    assert_eq!(fixed.amount.unwrap().quantity, Quantity { mantissa: 1234, places: 0 });
}

#[test]
fn single_with_price() {
    let result = parse_assertion("=1$ @@ 5 USD");
    assert_eq!(
        result,
        Ok(Assertion {
            is_strict: false,
            is_subaccount_inclusive: false,
            amount: money(1, "$"),
            price: Some(Price::Total(money(5, "USD"))),
        })
    );
}

#[test]
fn single() {
    let result = parse_assertion("=1$");
    assert_eq!(
        result,
        Ok(Assertion {
            is_strict: false,
            is_subaccount_inclusive: false,
            amount: money(1, "$"),
            price: None,
        })
    );
}

#[test]
fn single_inclusive() {
    let result = parse_assertion("=*1$");
    assert_eq!(
        result,
        Ok(Assertion {
            is_strict: false,
            is_subaccount_inclusive: true,
            amount: money(1, "$"),
            price: None,
        })
    );
}

#[test]
fn strict() {
    let result = parse_assertion("== 1$");
    assert_eq!(
        result,
        Ok(Assertion {
            is_strict: true,
            is_subaccount_inclusive: false,
            amount: money(1, "$"),
            price: None,
        })
    );
}

#[test]
fn strict_inclusive() {
    let result = parse_assertion("==* 1$");
    assert_eq!(
        result,
        Ok(Assertion {
            is_strict: true,
            is_subaccount_inclusive: true,
            amount: money(1, "$"),
            price: None,
        })
    );
}

#[test]
fn assertion_needs_its_mark_and_an_amount() {
    assert!(parse_assertion("1$").is_err());
    assert!(parse_assertion("==").is_err());
    assert!(parse_assertion("=== 1$").is_err());
}
