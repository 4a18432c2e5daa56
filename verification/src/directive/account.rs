//! The `account` directive.
use crate::component::account_name::{account_name, spec_account_name, AccountName};
use crate::text::agrees;
use crate::utils::{end_of_line_prefixed, keyword, keyword_end, spec_end_of_line_prefixed};
use vstd::prelude::*;

verus! {

/// The declaration of an account.
#[derive(Clone, Debug, PartialEq, Eq)]
pub struct Account {
    pub account_name: AccountName,
}

impl DeepView for Account {
    type V = Seq<Seq<char>>;

    open spec fn deep_view(&self) -> Seq<Seq<char>> {
        self.account_name.deep_view()
    }
}

/// The directive at `i`: `account`, blanks, an account name and the rest of
/// the line, where a comment needs two blanks before it.
pub open spec fn spec_account(s: Seq<char>, i: int) -> Option<(Seq<Seq<char>>, int)> {
    match keyword_end(s, i, "account"@) {
        Some(j) => match spec_account_name(s, j, false) {
            Some((name, e)) => Some((name, spec_end_of_line_prefixed(s, e, 2).1)),
            None => None,
        },
        None => None,
    }
}

/// Parses the `account` directive that starts at `start`.
pub fn account(input: &[char], start: usize) -> (r: Option<(Account, usize)>)
    ensures
        agrees(r, spec_account(input@, start as int)),
        r matches Some(x) ==> start < x.1 <= input.len(),
{
    match keyword(input, start, "account") {
        Some(j) => match account_name(input, j, false) {
            Some((name, e)) => {
                let (_, end) = end_of_line_prefixed(input, e, 2);
                Some((Account { account_name: name }, end))
            },
            None => None,
        },
        None => None,
    }
}

} // verus!
