//! What the terminal reports show, apart from how they are drawn: the rows of
//! the transaction table and of the sync summary.

use crate::binary64::{binary64_lt, lt, Binary64};
use crate::date::Date;
use crate::models::{DiffResponse, Transaction};
use vstd::prelude::*;

verus! {

/// The text shown where a value is missing: an em dash.
pub open spec fn missing_mark() -> Seq<char> {
    "\u{2014}"@
}

/// An amount as the transaction table shows it: only where it is greater
/// than zero.
pub open spec fn shown_amount(a: Binary64) -> Option<Binary64> {
    if binary64_lt(0, a) {
        Some(a)
    } else {
        None
    }
}

/// One row of the transaction table.
#[derive(Clone, Debug, PartialEq)]
pub struct TransactionRow {
    /// The day of the transaction.
    pub date: Date,
    /// The payee, or the missing mark.
    pub payee: String,
    /// The outcome, where it is greater than zero.
    pub outcome: Option<Binary64>,
    /// The income, where it is greater than zero.
    pub income: Option<Binary64>,
    /// The comment, or nothing.
    pub comment: String,
}

/// The row that the transaction table shows for `tx`.
pub fn transaction_row(tx: &Transaction) -> (r: TransactionRow)
    ensures
        r.date == tx.date,
        r.payee@ == (match tx.payee {
            Some(p) => p@,
            None => missing_mark(),
        }),
        r.outcome == shown_amount(tx.outcome),
        r.income == shown_amount(tx.income),
        r.comment@ == (match tx.comment {
            Some(c) => c@,
            None => Seq::<char>::empty(),
        }),
{
    let payee = match &tx.payee {
        Some(p) => p.clone(),
        None => "\u{2014}".to_owned(),
    };
    let comment = match &tx.comment {
        Some(c) => c.clone(),
        None => String::new(),
    };
    let outcome = if lt(0, tx.outcome) {
        Some(tx.outcome)
    } else {
        None
    };
    let income = if lt(0, tx.income) {
        Some(tx.income)
    } else {
        None
    };
    TransactionRow { date: tx.date, payee, outcome, income, comment }
}

/// The rows of the sync summary for `response`: each kind of entity it
/// counts, in order, with the number of records of that kind in the response.
pub open spec fn summary_rows(response: DiffResponse) -> Seq<(Seq<char>, int)> {
    seq![
        ("Instruments"@, response.instrument@.len() as int),
        ("Companies"@, response.company@.len() as int),
        ("Users"@, response.user@.len() as int),
        ("Accounts"@, response.account@.len() as int),
        ("Tags"@, response.tag@.len() as int),
        ("Merchants"@, response.merchant@.len() as int),
        ("Transactions"@, response.transaction@.len() as int),
        ("Reminders"@, response.reminder@.len() as int),
        ("Reminder Markers"@, response.reminder_marker@.len() as int),
        ("Budgets"@, response.budget@.len() as int),
        ("Deletions"@, response.deletion@.len() as int),
    ]
}

/// The rows of the sync summary for `response`, as label and count.
pub fn diff_summary_rows(response: &DiffResponse) -> (r: Vec<(&'static str, usize)>)
    ensures
        r@.map_values(|row: (&'static str, usize)| (row.0@, row.1 as int)) == summary_rows(*response),
{
    let mut r: Vec<(&'static str, usize)> = Vec::new();
    r.push(("Instruments", response.instrument.len()));
    r.push(("Companies", response.company.len()));
    r.push(("Users", response.user.len()));
    r.push(("Accounts", response.account.len()));
    r.push(("Tags", response.tag.len()));
    r.push(("Merchants", response.merchant.len()));
    r.push(("Transactions", response.transaction.len()));
    r.push(("Reminders", response.reminder.len()));
    r.push(("Reminder Markers", response.reminder_marker.len()));
    r.push(("Budgets", response.budget.len()));
    r.push(("Deletions", response.deletion.len()));
    assert(r@.map_values(|row: (&'static str, usize)| (row.0@, row.1 as int)) =~= summary_rows(*response));
    r
}

} // verus!
