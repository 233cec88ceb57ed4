//! Composable filter for querying transactions.

use crate::binary64::{binary64_le, le, Binary64};
use crate::date::{ymd_le, Date};
use crate::models::{AccountId, MerchantId, TagId, Transaction};
use crate::text::{contains_ignoring_case, has_substring, lowercase};
use vstd::prelude::*;

verus! {

/// Composable filter for querying transactions from storage.
///
/// Use builder-style methods to chain criteria. All set conditions are
/// combined: a transaction must satisfy every one of them to pass; a filter
/// with nothing set passes every transaction.
#[derive(Clone, Debug, PartialEq)]
pub struct TransactionFilter {
    /// Start date (inclusive).
    pub date_from: Option<Date>,
    /// End date (inclusive).
    pub date_to: Option<Date>,
    /// Account ID (matches `income_account` or `outcome_account`).
    pub account: Option<AccountId>,
    /// Tag ID (matches if the transaction's tag list contains it).
    pub tag: Option<TagId>,
    /// Payee substring (case-insensitive).
    pub payee: Option<String>,
    /// Merchant ID.
    pub merchant: Option<MerchantId>,
    /// Minimum amount (matches if income >= val OR outcome >= val).
    pub min_amount: Option<Binary64>,
    /// Maximum amount (matches if income <= val AND outcome <= val).
    pub max_amount: Option<Binary64>,
}

/// Whether the optional text `v` is present and equal to `t`.
pub open spec fn is_text(v: Option<String>, t: Seq<char>) -> bool {
    v matches Some(s) && s@ == t
}

impl TransactionFilter {
    /// Date criterion: on or after `date_from` and on or before `date_to`.
    pub open spec fn date_ok(self, tx: Transaction) -> bool {
        &&& (self.date_from matches Some(from) ==> ymd_le(from@, tx.date@))
        &&& (self.date_to matches Some(to) ==> ymd_le(tx.date@, to@))
    }

    /// Account criterion: the account is the income or the outcome account.
    pub open spec fn account_ok(self, tx: Transaction) -> bool {
        self.account matches Some(acc) ==> (is_text(tx.income_account, acc@) || is_text(
            tx.outcome_account,
            acc@,
        ))
    }

    /// Tag criterion: the tag is one of the transaction's tags.
    pub open spec fn tag_ok(self, tx: Transaction) -> bool {
        match self.tag {
            None => true,
            Some(t) => match tx.tag {
                None => false,
                Some(tags) => exists|i: int| 0 <= i < tags@.len() && #[trigger] tags@[i]@ == t@,
            },
        }
    }

    /// Payee criterion: the payee, lowercased, contains the pattern, lowercased.
    pub open spec fn payee_ok(self, tx: Transaction) -> bool {
        self.payee matches Some(pattern) ==> (tx.payee matches Some(p) && has_substring(
            lowercase(p@),
            lowercase(pattern@),
        ))
    }

    /// Merchant criterion: the transaction's merchant is the given one.
    pub open spec fn merchant_ok(self, tx: Transaction) -> bool {
        self.merchant matches Some(m) ==> is_text(tx.merchant, m@)
    }

    /// Amount criterion: income or outcome at least the minimum, and both at
    /// most the maximum (IEEE-754 comparisons).
    pub open spec fn amount_ok(self, tx: Transaction) -> bool {
        &&& (self.min_amount matches Some(min) ==> (binary64_le(min, tx.income) || binary64_le(
            min,
            tx.outcome,
        )))
        &&& (self.max_amount matches Some(max) ==> (binary64_le(tx.income, max) && binary64_le(
            tx.outcome,
            max,
        )))
    }

    /// Whether the transaction satisfies every set criterion.
    pub open spec fn accepts(self, tx: Transaction) -> bool {
        &&& self.date_ok(tx)
        &&& self.account_ok(tx)
        &&& self.tag_ok(tx)
        &&& self.payee_ok(tx)
        &&& self.merchant_ok(tx)
        &&& self.amount_ok(tx)
    }

    /// The filter with no criterion set.
    pub open spec fn none_set() -> TransactionFilter {
        TransactionFilter {
            date_from: None,
            date_to: None,
            account: None,
            tag: None,
            payee: None,
            merchant: None,
            min_amount: None,
            max_amount: None,
        }
    }

    /// Creates an empty filter that matches all transactions.
    pub fn new() -> (r: TransactionFilter)
        ensures
            r == TransactionFilter::none_set(),
    {
        TransactionFilter {
            date_from: None,
            date_to: None,
            account: None,
            tag: None,
            payee: None,
            merchant: None,
            min_amount: None,
            max_amount: None,
        }
    }

    /// Restricts to transactions within the given date range (inclusive).
    pub fn date_range(self, from: Date, to: Date) -> (r: TransactionFilter)
        ensures
            r == (TransactionFilter { date_from: Some(from), date_to: Some(to), ..self }),
    {
        TransactionFilter { date_from: Some(from), date_to: Some(to), ..self }
    }

    /// Restricts to transactions involving the given account.
    pub fn account(self, id: AccountId) -> (r: TransactionFilter)
        ensures
            r == (TransactionFilter { account: Some(id), ..self }),
    {
        TransactionFilter { account: Some(id), ..self }
    }

    /// Restricts to transactions tagged with the given tag.
    pub fn tag(self, id: TagId) -> (r: TransactionFilter)
        ensures
            r == (TransactionFilter { tag: Some(id), ..self }),
    {
        TransactionFilter { tag: Some(id), ..self }
    }

    /// Restricts to transactions whose payee contains the given text
    /// (case-insensitive).
    pub fn payee(self, name: &str) -> (r: TransactionFilter)
        ensures
            r.payee matches Some(p) && p@ == name@,
            r == (TransactionFilter { payee: r.payee, ..self }),
    {
        TransactionFilter { payee: Some(name.to_owned()), ..self }
    }

    /// Restricts to transactions with the given merchant.
    pub fn merchant(self, id: MerchantId) -> (r: TransactionFilter)
        ensures
            r == (TransactionFilter { merchant: Some(id), ..self }),
    {
        TransactionFilter { merchant: Some(id), ..self }
    }

    /// Restricts to transactions with amounts in the given range: income or
    /// outcome at least `min`, and both at most `max`.
    pub fn amount_range(self, min: Binary64, max: Binary64) -> (r: TransactionFilter)
        ensures
            r == (TransactionFilter { min_amount: Some(min), max_amount: Some(max), ..self }),
    {
        TransactionFilter { min_amount: Some(min), max_amount: Some(max), ..self }
    }

    /// Returns `true` if the transaction satisfies all set criteria.
    pub fn matches(&self, tx: &Transaction) -> (r: bool)
        ensures
            r == self.accepts(*tx),
    {
        self.matches_date(tx) && self.matches_account(tx) && self.matches_tag(tx)
            && self.matches_payee(tx) && self.matches_merchant(tx) && self.matches_amount(tx)
    }

    /// Checks date range criteria.
    pub fn matches_date(&self, tx: &Transaction) -> (r: bool)
        ensures
            r == self.date_ok(*tx),
    {
        let after_start = match &self.date_from {
            Some(from) => from.is_on_or_before(&tx.date),
            None => true,
        };
        let before_end = match &self.date_to {
            Some(to) => tx.date.is_on_or_before(to),
            None => true,
        };
        after_start && before_end
    }

    /// Checks account criteria.
    pub fn matches_account(&self, tx: &Transaction) -> (r: bool)
        ensures
            r == self.account_ok(*tx),
    {
        match &self.account {
            None => true,
            Some(acc) => {
                let income = match &tx.income_account {
                    Some(a) => *a == *acc,
                    None => false,
                };
                let outcome = match &tx.outcome_account {
                    Some(a) => *a == *acc,
                    None => false,
                };
                income || outcome
            },
        }
    }

    /// Checks tag criteria.
    pub fn matches_tag(&self, tx: &Transaction) -> (r: bool)
        ensures
            r == self.tag_ok(*tx),
    {
        match &self.tag {
            None => true,
            Some(tag_id) => match &tx.tag {
                None => false,
                Some(tags) => {
                    let n = tags.len();
                    let mut i: usize = 0;
                    while i < n
                        invariant
                            tx.tag == Some(*tags),
                            self.tag == Some(*tag_id),
                            n == tags@.len(),
                            i <= n,
                            forall|k: int| 0 <= k < i ==> #[trigger] tags@[k]@ != tag_id@,
                        decreases n - i,
                    {
                        if tags[i] == *tag_id {
                            // The witness for the tag criterion is position `i`.
                            assert(tx.tag->0@[i as int]@ == self.tag->0@);
                            return true;
                        }
                        i = i + 1;
                    }
                    false
                },
            },
        }
    }

    /// Checks payee criteria.
    pub fn matches_payee(&self, tx: &Transaction) -> (r: bool)
        ensures
            r == self.payee_ok(*tx),
    {
        match &self.payee {
            None => true,
            Some(pattern) => match &tx.payee {
                None => false,
                Some(p) => contains_ignoring_case(p.as_str(), pattern.as_str()),
            },
        }
    }

    /// Checks merchant criteria.
    pub fn matches_merchant(&self, tx: &Transaction) -> (r: bool)
        ensures
            r == self.merchant_ok(*tx),
    {
        match &self.merchant {
            None => true,
            Some(merchant_id) => match &tx.merchant {
                None => false,
                Some(m) => *m == *merchant_id,
            },
        }
    }

    /// Checks amount criteria.
    pub fn matches_amount(&self, tx: &Transaction) -> (r: bool)
        ensures
            r == self.amount_ok(*tx),
    {
        let above_min = match self.min_amount {
            Some(min) => le(min, tx.income) || le(min, tx.outcome),
            None => true,
        };
        let below_max = match self.max_amount {
            Some(max) => le(tx.income, max) && le(tx.outcome, max),
            None => true,
        };
        above_min && below_max
    }
}

impl Default for TransactionFilter {
    /// The filter with no criterion set.
    fn default() -> (r: TransactionFilter)
        ensures
            r == TransactionFilter::none_set(),
    {
        TransactionFilter::new()
    }
}

/// A filter with nothing set passes every transaction.
pub proof fn lemma_empty_filter_accepts_all(tx: Transaction)
    ensures
        TransactionFilter::none_set().accepts(tx),
{
}

/// Criteria combine as a conjunction: a transaction passes a filter exactly
/// when it passes each single-criterion filter built from it.
pub proof fn lemma_filter_is_conjunction(f: TransactionFilter, tx: Transaction)
    ensures
        f.accepts(tx) <==> {
            &&& (TransactionFilter { date_from: f.date_from, date_to: f.date_to, ..TransactionFilter::none_set() }).accepts(tx)
            &&& (TransactionFilter { account: f.account, ..TransactionFilter::none_set() }).accepts(tx)
            &&& (TransactionFilter { tag: f.tag, ..TransactionFilter::none_set() }).accepts(tx)
            &&& (TransactionFilter { payee: f.payee, ..TransactionFilter::none_set() }).accepts(tx)
            &&& (TransactionFilter { merchant: f.merchant, ..TransactionFilter::none_set() }).accepts(tx)
            &&& (TransactionFilter { min_amount: f.min_amount, max_amount: f.max_amount, ..TransactionFilter::none_set() }).accepts(tx)
        },
{
}

/// Adding a criterion never lets more transactions through: what passes a
/// filter with the date range set also passes the filter without it.
pub proof fn lemma_date_range_narrows(f: TransactionFilter, from: Date, to: Date, tx: Transaction)
    ensures
        (TransactionFilter { date_from: Some(from), date_to: Some(to), ..f }).accepts(tx) ==> (TransactionFilter {
            date_from: None,
            date_to: None,
            ..f
        }).accepts(tx),
{
}

/// The date range is inclusive at both ends.
pub proof fn lemma_date_range_inclusive(from: Date, to: Date, tx: Transaction)
    requires
        ymd_le(from@, to@),
        tx.date@ == from@ || tx.date@ == to@,
    ensures
        (TransactionFilter { date_from: Some(from), date_to: Some(to), ..TransactionFilter::none_set() }).accepts(tx),
{
}

} // verus!
