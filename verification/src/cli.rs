//! Decisions of the command-line front end: resolving names given on the
//! command line and building the transaction filter they describe.

use crate::binary64::Binary64;
use crate::date::Date;
use crate::error::ZenMoneyError;
use crate::filter::TransactionFilter;
use crate::models::{Account, Tag};
use crate::queries::{account_titled, find_account_by_title, find_tag_by_title, first_where, tag_titled};
use vstd::prelude::*;

verus! {

/// Why a name given on the command line could not be resolved.
#[derive(Clone, Debug, PartialEq)]
pub enum NameProblem {
    /// Nothing has that name.
    NotFound,
    /// Reading the candidates failed.
    LookupFailed(ZenMoneyError),
}

/// A name given on the command line that could not be resolved.
#[derive(Clone, Debug, PartialEq)]
pub struct NameError {
    /// What kind of entity was looked up ("account", "tag").
    pub label: String,
    /// The name given.
    pub name: String,
    /// Why it could not be resolved.
    pub problem: NameProblem,
}

/// `r` is what resolving `name` (an entity of kind `label`) gives for the
/// lookup outcome `lookup`.
pub open spec fn resolution_of<T>(
    label: Seq<char>,
    name: Seq<char>,
    lookup: Result<Option<T>, ZenMoneyError>,
    r: Result<T, NameError>,
) -> bool {
    match lookup {
        Ok(Some(v)) => r == Ok::<T, NameError>(v),
        Ok(None) => r matches Err(e) && e.label@ == label && e.name@ == name && e.problem
            == NameProblem::NotFound,
        Err(err) => r matches Err(e) && e.label@ == label && e.name@ == name && e.problem
            == NameProblem::LookupFailed(err),
    }
}

/// Resolves a named entity from the outcome of its lookup: the entity when
/// one was found, otherwise an error that says which name failed and why.
pub fn resolve_name<T>(label: &str, name: &str, lookup: Result<Option<T>, ZenMoneyError>) -> (r:
    Result<T, NameError>)
    ensures
        resolution_of(label@, name@, lookup, r),
{
    match lookup {
        Ok(Some(value)) => Ok(value),
        Ok(None) => Err(
            NameError { label: label.to_owned(), name: name.to_owned(), problem: NameProblem::NotFound },
        ),
        Err(err) => Err(
            NameError {
                label: label.to_owned(),
                name: name.to_owned(),
                problem: NameProblem::LookupFailed(err),
            },
        ),
    }
}

/// Arguments of the `transactions` command.
#[derive(Clone, Debug, PartialEq)]
pub struct TransactionArgs {
    /// Start date (inclusive); used together with `to`.
    pub from: Option<Date>,
    /// End date (inclusive); used together with `from`.
    pub to: Option<Date>,
    /// Account title (case-insensitive).
    pub account: Option<String>,
    /// Tag title (case-insensitive).
    pub tag: Option<String>,
    /// Payee text (case-insensitive substring).
    pub payee: Option<String>,
    /// Minimum amount (income or outcome).
    pub min_amount: Option<Binary64>,
    /// Maximum amount (income and outcome).
    pub max_amount: Option<Binary64>,
}

/// The lookup of an account by title among the accounts read, if reading
/// succeeded.
pub open spec fn account_lookup(accounts: Result<Vec<Account>, ZenMoneyError>, name: Seq<char>) -> Result<Option<Account>, ZenMoneyError> {
    match accounts {
        Ok(v) => Ok(first_where(v@, account_titled(name))),
        Err(e) => Err(e),
    }
}

/// The lookup of a tag by title among the tags read, if reading succeeded.
pub open spec fn tag_lookup(tags: Result<Vec<Tag>, ZenMoneyError>, name: Seq<char>) -> Result<Option<Tag>, ZenMoneyError> {
    match tags {
        Ok(v) => Ok(first_where(v@, tag_titled(name))),
        Err(e) => Err(e),
    }
}

/// Whether a name argument resolves: it is absent, or the lookup found an
/// entity.
pub open spec fn resolves<T>(arg: Option<String>, lookup: spec_fn(Seq<char>) -> Result<Option<T>, ZenMoneyError>) -> bool {
    arg matches Some(n) ==> lookup(n@) matches Ok(Some(_))
}

/// The filter criteria that the arguments give without any lookup: the date
/// range when both ends are given, and the amount bounds.
pub open spec fn plain_criteria(args: TransactionArgs) -> TransactionFilter {
    TransactionFilter {
        date_from: if args.from is Some && args.to is Some { args.from } else { None },
        date_to: if args.from is Some && args.to is Some { args.to } else { None },
        min_amount: args.min_amount,
        max_amount: args.max_amount,
        ..TransactionFilter::none_set()
    }
}

/// Builds the transaction filter that the arguments describe, resolving the
/// account and tag titles among `accounts` and `tags` (the outcomes of reading
/// them). The first title that does not resolve (the account's before the
/// tag's) is the error.
pub fn build_transaction_filter(
    args: &TransactionArgs,
    accounts: Result<Vec<Account>, ZenMoneyError>,
    tags: Result<Vec<Tag>, ZenMoneyError>,
) -> (r: Result<TransactionFilter, NameError>)
    ensures
        r is Ok <==> (resolves(args.account, |n: Seq<char>| account_lookup(accounts, n)) && resolves(
            args.tag,
            |n: Seq<char>| tag_lookup(tags, n),
        )),
        r matches Ok(f) ==> {
            &&& f == (TransactionFilter {
                account: f.account,
                tag: f.tag,
                payee: f.payee,
                ..plain_criteria(*args)
            })
            &&& (args.account matches Some(n) ==> account_lookup(accounts, n@) matches Ok(Some(a))
                && f.account == Some(a.id))
            &&& (args.account is None ==> f.account is None)
            &&& (args.tag matches Some(n) ==> tag_lookup(tags, n@) matches Ok(Some(t)) && f.tag
                == Some(t.id))
            &&& (args.tag is None ==> f.tag is None)
            &&& (args.payee matches Some(p) ==> f.payee matches Some(q) && q@ == p@)
            &&& (args.payee is None ==> f.payee is None)
        },
        r matches Err(e) ==> if !resolves(args.account, |n: Seq<char>| account_lookup(accounts, n)) {
            resolution_of("account"@, args.account->0@, account_lookup(accounts, args.account->0@), Err::<Account, NameError>(e))
        } else {
            resolution_of("tag"@, args.tag->0@, tag_lookup(tags, args.tag->0@), Err::<Tag, NameError>(e))
        },
{
    let mut filter = TransactionFilter::new();
    match (&args.from, &args.to) {
        (Some(from), Some(to)) => {
            filter = filter.date_range(*from, *to);
        },
        _ => {},
    }
    match &args.account {
        Some(name) => {
            let lookup = match accounts {
                Ok(all) => Ok(find_account_by_title(all, name.as_str())),
                Err(e) => Err(e),
            };
            let acc = resolve_name("account", name.as_str(), lookup)?;
            filter = filter.account(acc.id);
        },
        None => {},
    }
    match &args.tag {
        Some(name) => {
            let lookup = match tags {
                Ok(all) => Ok(find_tag_by_title(all, name.as_str())),
                Err(e) => Err(e),
            };
            let t = resolve_name("tag", name.as_str(), lookup)?;
            filter = filter.tag(t.id);
        },
        None => {},
    }
    match &args.payee {
        Some(p) => {
            filter = filter.payee(p.as_str());
        },
        None => {},
    }
    match (args.min_amount, args.max_amount) {
        (Some(min), Some(max)) => {
            filter = filter.amount_range(min, max);
        },
        (Some(min), None) => {
            filter.min_amount = Some(min);
        },
        (None, Some(max)) => {
            filter.max_amount = Some(max);
        },
        (None, None) => {},
    }
    Ok(filter)
}

/// The API token from the value of its environment variable, if set: an
/// empty value counts as unset.
pub fn token_from(value: Option<String>) -> (r: Option<String>)
    ensures
        r is Some <==> (value matches Some(s) && s@.len() > 0),
        r matches Some(t) ==> value == Some(t),
{
    match value {
        Some(v) => if v.as_str().is_empty() {
            None
        } else {
            Some(v)
        },
        None => None,
    }
}

/// The (payee, comment) of a suggestion query, or `None` where neither is
/// given: a query needs at least one of them.
pub fn suggest_query(payee: Option<String>, comment: Option<String>) -> (r: Option<
    (Option<String>, Option<String>),
>)
    ensures
        r is None <==> (payee is None && comment is None),
        r matches Some(q) ==> q == (payee, comment),
{
    if payee.is_none() && comment.is_none() {
        None
    } else {
        Some((payee, comment))
    }
}

} // verus!
