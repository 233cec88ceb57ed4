//! Queries over stored entities.

use crate::date::{ymd_le, Date};
use crate::deletions::kind_label;
use crate::deletions::{entity_type_name, EntityKind};
use crate::filter::{is_text, TransactionFilter};
use crate::models::{
    Account, AccountId, Deletion, Instrument, InstrumentId, Tag, Timestamp, Transaction, User,
    UserId,
};
use crate::text::{lowercase, same_text_ignoring_case};
use vstd::prelude::*;

verus! {

/// The first element of `s` that satisfies `p`, if any.
pub open spec fn first_where<T>(s: Seq<T>, p: spec_fn(T) -> bool) -> Option<T>
    decreases s.len(),
{
    if s.len() == 0 {
        None
    } else if p(s[0]) {
        Some(s[0])
    } else {
        first_where(s.skip(1), p)
    }
}

/// The transactions that a query by filter gives back: those not deleted that
/// the filter accepts.
pub open spec fn listed_by(filter: TransactionFilter) -> spec_fn(Transaction) -> bool {
    |tx: Transaction| !tx.deleted && filter.accepts(tx)
}

/// Whether a tag's title is `title`, ignoring case.
pub open spec fn tag_titled(title: Seq<char>) -> spec_fn(Tag) -> bool {
    |t: Tag| lowercase(t.title@) == lowercase(title)
}

/// Whether an account's title is `title`, ignoring case.
pub open spec fn account_titled(title: Seq<char>) -> spec_fn(Account) -> bool {
    |a: Account| lowercase(a.title@) == lowercase(title)
}

/// Whether an instrument has identifier `id`.
pub open spec fn instrument_with_id(id: InstrumentId) -> spec_fn(Instrument) -> bool {
    |i: Instrument| i.id == id
}

/// Returns non-deleted transactions matching the given filter, in their order.
pub fn filter_transactions(all: Vec<Transaction>, filter: &TransactionFilter) -> (r: Vec<
    Transaction,
>)
    ensures
        r@ == all@.filter(listed_by(*filter)),
{
    let ghost p = listed_by(*filter);
    let ghost whole = all@;
    let mut rest = all;
    assert(whole.len() == rest.len());
    let mut out: Vec<Transaction> = Vec::new();
    let mut k: usize = 0;
    assert(whole.take(0).filter(p) =~= Seq::<Transaction>::empty()) by {
        reveal(Seq::filter);
    }
    while rest.len() > 0
        invariant
            k <= whole.len() <= usize::MAX,
            rest@ == whole.skip(k as int),
            out@ == whole.take(k as int).filter(p),
            p == listed_by(*filter),
        decreases rest@.len(),
    {
        let tx = rest.remove(0);
        assert(tx == whole[k as int]);
        assert(whole.take(k + 1) =~= whole.take(k as int).push(tx));
        proof {
            whole.take(k as int).lemma_filter_push(tx, p);
        }
        if !tx.deleted && filter.matches(&tx) {
            out.push(tx);
        }
        assert(rest@ =~= whole.skip(k + 1));
        k = k + 1;
    }
    assert(whole.take(k as int) =~= whole);
    out
}

/// Returns the non-deleted transactions dated within `from..=to`.
pub fn transactions_by_date(all: Vec<Transaction>, from: Date, to: Date) -> (r: Vec<Transaction>)
    ensures
        r@ == all@.filter(
            listed_by(TransactionFilter { date_from: Some(from), date_to: Some(to), ..TransactionFilter::none_set() }),
        ),
        forall|i: int| 0 <= i < r@.len() ==> !r@[i].deleted && ymd_le(from@, #[trigger] r@[i].date@) && ymd_le(r@[i].date@, to@),
{
    let filter = TransactionFilter::new().date_range(from, to);
    let r = filter_transactions(all, &filter);
    assert forall|i: int| 0 <= i < r@.len() implies !r@[i].deleted && ymd_le(from@, #[trigger] r@[i].date@) && ymd_le(r@[i].date@, to@) by {
        all@.lemma_filter_pred(listed_by(filter), i);
    }
    r
}

/// Returns the non-deleted transactions with `account_id` as income or
/// outcome account.
pub fn transactions_by_account(all: Vec<Transaction>, account_id: &AccountId) -> (r: Vec<Transaction>)
    ensures
        r@ == all@.filter(listed_by(TransactionFilter { account: Some(*account_id), ..TransactionFilter::none_set() })),
        forall|i: int| 0 <= i < r@.len() ==> !r@[i].deleted && (is_text(#[trigger] r@[i].income_account, account_id@) || is_text(r@[i].outcome_account, account_id@)),
{
    let filter = TransactionFilter::new().account(account_id.clone());
    let r = filter_transactions(all, &filter);
    assert forall|i: int| 0 <= i < r@.len() implies !r@[i].deleted && (is_text(#[trigger] r@[i].income_account, account_id@) || is_text(r@[i].outcome_account, account_id@)) by {
        all@.lemma_filter_pred(listed_by(filter), i);
    }
    r
}

/// Finds a tag by title (case-insensitive): the first tag whose lowercased
/// title is the lowercased `title`.
pub fn find_tag_by_title(all: Vec<Tag>, title: &str) -> (r: Option<Tag>)
    ensures
        r == first_where(all@, tag_titled(title@)),
{
    let ghost p = tag_titled(title@);
    let ghost whole = all@;
    let mut rest = all;
    let ghost mut k: int = 0;
    while rest.len() > 0
        invariant
            whole == all@,
            0 <= k <= whole.len(),
            rest@ == whole.skip(k),
            first_where(rest@, p) == first_where(whole, p),
            p == tag_titled(title@),
        decreases rest@.len(),
    {
        let ghost before = rest@;
        let t = rest.remove(0);
        if same_text_ignoring_case(t.title.as_str(), title) {
            assert(p(before[0]));
            assert(first_where(before, p) == Some(before[0]));
            return Some(t);
        }
        assert(rest@ =~= before.skip(1));
        proof {
            k = k + 1;
        }
        assert(rest@ =~= whole.skip(k));
    }
    None
}

/// Finds an account by title (case-insensitive): the first account whose
/// lowercased title is the lowercased `title`.
pub fn find_account_by_title(all: Vec<Account>, title: &str) -> (r: Option<Account>)
    ensures
        r == first_where(all@, account_titled(title@)),
{
    let ghost p = account_titled(title@);
    let ghost whole = all@;
    let mut rest = all;
    let ghost mut k: int = 0;
    while rest.len() > 0
        invariant
            whole == all@,
            0 <= k <= whole.len(),
            rest@ == whole.skip(k),
            first_where(rest@, p) == first_where(whole, p),
            p == account_titled(title@),
        decreases rest@.len(),
    {
        let ghost before = rest@;
        let a = rest.remove(0);
        if same_text_ignoring_case(a.title.as_str(), title) {
            assert(p(before[0]));
            assert(first_where(before, p) == Some(before[0]));
            return Some(a);
        }
        assert(rest@ =~= before.skip(1));
        proof {
            k = k + 1;
        }
        assert(rest@ =~= whole.skip(k));
    }
    None
}

/// Returns the accounts that are not archived, in their order.
pub fn active_accounts(all: Vec<Account>) -> (r: Vec<Account>)
    ensures
        r@ == all@.filter(|a: Account| !a.archive),
{
    let ghost p = |a: Account| !a.archive;
    let ghost whole = all@;
    let mut rest = all;
    assert(whole.len() == rest.len());
    let mut out: Vec<Account> = Vec::new();
    let mut k: usize = 0;
    assert(whole.take(0).filter(p) =~= Seq::<Account>::empty()) by {
        reveal(Seq::filter);
    }
    while rest.len() > 0
        invariant
            k <= whole.len() <= usize::MAX,
            rest@ == whole.skip(k as int),
            out@ == whole.take(k as int).filter(p),
            p == (|a: Account| !a.archive),
        decreases rest@.len(),
    {
        let a = rest.remove(0);
        assert(a == whole[k as int]);
        assert(whole.take(k + 1) =~= whole.take(k as int).push(a));
        proof {
            whole.take(k as int).lemma_filter_push(a, p);
        }
        if !a.archive {
            out.push(a);
        }
        assert(rest@ =~= whole.skip(k + 1));
        k = k + 1;
    }
    assert(whole.take(k as int) =~= whole);
    out
}

/// Looks up an instrument by ID: the first one with that identifier.
pub fn instrument(all: Vec<Instrument>, id: InstrumentId) -> (r: Option<Instrument>)
    ensures
        r == first_where(all@, instrument_with_id(id)),
{
    let ghost p = instrument_with_id(id);
    let ghost whole = all@;
    let mut rest = all;
    let ghost mut k: int = 0;
    while rest.len() > 0
        invariant
            whole == all@,
            0 <= k <= whole.len(),
            rest@ == whole.skip(k),
            first_where(rest@, p) == first_where(whole, p),
            p == instrument_with_id(id),
        decreases rest@.len(),
    {
        let ghost before = rest@;
        let candidate = rest.remove(0);
        if candidate.id == id {
            assert(p(before[0]));
            assert(first_where(before, p) == Some(before[0]));
            return Some(candidate);
        }
        assert(rest@ =~= before.skip(1));
        proof {
            k = k + 1;
        }
        assert(rest@ =~= whole.skip(k));
    }
    None
}

/// The user ID of the first stored user, or `0` if no users have been synced
/// yet.
pub fn current_user_id(users: &[User]) -> (r: UserId)
    ensures
        r == (if users@.len() > 0 { users@[0].id } else { 0 }),
{
    if users.len() > 0 {
        users[0].id
    } else {
        0
    }
}

/// Builds deletion records of entities of type `kind` for the given IDs, all
/// stamped with `stamp` and `user`.
pub fn build_deletions(ids: &[String], kind: EntityKind, stamp: Timestamp, user: UserId) -> (r: Vec<
    Deletion,
>)
    ensures
        r@.len() == ids@.len(),
        forall|i: int|
            0 <= i < ids@.len() ==> {
                &&& (#[trigger] r@[i]).id@ == ids@[i]@
                &&& r@[i].object@ == kind_label(kind)
                &&& r@[i].stamp == stamp
                &&& r@[i].user == user
            },
{
    let object = entity_type_name(kind);
    let n = ids.len();
    let mut out: Vec<Deletion> = Vec::new();
    let mut i: usize = 0;
    while i < n
        invariant
            n == ids@.len(),
            i <= n,
            object@ == kind_label(kind),
            out@.len() == i,
            forall|j: int|
                0 <= j < i ==> {
                    &&& (#[trigger] out@[j]).id@ == ids@[j]@
                    &&& out@[j].object@ == kind_label(kind)
                    &&& out@[j].stamp == stamp
                    &&& out@[j].user == user
                },
        decreases n - i,
    {
        out.push(Deletion { id: ids[i].clone(), object: object.to_owned(), stamp, user });
        i = i + 1;
    }
    out
}

} // verus!
