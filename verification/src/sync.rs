//! Applying a sync diff to a store.

use crate::deletions::{
    deletion_records, grouped, invalid_numeric_id, texts, GroupedDeletions, GroupedIds,
};
use crate::error::ZenMoneyError;
use crate::keyed::{
    key_listed, key_map, lemma_key_map_without_key_set, listed_keys, put_all, without_key_set,
};
use crate::models::{DiffResponse, Timestamp};
use crate::storage::{InMemoryStorage, StorageState};
use vstd::prelude::*;

verus! {

/// `after` is `before` with every entity of `response` upserted by key: the
/// response's record replaces a stored one with its key in place, any other
/// is appended; the timestamp is unchanged.
pub open spec fn upserts_applied(before: StorageState, after: StorageState, response: DiffResponse) -> bool {
    &&& after.server_timestamp == before.server_timestamp
    &&& key_map(after.accounts) == key_map(before.accounts).union_prefer_right(key_map(response.account@))
    &&& after.accounts == put_all(before.accounts, response.account@)
    &&& key_map(after.transactions) == key_map(before.transactions).union_prefer_right(key_map(response.transaction@))
    &&& after.transactions == put_all(before.transactions, response.transaction@)
    &&& key_map(after.tags) == key_map(before.tags).union_prefer_right(key_map(response.tag@))
    &&& after.tags == put_all(before.tags, response.tag@)
    &&& key_map(after.merchants) == key_map(before.merchants).union_prefer_right(key_map(response.merchant@))
    &&& after.merchants == put_all(before.merchants, response.merchant@)
    &&& key_map(after.instruments) == key_map(before.instruments).union_prefer_right(key_map(response.instrument@))
    &&& after.instruments == put_all(before.instruments, response.instrument@)
    &&& key_map(after.companies) == key_map(before.companies).union_prefer_right(key_map(response.company@))
    &&& after.companies == put_all(before.companies, response.company@)
    &&& key_map(after.countries) == key_map(before.countries).union_prefer_right(key_map(response.country@))
    &&& after.countries == put_all(before.countries, response.country@)
    &&& key_map(after.users) == key_map(before.users).union_prefer_right(key_map(response.user@))
    &&& after.users == put_all(before.users, response.user@)
    &&& key_map(after.reminders) == key_map(before.reminders).union_prefer_right(key_map(response.reminder@))
    &&& after.reminders == put_all(before.reminders, response.reminder@)
    &&& key_map(after.reminder_markers) == key_map(before.reminder_markers).union_prefer_right(key_map(response.reminder_marker@))
    &&& after.reminder_markers == put_all(before.reminder_markers, response.reminder_marker@)
    &&& key_map(after.budgets) == key_map(before.budgets).union_prefer_right(key_map(response.budget@))
    &&& after.budgets == put_all(before.budgets, response.budget@)
    &&& after.is_well_formed()
}

/// `after` is `before` without the records whose identifiers `g` lists, each
/// collection keeping its order; budgets and the timestamp are unchanged.
pub open spec fn deletions_applied(before: StorageState, after: StorageState, g: GroupedIds) -> bool {
    &&& after.server_timestamp == before.server_timestamp
    &&& after.accounts == without_key_set(before.accounts, g.accounts.to_set())
    &&& after.transactions == without_key_set(before.transactions, g.transactions.to_set())
    &&& after.tags == without_key_set(before.tags, g.tags.to_set())
    &&& after.merchants == without_key_set(before.merchants, g.merchants.to_set())
    &&& after.instruments == without_key_set(before.instruments, g.instruments.to_set())
    &&& after.companies == without_key_set(before.companies, g.companies.to_set())
    &&& after.countries == without_key_set(before.countries, g.countries.to_set())
    &&& after.users == without_key_set(before.users, g.users.to_set())
    &&& after.reminders == without_key_set(before.reminders, g.reminders.to_set())
    &&& after.reminder_markers == without_key_set(before.reminder_markers, g.reminder_markers.to_set())
    &&& after.budgets == before.budgets
    &&& after.is_well_formed()
}

/// `after` holds, by key, what `before` held overlaid with the records of
/// `response` (the response's record wins under a shared key), less every
/// record whose key `g` lists; budgets are only overlaid, and the timestamp
/// is the response's.
pub open spec fn diff_applied_by_key(before: StorageState, after: StorageState, response: DiffResponse, g: GroupedIds) -> bool {
    &&& after.server_timestamp == Some(response.server_timestamp)
    &&& key_map(after.accounts) == key_map(before.accounts).union_prefer_right(key_map(response.account@)).remove_keys(g.accounts.to_set())
    &&& key_map(after.transactions) == key_map(before.transactions).union_prefer_right(key_map(response.transaction@)).remove_keys(g.transactions.to_set())
    &&& key_map(after.tags) == key_map(before.tags).union_prefer_right(key_map(response.tag@)).remove_keys(g.tags.to_set())
    &&& key_map(after.merchants) == key_map(before.merchants).union_prefer_right(key_map(response.merchant@)).remove_keys(g.merchants.to_set())
    &&& key_map(after.instruments) == key_map(before.instruments).union_prefer_right(key_map(response.instrument@)).remove_keys(g.instruments.to_set())
    &&& key_map(after.companies) == key_map(before.companies).union_prefer_right(key_map(response.company@)).remove_keys(g.companies.to_set())
    &&& key_map(after.countries) == key_map(before.countries).union_prefer_right(key_map(response.country@)).remove_keys(g.countries.to_set())
    &&& key_map(after.users) == key_map(before.users).union_prefer_right(key_map(response.user@)).remove_keys(g.users.to_set())
    &&& key_map(after.reminders) == key_map(before.reminders).union_prefer_right(key_map(response.reminder@)).remove_keys(g.reminders.to_set())
    &&& key_map(after.reminder_markers) == key_map(before.reminder_markers).union_prefer_right(key_map(response.reminder_marker@)).remove_keys(g.reminder_markers.to_set())
    &&& key_map(after.budgets) == key_map(before.budgets).union_prefer_right(key_map(response.budget@))
    &&& after.is_well_formed()
}

/// Upserting a response and then removing its deletions gives, by key, the
/// overlay less the deleted keys.
proof fn lemma_diff_by_key(before: StorageState, mid: StorageState, after: StorageState, response: DiffResponse, g: GroupedIds)
    requires
        upserts_applied(before, mid, response),
        deletions_applied(mid, (StorageState { server_timestamp: mid.server_timestamp, ..after }), g),
        after.server_timestamp == Some(response.server_timestamp),
    ensures
        diff_applied_by_key(before, after, response, g),
{
    lemma_key_map_without_key_set(mid.accounts, g.accounts.to_set());
    lemma_key_map_without_key_set(mid.transactions, g.transactions.to_set());
    lemma_key_map_without_key_set(mid.tags, g.tags.to_set());
    lemma_key_map_without_key_set(mid.merchants, g.merchants.to_set());
    lemma_key_map_without_key_set(mid.instruments, g.instruments.to_set());
    lemma_key_map_without_key_set(mid.companies, g.companies.to_set());
    lemma_key_map_without_key_set(mid.countries, g.countries.to_set());
    lemma_key_map_without_key_set(mid.users, g.users.to_set());
    lemma_key_map_without_key_set(mid.reminders, g.reminders.to_set());
    lemma_key_map_without_key_set(mid.reminder_markers, g.reminder_markers.to_set());
}

/// The text identifiers listed, as a set.
proof fn lemma_listed_texts(v: Seq<String>)
    ensures
        listed_keys(v) == texts(v).to_set(),
{
    assert forall|k: Seq<char>| #[trigger] listed_keys(v).contains(k) <==> texts(v).to_set().contains(k) by {
        if listed_keys(v).contains(k) {
            let i = choose|i: int| 0 <= i < v.len() && #[trigger] v[i].deep_view() == k;
            assert(texts(v)[i] == k);
        }
        if texts(v).contains(k) {
            let i = choose|i: int| 0 <= i < texts(v).len() && texts(v)[i] == k;
            assert(v[i].deep_view() == k);
        }
    }
    assert(listed_keys(v) =~= texts(v).to_set());
}

/// The 32-bit identifiers listed, as a set.
proof fn lemma_listed_i32(v: Seq<i32>)
    ensures
        listed_keys(v) == v.to_set(),
{
    assert forall|k: i32| #[trigger] listed_keys(v).contains(k) implies v.to_set().contains(k) by {
        let i = choose|i: int| 0 <= i < v.len() && #[trigger] v[i].deep_view() == k;
        assert(v[i] == k);
        assert(v.contains(k));
    }
    assert forall|k: i32| #[trigger] v.to_set().contains(k) implies listed_keys(v).contains(k) by {
        assert(v.contains(k));
        let i = choose|i: int| 0 <= i < v.len() && v[i] == k;
        crate::keyed::lemma_key_listed_at(v, i);
    }
    assert(listed_keys(v) =~= v.to_set());
}

/// The 64-bit identifiers listed, as a set.
proof fn lemma_listed_i64(v: Seq<i64>)
    ensures
        listed_keys(v) == v.to_set(),
{
    assert forall|k: i64| #[trigger] listed_keys(v).contains(k) implies v.to_set().contains(k) by {
        let i = choose|i: int| 0 <= i < v.len() && #[trigger] v[i].deep_view() == k;
        assert(v[i] == k);
        assert(v.contains(k));
    }
    assert forall|k: i64| #[trigger] v.to_set().contains(k) implies listed_keys(v).contains(k) by {
        assert(v.contains(k));
        let i = choose|i: int| 0 <= i < v.len() && v[i] == k;
        crate::keyed::lemma_key_listed_at(v, i);
    }
    assert(listed_keys(v) =~= v.to_set());
}

/// Upserts all entity types of a diff response into the store.
#[verifier::rlimit(40)]
pub fn apply_upserts(storage: &mut InMemoryStorage, response: DiffResponse)
    ensures
        upserts_applied(old(storage)@, final(storage)@, response),
{
    let DiffResponse {
        server_timestamp: _,
        instrument,
        country,
        company,
        user,
        account,
        tag,
        merchant,
        transaction,
        reminder,
        reminder_marker,
        budget,
        deletion: _,
    } = response;
    if !account.is_empty() {
        storage.upsert_accounts(account);
    } else {
        assert(key_map(response.account@) =~= Map::empty());
        assert(key_map(storage@.accounts).union_prefer_right(key_map(response.account@)) =~= key_map(storage@.accounts));
    }
    if !transaction.is_empty() {
        storage.upsert_transactions(transaction);
    } else {
        assert(key_map(response.transaction@) =~= Map::empty());
        assert(key_map(storage@.transactions).union_prefer_right(key_map(response.transaction@)) =~= key_map(storage@.transactions));
    }
    if !tag.is_empty() {
        storage.upsert_tags(tag);
    } else {
        assert(key_map(response.tag@) =~= Map::empty());
        assert(key_map(storage@.tags).union_prefer_right(key_map(response.tag@)) =~= key_map(storage@.tags));
    }
    if !merchant.is_empty() {
        storage.upsert_merchants(merchant);
    } else {
        assert(key_map(response.merchant@) =~= Map::empty());
        assert(key_map(storage@.merchants).union_prefer_right(key_map(response.merchant@)) =~= key_map(storage@.merchants));
    }
    if !instrument.is_empty() {
        storage.upsert_instruments(instrument);
    } else {
        assert(key_map(response.instrument@) =~= Map::empty());
        assert(key_map(storage@.instruments).union_prefer_right(key_map(response.instrument@)) =~= key_map(storage@.instruments));
    }
    if !company.is_empty() {
        storage.upsert_companies(company);
    } else {
        assert(key_map(response.company@) =~= Map::empty());
        assert(key_map(storage@.companies).union_prefer_right(key_map(response.company@)) =~= key_map(storage@.companies));
    }
    if !country.is_empty() {
        storage.upsert_countries(country);
    } else {
        assert(key_map(response.country@) =~= Map::empty());
        assert(key_map(storage@.countries).union_prefer_right(key_map(response.country@)) =~= key_map(storage@.countries));
    }
    if !user.is_empty() {
        storage.upsert_users(user);
    } else {
        assert(key_map(response.user@) =~= Map::empty());
        assert(key_map(storage@.users).union_prefer_right(key_map(response.user@)) =~= key_map(storage@.users));
    }
    if !reminder.is_empty() {
        storage.upsert_reminders(reminder);
    } else {
        assert(key_map(response.reminder@) =~= Map::empty());
        assert(key_map(storage@.reminders).union_prefer_right(key_map(response.reminder@)) =~= key_map(storage@.reminders));
    }
    if !reminder_marker.is_empty() {
        storage.upsert_reminder_markers(reminder_marker);
    } else {
        assert(key_map(response.reminder_marker@) =~= Map::empty());
        assert(key_map(storage@.reminder_markers).union_prefer_right(key_map(response.reminder_marker@)) =~= key_map(storage@.reminder_markers));
    }
    if !budget.is_empty() {
        storage.upsert_budgets(budget);
    } else {
        assert(key_map(response.budget@) =~= Map::empty());
        assert(key_map(storage@.budgets).union_prefer_right(key_map(response.budget@)) =~= key_map(storage@.budgets));
    }
    storage.check_well_formed();
}

/// Removes the entities that a grouping of deletions lists.
pub fn remove_grouped(storage: &mut InMemoryStorage, groups: &GroupedDeletions)
    ensures
        deletions_applied(old(storage)@, final(storage)@, groups@),
{
    storage.remove_accounts(&groups.accounts);
    proof {
        lemma_listed_texts(groups.accounts@);
    }
    storage.remove_transactions(&groups.transactions);
    proof {
        lemma_listed_texts(groups.transactions@);
    }
    storage.remove_tags(&groups.tags);
    proof {
        lemma_listed_texts(groups.tags@);
    }
    storage.remove_merchants(&groups.merchants);
    proof {
        lemma_listed_texts(groups.merchants@);
    }
    storage.remove_instruments(&groups.instruments);
    proof {
        lemma_listed_i32(groups.instruments@);
    }
    storage.remove_companies(&groups.companies);
    proof {
        lemma_listed_i32(groups.companies@);
    }
    storage.remove_countries(&groups.countries);
    proof {
        lemma_listed_i32(groups.countries@);
    }
    storage.remove_users(&groups.users);
    proof {
        lemma_listed_i64(groups.users@);
    }
    storage.remove_reminders(&groups.reminders);
    proof {
        lemma_listed_texts(groups.reminders@);
    }
    storage.remove_reminder_markers(&groups.reminder_markers);
    proof {
        lemma_listed_texts(groups.reminder_markers@);
    }
    storage.check_well_formed();
}

/// Processes the deletion records of a diff response: groups them, then
/// removes the listed entities. An invalid numeric identifier is the error,
/// and then nothing is removed.
pub fn apply_deletions(storage: &mut InMemoryStorage, response: &DiffResponse) -> (r: Result<(), ZenMoneyError>)
    ensures
        match grouped(deletion_records(response)) {
            Ok(g) => r is Ok && deletions_applied(old(storage)@, final(storage)@, g),
            Err(k) => r matches Err(e) && invalid_numeric_id(e, k) && final(storage)@ == old(storage)@,
        },
{
    let groups = GroupedDeletions::from_response(response)?;
    remove_grouped(storage, &groups);
    Ok(())
}

/// Applies a diff response to the store: upserts every entity, then removes
/// the deleted ones, then records the server timestamp. On an invalid numeric
/// identifier in the deletions the upserts stay applied, nothing is removed,
/// the timestamp is not recorded, and the error is returned.
pub fn apply_diff(storage: &mut InMemoryStorage, response: DiffResponse) -> (r: Result<(), ZenMoneyError>)
    ensures
        match grouped(deletion_records(&response)) {
            Ok(g) => {
                &&& r is Ok
                &&& diff_applied_by_key(old(storage)@, final(storage)@, response, g)
                &&& exists|mid: StorageState| {
                    &&& upserts_applied(old(storage)@, mid, response)
                    &&& deletions_applied(mid, (StorageState { server_timestamp: mid.server_timestamp, ..final(storage)@ }), g)
                }
            },
            Err(k) => r matches Err(e) && invalid_numeric_id(e, k) && upserts_applied(old(storage)@, final(storage)@, response),
        },
{
    let groups = GroupedDeletions::from_response(&response);
    let timestamp = response.server_timestamp;
    let ghost given = response;
    apply_upserts(storage, response);
    let ghost mid = storage@;
    let groups = groups?;
    remove_grouped(storage, &groups);
    storage.set_server_timestamp(timestamp);
    assert(deletions_applied(mid, (StorageState { server_timestamp: mid.server_timestamp, ..storage@ }), groups@));
    proof {
        lemma_diff_by_key(old(storage)@, mid, storage@, given, groups@);
    }
    Ok(())
}

/// The server time an incremental sync starts from: the timestamp of the last
/// applied sync, or the epoch (0) when nothing has been synced yet.
pub fn sync_start(storage: &InMemoryStorage) -> (r: Timestamp)
    ensures
        r == (match storage@.server_timestamp {
            Some(t) => t,
            None => 0,
        }),
{
    match storage.server_timestamp() {
        Some(t) => t,
        None => 0,
    }
}

} // verus!
