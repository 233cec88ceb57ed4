//! Properties of the library that span several operations.

use crate::filter::TransactionFilter;
use crate::keyed::{
    holds_key, key_map, keys_unique, lemma_key_map_concat, lemma_key_map_dom, lemma_key_map_len,
    lemma_key_map_unique_value, lemma_put_all_by_key, lemma_put_all_known_keys, lemma_put_all_unique,
    overlay, put_all, without_key_set, Keyed,
};
use crate::deletions::{deletion_records, grouped, kind_named, EntityKind, GroupedIds};
use crate::models::{DiffResponse, Transaction};
use crate::numeric::IntProblem;
use crate::storage::StorageState;
use crate::sync::diff_applied_by_key;
use crate::numeric::decimal_value;
use crate::cli::{plain_criteria, TransactionArgs};
use crate::models::{Account, Tag};
use crate::queries::{account_titled, first_where, listed_by, tag_titled};
use crate::text::lowercase;
use vstd::prelude::*;

verus! {

/// Under the key of the last record of `s` with that key, `key_map` holds that
/// record.
proof fn lemma_key_map_last<T: Keyed>(s: Seq<T>, i: int)
    requires
        0 <= i < s.len(),
        forall|j: int| i < j < s.len() ==> #[trigger] s[j].key_of() != s[i].key_of(),
    ensures
        key_map(s).dom().contains(s[i].key_of()),
        key_map(s)[s[i].key_of()] == s[i],
    decreases s.len(),
{
    if i < s.len() - 1 {
        lemma_key_map_last(s.drop_last(), i);
        assert(s[s.len() - 1].key_of() != s[i].key_of());
    }
}

/// Read after upsert: once a batch is upserted, the record under each key of
/// the batch is the batch's last record with that key, and the record under
/// any other key is the one that was there before.
pub proof fn law_upsert_read_back<T: Keyed>(before: Seq<T>, items: Seq<T>, after: Seq<T>)
    requires
        key_map(after) == key_map(before).union_prefer_right(key_map(items)),
    ensures
        forall|i: int|
            0 <= i < items.len() && (forall|j: int| i < j < items.len() ==> #[trigger] items[j].key_of() != items[i].key_of())
                ==> key_map(after).dom().contains(#[trigger] items[i].key_of()) && key_map(after)[items[i].key_of()] == items[i],
        forall|k: <T::Key as DeepView>::V|
            key_map(before).dom().contains(k) && !key_map(items).dom().contains(k) ==> #[trigger] key_map(after)[k]
                == key_map(before)[k],
{
    assert forall|i: int|
        0 <= i < items.len() && (forall|j: int| i < j < items.len() ==> #[trigger] items[j].key_of() != items[i].key_of())
            implies key_map(after).dom().contains(#[trigger] items[i].key_of()) && key_map(after)[items[i].key_of()] == items[i] by {
        lemma_key_map_last(items, i);
    }
}

/// Upserting records whose keys are all stored already keeps the number of
/// stored records.
pub proof fn law_upsert_of_known_keys_keeps_count<T: Keyed>(before: Seq<T>, items: Seq<T>, after: Seq<T>)
    requires
        keys_unique(before),
        keys_unique(after),
        key_map(after) == key_map(before).union_prefer_right(key_map(items)),
        forall|i: int| 0 <= i < items.len() ==> exists|j: int| 0 <= j < before.len() && #[trigger] before[j].key_of() == #[trigger] items[i].key_of(),
    ensures
        after.len() == before.len(),
{
    assert forall|k: <T::Key as DeepView>::V| #[trigger] key_map(after).dom().contains(k) <==> key_map(before).dom().contains(k) by {
        lemma_key_map_dom(items, k);
        lemma_key_map_dom(before, k);
    }
    assert(key_map(after).dom() =~= key_map(before).dom());
    lemma_key_map_len(before);
    lemma_key_map_len(after);
}

/// Upserting the same batch twice stores the same records by key as
/// upserting it once.
pub proof fn law_upsert_idempotent<T: Keyed>(before: Seq<T>, items: Seq<T>, once: Seq<T>, twice: Seq<T>)
    requires
        key_map(once) == key_map(before).union_prefer_right(key_map(items)),
        key_map(twice) == key_map(once).union_prefer_right(key_map(items)),
    ensures
        key_map(twice) == key_map(once),
{
    assert(key_map(twice) =~= key_map(once));
}

/// Upserting two batches one after the other stores the same records by key
/// as upserting them as one batch, the first followed by the second.
pub proof fn law_upsert_in_batches<T: Keyed>(before: Seq<T>, first: Seq<T>, second: Seq<T>, mid: Seq<T>, after: Seq<T>)
    requires
        key_map(mid) == key_map(before).union_prefer_right(key_map(first)),
        key_map(after) == key_map(mid).union_prefer_right(key_map(second)),
    ensures
        key_map(after) == key_map(before).union_prefer_right(key_map(first + second)),
{
    lemma_key_map_concat(first, second);
    assert(key_map(after) =~= key_map(before).union_prefer_right(key_map(first + second)));
}

/// A sequence whose elements all pass `p` is its own filter.
proof fn lemma_filter_keeps_all<A>(s: Seq<A>, p: spec_fn(A) -> bool)
    requires
        forall|i: int| 0 <= i < s.len() ==> p(#[trigger] s[i]),
    ensures
        s.filter(p) == s,
    decreases s.len(),
{
    if s.len() > 0 {
        let d = s.drop_last();
        assert forall|i: int| 0 <= i < d.len() implies p(#[trigger] d[i]) by {
            assert(d[i] == s[i]);
        }
        lemma_filter_keeps_all(d, p);
        d.lemma_filter_push(s.last(), p);
        assert(d.push(s.last()) =~= s);
    }
}

/// Upserting the same batch a second time leaves the stored sequence exactly
/// as the first upsert left it, whatever was stored before: `once` and `twice`
/// are what `upsert_by_key` gives after the first and the second upsert.
pub proof fn law_upsert_twice_keeps_sequence<T: Keyed>(before: Seq<T>, items: Seq<T>, once: Seq<T>, twice: Seq<T>)
    requires
        once == put_all(put_all(Seq::empty(), before), items),
        twice == put_all(put_all(Seq::empty(), once), items),
    ensures
        twice == once,
{
    let start = put_all(Seq::<T>::empty(), before);
    lemma_put_all_by_key(Seq::<T>::empty(), before);
    lemma_put_all_by_key(start, items);
    lemma_put_all_unique(once);
    assert forall|i: int| 0 <= i < items.len() implies holds_key(once, #[trigger] items[i].key_of()) by {
        lemma_key_map_dom(items, items[i].key_of());
        lemma_key_map_dom(once, items[i].key_of());
    }
    lemma_put_all_known_keys(once, items);
    assert forall|j: int| 0 <= j < once.len() implies #[trigger] overlay(once, key_map(items))[j] == once[j] by {
        lemma_key_map_unique_value(once, j);
    }
    assert(overlay(once, key_map(items)) =~= once);
}

/// Removal by key leaves no record with a removed key, and keeps every record
/// whose key was not removed.
pub proof fn law_removed_keys_absent<T: Keyed>(s: Seq<T>, keys: Set<<T::Key as DeepView>::V>)
    ensures
        forall|i: int| 0 <= i < without_key_set(s, keys).len() ==> !keys.contains(#[trigger] without_key_set(s, keys)[i].key_of()),
        forall|i: int| 0 <= i < s.len() && !keys.contains(#[trigger] s[i].key_of()) ==> without_key_set(s, keys).contains(s[i]),
{
    let keep = |x: T| !keys.contains(x.key_of());
    assert forall|i: int| 0 <= i < without_key_set(s, keys).len() implies !keys.contains(#[trigger] without_key_set(s, keys)[i].key_of()) by {
        s.lemma_filter_pred(keep, i);
    }
    assert forall|i: int| 0 <= i < s.len() && !keys.contains(#[trigger] s[i].key_of()) implies without_key_set(s, keys).contains(s[i]) by {
        s.lemma_filter_contains(keep, i);
    }
}

/// Removing the same keys a second time changes nothing.
pub proof fn law_remove_idempotent<T: Keyed>(s: Seq<T>, keys: Set<<T::Key as DeepView>::V>)
    ensures
        without_key_set(without_key_set(s, keys), keys) == without_key_set(s, keys),
{
    let keep = |x: T| !keys.contains(x.key_of());
    let once = without_key_set(s, keys);
    assert forall|i: int| 0 <= i < once.len() implies keep(#[trigger] once[i]) by {
        s.lemma_filter_pred(keep, i);
    }
    lemma_filter_keeps_all(once, keep);
}

/// A transaction query gives back exactly the transactions that are not
/// deleted and that the filter accepts.
pub proof fn law_query_gives_accepted_transactions(all: Seq<Transaction>, filter: TransactionFilter)
    ensures
        forall|i: int| 0 <= i < all.filter(listed_by(filter)).len() ==> {
            &&& !(#[trigger] all.filter(listed_by(filter))[i]).deleted
            &&& filter.accepts(all.filter(listed_by(filter))[i])
        },
        forall|i: int| 0 <= i < all.len() && !(#[trigger] all[i]).deleted && filter.accepts(all[i]) ==> all.filter(listed_by(filter)).contains(all[i]),
{
    assert forall|i: int| 0 <= i < all.filter(listed_by(filter)).len() implies {
        &&& !(#[trigger] all.filter(listed_by(filter))[i]).deleted
        &&& filter.accepts(all.filter(listed_by(filter))[i])
    } by {
        all.lemma_filter_pred(listed_by(filter), i);
    }
    assert forall|i: int| 0 <= i < all.len() && !(#[trigger] all[i]).deleted && filter.accepts(all[i]) implies all.filter(listed_by(filter)).contains(all[i]) by {
        all.lemma_filter_contains(listed_by(filter), i);
    }
}

/// The identifiers of the deletion records (type, identifier) whose type is
/// `label`, in their order.
pub open spec fn ids_named(records: Seq<(Seq<char>, Seq<char>)>, label: Seq<char>) -> Seq<Seq<char>> {
    records.filter(of_type(label)).map_values(id_of())
}

/// Whether a deletion record (type, identifier) has the type `label`.
pub open spec fn of_type(label: Seq<char>) -> spec_fn((Seq<char>, Seq<char>)) -> bool {
    |r: (Seq<char>, Seq<char>)| r.0 == label
}

/// The identifier of a deletion record (type, identifier).
pub open spec fn id_of() -> spec_fn((Seq<char>, Seq<char>)) -> Seq<char> {
    |r: (Seq<char>, Seq<char>)| r.1
}

/// The number that an identifier text writes.
pub open spec fn number_of() -> spec_fn(Seq<char>) -> int {
    |id: Seq<char>| decimal_value(id)->0
}

/// The numbers written in the identifiers of the deletion records whose type
/// is `label`, in their order.
pub open spec fn numbers_named(records: Seq<(Seq<char>, Seq<char>)>, label: Seq<char>) -> Seq<int> {
    ids_named(records, label).map_values(number_of())
}

/// One more record adds its identifier to the identifiers of its type, and to
/// no other.
proof fn lemma_ids_named_push(d: Seq<(Seq<char>, Seq<char>)>, x: (Seq<char>, Seq<char>), label: Seq<char>)
    ensures
        ids_named(d.push(x), label) == if x.0 == label {
            ids_named(d, label).push(x.1)
        } else {
            ids_named(d, label)
        },
{
    let p = of_type(label);
    d.lemma_filter_push(x, p);
    let f = id_of();
    if x.0 == label {
        assert(d.push(x).filter(p) == d.filter(p).push(x));
        assert(d.filter(p).push(x).map_values(f) =~= d.filter(p).map_values(f).push(x.1));
    } else {
        assert(d.push(x).filter(p) == d.filter(p));
    }
}

/// The integers of a sequence of 32-bit numbers.
pub open spec fn ints32(v: Seq<i32>) -> Seq<int> {
    v.map_values(|x: i32| x as int)
}

/// The integers of a sequence of 64-bit numbers.
pub open spec fn ints64(v: Seq<i64>) -> Seq<int> {
    v.map_values(|x: i64| x as int)
}

/// Each entity type name in deletion records names its own type.
proof fn lemma_kind_labels()
    ensures
        kind_named("account"@) == Some(EntityKind::Account),
        kind_named("transaction"@) == Some(EntityKind::Transaction),
        kind_named("tag"@) == Some(EntityKind::Tag),
        kind_named("merchant"@) == Some(EntityKind::Merchant),
        kind_named("instrument"@) == Some(EntityKind::Instrument),
        kind_named("company"@) == Some(EntityKind::Company),
        kind_named("country"@) == Some(EntityKind::Country),
        kind_named("user"@) == Some(EntityKind::User),
        kind_named("reminder"@) == Some(EntityKind::Reminder),
        kind_named("reminderMarker"@) == Some(EntityKind::ReminderMarker),
{
    reveal_strlit("account");
    reveal_strlit("transaction");
    reveal_strlit("tag");
    reveal_strlit("merchant");
    reveal_strlit("reminder");
    reveal_strlit("reminderMarker");
    reveal_strlit("instrument");
    reveal_strlit("company");
    reveal_strlit("country");
    reveal_strlit("user");
    assert("tag"@.len() == 3 && "transaction"@.len() == 11 && "instrument"@.len() == 10);
    assert("account"@.len() == 7 && "merchant"@.len() == 8);
    assert("company"@.len() == 7 && "country"@.len() == 7 && "user"@.len() == 4);
    assert("reminder"@.len() == 8 && "reminderMarker"@.len() == 14);
    assert("tag"@ != "transaction"@);
    assert("instrument"@ != "transaction"@);
    assert("account"@[0] != "company"@[0]);
    assert("account"@[0] != "country"@[0]);
    assert("company"@[2] != "country"@[2]);
    assert("merchant"@[0] != "reminder"@[0]);
}

/// Grouping deletion records collects, for each entity type, exactly the
/// identifiers of the records of that type, in their order: the text
/// identifiers as written, the numeric ones as the numbers they write.
pub proof fn law_grouping_collects_ids(records: Seq<(Seq<char>, Seq<char>)>, g: GroupedIds)
    requires
        grouped(records) == Ok::<GroupedIds, crate::numeric::IntProblem>(g),
    ensures
        g.accounts == ids_named(records, "account"@),
        g.transactions == ids_named(records, "transaction"@),
        g.tags == ids_named(records, "tag"@),
        g.merchants == ids_named(records, "merchant"@),
        g.reminders == ids_named(records, "reminder"@),
        g.reminder_markers == ids_named(records, "reminderMarker"@),
        ints32(g.instruments) == numbers_named(records, "instrument"@),
        ints32(g.companies) == numbers_named(records, "company"@),
        ints32(g.countries) == numbers_named(records, "country"@),
        ints64(g.users) == numbers_named(records, "user"@),
    decreases records.len(),
{
    reveal_strlit("account");
    reveal_strlit("transaction");
    reveal_strlit("tag");
    reveal_strlit("merchant");
    reveal_strlit("reminder");
    reveal_strlit("reminderMarker");
    reveal_strlit("instrument");
    reveal_strlit("company");
    reveal_strlit("country");
    reveal_strlit("user");
    if records.len() == 0 {
        assert(ids_named(records, "account"@) =~= Seq::empty()) by { reveal(Seq::filter); }
        assert(ids_named(records, "transaction"@) =~= Seq::empty()) by { reveal(Seq::filter); }
        assert(ids_named(records, "tag"@) =~= Seq::empty()) by { reveal(Seq::filter); }
        assert(ids_named(records, "merchant"@) =~= Seq::empty()) by { reveal(Seq::filter); }
        assert(ids_named(records, "reminder"@) =~= Seq::empty()) by { reveal(Seq::filter); }
        assert(ids_named(records, "reminderMarker"@) =~= Seq::empty()) by { reveal(Seq::filter); }
        assert(numbers_named(records, "instrument"@) =~= Seq::empty()) by { reveal(Seq::filter); }
        assert(numbers_named(records, "company"@) =~= Seq::empty()) by { reveal(Seq::filter); }
        assert(numbers_named(records, "country"@) =~= Seq::empty()) by { reveal(Seq::filter); }
        assert(numbers_named(records, "user"@) =~= Seq::empty()) by { reveal(Seq::filter); }
        assert(ints32(g.instruments) =~= Seq::empty());
        assert(ints32(g.companies) =~= Seq::empty());
        assert(ints32(g.countries) =~= Seq::empty());
        assert(ints64(g.users) =~= Seq::empty());
    } else {
        let d = records.drop_last();
        let x = records.last();
        let g0 = grouped(d)->Ok_0;
        law_grouping_collects_ids(d, g0);
        assert(d.push(x) =~= records);
        lemma_ids_named_push(d, x, "account"@);
        lemma_ids_named_push(d, x, "transaction"@);
        lemma_ids_named_push(d, x, "tag"@);
        lemma_ids_named_push(d, x, "merchant"@);
        lemma_ids_named_push(d, x, "reminder"@);
        lemma_ids_named_push(d, x, "reminderMarker"@);
        lemma_ids_named_push(d, x, "instrument"@);
        lemma_ids_named_push(d, x, "company"@);
        lemma_ids_named_push(d, x, "country"@);
        lemma_ids_named_push(d, x, "user"@);
        lemma_kind_labels();
        let f = number_of();
        assert(ids_named(d, "instrument"@).push(x.1).map_values(f) =~= numbers_named(d, "instrument"@).push(decimal_value(x.1)->0));
        assert(ids_named(d, "company"@).push(x.1).map_values(f) =~= numbers_named(d, "company"@).push(decimal_value(x.1)->0));
        assert(ids_named(d, "country"@).push(x.1).map_values(f) =~= numbers_named(d, "country"@).push(decimal_value(x.1)->0));
        assert(ids_named(d, "user"@).push(x.1).map_values(f) =~= numbers_named(d, "user"@).push(decimal_value(x.1)->0));
        assert(ints32(g0.instruments.push(decimal_value(x.1)->0 as i32)) =~= ints32(g0.instruments).push(decimal_value(x.1)->0 as i32 as int));
        assert(ints32(g0.companies.push(decimal_value(x.1)->0 as i32)) =~= ints32(g0.companies).push(decimal_value(x.1)->0 as i32 as int));
        assert(ints32(g0.countries.push(decimal_value(x.1)->0 as i32)) =~= ints32(g0.countries).push(decimal_value(x.1)->0 as i32 as int));
        assert(ints64(g0.users.push(decimal_value(x.1)->0 as i64)) =~= ints64(g0.users).push(decimal_value(x.1)->0 as i64 as int));
    }
}

/// The identifier of a record of type `label` is among the identifiers
/// named `label`.
proof fn lemma_named_id_listed(records: Seq<(Seq<char>, Seq<char>)>, i: int, label: Seq<char>)
    requires
        0 <= i < records.len(),
        records[i].0 == label,
    ensures
        ids_named(records, label).contains(records[i].1),
{
    records.lemma_filter_contains(of_type(label), i);
    let kept = records.filter(of_type(label));
    let k = choose|k: int| 0 <= k < kept.len() && kept[k] == records[i];
    assert(ids_named(records, label)[k] == records[i].1);
}

/// Where the records by key lack the keys of `keys`, no record has such a key.
proof fn lemma_no_record_with_removed_key<T: Keyed>(
    s: Seq<T>,
    m: Map<<T::Key as DeepView>::V, T>,
    keys: Set<<T::Key as DeepView>::V>,
    k: <T::Key as DeepView>::V,
)
    requires
        key_map(s) == m.remove_keys(keys),
        keys.contains(k),
    ensures
        forall|j: int| 0 <= j < s.len() ==> #[trigger] s[j].key_of() != k,
{
    assert forall|j: int| 0 <= j < s.len() implies #[trigger] s[j].key_of() != k by {
        lemma_key_map_dom(s, s[j].key_of());
    }
}

/// After a diff response is applied, the store holds no account, transaction,
/// tag, merchant, reminder or reminder marker whose identifier a deletion
/// record of that type in the response names, even where the response also
/// carries that record.
pub proof fn law_deleted_records_gone_after_diff(
    before: StorageState,
    after: StorageState,
    response: DiffResponse,
    g: GroupedIds,
)
    requires
        grouped(deletion_records(&response)) == Ok::<GroupedIds, IntProblem>(g),
        diff_applied_by_key(before, after, response, g),
    ensures
        forall|i: int, j: int|
            0 <= i < response.deletion@.len() && response.deletion@[i].object@ == "transaction"@ && 0 <= j
                < after.transactions.len() ==> #[trigger] after.transactions[j].id@ != #[trigger] response.deletion@[i].id@,
        forall|i: int, j: int|
            0 <= i < response.deletion@.len() && response.deletion@[i].object@ == "account"@ && 0 <= j
                < after.accounts.len() ==> #[trigger] after.accounts[j].id@ != #[trigger] response.deletion@[i].id@,
        forall|i: int, j: int|
            0 <= i < response.deletion@.len() && response.deletion@[i].object@ == "tag"@ && 0 <= j
                < after.tags.len() ==> #[trigger] after.tags[j].id@ != #[trigger] response.deletion@[i].id@,
        forall|i: int, j: int|
            0 <= i < response.deletion@.len() && response.deletion@[i].object@ == "merchant"@ && 0 <= j
                < after.merchants.len() ==> #[trigger] after.merchants[j].id@ != #[trigger] response.deletion@[i].id@,
        forall|i: int, j: int|
            0 <= i < response.deletion@.len() && response.deletion@[i].object@ == "reminder"@ && 0 <= j
                < after.reminders.len() ==> #[trigger] after.reminders[j].id@ != #[trigger] response.deletion@[i].id@,
        forall|i: int, j: int|
            0 <= i < response.deletion@.len() && response.deletion@[i].object@ == "reminderMarker"@ && 0 <= j
                < after.reminder_markers.len() ==> #[trigger] after.reminder_markers[j].id@
                != #[trigger] response.deletion@[i].id@,
{
    let records = deletion_records(&response);
    law_grouping_collects_ids(records, g);
    assert forall|i: int, j: int|
        0 <= i < response.deletion@.len() && response.deletion@[i].object@ == "transaction"@ && 0 <= j
            < after.transactions.len() implies #[trigger] after.transactions[j].id@ != #[trigger] response.deletion@[i].id@ by {
        lemma_named_id_listed(records, i, "transaction"@);
        let id = response.deletion@[i].id@;
        assert(g.transactions.to_set().contains(id));
        lemma_no_record_with_removed_key(after.transactions, key_map(before.transactions).union_prefer_right(key_map(response.transaction@)), g.transactions.to_set(), id);
        assert(after.transactions[j].key_of() != id);
    }
    assert forall|i: int, j: int|
        0 <= i < response.deletion@.len() && response.deletion@[i].object@ == "account"@ && 0 <= j
            < after.accounts.len() implies #[trigger] after.accounts[j].id@ != #[trigger] response.deletion@[i].id@ by {
        lemma_named_id_listed(records, i, "account"@);
        let id = response.deletion@[i].id@;
        assert(g.accounts.to_set().contains(id));
        lemma_no_record_with_removed_key(after.accounts, key_map(before.accounts).union_prefer_right(key_map(response.account@)), g.accounts.to_set(), id);
        assert(after.accounts[j].key_of() != id);
    }
    assert forall|i: int, j: int|
        0 <= i < response.deletion@.len() && response.deletion@[i].object@ == "tag"@ && 0 <= j
            < after.tags.len() implies #[trigger] after.tags[j].id@ != #[trigger] response.deletion@[i].id@ by {
        lemma_named_id_listed(records, i, "tag"@);
        let id = response.deletion@[i].id@;
        assert(g.tags.to_set().contains(id));
        lemma_no_record_with_removed_key(after.tags, key_map(before.tags).union_prefer_right(key_map(response.tag@)), g.tags.to_set(), id);
        assert(after.tags[j].key_of() != id);
    }
    assert forall|i: int, j: int|
        0 <= i < response.deletion@.len() && response.deletion@[i].object@ == "merchant"@ && 0 <= j
            < after.merchants.len() implies #[trigger] after.merchants[j].id@ != #[trigger] response.deletion@[i].id@ by {
        lemma_named_id_listed(records, i, "merchant"@);
        let id = response.deletion@[i].id@;
        assert(g.merchants.to_set().contains(id));
        lemma_no_record_with_removed_key(after.merchants, key_map(before.merchants).union_prefer_right(key_map(response.merchant@)), g.merchants.to_set(), id);
        assert(after.merchants[j].key_of() != id);
    }
    assert forall|i: int, j: int|
        0 <= i < response.deletion@.len() && response.deletion@[i].object@ == "reminder"@ && 0 <= j
            < after.reminders.len() implies #[trigger] after.reminders[j].id@ != #[trigger] response.deletion@[i].id@ by {
        lemma_named_id_listed(records, i, "reminder"@);
        let id = response.deletion@[i].id@;
        assert(g.reminders.to_set().contains(id));
        lemma_no_record_with_removed_key(after.reminders, key_map(before.reminders).union_prefer_right(key_map(response.reminder@)), g.reminders.to_set(), id);
        assert(after.reminders[j].key_of() != id);
    }
    assert forall|i: int, j: int|
        0 <= i < response.deletion@.len() && response.deletion@[i].object@ == "reminderMarker"@ && 0 <= j
            < after.reminder_markers.len() implies #[trigger] after.reminder_markers[j].id@
            != #[trigger] response.deletion@[i].id@ by {
        lemma_named_id_listed(records, i, "reminderMarker"@);
        let id = response.deletion@[i].id@;
        assert(g.reminder_markers.to_set().contains(id));
        lemma_no_record_with_removed_key(after.reminder_markers, key_map(before.reminder_markers).union_prefer_right(key_map(response.reminder_marker@)), g.reminder_markers.to_set(), id);
        assert(after.reminder_markers[j].key_of() != id);
    }
}

/// With a tag criterion set, a transaction passes it exactly when its tag
/// list holds that tag, at any position.
pub proof fn law_tag_criterion_is_membership(f: TransactionFilter, tx: Transaction)
    requires
        f.tag is Some,
    ensures
        f.tag_ok(tx) <==> (tx.tag matches Some(tags) && tags@.map_values(|s: String| s@).contains(f.tag->0@)),
{
    if let Some(tags) = tx.tag {
        let texts = tags@.map_values(|s: String| s@);
        if f.tag_ok(tx) {
            let i = choose|i: int| 0 <= i < tags@.len() && #[trigger] tags@[i]@ == f.tag->0@;
            assert(texts[i] == f.tag->0@);
        }
        if texts.contains(f.tag->0@) {
            let i = choose|i: int| 0 <= i < texts.len() && texts[i] == f.tag->0@;
            assert(tags@[i]@ == f.tag->0@);
        }
    }
}

/// With an account criterion set, a transaction passes it exactly when the
/// account is its income account or its outcome account.
pub proof fn law_account_criterion_either_side(f: TransactionFilter, tx: Transaction)
    requires
        f.account is Some,
    ensures
        f.account_ok(tx) <==> ((tx.income_account matches Some(a) && a@ == f.account->0@) || (
        tx.outcome_account matches Some(a) && a@ == f.account->0@)),
{
}

/// A query by account lists every transaction that is not deleted and has
/// the account as its income or its outcome account.
pub proof fn law_account_query_lists_both_sides(all: Seq<Transaction>, id: String, i: int)
    requires
        0 <= i < all.len(),
        !all[i].deleted,
        (all[i].income_account matches Some(a) && a@ == id@) || (all[i].outcome_account matches Some(a)
            && a@ == id@),
    ensures
        all.filter(listed_by(TransactionFilter { account: Some(id), ..TransactionFilter::none_set() })).contains(
            all[i],
        ),
{
    let f = TransactionFilter { account: Some(id), ..TransactionFilter::none_set() };
    law_account_criterion_either_side(f, all[i]);
    all.lemma_filter_contains(listed_by(f), i);
}

/// What `first_where` finds: the first element that satisfies `p`, or
/// nothing where none does.
proof fn lemma_first_where<T>(s: Seq<T>, p: spec_fn(T) -> bool)
    ensures
        match first_where(s, p) {
            Some(x) => exists|k: int|
                0 <= k < s.len() && s[k] == x && p(x) && forall|j: int| 0 <= j < k ==> !p(#[trigger] s[j]),
            None => forall|j: int| 0 <= j < s.len() ==> !p(#[trigger] s[j]),
        },
    decreases s.len(),
{
    if s.len() > 0 && !p(s[0]) {
        let t = s.skip(1);
        lemma_first_where(t, p);
        match first_where(t, p) {
            Some(x) => {
                let k = choose|k: int|
                    0 <= k < t.len() && t[k] == x && p(x) && forall|j: int| 0 <= j < k ==> !p(#[trigger] t[j]);
                assert forall|j: int| 0 <= j < k + 1 implies !p(#[trigger] s[j]) by {
                    if j > 0 {
                        assert(s[j] == t[j - 1]);
                    }
                }
                assert(s[k + 1] == x);
            },
            None => {
                assert forall|j: int| 0 <= j < s.len() implies !p(#[trigger] s[j]) by {
                    if j > 0 {
                        assert(s[j] == t[j - 1]);
                    }
                }
            },
        }
    } else if s.len() > 0 {
        assert(s[0] == s[0]);
    }
}

/// Finding an account by title gives the first account whose title equals
/// the query once both are lowercased, and nothing where no title does.
pub proof fn law_account_found_by_title(all: Seq<Account>, title: Seq<char>)
    ensures
        match first_where(all, account_titled(title)) {
            Some(a) => {
                &&& lowercase(a.title@) == lowercase(title)
                &&& exists|k: int|
                    0 <= k < all.len() && all[k] == a && forall|j: int|
                        0 <= j < k ==> lowercase((#[trigger] all[j]).title@) != lowercase(title)
            },
            None => forall|j: int| 0 <= j < all.len() ==> lowercase((#[trigger] all[j]).title@) != lowercase(title),
        },
{
    let p = account_titled(title);
    lemma_first_where(all, p);
    match first_where(all, p) {
        Some(a) => {
            let k = choose|k: int|
                0 <= k < all.len() && all[k] == a && p(a) && forall|j: int| 0 <= j < k ==> !p(#[trigger] all[j]);
            assert forall|j: int| 0 <= j < k implies lowercase((#[trigger] all[j]).title@) != lowercase(title) by {
                assert(!p(all[j]));
            }
        },
        None => {
            assert forall|j: int| 0 <= j < all.len() implies lowercase((#[trigger] all[j]).title@) != lowercase(title) by {
                assert(!p(all[j]));
            }
        },
    }
}

/// Finding a tag by title gives the first tag whose title equals the query
/// once both are lowercased, and nothing where no title does.
pub proof fn law_tag_found_by_title(all: Seq<Tag>, title: Seq<char>)
    ensures
        match first_where(all, tag_titled(title)) {
            Some(t) => {
                &&& lowercase(t.title@) == lowercase(title)
                &&& exists|k: int|
                    0 <= k < all.len() && all[k] == t && forall|j: int|
                        0 <= j < k ==> lowercase((#[trigger] all[j]).title@) != lowercase(title)
            },
            None => forall|j: int| 0 <= j < all.len() ==> lowercase((#[trigger] all[j]).title@) != lowercase(title),
        },
{
    let p = tag_titled(title);
    lemma_first_where(all, p);
    match first_where(all, p) {
        Some(t) => {
            let k = choose|k: int|
                0 <= k < all.len() && all[k] == t && p(t) && forall|j: int| 0 <= j < k ==> !p(#[trigger] all[j]);
            assert forall|j: int| 0 <= j < k implies lowercase((#[trigger] all[j]).title@) != lowercase(title) by {
                assert(!p(all[j]));
            }
        },
        None => {
            assert forall|j: int| 0 <= j < all.len() implies lowercase((#[trigger] all[j]).title@) != lowercase(title) by {
                assert(!p(all[j]));
            }
        },
    }
}

/// The filter built from the `transactions` arguments keeps their date range
/// when both ends are given (from `from` to `to`) and none otherwise, keeps
/// the amount bounds as given, and sets no merchant.
pub proof fn law_filter_from_arguments(args: TransactionArgs, f: TransactionFilter)
    requires
        f == (TransactionFilter { account: f.account, tag: f.tag, payee: f.payee, ..plain_criteria(args) }),
    ensures
        args.from is Some && args.to is Some ==> f.date_from == args.from && f.date_to == args.to,
        (args.from is None || args.to is None) ==> f.date_from is None && f.date_to is None,
        f.min_amount == args.min_amount,
        f.max_amount == args.max_amount,
        f.merchant is None,
{
}

/// With a payee criterion set, a transaction passes it exactly when it has a
/// payee whose lowercased text holds the lowercased criterion as a run of
/// consecutive characters.
pub proof fn law_payee_criterion_is_substring(f: TransactionFilter, tx: Transaction)
    requires
        f.payee is Some,
    ensures
        f.payee_ok(tx) <==> (tx.payee matches Some(p) && exists|i: int|
            0 <= i && i + lowercase(f.payee->0@).len() <= lowercase(p@).len() && #[trigger] lowercase(p@).subrange(
                i,
                i + lowercase(f.payee->0@).len(),
            ) == lowercase(f.payee->0@)),
{
}

/// With a merchant criterion set, a transaction passes it exactly when its
/// merchant is that one.
pub proof fn law_merchant_criterion_is_equality(f: TransactionFilter, tx: Transaction)
    requires
        f.merchant is Some,
    ensures
        f.merchant_ok(tx) <==> (tx.merchant matches Some(m) && m@ == f.merchant->0@),
{
}

} // verus!
