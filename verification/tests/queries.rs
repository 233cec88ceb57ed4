use zenmoney::date::Date;
use zenmoney::deletions::EntityKind;
use zenmoney::filter::TransactionFilter;
use zenmoney::models::{
    Account, AccountType, Deletion, DiffResponse, Instrument, MerchantId, TagId, Tag, Transaction,
    User,
};
use zenmoney::queries::{
    active_accounts, build_deletions, current_user_id, filter_transactions, find_account_by_title,
    find_tag_by_title, instrument, transactions_by_account, transactions_by_date,
};
use zenmoney::storage::InMemoryStorage;
use zenmoney::sync::{apply_deletions, apply_diff, apply_upserts, sync_start};

fn day(y: i32, m: u32, d: u32) -> Date {
    Date::from_ymd_opt(y, m, d).unwrap()
}

fn amount(x: f64) -> u64 {
    x.to_bits()
}

/// Creates a minimal test account.
fn test_account(id: &str, title: &str, archive: bool) -> Account {
    Account {
        id: id.to_owned(),
        changed: 1_700_000_000,
        user: 1_i64,
        role: None,
        instrument: Some(1_i32),
        company: None,
        kind: AccountType::Checking,
        title: title.to_owned(),
        sync_id: None,
        balance: Some(amount(0.0)),
        start_balance: None,
        credit_limit: None,
        in_balance: true,
        savings: None,
        enable_correction: false,
        enable_sms: false,
        archive,
        capitalization: None,
        percent: None,
        start_date: None,
        end_date_offset: None,
        end_date_offset_interval: None,
        payoff_step: None,
        payoff_interval: None,
        balance_correction_type: None,
        private: None,
    }
}

/// Creates a minimal test tag.
fn test_tag(id: &str, title: &str) -> Tag {
    Tag {
        id: id.to_owned(),
        changed: 1_700_000_000,
        user: 1_i64,
        title: title.to_owned(),
        parent: None,
        icon: None,
        picture: None,
        color: None,
        show_income: true,
        show_outcome: true,
        budget_income: false,
        budget_outcome: false,
        required: None,
        static_id: None,
        archive: None,
    }
}

/// Creates a minimal test transaction.
fn test_transaction(id: &str, account_id: &str, date: Date) -> Transaction {
    Transaction {
        id: id.to_owned(),
        changed: 1_700_000_000,
        created: 1_700_000_000,
        user: 1_i64,
        deleted: false,
        hold: None,
        income_instrument: Some(1_i32),
        income_account: Some(account_id.to_owned()),
        income: amount(0.0),
        outcome_instrument: Some(1_i32),
        outcome_account: Some(account_id.to_owned()),
        outcome: amount(100.0),
        tag: None,
        merchant: None,
        payee: None,
        original_payee: None,
        comment: None,
        date,
        mcc: None,
        reminder_marker: None,
        op_income: None,
        op_income_instrument: None,
        op_outcome: None,
        op_outcome_instrument: None,
        latitude: None,
        longitude: None,
        income_bank_id: None,
        outcome_bank_id: None,
        qr_code: None,
        source: None,
        viewed: None,
    }
}

/// Creates a transaction with additional fields for filter testing.
#[allow(clippy::too_many_arguments)]
fn test_transaction_full(
    id: &str,
    account_id: &str,
    date: Date,
    income: f64,
    outcome: f64,
    tag: Option<Vec<TagId>>,
    payee: Option<&str>,
    merchant: Option<MerchantId>,
) -> Transaction {
    let mut tx = test_transaction(id, account_id, date);
    tx.income = amount(income);
    tx.outcome = amount(outcome);
    tx.tag = tag;
    tx.payee = payee.map(ToOwned::to_owned);
    tx.merchant = merchant;
    tx
}

fn test_user(id: i64) -> User {
    User {
        id,
        changed: 1_700_000_000,
        login: None,
        currency: 1_i32,
        parent: None,
        country: None,
        country_code: None,
        email: None,
        is_forecast_enabled: None,
        month_start_day: None,
        paid_till: None,
        plan_balance_mode: None,
        plan_settings: None,
        subscription: None,
        subscription_renewal_date: None,
    }
}

fn empty_diff_response(server_timestamp: i64) -> DiffResponse {
    DiffResponse {
        server_timestamp,
        instrument: Vec::new(),
        country: Vec::new(),
        company: Vec::new(),
        user: Vec::new(),
        account: Vec::new(),
        tag: Vec::new(),
        merchant: Vec::new(),
        transaction: Vec::new(),
        reminder: Vec::new(),
        reminder_marker: Vec::new(),
        budget: Vec::new(),
        deletion: Vec::new(),
    }
}

#[test]
fn zen_money_apply_diff_upserts_and_deletes() {
    let acc1 = test_account("a-1", "First", false);
    let acc2 = test_account("a-2", "Second", false);

    let mut response = empty_diff_response(200);
    response.account = vec![acc1, acc2];
    response.deletion = vec![Deletion {
        id: "a-1".to_owned(),
        object: "account".to_owned(),
        stamp: 200,
        user: 1_i64,
    }];

    let mut storage = InMemoryStorage::new();
    let result = apply_diff(&mut storage, response);
    result.unwrap();

    let accounts = storage.accounts();
    assert_eq!(accounts.len(), 1);
    assert_eq!(accounts[0].title, "Second");

    let ts = storage.server_timestamp();
    assert_eq!(ts, Some(200));
}

#[test]
fn query_active_accounts() {
    let mut storage = InMemoryStorage::new();
    let acc1 = test_account("a-1", "Active", false);
    let acc2 = test_account("a-2", "Archived", true);
    storage.upsert_accounts(vec![acc1, acc2]);

    let active: Vec<Account> = active_accounts(storage.accounts().clone());
    assert_eq!(active.len(), 1);
    assert_eq!(active[0].title, "Active");
}

#[test]
fn query_find_tag_by_title() {
    let mut storage = InMemoryStorage::new();
    let tag = test_tag("t-1", "Groceries");
    storage.upsert_tags(vec![tag]);

    let all_tags = storage.tags().clone();
    let found = find_tag_by_title(all_tags, "groceries");
    assert!(found.is_some());
    assert_eq!(found.unwrap().id, "t-1".to_owned());
}

#[test]
fn query_transactions_by_date() {
    let mut storage = InMemoryStorage::new();
    let tx1 = test_transaction("tx-1", "a-1", day(2024, 1, 15));
    let tx2 = test_transaction("tx-2", "a-1", day(2024, 2, 15));
    let tx3 = test_transaction("tx-3", "a-1", day(2024, 3, 15));
    storage.upsert_transactions(vec![tx1, tx2, tx3]);

    let from = day(2024, 1, 1);
    let to = day(2024, 2, 28);
    let filtered = transactions_by_date(storage.transactions().clone(), from, to);
    assert_eq!(filtered.len(), 2);
}

#[test]
fn filter_transactions_via_storage() {
    let mut storage = InMemoryStorage::new();
    let tx1 = test_transaction_full("tx-1", "a-1", day(2024, 1, 15), 0.0, 100.0, None, Some("Coffee Shop"), None);
    let tx2 = test_transaction_full(
        "tx-2",
        "a-2",
        day(2024, 2, 15),
        0.0,
        200.0,
        Some(vec!["tag-food".to_owned()]),
        Some("Restaurant"),
        None,
    );
    let tx3 = test_transaction_full("tx-3", "a-1", day(2024, 3, 15), 500.0, 0.0, None, None, None);
    storage.upsert_transactions(vec![tx1, tx2, tx3]);

    // Filter by payee.
    let filter = TransactionFilter::new().payee("coffee");
    let results = filter_transactions(storage.transactions().clone(), &filter);
    assert_eq!(results.len(), 1);
    assert_eq!(results[0].id, "tx-1".to_owned());

    // Filter by tag.
    let filter = TransactionFilter::new().tag("tag-food".to_owned());
    let results = filter_transactions(storage.transactions().clone(), &filter);
    assert_eq!(results.len(), 1);
    assert_eq!(results[0].id, "tx-2".to_owned());

    // Filter by amount.
    let filter = TransactionFilter::new().amount_range(amount(150.0), amount(600.0));
    let results = filter_transactions(storage.transactions().clone(), &filter);
    assert_eq!(results.len(), 2);
}

#[test]
fn zen_money_active_accounts_filters_archived() {
    let mut storage = InMemoryStorage::new();
    storage.upsert_accounts(vec![test_account("a-1", "Active", false), test_account("a-2", "Archived", true)]);
    let active = active_accounts(storage.accounts().clone());
    assert_eq!(active.len(), 1);
    assert_eq!(active[0].title, "Active");
}

#[test]
fn zen_money_find_tag_by_title_case_insensitive() {
    let mut storage = InMemoryStorage::new();
    storage.upsert_tags(vec![test_tag("t-1", "Groceries")]);
    let found = find_tag_by_title(storage.tags().clone(), "GROCERIES");
    assert!(found.is_some());
    assert_eq!(found.unwrap().id, "t-1".to_owned());
    assert!(find_tag_by_title(storage.tags().clone(), "nonexistent").is_none());
}

#[test]
fn zen_money_find_account_by_title_case_insensitive() {
    let mut storage = InMemoryStorage::new();
    storage.upsert_accounts(vec![test_account("a-1", "Checking", false)]);
    let found = find_account_by_title(storage.accounts().clone(), "checking");
    assert!(found.is_some());
    assert!(find_account_by_title(storage.accounts().clone(), "nonexistent").is_none());
}

#[test]
fn zen_money_instrument_lookup() {
    let mut storage = InMemoryStorage::new();
    let instr = Instrument {
        id: 840_i32,
        title: "USD".to_owned(),
        short_title: "USD".to_owned(),
        symbol: "$".to_owned(),
        rate: amount(1.0),
        changed: 1_700_000_000,
    };
    storage.upsert_instruments(vec![instr]);
    let found = instrument(storage.instruments().clone(), 840_i32);
    assert!(found.is_some());
    assert_eq!(found.unwrap().title, "USD");
    assert!(instrument(storage.instruments().clone(), 999_i32).is_none());
}

#[test]
fn zen_money_filter_transactions_excludes_deleted() {
    let mut storage = InMemoryStorage::new();
    let mut tx1 = test_transaction("tx-1", "a-1", day(2024, 1, 1));
    tx1.deleted = true;
    let tx2 = test_transaction("tx-2", "a-1", day(2024, 1, 2));
    storage.upsert_transactions(vec![tx1, tx2]);
    let results = filter_transactions(storage.transactions().clone(), &TransactionFilter::new());
    assert_eq!(results.len(), 1);
    assert_eq!(results[0].id, "tx-2".to_owned());
}

#[test]
fn zen_money_transactions_by_date_delegates() {
    let mut storage = InMemoryStorage::new();
    let tx1 = test_transaction("tx-1", "a-1", day(2024, 1, 15));
    let tx2 = test_transaction("tx-2", "a-1", day(2024, 3, 15));
    storage.upsert_transactions(vec![tx1, tx2]);
    let results = transactions_by_date(storage.transactions().clone(), day(2024, 1, 1), day(2024, 2, 28));
    assert_eq!(results.len(), 1);
}

#[test]
fn zen_money_transactions_by_account_delegates() {
    let mut storage = InMemoryStorage::new();
    let tx1 = test_transaction("tx-1", "a-1", day(2024, 1, 1));
    let tx2 = test_transaction("tx-2", "a-2", day(2024, 1, 1));
    storage.upsert_transactions(vec![tx1, tx2]);
    let results = transactions_by_account(storage.transactions().clone(), &"a-1".to_owned());
    assert_eq!(results.len(), 1);
}

// ── Further query and sync properties ────────────────────────────────

#[test]
fn find_returns_first_match_in_order() {
    let tags = vec![test_tag("t-1", "Food"), test_tag("t-2", "FOOD")];
    assert_eq!(find_tag_by_title(tags, "food").unwrap().id, "t-1");
}

#[test]
fn current_user_is_first_user_or_zero() {
    assert_eq!(current_user_id(&[]), 0);
    assert_eq!(current_user_id(&[test_user(7), test_user(8)]), 7);
}

#[test]
fn build_deletions_stamps_every_id() {
    let ids = vec!["a".to_owned(), "b".to_owned()];
    let records = build_deletions(&ids, EntityKind::ReminderMarker, 55, 3);
    assert_eq!(
        records,
        vec![
            Deletion { id: "a".to_owned(), object: "reminderMarker".to_owned(), stamp: 55, user: 3 },
            Deletion { id: "b".to_owned(), object: "reminderMarker".to_owned(), stamp: 55, user: 3 },
        ]
    );
}

#[test]
fn apply_diff_with_invalid_deletion_keeps_upserts_and_timestamp() {
    let mut storage = InMemoryStorage::new();
    storage.set_server_timestamp(10);
    let mut response = empty_diff_response(20);
    response.account = vec![test_account("a-1", "One", false)];
    response.deletion = vec![Deletion { id: "zz".to_owned(), object: "user".to_owned(), stamp: 20, user: 1 }];
    assert!(apply_diff(&mut storage, response).is_err());
    assert_eq!(storage.accounts().len(), 1);
    assert_eq!(storage.server_timestamp(), Some(10));
}

#[test]
fn apply_upserts_then_deletions_separately() {
    let mut storage = InMemoryStorage::new();
    let mut response = empty_diff_response(30);
    response.tag = vec![test_tag("t-1", "A"), test_tag("t-2", "B")];
    response.deletion = vec![Deletion { id: "t-2".to_owned(), object: "tag".to_owned(), stamp: 30, user: 1 }];
    let deletions_only = DiffResponse { tag: Vec::new(), ..response.clone() };
    apply_upserts(&mut storage, response);
    assert_eq!(storage.tags().len(), 2);
    apply_deletions(&mut storage, &deletions_only).unwrap();
    assert_eq!(storage.tags().len(), 1);
    assert_eq!(storage.tags()[0].id, "t-1");
    assert_eq!(storage.server_timestamp(), None);
}

#[test]
fn apply_diff_deletion_wins_over_upsert_of_same_record() {
    let mut storage = InMemoryStorage::new();
    storage.upsert_tags(vec![test_tag("t-1", "Old"), test_tag("t-2", "Kept")]);
    let mut response = empty_diff_response(77);
    response.tag = vec![test_tag("t-1", "New"), test_tag("t-3", "Added")];
    response.deletion =
        vec![Deletion { id: "t-1".to_owned(), object: "tag".to_owned(), stamp: 77, user: 1 }];
    assert!(apply_diff(&mut storage, response).is_ok());
    let mut titles: Vec<&str> = storage.tags().iter().map(|t| t.title.as_str()).collect();
    titles.sort_unstable();
    assert_eq!(titles, vec!["Added", "Kept"]);
    assert_eq!(storage.server_timestamp(), Some(77));
}

#[test]
fn sync_starts_from_epoch_then_from_last_server_timestamp() {
    let mut storage = InMemoryStorage::new();
    assert_eq!(sync_start(&storage), 0);
    assert!(apply_diff(&mut storage, empty_diff_response(1_700_000_500)).is_ok());
    assert_eq!(sync_start(&storage), 1_700_000_500);
}
