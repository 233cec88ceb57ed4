use zenmoney::date::Date;
use zenmoney::models::{
    Account, AccountType, Budget, Company, Country, Instrument, Interval, Merchant, Reminder,
    ReminderMarker, ReminderMarkerState, Tag, Transaction, User,
};
use zenmoney::error::{StorageFailure, ZenMoneyError};
use zenmoney::storage::{lock_failure, InMemoryStorage};

const TEST_TIMESTAMP_SECS: i64 = 1_700_000_000;

fn ts() -> i64 {
    TEST_TIMESTAMP_SECS
}

fn day(y: i32, m: u32, d: u32) -> Date {
    Date::from_ymd_opt(y, m, d).unwrap()
}

fn test_account(id: &str) -> Account {
    Account {
        id: id.to_owned(),
        changed: ts(),
        user: 1_i64,
        role: None,
        instrument: Some(1_i32),
        company: None,
        kind: AccountType::Checking,
        title: format!("Account {id}"),
        sync_id: None,
        balance: Some(0.0_f64.to_bits()),
        start_balance: None,
        credit_limit: None,
        in_balance: true,
        savings: None,
        enable_correction: false,
        enable_sms: false,
        archive: false,
        capitalization: None,
        percent: None,
        start_date: None,
        end_date_offset: None,
        end_date_offset_interval: None,
        payoff_step: None,
        payoff_interval: None,
        balance_correction_type: None,
        private: None,
    }
}

fn test_transaction(id: &str) -> Transaction {
    Transaction {
        id: id.to_owned(),
        changed: ts(),
        created: ts(),
        user: 1_i64,
        deleted: false,
        hold: None,
        income_instrument: Some(1_i32),
        income_account: Some("a-1".to_owned()),
        income: 0.0_f64.to_bits(),
        outcome_instrument: Some(1_i32),
        outcome_account: Some("a-1".to_owned()),
        outcome: 100.0_f64.to_bits(),
        tag: None,
        merchant: None,
        payee: None,
        original_payee: None,
        comment: None,
        date: day(2024, 1, 1),
        mcc: None,
        reminder_marker: None,
        op_income: None,
        op_income_instrument: None,
        op_outcome: None,
        op_outcome_instrument: None,
        latitude: None,
        longitude: None,
        income_bank_id: None,
        outcome_bank_id: None,
        qr_code: None,
        source: None,
        viewed: None,
    }
}

fn test_tag(id: &str) -> Tag {
    Tag {
        id: id.to_owned(),
        changed: ts(),
        user: 1_i64,
        title: format!("Tag {id}"),
        parent: None,
        icon: None,
        picture: None,
        color: None,
        show_income: true,
        show_outcome: true,
        budget_income: false,
        budget_outcome: false,
        required: None,
        static_id: None,
        archive: None,
    }
}

fn test_merchant(id: &str) -> Merchant {
    Merchant { id: id.to_owned(), changed: ts(), user: 1_i64, title: format!("Merchant {id}") }
}

fn test_instrument(id: i32) -> Instrument {
    Instrument {
        id,
        title: "Currency".to_owned(),
        short_title: "CUR".to_owned(),
        symbol: "C".to_owned(),
        rate: 1.0_f64.to_bits(),
        changed: ts(),
    }
}

fn test_company(id: i32) -> Company {
    Company {
        id,
        changed: ts(),
        title: "Bank".to_owned(),
        full_title: None,
        www: None,
        country: None,
        country_code: None,
        deleted: None,
    }
}

fn test_country(id: i32) -> Country {
    Country { id, title: "Country".to_owned(), currency: 1_i32, domain: None }
}

fn test_user(id: i64) -> User {
    User {
        id,
        changed: ts(),
        login: Some("test@test.com".to_owned()),
        currency: 1_i32,
        parent: None,
        country: None,
        country_code: None,
        email: None,
        is_forecast_enabled: None,
        month_start_day: None,
        paid_till: None,
        plan_balance_mode: None,
        plan_settings: None,
        subscription: None,
        subscription_renewal_date: None,
    }
}

fn test_reminder(id: &str) -> Reminder {
    Reminder {
        id: id.to_owned(),
        changed: ts(),
        user: 1_i64,
        income_instrument: Some(1_i32),
        income_account: Some("a-1".to_owned()),
        income: 0.0_f64.to_bits(),
        outcome_instrument: Some(1_i32),
        outcome_account: Some("a-1".to_owned()),
        outcome: 100.0_f64.to_bits(),
        tag: None,
        merchant: None,
        payee: None,
        comment: None,
        interval: Some(Interval::Month),
        step: Some(1_i32),
        points: Some(vec![1_i32]),
        start_date: day(2024, 1, 1),
        end_date: None,
        notify: false,
    }
}

fn test_reminder_marker(id: &str) -> ReminderMarker {
    ReminderMarker {
        id: id.to_owned(),
        changed: ts(),
        user: 1_i64,
        income_instrument: Some(1_i32),
        income_account: Some("a-1".to_owned()),
        income: 0.0_f64.to_bits(),
        outcome_instrument: Some(1_i32),
        outcome_account: Some("a-1".to_owned()),
        outcome: 100.0_f64.to_bits(),
        tag: None,
        merchant: None,
        payee: None,
        comment: None,
        date: day(2024, 1, 1),
        reminder: "r-1".to_owned(),
        state: ReminderMarkerState::Planned,
        notify: false,
        is_forecast: None,
    }
}

fn test_budget() -> Budget {
    Budget {
        changed: ts(),
        user: 1_i64,
        tag: None,
        date: day(2024, 1, 1),
        income: 1000.0_f64.to_bits(),
        income_lock: false,
        outcome: 500.0_f64.to_bits(),
        outcome_lock: false,
        is_income_forecast: None,
        is_outcome_forecast: None,
    }
}

#[test]
fn memory_server_timestamp_lifecycle() {
    let mut s = InMemoryStorage::new();
    assert!(s.server_timestamp().is_none());
    s.set_server_timestamp(ts());
    assert_eq!(s.server_timestamp(), Some(ts()));
}

#[test]
fn memory_upsert_and_read_accounts() {
    let mut s = InMemoryStorage::new();
    s.upsert_accounts(vec![test_account("a-1"), test_account("a-2")]);
    assert_eq!(s.accounts().len(), 2);
    // Upsert replaces existing by key.
    s.upsert_accounts(vec![test_account("a-1")]);
    assert_eq!(s.accounts().len(), 2);
}

#[test]
fn memory_remove_accounts() {
    let mut s = InMemoryStorage::new();
    s.upsert_accounts(vec![test_account("a-1")]);
    s.remove_accounts(&["a-1".to_owned()]);
    assert!(s.accounts().is_empty());
}

#[test]
fn memory_upsert_and_remove_transactions() {
    let mut s = InMemoryStorage::new();
    s.upsert_transactions(vec![test_transaction("t-1")]);
    assert_eq!(s.transactions().len(), 1);
    s.remove_transactions(&["t-1".to_owned()]);
    assert!(s.transactions().is_empty());
}

#[test]
fn memory_upsert_and_remove_tags() {
    let mut s = InMemoryStorage::new();
    s.upsert_tags(vec![test_tag("t-1")]);
    assert_eq!(s.tags().len(), 1);
    s.remove_tags(&["t-1".to_owned()]);
    assert!(s.tags().is_empty());
}

#[test]
fn memory_upsert_and_remove_merchants() {
    let mut s = InMemoryStorage::new();
    s.upsert_merchants(vec![test_merchant("m-1")]);
    assert_eq!(s.merchants().len(), 1);
    s.remove_merchants(&["m-1".to_owned()]);
    assert!(s.merchants().is_empty());
}

#[test]
fn memory_upsert_and_remove_instruments() {
    let mut s = InMemoryStorage::new();
    s.upsert_instruments(vec![test_instrument(1)]);
    assert_eq!(s.instruments().len(), 1);
    s.remove_instruments(&[1]);
    assert!(s.instruments().is_empty());
}

#[test]
fn memory_upsert_and_remove_companies() {
    let mut s = InMemoryStorage::new();
    s.upsert_companies(vec![test_company(1)]);
    assert_eq!(s.companies().len(), 1);
    s.remove_companies(&[1]);
    assert!(s.companies().is_empty());
}

#[test]
fn memory_upsert_and_remove_countries() {
    let mut s = InMemoryStorage::new();
    s.upsert_countries(vec![test_country(1)]);
    assert_eq!(s.countries().len(), 1);
    s.remove_countries(&[1]);
    assert!(s.countries().is_empty());
}

#[test]
fn memory_upsert_and_remove_users() {
    let mut s = InMemoryStorage::new();
    s.upsert_users(vec![test_user(1)]);
    assert_eq!(s.users().len(), 1);
    s.remove_users(&[1]);
    assert!(s.users().is_empty());
}

#[test]
fn memory_upsert_and_remove_reminders() {
    let mut s = InMemoryStorage::new();
    s.upsert_reminders(vec![test_reminder("r-1")]);
    assert_eq!(s.reminders().len(), 1);
    s.remove_reminders(&["r-1".to_owned()]);
    assert!(s.reminders().is_empty());
}

#[test]
fn memory_upsert_and_remove_reminder_markers() {
    let mut s = InMemoryStorage::new();
    s.upsert_reminder_markers(vec![test_reminder_marker("rm-1")]);
    assert_eq!(s.reminder_markers().len(), 1);
    s.remove_reminder_markers(&["rm-1".to_owned()]);
    assert!(s.reminder_markers().is_empty());
}

#[test]
fn memory_upsert_budgets_and_remove_is_noop() {
    let mut s = InMemoryStorage::new();
    s.upsert_budgets(vec![test_budget()]);
    assert_eq!(s.budgets().len(), 1);
    // remove_budgets is a no-op.
    s.remove_budgets(&["key".to_owned()]);
    assert_eq!(s.budgets().len(), 1);
}

#[test]
fn memory_clear_resets_everything() {
    let mut s = InMemoryStorage::new();
    s.set_server_timestamp(ts());
    s.upsert_accounts(vec![test_account("a-1")]);
    s.upsert_transactions(vec![test_transaction("t-1")]);
    s.upsert_companies(vec![test_company(1)]);
    s.clear();
    assert!(s.server_timestamp().is_none());
    assert!(s.accounts().is_empty());
    assert!(s.transactions().is_empty());
    assert!(s.companies().is_empty());
}

// ── Further properties of the store ──────────────────────────────────

#[test]
fn upsert_replaces_record_under_same_key() {
    let mut s = InMemoryStorage::new();
    s.upsert_accounts(vec![test_account("a-1"), test_account("a-2")]);
    let mut renamed = test_account("a-1");
    renamed.title = "Renamed".to_owned();
    s.upsert_accounts(vec![renamed.clone()]);
    assert_eq!(s.accounts().len(), 2);
    let stored = s.accounts().iter().find(|a| a.id == "a-1").unwrap();
    assert_eq!(stored.title, "Renamed");
    let other = s.accounts().iter().find(|a| a.id == "a-2").unwrap();
    assert_eq!(other.title, "Account a-2");
}

#[test]
fn upsert_last_duplicate_in_batch_wins() {
    let mut s = InMemoryStorage::new();
    let mut first = test_tag("t-1");
    first.title = "First".to_owned();
    let mut second = test_tag("t-1");
    second.title = "Second".to_owned();
    s.upsert_tags(vec![first, second]);
    assert_eq!(s.tags().len(), 1);
    assert_eq!(s.tags()[0].title, "Second");
}

#[test]
fn upsert_twice_is_idempotent() {
    let mut s = InMemoryStorage::new();
    s.upsert_merchants(vec![test_merchant("m-1"), test_merchant("m-2")]);
    let once = s.merchants().clone();
    s.upsert_merchants(vec![test_merchant("m-1"), test_merchant("m-2")]);
    assert_eq!(s.merchants().len(), once.len());
    for m in &once {
        assert!(s.merchants().contains(m));
    }
}

#[test]
fn remove_keeps_other_records_in_order() {
    let mut s = InMemoryStorage::new();
    s.upsert_users(vec![test_user(1), test_user(2), test_user(3)]);
    let before: Vec<i64> = s.users().iter().map(|u| u.id).collect();
    s.remove_users(&[2, 42]);
    let after: Vec<i64> = s.users().iter().map(|u| u.id).collect();
    let expected: Vec<i64> = before.into_iter().filter(|id| *id != 2).collect();
    assert_eq!(after, expected);
}

#[test]
fn budgets_are_keyed_by_user_tag_and_month() {
    let mut s = InMemoryStorage::new();
    let mut other_month = test_budget();
    other_month.date = day(2024, 2, 1);
    let mut tagged = test_budget();
    tagged.tag = Some("t-1".to_owned());
    s.upsert_budgets(vec![test_budget(), other_month, tagged]);
    assert_eq!(s.budgets().len(), 3);
    let mut changed = test_budget();
    changed.outcome = 900.0_f64.to_bits();
    s.upsert_budgets(vec![changed]);
    assert_eq!(s.budgets().len(), 3);
    assert!(s
        .budgets()
        .iter()
        .any(|b| b.tag.is_none() && b.date == day(2024, 1, 1) && b.outcome == 900.0_f64.to_bits()));
}

#[test]
fn budget_key_is_user_tag_and_date() {
    let mut b = test_budget();
    b.tag = Some("t-9".to_owned());
    let key = zenmoney::keyed::budget_key(&b);
    assert_eq!(key, (1_i64, Some("t-9".to_owned()), day(2024, 1, 1)));
}

#[test]
fn lock_error_is_a_storage_error() {
    let err = std::sync::PoisonError::new(5_u8);
    let e = zenmoney::storage::lock_error(&err);
    assert!(matches!(e, ZenMoneyError::Storage(StorageFailure::Lock(ref m)) if !m.is_empty()));
}

#[test]
fn upsert_in_two_batches_equals_one_batch() {
    let mut renamed = test_merchant("m-1");
    renamed.title = "Renamed".to_owned();

    let mut in_turn = InMemoryStorage::new();
    in_turn.upsert_merchants(vec![test_merchant("m-0")]);
    in_turn.upsert_merchants(vec![test_merchant("m-1"), test_merchant("m-2")]);
    in_turn.upsert_merchants(vec![renamed.clone(), test_merchant("m-3")]);

    let mut at_once = InMemoryStorage::new();
    at_once.upsert_merchants(vec![test_merchant("m-0")]);
    at_once.upsert_merchants(vec![
        test_merchant("m-1"),
        test_merchant("m-2"),
        renamed.clone(),
        test_merchant("m-3"),
    ]);

    assert_eq!(in_turn.merchants().len(), 4);
    assert_eq!(at_once.merchants().len(), 4);
    for m in in_turn.merchants() {
        assert!(at_once.merchants().contains(m));
    }
    let stored = in_turn.merchants().iter().find(|m| m.id == "m-1").unwrap();
    assert_eq!(stored.title, "Renamed");
}

#[test]
fn remove_twice_is_remove_once() {
    let mut s = InMemoryStorage::new();
    s.upsert_tags(vec![test_tag("t-1"), test_tag("t-2"), test_tag("t-3")]);
    s.remove_tags(&["t-2".to_owned()]);
    let once = s.tags().clone();
    s.remove_tags(&["t-2".to_owned()]);
    assert_eq!(s.tags(), &once);
    assert_eq!(once.len(), 2);
}

#[test]
fn upsert_replaces_in_place_and_appends_new_records() {
    let mut s = InMemoryStorage::new();
    s.upsert_merchants(vec![test_merchant("m-1"), test_merchant("m-2")]);
    let mut renamed = test_merchant("m-2");
    renamed.title = "Renamed".to_owned();
    s.upsert_merchants(vec![test_merchant("m-3"), renamed, test_merchant("m-4")]);
    let ids: Vec<&str> = s.merchants().iter().map(|m| m.id.as_str()).collect();
    assert_eq!(ids, vec!["m-1", "m-2", "m-3", "m-4"]);
    assert_eq!(s.merchants()[1].title, "Renamed");
}

#[test]
fn lock_failure_keeps_the_message() {
    assert_eq!(
        lock_failure("poisoned lock".to_owned()),
        ZenMoneyError::Storage(StorageFailure::Lock("poisoned lock".to_owned()))
    );
}

#[test]
fn upsert_same_batch_twice_keeps_the_sequence() {
    let mut renamed = test_merchant("m-1");
    renamed.title = "Renamed".to_owned();
    let batch = vec![test_merchant("m-3"), test_merchant("m-1"), renamed, test_merchant("m-4")];
    let mut s = InMemoryStorage::new();
    s.upsert_merchants(vec![test_merchant("m-1"), test_merchant("m-2")]);
    s.upsert_merchants(batch.clone());
    let once = s.merchants().clone();
    s.upsert_merchants(batch);
    assert_eq!(s.merchants(), &once);
}
