use zenmoney::deletions::{classify, entity_type_name, EntityKind, GroupedDeletions};
use zenmoney::deletions::parse_numeric_id;
use zenmoney::error::{StorageFailure, ZenMoneyError};
use zenmoney::models::{Deletion, DiffResponse};
use zenmoney::numeric::IntProblem;

fn deletion(id: &str, object: &str) -> Deletion {
    Deletion { id: id.to_owned(), object: object.to_owned(), stamp: 100, user: 1_i64 }
}

fn response_with(deletion: Vec<Deletion>) -> DiffResponse {
    DiffResponse {
        server_timestamp: 100,
        instrument: Vec::new(),
        country: Vec::new(),
        company: Vec::new(),
        user: Vec::new(),
        account: Vec::new(),
        tag: Vec::new(),
        merchant: Vec::new(),
        transaction: Vec::new(),
        reminder: Vec::new(),
        reminder_marker: Vec::new(),
        budget: Vec::new(),
        deletion,
    }
}

#[test]
fn grouped_deletions_parses_entity_types() {
    let response = response_with(vec![
        deletion("acc-1", "account"),
        deletion("42", "instrument"),
        deletion("unknown-id", "unknownType"),
    ]);

    let groups = GroupedDeletions::from_response(&response).unwrap();
    assert_eq!(groups.accounts.len(), 1);
    assert_eq!(groups.instruments.len(), 1);
    assert_eq!(groups.instruments[0], 42_i32);
}

#[test]
fn grouped_deletions_invalid_numeric_id_errors() {
    let response = response_with(vec![deletion("not-a-number", "instrument")]);

    assert!(GroupedDeletions::from_response(&response).is_err());
}

#[test]
fn grouped_deletions_all_entity_types() {
    let response = response_with(vec![
        deletion("acc-1", "account"),
        deletion("tx-1", "transaction"),
        deletion("tag-1", "tag"),
        deletion("m-1", "merchant"),
        deletion("42", "instrument"),
        deletion("7", "company"),
        deletion("1", "country"),
        deletion("99", "user"),
        deletion("r-1", "reminder"),
        deletion("rm-1", "reminderMarker"),
    ]);

    let groups = GroupedDeletions::from_response(&response).unwrap();
    assert_eq!(groups.accounts.len(), 1);
    assert_eq!(groups.transactions.len(), 1);
    assert_eq!(groups.tags.len(), 1);
    assert_eq!(groups.merchants.len(), 1);
    assert_eq!(groups.instruments.len(), 1);
    assert_eq!(groups.companies.len(), 1);
    assert_eq!(groups.countries.len(), 1);
    assert_eq!(groups.users.len(), 1);
    assert_eq!(groups.reminders.len(), 1);
    assert_eq!(groups.reminder_markers.len(), 1);
}

// ── Further grouping properties ──────────────────────────────────────

#[test]
fn grouped_deletions_keep_order_and_values() {
    let response = response_with(vec![
        deletion("b", "tag"),
        deletion("-3", "company"),
        deletion("a", "tag"),
        deletion("+8", "company"),
        deletion("9000000000", "user"),
    ]);
    let groups = GroupedDeletions::from_response(&response).unwrap();
    assert_eq!(groups.tags, vec!["b".to_owned(), "a".to_owned()]);
    assert_eq!(groups.companies, vec![-3, 8]);
    assert_eq!(groups.users, vec![9_000_000_000_i64]);
}

#[test]
fn grouped_deletions_first_error_is_reported() {
    let response = response_with(vec![
        deletion("1", "country"),
        deletion("x1", "country"),
        deletion("x2", "user"),
    ]);
    let err = GroupedDeletions::from_response(&response).unwrap_err();
    assert_eq!(err, ZenMoneyError::Storage(StorageFailure::InvalidNumericId(IntProblem::InvalidDigit)));
}

#[test]
fn grouped_deletions_out_of_range_instrument_errors() {
    let response = response_with(vec![deletion("3000000000", "instrument")]);
    assert_eq!(
        GroupedDeletions::from_response(&response).unwrap_err(),
        ZenMoneyError::Storage(StorageFailure::InvalidNumericId(IntProblem::PosOverflow))
    );
    let response = response_with(vec![deletion("3000000000", "user")]);
    assert_eq!(GroupedDeletions::from_response(&response).unwrap().users, vec![3_000_000_000_i64]);
}

#[test]
fn push_deletion_error_leaves_groups_unchanged() {
    let mut groups = GroupedDeletions::new();
    groups.push_deletion("account", "a-1").unwrap();
    let before = groups.clone();
    assert!(groups.push_deletion("user", "12a").is_err());
    assert_eq!(groups, before);
    groups.push_deletion("Account", "a-2").unwrap();
    assert_eq!(groups, before);
}

#[test]
fn parse_numeric_id_decimal_forms() {
    assert_eq!(parse_numeric_id::<i32>("42").unwrap(), 42);
    assert_eq!(parse_numeric_id::<i32>("-7").unwrap(), -7);
    assert_eq!(parse_numeric_id::<i32>("+7").unwrap(), 7);
    assert_eq!(parse_numeric_id::<i32>("007").unwrap(), 7);
    assert_eq!(parse_numeric_id::<i32>("2147483647").unwrap(), i32::MAX);
    let kind = |e: ZenMoneyError| match e {
        ZenMoneyError::Storage(StorageFailure::InvalidNumericId(k)) => Some(k),
        ZenMoneyError::Storage(_) => None,
    };
    assert_eq!(kind(parse_numeric_id::<i32>("2147483648").unwrap_err()), Some(IntProblem::PosOverflow));
    assert_eq!(kind(parse_numeric_id::<i32>("-2147483649").unwrap_err()), Some(IntProblem::NegOverflow));
    assert_eq!(kind(parse_numeric_id::<i32>("").unwrap_err()), Some(IntProblem::Empty));
    assert_eq!(kind(parse_numeric_id::<i32>("-").unwrap_err()), Some(IntProblem::InvalidDigit));
    assert_eq!(kind(parse_numeric_id::<i32>(" 1").unwrap_err()), Some(IntProblem::InvalidDigit));
    assert!(parse_numeric_id::<i64>("9223372036854775807").is_ok());
    assert_eq!(
        parse_numeric_id::<i64>("1.5").unwrap_err(),
        ZenMoneyError::Storage(StorageFailure::InvalidNumericId(IntProblem::InvalidDigit))
    );
}

#[test]
fn entity_type_names_round_trip() {
    let kinds = [
        EntityKind::Account,
        EntityKind::Transaction,
        EntityKind::Tag,
        EntityKind::Merchant,
        EntityKind::Instrument,
        EntityKind::Company,
        EntityKind::Country,
        EntityKind::User,
        EntityKind::Reminder,
        EntityKind::ReminderMarker,
    ];
    for kind in kinds {
        assert_eq!(classify(entity_type_name(kind)), Some(kind));
    }
    assert_eq!(entity_type_name(EntityKind::ReminderMarker), "reminderMarker");
    assert_eq!(classify("budget"), None);
}
