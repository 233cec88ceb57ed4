use zenmoney::cli::{
    build_transaction_filter, resolve_name, suggest_query, token_from, NameProblem, TransactionArgs,
};
use zenmoney::date::{parse_date, Date};
use zenmoney::error::{StorageFailure, ZenMoneyError};
use zenmoney::binary64::le;
use zenmoney::models::{Account, AccountType, Tag};
use zenmoney::text::{contains_ignoring_case, contains_text, same_text, same_text_ignoring_case};

fn day(y: i32, m: u32, d: u32) -> Date {
    Date::from_ymd_opt(y, m, d).unwrap()
}

fn test_account(id: &str, title: &str, archive: bool) -> Account {
    Account {
        id: id.to_owned(),
        changed: 1_700_000_000,
        user: 1_i64,
        role: None,
        instrument: Some(1_i32),
        company: None,
        kind: AccountType::Checking,
        title: title.to_owned(),
        sync_id: None,
        balance: Some(1000.0_f64.to_bits()),
        start_balance: None,
        credit_limit: None,
        in_balance: true,
        savings: None,
        enable_correction: false,
        enable_sms: false,
        archive,
        capitalization: None,
        percent: None,
        start_date: None,
        end_date_offset: None,
        end_date_offset_interval: None,
        payoff_step: None,
        payoff_interval: None,
        balance_correction_type: None,
        private: None,
    }
}

fn test_tag(id: &str, title: &str) -> Tag {
    Tag {
        id: id.to_owned(),
        changed: 1_700_000_000,
        user: 1_i64,
        title: title.to_owned(),
        parent: None,
        icon: None,
        picture: None,
        color: None,
        show_income: true,
        show_outcome: true,
        budget_income: false,
        budget_outcome: false,
        required: None,
        static_id: None,
        archive: None,
    }
}

fn no_args() -> TransactionArgs {
    TransactionArgs {
        from: None,
        to: None,
        account: None,
        tag: None,
        payee: None,
        min_amount: None,
        max_amount: None,
    }
}

// ── parse_date tests ──────────────────────────────────────────────

#[test]
fn parse_date_valid() {
    let date = parse_date("2024-01-15").unwrap();
    assert_eq!(date, Date::from_ymd_opt(2024, 1, 15).unwrap());
}

#[test]
fn parse_date_invalid() {
    assert!(parse_date("not-a-date").is_err());
    assert!(parse_date("01-15-2024").is_err());
}

// ── resolve_name tests ────────────────────────────────────────────

#[test]
fn resolve_name_found() {
    let result = resolve_name("account", "Test", Ok(Some(42_i32)));
    assert_eq!(result.ok(), Some(42_i32));
}

#[test]
fn resolve_name_not_found() {
    let result = resolve_name::<i32>("account", "Missing", Ok(None));
    assert!(result.is_err());
    let err = result.unwrap_err();
    assert_eq!(err.problem, NameProblem::NotFound);
    assert_eq!(err.label, "account");
    assert_eq!(err.name, "Missing");
}

#[test]
fn resolve_name_lookup_error() {
    let failure = ZenMoneyError::Storage(StorageFailure::Lock("lookup failed".to_owned()));
    let result = resolve_name::<i32>("account", "Bad", Err(failure.clone()));
    assert!(result.is_err());
    assert_eq!(result.unwrap_err().problem, NameProblem::LookupFailed(failure));
}

// ── build_transaction_filter tests ────────────────────────────────

#[test]
fn build_filter_no_args() {
    let filter = build_transaction_filter(&no_args(), Ok(Vec::new()), Ok(Vec::new()));
    assert!(filter.is_ok());
}

#[test]
fn build_filter_with_date_range() {
    let args = TransactionArgs { from: Some(day(2024, 1, 1)), to: Some(day(2024, 12, 31)), ..no_args() };
    let filter = build_transaction_filter(&args, Ok(Vec::new()), Ok(Vec::new())).unwrap();
    assert!(filter.date_from.is_some());
    assert!(filter.date_to.is_some());
}

#[test]
fn build_filter_account_not_found_returns_none() {
    let args = TransactionArgs { account: Some("Nonexistent".to_owned()), ..no_args() };
    let filter = build_transaction_filter(&args, Ok(Vec::new()), Ok(Vec::new()));
    assert!(filter.is_err());
}

#[test]
fn build_filter_tag_not_found_returns_none() {
    let args = TransactionArgs { tag: Some("Nonexistent".to_owned()), ..no_args() };
    let filter = build_transaction_filter(&args, Ok(Vec::new()), Ok(Vec::new()));
    assert!(filter.is_err());
}

#[test]
fn build_filter_with_account_found() {
    let accounts = vec![test_account("a-1", "Checking", false)];
    let args = TransactionArgs { account: Some("Checking".to_owned()), ..no_args() };
    let filter = build_transaction_filter(&args, Ok(accounts), Ok(Vec::new())).unwrap();
    assert!(filter.account.is_some());
}

#[test]
fn build_filter_with_tag_found() {
    let tags = vec![test_tag("t-1", "Food")];
    let args = TransactionArgs { tag: Some("Food".to_owned()), ..no_args() };
    let filter = build_transaction_filter(&args, Ok(Vec::new()), Ok(tags)).unwrap();
    assert!(filter.tag.is_some());
}

#[test]
fn build_filter_with_payee() {
    let args = TransactionArgs { payee: Some("Coffee".to_owned()), ..no_args() };
    let filter = build_transaction_filter(&args, Ok(Vec::new()), Ok(Vec::new())).unwrap();
    assert!(filter.payee.is_some());
}

#[test]
fn build_filter_with_amount_range() {
    let args = TransactionArgs {
        min_amount: Some(10.0_f64.to_bits()),
        max_amount: Some(100.0_f64.to_bits()),
        ..no_args()
    };
    let filter = build_transaction_filter(&args, Ok(Vec::new()), Ok(Vec::new())).unwrap();
    assert!(filter.min_amount.is_some());
    assert!(filter.max_amount.is_some());
}

#[test]
fn build_filter_with_min_only() {
    let args = TransactionArgs { min_amount: Some(10.0_f64.to_bits()), ..no_args() };
    let filter = build_transaction_filter(&args, Ok(Vec::new()), Ok(Vec::new())).unwrap();
    assert!(filter.min_amount.is_some());
    assert!(filter.max_amount.is_none());
}

#[test]
fn build_filter_with_max_only() {
    let args = TransactionArgs { max_amount: Some(100.0_f64.to_bits()), ..no_args() };
    let filter = build_transaction_filter(&args, Ok(Vec::new()), Ok(Vec::new())).unwrap();
    assert!(filter.min_amount.is_none());
    assert!(filter.max_amount.is_some());
}

// ── Further front-end decisions ──────────────────────────────────────

#[test]
fn build_filter_resolves_titles_to_ids() {
    let accounts = vec![test_account("a-7", "Savings", false)];
    let tags = vec![test_tag("t-3", "Travel")];
    let args = TransactionArgs {
        account: Some("SAVINGS".to_owned()),
        tag: Some("travel".to_owned()),
        payee: Some("air".to_owned()),
        ..no_args()
    };
    let filter = build_transaction_filter(&args, Ok(accounts), Ok(tags)).unwrap();
    assert_eq!(filter.account, Some("a-7".to_owned()));
    assert_eq!(filter.tag, Some("t-3".to_owned()));
    assert_eq!(filter.payee, Some("air".to_owned()));
}

#[test]
fn build_filter_half_date_range_is_ignored() {
    let args = TransactionArgs { from: Some(day(2024, 1, 1)), ..no_args() };
    let filter = build_transaction_filter(&args, Ok(Vec::new()), Ok(Vec::new())).unwrap();
    assert!(filter.date_from.is_none());
    assert!(filter.date_to.is_none());
}

#[test]
fn build_filter_reports_account_before_tag() {
    let args = TransactionArgs {
        account: Some("Missing".to_owned()),
        tag: Some("AlsoMissing".to_owned()),
        ..no_args()
    };
    let failure = ZenMoneyError::Storage(StorageFailure::Lock("poisoned".to_owned()));
    let err = build_transaction_filter(&args, Err(failure.clone()), Ok(Vec::new())).unwrap_err();
    assert_eq!(err.label, "account");
    assert_eq!(err.name, "Missing");
    assert_eq!(err.problem, NameProblem::LookupFailed(failure));
}

#[test]
fn dates_are_checked_calendar_days() {
    assert!(Date::from_ymd_opt(2024, 2, 29).is_some());
    assert!(Date::from_ymd_opt(2023, 2, 29).is_none());
    assert!(Date::from_ymd_opt(2024, 13, 1).is_none());
    assert!(Date::from_ymd_opt(2024, 4, 31).is_none());
    assert!(Date::from_ymd_opt(400_000, 1, 1).is_none());
    let d = Date::from_ymd_opt(-4, 2, 29).unwrap();
    assert_eq!((d.year(), d.month(), d.day()), (-4, 2, 29));
    assert!(day(2023, 12, 31).is_on_or_before(&day(2024, 1, 1)));
    assert!(!day(2024, 1, 2).is_on_or_before(&day(2024, 1, 1)));
    assert!(day(2024, 1, 1).same_day(&day(2024, 1, 1)));
}

#[test]
fn binary64_order_matches_ieee() {
    let cases = [(-1.0_f64, 2.0_f64), (0.0, -0.0), (-0.0, 0.0), (3.5, 3.5), (f64::NEG_INFINITY, -1e300), (1.0, f64::INFINITY), (f64::NAN, 1.0), (1.0, f64::NAN), (2.0, 1.0), (-2.0, -3.0)];
    for (a, b) in cases {
        assert_eq!(le(a.to_bits(), b.to_bits()), a <= b, "{a} <= {b}");
    }
}

#[test]
fn text_helpers() {
    assert!(contains_text("Coffee Shop", "ee S"));
    assert!(contains_text("abc", ""));
    assert!(!contains_text("ab", "abc"));
    assert!(same_text("äb", "äb"));
    assert!(!same_text("ab", "abc"));
    assert!(contains_ignoring_case("Coffee Shop", "SHOP"));
    assert!(same_text_ignoring_case("GROCERIES", "groceries"));
}

#[test]
fn empty_token_counts_as_unset() {
    assert_eq!(token_from(None), None);
    assert_eq!(token_from(Some(String::new())), None);
    assert_eq!(token_from(Some("abc".to_owned())), Some("abc".to_owned()));
}

#[test]
fn suggest_query_needs_payee_or_comment() {
    assert_eq!(suggest_query(None, None), None);
    assert_eq!(
        suggest_query(Some("Starbucks".to_owned()), None),
        Some((Some("Starbucks".to_owned()), None))
    );
    assert_eq!(
        suggest_query(None, Some("lunch".to_owned())),
        Some((None, Some("lunch".to_owned())))
    );
}
