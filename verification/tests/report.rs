use zenmoney::date::Date;
use zenmoney::models::{Account, AccountType, Deletion, DiffResponse, Transaction};
use zenmoney::report::{diff_summary_rows, transaction_row};

fn test_transaction(payee: Option<&str>, comment: Option<&str>, income: f64, outcome: f64) -> Transaction {
    Transaction {
        id: "tx-1".to_owned(),
        changed: 1_700_000_000,
        created: 1_700_000_000,
        user: 1_i64,
        deleted: false,
        hold: None,
        income_instrument: Some(1_i32),
        income_account: Some("a-1".to_owned()),
        income: income.to_bits(),
        outcome_instrument: Some(1_i32),
        outcome_account: Some("a-1".to_owned()),
        outcome: outcome.to_bits(),
        tag: None,
        merchant: None,
        payee: payee.map(ToOwned::to_owned),
        original_payee: None,
        comment: comment.map(ToOwned::to_owned),
        date: Date::from_ymd_opt(2024, 1, 15).unwrap(),
        mcc: None,
        reminder_marker: None,
        op_income: None,
        op_income_instrument: None,
        op_outcome: None,
        op_outcome_instrument: None,
        latitude: None,
        longitude: None,
        income_bank_id: None,
        outcome_bank_id: None,
        qr_code: None,
        source: None,
        viewed: None,
    }
}

#[test]
fn transaction_row_shows_payee_comment_and_positive_amounts() {
    let row = transaction_row(&test_transaction(Some("Coffee"), Some("Morning"), 0.0, 50.0));
    assert_eq!(row.date, Date::from_ymd_opt(2024, 1, 15).unwrap());
    assert_eq!(row.payee, "Coffee");
    assert_eq!(row.comment, "Morning");
    assert_eq!(row.outcome, Some(50.0_f64.to_bits()));
    assert_eq!(row.income, None);
}

#[test]
fn transaction_row_marks_missing_values() {
    let row = transaction_row(&test_transaction(None, None, 12.5, 0.0));
    assert_eq!(row.payee, "\u{2014}");
    assert_eq!(row.comment, "");
    assert_eq!(row.income, Some(12.5_f64.to_bits()));
    assert_eq!(row.outcome, None);
}

#[test]
fn transaction_row_hides_non_positive_amounts() {
    for value in [-0.0_f64, -3.0, f64::NAN, f64::NEG_INFINITY] {
        let row = transaction_row(&test_transaction(None, None, value, value));
        assert_eq!(row.income, None);
        assert_eq!(row.outcome, None);
    }
    let row = transaction_row(&test_transaction(None, None, f64::INFINITY, f64::MIN_POSITIVE));
    assert_eq!(row.income, Some(f64::INFINITY.to_bits()));
    assert_eq!(row.outcome, Some(f64::MIN_POSITIVE.to_bits()));
}

#[test]
fn diff_summary_counts_each_kind_in_order() {
    let response = DiffResponse {
        server_timestamp: 5,
        instrument: Vec::new(),
        country: Vec::new(),
        company: Vec::new(),
        user: Vec::new(),
        account: Vec::new(),
        tag: Vec::new(),
        merchant: Vec::new(),
        transaction: vec![
            test_transaction(None, None, 0.0, 1.0),
            test_transaction(None, None, 0.0, 2.0),
        ],
        reminder: Vec::new(),
        reminder_marker: Vec::new(),
        budget: Vec::new(),
        deletion: vec![Deletion { id: "x".to_owned(), object: "tag".to_owned(), stamp: 5, user: 1 }],
    };
    let rows = diff_summary_rows(&response);
    assert_eq!(
        rows,
        vec![
            ("Instruments", 0),
            ("Companies", 0),
            ("Users", 0),
            ("Accounts", 0),
            ("Tags", 0),
            ("Merchants", 0),
            ("Transactions", 2),
            ("Reminders", 0),
            ("Reminder Markers", 0),
            ("Budgets", 0),
            ("Deletions", 1),
        ]
    );
}

fn test_account(id: &str, title: &str) -> Account {
    Account {
        id: id.to_owned(),
        changed: 1_700_000_000,
        user: 1_i64,
        role: None,
        instrument: Some(1_i32),
        company: None,
        kind: AccountType::Checking,
        title: title.to_owned(),
        sync_id: None,
        balance: Some(1000.0_f64.to_bits()),
        start_balance: None,
        credit_limit: None,
        in_balance: true,
        savings: None,
        enable_correction: false,
        enable_sms: false,
        archive: false,
        capitalization: None,
        percent: None,
        start_date: None,
        end_date_offset: None,
        end_date_offset_interval: None,
        payoff_step: None,
        payoff_interval: None,
        balance_correction_type: None,
        private: None,
    }
}

#[test]
fn print_transactions_table_with_data() {
    let mut first = test_transaction(Some("Test Payee"), Some("Test comment"), 0.0, 50.0);
    first.date = Date::from_ymd_opt(2024, 1, 1).unwrap();
    let mut second = test_transaction(None, None, 200.0, 0.0);
    second.id = "tx-2".to_owned();
    second.date = Date::from_ymd_opt(2024, 1, 2).unwrap();

    let row = transaction_row(&first);
    assert_eq!(row.date, Date::from_ymd_opt(2024, 1, 1).unwrap());
    assert_eq!(row.payee, "Test Payee");
    assert_eq!(row.outcome, Some(50.0_f64.to_bits()));
    assert_eq!(row.income, None);
    assert_eq!(row.comment, "Test comment");

    let row = transaction_row(&second);
    assert_eq!(row.date, Date::from_ymd_opt(2024, 1, 2).unwrap());
    assert_eq!(row.payee, "\u{2014}");
    assert_eq!(row.outcome, None);
    assert_eq!(row.income, Some(200.0_f64.to_bits()));
    assert_eq!(row.comment, "");
}

#[test]
fn print_diff_summary_works() {
    let response = DiffResponse {
        server_timestamp: 1_700_000_100,
        instrument: Vec::new(),
        country: Vec::new(),
        company: Vec::new(),
        user: Vec::new(),
        account: vec![test_account("a-1", "Test")],
        tag: Vec::new(),
        merchant: Vec::new(),
        transaction: Vec::new(),
        reminder: Vec::new(),
        reminder_marker: Vec::new(),
        budget: Vec::new(),
        deletion: Vec::new(),
    };
    let rows = diff_summary_rows(&response);
    assert_eq!(rows.len(), 11);
    for (label, count) in rows {
        assert_eq!(count, usize::from(label == "Accounts"), "{label}");
    }
}
