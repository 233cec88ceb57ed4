//! Entity records of the ZenMoney data model.
//!
//! Timestamps are whole seconds since the Unix epoch (the wire format of the
//! API); amounts, rates and coordinates are binary64 bit patterns (see
//! `binary64`); calendar days are `Date`s.

use crate::binary64::Binary64;
use crate::date::Date;
use vstd::prelude::*;

verus! {

/// Account identifier (UUID text).
pub type AccountId = String;

/// Transaction identifier (UUID text).
pub type TransactionId = String;

/// Tag (category) identifier (UUID text).
pub type TagId = String;

/// Merchant identifier (UUID text).
pub type MerchantId = String;

/// Reminder identifier (UUID text).
pub type ReminderId = String;

/// Reminder marker identifier (UUID text).
pub type ReminderMarkerId = String;

/// Currency instrument identifier.
pub type InstrumentId = i32;

/// Company (bank) identifier.
pub type CompanyId = i32;

/// Country identifier.
pub type CountryId = i32;

/// User identifier.
pub type UserId = i64;

/// Seconds since 1970-01-01T00:00:00Z.
pub type Timestamp = i64;

/// Recurrence interval unit of a reminder.
#[derive(Clone, Copy, Debug, PartialEq, Eq, Structural)]
pub enum Interval {
    /// Every day.
    Day,
    /// Every week.
    Week,
    /// Every month.
    Month,
    /// Every year.
    Year,
}

/// State of a reminder marker.
#[derive(Clone, Copy, Debug, PartialEq, Eq, Structural)]
pub enum ReminderMarkerState {
    /// Scheduled, not yet turned into a transaction.
    Planned,
    /// Turned into a transaction.
    Processed,
    /// Dismissed.
    Deleted,
}

/// Kind of an account.
#[derive(Clone, Copy, Debug, PartialEq, Eq, Structural)]
pub enum AccountType {
    /// Cash.
    Cash,
    /// Credit card.
    CreditCard,
    /// Checking (debit) account.
    Checking,
    /// Loan.
    Loan,
    /// Deposit.
    Deposit,
    /// Electronic money.
    EMoney,
    /// Debt.
    Debt,
}

/// A financial transaction between accounts.
#[derive(Clone, Debug, PartialEq)]
pub struct Transaction {
    /// Unique identifier (UUID).
    pub id: TransactionId,
    /// Last modification timestamp.
    pub changed: Timestamp,
    /// Creation timestamp.
    pub created: Timestamp,
    /// Owner user identifier.
    pub user: UserId,
    /// Whether the transaction has been deleted.
    pub deleted: bool,
    /// Whether the transaction is on hold (pending).
    pub hold: Option<bool>,
    /// Income currency instrument.
    pub income_instrument: Option<InstrumentId>,
    /// Income destination account.
    pub income_account: Option<AccountId>,
    /// Income amount (>= 0).
    pub income: Binary64,
    /// Outcome currency instrument.
    pub outcome_instrument: Option<InstrumentId>,
    /// Outcome source account.
    pub outcome_account: Option<AccountId>,
    /// Outcome amount (>= 0).
    pub outcome: Binary64,
    /// Associated category tags.
    pub tag: Option<Vec<TagId>>,
    /// Associated merchant.
    pub merchant: Option<MerchantId>,
    /// Payee name.
    pub payee: Option<String>,
    /// Original payee name (before normalization).
    pub original_payee: Option<String>,
    /// User comment.
    pub comment: Option<String>,
    /// Transaction date.
    pub date: Date,
    /// Merchant Category Code.
    pub mcc: Option<i32>,
    /// Associated reminder marker.
    pub reminder_marker: Option<ReminderMarkerId>,
    /// Operational income amount (in transaction currency).
    pub op_income: Option<Binary64>,
    /// Operational income instrument.
    pub op_income_instrument: Option<InstrumentId>,
    /// Operational outcome amount (in transaction currency).
    pub op_outcome: Option<Binary64>,
    /// Operational outcome instrument.
    pub op_outcome_instrument: Option<InstrumentId>,
    /// Latitude coordinate.
    pub latitude: Option<Binary64>,
    /// Longitude coordinate.
    pub longitude: Option<Binary64>,
    /// Income bank transaction identifier.
    pub income_bank_id: Option<String>,
    /// Outcome bank transaction identifier.
    pub outcome_bank_id: Option<String>,
    /// QR code data.
    pub qr_code: Option<String>,
    /// Transaction source (e.g. "import", "user").
    pub source: Option<String>,
    /// Whether the transaction has been viewed.
    pub viewed: Option<bool>,
}

/// A recurring transaction template.
#[derive(Clone, Debug, PartialEq)]
pub struct Reminder {
    /// Unique identifier (UUID).
    pub id: ReminderId,
    /// Last modification timestamp.
    pub changed: Timestamp,
    /// Owner user identifier.
    pub user: UserId,
    /// Income currency instrument.
    pub income_instrument: Option<InstrumentId>,
    /// Income destination account.
    pub income_account: Option<AccountId>,
    /// Income amount (>= 0).
    pub income: Binary64,
    /// Outcome currency instrument.
    pub outcome_instrument: Option<InstrumentId>,
    /// Outcome source account.
    pub outcome_account: Option<AccountId>,
    /// Outcome amount (>= 0).
    pub outcome: Binary64,
    /// Associated category tags.
    pub tag: Option<Vec<TagId>>,
    /// Associated merchant.
    pub merchant: Option<MerchantId>,
    /// Payee name.
    pub payee: Option<String>,
    /// User comment.
    pub comment: Option<String>,
    /// Recurrence interval unit.
    pub interval: Option<Interval>,
    /// Recurrence step count.
    pub step: Option<i32>,
    /// Specific day points within the interval.
    pub points: Option<Vec<i32>>,
    /// First occurrence date.
    pub start_date: Date,
    /// Last occurrence date.
    pub end_date: Option<Date>,
    /// Whether to send notifications.
    pub notify: bool,
}

/// A generated instance of a recurring reminder.
#[derive(Clone, Debug, PartialEq)]
pub struct ReminderMarker {
    /// Unique identifier (UUID).
    pub id: ReminderMarkerId,
    /// Last modification timestamp.
    pub changed: Timestamp,
    /// Owner user identifier.
    pub user: UserId,
    /// Income currency instrument.
    pub income_instrument: Option<InstrumentId>,
    /// Income destination account.
    pub income_account: Option<AccountId>,
    /// Income amount (>= 0).
    pub income: Binary64,
    /// Outcome currency instrument.
    pub outcome_instrument: Option<InstrumentId>,
    /// Outcome source account.
    pub outcome_account: Option<AccountId>,
    /// Outcome amount (>= 0).
    pub outcome: Binary64,
    /// Associated category tags.
    pub tag: Option<Vec<TagId>>,
    /// Associated merchant.
    pub merchant: Option<MerchantId>,
    /// Payee name.
    pub payee: Option<String>,
    /// User comment.
    pub comment: Option<String>,
    /// Scheduled date.
    pub date: Date,
    /// Parent reminder identifier.
    pub reminder: ReminderId,
    /// Current state of this marker.
    pub state: ReminderMarkerState,
    /// Whether to send a notification.
    pub notify: bool,
    /// Whether this marker is a forecast entry.
    pub is_forecast: Option<bool>,
}

/// A money account.
#[derive(Clone, Debug, PartialEq)]
pub struct Account {
    /// Unique identifier (UUID).
    pub id: AccountId,
    /// Last modification timestamp.
    pub changed: Timestamp,
    /// Owner user identifier.
    pub user: UserId,
    /// User the account is shared from, if any.
    pub role: Option<UserId>,
    /// Currency of the account.
    pub instrument: Option<InstrumentId>,
    /// Bank that holds the account.
    pub company: Option<CompanyId>,
    /// Kind of account.
    pub kind: AccountType,
    /// Display title.
    pub title: String,
    /// Card or account number fragments used for SMS matching.
    pub sync_id: Option<Vec<String>>,
    /// Current balance.
    pub balance: Option<Binary64>,
    /// Balance at creation.
    pub start_balance: Option<Binary64>,
    /// Credit limit.
    pub credit_limit: Option<Binary64>,
    /// Whether the account counts towards the total balance.
    pub in_balance: bool,
    /// Whether the account is a savings account.
    pub savings: Option<bool>,
    /// Whether balance correction is enabled.
    pub enable_correction: bool,
    /// Whether SMS parsing is enabled.
    pub enable_sms: bool,
    /// Whether the account is archived.
    pub archive: bool,
    /// Whether interest is capitalised (deposits, loans).
    pub capitalization: Option<bool>,
    /// Interest rate, in percent (deposits, loans).
    pub percent: Option<Binary64>,
    /// Opening day (deposits, loans).
    pub start_date: Option<Date>,
    /// Term length, in units of `end_date_offset_interval`.
    pub end_date_offset: Option<i32>,
    /// Unit of the term length.
    pub end_date_offset_interval: Option<Interval>,
    /// Repayment step, in units of `payoff_interval`.
    pub payoff_step: Option<i32>,
    /// Unit of the repayment step.
    pub payoff_interval: Option<Interval>,
    /// How balance corrections are made.
    pub balance_correction_type: Option<String>,
    /// Whether the account is private.
    pub private: Option<bool>,
}

/// A category tag.
#[derive(Clone, Debug, PartialEq)]
pub struct Tag {
    /// Unique identifier (UUID).
    pub id: TagId,
    /// Last modification timestamp.
    pub changed: Timestamp,
    /// Owner user identifier.
    pub user: UserId,
    /// Display title.
    pub title: String,
    /// Parent tag.
    pub parent: Option<TagId>,
    /// Icon name.
    pub icon: Option<String>,
    /// Picture URL.
    pub picture: Option<String>,
    /// Display color.
    pub color: Option<i64>,
    /// Whether the tag is offered for income.
    pub show_income: bool,
    /// Whether the tag is offered for outcome.
    pub show_outcome: bool,
    /// Whether income under the tag is budgeted.
    pub budget_income: bool,
    /// Whether outcome under the tag is budgeted.
    pub budget_outcome: bool,
    /// Whether the tag is required.
    pub required: Option<bool>,
    /// Identifier of a built-in tag.
    pub static_id: Option<String>,
    /// Whether the tag is archived.
    pub archive: Option<bool>,
}

/// A payee merchant.
#[derive(Clone, Debug, PartialEq)]
pub struct Merchant {
    /// Unique identifier (UUID).
    pub id: MerchantId,
    /// Last modification timestamp.
    pub changed: Timestamp,
    /// Owner user identifier.
    pub user: UserId,
    /// Display title.
    pub title: String,
}

/// A currency.
#[derive(Clone, Debug, PartialEq)]
pub struct Instrument {
    /// Identifier.
    pub id: InstrumentId,
    /// Full title.
    pub title: String,
    /// Short (ISO) title.
    pub short_title: String,
    /// Currency symbol.
    pub symbol: String,
    /// Exchange rate to the base currency.
    pub rate: Binary64,
    /// Last modification timestamp.
    pub changed: Timestamp,
}

/// A bank or other financial company.
#[derive(Clone, Debug, PartialEq)]
pub struct Company {
    /// Identifier.
    pub id: CompanyId,
    /// Last modification timestamp.
    pub changed: Timestamp,
    /// Display title.
    pub title: String,
    /// Full legal title.
    pub full_title: Option<String>,
    /// Web site.
    pub www: Option<String>,
    /// Country.
    pub country: Option<CountryId>,
    /// Country code.
    pub country_code: Option<String>,
    /// Whether the company has been deleted.
    pub deleted: Option<bool>,
}

/// A country.
#[derive(Clone, Debug, PartialEq)]
pub struct Country {
    /// Identifier.
    pub id: CountryId,
    /// Display title.
    pub title: String,
    /// Main currency.
    pub currency: InstrumentId,
    /// Internet domain.
    pub domain: Option<String>,
}

/// A ZenMoney user.
#[derive(Clone, Debug, PartialEq)]
pub struct User {
    /// Identifier.
    pub id: UserId,
    /// Last modification timestamp.
    pub changed: Timestamp,
    /// Login e-mail.
    pub login: Option<String>,
    /// Main currency.
    pub currency: InstrumentId,
    /// Parent (family owner) user.
    pub parent: Option<UserId>,
    /// Country.
    pub country: Option<CountryId>,
    /// Country code.
    pub country_code: Option<String>,
    /// Contact e-mail.
    pub email: Option<String>,
    /// Whether forecasting is enabled.
    pub is_forecast_enabled: Option<bool>,
    /// Day of the month on which the budget month starts.
    pub month_start_day: Option<i32>,
    /// End of the paid subscription.
    pub paid_till: Option<Timestamp>,
    /// Budget balance mode.
    pub plan_balance_mode: Option<String>,
    /// Budget settings.
    pub plan_settings: Option<String>,
    /// Subscription kind.
    pub subscription: Option<String>,
    /// Subscription renewal day.
    pub subscription_renewal_date: Option<Date>,
}

/// A monthly budget for a tag (or for all tags when `tag` is `None`).
#[derive(Clone, Debug, PartialEq)]
pub struct Budget {
    /// Last modification timestamp.
    pub changed: Timestamp,
    /// Owner user identifier.
    pub user: UserId,
    /// Tag the budget is for.
    pub tag: Option<TagId>,
    /// First day of the budget month.
    pub date: Date,
    /// Planned income.
    pub income: Binary64,
    /// Whether the planned income is locked.
    pub income_lock: bool,
    /// Planned outcome.
    pub outcome: Binary64,
    /// Whether the planned outcome is locked.
    pub outcome_lock: bool,
    /// Whether the income is a forecast.
    pub is_income_forecast: Option<bool>,
    /// Whether the outcome is a forecast.
    pub is_outcome_forecast: Option<bool>,
}

/// A record of an entity deleted on the server or to be deleted there.
#[derive(Clone, Debug, PartialEq)]
pub struct Deletion {
    /// Identifier of the deleted entity, as text.
    pub id: String,
    /// Entity type name (such as "account" or "reminderMarker").
    pub object: String,
    /// Deletion timestamp.
    pub stamp: Timestamp,
    /// User who deleted the entity.
    pub user: UserId,
}

/// The server's answer to a diff (sync) request: every entity changed since
/// the client's last sync, and the deletions.
#[derive(Clone, Debug, PartialEq)]
pub struct DiffResponse {
    /// Server time of this answer; the next sync starts from it.
    pub server_timestamp: Timestamp,
    /// Changed instruments.
    pub instrument: Vec<Instrument>,
    /// Changed countries.
    pub country: Vec<Country>,
    /// Changed companies.
    pub company: Vec<Company>,
    /// Changed users.
    pub user: Vec<User>,
    /// Changed accounts.
    pub account: Vec<Account>,
    /// Changed tags.
    pub tag: Vec<Tag>,
    /// Changed merchants.
    pub merchant: Vec<Merchant>,
    /// Changed transactions.
    pub transaction: Vec<Transaction>,
    /// Changed reminders.
    pub reminder: Vec<Reminder>,
    /// Changed reminder markers.
    pub reminder_marker: Vec<ReminderMarker>,
    /// Changed budgets.
    pub budget: Vec<Budget>,
    /// Deleted entities.
    pub deletion: Vec<Deletion>,
}

} // verus!
