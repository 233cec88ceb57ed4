//! In-memory storage of synced entities.
//!
//! Upserts merge by key: existing records with matching identifiers are
//! replaced in place, new ones are appended. Every collection holds at most one record
//! per key.

use crate::error::{StorageFailure, ZenMoneyError};
use crate::keyed::{
    key_map, keys_unique, listed_keys, put_all, remove_by_key, upsert_by_key, without_keys,
};
use crate::models::{
    Account, AccountId, Budget, Company, CompanyId, Country, CountryId, Instrument, InstrumentId,
    Merchant, MerchantId, Reminder, ReminderId, ReminderMarker, ReminderMarkerId, Tag, TagId,
    Timestamp, Transaction, TransactionId, User, UserId,
};
use std::sync::PoisonError;
use vstd::prelude::*;

verus! {

/// The contents of a store.
pub struct StorageState {
    /// Server timestamp of the last applied sync, if any.
    pub server_timestamp: Option<Timestamp>,
    /// Stored accounts.
    pub accounts: Seq<Account>,
    /// Stored transactions.
    pub transactions: Seq<Transaction>,
    /// Stored tags.
    pub tags: Seq<Tag>,
    /// Stored merchants.
    pub merchants: Seq<Merchant>,
    /// Stored instruments.
    pub instruments: Seq<Instrument>,
    /// Stored companies.
    pub companies: Seq<Company>,
    /// Stored countries.
    pub countries: Seq<Country>,
    /// Stored users.
    pub users: Seq<User>,
    /// Stored reminders.
    pub reminders: Seq<Reminder>,
    /// Stored reminder markers.
    pub reminder_markers: Seq<ReminderMarker>,
    /// Stored budgets.
    pub budgets: Seq<Budget>,
}

impl StorageState {
    /// Every collection holds at most one record per key.
    pub open spec fn is_well_formed(self) -> bool {
        &&& keys_unique(self.accounts)
        &&& keys_unique(self.transactions)
        &&& keys_unique(self.tags)
        &&& keys_unique(self.merchants)
        &&& keys_unique(self.instruments)
        &&& keys_unique(self.companies)
        &&& keys_unique(self.countries)
        &&& keys_unique(self.users)
        &&& keys_unique(self.reminders)
        &&& keys_unique(self.reminder_markers)
        &&& keys_unique(self.budgets)
    }

    /// The contents of a store that holds nothing.
    pub open spec fn empty() -> StorageState {
        StorageState {
            server_timestamp: None,
            accounts: Seq::empty(),
            transactions: Seq::empty(),
            tags: Seq::empty(),
            merchants: Seq::empty(),
            instruments: Seq::empty(),
            companies: Seq::empty(),
            countries: Seq::empty(),
            users: Seq::empty(),
            reminders: Seq::empty(),
            reminder_markers: Seq::empty(),
            budgets: Seq::empty(),
        }
    }
}

/// In-memory storage of synced entities.
///
/// Upserts merge by key: existing records with matching identifiers are
/// replaced in place, new records are appended.
pub struct InMemoryStorage {
    /// Server timestamp.
    server_timestamp: Option<Timestamp>,
    /// Stored accounts.
    accounts: Vec<Account>,
    /// Stored transactions.
    transactions: Vec<Transaction>,
    /// Stored tags.
    tags: Vec<Tag>,
    /// Stored merchants.
    merchants: Vec<Merchant>,
    /// Stored instruments.
    instruments: Vec<Instrument>,
    /// Stored companies.
    companies: Vec<Company>,
    /// Stored countries.
    countries: Vec<Country>,
    /// Stored users.
    users: Vec<User>,
    /// Stored reminders.
    reminders: Vec<Reminder>,
    /// Stored reminder markers.
    reminder_markers: Vec<ReminderMarker>,
    /// Stored budgets.
    budgets: Vec<Budget>,
}

impl View for InMemoryStorage {
    type V = StorageState;

    closed spec fn view(&self) -> StorageState {
        StorageState {
            server_timestamp: self.server_timestamp,
            accounts: self.accounts@,
            transactions: self.transactions@,
            tags: self.tags@,
            merchants: self.merchants@,
            instruments: self.instruments@,
            companies: self.companies@,
            countries: self.countries@,
            users: self.users@,
            reminders: self.reminders@,
            reminder_markers: self.reminder_markers@,
            budgets: self.budgets@,
        }
    }
}

impl InMemoryStorage {
    #[verifier::type_invariant]
    closed spec fn one_record_per_key(self) -> bool {
        self@.is_well_formed()
    }

    /// Creates a new empty in-memory storage.
    pub fn new() -> (r: InMemoryStorage)
        ensures
            r@ == StorageState::empty(),
    {
        let r = InMemoryStorage {
            server_timestamp: None,
            accounts: Vec::new(),
            transactions: Vec::new(),
            tags: Vec::new(),
            merchants: Vec::new(),
            instruments: Vec::new(),
            companies: Vec::new(),
            countries: Vec::new(),
            users: Vec::new(),
            reminders: Vec::new(),
            reminder_markers: Vec::new(),
            budgets: Vec::new(),
        };
        assert(r@ =~= StorageState::empty());
        r
    }

    /// Every store holds at most one record per key in each collection.
    pub fn check_well_formed(&self)
        ensures
            self@.is_well_formed(),
    {
        proof {
            use_type_invariant(self);
        }
    }

    /// The server timestamp of the last applied sync.
    pub fn server_timestamp(&self) -> (r: Option<Timestamp>)
        ensures
            r == self@.server_timestamp,
    {
        self.server_timestamp
    }

    /// Records the server timestamp of the last applied sync.
    pub fn set_server_timestamp(&mut self, timestamp: Timestamp)
        ensures
            final(self)@ == (StorageState { server_timestamp: Some(timestamp), ..old(self)@ }),
    {
        proof {
            use_type_invariant(&*self);
        }
        self.server_timestamp = Some(timestamp);
    }

    /// Removes everything: afterwards the store is as `new` makes it.
    pub fn clear(&mut self)
        ensures
            final(self)@ == StorageState::empty(),
    {
        *self = InMemoryStorage::new();
    }

    /// The stored accounts.
    pub fn accounts(&self) -> (r: &Vec<Account>)
        ensures
            r@ == self@.accounts,
            keys_unique(r@),
    {
        proof {
            use_type_invariant(self);
        }
        &self.accounts
    }

    /// Upserts accounts by key: a stored record with the key of a given one is
    /// replaced in its place, the others are appended.
    pub fn upsert_accounts(&mut self, items: Vec<Account>)
        ensures
            final(self)@ == (StorageState { accounts: final(self)@.accounts, ..old(self)@ }),
            final(self)@.accounts == put_all(old(self)@.accounts, items@),
            keys_unique(final(self)@.accounts),
            key_map(final(self)@.accounts) == key_map(old(self)@.accounts).union_prefer_right(key_map(items@)),
    {
        proof {
            use_type_invariant(&*self);
        }
        let mut current: Vec<Account> = Vec::new();
        std::mem::swap(&mut current, &mut self.accounts);
        upsert_by_key(&mut current, items);
        self.accounts = current;
    }

    /// Removes the accounts whose identifier is one of `ids`.
    pub fn remove_accounts(&mut self, ids: &[AccountId])
        ensures
            final(self)@ == (StorageState { accounts: without_keys(old(self)@.accounts, ids@), ..old(self)@ }),
    {
        proof {
            use_type_invariant(&*self);
        }
        let mut current: Vec<Account> = Vec::new();
        std::mem::swap(&mut current, &mut self.accounts);
        let ghost before = current@;
        remove_by_key(&mut current, ids);
        proof {
            crate::keyed::lemma_without_key_set_unique(before, listed_keys(ids@));
        }
        self.accounts = current;
    }

    /// The stored transactions.
    pub fn transactions(&self) -> (r: &Vec<Transaction>)
        ensures
            r@ == self@.transactions,
            keys_unique(r@),
    {
        proof {
            use_type_invariant(self);
        }
        &self.transactions
    }

    /// Upserts transactions by key: a stored record with the key of a given one is
    /// replaced in its place, the others are appended.
    pub fn upsert_transactions(&mut self, items: Vec<Transaction>)
        ensures
            final(self)@ == (StorageState { transactions: final(self)@.transactions, ..old(self)@ }),
            final(self)@.transactions == put_all(old(self)@.transactions, items@),
            keys_unique(final(self)@.transactions),
            key_map(final(self)@.transactions) == key_map(old(self)@.transactions).union_prefer_right(key_map(items@)),
    {
        proof {
            use_type_invariant(&*self);
        }
        let mut current: Vec<Transaction> = Vec::new();
        std::mem::swap(&mut current, &mut self.transactions);
        upsert_by_key(&mut current, items);
        self.transactions = current;
    }

    /// Removes the transactions whose identifier is one of `ids`.
    pub fn remove_transactions(&mut self, ids: &[TransactionId])
        ensures
            final(self)@ == (StorageState { transactions: without_keys(old(self)@.transactions, ids@), ..old(self)@ }),
    {
        proof {
            use_type_invariant(&*self);
        }
        let mut current: Vec<Transaction> = Vec::new();
        std::mem::swap(&mut current, &mut self.transactions);
        let ghost before = current@;
        remove_by_key(&mut current, ids);
        proof {
            crate::keyed::lemma_without_key_set_unique(before, listed_keys(ids@));
        }
        self.transactions = current;
    }

    /// The stored tags.
    pub fn tags(&self) -> (r: &Vec<Tag>)
        ensures
            r@ == self@.tags,
            keys_unique(r@),
    {
        proof {
            use_type_invariant(self);
        }
        &self.tags
    }

    /// Upserts tags by key: a stored record with the key of a given one is
    /// replaced in its place, the others are appended.
    pub fn upsert_tags(&mut self, items: Vec<Tag>)
        ensures
            final(self)@ == (StorageState { tags: final(self)@.tags, ..old(self)@ }),
            final(self)@.tags == put_all(old(self)@.tags, items@),
            keys_unique(final(self)@.tags),
            key_map(final(self)@.tags) == key_map(old(self)@.tags).union_prefer_right(key_map(items@)),
    {
        proof {
            use_type_invariant(&*self);
        }
        let mut current: Vec<Tag> = Vec::new();
        std::mem::swap(&mut current, &mut self.tags);
        upsert_by_key(&mut current, items);
        self.tags = current;
    }

    /// Removes the tags whose identifier is one of `ids`.
    pub fn remove_tags(&mut self, ids: &[TagId])
        ensures
            final(self)@ == (StorageState { tags: without_keys(old(self)@.tags, ids@), ..old(self)@ }),
    {
        proof {
            use_type_invariant(&*self);
        }
        let mut current: Vec<Tag> = Vec::new();
        std::mem::swap(&mut current, &mut self.tags);
        let ghost before = current@;
        remove_by_key(&mut current, ids);
        proof {
            crate::keyed::lemma_without_key_set_unique(before, listed_keys(ids@));
        }
        self.tags = current;
    }

    /// The stored merchants.
    pub fn merchants(&self) -> (r: &Vec<Merchant>)
        ensures
            r@ == self@.merchants,
            keys_unique(r@),
    {
        proof {
            use_type_invariant(self);
        }
        &self.merchants
    }

    /// Upserts merchants by key: a stored record with the key of a given one is
    /// replaced in its place, the others are appended.
    pub fn upsert_merchants(&mut self, items: Vec<Merchant>)
        ensures
            final(self)@ == (StorageState { merchants: final(self)@.merchants, ..old(self)@ }),
            final(self)@.merchants == put_all(old(self)@.merchants, items@),
            keys_unique(final(self)@.merchants),
            key_map(final(self)@.merchants) == key_map(old(self)@.merchants).union_prefer_right(key_map(items@)),
    {
        proof {
            use_type_invariant(&*self);
        }
        let mut current: Vec<Merchant> = Vec::new();
        std::mem::swap(&mut current, &mut self.merchants);
        upsert_by_key(&mut current, items);
        self.merchants = current;
    }

    /// Removes the merchants whose identifier is one of `ids`.
    pub fn remove_merchants(&mut self, ids: &[MerchantId])
        ensures
            final(self)@ == (StorageState { merchants: without_keys(old(self)@.merchants, ids@), ..old(self)@ }),
    {
        proof {
            use_type_invariant(&*self);
        }
        let mut current: Vec<Merchant> = Vec::new();
        std::mem::swap(&mut current, &mut self.merchants);
        let ghost before = current@;
        remove_by_key(&mut current, ids);
        proof {
            crate::keyed::lemma_without_key_set_unique(before, listed_keys(ids@));
        }
        self.merchants = current;
    }

    /// The stored instruments.
    pub fn instruments(&self) -> (r: &Vec<Instrument>)
        ensures
            r@ == self@.instruments,
            keys_unique(r@),
    {
        proof {
            use_type_invariant(self);
        }
        &self.instruments
    }

    /// Upserts instruments by key: a stored record with the key of a given one is
    /// replaced in its place, the others are appended.
    pub fn upsert_instruments(&mut self, items: Vec<Instrument>)
        ensures
            final(self)@ == (StorageState { instruments: final(self)@.instruments, ..old(self)@ }),
            final(self)@.instruments == put_all(old(self)@.instruments, items@),
            keys_unique(final(self)@.instruments),
            key_map(final(self)@.instruments) == key_map(old(self)@.instruments).union_prefer_right(key_map(items@)),
    {
        proof {
            use_type_invariant(&*self);
        }
        let mut current: Vec<Instrument> = Vec::new();
        std::mem::swap(&mut current, &mut self.instruments);
        upsert_by_key(&mut current, items);
        self.instruments = current;
    }

    /// Removes the instruments whose identifier is one of `ids`.
    pub fn remove_instruments(&mut self, ids: &[InstrumentId])
        ensures
            final(self)@ == (StorageState { instruments: without_keys(old(self)@.instruments, ids@), ..old(self)@ }),
    {
        proof {
            use_type_invariant(&*self);
        }
        let mut current: Vec<Instrument> = Vec::new();
        std::mem::swap(&mut current, &mut self.instruments);
        let ghost before = current@;
        remove_by_key(&mut current, ids);
        proof {
            crate::keyed::lemma_without_key_set_unique(before, listed_keys(ids@));
        }
        self.instruments = current;
    }

    /// The stored companies.
    pub fn companies(&self) -> (r: &Vec<Company>)
        ensures
            r@ == self@.companies,
            keys_unique(r@),
    {
        proof {
            use_type_invariant(self);
        }
        &self.companies
    }

    /// Upserts companies by key: a stored record with the key of a given one is
    /// replaced in its place, the others are appended.
    pub fn upsert_companies(&mut self, items: Vec<Company>)
        ensures
            final(self)@ == (StorageState { companies: final(self)@.companies, ..old(self)@ }),
            final(self)@.companies == put_all(old(self)@.companies, items@),
            keys_unique(final(self)@.companies),
            key_map(final(self)@.companies) == key_map(old(self)@.companies).union_prefer_right(key_map(items@)),
    {
        proof {
            use_type_invariant(&*self);
        }
        let mut current: Vec<Company> = Vec::new();
        std::mem::swap(&mut current, &mut self.companies);
        upsert_by_key(&mut current, items);
        self.companies = current;
    }

    /// Removes the companies whose identifier is one of `ids`.
    pub fn remove_companies(&mut self, ids: &[CompanyId])
        ensures
            final(self)@ == (StorageState { companies: without_keys(old(self)@.companies, ids@), ..old(self)@ }),
    {
        proof {
            use_type_invariant(&*self);
        }
        let mut current: Vec<Company> = Vec::new();
        std::mem::swap(&mut current, &mut self.companies);
        let ghost before = current@;
        remove_by_key(&mut current, ids);
        proof {
            crate::keyed::lemma_without_key_set_unique(before, listed_keys(ids@));
        }
        self.companies = current;
    }

    /// The stored countries.
    pub fn countries(&self) -> (r: &Vec<Country>)
        ensures
            r@ == self@.countries,
            keys_unique(r@),
    {
        proof {
            use_type_invariant(self);
        }
        &self.countries
    }

    /// Upserts countries by key: a stored record with the key of a given one is
    /// replaced in its place, the others are appended.
    pub fn upsert_countries(&mut self, items: Vec<Country>)
        ensures
            final(self)@ == (StorageState { countries: final(self)@.countries, ..old(self)@ }),
            final(self)@.countries == put_all(old(self)@.countries, items@),
            keys_unique(final(self)@.countries),
            key_map(final(self)@.countries) == key_map(old(self)@.countries).union_prefer_right(key_map(items@)),
    {
        proof {
            use_type_invariant(&*self);
        }
        let mut current: Vec<Country> = Vec::new();
        std::mem::swap(&mut current, &mut self.countries);
        upsert_by_key(&mut current, items);
        self.countries = current;
    }

    /// Removes the countries whose identifier is one of `ids`.
    pub fn remove_countries(&mut self, ids: &[CountryId])
        ensures
            final(self)@ == (StorageState { countries: without_keys(old(self)@.countries, ids@), ..old(self)@ }),
    {
        proof {
            use_type_invariant(&*self);
        }
        let mut current: Vec<Country> = Vec::new();
        std::mem::swap(&mut current, &mut self.countries);
        let ghost before = current@;
        remove_by_key(&mut current, ids);
        proof {
            crate::keyed::lemma_without_key_set_unique(before, listed_keys(ids@));
        }
        self.countries = current;
    }

    /// The stored users.
    pub fn users(&self) -> (r: &Vec<User>)
        ensures
            r@ == self@.users,
            keys_unique(r@),
    {
        proof {
            use_type_invariant(self);
        }
        &self.users
    }

    /// Upserts users by key: a stored record with the key of a given one is
    /// replaced in its place, the others are appended.
    pub fn upsert_users(&mut self, items: Vec<User>)
        ensures
            final(self)@ == (StorageState { users: final(self)@.users, ..old(self)@ }),
            final(self)@.users == put_all(old(self)@.users, items@),
            keys_unique(final(self)@.users),
            key_map(final(self)@.users) == key_map(old(self)@.users).union_prefer_right(key_map(items@)),
    {
        proof {
            use_type_invariant(&*self);
        }
        let mut current: Vec<User> = Vec::new();
        std::mem::swap(&mut current, &mut self.users);
        upsert_by_key(&mut current, items);
        self.users = current;
    }

    /// Removes the users whose identifier is one of `ids`.
    pub fn remove_users(&mut self, ids: &[UserId])
        ensures
            final(self)@ == (StorageState { users: without_keys(old(self)@.users, ids@), ..old(self)@ }),
    {
        proof {
            use_type_invariant(&*self);
        }
        let mut current: Vec<User> = Vec::new();
        std::mem::swap(&mut current, &mut self.users);
        let ghost before = current@;
        remove_by_key(&mut current, ids);
        proof {
            crate::keyed::lemma_without_key_set_unique(before, listed_keys(ids@));
        }
        self.users = current;
    }

    /// The stored reminders.
    pub fn reminders(&self) -> (r: &Vec<Reminder>)
        ensures
            r@ == self@.reminders,
            keys_unique(r@),
    {
        proof {
            use_type_invariant(self);
        }
        &self.reminders
    }

    /// Upserts reminders by key: a stored record with the key of a given one is
    /// replaced in its place, the others are appended.
    pub fn upsert_reminders(&mut self, items: Vec<Reminder>)
        ensures
            final(self)@ == (StorageState { reminders: final(self)@.reminders, ..old(self)@ }),
            final(self)@.reminders == put_all(old(self)@.reminders, items@),
            keys_unique(final(self)@.reminders),
            key_map(final(self)@.reminders) == key_map(old(self)@.reminders).union_prefer_right(key_map(items@)),
    {
        proof {
            use_type_invariant(&*self);
        }
        let mut current: Vec<Reminder> = Vec::new();
        std::mem::swap(&mut current, &mut self.reminders);
        upsert_by_key(&mut current, items);
        self.reminders = current;
    }

    /// Removes the reminders whose identifier is one of `ids`.
    pub fn remove_reminders(&mut self, ids: &[ReminderId])
        ensures
            final(self)@ == (StorageState { reminders: without_keys(old(self)@.reminders, ids@), ..old(self)@ }),
    {
        proof {
            use_type_invariant(&*self);
        }
        let mut current: Vec<Reminder> = Vec::new();
        std::mem::swap(&mut current, &mut self.reminders);
        let ghost before = current@;
        remove_by_key(&mut current, ids);
        proof {
            crate::keyed::lemma_without_key_set_unique(before, listed_keys(ids@));
        }
        self.reminders = current;
    }

    /// The stored reminder markers.
    pub fn reminder_markers(&self) -> (r: &Vec<ReminderMarker>)
        ensures
            r@ == self@.reminder_markers,
            keys_unique(r@),
    {
        proof {
            use_type_invariant(self);
        }
        &self.reminder_markers
    }

    /// Upserts reminder markers by key: a stored record with the key of a given one is
    /// replaced in its place, the others are appended.
    pub fn upsert_reminder_markers(&mut self, items: Vec<ReminderMarker>)
        ensures
            final(self)@ == (StorageState { reminder_markers: final(self)@.reminder_markers, ..old(self)@ }),
            final(self)@.reminder_markers == put_all(old(self)@.reminder_markers, items@),
            keys_unique(final(self)@.reminder_markers),
            key_map(final(self)@.reminder_markers) == key_map(old(self)@.reminder_markers).union_prefer_right(key_map(items@)),
    {
        proof {
            use_type_invariant(&*self);
        }
        let mut current: Vec<ReminderMarker> = Vec::new();
        std::mem::swap(&mut current, &mut self.reminder_markers);
        upsert_by_key(&mut current, items);
        self.reminder_markers = current;
    }

    /// Removes the reminder markers whose identifier is one of `ids`.
    pub fn remove_reminder_markers(&mut self, ids: &[ReminderMarkerId])
        ensures
            final(self)@ == (StorageState { reminder_markers: without_keys(old(self)@.reminder_markers, ids@), ..old(self)@ }),
    {
        proof {
            use_type_invariant(&*self);
        }
        let mut current: Vec<ReminderMarker> = Vec::new();
        std::mem::swap(&mut current, &mut self.reminder_markers);
        let ghost before = current@;
        remove_by_key(&mut current, ids);
        proof {
            crate::keyed::lemma_without_key_set_unique(before, listed_keys(ids@));
        }
        self.reminder_markers = current;
    }

    /// The stored budgets.
    pub fn budgets(&self) -> (r: &Vec<Budget>)
        ensures
            r@ == self@.budgets,
            keys_unique(r@),
    {
        proof {
            use_type_invariant(self);
        }
        &self.budgets
    }

    /// Upserts budgets by key: a stored record with the key of a given one is
    /// replaced in its place, the others are appended.
    pub fn upsert_budgets(&mut self, items: Vec<Budget>)
        ensures
            final(self)@ == (StorageState { budgets: final(self)@.budgets, ..old(self)@ }),
            final(self)@.budgets == put_all(old(self)@.budgets, items@),
            keys_unique(final(self)@.budgets),
            key_map(final(self)@.budgets) == key_map(old(self)@.budgets).union_prefer_right(key_map(items@)),
    {
        proof {
            use_type_invariant(&*self);
        }
        let mut current: Vec<Budget> = Vec::new();
        std::mem::swap(&mut current, &mut self.budgets);
        upsert_by_key(&mut current, items);
        self.budgets = current;
    }

    /// Budgets are deleted by composite key, which a deletion record's
    /// identifier text does not carry: removal by identifier leaves the store
    /// unchanged.
    pub fn remove_budgets(&self, ids: &[String]) {
    }
}

/// The storage error for a poisoned lock, carrying the text that describes
/// the poisoning.
pub fn lock_failure(message: String) -> (r: ZenMoneyError)
    ensures
        r == ZenMoneyError::Storage(StorageFailure::Lock(message)),
{
    ZenMoneyError::Storage(StorageFailure::Lock(message))
}

/// The error reported when the lock guarding a shared store was poisoned by a
/// panicking holder: `lock_failure` of the poison error's text.
pub fn lock_error<T>(err: &PoisonError<T>) -> (r: ZenMoneyError)
    ensures
        r matches ZenMoneyError::Storage(StorageFailure::Lock(_)),
{
    lock_failure(poison_message(err))
}

/// `<PoisonError<T> as Display>::to_string`.
///
/// Nothing is stated of the text.
#[verifier::external_body]
fn poison_message<T>(err: &PoisonError<T>) -> String {
    err.to_string()
}

/// `std::sync::PoisonError`, carried opaquely.
#[verifier::external_type_specification]
#[verifier::external_body]
#[verifier::reject_recursive_types(T)]
pub struct ExPoisonError<T>(PoisonError<T>);

} // verus!
