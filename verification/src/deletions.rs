//! Grouping of deletion records by entity type.

use crate::error::{StorageFailure, ZenMoneyError};
use crate::models::{
    AccountId, CompanyId, CountryId, DiffResponse, InstrumentId, MerchantId, ReminderId,
    ReminderMarkerId, TagId, TransactionId, UserId,
};
use crate::numeric::{
    decimal_in_range, decimal_value, i32_parse_problem, i64_parse_problem, problem_fits, IntProblem,
    NumericId,
};
use crate::text::same_text;
use vstd::prelude::*;

verus! {

/// The entity types that deletion records name.
#[derive(Clone, Copy, Debug, PartialEq, Eq, Structural)]
pub enum EntityKind {
    /// "account"
    Account,
    /// "transaction"
    Transaction,
    /// "tag"
    Tag,
    /// "merchant"
    Merchant,
    /// "instrument"
    Instrument,
    /// "company"
    Company,
    /// "country"
    Country,
    /// "user"
    User,
    /// "reminder"
    Reminder,
    /// "reminderMarker"
    ReminderMarker,
}

/// The name of an entity type in deletion records.
pub open spec fn kind_label(kind: EntityKind) -> Seq<char> {
    match kind {
        EntityKind::Account => "account"@,
        EntityKind::Transaction => "transaction"@,
        EntityKind::Tag => "tag"@,
        EntityKind::Merchant => "merchant"@,
        EntityKind::Instrument => "instrument"@,
        EntityKind::Company => "company"@,
        EntityKind::Country => "country"@,
        EntityKind::User => "user"@,
        EntityKind::Reminder => "reminder"@,
        EntityKind::ReminderMarker => "reminderMarker"@,
    }
}

/// The entity type named `object`, if any.
pub open spec fn kind_named(object: Seq<char>) -> Option<EntityKind> {
    if object == kind_label(EntityKind::Account) {
        Some(EntityKind::Account)
    } else if object == kind_label(EntityKind::Transaction) {
        Some(EntityKind::Transaction)
    } else if object == kind_label(EntityKind::Tag) {
        Some(EntityKind::Tag)
    } else if object == kind_label(EntityKind::Merchant) {
        Some(EntityKind::Merchant)
    } else if object == kind_label(EntityKind::Instrument) {
        Some(EntityKind::Instrument)
    } else if object == kind_label(EntityKind::Company) {
        Some(EntityKind::Company)
    } else if object == kind_label(EntityKind::Country) {
        Some(EntityKind::Country)
    } else if object == kind_label(EntityKind::User) {
        Some(EntityKind::User)
    } else if object == kind_label(EntityKind::Reminder) {
        Some(EntityKind::Reminder)
    } else if object == kind_label(EntityKind::ReminderMarker) {
        Some(EntityKind::ReminderMarker)
    } else {
        None
    }
}

/// The name of an entity type in deletion records.
pub fn entity_type_name(kind: EntityKind) -> (r: &'static str)
    ensures
        r@ == kind_label(kind),
{
    match kind {
        EntityKind::Account => "account",
        EntityKind::Transaction => "transaction",
        EntityKind::Tag => "tag",
        EntityKind::Merchant => "merchant",
        EntityKind::Instrument => "instrument",
        EntityKind::Company => "company",
        EntityKind::Country => "country",
        EntityKind::User => "user",
        EntityKind::Reminder => "reminder",
        EntityKind::ReminderMarker => "reminderMarker",
    }
}

/// The entity type named `object`, if any.
pub fn classify(object: &str) -> (r: Option<EntityKind>)
    ensures
        r == kind_named(object@),
{
    if same_text(object, entity_type_name(EntityKind::Account)) {
        Some(EntityKind::Account)
    } else if same_text(object, entity_type_name(EntityKind::Transaction)) {
        Some(EntityKind::Transaction)
    } else if same_text(object, entity_type_name(EntityKind::Tag)) {
        Some(EntityKind::Tag)
    } else if same_text(object, entity_type_name(EntityKind::Merchant)) {
        Some(EntityKind::Merchant)
    } else if same_text(object, entity_type_name(EntityKind::Instrument)) {
        Some(EntityKind::Instrument)
    } else if same_text(object, entity_type_name(EntityKind::Company)) {
        Some(EntityKind::Company)
    } else if same_text(object, entity_type_name(EntityKind::Country)) {
        Some(EntityKind::Country)
    } else if same_text(object, entity_type_name(EntityKind::User)) {
        Some(EntityKind::User)
    } else if same_text(object, entity_type_name(EntityKind::Reminder)) {
        Some(EntityKind::Reminder)
    } else if same_text(object, entity_type_name(EntityKind::ReminderMarker)) {
        Some(EntityKind::ReminderMarker)
    } else {
        None
    }
}

/// The texts of a sequence of strings.
pub open spec fn texts(v: Seq<String>) -> Seq<Seq<char>> {
    v.map_values(|s: String| s@)
}

/// Identifiers to remove, by entity type, as mathematical values.
#[verifier::ext_equal]
pub struct GroupedIds {
    /// Account identifiers.
    pub accounts: Seq<Seq<char>>,
    /// Transaction identifiers.
    pub transactions: Seq<Seq<char>>,
    /// Tag identifiers.
    pub tags: Seq<Seq<char>>,
    /// Merchant identifiers.
    pub merchants: Seq<Seq<char>>,
    /// Instrument identifiers.
    pub instruments: Seq<i32>,
    /// Company identifiers.
    pub companies: Seq<i32>,
    /// Country identifiers.
    pub countries: Seq<i32>,
    /// User identifiers.
    pub users: Seq<i64>,
    /// Reminder identifiers.
    pub reminders: Seq<Seq<char>>,
    /// Reminder marker identifiers.
    pub reminder_markers: Seq<Seq<char>>,
}

impl GroupedIds {
    /// No identifiers at all.
    pub open spec fn empty() -> GroupedIds {
        GroupedIds {
            accounts: Seq::empty(),
            transactions: Seq::empty(),
            tags: Seq::empty(),
            merchants: Seq::empty(),
            instruments: Seq::empty(),
            companies: Seq::empty(),
            countries: Seq::empty(),
            users: Seq::empty(),
            reminders: Seq::empty(),
            reminder_markers: Seq::empty(),
        }
    }
}

/// Adds the deletion of entity `id` of type `object` to `g`: text identifiers
/// go to their group as they are; numeric ones are parsed, and a text that is
/// no number of the type's width is the error: the kind of error that parsing
/// it as the type gives. An unknown type is skipped.
pub open spec fn with_deletion(g: GroupedIds, object: Seq<char>, id: Seq<char>) -> Result<GroupedIds, IntProblem> {
    match kind_named(object) {
        None => Ok(g),
        Some(EntityKind::Account) => Ok(GroupedIds { accounts: g.accounts.push(id), ..g }),
        Some(EntityKind::Transaction) => Ok(GroupedIds { transactions: g.transactions.push(id), ..g }),
        Some(EntityKind::Tag) => Ok(GroupedIds { tags: g.tags.push(id), ..g }),
        Some(EntityKind::Merchant) => Ok(GroupedIds { merchants: g.merchants.push(id), ..g }),
        Some(EntityKind::Reminder) => Ok(GroupedIds { reminders: g.reminders.push(id), ..g }),
        Some(EntityKind::ReminderMarker) => Ok(GroupedIds { reminder_markers: g.reminder_markers.push(id), ..g }),
        Some(EntityKind::Instrument) => if decimal_in_range(id, i32::MIN as int, i32::MAX as int) {
            Ok(GroupedIds { instruments: g.instruments.push(decimal_value(id)->0 as i32), ..g })
        } else {
            Err(i32_parse_problem(id))
        },
        Some(EntityKind::Company) => if decimal_in_range(id, i32::MIN as int, i32::MAX as int) {
            Ok(GroupedIds { companies: g.companies.push(decimal_value(id)->0 as i32), ..g })
        } else {
            Err(i32_parse_problem(id))
        },
        Some(EntityKind::Country) => if decimal_in_range(id, i32::MIN as int, i32::MAX as int) {
            Ok(GroupedIds { countries: g.countries.push(decimal_value(id)->0 as i32), ..g })
        } else {
            Err(i32_parse_problem(id))
        },
        Some(EntityKind::User) => if decimal_in_range(id, i64::MIN as int, i64::MAX as int) {
            Ok(GroupedIds { users: g.users.push(decimal_value(id)->0 as i64), ..g })
        } else {
            Err(i64_parse_problem(id))
        },
    }
}

/// The grouping of the deletion records (`object`, `id`) in order; the first
/// invalid numeric identifier is the error.
pub open spec fn grouped(records: Seq<(Seq<char>, Seq<char>)>) -> Result<GroupedIds, IntProblem>
    decreases records.len(),
{
    if records.len() == 0 {
        Ok(GroupedIds::empty())
    } else {
        match grouped(records.drop_last()) {
            Err(e) => Err(e),
            Ok(g) => with_deletion(g, records.last().0, records.last().1),
        }
    }
}

/// The (`object`, `id`) texts of the deletion records of a diff response.
pub open spec fn deletion_records(response: &DiffResponse) -> Seq<(Seq<char>, Seq<char>)> {
    response.deletion@.map_values(|d: crate::models::Deletion| (d.object@, d.id@))
}

/// Once a prefix of the records fails, the whole grouping fails with the same
/// error.
pub proof fn lemma_grouped_error_persists(records: Seq<(Seq<char>, Seq<char>)>, i: int)
    requires
        0 <= i <= records.len(),
        grouped(records.take(i)) is Err,
    ensures
        grouped(records) == grouped(records.take(i)),
    decreases records.len() - i,
{
    if i < records.len() {
        assert(records.take(i + 1).drop_last() =~= records.take(i));
        lemma_grouped_error_persists(records, i + 1);
    } else {
        assert(records.take(i) =~= records);
    }
}

/// The error for an identifier text that does not parse: it carries the kind
/// `k` of the parse failure.
pub open spec fn invalid_numeric_id(e: ZenMoneyError, k: IntProblem) -> bool {
    e == ZenMoneyError::Storage(StorageFailure::InvalidNumericId(k))
}

/// Parses a numeric ID from a string; a parse failure becomes a storage error
/// that carries the kind of the failure.
pub fn parse_numeric_id<T: NumericId>(raw: &str) -> (r: Result<T, ZenMoneyError>)
    ensures
        match r {
            Ok(v) => decimal_in_range(raw@, T::lowest(), T::highest())
                && decimal_value(raw@) == Some(v.value_of()),
            Err(e) => {
                &&& !decimal_in_range(raw@, T::lowest(), T::highest())
                &&& invalid_numeric_id(e, T::parse_problem(raw@))
                &&& problem_fits(raw@, T::parse_problem(raw@), T::lowest(), T::highest())
            },
        },
{
    match T::parse_decimal(raw) {
        Ok(v) => Ok(v),
        Err(problem) => Err(ZenMoneyError::Storage(StorageFailure::InvalidNumericId(problem))),
    }
}

/// Identifiers of entities to remove, grouped by entity type.
#[derive(Clone, Debug, PartialEq)]
pub struct GroupedDeletions {
    /// Account IDs to remove.
    pub accounts: Vec<AccountId>,
    /// Transaction IDs to remove.
    pub transactions: Vec<TransactionId>,
    /// Tag IDs to remove.
    pub tags: Vec<TagId>,
    /// Merchant IDs to remove.
    pub merchants: Vec<MerchantId>,
    /// Instrument IDs to remove.
    pub instruments: Vec<InstrumentId>,
    /// Company IDs to remove.
    pub companies: Vec<CompanyId>,
    /// Country IDs to remove.
    pub countries: Vec<CountryId>,
    /// User IDs to remove.
    pub users: Vec<UserId>,
    /// Reminder IDs to remove.
    pub reminders: Vec<ReminderId>,
    /// Reminder marker IDs to remove.
    pub reminder_markers: Vec<ReminderMarkerId>,
}

impl View for GroupedDeletions {
    type V = GroupedIds;

    open spec fn view(&self) -> GroupedIds {
        GroupedIds {
            accounts: texts(self.accounts@),
            transactions: texts(self.transactions@),
            tags: texts(self.tags@),
            merchants: texts(self.merchants@),
            instruments: self.instruments@,
            companies: self.companies@,
            countries: self.countries@,
            users: self.users@,
            reminders: texts(self.reminders@),
            reminder_markers: texts(self.reminder_markers@),
        }
    }
}

/// Appends a copy of `id` to `v`.
fn push_text(v: &mut Vec<String>, id: &str)
    ensures
        texts(final(v)@) == texts(old(v)@).push(id@),
{
    v.push(id.to_owned());
    assert(texts(v@) =~= texts(old(v)@).push(id@));
}

impl GroupedDeletions {
    /// No identifiers at all.
    pub fn new() -> (r: GroupedDeletions)
        ensures
            r@ == GroupedIds::empty(),
    {
        let r = GroupedDeletions {
            accounts: Vec::new(),
            transactions: Vec::new(),
            tags: Vec::new(),
            merchants: Vec::new(),
            instruments: Vec::new(),
            companies: Vec::new(),
            countries: Vec::new(),
            users: Vec::new(),
            reminders: Vec::new(),
            reminder_markers: Vec::new(),
        };
        assert(texts(r.accounts@) =~= Seq::empty());
        assert(texts(r.transactions@) =~= Seq::empty());
        assert(texts(r.tags@) =~= Seq::empty());
        assert(texts(r.merchants@) =~= Seq::empty());
        assert(texts(r.reminders@) =~= Seq::empty());
        assert(texts(r.reminder_markers@) =~= Seq::empty());
        assert(r@ =~= GroupedIds::empty());
        r
    }

    /// Dispatches a single deletion into the appropriate ID vector. On an
    /// invalid numeric identifier nothing is added and the error is returned.
    pub fn push_deletion(&mut self, object: &str, id: &str) -> (r: Result<(), ZenMoneyError>)
        ensures
            match with_deletion(old(self)@, object@, id@) {
                Ok(g) => r is Ok && final(self)@ == g,
                Err(k) => r matches Err(e) && invalid_numeric_id(e, k) && final(self)@ == old(self)@,
            },
    {
        let ghost before = self@;
        match classify(object) {
            Some(EntityKind::Account) => {
                push_text(&mut self.accounts, id);
                assert(self@ =~= with_deletion(before, object@, id@)->Ok_0);
            },
            Some(EntityKind::Transaction) => {
                push_text(&mut self.transactions, id);
                assert(self@ =~= with_deletion(before, object@, id@)->Ok_0);
            },
            Some(EntityKind::Tag) => {
                push_text(&mut self.tags, id);
                assert(self@ =~= with_deletion(before, object@, id@)->Ok_0);
            },
            Some(EntityKind::Merchant) => {
                push_text(&mut self.merchants, id);
                assert(self@ =~= with_deletion(before, object@, id@)->Ok_0);
            },
            Some(EntityKind::Reminder) => {
                push_text(&mut self.reminders, id);
                assert(self@ =~= with_deletion(before, object@, id@)->Ok_0);
            },
            Some(EntityKind::ReminderMarker) => {
                push_text(&mut self.reminder_markers, id);
                assert(self@ =~= with_deletion(before, object@, id@)->Ok_0);
            },
            Some(EntityKind::Instrument) => {
                let v: i32 = parse_numeric_id(id)?;
                self.instruments.push(v);
                assert(self@ =~= with_deletion(before, object@, id@)->Ok_0);
            },
            Some(EntityKind::Company) => {
                let v: i32 = parse_numeric_id(id)?;
                self.companies.push(v);
                assert(self@ =~= with_deletion(before, object@, id@)->Ok_0);
            },
            Some(EntityKind::Country) => {
                let v: i32 = parse_numeric_id(id)?;
                self.countries.push(v);
                assert(self@ =~= with_deletion(before, object@, id@)->Ok_0);
            },
            Some(EntityKind::User) => {
                let v: i64 = parse_numeric_id(id)?;
                self.users.push(v);
                assert(self@ =~= with_deletion(before, object@, id@)->Ok_0);
            },
            None => {},
        }
        Ok(())
    }

    /// Groups the deletion records of a diff response by entity type, in
    /// order. The first record with an invalid numeric identifier is the
    /// error.
    pub fn from_response(response: &DiffResponse) -> (r: Result<GroupedDeletions, ZenMoneyError>)
        ensures
            match grouped(deletion_records(response)) {
                Ok(g) => r matches Ok(v) && v@ == g,
                Err(k) => r matches Err(e) && invalid_numeric_id(e, k),
            },
    {
        let ghost records = deletion_records(response);
        let mut result = GroupedDeletions::new();
        let n = response.deletion.len();
        let mut i: usize = 0;
        assert(records.take(0) =~= Seq::<(Seq<char>, Seq<char>)>::empty());
        while i < n
            invariant
                n == response.deletion@.len(),
                records == deletion_records(response),
                records.len() == n,
                i <= n,
                grouped(records.take(i as int)) == Ok::<GroupedIds, IntProblem>(result@),
            decreases n - i,
        {
            let d = &response.deletion[i];
            assert(records[i as int] == (d.object@, d.id@));
            assert(records.take(i + 1).drop_last() =~= records.take(i as int));
            let step = result.push_deletion(d.object.as_str(), d.id.as_str());
            match step {
                Ok(()) => {},
                Err(e) => {
                    proof {
                        lemma_grouped_error_persists(records, i + 1);
                    }
                    return Err(e);
                },
            }
            i = i + 1;
        }
        assert(records.take(n as int) =~= records);
        Ok(result)
    }
}

} // verus!
