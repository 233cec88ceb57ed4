//! Records identified by a key, and the two collection operations the store
//! is built on: merging a batch by key, and removing by key.

use crate::date::Date;
use crate::models::{
    Account, Budget, Company, Country, Instrument, Merchant, Reminder, ReminderMarker, Tag, TagId,
    Transaction, User, UserId,
};
use vstd::prelude::*;

verus! {

/// A record with an identity: two records with the same key are versions of
/// the same entity.
pub trait Keyed: Sized {
    /// The executable key.
    type Key: DeepView;

    /// The key of this record, as a mathematical value.
    spec fn key_of(&self) -> <Self::Key as DeepView>::V;

    /// Whether this record has the key `key`.
    fn has_key(&self, key: &Self::Key) -> (r: bool)
        ensures
            r == (self.key_of() == key.deep_view()),
    ;

    /// Whether this record and `other` have the same key.
    fn same_key(&self, other: &Self) -> (r: bool)
        ensures
            r == (self.key_of() == other.key_of()),
    ;
}

/// The records of `s` by key; where several records share a key, the last
/// one counts.
pub open spec fn key_map<T: Keyed>(s: Seq<T>) -> Map<<T::Key as DeepView>::V, T>
    decreases s.len(),
{
    if s.len() == 0 {
        Map::empty()
    } else {
        key_map(s.drop_last()).insert(s.last().key_of(), s.last())
    }
}

/// No two records of `s` share a key.
pub open spec fn keys_unique<T: Keyed>(s: Seq<T>) -> bool {
    forall|i: int, j: int| 0 <= i < j < s.len() ==> #[trigger] s[i].key_of() != #[trigger] s[j].key_of()
}

/// Whether some key of `ids` is `k`.
pub open spec fn key_listed<K: DeepView>(ids: Seq<K>, k: K::V) -> bool {
    exists|i: int| 0 <= i < ids.len() && #[trigger] ids[i].deep_view() == k
}

/// The key at position `i` of `ids` is listed in `ids`.
pub proof fn lemma_key_listed_at<K: DeepView>(ids: Seq<K>, i: int)
    requires
        0 <= i < ids.len(),
    ensures
        key_listed(ids, ids[i].deep_view()),
{
}

/// The keys listed in `ids`, as a set.
pub open spec fn listed_keys<K: DeepView>(ids: Seq<K>) -> Set<K::V> {
    Set::new(|k: K::V| key_listed(ids, k))
}

/// The records of `s` whose key is not in `keys`, in their order.
pub open spec fn without_key_set<T: Keyed>(s: Seq<T>, keys: Set<<T::Key as DeepView>::V>) -> Seq<T> {
    s.filter(|x: T| !keys.contains(x.key_of()))
}

/// The records of `s` whose key is not listed in `ids`, in their order.
pub open spec fn without_keys<T: Keyed>(s: Seq<T>, ids: Seq<T::Key>) -> Seq<T> {
    without_key_set(s, listed_keys(ids))
}

/// The keys that `key_map` has are exactly the keys of the records.
pub proof fn lemma_key_map_dom<T: Keyed>(s: Seq<T>, k: <T::Key as DeepView>::V)
    ensures
        key_map(s).dom().contains(k) <==> exists|i: int| 0 <= i < s.len() && #[trigger] s[i].key_of() == k,
        key_map(s).dom().finite(),
    decreases s.len(),
{
    if s.len() > 0 {
        lemma_key_map_dom(s.drop_last(), k);
        if key_map(s.drop_last()).dom().contains(k) {
            let i = choose|i: int| 0 <= i < s.drop_last().len() && #[trigger] s.drop_last()[i].key_of() == k;
            assert(s[i].key_of() == k);
        }
        if exists|i: int| 0 <= i < s.len() && #[trigger] s[i].key_of() == k {
            let i = choose|i: int| 0 <= i < s.len() && #[trigger] s[i].key_of() == k;
            if i < s.len() - 1 {
                assert(s.drop_last()[i].key_of() == k);
            }
        }
    }
}

/// In a sequence without shared keys, the record stored under each key is the
/// one record with that key.
pub proof fn lemma_key_map_unique_value<T: Keyed>(s: Seq<T>, i: int)
    requires
        keys_unique(s),
        0 <= i < s.len(),
    ensures
        key_map(s).dom().contains(s[i].key_of()),
        key_map(s)[s[i].key_of()] == s[i],
    decreases s.len(),
{
    lemma_key_map_dom(s, s[i].key_of());
    if i < s.len() - 1 {
        lemma_key_map_unique_value(s.drop_last(), i);
        assert(s[i].key_of() != s[s.len() - 1].key_of());
    }
}

/// A sequence without shared keys has as many records as keys.
pub proof fn lemma_key_map_len<T: Keyed>(s: Seq<T>)
    requires
        keys_unique(s),
    ensures
        key_map(s).dom().len() == s.len(),
    decreases s.len(),
{
    if s.len() > 0 {
        let d = s.drop_last();
        assert(keys_unique(d)) by {
            assert forall|i: int, j: int| 0 <= i < j < d.len() implies #[trigger] d[i].key_of()
                != #[trigger] d[j].key_of() by {
                assert(s[i].key_of() != s[j].key_of());
            }
        }
        lemma_key_map_len(d);
        lemma_key_map_dom(d, s.last().key_of());
        if key_map(d).dom().contains(s.last().key_of()) {
            let i = choose|i: int| 0 <= i < d.len() && #[trigger] d[i].key_of() == s.last().key_of();
            assert(s[i].key_of() == s[s.len() - 1].key_of());
        }
    }
}

/// Replacing, in a sequence without shared keys, the record at `j` by one with
/// the same key replaces the record stored under that key.
pub proof fn lemma_key_map_update<T: Keyed>(s: Seq<T>, j: int, x: T)
    requires
        keys_unique(s),
        0 <= j < s.len(),
        s[j].key_of() == x.key_of(),
    ensures
        key_map(s.update(j, x)) == key_map(s).insert(x.key_of(), x),
    decreases s.len(),
{
    let u = s.update(j, x);
    if j == s.len() - 1 {
        assert(u.drop_last() =~= s.drop_last());
        assert(key_map(u) =~= key_map(s).insert(x.key_of(), x));
    } else {
        let d = s.drop_last();
        assert(keys_unique(d)) by {
            assert forall|a: int, b: int| 0 <= a < b < d.len() implies #[trigger] d[a].key_of()
                != #[trigger] d[b].key_of() by {
                assert(s[a].key_of() != s[b].key_of());
            }
        }
        lemma_key_map_update(d, j, x);
        assert(u.drop_last() =~= d.update(j, x));
        assert(s[j].key_of() != s[s.len() - 1].key_of());
        assert(key_map(u) =~= key_map(s).insert(x.key_of(), x));
    }
}

/// The records of a concatenation by key: those of the second part win.
pub proof fn lemma_key_map_concat<T: Keyed>(a: Seq<T>, b: Seq<T>)
    ensures
        key_map(a + b) == key_map(a).union_prefer_right(key_map(b)),
    decreases b.len(),
{
    if b.len() == 0 {
        assert(a + b =~= a);
        assert(key_map(a).union_prefer_right(key_map(b)) =~= key_map(a));
    } else {
        lemma_key_map_concat(a, b.drop_last());
        assert((a + b).drop_last() =~= a + b.drop_last());
        assert(key_map(a + b) =~= key_map(a).union_prefer_right(key_map(b)));
    }
}

/// `s` with the record `x` put in: it replaces the record with the same key
/// where `s` has one, and is appended at the end otherwise.
pub open spec fn put<T: Keyed>(s: Seq<T>, x: T) -> Seq<T> {
    if exists|j: int| 0 <= j < s.len() && #[trigger] s[j].key_of() == x.key_of() {
        s.update(choose|j: int| 0 <= j < s.len() && #[trigger] s[j].key_of() == x.key_of(), x)
    } else {
        s.push(x)
    }
}

/// `s` with the records of `items` put in one after the other.
pub open spec fn put_all<T: Keyed>(s: Seq<T>, items: Seq<T>) -> Seq<T>
    decreases items.len(),
{
    if items.len() == 0 {
        s
    } else {
        put(put_all(s, items.drop_last()), items.last())
    }
}

/// Putting the records of a sequence without shared keys into an empty one
/// gives that sequence back.
pub proof fn lemma_put_all_unique<T: Keyed>(s: Seq<T>)
    requires
        keys_unique(s),
    ensures
        put_all(Seq::empty(), s) == s,
    decreases s.len(),
{
    if s.len() > 0 {
        let d = s.drop_last();
        assert(keys_unique(d)) by {
            assert forall|a: int, b: int| 0 <= a < b < d.len() implies #[trigger] d[a].key_of()
                != #[trigger] d[b].key_of() by {
                assert(s[a].key_of() != s[b].key_of());
            }
        }
        lemma_put_all_unique(d);
        assert forall|j: int| 0 <= j < d.len() implies #[trigger] d[j].key_of() != s.last().key_of() by {
            assert(s[j].key_of() != s[s.len() - 1].key_of());
        }
        assert(d.push(s.last()) =~= s);
    }
}

/// Under each key it has, `key_map` holds a record with that key.
pub proof fn lemma_key_map_value_key<T: Keyed>(s: Seq<T>, k: <T::Key as DeepView>::V)
    requires
        key_map(s).dom().contains(k),
    ensures
        key_map(s)[k].key_of() == k,
    decreases s.len(),
{
    if s.len() > 0 && s.last().key_of() != k {
        lemma_key_map_value_key(s.drop_last(), k);
    }
}

/// Putting one record into a sequence without shared keys keeps the keys
/// unique and puts the record under its key.
pub proof fn lemma_put_step<T: Keyed>(t: Seq<T>, x: T)
    requires
        keys_unique(t),
    ensures
        keys_unique(put(t, x)),
        key_map(put(t, x)) == key_map(t).insert(x.key_of(), x),
{
    if exists|j: int| 0 <= j < t.len() && #[trigger] t[j].key_of() == x.key_of() {
        let c = choose|j: int| 0 <= j < t.len() && #[trigger] t[j].key_of() == x.key_of();
        lemma_key_map_update(t, c, x);
        let u = t.update(c, x);
        assert forall|a: int, b: int| 0 <= a < b < u.len() implies #[trigger] u[a].key_of()
            != #[trigger] u[b].key_of() by {
            assert(t[a].key_of() != t[b].key_of());
        }
    } else {
        let u = t.push(x);
        assert(u.drop_last() =~= t);
        assert forall|a: int, b: int| 0 <= a < b < u.len() implies #[trigger] u[a].key_of()
            != #[trigger] u[b].key_of() by {
            if b < t.len() {
                assert(t[a].key_of() != t[b].key_of());
            } else {
                assert(t[a].key_of() != x.key_of());
            }
        }
    }
}

/// Putting a batch into a sequence without shared keys keeps the keys unique,
/// and by key the batch's last records win.
pub proof fn lemma_put_all_by_key<T: Keyed>(t: Seq<T>, v: Seq<T>)
    requires
        keys_unique(t),
    ensures
        keys_unique(put_all(t, v)),
        key_map(put_all(t, v)) == key_map(t).union_prefer_right(key_map(v)),
    decreases v.len(),
{
    if v.len() == 0 {
        assert(key_map(t).union_prefer_right(key_map(v)) =~= key_map(t));
    } else {
        lemma_put_all_by_key(t, v.drop_last());
        lemma_put_step(put_all(t, v.drop_last()), v.last());
        assert(key_map(put_all(t, v)) =~= key_map(t).union_prefer_right(key_map(v)));
    }
}

/// Whether some record of `t` has the key `k`.
pub open spec fn holds_key<T: Keyed>(t: Seq<T>, k: <T::Key as DeepView>::V) -> bool {
    exists|j: int| 0 <= j < t.len() && #[trigger] t[j].key_of() == k
}

/// `t` with each record whose key `m` has replaced by `m`'s record for it.
pub open spec fn overlay<T: Keyed>(t: Seq<T>, m: Map<<T::Key as DeepView>::V, T>) -> Seq<T> {
    Seq::new(
        t.len(),
        |j: int|
            if m.dom().contains(t[j].key_of()) {
                m[t[j].key_of()]
            } else {
                t[j]
            },
    )
}

/// Putting a batch whose keys all occur in a sequence without shared keys
/// replaces, in place, each record of the sequence by the batch's last record
/// with its key.
pub proof fn lemma_put_all_known_keys<T: Keyed>(t: Seq<T>, v: Seq<T>)
    requires
        keys_unique(t),
        forall|i: int| 0 <= i < v.len() ==> holds_key(t, #[trigger] v[i].key_of()),
    ensures
        put_all(t, v) == overlay(t, key_map(v)),
    decreases v.len(),
{
    if v.len() == 0 {
        assert(overlay(t, key_map(v)) =~= t);
    } else {
        let d = v.drop_last();
        let x = v.last();
        assert forall|i: int| 0 <= i < d.len() implies holds_key(t, #[trigger] d[i].key_of()) by {
            assert(d[i] == v[i]);
        }
        lemma_put_all_known_keys(t, d);
        let p = overlay(t, key_map(d));
        assert forall|j: int| 0 <= j < t.len() implies #[trigger] p[j].key_of() == t[j].key_of() by {
            if key_map(d).dom().contains(t[j].key_of()) {
                lemma_key_map_value_key(d, t[j].key_of());
            }
        }
        assert(holds_key(t, v[v.len() - 1].key_of()));
        let j0 = choose|j: int| 0 <= j < t.len() && #[trigger] t[j].key_of() == x.key_of();
        assert(p[j0].key_of() == x.key_of());
        let c = choose|j: int| 0 <= j < p.len() && #[trigger] p[j].key_of() == x.key_of();
        if c != j0 {
            assert(t[c].key_of() != t[j0].key_of());
        }
        assert(put(p, x) == p.update(j0, x));
        assert(key_map(v) == key_map(d).insert(x.key_of(), x));
        assert forall|j: int| 0 <= j < t.len() implies #[trigger] p.update(j0, x)[j] == overlay(t, key_map(v))[j] by {
            if j != j0 {
                assert(t[j].key_of() != t[j0].key_of());
            }
        }
        assert(p.update(j0, x) =~= overlay(t, key_map(v)));
    }
}

/// Whether some record of `items` has the key of `x`; if so, where.
fn find_same_key<T: Keyed>(items: &Vec<T>, x: &T) -> (r: Option<usize>)
    ensures
        match r {
            Some(j) => j < items@.len() && items@[j as int].key_of() == x.key_of(),
            None => forall|i: int| 0 <= i < items@.len() ==> #[trigger] items@[i].key_of() != x.key_of(),
        },
{
    let n = items.len();
    let mut i: usize = 0;
    while i < n
        invariant
            n == items@.len(),
            i <= n,
            forall|k: int| 0 <= k < i ==> #[trigger] items@[k].key_of() != x.key_of(),
        decreases n - i,
    {
        if items[i].same_key(x) {
            return Some(i);
        }
        i = i + 1;
    }
    None
}

/// Moves every record of `items`, in order, into `merged`: a record whose key
/// is already there replaces that record, any other is appended.
fn merge_into<T: Keyed>(merged: &mut Vec<T>, items: Vec<T>)
    requires
        keys_unique(old(merged)@),
    ensures
        final(merged)@ == put_all(old(merged)@, items@),
        keys_unique(final(merged)@),
        key_map(final(merged)@) == key_map(old(merged)@).union_prefer_right(key_map(items@)),
{
    let ghost start = merged@;
    let ghost all = items@;
    let mut rest = items;
    assert(all.len() == rest.len());
    let mut k: usize = 0;
    assert(all.take(0) =~= Seq::<T>::empty());
    assert(key_map(start).union_prefer_right(key_map(all.take(0))) =~= key_map(start));
    assert(put_all(start, all.take(0)) == start);
    while rest.len() > 0
        invariant
            k <= all.len() <= usize::MAX,
            rest@ == all.skip(k as int),
            merged@ == put_all(start, all.take(k as int)),
            keys_unique(merged@),
            key_map(merged@) == key_map(start).union_prefer_right(key_map(all.take(k as int))),
        decreases rest@.len(),
    {
        let x = rest.remove(0);
        assert(x == all[k as int]);
        assert(all.take(k + 1).drop_last() =~= all.take(k as int));
        assert(all.take(k + 1).last() == x);
        let ghost before = merged@;
        match find_same_key(merged, &x) {
            Some(j) => {
                proof {
                    lemma_key_map_update(before, j as int, x);
                    let c = choose|c: int| 0 <= c < before.len() && #[trigger] before[c].key_of() == x.key_of();
                    if c != j as int {
                        assert(before[c].key_of() != before[j as int].key_of());
                    }
                }
                merged[j] = x;
                assert(merged@ == before.update(j as int, x));
                assert forall|a: int, b: int| 0 <= a < b < merged@.len() implies #[trigger] merged@[a].key_of()
                    != #[trigger] merged@[b].key_of() by {
                    assert(before[a].key_of() != before[b].key_of());
                }
            },
            None => {
                merged.push(x);
                assert(merged@.drop_last() =~= before);
                assert forall|a: int, b: int| 0 <= a < b < merged@.len() implies #[trigger] merged@[a].key_of()
                    != #[trigger] merged@[b].key_of() by {
                    if b < before.len() {
                        assert(before[a].key_of() != before[b].key_of());
                    } else {
                        assert(before[a].key_of() != x.key_of());
                    }
                }
            },
        }
        assert(key_map(merged@) =~= key_map(start).union_prefer_right(key_map(all.take(k + 1))));
        assert(rest@ =~= all.skip(k + 1));
        k = k + 1;
    }
    assert(all.take(k as int) =~= all);
}

/// Merges `new_items` into `existing` by key, replacing duplicates: a record
/// whose key is already there replaces that record in its place, any other is
/// appended, in the order given. Afterwards `existing` holds one record per key
/// of the two, and under each key the last record given for it (a record of
/// `new_items` over one of `existing`).
pub fn upsert_by_key<T: Keyed>(existing: &mut Vec<T>, new_items: Vec<T>)
    ensures
        final(existing)@ == put_all(put_all(Seq::empty(), old(existing)@), new_items@),
        keys_unique(old(existing)@) ==> final(existing)@ == put_all(old(existing)@, new_items@),
        keys_unique(final(existing)@),
        key_map(final(existing)@) == key_map(old(existing)@).union_prefer_right(key_map(new_items@)),
{
    let mut merged: Vec<T> = Vec::new();
    let mut current: Vec<T> = Vec::new();
    std::mem::swap(existing, &mut current);
    let ghost before = current@;
    assert(key_map(merged@) =~= Map::<<T::Key as DeepView>::V, T>::empty());
    merge_into(&mut merged, current);
    assert(key_map(Seq::<T>::empty()).union_prefer_right(key_map(before)) =~= key_map(before));
    merge_into(&mut merged, new_items);
    proof {
        if keys_unique(before) {
            lemma_put_all_unique(before);
        }
    }
    *existing = merged;
}

/// Whether the key of `x` is one of `ids`.
fn is_listed<T: Keyed>(x: &T, ids: &[T::Key]) -> (r: bool)
    ensures
        r == key_listed(ids@, x.key_of()),
{
    let n = ids.len();
    let mut i: usize = 0;
    while i < n
        invariant
            n == ids@.len(),
            i <= n,
            forall|k: int| 0 <= k < i ==> #[trigger] ids@[k].deep_view() != x.key_of(),
        decreases n - i,
    {
        if x.has_key(&ids[i]) {
            return true;
        }
        i = i + 1;
    }
    false
}

/// Removes the records whose key is one of `ids`; the others keep their order.
pub fn remove_by_key<T: Keyed>(existing: &mut Vec<T>, ids: &[T::Key])
    ensures
        final(existing)@ == without_keys(old(existing)@, ids@),
{
    let mut rest: Vec<T> = Vec::new();
    std::mem::swap(existing, &mut rest);
    let ghost all = rest@;
    assert(all.len() == rest.len());
    let ghost keep = |x: T| !listed_keys(ids@).contains(x.key_of());
    let mut k: usize = 0;
    assert(all.take(0).filter(keep) =~= Seq::<T>::empty()) by {
        reveal(Seq::filter);
    }
    while rest.len() > 0
        invariant
            k <= all.len() <= usize::MAX,
            rest@ == all.skip(k as int),
            existing@ == all.take(k as int).filter(keep),
            keep == (|x: T| !listed_keys(ids@).contains(x.key_of())),
        decreases rest@.len(),
    {
        let x = rest.remove(0);
        assert(x == all[k as int]);
        assert(all.take(k + 1) =~= all.take(k as int).push(x));
        proof {
            all.take(k as int).lemma_filter_push(x, keep);
        }
        if !is_listed(&x, ids) {
            existing.push(x);
        }
        assert(rest@ =~= all.skip(k + 1));
        k = k + 1;
    }
    assert(all.take(k as int) =~= all);
}

/// Removing the records with keys in `keys` leaves no record with such a key,
/// and keeps every record whose key is not in `keys`.
pub proof fn lemma_without_key_set_contents<T: Keyed>(s: Seq<T>, keys: Set<<T::Key as DeepView>::V>, x: T)
    ensures
        without_key_set(s, keys).contains(x) <==> (s.contains(x) && !keys.contains(x.key_of())),
{
    let keep = |y: T| !keys.contains(y.key_of());
    if without_key_set(s, keys).contains(x) {
        let i = choose|i: int| 0 <= i < s.filter(keep).len() && s.filter(keep)[i] == x;
        s.lemma_filter_pred(keep, i);
        s.lemma_filter_contains_rev(keep, x);
    }
    if s.contains(x) && !keys.contains(x.key_of()) {
        let i = choose|i: int| 0 <= i < s.len() && s[i] == x;
        s.lemma_filter_contains(keep, i);
    }
}

/// Removing by key from a sequence without shared keys keeps the keys unique.
pub proof fn lemma_without_key_set_unique<T: Keyed>(s: Seq<T>, keys: Set<<T::Key as DeepView>::V>)
    requires
        keys_unique(s),
    ensures
        keys_unique(without_key_set(s, keys)),
    decreases s.len(),
{
    reveal(Seq::filter);
    let keep = |y: T| !keys.contains(y.key_of());
    if s.len() > 0 {
        let d = s.drop_last();
        assert(keys_unique(d)) by {
            assert forall|a: int, b: int| 0 <= a < b < d.len() implies #[trigger] d[a].key_of()
                != #[trigger] d[b].key_of() by {
                assert(s[a].key_of() != s[b].key_of());
            }
        }
        lemma_without_key_set_unique(d, keys);
        let f = d.filter(keep);
        if keep(s.last()) {
            assert forall|a: int, b: int| 0 <= a < b < f.push(s.last()).len() implies #[trigger] f.push(s.last())[a].key_of()
                != #[trigger] f.push(s.last())[b].key_of() by {
                if b == f.len() {
                    assert(f.contains(f[a]));
                    lemma_without_key_set_contents(d, keys, f[a]);
                    let i = choose|i: int| 0 <= i < d.len() && d[i] == f[a];
                    assert(s[i].key_of() != s[s.len() - 1].key_of());
                }
            }
        }
    }
}

/// Removing by key from a sequence without shared keys removes exactly those
/// keys from the records by key.
pub proof fn lemma_key_map_without_key_set<T: Keyed>(s: Seq<T>, keys: Set<<T::Key as DeepView>::V>)
    requires
        keys_unique(s),
    ensures
        key_map(without_key_set(s, keys)) == key_map(s).remove_keys(keys),
{
    let f = without_key_set(s, keys);
    lemma_without_key_set_unique(s, keys);
    assert forall|k: <T::Key as DeepView>::V| #[trigger] key_map(f).dom().contains(k) <==> key_map(s).remove_keys(keys).dom().contains(k) by {
        lemma_key_map_dom(f, k);
        lemma_key_map_dom(s, k);
        if key_map(f).dom().contains(k) {
            let i = choose|i: int| 0 <= i < f.len() && #[trigger] f[i].key_of() == k;
            assert(f.contains(f[i]));
            lemma_without_key_set_contents(s, keys, f[i]);
            let j = choose|j: int| 0 <= j < s.len() && s[j] == f[i];
            assert(s[j].key_of() == k);
        }
        if key_map(s).remove_keys(keys).dom().contains(k) {
            let j = choose|j: int| 0 <= j < s.len() && #[trigger] s[j].key_of() == k;
            assert(s.contains(s[j]));
            lemma_without_key_set_contents(s, keys, s[j]);
            let i = choose|i: int| 0 <= i < f.len() && f[i] == s[j];
            assert(f[i].key_of() == k);
        }
    }
    assert forall|k: <T::Key as DeepView>::V| #[trigger] key_map(f).dom().contains(k) implies key_map(f)[k] == key_map(s).remove_keys(keys)[k] by {
        lemma_key_map_dom(f, k);
        let i = choose|i: int| 0 <= i < f.len() && #[trigger] f[i].key_of() == k;
        lemma_key_map_unique_value(f, i);
        assert(f.contains(f[i]));
        lemma_without_key_set_contents(s, keys, f[i]);
        let j = choose|j: int| 0 <= j < s.len() && s[j] == f[i];
        lemma_key_map_unique_value(s, j);
    }
    assert(key_map(f) =~= key_map(s).remove_keys(keys));
}

impl DeepView for Date {
    type V = (int, int, int);

    open spec fn deep_view(&self) -> (int, int, int) {
        self@
    }
}

impl Keyed for Account {
    type Key = String;

    open spec fn key_of(&self) -> Seq<char> {
        self.id@
    }

    fn has_key(&self, key: &String) -> (r: bool) {
        self.id == *key
    }

    fn same_key(&self, other: &Self) -> (r: bool) {
        self.id == other.id
    }
}

impl Keyed for Transaction {
    type Key = String;

    open spec fn key_of(&self) -> Seq<char> {
        self.id@
    }

    fn has_key(&self, key: &String) -> (r: bool) {
        self.id == *key
    }

    fn same_key(&self, other: &Self) -> (r: bool) {
        self.id == other.id
    }
}

impl Keyed for Tag {
    type Key = String;

    open spec fn key_of(&self) -> Seq<char> {
        self.id@
    }

    fn has_key(&self, key: &String) -> (r: bool) {
        self.id == *key
    }

    fn same_key(&self, other: &Self) -> (r: bool) {
        self.id == other.id
    }
}

impl Keyed for Merchant {
    type Key = String;

    open spec fn key_of(&self) -> Seq<char> {
        self.id@
    }

    fn has_key(&self, key: &String) -> (r: bool) {
        self.id == *key
    }

    fn same_key(&self, other: &Self) -> (r: bool) {
        self.id == other.id
    }
}

impl Keyed for Reminder {
    type Key = String;

    open spec fn key_of(&self) -> Seq<char> {
        self.id@
    }

    fn has_key(&self, key: &String) -> (r: bool) {
        self.id == *key
    }

    fn same_key(&self, other: &Self) -> (r: bool) {
        self.id == other.id
    }
}

impl Keyed for ReminderMarker {
    type Key = String;

    open spec fn key_of(&self) -> Seq<char> {
        self.id@
    }

    fn has_key(&self, key: &String) -> (r: bool) {
        self.id == *key
    }

    fn same_key(&self, other: &Self) -> (r: bool) {
        self.id == other.id
    }
}

impl Keyed for Instrument {
    type Key = i32;

    open spec fn key_of(&self) -> i32 {
        self.id
    }

    fn has_key(&self, key: &i32) -> (r: bool) {
        self.id == *key
    }

    fn same_key(&self, other: &Self) -> (r: bool) {
        self.id == other.id
    }
}

impl Keyed for Company {
    type Key = i32;

    open spec fn key_of(&self) -> i32 {
        self.id
    }

    fn has_key(&self, key: &i32) -> (r: bool) {
        self.id == *key
    }

    fn same_key(&self, other: &Self) -> (r: bool) {
        self.id == other.id
    }
}

impl Keyed for Country {
    type Key = i32;

    open spec fn key_of(&self) -> i32 {
        self.id
    }

    fn has_key(&self, key: &i32) -> (r: bool) {
        self.id == *key
    }

    fn same_key(&self, other: &Self) -> (r: bool) {
        self.id == other.id
    }
}

impl Keyed for User {
    type Key = i64;

    open spec fn key_of(&self) -> i64 {
        self.id
    }

    fn has_key(&self, key: &i64) -> (r: bool) {
        self.id == *key
    }

    fn same_key(&self, other: &Self) -> (r: bool) {
        self.id == other.id
    }
}

/// The composite key of a budget: its user, its tag and its month.
pub type BudgetKey = (UserId, Option<TagId>, Date);

/// The composite key of a budget, as a mathematical value.
pub open spec fn budget_key_view(b: &Budget) -> (i64, Option<Seq<char>>, (int, int, int)) {
    (b.user, match b.tag { Some(t) => Some(t@), None => None }, b.date@)
}

/// Extracts the budget composite key.
pub fn budget_key(budget: &Budget) -> (r: BudgetKey)
    ensures
        r.deep_view() == budget_key_view(budget),
{
    let tag = match &budget.tag {
        Some(t) => Some(t.clone()),
        None => None,
    };
    (budget.user, tag, budget.date)
}

/// Whether two optional tags are the same text (or both absent).
fn same_optional_tag(a: &Option<TagId>, b: &Option<TagId>) -> (r: bool)
    ensures
        r == (a.deep_view() == b.deep_view()),
{
    match (a, b) {
        (Some(x), Some(y)) => *x == *y,
        (None, None) => true,
        _ => false,
    }
}

impl Keyed for Budget {
    type Key = BudgetKey;

    open spec fn key_of(&self) -> (i64, Option<Seq<char>>, (int, int, int)) {
        budget_key_view(self)
    }

    fn has_key(&self, key: &BudgetKey) -> (r: bool) {
        let same_user = self.user == key.0;
        let same_tag = same_optional_tag(&self.tag, &key.1);
        let same_date = self.date.same_day(&key.2);
        assert(key.deep_view() == (key.0, key.1.deep_view(), key.2.deep_view()));
        assert(self.tag.deep_view() == budget_key_view(self).1);
        same_user && same_tag && same_date
    }

    fn same_key(&self, other: &Self) -> (r: bool) {
        self.user == other.user && same_optional_tag(&self.tag, &other.tag) && self.date.same_day(
            &other.date,
        )
    }
}

} // verus!
