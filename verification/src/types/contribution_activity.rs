//! The ledger of contributions per day.

use crate::date::{lemma_day_number_range, Date, MAX_DAY_NUMBER, MIN_DAY_NUMBER};
use std::collections::BTreeMap;
use vstd::prelude::*;
use vstd::set_lib::lemma_map_size;
use vstd::std_specs::btree::spec_btree_map_iter;
use vstd::std_specs::cmp::OrdSpec;
use vstd::std_specs::iter::IteratorSpec;

verus! {

/// Contributions per day: for each day that has an entry, the number of
/// contributions made on it. A day is named by its
/// [day number](Date::day_number).
///
/// The counts of one ledger add up to no more than `usize::MAX`.
#[derive(PartialEq, Eq, Debug)]
pub struct ContributionActivity(BTreeMap<i32, usize>);

/// The ledger that a stored map stands for.
pub open spec fn ledger_of(stored: Map<i32, usize>) -> Map<int, nat> {
    Map::new(
        |day: int| i32::MIN <= day <= i32::MAX && stored.contains_key(day as i32),
        |day: int| stored[day as i32] as nat,
    )
}

impl View for ContributionActivity {
    type V = Map<int, nat>;

    /// The ledger as a map from day numbers to counts.
    closed spec fn view(&self) -> Map<int, nat> {
        ledger_of(self.0@)
    }
}

/// The sum of all counts of a finite ledger.
pub open spec fn total_of(counts: Map<int, nat>) -> nat
    decreases counts.dom().len(),
    when counts.dom().finite()
{
    if counts.dom().len() == 0 {
        0
    } else {
        let day = counts.dom().choose();
        counts[day] + total_of(counts.remove(day))
    }
}

/// The count that a ledger holds for a day, 0 where it holds none.
pub open spec fn count_or_zero(counts: Map<int, nat>, day: int) -> nat {
    if counts.contains_key(day) {
        counts[day]
    } else {
        0
    }
}

/// The ledger that holds, for every day that either of two ledgers knows,
/// the sum of their counts for that day.
pub open spec fn merge_counts(a: Map<int, nat>, b: Map<int, nat>) -> Map<int, nat> {
    Map::new(
        |day: int| a.contains_key(day) || b.contains_key(day),
        |day: int| count_or_zero(a, day) + count_or_zero(b, day),
    )
}

/// The sum of a ledger is the count of any one of its days plus the sum of
/// the rest.
pub proof fn lemma_total_remove(counts: Map<int, nat>, day: int)
    requires
        counts.dom().finite(),
        counts.contains_key(day),
    ensures
        total_of(counts) == counts[day] + total_of(counts.remove(day)),
    decreases counts.dom().len(),
{
    let chosen = counts.dom().choose();
    if chosen != day {
        lemma_total_remove(counts.remove(chosen), day);
        lemma_total_remove(counts.remove(day), chosen);
        assert(counts.remove(chosen).remove(day) =~= counts.remove(day).remove(chosen));
    }
}

/// Setting the count of a day changes the sum by the difference to the
/// count that the day had.
pub proof fn lemma_total_insert(counts: Map<int, nat>, day: int, count: nat)
    requires
        counts.dom().finite(),
    ensures
        total_of(counts.insert(day, count)) + count_or_zero(counts, day) == total_of(counts)
            + count,
{
    let after = counts.insert(day, count);
    lemma_total_remove(after, day);
    if counts.contains_key(day) {
        lemma_total_remove(counts, day);
        assert(after.remove(day) =~= counts.remove(day));
    } else {
        assert(after.remove(day) =~= counts);
    }
}

/// The ledger that a list of days and counts gives when it is read from
/// first to last and a later entry for a day replaces an earlier one.
pub open spec fn ledger_of_entries(entries: Seq<(int, nat)>) -> Map<int, nat>
    decreases entries.len(),
{
    if entries.len() == 0 {
        Map::empty()
    } else {
        ledger_of_entries(entries.drop_last()).insert(entries.last().0, entries.last().1)
    }
}

/// The days and counts of a list of dates and counts.
pub open spec fn numbered(entries: Seq<(Date, usize)>) -> Seq<(int, nat)> {
    Seq::new(entries.len(), |i: int| (entries[i].0.day_number(), entries[i].1 as nat))
}

/// Merging is commutative.
pub proof fn lemma_merge_commutative(a: Map<int, nat>, b: Map<int, nat>)
    ensures
        merge_counts(a, b) == merge_counts(b, a),
{
    assert(merge_counts(a, b) =~= merge_counts(b, a));
}

/// Merging is associative.
pub proof fn lemma_merge_associative(a: Map<int, nat>, b: Map<int, nat>, c: Map<int, nat>)
    ensures
        merge_counts(merge_counts(a, b), c) == merge_counts(a, merge_counts(b, c)),
{
    assert(merge_counts(merge_counts(a, b), c) =~= merge_counts(a, merge_counts(b, c)));
}

/// The empty ledger is the identity of merging.
pub proof fn lemma_merge_empty(a: Map<int, nat>)
    ensures
        merge_counts(a, Map::empty()) == a,
        merge_counts(Map::empty(), a) == a,
{
    assert(merge_counts(a, Map::empty()) =~= a);
    assert(merge_counts(Map::empty(), a) =~= a);
}

/// The sum of a merged ledger is the sum of the sums.
pub proof fn lemma_merge_total(a: Map<int, nat>, b: Map<int, nat>)
    requires
        a.dom().finite(),
        b.dom().finite(),
    ensures
        merge_counts(a, b).dom().finite(),
        total_of(merge_counts(a, b)) == total_of(a) + total_of(b),
    decreases b.dom().len(),
{
    if b.dom().len() == 0 {
        assert(merge_counts(a, b) =~= a);
    } else {
        let day = b.dom().choose();
        let rest = b.remove(day);
        lemma_merge_total(a, rest);
        let merged = merge_counts(a, rest);
        lemma_total_insert(merged, day, count_or_zero(a, day) + b[day]);
        assert(merge_counts(a, b) =~= merged.insert(day, count_or_zero(a, day) + b[day]));
        lemma_total_remove(b, day);
    }
}

/// The keys that a stored map is walked in rise.
proof fn lemma_increasing_keys(keys: Seq<i32>)
    requires
        vstd::std_specs::btree::increasing_seq(keys),
    ensures
        forall|i: int, j: int| 0 <= i < j < keys.len() ==> keys[i] < keys[j],
{
    broadcast use vstd::laws_cmp::group_laws_cmp;

    vstd::std_specs::btree::axiom_increasing_seq_meaning(keys);
    assert forall|i: int, j: int| 0 <= i < j < keys.len() implies keys[i] < keys[j] by {
        assert(keys[i].cmp_spec(&keys[j]) is Less);
    }
}

/// A stored map stands for a finite ledger with as many days as it has keys.
proof fn lemma_ledger_of(stored: Map<i32, usize>)
    requires
        stored.dom().finite(),
    ensures
        ledger_of(stored).dom().finite(),
        ledger_of(stored).dom().len() == stored.dom().len(),
{
    let widen = |key: i32| key as int;
    assert(stored.dom().map(widen) =~= ledger_of(stored).dom()) by {
        assert forall|day: int| ledger_of(stored).dom().contains(day) implies stored.dom().map(
            widen,
        ).contains(day) by {
            assert(stored.dom().contains(day as i32) && widen(day as i32) == day);
        }
    }
    lemma_map_size(stored.dom(), ledger_of(stored).dom(), widen);
}

/// Every ledger has finitely many days.
pub proof fn lemma_view_finite(activity: ContributionActivity)
    ensures
        activity@.dom().finite(),
{
    lemma_ledger_of(activity.0@);
}

/// Storing a count for a key sets the count of that day in the ledger.
proof fn lemma_ledger_of_insert(stored: Map<i32, usize>, key: i32, count: usize)
    ensures
        ledger_of(stored.insert(key, count)) == ledger_of(stored).insert(key as int, count as nat),
{
    assert(ledger_of(stored.insert(key, count)) =~= ledger_of(stored).insert(
        key as int,
        count as nat,
    ));
}

impl ContributionActivity {
    #[verifier::type_invariant]
    spec fn well_formed(&self) -> bool {
        &&& total_of(self@) <= usize::MAX
        &&& forall|key: i32| #[trigger]
            self.0@.contains_key(key) ==> MIN_DAY_NUMBER <= key <= MAX_DAY_NUMBER
    }

    /// The ledger without a day.
    pub fn new() -> (activity: Self)
        ensures
            activity@ == Map::<int, nat>::empty(),
    {
        let counts: BTreeMap<i32, usize> = BTreeMap::new();
        proof {
            assert(ledger_of(counts@) =~= Map::<int, nat>::empty());
        }
        ContributionActivity(counts)
    }

    /// The count of a day, if the ledger has an entry for it.
    pub fn get(&self, date: &Date) -> (count: Option<usize>)
        requires
            date.valid(),
        ensures
            count is Some <==> self@.contains_key(date.day_number()),
            count is Some ==> count->0 == self@[date.day_number()],
    {
        let key = date.num_days_from_ce();
        match self.0.get(&key) {
            Some(count) => Some(*count),
            None => None,
        }
    }

    /// The number of days that have an entry.
    pub fn active_days(&self) -> (days: usize)
        ensures
            self@.dom().finite(),
            days == self@.dom().len(),
    {
        proof {
            lemma_ledger_of(self.0@);
        }
        self.0.len()
    }

    /// The sum of the counts of all days.
    pub fn contribution_count(&self) -> (total: usize)
        ensures
            self@.dom().finite(),
            total == total_of(self@),
    {
        proof {
            use_type_invariant(self);
            lemma_ledger_of(self.0@);
        }
        let ghost entries = spec_btree_map_iter(&self.0).remaining();
        let ghost rest = self@;
        let mut total: usize = 0;
        for entry in walk: self.0.iter()
            invariant
                walk.seq() == entries,
                entries == spec_btree_map_iter(&self.0).remaining(),
                entries.no_duplicates(),
                self@ == ledger_of(self.0@),
                rest.dom().finite(),
                total + total_of(rest) == total_of(self@),
                total_of(self@) <= usize::MAX,
                forall|day: int| #[trigger]
                    rest.contains_key(day) ==> self@.contains_key(day) && rest[day] == self@[day],
                forall|i: int|
                    walk.index() <= i < entries.len() ==> rest.contains_key(
                        *(#[trigger] entries[i]).0 as int,
                    ),
                forall|day: int| #[trigger]
                    rest.contains_key(day) ==> exists|i: int|
                        walk.index() <= i < entries.len() && *(#[trigger] entries[i]).0 == day,
        {
            let (key, count) = entry;
            proof {
                let at = walk.index();
                assert(entries[at] == entry);
                assert(self.0@.contains_key(*key) && self.0@[*key] == *count);
                lemma_total_remove(rest, *key as int);
                assert forall|i: int| walk.index() < i < entries.len() implies rest.remove(
                    *key as int,
                ).contains_key(*(#[trigger] entries[i]).0 as int) by {
                    if *entries[i].0 == *key {
                        assert(entries[i] == entries[at]);
                    }
                }
                rest = rest.remove(*key as int);
            }
            total = total + *count;
        }
        proof {
            if rest.dom().len() > 0 {
                assert(rest.contains_key(rest.dom().choose()));
            }
        }
        total
    }

    /// The ledger of a list of dates and counts, in which a later entry for
    /// a day replaces an earlier one; `None` where its counts add up to
    /// more than `usize::MAX`.
    pub fn from_entries(entries: &Vec<(Date, usize)>) -> (activity: Option<Self>)
        requires
            forall|i: int| 0 <= i < entries.len() ==> (#[trigger] entries[i]).0.valid(),
        ensures
            activity is Some <==> total_of(ledger_of_entries(numbered(entries@))) <= usize::MAX,
            activity is Some ==> activity->0@ == ledger_of_entries(numbered(entries@)),
    {
        let ghost list = numbered(entries@);
        let mut counts: BTreeMap<i32, usize> = BTreeMap::new();
        let mut i: usize = 0;
        proof {
            assert(ledger_of(counts@) =~= Map::<int, nat>::empty());
            assert(list.take(0) =~= Seq::<(int, nat)>::empty());
        }
        while i < entries.len()
            invariant
                i <= entries.len(),
                list == numbered(entries@),
                forall|i: int| 0 <= i < entries.len() ==> (#[trigger] entries[i]).0.valid(),
                ledger_of(counts@) == ledger_of_entries(list.take(i as int)),
                forall|key: i32| #[trigger]
                    counts@.contains_key(key) ==> MIN_DAY_NUMBER <= key <= MAX_DAY_NUMBER,
            decreases entries.len() - i,
        {
            let date = &entries[i].0;
            let count = entries[i].1;
            proof {
                lemma_day_number_range(*date);
                assert(list.take(i + 1).drop_last() =~= list.take(i as int));
                assert(list.take(i + 1).last() == (date.day_number(), count as nat));
            }
            let key = date.num_days_from_ce();
            proof {
                lemma_ledger_of_insert(counts@, key, count);
            }
            counts.insert(key, count);
            i += 1;
        }
        proof {
            assert(list.take(i as int) =~= list);
            lemma_ledger_of(counts@);
        }
        let ghost full = ledger_of(counts@);
        let ghost stored = spec_btree_map_iter(&counts).remaining();
        let ghost rest = full;
        let mut total: usize = 0;
        for entry in walk: counts.iter()
            invariant
                walk.seq() == stored,
                stored == spec_btree_map_iter(&counts).remaining(),
                stored.no_duplicates(),
                list == numbered(entries@),
                full == ledger_of(counts@),
                full == ledger_of_entries(list),
                full.dom().finite(),
                rest.dom().finite(),
                total + total_of(rest) == total_of(full),
                forall|key: i32| #[trigger]
                    counts@.contains_key(key) ==> MIN_DAY_NUMBER <= key <= MAX_DAY_NUMBER,
                forall|day: int| #[trigger]
                    rest.contains_key(day) ==> full.contains_key(day) && rest[day] == full[day],
                forall|i: int|
                    walk.index() <= i < stored.len() ==> rest.contains_key(
                        *(#[trigger] stored[i]).0 as int,
                    ),
                forall|day: int| #[trigger]
                    rest.contains_key(day) ==> exists|i: int|
                        walk.index() <= i < stored.len() && *(#[trigger] stored[i]).0 == day,
        {
            let (key, count) = entry;
            proof {
                let at = walk.index();
                assert(stored[at] == entry);
                assert(counts@.contains_key(*key) && counts@[*key] == *count);
                lemma_total_remove(rest, *key as int);
                assert forall|i: int| walk.index() < i < stored.len() implies rest.remove(
                    *key as int,
                ).contains_key(*(#[trigger] stored[i]).0 as int) by {
                    if *stored[i].0 == *key {
                        assert(stored[i] == stored[at]);
                    }
                }
                rest = rest.remove(*key as int);
            }
            match total.checked_add(*count) {
                Some(sum) => {
                    total = sum;
                },
                None => {
                    return None;
                },
            }
        }
        proof {
            if rest.dom().len() > 0 {
                assert(rest.contains_key(rest.dom().choose()));
            }
        }
        Some(ContributionActivity(counts))
    }

    /// The days that have an entry, by their numbers and in rising order,
    /// each with its count.
    pub fn entries(&self) -> (list: Vec<(i32, usize)>)
        ensures
            list@.len() == self@.dom().len(),
            forall|i: int|
                0 <= i < list.len() ==> self@.contains_key((#[trigger] list[i]).0 as int)
                    && self@[list[i].0 as int] == list[i].1,
            forall|i: int, j: int|
                0 <= i < j < list.len() ==> (#[trigger] list[i]).0 < (#[trigger] list[j]).0,
    {
        proof {
            lemma_ledger_of(self.0@);
        }
        let ghost stored = spec_btree_map_iter(&self.0).remaining();
        let ghost keys = stored.map_values(|entry: (&i32, &usize)| *entry.0);
        let mut list: Vec<(i32, usize)> = Vec::new();
        for entry in walk: self.0.iter()
            invariant
                walk.seq() == stored,
                stored == spec_btree_map_iter(&self.0).remaining(),
                keys == stored.map_values(|entry: (&i32, &usize)| *entry.0),
                vstd::std_specs::btree::increasing_seq(keys),
                self@ == ledger_of(self.0@),
                list.len() == walk.index(),
                forall|i: int|
                    0 <= i < list.len() ==> (#[trigger] list[i]).0 == *stored[i].0 && list[i].1
                        == *stored[i].1,
        {
            let (key, count) = entry;
            list.push((*key, *count));
        }
        proof {
            lemma_increasing_keys(keys);
            assert forall|i: int, j: int| 0 <= i < j < list.len() implies (#[trigger] list[i]).0 < (
            #[trigger] list[j]).0 by {
                assert(keys[i] == list[i].0 && keys[j] == list[j].0);
            }
        }
        list
    }

    /// Adds `count` contributions to the day with the given number.
    fn add_to_day(&mut self, key: i32, count: usize)
        requires
            MIN_DAY_NUMBER <= key <= MAX_DAY_NUMBER,
            total_of(old(self)@) + count <= usize::MAX,
        ensures
            final(self)@ == old(self)@.insert(
                key as int,
                (count_or_zero(old(self)@, key as int) + count) as nat,
            ),
            final(self)@.dom().finite(),
            total_of(final(self)@) == total_of(old(self)@) + count,
    {
        proof {
            use_type_invariant(&*self);
            lemma_ledger_of(self.0@);
        }
        let before: usize = match self.0.get(&key) {
            Some(held) => *held,
            None => 0,
        };
        proof {
            if self@.contains_key(key as int) {
                lemma_total_remove(self@, key as int);
            }
            lemma_total_insert(self@, key as int, (before + count) as nat);
            lemma_ledger_of_insert(self.0@, key, (before + count) as usize);
        }
        let mut taken = ContributionActivity::new();
        core::mem::swap(self, &mut taken);
        let ContributionActivity(mut counts) = taken;
        counts.insert(key, before + count);
        *self = ContributionActivity(counts);
    }

    /// Adds `count` contributions to a day, which gets an entry if it has
    /// none yet.
    pub fn add_contributions(&mut self, date: &Date, count: usize)
        requires
            date.valid(),
            total_of(old(self)@) + count <= usize::MAX,
        ensures
            final(self)@ == old(self)@.insert(
                date.day_number(),
                (count_or_zero(old(self)@, date.day_number()) + count) as nat,
            ),
            final(self)@.dom().finite(),
            total_of(final(self)@) == total_of(old(self)@) + count,
    {
        proof {
            lemma_day_number_range(*date);
        }
        self.add_to_day(date.num_days_from_ce(), count);
    }

    /// The ledger that holds, for every day that `self` or `other` has an
    /// entry for, the sum of their counts for that day.
    pub fn merge(self, other: Self) -> (merged: Self)
        requires
            total_of(self@) + total_of(other@) <= usize::MAX,
        ensures
            merged@ == merge_counts(self@, other@),
    {
        let mut merged = self;
        merged.combine(other);
        merged
    }

    /// Adds every count of `other` to the count that `self` has for that day.
    pub fn combine(&mut self, other: Self)
        requires
            total_of(old(self)@) + total_of(other@) <= usize::MAX,
        ensures
            final(self)@ == merge_counts(old(self)@, other@),
    {
        proof {
            use_type_invariant(&*self);
            use_type_invariant(&other);
            lemma_ledger_of(self.0@);
            lemma_ledger_of(other.0@);
        }
        let ghost start = self@;
        let ghost entries = spec_btree_map_iter(&other.0).remaining();
        let ghost added = Map::<int, nat>::empty();
        let ghost rest = other@;
        proof {
            assert(merge_counts(start, added) =~= start);
        }
        for entry in walk: other.0.iter()
            invariant
                walk.seq() == entries,
                entries == spec_btree_map_iter(&other.0).remaining(),
                entries.no_duplicates(),
                other@ == ledger_of(other.0@),
                forall|key: i32| #[trigger]
                    other.0@.contains_key(key) ==> MIN_DAY_NUMBER <= key <= MAX_DAY_NUMBER,
                start.dom().finite(),
                added.dom().finite(),
                rest.dom().finite(),
                self@ == merge_counts(start, added),
                total_of(self@) == total_of(start) + total_of(added),
                total_of(added) + total_of(rest) == total_of(other@),
                total_of(start) + total_of(other@) <= usize::MAX,
                forall|day: int| #[trigger]
                    rest.contains_key(day) ==> other@.contains_key(day) && rest[day] == other@[day]
                        && !added.contains_key(day),
                forall|day: int| #[trigger]
                    added.contains_key(day) ==> other@.contains_key(day) && added[day]
                        == other@[day],
                forall|day: int| #[trigger]
                    other@.contains_key(day) ==> rest.contains_key(day) || added.contains_key(day),
                forall|i: int|
                    walk.index() <= i < entries.len() ==> rest.contains_key(
                        *(#[trigger] entries[i]).0 as int,
                    ),
                forall|day: int| #[trigger]
                    rest.contains_key(day) ==> exists|i: int|
                        walk.index() <= i < entries.len() && *(#[trigger] entries[i]).0 == day,
        {
            let (key, count) = entry;
            proof {
                let at = walk.index();
                assert(entries[at] == entry);
                assert(other.0@.contains_key(*key) && other.0@[*key] == *count);
                lemma_total_remove(rest, *key as int);
                lemma_total_insert(added, *key as int, *count as nat);
                assert forall|i: int| walk.index() < i < entries.len() implies rest.remove(
                    *key as int,
                ).contains_key(*(#[trigger] entries[i]).0 as int) by {
                    if *entries[i].0 == *key {
                        assert(entries[i] == entries[at]);
                    }
                }
            }
            self.add_to_day(*key, *count);
            proof {
                assert(self@ =~= merge_counts(start, added.insert(*key as int, *count as nat)));
                rest = rest.remove(*key as int);
                added = added.insert(*key as int, *count as nat);
            }
        }
        proof {
            if rest.dom().len() > 0 {
                assert(rest.contains_key(rest.dom().choose()));
            }
            assert(added =~= other@);
        }
    }
}

impl core::ops::Add for ContributionActivity {
    type Output = Self;

    /// The merged ledger; see [`ContributionActivity::merge`].
    fn add(self, rhs: Self) -> (sum: Self)
        ensures
            sum@ == merge_counts(self@, rhs@),
    {
        self.merge(rhs)
    }
}

impl vstd::std_specs::ops::AddSpecImpl for ContributionActivity {
    /// The sum is known by its ledger, which the `ensures` of `add` states,
    /// not as a value.
    open spec fn obeys_add_spec() -> bool {
        false
    }

    /// Two ledgers can be added where their counts add up to no more than
    /// `usize::MAX`.
    open spec fn add_req(self, rhs: Self) -> bool {
        total_of(self@) + total_of(rhs@) <= usize::MAX
    }

    open spec fn add_spec(self, rhs: Self) -> Self {
        self
    }
}

impl Clone for ContributionActivity {
    fn clone(&self) -> (copy: Self)
        ensures
            copy@ == self@,
    {
        proof {
            use_type_invariant(self);
        }
        ContributionActivity(self.0.clone())
    }
}

} // verus!
