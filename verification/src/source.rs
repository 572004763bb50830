//! The sources of one calendar: what becomes of the ledgers, and of the
//! failures, of the sources that were asked.

use crate::types::contribution_activity::{
    lemma_merge_total, lemma_view_finite, merge_counts, total_of, ContributionActivity,
};
use crate::types::error::Error;
use vstd::prelude::*;

verus! {

/// What a source that fails does to the calendar.
#[derive(Clone, Copy, Debug, PartialEq, Eq, Structural)]
pub enum FailurePolicy {
    /// The calendar fails with the first source that fails.
    Abort,
    /// The calendar is that of the sources that did not fail.
    Skip,
}

/// What the sources came to, as ledgers.
pub open spec fn outcomes(results: Seq<Result<ContributionActivity, Error>>) -> Seq<
    Option<Map<int, nat>>,
> {
    Seq::new(
        results.len(),
        |i: int|
            match results[i] {
                Ok(ledger) => Some(ledger@),
                Err(_) => None,
            },
    )
}

/// The ledgers of the sources that did not fail, merged.
pub open spec fn merged(outcomes: Seq<Option<Map<int, nat>>>) -> Map<int, nat>
    decreases outcomes.len(),
{
    if outcomes.len() == 0 {
        Map::empty()
    } else {
        match outcomes.last() {
            Some(ledger) => merge_counts(merged(outcomes.drop_last()), ledger),
            None => merged(outcomes.drop_last()),
        }
    }
}

/// The position of the first source that failed, if one did.
pub open spec fn first_failure(outcomes: Seq<Option<Map<int, nat>>>) -> Option<int>
    decreases outcomes.len(),
{
    if outcomes.len() == 0 {
        None
    } else {
        match first_failure(outcomes.drop_last()) {
            Some(at) => Some(at),
            None => if outcomes.last() is None {
                Some(outcomes.len() - 1)
            } else {
                None
            },
        }
    }
}

/// The ledgers of the sources that did not fail are finite when merged.
proof fn lemma_merged_finite(
    results: Seq<Result<ContributionActivity, Error>>,
    upto: int,
)
    requires
        0 <= upto <= results.len(),
    ensures
        merged(outcomes(results).take(upto)).dom().finite(),
    decreases upto,
{
    let all = outcomes(results);
    if upto > 0 {
        lemma_merged_finite(results, upto - 1);
        assert(all.take(upto).drop_last() =~= all.take(upto - 1));
        match results[upto - 1] {
            Ok(ledger) => {
                lemma_view_finite(ledger);
                lemma_merge_total(merged(all.take(upto - 1)), ledger@);
            },
            Err(_) => {},
        }
    } else {
        assert(all.take(0) =~= Seq::<Option<Map<int, nat>>>::empty());
    }
}

/// Merges the ledgers of the sources of a calendar. Under
/// [`FailurePolicy::Abort`] the first source that failed decides: the
/// calendar fails as it did. Under [`FailurePolicy::Skip`] the sources that
/// failed are left out. The merged counts must add up to no more than
/// `usize::MAX`.
pub fn merge_sources(
    results: Vec<Result<ContributionActivity, Error>>,
    policy: FailurePolicy,
) -> (activity: Result<ContributionActivity, Error>)
    ensures
        match activity {
            Ok(ledger) => {
                &&& ledger@ == merged(outcomes(results@))
                &&& policy == FailurePolicy::Abort ==> first_failure(outcomes(results@)) is None
            },
            Err(error) => if policy == FailurePolicy::Abort && first_failure(outcomes(results@))
                is Some {
                results@[first_failure(outcomes(results@))->0] == Err::<
                    ContributionActivity,
                    Error,
                >(error)
            } else {
                error is TooManyContributions && total_of(merged(outcomes(results@)))
                    > usize::MAX
            },
        },
{
    let ghost all = outcomes(results@);
    let ghost given = results@;
    let count = results.len();
    // Results are taken from the end, which turns their order; turning it
    // twice gives them in their own order.
    let mut pending = results;
    let mut remaining: Vec<Result<ContributionActivity, Error>> = Vec::new();
    while pending.len() > 0
        invariant
            pending.len() + remaining.len() == count,
            count == given.len(),
            forall|i: int| 0 <= i < pending.len() ==> pending@[i] == given[i],
            forall|i: int|
                0 <= i < remaining.len() ==> remaining@[i] == given[count - 1 - i],
        decreases pending.len(),
    {
        let last = pending.pop().unwrap();
        remaining.push(last);
    }
    let mut merged_so_far = ContributionActivity::new();
    let mut total: usize = 0;
    let mut overflowed = false;
    let mut at: usize = 0;
    proof {
        assert(all.take(0) =~= Seq::<Option<Map<int, nat>>>::empty());
        assert(total_of(merged_so_far@) == 0);
    }
    while remaining.len() > 0
        invariant
            given == results@,
            all == outcomes(given),
            count == given.len(),
            at + remaining.len() == count,
            forall|i: int|
                0 <= i < remaining.len() ==> remaining@[i] == given[count - 1 - i],
            policy == FailurePolicy::Abort ==> first_failure(all.take(at as int)) is None,
            !overflowed ==> merged_so_far@ == merged(all.take(at as int)),
            !overflowed ==> total == total_of(merged_so_far@),
            !overflowed ==> merged_so_far@.dom().finite(),
            overflowed ==> total_of(merged(all)) > usize::MAX,
        decreases remaining.len(),
    {
        let next = remaining.pop().unwrap();
        assert(next == given[at as int]);
        proof {
            assert(all.take(at + 1).drop_last() =~= all.take(at as int));
            assert(all.take(at + 1).last() == all[at as int]);
            assert(all[at as int] == match given[at as int] {
                Ok(ledger) => Some(ledger@),
                Err(_) => None,
            });
        }
        match next {
            Ok(ledger) => {
                if !overflowed {
                    let more = ledger.contribution_count();
                    proof {
                        lemma_merge_total(merged_so_far@, ledger@);
                        lemma_merged_grows(given, at + 1);
                    }
                    match total.checked_add(more) {
                        Some(sum) => {
                            merged_so_far.combine(ledger);
                            total = sum;
                        },
                        None => {
                            overflowed = true;
                        },
                    }
                }
            },
            Err(error) => {
                match policy {
                    FailurePolicy::Abort => {
                        proof {
                            lemma_first_failure_found(all, at as int);
                        }
                        return Err(error);
                    },
                    FailurePolicy::Skip => {},
                }
            },
        }
        at += 1;
    }
    proof {
        assert(all.take(at as int) =~= all);
    }
    if overflowed {
        Err(Error::TooManyContributions)
    } else {
        Ok(merged_so_far)
    }
}

/// Where no source before position `at` failed and the one at `at` did, it
/// is the first that failed.
proof fn lemma_first_failure_found(outcomes: Seq<Option<Map<int, nat>>>, at: int)
    requires
        0 <= at < outcomes.len(),
        first_failure(outcomes.take(at)) is None,
        outcomes[at] is None,
    ensures
        first_failure(outcomes) == Some(at),
    decreases outcomes.len() - at,
{
    assert(outcomes.take(at + 1).drop_last() =~= outcomes.take(at));
    assert(first_failure(outcomes.take(at + 1)) == Some(at));
    lemma_first_failure_stays(outcomes, at + 1);
}

/// The first failure among the first sources is the first failure among
/// all of them.
proof fn lemma_first_failure_stays(outcomes: Seq<Option<Map<int, nat>>>, upto: int)
    requires
        0 <= upto <= outcomes.len(),
        first_failure(outcomes.take(upto)) is Some,
    ensures
        first_failure(outcomes) == first_failure(outcomes.take(upto)),
    decreases outcomes.len() - upto,
{
    if upto < outcomes.len() {
        assert(outcomes.take(upto + 1).drop_last() =~= outcomes.take(upto));
        lemma_first_failure_stays(outcomes, upto + 1);
    } else {
        assert(outcomes.take(upto) =~= outcomes);
    }
}

/// The counts of the first sources add up to no more than those of all.
proof fn lemma_merged_grows(results: Seq<Result<ContributionActivity, Error>>, upto: int)
    requires
        0 <= upto <= results.len(),
    ensures
        total_of(merged(outcomes(results).take(upto))) <= total_of(merged(outcomes(results))),
    decreases results.len() - upto,
{
    let all = outcomes(results);
    if upto < results.len() {
        lemma_merged_grows(results, upto + 1);
        lemma_merged_finite(results, upto);
        assert(all.take(upto + 1).drop_last() =~= all.take(upto));
        match results[upto] {
            Ok(ledger) => {
                lemma_view_finite(ledger);
                lemma_merge_total(merged(all.take(upto)), ledger@);
            },
            Err(_) => {},
        }
    } else {
        assert(all.take(upto) =~= all);
    }
}

} // verus!
