//! Contributions from the history of a git repository: which commits count
//! for a user, and what becomes of a clone that has a time limit.

use crate::date::{lemma_day_number_range, Date};
use crate::provider::{date_from_timestamp, invalid_timestamp_text, timestamp_day};
use crate::types::contribution_activity::{count_or_zero, total_of, ContributionActivity};
use crate::types::error::Error;
use std::time::{Duration, Instant};
use vstd::prelude::*;

verus! {

/// A point in time of the monotonic clock.
#[verifier::external_type_specification]
#[verifier::external_body]
pub struct ExInstant(Instant);

/// The time that a clone may take, in nanoseconds, where no other limit
/// is set: five seconds.
pub const CLONE_TIMEOUT: u128 = 5_000_000_000;

/// `Instant::elapsed`: the time that has passed since `begin`.
#[verifier::external_body]
fn elapsed_since(begin: &Instant) -> (elapsed: Duration) {
    begin.elapsed()
}

/// `Duration::as_nanos`: a duration in whole nanoseconds.
#[verifier::external_body]
fn nanoseconds(duration: &Duration) -> (nanos: u128) {
    duration.as_nanos()
}

/// What of a commit decides whether it counts: the time of the commit in
/// seconds since the start of 1970, and the name and the e-mail address of
/// its author, where they are text.
#[derive(Debug)]
pub struct Commit {
    pub seconds: i64,
    pub author_name: Option<String>,
    pub author_email: Option<String>,
}

/// How a clone ended.
#[derive(Debug)]
pub enum CloneEvent {
    /// The clone is complete.
    Cloned,
    /// Git gave up; the text says why.
    Failed(String),
    /// The time limit passed before the clone had ended.
    DeadlinePassed,
}

/// What follows the end of a clone: whether there is a repository to walk,
/// and whether the directory of the clone is to be removed at once.
#[derive(Debug)]
pub struct CloneVerdict {
    pub outcome: Result<(), Error>,
    pub remove_directory: bool,
}

/// Whether the commit is by the user: the name or the e-mail address of its
/// author is the text `user`, letter for letter.
pub open spec fn by_user(commit: Commit, user: Seq<char>) -> bool {
    ||| commit.author_name matches Some(name) && name@ == user
    ||| commit.author_email matches Some(email) && email@ == user
}

/// Whether the commit counts: it is by the user and was made on the day
/// with the number `since` or later.
pub open spec fn counts_for(commit: Commit, user: Seq<char>, since: int) -> bool {
    &&& timestamp_day(commit.seconds as int) matches Some(day)
    &&& day >= since
    &&& by_user(commit, user)
}

/// The ledger after one more commit: one contribution more on the day of
/// the commit where it counts.
pub open spec fn with_commit(
    counts: Map<int, nat>,
    commit: Commit,
    user: Seq<char>,
    since: int,
) -> Map<int, nat> {
    if counts_for(commit, user, since) {
        let day = timestamp_day(commit.seconds as int)->0;
        counts.insert(day, count_or_zero(counts, day) + 1)
    } else {
        counts
    }
}

/// The ledger of a history: for each day, the number of commits of that
/// day that count.
pub open spec fn ledger_of_commits(commits: Seq<Commit>, user: Seq<char>, since: int) -> Map<
    int,
    nat,
>
    decreases commits.len(),
{
    if commits.len() == 0 {
        Map::empty()
    } else {
        with_commit(
            ledger_of_commits(commits.drop_last(), user, since),
            commits.last(),
            user,
            since,
        )
    }
}

/// Whether the time of every commit lies on a supported day.
pub open spec fn all_dated(commits: Seq<Commit>) -> bool {
    forall|i: int| 0 <= i < commits.len() ==> timestamp_day(
        (#[trigger] commits[i]).seconds as int,
    ) is Some
}

/// Whether a time that has passed is more than the time allowed.
pub open spec fn exceeds(elapsed: u128, timeout: u128) -> bool {
    elapsed > timeout
}

/// Why a clone gives no repository.
pub enum CloneFault {
    /// The time allowed ran out.
    TimedOut,
    /// Git gave up; the text says why.
    Git(Seq<char>),
}

/// Why a clone that began `elapsed` nanoseconds ago under a limit of
/// `timeout` nanoseconds gives no repository, if it gives none. A complete
/// clone gives one, however long it took. A clone that was still under way
/// when the limit passed gives none: the time ran out. Of a clone that git
/// gave up the time ran out where more than the limit has passed; else the
/// fault is what git said.
pub open spec fn clone_fault(event: CloneEvent, elapsed: u128, timeout: u128) -> Option<
    CloneFault,
> {
    match event {
        CloneEvent::Cloned => None,
        CloneEvent::Failed(message) => if exceeds(elapsed, timeout) {
            Some(CloneFault::TimedOut)
        } else {
            Some(CloneFault::Git(message@))
        },
        CloneEvent::DeadlinePassed => Some(CloneFault::TimedOut),
    }
}

/// Whether an error says why a clone gives no repository.
pub open spec fn tells(error: Error, fault: CloneFault) -> bool {
    match fault {
        CloneFault::TimedOut => error is RepositoryCloningTimedOut,
        CloneFault::Git(message) => error matches Error::GitError(text) && text@ == message,
    }
}

/// Whether the text is the name or the e-mail address.
fn same_text(text: &Option<String>, user: &str) -> (same: bool)
    ensures
        same == (text matches Some(held) && held@ == user@),
{
    match text {
        Some(held) => *held == user.to_owned(),
        None => false,
    }
}

/// Whether more than `timeout` nanoseconds have passed when `elapsed` have.
pub fn timed_out_after(elapsed: u128, timeout: u128) -> (timed_out: bool)
    ensures
        timed_out == exceeds(elapsed, timeout),
{
    elapsed > timeout
}

/// Whether more than `timeout` nanoseconds have passed since `begin`. How
/// many have passed is read from the clock; the answer is that of
/// [`timed_out_after`] for that time, so that under the greatest limit no
/// time is ever out.
pub fn is_timed_out(begin: &Instant, timeout: u128) -> (timed_out: bool)
    ensures
        exists|elapsed: u128| timed_out == #[trigger] exceeds(elapsed, timeout),
{
    let elapsed = elapsed_since(begin);
    let passed = nanoseconds(&elapsed);
    let timed_out = timed_out_after(passed, timeout);
    assert(timed_out == exceeds(passed, timeout));
    timed_out
}

/// Whether a transfer that began `elapsed` nanoseconds ago goes on: it does
/// until the time allowed has passed.
pub fn continue_transfer(elapsed: u128, timeout: u128) -> (go_on: bool)
    ensures
        go_on == !exceeds(elapsed, timeout),
{
    !timed_out_after(elapsed, timeout)
}

/// Decides what follows the end of a clone that began `elapsed`
/// nanoseconds ago under a limit of `timeout` nanoseconds: whether there is
/// a repository to walk, and why not where there is none; and whether the
/// directory of the clone is removed at once, which it is whenever there is
/// no repository.
pub fn settle_clone(event: CloneEvent, elapsed: u128, timeout: u128) -> (verdict: CloneVerdict)
    ensures
        verdict.remove_directory == verdict.outcome is Err,
        match verdict.outcome {
            Ok(()) => clone_fault(event, elapsed, timeout) is None,
            Err(error) => clone_fault(event, elapsed, timeout) matches Some(fault) && tells(
                error,
                fault,
            ),
        },
{
    match event {
        CloneEvent::Cloned => CloneVerdict { outcome: Ok(()), remove_directory: false },
        CloneEvent::Failed(message) => {
            if timed_out_after(elapsed, timeout) {
                CloneVerdict {
                    outcome: Err(Error::RepositoryCloningTimedOut),
                    remove_directory: true,
                }
            } else {
                CloneVerdict { outcome: Err(Error::GitError(message)), remove_directory: true }
            }
        },
        CloneEvent::DeadlinePassed => CloneVerdict {
            outcome: Err(Error::RepositoryCloningTimedOut),
            remove_directory: true,
        },
    }
}

/// Enters a commit into the ledger: one contribution more on the day of the
/// commit where it is by `user` and of the day `since` or later. A commit
/// whose time lies on no supported day is an error and leaves the ledger
/// as it is.
pub fn record_commit(
    activity: &mut ContributionActivity,
    commit: &Commit,
    user: &str,
    since: &Date,
) -> (recorded: Result<(), Error>)
    requires
        since.valid(),
        total_of(old(activity)@) < usize::MAX,
    ensures
        match recorded {
            Ok(()) => {
                &&& timestamp_day(commit.seconds as int) is Some
                &&& final(activity)@ == with_commit(
                    old(activity)@,
                    *commit,
                    user@,
                    since.day_number(),
                )
                &&& total_of(final(activity)@) == total_of(old(activity)@) + if counts_for(
                    *commit,
                    user@,
                    since.day_number(),
                ) {
                    1nat
                } else {
                    0
                }
            },
            Err(error) => {
                &&& timestamp_day(commit.seconds as int) is None
                &&& final(activity)@ == old(activity)@
                &&& error matches Error::UnableToParseDate(text)
                &&& text@ == invalid_timestamp_text()
            },
        },
{
    let day = match date_from_timestamp(commit.seconds) {
        Ok(day) => day,
        Err(error) => {
            return Err(error);
        },
    };
    if since.le(&day) && (same_text(&commit.author_name, user) || same_text(
        &commit.author_email,
        user,
    )) {
        activity.add_contributions(&day, 1);
    }
    Ok(())
}

/// The contributions of `user` in a history since the day `since`: one for
/// each commit that is by the user and not older. A commit whose time lies
/// on no supported day makes the whole history an error, whoever made it.
pub fn get_activity_since(commits: &Vec<Commit>, user: &str, since: &Date) -> (activity: Result<
    ContributionActivity,
    Error,
>)
    requires
        since.valid(),
    ensures
        match activity {
            Ok(ledger) => all_dated(commits@) && ledger@ == ledger_of_commits(
                commits@,
                user@,
                since.day_number(),
            ),
            Err(error) => {
                &&& !all_dated(commits@)
                &&& error matches Error::UnableToParseDate(text)
                &&& text@ == invalid_timestamp_text()
            },
        },
{
    let mut ledger = ContributionActivity::new();
    let mut i: usize = 0;
    proof {
        assert(total_of(ledger@) == 0);
    }
    while i < commits.len()
        invariant
            i <= commits.len(),
            since.valid(),
            all_dated(commits@.take(i as int)),
            ledger@ == ledger_of_commits(commits@.take(i as int), user@, since.day_number()),
            total_of(ledger@) <= i,
        decreases commits.len() - i,
    {
        proof {
            assert(commits@.take(i + 1).drop_last() =~= commits@.take(i as int));
        }
        match record_commit(&mut ledger, &commits[i], user, since) {
            Ok(()) => {},
            Err(error) => {
                return Err(error);
            },
        }
        proof {
            assert forall|j: int| 0 <= j < i + 1 implies timestamp_day(
                (#[trigger] commits@.take(i + 1)[j]).seconds as int,
            ) is Some by {
                if j < i {
                    assert(commits@.take(i as int)[j] == commits@[j]);
                }
            }
        }
        i += 1;
    }
    proof {
        assert(commits@.take(i as int) =~= commits@);
    }
    Ok(ledger)
}

/// The number of commits of a history that count and were made on the day
/// with the number `day`.
pub open spec fn commits_on(commits: Seq<Commit>, user: Seq<char>, since: int, day: int) -> nat
    decreases commits.len(),
{
    if commits.len() == 0 {
        0
    } else {
        commits_on(commits.drop_last(), user, since, day) + if counts_for(
            commits.last(),
            user,
            since,
        ) && timestamp_day(commits.last().seconds as int) == Some(day) {
            1nat
        } else {
            0
        }
    }
}

/// The ledger of a history has an entry for exactly the days on which a
/// commit counts, and the entry is the number of those commits.
pub proof fn lemma_ledger_counts_commits(
    commits: Seq<Commit>,
    user: Seq<char>,
    since: int,
    day: int,
)
    ensures
        ledger_of_commits(commits, user, since).contains_key(day) <==> commits_on(
            commits,
            user,
            since,
            day,
        ) > 0,
        count_or_zero(ledger_of_commits(commits, user, since), day) == commits_on(
            commits,
            user,
            since,
            day,
        ),
    decreases commits.len(),
{
    if commits.len() > 0 {
        lemma_ledger_counts_commits(commits.drop_last(), user, since, day);
    }
}

/// A history in which no commit counts gives the empty ledger.
pub proof fn lemma_no_commit_counts(commits: Seq<Commit>, user: Seq<char>, since: int)
    requires
        forall|i: int| 0 <= i < commits.len() ==> !counts_for(#[trigger] commits[i], user, since),
    ensures
        ledger_of_commits(commits, user, since) == Map::<int, nat>::empty(),
    decreases commits.len(),
{
    if commits.len() > 0 {
        assert forall|i: int| 0 <= i < commits.drop_last().len() implies !counts_for(
            #[trigger] commits.drop_last()[i],
            user,
            since,
        ) by {
            assert(commits.drop_last()[i] == commits[i]);
        }
        lemma_no_commit_counts(commits.drop_last(), user, since);
    }
}

} // verus!
