//! Contributions from the calendar of GitLab: a JSON object that holds a
//! count for each date.

use crate::date::Date;
use crate::provider::{parse_date, parsed_day_number, DATE_DESCRIPTION};
use crate::types::contribution_activity::{
    ledger_of_entries, numbered, total_of, ContributionActivity,
};
use crate::provider::json::{counts_of_json, json_counts, lists};
use crate::provider::url::{url_with_path, with_path, URL_LIMIT};
use crate::types::error::Error;
use crate::text::optional_text;
use vstd::prelude::*;
use vstd::string::StrSliceExecFns;
use vstd::string::StringExecFns;

verus! {

/// The calendar of GitLab.
pub struct Gitlab {}

/// The days and counts that a list of dates and counts gives, in its
/// order; `None` where one of the dates is no date.
pub open spec fn entries_read(entries: Seq<(String, usize)>) -> Option<Seq<(int, nat)>>
    decreases entries.len(),
{
    if entries.len() == 0 {
        Some(Seq::empty())
    } else {
        match (
            entries_read(entries.drop_last()),
            parsed_day_number(entries.last().0@, DATE_DESCRIPTION@),
        ) {
            (Some(read), Some(day)) => Some(read.push((day, entries.last().1 as nat))),
            _ => None,
        }
    }
}

/// What a list of dates and counts comes to: the ledger that holds for
/// each date its count, the last one where several texts name one date;
/// an error where a text is no date or the counts add up to more than
/// `usize::MAX`.
pub open spec fn comes_to(
    entries: Seq<(String, usize)>,
    activity: Result<ContributionActivity, Error>,
) -> bool {
    match activity {
        Ok(ledger) => entries_read(entries) matches Some(read) && ledger@ == ledger_of_entries(
            read,
        ),
        Err(error) => match entries_read(entries) {
            None => error is UnableToParseDate,
            Some(read) => error is TooManyContributions && total_of(ledger_of_entries(read))
                > usize::MAX,
        },
    }
}

/// The path of the calendar of a user.
pub open spec fn calendar_path(user_name: Seq<char>) -> Seq<char> {
    "users/"@ + user_name + "/calendar.json"@
}

impl Gitlab {
    /// The address of the calendar of a user on the platform at `url`;
    /// `None` where `url` is no address, or where it or the name of the
    /// user has more than [`URL_LIMIT`] characters.
    pub fn calendar_url(url: &str, user_name: &str) -> (address: Option<String>)
        ensures
            optional_text(address) == if url@.len() <= URL_LIMIT && user_name@.len() + 20
                <= URL_LIMIT {
                url_with_path(url@, calendar_path(user_name@))
            } else {
                None
            },
    {
        if url.unicode_len() > URL_LIMIT || user_name.unicode_len() > URL_LIMIT - 20 {
            return None;
        }
        let mut path = "users/".to_owned();
        path.append(user_name);
        path.append("/calendar.json");
        proof {
            reveal_strlit("users/");
            reveal_strlit("/calendar.json");
        }
        with_path(url, path.as_str())
    }

    /// The ledger of a list of dates, as in `2024-12-13`, and counts.
    pub fn activity_of_entries(entries: &Vec<(String, usize)>) -> (activity: Result<
        ContributionActivity,
        Error,
    >)
        ensures
            comes_to(entries@, activity),
    {
        let mut dated: Vec<(Date, usize)> = Vec::new();
        let mut i: usize = 0;
        proof {
            assert(entries@.take(0) =~= Seq::<(String, usize)>::empty());
            assert(numbered(dated@) =~= Seq::<(int, nat)>::empty());
        }
        while i < entries.len()
            invariant
                i <= entries.len(),
                entries_read(entries@.take(i as int)) == Some(numbered(dated@)),
                forall|j: int| 0 <= j < dated.len() ==> (#[trigger] dated[j]).0.valid(),
            decreases entries.len() - i,
        {
            proof {
                assert(entries@.take(i + 1).drop_last() =~= entries@.take(i as int));
                lemma_entries_read_fails(entries@, i + 1);
            }
            let ghost before = numbered(dated@);
            match parse_date(entries[i].0.as_str()) {
                Ok(date) => {
                    dated.push((date, entries[i].1));
                    proof {
                        assert(numbered(dated@) =~= before.push(
                            (date.day_number(), entries[i as int].1 as nat),
                        ));
                    }
                },
                Err(error) => {
                    return Err(error);
                },
            }
            i += 1;
        }
        proof {
            assert(entries@.take(i as int) =~= entries@);
        }
        match ContributionActivity::from_entries(&dated) {
            Some(ledger) => Ok(ledger),
            None => Err(Error::TooManyContributions),
        }
    }

    /// The ledger of the calendar that GitLab hands out: the text must be a
    /// JSON object of counts by date.
    pub fn parse(json: &str) -> (activity: Result<ContributionActivity, Error>)
        ensures
            match json_counts(json@) {
                None => activity matches Err(error) && error is UnableToParseJson,
                Some(held) => exists|list: Seq<(String, usize)>| #[trigger]
                    lists(list, held) && comes_to(list, activity),
            },
    {
        match counts_of_json(json) {
            Ok(list) => Gitlab::activity_of_entries(&list),
            Err(why) => Err(Error::UnableToParseJson(why)),
        }
    }
}

/// Where the first dates of a list hold one that is no date, so does the
/// list.
proof fn lemma_entries_read_fails(entries: Seq<(String, usize)>, upto: int)
    requires
        0 <= upto <= entries.len(),
    ensures
        entries_read(entries.take(upto)) is None ==> entries_read(entries) is None,
    decreases entries.len() - upto,
{
    if upto < entries.len() {
        assert(entries.take(upto + 1).drop_last() =~= entries.take(upto));
        lemma_entries_read_fails(entries, upto + 1);
    } else {
        assert(entries.take(upto) =~= entries);
    }
}

} // verus!
