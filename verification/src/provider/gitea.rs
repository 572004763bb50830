//! Contributions from the heatmap of Gitea and its forks: points in time,
//! each with a number of contributions.

use crate::date::Date;
use crate::provider::html::{attributes_of_matches, selected_attributes};
use crate::provider::url::{url_with_path, url_with_query, with_path, with_query, URL_LIMIT};
use crate::provider::{date_from_timestamp, invalid_timestamp_text, timestamp_day};
use crate::types::contribution_activity::{
    count_or_zero, lemma_total_insert, total_of, ContributionActivity,
};
use crate::types::error::Error;
use crate::text::optional_text;
use vstd::prelude::*;
use vstd::string::StrSliceExecFns;

verus! {

/// The heatmap of Gitea.
pub struct Gitea {}

/// A point of the heatmap: a moment in seconds since the start of 1970 and
/// the contributions since the point before.
#[derive(Clone, Copy, Debug, PartialEq, Eq, Structural)]
pub struct HeatmapDataPoint {
    pub timestamp: i64,
    pub contributions: usize,
}

/// The selector of the element that holds the heatmap of a user.
pub const HEATMAP: &'static str = "div#user-heatmap";

/// The attribute that holds the points of the heatmap as JSON.
pub const HEATMAP_DATA: &'static str = "data-heatmap-data";

/// The query that asks for the page with the heatmap.
pub const ACTIVITY_QUERY: &'static str = "tab=activity";

/// The address of the page with the heatmap of a user on the platform at
/// `url`.
pub open spec fn activity_address(url: Seq<char>, user_name: Seq<char>) -> Option<Seq<char>> {
    match url_with_path(url, user_name) {
        Some(profile) => if profile.len() <= URL_LIMIT {
            url_with_query(profile, ACTIVITY_QUERY@)
        } else {
            None
        },
        None => None,
    }
}

/// What the page of a user holds as its heatmap: the value of the attribute
/// of the first element that the selector of the heatmap matches. There is
/// no such user where there is no such element.
pub open spec fn heatmap_on_page(html: Seq<char>) -> Result<Seq<char>, HeatmapFault> {
    match selected_attributes(html, HEATMAP@, HEATMAP_DATA@, HEATMAP_DATA@) {
        Err(why) => Err(HeatmapFault::SelectorError(why)),
        Ok(pairs) => if pairs.len() == 0 {
            Err(HeatmapFault::UserNotFound)
        } else {
            match pairs[0].0 {
                None => Err(HeatmapFault::AttributeMissing),
                Some(json) => Ok(json),
            }
        },
    }
}

/// Why a page holds no heatmap.
pub enum HeatmapFault {
    /// The selector of the heatmap is none; the text says why.
    SelectorError(Seq<char>),
    /// The page has no element for the heatmap.
    UserNotFound,
    /// The element for the heatmap lacks its data.
    AttributeMissing,
}

/// Whether an error says why a page holds no heatmap.
pub open spec fn tells(error: Error, fault: HeatmapFault) -> bool {
    match fault {
        HeatmapFault::SelectorError(why) => error matches Error::SelectorError(text) && text@
            == why,
        HeatmapFault::UserNotFound => error is UserNotFound,
        HeatmapFault::AttributeMissing => error is AttributeMissing,
    }
}

impl Gitea {
    /// The address of the page with the heatmap of a user on the platform
    /// at `url`; `None` where `url` is no address, or where an address or
    /// the name of the user has more than [`URL_LIMIT`] characters.
    pub fn activity_url(url: &str, user_name: &str) -> (address: Option<String>)
        ensures
            optional_text(address) == if url@.len() <= URL_LIMIT && user_name@.len()
                <= URL_LIMIT {
                activity_address(url@, user_name@)
            } else {
                None
            },
    {
        if url.unicode_len() > URL_LIMIT || user_name.unicode_len() > URL_LIMIT {
            return None;
        }
        let profile = match with_path(url, user_name) {
            Some(profile) => profile,
            None => {
                return None;
            },
        };
        if profile.as_str().unicode_len() > URL_LIMIT {
            return None;
        }
        proof {
            reveal_strlit("tab=activity");
        }
        with_query(profile.as_str(), ACTIVITY_QUERY)
    }

    /// The points of the heatmap that a page of a user holds, as JSON.
    pub fn heatmap_data(html: &str) -> (json: Result<String, Error>)
        ensures
            match json {
                Ok(data) => heatmap_on_page(html@) == Ok::<Seq<char>, HeatmapFault>(data@),
                Err(error) => heatmap_on_page(html@) is Err && tells(
                    error,
                    heatmap_on_page(html@)->Err_0,
                ),
            },
    {
        let pairs = match attributes_of_matches(html, HEATMAP, HEATMAP_DATA, HEATMAP_DATA) {
            Ok(pairs) => pairs,
            Err(why) => {
                return Err(Error::SelectorError(why));
            },
        };
        if pairs.len() == 0 {
            return Err(Error::UserNotFound);
        }
        match &pairs[0].0 {
            Some(data) => Ok(data.clone()),
            None => Err(Error::AttributeMissing),
        }
    }
}

/// Whether every point lies on a supported day.
pub open spec fn all_dated(points: Seq<HeatmapDataPoint>) -> bool {
    forall|i: int| 0 <= i < points.len() ==> timestamp_day(
        (#[trigger] points[i]).timestamp as int,
    ) is Some
}

/// The ledger of the points: for each day in UTC on which a point lies the
/// sum of the contributions of the points of that day.
pub open spec fn ledger_of_points(points: Seq<HeatmapDataPoint>) -> Map<int, nat>
    decreases points.len(),
{
    if points.len() == 0 {
        Map::empty()
    } else {
        let before = ledger_of_points(points.drop_last());
        match timestamp_day(points.last().timestamp as int) {
            Some(day) => before.insert(
                day,
                count_or_zero(before, day) + points.last().contributions as nat,
            ),
            None => before,
        }
    }
}

/// The sum of the contributions of the points.
pub open spec fn contributions_of(points: Seq<HeatmapDataPoint>) -> nat
    decreases points.len(),
{
    if points.len() == 0 {
        0
    } else {
        contributions_of(points.drop_last()) + points.last().contributions as nat
    }
}

/// The ledger of points that all lie on supported days is finite and holds
/// the contributions of all points.
pub proof fn lemma_ledger_of_points(points: Seq<HeatmapDataPoint>)
    requires
        all_dated(points),
    ensures
        ledger_of_points(points).dom().finite(),
        total_of(ledger_of_points(points)) == contributions_of(points),
    decreases points.len(),
{
    if points.len() > 0 {
        assert forall|i: int| 0 <= i < points.drop_last().len() implies timestamp_day(
            (#[trigger] points.drop_last()[i]).timestamp as int,
        ) is Some by {
            assert(points.drop_last()[i] == points[i]);
        }
        lemma_ledger_of_points(points.drop_last());
        let before = ledger_of_points(points.drop_last());
        let day = timestamp_day(points.last().timestamp as int)->0;
        lemma_total_insert(
            before,
            day,
            count_or_zero(before, day) + points.last().contributions as nat,
        );
    }
}

/// The first points never hold more contributions than all points.
proof fn lemma_contributions_grow(points: Seq<HeatmapDataPoint>, upto: int)
    requires
        0 <= upto <= points.len(),
    ensures
        contributions_of(points.take(upto)) <= contributions_of(points),
    decreases points.len() - upto,
{
    if upto < points.len() {
        assert(points.take(upto + 1).drop_last() =~= points.take(upto));
        lemma_contributions_grow(points, upto + 1);
    } else {
        assert(points.take(upto) =~= points);
    }
}

impl TryFrom<Vec<HeatmapDataPoint>> for ContributionActivity {
    type Error = Error;

    /// The ledger of the points of a heatmap. A point that lies on no
    /// supported day makes all of them an error, and so do contributions
    /// that add up to more than `usize::MAX`.
    fn try_from(value: Vec<HeatmapDataPoint>) -> (activity: Result<Self, Error>)
        ensures
            match activity {
                Ok(ledger) => all_dated(value@) && ledger@ == ledger_of_points(value@),
                Err(error) => if all_dated(value@) {
                    error is TooManyContributions && contributions_of(value@) > usize::MAX
                } else {
                    error matches Error::UnableToParseDate(text) && text@
                        == invalid_timestamp_text()
                },
            },
    {
        let mut days: Vec<Date> = Vec::new();
        let mut i: usize = 0;
        while i < value.len()
            invariant
                i <= value.len(),
                days.len() == i,
                forall|j: int|
                    0 <= j < i ==> (#[trigger] days[j]).valid() && timestamp_day(
                        value[j].timestamp as int,
                    ) == Some(days[j].day_number()),
            decreases value.len() - i,
        {
            match date_from_timestamp(value[i].timestamp) {
                Ok(day) => {
                    days.push(day);
                },
                Err(error) => {
                    return Err(error);
                },
            }
            i += 1;
        }
        let mut ledger = ContributionActivity::new();
        let mut total: usize = 0;
        let mut i: usize = 0;
        proof {
            assert forall|j: int| 0 <= j < value@.len() implies timestamp_day(
                (#[trigger] value@[j]).timestamp as int,
            ) is Some by {
                assert(days[j].valid());
            }
            assert(value@.take(0) =~= Seq::<HeatmapDataPoint>::empty());
            assert(total_of(ledger@) == 0);
        }
        while i < value.len()
            invariant
                i <= value.len(),
                days.len() == value.len(),
                forall|j: int|
                    0 <= j < value.len() ==> (#[trigger] days[j]).valid() && timestamp_day(
                        value[j].timestamp as int,
                    ) == Some(days[j].day_number()),
                all_dated(value@),
                ledger@ == ledger_of_points(value@.take(i as int)),
                ledger@.dom().finite(),
                total == total_of(ledger@),
                total == contributions_of(value@.take(i as int)),
            decreases value.len() - i,
        {
            proof {
                assert(value@.take(i + 1).drop_last() =~= value@.take(i as int));
                lemma_contributions_grow(value@, i + 1);
            }
            total = match total.checked_add(value[i].contributions) {
                Some(sum) => sum,
                None => {
                    return Err(Error::TooManyContributions);
                },
            };
            ledger.add_contributions(&days[i], value[i].contributions);
            i += 1;
        }
        proof {
            assert(value@.take(i as int) =~= value@);
        }
        Ok(ledger)
    }
}

impl vstd::std_specs::convert::TryFromSpecImpl<Vec<HeatmapDataPoint>> for ContributionActivity {
    open spec fn obeys_try_from_spec() -> bool {
        false
    }

    open spec fn try_from_spec(value: Vec<HeatmapDataPoint>) -> Result<Self, Error> {
        arbitrary()
    }
}

} // verus!
