//! The sources of contributions: what the pages and repositories of the
//! hosting platforms hold, turned into ledgers.

use crate::date::{Date, MAX_DAY_NUMBER, MIN_DAY_NUMBER};
use crate::types::error::Error;
use chrono::Datelike;
use vstd::prelude::*;

pub mod git;
pub mod gitea;
pub mod github;
pub mod gitlab;
pub mod html;
pub mod json;
pub mod url;

verus! {

/// The error of chrono's parser.
#[verifier::external_type_specification]
#[verifier::external_body]
pub struct ExParseError(chrono::ParseError);

/// The day number of the date that chrono reads from `text` under the
/// format `format`; `None` where it reads none.
pub uninterp spec fn parsed_day_number(text: Seq<char>, format: Seq<char>) -> Option<int>;

/// `chrono::NaiveDate::parse_from_str`: reads a date from a text under a
/// format. What it reads depends on the two texts alone; the date it
/// returns is a day of the calendar within the supported years.
#[verifier::external_body]
fn parse_with_format(text: &str, format: &str) -> (parsed: Result<Date, chrono::ParseError>)
    ensures
        match parsed {
            Ok(date) => date.valid() && parsed_day_number(text@, format@) == Some(
                date.day_number(),
            ),
            Err(_) => parsed_day_number(text@, format@) is None,
        },
{
    chrono::NaiveDate::parse_from_str(text, format).map(
        |date| Date { year: date.year(), month: date.month(), day: date.day() },
    )
}

/// `ToString::to_string` of chrono's `ParseError`: what went wrong, in words.
#[verifier::external_body]
fn parse_error_text(error: &chrono::ParseError) -> (text: String) {
    error.to_string()
}

/// `chrono::DateTime::from_timestamp` and `DateTime::date_naive`: the day in
/// UTC on which a moment lies that is `seconds` seconds after the start of
/// 1970. Days have 86400 seconds and the first of January of 1970 has the
/// day number 719163; there is no such day where it would lie outside the
/// supported years.
#[verifier::external_body]
fn date_of_timestamp(seconds: i64) -> (date: Option<Date>)
    ensures
        date is Some <==> timestamp_day(seconds as int) is Some,
        date is Some ==> date->0.valid() && Some(date->0.day_number()) == timestamp_day(
            seconds as int,
        ),
{
    chrono::DateTime::from_timestamp(seconds, 0).map(
        |moment|
            {
                let date = moment.date_naive();
                Date { year: date.year(), month: date.month(), day: date.day() }
            },
    )
}

/// The format of the dates of the platforms: year, month and day as in
/// `2024-12-13`.
pub const DATE_DESCRIPTION: &'static str = "%Y-%m-%d";

/// The number of the day in UTC on which the moment `seconds` seconds after
/// the start of 1970 lies; `None` outside the supported years.
pub open spec fn timestamp_day(seconds: int) -> Option<int> {
    let number = seconds / 86400 + 719163;
    if MIN_DAY_NUMBER <= number <= MAX_DAY_NUMBER {
        Some(number)
    } else {
        None
    }
}

/// Reads a date like `2024-12-13`.
pub fn parse_date(date: &str) -> (parsed: Result<Date, Error>)
    ensures
        match parsed {
            Ok(date_read) => date_read.valid() && parsed_day_number(date@, DATE_DESCRIPTION@)
                == Some(date_read.day_number()),
            Err(error) => parsed_day_number(date@, DATE_DESCRIPTION@) is None
                && error is UnableToParseDate,
        },
{
    match parse_with_format(date, DATE_DESCRIPTION) {
        Ok(date_read) => Ok(date_read),
        Err(error) => Err(Error::UnableToParseDate(parse_error_text(&error))),
    }
}

/// What the error says of a moment that lies on no supported day.
pub open spec fn invalid_timestamp_text() -> Seq<char> {
    "Invalid timestamp encountered"@
}

/// The day in UTC of a moment given in seconds since the start of 1970.
pub fn date_from_timestamp(seconds: i64) -> (date: Result<Date, Error>)
    ensures
        match date {
            Ok(day) => day.valid() && timestamp_day(seconds as int) == Some(day.day_number()),
            Err(error) => {
                &&& timestamp_day(seconds as int) is None
                &&& error matches Error::UnableToParseDate(text)
                &&& text@ == invalid_timestamp_text()
            },
        },
{
    match date_of_timestamp(seconds) {
        Some(day) => Ok(day),
        None => Err(Error::UnableToParseDate("Invalid timestamp encountered".to_owned())),
    }
}

/// The kinds of sources that are described by a URL and a user.
#[derive(Clone, Copy, Debug, PartialEq, Eq, Structural)]
pub enum RepositoryKind {
    /// A git repository that is cloned and walked.
    BareGitRepository,
    /// A platform that runs Gitea or one of its forks.
    Gitea,
    /// A platform that runs GitLab.
    Gitlab,
}

/// Where and how the contributions of a user are found.
#[derive(Clone, Debug)]
pub struct RepositoryInfo {
    pub url: String,
    pub user_name: String,
    pub kind: RepositoryKind,
}

} // verus!
