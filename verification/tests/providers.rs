use chrono::{DateTime, Datelike};
use commitoria::date::{Date, MAX_YEAR, MIN_YEAR};
use commitoria::provider::git::{
    continue_transfer, get_activity_since, is_timed_out, record_commit, settle_clone,
    timed_out_after, CloneEvent, Commit, CLONE_TIMEOUT,
};
use commitoria::provider::gitea::HeatmapDataPoint;
use commitoria::provider::github::{count_of_tooltip, Cell, Github, Tooltip};
use commitoria::provider::gitlab::Gitlab;
use commitoria::provider::{date_from_timestamp, parse_date, RepositoryInfo, RepositoryKind};
use commitoria::source::{merge_sources, FailurePolicy};
use commitoria::types::contribution_activity::ContributionActivity;
use commitoria::types::error::Error;
use std::time::Instant;

fn day(year: i32, month: u32, day: u32) -> Date {
    Date::from_ymd_opt(year, month, day).unwrap()
}

fn commit(seconds: i64, name: &str, email: &str) -> Commit {
    Commit {
        seconds,
        author_name: Some(name.to_string()),
        author_email: Some(email.to_string()),
    }
}

fn invalid_timestamp() -> Error {
    Error::UnableToParseDate("Invalid timestamp encountered".to_string())
}

// 2024-12-13 00:00:00 UTC
const DECEMBER_13: i64 = 1734048000;
const DAY: i64 = 86400;

#[test]
fn dates_are_read_from_year_month_and_day() {
    assert_eq!(parse_date("2024-01-22"), Ok(day(2024, 1, 22)));
    assert_eq!(parse_date("2024-02-29"), Ok(day(2024, 2, 29)));
    assert_eq!(parse_date("0001-01-01"), Ok(day(1, 1, 1)));
    assert!(matches!(parse_date("2023-02-29"), Err(Error::UnableToParseDate(_))));
    assert!(matches!(parse_date("2024-13-01"), Err(Error::UnableToParseDate(_))));
    assert!(matches!(parse_date("yesterday"), Err(Error::UnableToParseDate(_))));
    assert!(matches!(parse_date(""), Err(Error::UnableToParseDate(_))));
    assert!(matches!(parse_date("2024-01-22 "), Err(Error::UnableToParseDate(_))));
}

#[test]
fn moments_lie_on_days_in_utc() {
    assert_eq!(date_from_timestamp(0), Ok(day(1970, 1, 1)));
    assert_eq!(date_from_timestamp(-1), Ok(day(1969, 12, 31)));
    assert_eq!(date_from_timestamp(86399), Ok(day(1970, 1, 1)));
    assert_eq!(date_from_timestamp(86400), Ok(day(1970, 1, 2)));
    assert_eq!(date_from_timestamp(DECEMBER_13), Ok(day(2024, 12, 13)));
    assert_eq!(date_from_timestamp(DECEMBER_13 - 1), Ok(day(2024, 12, 12)));
    assert_eq!(date_from_timestamp(i64::MAX), Err(invalid_timestamp()));
    assert_eq!(date_from_timestamp(i64::MIN), Err(invalid_timestamp()));

    // the first and the last moment that lie on a day
    let first = (-95746129i64 - 719163) * DAY;
    assert_eq!(date_from_timestamp(first), Ok(day(MIN_YEAR, 1, 1)));
    assert_eq!(date_from_timestamp(first - 1), Err(invalid_timestamp()));
    let last = (95745399i64 - 719163) * DAY + DAY - 1;
    assert_eq!(date_from_timestamp(last), Ok(day(MAX_YEAR, 12, 31)));
    assert_eq!(date_from_timestamp(last + 1), Err(invalid_timestamp()));

    for seconds in [-5_000_000_000i64, -86401, -86400, 951782400, 4102444800] {
        let expected = DateTime::from_timestamp(seconds, 0).unwrap().date_naive();
        assert_eq!(
            date_from_timestamp(seconds),
            Ok(day(expected.year(), expected.month(), expected.day()))
        );
    }
}

#[test]
fn commits_count_for_the_author_by_name_or_address() {
    let since = day(2024, 1, 1);
    let commits = vec![
        commit(DECEMBER_13, "Thomas Zahner", "thomas@example.org"),
        commit(DECEMBER_13 + 100, "Someone", "Thomas Zahner"),
        commit(DECEMBER_13 + DAY - 1, "Thomas Zahner", "other@example.org"),
        commit(DECEMBER_13 + DAY, "Thomas Zahner", "thomas@example.org"),
        // by others, or nearly by the author
        commit(DECEMBER_13, "thomas zahner", "Thomas Zahner "),
        commit(DECEMBER_13, "Thomas", "Zahner"),
        commit(DECEMBER_13 - DAY, "", ""),
        // before the first day that counts
        commit(1704067199, "Thomas Zahner", "thomas@example.org"),
        // on the first day that counts
        commit(1704067200, "Thomas Zahner", "thomas@example.org"),
        Commit { seconds: DECEMBER_13, author_name: None, author_email: None },
        Commit {
            seconds: DECEMBER_13,
            author_name: None,
            author_email: Some("Thomas Zahner".to_string()),
        },
    ];
    let result = get_activity_since(&commits, "Thomas Zahner", &since).unwrap();

    assert_eq!(result.get(&day(2024, 12, 12)), None);
    assert_eq!(result.get(&day(2024, 12, 13)), Some(4));
    assert_eq!(result.get(&day(2024, 12, 14)), Some(1));
    assert_eq!(result.get(&day(2024, 1, 1)), Some(1));
    assert_eq!(result.get(&day(2023, 12, 31)), None);
    assert_eq!(result.active_days(), 3);
    assert_eq!(result.contribution_count(), 6);
}

#[test]
fn no_matching_commit_gives_the_empty_ledger() {
    let commits = vec![
        commit(DECEMBER_13, "Someone", "someone@example.org"),
        commit(DECEMBER_13, "Someone else", "else@example.org"),
    ];
    let result = get_activity_since(&commits, "Nobody", &day(2024, 1, 1));
    assert_eq!(result, Ok(ContributionActivity::new()));
    assert_eq!(
        get_activity_since(&vec![], "Nobody", &day(2024, 1, 1)),
        Ok(ContributionActivity::new())
    );
}

#[test]
fn a_commit_without_a_day_fails_the_history() {
    let commits = vec![
        commit(DECEMBER_13, "Thomas Zahner", "thomas@example.org"),
        commit(i64::MAX, "Someone", "someone@example.org"),
        commit(DECEMBER_13, "Thomas Zahner", "thomas@example.org"),
    ];
    assert_eq!(
        get_activity_since(&commits, "Thomas Zahner", &day(2024, 1, 1)),
        Err(invalid_timestamp())
    );
}

#[test]
fn commits_are_recorded_one_by_one() {
    let since = day(2024, 12, 13);
    let mut activity = ContributionActivity::new();
    let by_author = commit(DECEMBER_13, "a", "b");
    assert_eq!(record_commit(&mut activity, &by_author, "a", &since), Ok(()));
    assert_eq!(record_commit(&mut activity, &by_author, "b", &since), Ok(()));
    assert_eq!(record_commit(&mut activity, &by_author, "c", &since), Ok(()));
    let too_old = commit(DECEMBER_13 - 1, "a", "b");
    assert_eq!(record_commit(&mut activity, &too_old, "a", &since), Ok(()));
    let undated = commit(i64::MIN, "x", "y");
    assert_eq!(
        record_commit(&mut activity, &undated, "a", &since),
        Err(invalid_timestamp())
    );
    assert_eq!(activity.entries(), vec![(since.num_days_from_ce(), 2)]);
}

#[test]
fn time_limit_of_a_clone() {
    assert_eq!(CLONE_TIMEOUT, 5_000_000_000);
    assert!(!timed_out_after(0, CLONE_TIMEOUT));
    assert!(!timed_out_after(5_000_000_000, CLONE_TIMEOUT));
    assert!(timed_out_after(5_000_000_001, CLONE_TIMEOUT));
    assert!(continue_transfer(5_000_000_000, CLONE_TIMEOUT));
    assert!(!continue_transfer(5_000_000_001, CLONE_TIMEOUT));
    assert!(timed_out_after(1, 0));
    assert!(!timed_out_after(0, 0));

    let begin = Instant::now();
    assert!(!is_timed_out(&begin, u128::MAX));
    while begin.elapsed().as_nanos() == 0 {}
    assert!(is_timed_out(&begin, 0));
}

#[test]
fn end_of_a_clone() {
    let verdict = settle_clone(CloneEvent::Cloned, 6_000_000_000, CLONE_TIMEOUT);
    assert_eq!(verdict.outcome, Ok(()));
    assert!(!verdict.remove_directory);

    let failed = || CloneEvent::Failed("not found".to_string());
    let verdict = settle_clone(failed(), 1_000, CLONE_TIMEOUT);
    assert_eq!(verdict.outcome, Err(Error::GitError("not found".to_string())));
    assert!(verdict.remove_directory);

    let verdict = settle_clone(failed(), 5_000_000_000, CLONE_TIMEOUT);
    assert_eq!(verdict.outcome, Err(Error::GitError("not found".to_string())));

    let verdict = settle_clone(failed(), 5_000_000_001, CLONE_TIMEOUT);
    assert_eq!(verdict.outcome, Err(Error::RepositoryCloningTimedOut));
    assert!(verdict.remove_directory);

    let verdict = settle_clone(CloneEvent::DeadlinePassed, 0, CLONE_TIMEOUT);
    assert_eq!(verdict.outcome, Err(Error::RepositoryCloningTimedOut));
    assert!(verdict.remove_directory);
}

#[test]
fn tooltips_give_counts() {
    assert_eq!(count_of_tooltip("No contributions on December 10th."), Some(0));
    assert_eq!(count_of_tooltip("No contributions"), Some(0));
    assert_eq!(count_of_tooltip("1 contribution on May 19th."), Some(1));
    assert_eq!(count_of_tooltip("12 contributions on May 20th."), Some(12));
    assert_eq!(count_of_tooltip("007 contribution"), Some(7));
    assert_eq!(count_of_tooltip("0 contributions"), Some(0));
    assert_eq!(
        count_of_tooltip("18446744073709551615 contributions"),
        Some(usize::MAX)
    );

    assert_eq!(count_of_tooltip("18446744073709551616 contributions"), None);
    assert_eq!(count_of_tooltip("99999999999999999999999 contributions"), None);
    assert_eq!(count_of_tooltip(""), None);
    assert_eq!(count_of_tooltip("No contribution"), None);
    assert_eq!(count_of_tooltip("no contributions"), None);
    assert_eq!(count_of_tooltip(" 1 contribution"), None);
    assert_eq!(count_of_tooltip("1contribution"), None);
    assert_eq!(count_of_tooltip("1  contributions"), None);
    assert_eq!(count_of_tooltip("1 contributio"), None);
    assert_eq!(count_of_tooltip("+1 contribution"), None);
    assert_eq!(count_of_tooltip("-1 contribution"), None);
    assert_eq!(count_of_tooltip("1.5 contributions"), None);
    assert_eq!(count_of_tooltip("١٢ contributions"), None);
    assert_eq!(count_of_tooltip("1٢ contributions"), None);
    assert_eq!(count_of_tooltip("12"), None);
    assert_eq!(count_of_tooltip("contributions"), None);
}

fn cell(date: &str, tooltip: &str) -> Cell {
    Cell {
        date: Some(date.to_string()),
        id: Some("contribution-day-component".to_string()),
        tooltip: Tooltip::Found(tooltip.to_string()),
    }
}

#[test]
fn cells_give_days_and_counts() {
    let cells = vec![
        cell("2023-12-10", "No contributions on December 10th."),
        cell("2024-05-19", "1 contribution on May 19th."),
        cell("2024-05-20", "12 contributions on May 20th."),
        cell("2024-05-20", "3 contributions on May 20th."),
    ];
    let result = Github::activity_of_cells(&cells).unwrap();
    assert_eq!(result.active_days(), 3);
    assert_eq!(result.get(&day(2023, 12, 10)), Some(0));
    assert_eq!(result.get(&day(2024, 5, 19)), Some(1));
    assert_eq!(result.get(&day(2024, 5, 20)), Some(3));
    assert_eq!(result.contribution_count(), 4);
    assert_eq!(
        Github::read_cell(&cells[2]),
        Ok((day(2024, 5, 20), 12))
    );
    assert_eq!(Github::activity_of_cells(&vec![]), Ok(ContributionActivity::new()));
}

#[test]
fn faults_of_cells() {
    let good = || cell("2024-05-19", "1 contribution on May 19th.");
    let fault = |cell: Cell| Github::activity_of_cells(&vec![good(), cell, good()]);

    let mut no_date = good();
    no_date.date = None;
    no_date.tooltip = Tooltip::Missing;
    assert_eq!(fault(no_date), Err(Error::AttributeMissing));

    let mut no_id = good();
    no_id.id = None;
    no_id.tooltip = Tooltip::SelectorFailed("never looked for".to_string());
    assert_eq!(fault(no_id), Err(Error::AttributeMissing));

    let mut bad_selector = cell("never", "nothing");
    bad_selector.tooltip = Tooltip::SelectorFailed("unexpected token".to_string());
    assert_eq!(
        fault(bad_selector),
        Err(Error::SelectorError("unexpected token".to_string()))
    );

    let mut no_tooltip = cell("never", "nothing");
    no_tooltip.tooltip = Tooltip::Missing;
    assert_eq!(fault(no_tooltip), Err(Error::TooltipMissing));

    assert_eq!(
        fault(cell("never", "Some contributions")),
        Err(Error::UnexpectedTooltipMessage("Some contributions".to_string()))
    );

    assert!(matches!(
        fault(cell("never", "1 contribution")),
        Err(Error::UnableToParseDate(_))
    ));

    // the first fault decides
    let cells = vec![cell("never", "1 contribution"), cell("2024-05-19", "")];
    assert!(matches!(
        Github::activity_of_cells(&cells),
        Err(Error::UnableToParseDate(_))
    ));

    let cells = vec![
        cell("2024-05-19", "18446744073709551615 contributions"),
        cell("2024-05-20", "1 contribution"),
    ];
    assert_eq!(
        Github::activity_of_cells(&cells),
        Err(Error::TooManyContributions)
    );
}

#[test]
fn calendar_of_gitlab() {
    let json = r#"{"2024-01-22":1,"2024-01-29":3,"2024-02-04":2,"2024-02-05":15}"#;
    let result = Gitlab::parse(json).unwrap();

    assert_eq!(result.get(&day(2024, 01, 22)), Some(1));
    assert_eq!(result.get(&day(2024, 02, 04)), Some(2));
    assert_eq!(result.get(&day(2024, 01, 01)), None);
    assert_eq!(result.contribution_count(), 21);
    assert_eq!(result.active_days(), 4);

    assert_eq!(Gitlab::parse("{}"), Ok(ContributionActivity::new()));
}

#[test]
fn faults_of_the_calendar_of_gitlab() {
    assert!(matches!(Gitlab::parse(""), Err(Error::UnableToParseJson(_))));
    assert!(matches!(Gitlab::parse("[]"), Err(Error::UnableToParseJson(_))));
    assert!(matches!(
        Gitlab::parse(r#"{"2024-01-22":-1}"#),
        Err(Error::UnableToParseJson(_))
    ));
    assert!(matches!(
        Gitlab::parse(r#"{"2024-01-22":"1"}"#),
        Err(Error::UnableToParseJson(_))
    ));
    assert!(matches!(
        Gitlab::parse(r#"{"2024-01-32":1}"#),
        Err(Error::UnableToParseDate(_))
    ));
    assert_eq!(
        Gitlab::parse(r#"{"2024-01-22":18446744073709551615,"2024-01-23":1}"#),
        Err(Error::TooManyContributions)
    );
}

#[test]
fn entries_of_gitlab_in_their_order() {
    let entry = |date: &str, count: usize| (date.to_string(), count);
    let entries = vec![
        entry("2024-01-22", 1),
        entry("2024-02-04", 2),
        entry("2024-01-22", 5),
    ];
    let result = Gitlab::activity_of_entries(&entries).unwrap();
    assert_eq!(result.get(&day(2024, 1, 22)), Some(5));
    assert_eq!(result.contribution_count(), 7);

    let entries = vec![entry("2024-01-22", 1), entry("2024-01-2x", 2)];
    assert!(matches!(
        Gitlab::activity_of_entries(&entries),
        Err(Error::UnableToParseDate(_))
    ));
}

#[test]
fn heatmap_of_gitea() {
    let point = |timestamp: i64, contributions: usize| HeatmapDataPoint {
        timestamp,
        contributions,
    };
    // 2024-07-09 00:00:00 UTC is 1720483200
    let points = vec![
        point(1720483200, 1),
        point(1720483200 + 900, 2),
        point(1720483200 + DAY - 1, 3),
        point(1720483200 + 20 * DAY, 1),
        point(1720483200 + 21 * DAY, 0),
    ];
    let result = ContributionActivity::try_from(points).unwrap();
    assert_eq!(result.get(&day(2024, 07, 09)), Some(6));
    assert_eq!(result.get(&day(2024, 07, 29)), Some(1));
    assert_eq!(result.get(&day(2024, 07, 30)), Some(0));
    assert_eq!(result.get(&day(2024, 07, 10)), None);
    assert_eq!(result.contribution_count(), 7);
    assert_eq!(result.active_days(), 3);

    assert_eq!(
        ContributionActivity::try_from(Vec::<HeatmapDataPoint>::new()),
        Ok(ContributionActivity::new())
    );
    assert_eq!(
        ContributionActivity::try_from(vec![point(0, 1), point(i64::MAX, 1)]),
        Err(invalid_timestamp())
    );
    assert_eq!(
        ContributionActivity::try_from(vec![point(0, usize::MAX), point(DAY, 1)]),
        Err(Error::TooManyContributions)
    );
    assert_eq!(
        ContributionActivity::try_from(vec![point(0, usize::MAX), point(i64::MAX, 1)]),
        Err(invalid_timestamp())
    );
}

fn ledger(entries: &[(Date, usize)]) -> ContributionActivity {
    ContributionActivity::from_entries(&entries.to_vec()).unwrap()
}

#[test]
fn sources_are_merged() {
    let first = || ledger(&[(day(2024, 1, 1), 1), (day(2024, 1, 2), 2)]);
    let second = || ledger(&[(day(2024, 1, 2), 3)]);
    let all = ledger(&[(day(2024, 1, 1), 1), (day(2024, 1, 2), 5)]);

    for policy in [FailurePolicy::Abort, FailurePolicy::Skip] {
        assert_eq!(merge_sources(vec![], policy), Ok(ContributionActivity::new()));
        assert_eq!(merge_sources(vec![Ok(first()), Ok(second())], policy), Ok(all.clone()));
        assert_eq!(merge_sources(vec![Ok(second()), Ok(first())], policy), Ok(all.clone()));
    }

    let results = || {
        vec![
            Ok(first()),
            Err(Error::UserNotFound),
            Ok(second()),
            Err(Error::TooltipMissing),
        ]
    };
    assert_eq!(merge_sources(results(), FailurePolicy::Abort), Err(Error::UserNotFound));
    assert_eq!(merge_sources(results(), FailurePolicy::Skip), Ok(all));

    let too_many = || {
        vec![
            Ok(ledger(&[(day(2024, 1, 1), usize::MAX)])),
            Ok(ledger(&[(day(2024, 1, 2), 1)])),
            Err(Error::UserNotFound),
        ]
    };
    assert_eq!(merge_sources(too_many(), FailurePolicy::Abort), Err(Error::UserNotFound));
    assert_eq!(
        merge_sources(too_many(), FailurePolicy::Skip),
        Err(Error::TooManyContributions)
    );
}

#[test]
fn descriptions_of_sources() {
    let info = RepositoryInfo {
        url: "https://codeberg.org".to_string(),
        user_name: "unfa".to_string(),
        kind: RepositoryKind::Gitea,
    };
    let copy = info.clone();
    assert_eq!(copy.url, "https://codeberg.org");
    assert_eq!(copy.user_name, "unfa");
    assert_eq!(copy.kind, RepositoryKind::Gitea);
    assert_ne!(RepositoryKind::Gitlab, RepositoryKind::BareGitRepository);
}
