use commitoria::date::Date;
use commitoria::provider::gitea::Gitea;
use commitoria::provider::github::Github;
use commitoria::provider::gitlab::Gitlab;
use commitoria::types::contribution_activity::ContributionActivity;
use commitoria::types::error::Error;

fn day(year: i32, month: u32, day: u32) -> Date {
    Date::from_ymd_opt(year, month, day).unwrap()
}

fn page(cells: &str, tooltips: &str) -> String {
    format!(
        "<html><body><div><table><tbody><tr>{cells}</tr></tbody></table>{tooltips}</div></body></html>"
    )
}

#[test]
fn calendar_on_a_page_of_github() {
    let html = page(
        r#"<td data-date="2023-12-10" id="day-0" data-level="0"></td>
           <td>Mon</td>
           <td data-date="2024-05-19" id="day-1" data-level="1"></td>
           <td data-date="2024-05-20" id="day-2" data-level="2"></td>"#,
        r#"<tool-tip for="day-1">1 contribution on May 19th.</tool-tip>
           <tool-tip for="day-0">No contributions on December 10th.</tool-tip>
           <tool-tip for="day-2">12 contributions on May 20th.</tool-tip>
           <tool-tip for="day-2">13 contributions on May 20th.</tool-tip>"#,
    );
    let result = Github::parse(&html).unwrap();

    assert_eq!(result.active_days(), 3);
    assert_eq!(result.get(&day(2023, 12, 10)), Some(0));
    assert_eq!(result.get(&day(2024, 05, 19)), Some(1));
    assert_eq!(result.get(&day(2024, 05, 20)), Some(12));
    assert_eq!(result.contribution_count(), 13);
}

#[test]
fn page_of_github_without_a_calendar() {
    assert_eq!(Github::parse(""), Ok(ContributionActivity::new()));
    assert_eq!(
        Github::parse("<html><body><p>Not Found</p></body></html>"),
        Ok(ContributionActivity::new())
    );
    // cells that are not in a table in a div are none
    let html = r#"<table><tbody><tr><td data-date="2023-12-10"></td></tr></tbody></table>"#;
    assert_eq!(Github::parse(html), Ok(ContributionActivity::new()));
}

#[test]
fn faults_of_a_page_of_github() {
    let tooltip = r#"<tool-tip for="day-0">3 contributions on December 10th.</tool-tip>"#;

    let html = page(r#"<td data-date="2023-12-10"></td>"#, tooltip);
    assert_eq!(Github::parse(&html), Err(Error::AttributeMissing));

    let html = page(r#"<td data-date="2023-12-10" id="day-1"></td>"#, tooltip);
    assert_eq!(Github::parse(&html), Err(Error::TooltipMissing));

    let html = page(r#"<td data-date="2023-12-10" id='day"0'></td>"#, tooltip);
    assert!(matches!(Github::parse(&html), Err(Error::SelectorError(_))));

    let html = page(
        r#"<td data-date="2023-12-10" id="day-0"></td>"#,
        r#"<tool-tip for="day-0">Three contributions</tool-tip>"#,
    );
    assert_eq!(
        Github::parse(&html),
        Err(Error::UnexpectedTooltipMessage("Three contributions".to_string()))
    );

    let html = page(r#"<td data-date="10.12.2023" id="day-0"></td>"#, tooltip);
    assert!(matches!(Github::parse(&html), Err(Error::UnableToParseDate(_))));

    // the first cell that fails decides
    let html = page(
        r#"<td data-date="10.12.2023" id="day-0"></td><td data-date="2023-12-11"></td>"#,
        tooltip,
    );
    assert!(matches!(Github::parse(&html), Err(Error::UnableToParseDate(_))));
    let html = page(
        r#"<td data-date="2023-12-11"></td><td data-date="10.12.2023" id="day-0"></td>"#,
        tooltip,
    );
    assert_eq!(Github::parse(&html), Err(Error::AttributeMissing));
}

#[test]
fn heatmap_on_a_page_of_gitea() {
    let html = r#"<html><body><div id="user-heatmap" data-heatmap-data="[{&quot;timestamp&quot;:1720483200,&quot;contributions&quot;:6}]"></div><div id="user-heatmap" data-heatmap-data="[]"></div></body></html>"#;
    assert_eq!(
        Gitea::heatmap_data(html),
        Ok(r#"[{"timestamp":1720483200,"contributions":6}]"#.to_string())
    );
    assert_eq!(
        Gitea::heatmap_data("<html><body><div id=\"heatmap\"></div></body></html>"),
        Err(Error::UserNotFound)
    );
    assert_eq!(Gitea::heatmap_data(""), Err(Error::UserNotFound));
    assert_eq!(
        Gitea::heatmap_data("<html><body><div id=\"user-heatmap\"></div></body></html>"),
        Err(Error::AttributeMissing)
    );
    assert_eq!(
        Gitea::heatmap_data("<p id=\"user-heatmap\" data-heatmap-data=\"[]\"></p>"),
        Err(Error::UserNotFound)
    );
}

#[test]
fn addresses_of_the_pages() {
    assert_eq!(
        Github::contributions_url("mre"),
        "https://github.com/users/mre/contributions"
    );
    assert_eq!(
        Github::contributions_url(""),
        "https://github.com/users//contributions"
    );
    assert_eq!(
        Gitlab::calendar_url("https://gitlab.com", "thomas-zahner"),
        Some("https://gitlab.com/users/thomas-zahner/calendar.json".to_string())
    );
    assert_eq!(
        Gitlab::calendar_url("https://gitlab.com/explore?sort=latest#top", "a b"),
        Some("https://gitlab.com/users/a%20b/calendar.json?sort=latest#top".to_string())
    );
    assert_eq!(Gitlab::calendar_url("gitlab.com", "thomas-zahner"), None);
    assert_eq!(Gitlab::calendar_url("", "thomas-zahner"), None);
    assert_eq!(
        Gitea::activity_url("https://codeberg.org", "unfa"),
        Some("https://codeberg.org/unfa?tab=activity".to_string())
    );
    assert_eq!(
        Gitea::activity_url("https://git.omaps.dev/explore?q=1", "kirylkaveryn"),
        Some("https://git.omaps.dev/kirylkaveryn?tab=activity".to_string())
    );
    assert_eq!(Gitea::activity_url("codeberg", "unfa"), None);
}

#[test]
fn addresses_that_are_too_long() {
    let long = "a".repeat(10_000_001);
    assert_eq!(Gitlab::calendar_url("https://gitlab.com", &long), None);
    assert_eq!(Gitlab::calendar_url(&long, "user"), None);
    assert_eq!(Gitea::activity_url("https://codeberg.org", &long), None);
    assert_eq!(Gitea::activity_url(&long, "user"), None);
    let longest = "a".repeat(10_000_000 - 20);
    assert!(Gitlab::calendar_url("https://gitlab.com", &longest).is_some());
}
