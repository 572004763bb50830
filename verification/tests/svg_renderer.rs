use commitoria::date::Date;
use commitoria::svg::contribution_colour::ColourStrategy;
use commitoria::svg::layout::{layout, Data, MonthText};
use commitoria::svg::rgba::{Rgba, StringToRgbaError};
use commitoria::svg::svg_renderer::{Builder, BuilderError, SvgRenderer};
use commitoria::types::contribution_activity::ContributionActivity;
use commitoria::types::error::Error;

fn get_renderer() -> SvgRenderer {
    Builder::default().build().unwrap()
}

fn day(year: i32, month: u32, day: u32) -> Date {
    Date::from_ymd_opt(year, month, day).unwrap()
}

fn interpolating(inactive: &str, active: &str) -> Builder {
    Builder {
        font_size: None,
        cell_size: None,
        colour_strategy: Some("InterpolationStrategy".to_string()),
        active_colour: Some(active.to_string()),
        inactive_colour: Some(inactive.to_string()),
    }
}

const STYLE_HEAD: &str = "<style>
            :root {
                --text-color-default: #3a383f;
                --border-color-default: #dcdcde;
            }

            .user-contrib-text {
                font-size: 11px;
                font-family: \"Noto Sans\", Ubuntu, Cantarell, \"Helvetica Neue\", sans-serif;
            }";

const LEVEL_RULES: &str = "

            .user-contrib-cell[data-level=\"0\"] {
                fill: #ececefff;
            }

            .user-contrib-cell[data-level=\"1\"] {
                fill: #d2dcffff;
            }

            .user-contrib-cell[data-level=\"2\"] {
                fill: #7992f5ff;
            }

            .user-contrib-cell[data-level=\"3\"] {
                fill: #4e65cdff;
            }

            .user-contrib-cell[data-level=\"4\"] {
                fill: #303470ff;
            }";

const STYLE_TAIL: &str = "
        </style>";

#[test]
fn svg_renderer_render_week() {
    let data = vec![vec![
        Data {
            count: 0,
            date: Date::from_ymd_opt(2024, 12.try_into().unwrap(), 2).unwrap(),
        },
        Data {
            count: 0,
            date: Date::from_ymd_opt(2024, 12.try_into().unwrap(), 3).unwrap(),
        },
        Data {
            count: 1,
            date: Date::from_ymd_opt(2024, 12.try_into().unwrap(), 4).unwrap(),
        },
        Data {
            count: 2,
            date: Date::from_ymd_opt(2024, 12.try_into().unwrap(), 5).unwrap(),
        },
        Data {
            count: 17,
            date: Date::from_ymd_opt(2024, 12.try_into().unwrap(), 6).unwrap(),
        },
        Data {
            count: 0,
            date: Date::from_ymd_opt(2024, 12.try_into().unwrap(), 7).unwrap(),
        },
        Data {
            count: 0,
            date: Date::from_ymd_opt(2024, 12.try_into().unwrap(), 8).unwrap(),
        },
    ]];

    let svg = get_renderer().render_week_rows(data);
    let fixture = r#"<g transform="translate(6, 17)" data-testid="user-contrib-cell-group">
<rect x="0" y="0" rx="2" ry="2" width="14" height="14" data-level="0" data-hover-info="No contributions" data-date="2024-12-02" class="user-contrib-cell has-tooltip"></rect>
<rect x="0" y="16" rx="2" ry="2" width="14" height="14" data-level="0" data-hover-info="No contributions" data-date="2024-12-03" class="user-contrib-cell has-tooltip"></rect>
<rect x="0" y="32" rx="2" ry="2" width="14" height="14" data-level="1" data-hover-info="1 contribution" data-date="2024-12-04" class="user-contrib-cell has-tooltip"></rect>
<rect x="0" y="48" rx="2" ry="2" width="14" height="14" data-level="1" data-hover-info="2 contributions" data-date="2024-12-05" class="user-contrib-cell has-tooltip"></rect>
<rect x="0" y="64" rx="2" ry="2" width="14" height="14" data-level="2" data-hover-info="17 contributions" data-date="2024-12-06" class="user-contrib-cell has-tooltip"></rect>
<rect x="0" y="80" rx="2" ry="2" width="14" height="14" data-level="0" data-hover-info="No contributions" data-date="2024-12-07" class="user-contrib-cell has-tooltip"></rect>
<rect x="0" y="96" rx="2" ry="2" width="14" height="14" data-level="0" data-hover-info="No contributions" data-date="2024-12-08" class="user-contrib-cell has-tooltip"></rect>
</g>
"#;
    assert_eq!(svg, fixture.trim());
}

#[test]
fn weeks_with_interpolated_colours() {
    let renderer = interpolating("#00000000", "ffffffff").build().unwrap();
    // 6 contributions on 3 days: an average of 2
    let data = vec![
        vec![Data { count: 0, date: day(2024, 12, 8) }],
        vec![
            Data { count: 2, date: day(2024, 12, 9) },
            Data { count: 4, date: day(2024, 12, 10) },
        ],
    ];
    let svg = renderer.render_week_rows(data);
    let expected = r##"<g transform="translate(6, 17)" data-testid="user-contrib-cell-group">
<rect x="0" y="96" rx="2" ry="2" width="14" height="14" fill="#00000000" data-hover-info="No contributions" data-date="2024-12-08" class="user-contrib-cell has-tooltip"></rect>
</g>
<g transform="translate(22, 17)" data-testid="user-contrib-cell-group">
<rect x="0" y="0" rx="2" ry="2" width="14" height="14" fill="#80808080" data-hover-info="2 contributions" data-date="2024-12-09" class="user-contrib-cell has-tooltip"></rect>
<rect x="0" y="16" rx="2" ry="2" width="14" height="14" fill="#aaaaaaaa" data-hover-info="4 contributions" data-date="2024-12-10" class="user-contrib-cell has-tooltip"></rect>
</g>"##;
    assert_eq!(svg, expected);
}

#[test]
fn no_weeks_render_as_nothing() {
    assert_eq!(get_renderer().render_week_rows(vec![]), "");
    assert_eq!(get_renderer().render_week_day_cells(vec![], 0, 0), "");
    assert_eq!(
        get_renderer().render_week_rows(vec![vec![]]),
        "<g transform=\"translate(6, 17)\" data-testid=\"user-contrib-cell-group\">\n\n</g>"
    );
}

#[test]
fn captions_of_months() {
    let renderer = get_renderer();
    let caption = MonthText { group: 3, month: 0 };
    assert_eq!(caption.get_text(), "Jan");
    assert_eq!(
        caption.render(&renderer),
        r#"<text x="54" y="11" class="user-contrib-text">Jan</text>"#
    );
    let names: Vec<String> = (0..12)
        .map(|month| MonthText { group: 0, month }.get_text())
        .collect();
    assert_eq!(
        names,
        ["Jan", "Feb", "Mar", "Apr", "May", "Jun", "Jul", "Aug", "Sep", "Oct", "Nov", "Dec"]
    );
    assert_eq!(
        renderer.render_text(vec![
            MonthText { group: 0, month: 11 },
            MonthText { group: 3, month: 0 }
        ]),
        "<g direction=\"ltr\"><text x=\"6\" y=\"11\" class=\"user-contrib-text\">Dec</text>\n<text x=\"54\" y=\"11\" class=\"user-contrib-text\">Jan</text></g>"
    );
    assert_eq!(renderer.render_text(vec![]), "<g direction=\"ltr\"></g>");
}

#[test]
fn style_sheet() {
    assert_eq!(
        get_renderer().get_style(),
        format!("{STYLE_HEAD}{LEVEL_RULES}{STYLE_TAIL}")
    );
    let interpolated = interpolating("00000000", "ffffffff").build().unwrap();
    assert_eq!(
        interpolated.get_style(),
        format!("{STYLE_HEAD}{STYLE_TAIL}")
    );
    let large = Builder {
        font_size: Some(20),
        ..Builder::default()
    };
    assert!(large.build().unwrap().get_style().contains("font-size: 20px;"));
}

#[test]
fn wrapped_image() {
    let svg = get_renderer().wrap_svg(854, 129, "content");
    assert_eq!(
        svg,
        format!(
            "<svg xmlns=\"http://www.w3.org/2000/svg\" width=\"854\" height=\"129\" class=\"contrib-calendar\" data-testid=\"contrib-calendar\">\n    {STYLE_HEAD}{LEVEL_RULES}{STYLE_TAIL}\n    content\n</svg>"
        )
    );
}

/// A ledger with 370 days that have an entry and 191 contributions in all.
fn fixture() -> ContributionActivity {
    let mut activity = ContributionActivity::new();
    let mut date = day(2023, 12, 10);
    for index in 0..370 {
        activity.add_contributions(&date, index % 2);
        date = date.succ_opt().unwrap();
    }
    let mut date = day(2024, 5, 19);
    for _ in 0..6 {
        activity.add_contributions(&date, 1);
        date = date.succ_opt().unwrap();
    }
    activity
}

#[test]
fn render_full_is_the_same_each_time_and_has_a_cell_for_each_day() {
    let activity = fixture();
    assert_eq!(activity.active_days(), 370);
    assert_eq!(activity.contribution_count(), 191);

    let today = day(2024, 12, 13);
    let svg = get_renderer().render_at(&activity, today);
    assert_eq!(svg, get_renderer().render_at(&activity, today));
    assert_eq!(svg, get_renderer().render_at(&fixture(), today));

    // from 2023-12-13 to 2024-12-13, both counted, through a leap year
    assert_eq!(svg.matches("<rect ").count(), 367);
    assert_eq!(svg.matches("data-date=\"").count(), 367);
    assert_eq!(svg.matches("<g transform=").count(), 53);
    assert_eq!(svg.matches("<text ").count(), 13);
    assert!(svg.starts_with(
        "<svg xmlns=\"http://www.w3.org/2000/svg\" width=\"854\" height=\"129\" class=\"contrib-calendar\" data-testid=\"contrib-calendar\">\n    <style>"
    ));
    assert!(svg.ends_with("<text x=\"822\" y=\"11\" class=\"user-contrib-text\">Dec</text></g>\n</svg>"));
    assert!(svg.contains("data-date=\"2023-12-13\""));
    assert!(svg.contains("data-date=\"2024-02-29\""));
    assert!(svg.contains("data-date=\"2024-12-13\""));
    assert!(!svg.contains("data-date=\"2023-12-12\""));
    assert!(!svg.contains("data-date=\"2024-12-14\""));
    assert!(svg.contains(
        "<rect x=\"0\" y=\"96\" rx=\"2\" ry=\"2\" width=\"14\" height=\"14\" data-level=\"1\" data-hover-info=\"2 contributions\" data-date=\"2024-05-19\" class=\"user-contrib-cell has-tooltip\"></rect>"
    ));

    let (weeks, months) = layout(&activity, today);
    assert_eq!(svg, get_renderer().compose(weeks, months));
}

#[test]
fn builder_defaults() {
    let renderer = Builder::default().build().unwrap();
    let svg = renderer.render_week_rows(vec![vec![Data { count: 0, date: day(2024, 12, 4) }]]);
    // cells of 14 pixels in rows of 16, below captions of 11 pixels
    assert!(svg.contains("translate(6, 17)"));
    assert!(svg.contains("y=\"32\""));
    assert!(svg.contains("width=\"14\" height=\"14\""));
    assert!(svg.contains("data-level=\"0\""));
    assert_eq!(Builder::default().day_size_with_space(), 16);
}

#[test]
fn builder_sizes() {
    let builder = Builder {
        font_size: Some(20),
        cell_size: Some(10),
        colour_strategy: Some("GitlabStrategy".to_string()),
        active_colour: None,
        inactive_colour: None,
    };
    assert_eq!(builder.day_size_with_space(), 12);
    let renderer = builder.build().unwrap();
    let svg = renderer.render_week_rows(vec![
        vec![],
        vec![Data { count: 0, date: day(2024, 12, 4) }],
    ]);
    assert!(svg.contains("translate(18, 26)"));
    assert!(svg.contains("y=\"24\""));
    assert!(svg.contains("width=\"10\" height=\"10\""));
    assert_eq!(
        renderer.wrap_svg(1, 2, "").matches("font-size: 20px;").count(),
        1
    );
}

#[test]
fn builder_errors() {
    let unknown = Builder {
        colour_strategy: Some("gitlabstrategy".to_string()),
        ..Builder::default()
    };
    assert_eq!(unknown.build().err(), Some(BuilderError::UnknownColourStrategy));

    let missing = Builder {
        colour_strategy: Some("InterpolationStrategy".to_string()),
        active_colour: Some("#ffffffff".to_string()),
        ..Builder::default()
    };
    assert_eq!(
        missing.build().err(),
        Some(BuilderError::InterpolationParametersMissing)
    );
    let missing = Builder {
        colour_strategy: Some("InterpolationStrategy".to_string()),
        inactive_colour: Some("#ffffffff".to_string()),
        ..Builder::default()
    };
    assert_eq!(
        missing.build().err(),
        Some(BuilderError::InterpolationParametersMissing)
    );

    assert_eq!(
        interpolating("#fffffff", "nothing").build().err(),
        Some(BuilderError::InvalidRgbaValue(StringToRgbaError::InvalidLength))
    );
    assert_eq!(
        interpolating("#ffffffff", "#fffffffg").build().err(),
        Some(BuilderError::InvalidRgbaValue(StringToRgbaError::InvalidHexValue))
    );
    assert_eq!(
        interpolating("#ffffffff", "#fffffffö").build().err(),
        Some(BuilderError::InvalidRgbaValue(StringToRgbaError::NotAscii))
    );
    // colours that are not used are not read
    let unused = Builder {
        active_colour: Some("nothing".to_string()),
        inactive_colour: Some("nothing".to_string()),
        ..Builder::default()
    };
    assert!(unused.build().is_ok());
}

#[test]
fn builder_through_try_from() {
    assert!(SvgRenderer::try_from(Builder::default()).is_ok());
    assert_eq!(
        SvgRenderer::try_from(interpolating("", "")).err(),
        Some(BuilderError::InvalidRgbaValue(StringToRgbaError::InvalidLength))
    );
    assert_eq!(
        BuilderError::from(StringToRgbaError::NotAscii),
        BuilderError::InvalidRgbaValue(StringToRgbaError::NotAscii)
    );
    assert_eq!(
        Error::from(BuilderError::UnknownColourStrategy),
        Error::BuilderError(BuilderError::UnknownColourStrategy)
    );
}

#[test]
fn strategy_of_the_builder_colours_the_cells() {
    let renderer = interpolating("#000000ff", "#64c828ff").build().unwrap();
    let svg = renderer.render_week_rows(vec![vec![
        Data { count: 1, date: day(2024, 12, 4) },
        Data { count: 1, date: day(2024, 12, 5) },
    ]]);
    let strategy = ColourStrategy::InterpolationStrategy {
        inactive_colour: Rgba(0, 0, 0, 255),
        active_colour: Rgba(100, 200, 40, 255),
    };
    let colour = strategy.get_colour(commitoria::svg::contribution_colour::ContributionInfo {
        count_today: 1,
        total_count: 2,
        day_count: 2,
    });
    assert_eq!(colour, Rgba(50, 100, 20, 255));
    assert_eq!(svg.matches("fill=\"#326414ff\"").count(), 2);
}
