//! The renderer: composes the weeks of a calendar, the captions of its
//! months and a style sheet into the text of an SVG image.

use crate::date::{lemma_last_day_number, lemma_sub_year, Date, MIN_YEAR};
use crate::svg::contribution_colour::{
    cornflower_blue, darkslate_blue, get_gitlab_colour, lavender, royal_blue, white_smoke,
    ColourStrategy, ContributionInfo,
};
use crate::svg::contribution_level::{level_of, ContributionLevel, GitlabContributionLevel};
use crate::svg::layout::{
    calendar_months, calendar_weeks, day_total, layout, lemma_calendar_days, lemma_calendar_shape,
    lemma_month_labels, week_count, weeks_view, Data, MonthText,
};
use crate::svg::rgba::{parse_rgba, Rgba, StringToRgbaError};
use crate::types::contribution_activity::ContributionActivity;
use crate::text::{decimal, optional_text, push_decimal};
use vstd::prelude::*;
use vstd::string::StringExecFns;

verus! {

/// The font size in pixels where none is asked for.
pub const FONT_SIZE_DEFAULT: usize = 11;

/// The size of a cell in pixels where none is asked for.
pub const CELL_SIZE_DEFAULT: usize = 14;

/// The space in pixels on each side of a cell.
pub const DAY_SPACE: usize = 1;

/// The space in pixels between the captions and the cells, and below the
/// cells.
pub const EXTRA_PADDING: usize = 6;

/// The space in pixels to the left of the first week.
pub const MARGIN_HORIZONTAL: usize = 6;

/// The texts of `parts` with a line break between each two.
pub open spec fn joined(parts: Seq<Seq<char>>) -> Seq<char>
    decreases parts.len(),
{
    if parts.len() == 0 {
        Seq::empty()
    } else if parts.len() == 1 {
        parts[0]
    } else {
        joined(parts.drop_last()) + "\n"@ + parts.last()
    }
}

/// What the tooltip of a day says of its contributions.
pub open spec fn hover_text(count: nat) -> Seq<char> {
    if count == 0 {
        "No contributions"@
    } else if count == 1 {
        "1 contribution"@
    } else {
        decimal(count) + " contributions"@
    }
}

/// Appends what the tooltip of a day says of its contributions.
fn push_hover_info(out: &mut String, count: usize)
    ensures
        final(out)@ == old(out)@ + hover_text(count as nat),
{
    if count == 0 {
        out.append("No contributions");
    } else if count == 1 {
        out.append("1 contribution");
    } else {
        let ghost before = out@;
        push_decimal(out, count as u128);
        out.append(" contributions");
        assert(out@ =~= before + hover_text(count as nat));
    }
}

/// The name of a month, from 0 for January, in three letters.
pub open spec fn month_name(month: int) -> Seq<char> {
    if month == 0 {
        "Jan"@
    } else if month == 1 {
        "Feb"@
    } else if month == 2 {
        "Mar"@
    } else if month == 3 {
        "Apr"@
    } else if month == 4 {
        "May"@
    } else if month == 5 {
        "Jun"@
    } else if month == 6 {
        "Jul"@
    } else if month == 7 {
        "Aug"@
    } else if month == 8 {
        "Sep"@
    } else if month == 9 {
        "Oct"@
    } else if month == 10 {
        "Nov"@
    } else {
        "Dec"@
    }
}

/// The colour of the cells of a level.
pub open spec fn level_colour(level: nat) -> Rgba {
    if level == 0 {
        white_smoke()
    } else if level == 1 {
        lavender()
    } else if level == 2 {
        cornflower_blue()
    } else if level == 3 {
        royal_blue()
    } else {
        darkslate_blue()
    }
}

/// The sum of the counts of the days.
pub open spec fn count_sum(days: Seq<Data>) -> nat
    decreases days.len(),
{
    if days.len() == 0 {
        0
    } else {
        count_sum(days.drop_last()) + days.last().count as nat
    }
}

/// The sum of the counts of the days of all weeks.
pub open spec fn count_total(weeks: Seq<Seq<Data>>) -> nat
    decreases weeks.len(),
{
    if weeks.len() == 0 {
        0
    } else {
        count_total(weeks.drop_last()) + count_sum(weeks.last())
    }
}

/// Whether every day of the week is a valid date.
pub open spec fn valid_days(days: Seq<Data>) -> bool {
    forall|i: int| 0 <= i < days.len() ==> (#[trigger] days[i]).date.valid()
}

/// Whether every day of every week is a valid date.
pub open spec fn valid_weeks(weeks: Seq<Seq<Data>>) -> bool {
    forall|week: int| 0 <= week < weeks.len() ==> valid_days(#[trigger] weeks[week])
}

/// What a renderer is built from. Where a field is `None`, the renderer
/// gets the default: a font size of 11, a cell size of 14, the fixed colours.
#[derive(Debug)]
pub struct Builder {
    pub font_size: Option<usize>,
    pub cell_size: Option<usize>,
    pub colour_strategy: Option<String>,
    pub active_colour: Option<String>,
    pub inactive_colour: Option<String>,
}

impl Default for Builder {
    /// The builder that asks for nothing but the defaults.
    fn default() -> (builder: Self)
        ensures
            builder.font_size is None,
            builder.cell_size is None,
            builder.colour_strategy is None,
            builder.active_colour is None,
            builder.inactive_colour is None,
    {
        Builder {
            font_size: None,
            cell_size: None,
            colour_strategy: None,
            active_colour: None,
            inactive_colour: None,
        }
    }
}

/// Why no renderer can be built.
#[derive(Debug, PartialEq, Eq, Clone, Copy, Structural)]
pub enum BuilderError {
    /// The name of the colour strategy is none that is known.
    UnknownColourStrategy,
    /// Interpolation was asked for without both of its colours.
    InterpolationParametersMissing,
    /// One of the colours of the interpolation is no colour.
    InvalidRgbaValue(StringToRgbaError),
}

impl From<StringToRgbaError> for BuilderError {
    fn from(value: StringToRgbaError) -> (error: Self) {
        BuilderError::InvalidRgbaValue(value)
    }
}

impl vstd::std_specs::convert::FromSpecImpl<StringToRgbaError> for BuilderError {
    open spec fn obeys_from_spec() -> bool {
        true
    }

    open spec fn from_spec(value: StringToRgbaError) -> Self {
        BuilderError::InvalidRgbaValue(value)
    }
}

/// The colour strategy that a name and two colours ask for: the fixed
/// colours where there is no name or the name is `GitlabStrategy`; for
/// `InterpolationStrategy`, the interpolation between the two colours, which
/// must both be there and be colours, the inactive one being read first.
pub open spec fn strategy_named(
    name: Option<Seq<char>>,
    inactive: Option<Seq<char>>,
    active: Option<Seq<char>>,
) -> Result<ColourStrategy, BuilderError> {
    match name {
        None => Ok(ColourStrategy::GitlabStrategy),
        Some(name) => if name == "GitlabStrategy"@ {
            Ok(ColourStrategy::GitlabStrategy)
        } else if name == "InterpolationStrategy"@ {
            match (inactive, active) {
                (Some(inactive), Some(active)) => match parse_rgba(inactive) {
                    Err(error) => Err(BuilderError::InvalidRgbaValue(error)),
                    Ok(inactive_colour) => match parse_rgba(active) {
                        Err(error) => Err(BuilderError::InvalidRgbaValue(error)),
                        Ok(active_colour) => Ok(
                            ColourStrategy::InterpolationStrategy { inactive_colour, active_colour },
                        ),
                    },
                },
                _ => Err(BuilderError::InterpolationParametersMissing),
            }
        } else {
            Err(BuilderError::UnknownColourStrategy)
        },
    }
}

impl Builder {
    /// The colour strategy that the builder asks for.
    pub open spec fn strategy(self) -> Result<ColourStrategy, BuilderError> {
        strategy_named(
            optional_text(self.colour_strategy),
            optional_text(self.inactive_colour),
            optional_text(self.active_colour),
        )
    }

    /// The font size that the builder asks for.
    pub open spec fn font_size_or_default(self) -> usize {
        match self.font_size {
            Some(size) => size,
            None => FONT_SIZE_DEFAULT,
        }
    }

    /// The cell size that the builder asks for.
    pub open spec fn cell_size_or_default(self) -> usize {
        match self.cell_size {
            Some(size) => size,
            None => CELL_SIZE_DEFAULT,
        }
    }

    /// Builds the renderer, or says why there is none: the name of the
    /// colour strategy is unknown, or interpolation is asked for without
    /// both colours or with a text that is no colour.
    pub fn build(self) -> (built: Result<SvgRenderer, BuilderError>)
        ensures
            match built {
                Ok(renderer) => {
                    &&& self.strategy() == Ok::<ColourStrategy, BuilderError>(
                        renderer.colour_strategy(),
                    )
                    &&& renderer.font_size() == self.font_size_or_default()
                    &&& renderer.cell_size() == self.cell_size_or_default()
                },
                Err(error) => self.strategy() == Err::<ColourStrategy, BuilderError>(error),
            },
    {
        let font_size = match self.font_size {
            Some(size) => size,
            None => FONT_SIZE_DEFAULT,
        };
        let cell_size = match self.cell_size {
            Some(size) => size,
            None => CELL_SIZE_DEFAULT,
        };
        let colour_strategy = match self.colour_strategy {
            None => ColourStrategy::GitlabStrategy,
            Some(name) => {
                if name == "GitlabStrategy".to_owned() {
                    ColourStrategy::GitlabStrategy
                } else if name == "InterpolationStrategy".to_owned() {
                    match (self.inactive_colour, self.active_colour) {
                        (Some(inactive), Some(active)) => {
                            let inactive_colour = match Rgba::parse(inactive.as_str()) {
                                Ok(colour) => colour,
                                Err(error) => {
                                    return Err(BuilderError::from(error));
                                },
                            };
                            let active_colour = match Rgba::parse(active.as_str()) {
                                Ok(colour) => colour,
                                Err(error) => {
                                    return Err(BuilderError::from(error));
                                },
                            };
                            ColourStrategy::InterpolationStrategy { inactive_colour, active_colour }
                        },
                        _ => {
                            return Err(BuilderError::InterpolationParametersMissing);
                        },
                    }
                } else {
                    return Err(BuilderError::UnknownColourStrategy);
                }
            },
        };
        Ok(SvgRenderer { font_size, cell_size, colour_strategy })
    }

    /// The width of a column and the height of a row that the renderer
    /// will have: the cell size and the space on both sides of a cell.
    pub fn day_size_with_space(&self) -> (size: u128)
        ensures
            size == self.cell_size_or_default() + 2 * DAY_SPACE,
    {
        let cell_size = match self.cell_size {
            Some(size) => size,
            None => CELL_SIZE_DEFAULT,
        };
        cell_size as u128 + 2
    }
}

impl TryFrom<Builder> for SvgRenderer {
    type Error = BuilderError;

    /// Builds the renderer; see [`Builder::build`].
    fn try_from(value: Builder) -> (built: Result<Self, BuilderError>)
        ensures
            match built {
                Ok(renderer) => {
                    &&& value.strategy() == Ok::<ColourStrategy, BuilderError>(
                        renderer.colour_strategy(),
                    )
                    &&& renderer.font_size() == value.font_size_or_default()
                    &&& renderer.cell_size() == value.cell_size_or_default()
                },
                Err(error) => value.strategy() == Err::<ColourStrategy, BuilderError>(error),
            },
    {
        value.build()
    }
}

impl vstd::std_specs::convert::TryFromSpecImpl<Builder> for SvgRenderer {
    open spec fn obeys_try_from_spec() -> bool {
        false
    }

    open spec fn try_from_spec(value: Builder) -> Result<Self, BuilderError> {
        arbitrary()
    }
}

/// The settings of a rendering and the renderer itself: the font size of
/// the captions, the size of a cell, and the strategy that colours the cells.
pub struct SvgRenderer {
    font_size: usize,
    cell_size: usize,
    colour_strategy: ColourStrategy,
}

impl MonthText {
    /// The caption: the name of the month.
    pub fn get_text(&self) -> (text: String)
        requires
            self.month < 12,
        ensures
            text@ == month_name(self.month as int),
    {
        let name = if self.month == 0 {
            "Jan"
        } else if self.month == 1 {
            "Feb"
        } else if self.month == 2 {
            "Mar"
        } else if self.month == 3 {
            "Apr"
        } else if self.month == 4 {
            "May"
        } else if self.month == 5 {
            "Jun"
        } else if self.month == 6 {
            "Jul"
        } else if self.month == 7 {
            "Aug"
        } else if self.month == 8 {
            "Sep"
        } else if self.month == 9 {
            "Oct"
        } else if self.month == 10 {
            "Nov"
        } else {
            "Dec"
        };
        name.to_owned()
    }

    /// The caption as an SVG text element, above the week it stands at.
    pub fn render(&self, renderer: &SvgRenderer) -> (text: String)
        requires
            self.month < 12,
            self.group < usize::MAX,
        ensures
            text@ == renderer.month_text(*self),
    {
        let x: u128 = renderer.column_x(self.group);
        let mut text = "<text x=\"".to_owned();
        push_decimal(&mut text, x);
        text.append("\" y=\"");
        push_decimal(&mut text, renderer.font_size as u128);
        text.append("\" class=\"user-contrib-text\">");
        text.append(self.get_text().as_str());
        text.append("</text>");
        text
    }
}

impl SvgRenderer {
    /// The font size of the captions in pixels.
    pub closed spec fn font_size(self) -> nat {
        self.font_size as nat
    }

    /// The width and height of a cell in pixels.
    pub closed spec fn cell_size(self) -> nat {
        self.cell_size as nat
    }

    /// The strategy that colours the cells.
    pub closed spec fn colour_strategy(self) -> ColourStrategy {
        self.colour_strategy
    }

    /// The width of a column and the height of a row: a cell and the space
    /// on both sides of it.
    pub open spec fn day_size(self) -> nat {
        self.cell_size() + 2 * DAY_SPACE as nat
    }

    /// What paints the cell of a day: its level, which the style sheet
    /// gives a colour, under the fixed colours; its colour under
    /// interpolation.
    pub open spec fn paint_text(self, info: ContributionInfo) -> Seq<char> {
        match self.colour_strategy() {
            ColourStrategy::GitlabStrategy => "data-level=\""@ + decimal(
                level_of(info.count_today as nat),
            ) + "\""@,
            ColourStrategy::InterpolationStrategy { .. } => "fill=\""@
                + self.colour_strategy().colour_of(info).hex_text() + "\""@,
        }
    }

    /// The cell of a day: a rounded square in the row of its weekday, with
    /// its paint, its tooltip and its date.
    pub open spec fn cell_text(self, day: Data, total: nat, days: nat) -> Seq<char> {
        "<rect x=\"0\" y=\""@ + decimal(self.day_size() * day.date.weekday_spec().index() as nat)
            + "\" rx=\"2\" ry=\"2\" width=\""@ + decimal(self.cell_size()) + "\" height=\""@
            + decimal(self.cell_size()) + "\" "@ + self.paint_text(
            ContributionInfo {
                count_today: day.count,
                total_count: total as u128,
                day_count: days as u32,
            },
        ) + " data-hover-info=\""@ + hover_text(day.count as nat) + "\" data-date=\""@
            + day.date.iso_text() + "\" class=\"user-contrib-cell has-tooltip\"></rect>"@
    }

    /// The cells of the days of a week, one per line.
    pub open spec fn week_cells_text(self, days: Seq<Data>, total: nat, day_count: nat) -> Seq<
        char,
    > {
        joined(Seq::new(days.len(), |i: int| self.cell_text(days[i], total, day_count)))
    }

    /// The column of week `week`: a group moved to its place that holds the
    /// cells of its days.
    pub open spec fn week_text(self, week: int, days: Seq<Data>, total: nat, day_count: nat) -> Seq<
        char,
    > {
        "<g transform=\"translate("@ + decimal(
            (self.day_size() * week + MARGIN_HORIZONTAL) as nat,
        ) + ", "@ + decimal(self.font_size() + EXTRA_PADDING as nat)
            + ")\" data-testid=\"user-contrib-cell-group\">\n"@ + self.week_cells_text(
            days,
            total,
            day_count,
        ) + "\n</g>"@
    }

    /// The columns of all weeks, one after the other. The colour of a cell
    /// may depend on the average count of all their days.
    pub open spec fn week_rows_text(self, weeks: Seq<Seq<Data>>) -> Seq<char> {
        joined(
            Seq::new(
                weeks.len(),
                |week: int|
                    self.week_text(week, weeks[week], count_total(weeks), day_total(weeks)),
            ),
        )
    }

    /// The caption of a month, above the week it stands at.
    pub open spec fn month_text(self, month: MonthText) -> Seq<char> {
        "<text x=\""@ + decimal((self.day_size() * month.group + MARGIN_HORIZONTAL) as nat)
            + "\" y=\""@ + decimal(self.font_size()) + "\" class=\"user-contrib-text\">"@
            + month_name(month.month as int) + "</text>"@
    }

    /// The captions of the months, one per line, in a group.
    pub open spec fn months_text(self, months: Seq<MonthText>) -> Seq<char> {
        "<g direction=\"ltr\">"@ + joined(
            Seq::new(months.len(), |i: int| self.month_text(months[i])),
        ) + "</g>"@
    }

    /// The rule of the style sheet that gives the cells of a level their
    /// colour.
    pub open spec fn level_rule_text(level: nat) -> Seq<char> {
        "\n\n            .user-contrib-cell[data-level=\""@ + decimal(level)
            + "\"] {\n                fill: "@ + level_colour(level).hex_text()
            + ";\n            }"@
    }

    /// The style sheet: the font of the captions and, under the fixed
    /// colours, the colour of each level.
    pub open spec fn style_text(self) -> Seq<char> {
        "<style>\n            :root {\n                --text-color-default: #3a383f;\n                --border-color-default: #dcdcde;\n            }\n\n            .user-contrib-text {\n                font-size: "@
            + decimal(self.font_size())
            + "px;\n                font-family: \"Noto Sans\", Ubuntu, Cantarell, \"Helvetica Neue\", sans-serif;\n            }"@
            + self.level_rules_text() + "\n        </style>"@
    }

    /// The rules of the style sheet for the levels: five under the fixed
    /// colours, none under interpolation.
    pub open spec fn level_rules_text(self) -> Seq<char> {
        match self.colour_strategy() {
            ColourStrategy::GitlabStrategy => Self::level_rule_text(0) + Self::level_rule_text(1)
                + Self::level_rule_text(2) + Self::level_rule_text(3) + Self::level_rule_text(4),
            ColourStrategy::InterpolationStrategy { .. } => Seq::empty(),
        }
    }

    /// The image: the SVG element of the given width and height in pixels
    /// around the style sheet and the content.
    pub open spec fn wrapped_text(self, width: nat, height: nat, content: Seq<char>) -> Seq<char> {
        "<svg xmlns=\"http://www.w3.org/2000/svg\" width=\""@ + decimal(width) + "\" height=\""@
            + decimal(height)
            + "\" class=\"contrib-calendar\" data-testid=\"contrib-calendar\">\n    "@
            + self.style_text() + "\n    "@ + content + "\n</svg>"@
    }

    /// The image of a calendar: as wide as its weeks and as high as the
    /// captions and seven rows, around the columns of the weeks and the
    /// captions of the months.
    pub open spec fn svg_text(self, weeks: Seq<Seq<Data>>, months: Seq<MonthText>) -> Seq<char> {
        self.wrapped_text(
            weeks.len() * self.day_size() + MARGIN_HORIZONTAL as nat,
            self.font_size() + 7 * self.day_size() + EXTRA_PADDING as nat,
            self.week_rows_text(weeks) + "\n"@ + self.months_text(months),
        )
    }

    /// The image of the calendar of the year that ends with `last_day`.
    pub open spec fn calendar_text(self, activity: Map<int, nat>, last_day: Date) -> Seq<char> {
        self.svg_text(calendar_weeks(activity, last_day), calendar_months(last_day))
    }

    /// What paints the cell of a day.
    fn render_paint(&self, info: ContributionInfo) -> (text: String)
        requires
            info.valid(),
        ensures
            text@ == self.paint_text(info),
    {
        match self.colour_strategy {
            ColourStrategy::GitlabStrategy => {
                let level = GitlabContributionLevel::get_contrib_level(info.count_today);
                let mut text = "data-level=\"".to_owned();
                push_decimal(&mut text, level.0 as u128);
                text.append("\"");
                text
            },
            ColourStrategy::InterpolationStrategy { .. } => {
                let colour = self.colour_strategy.get_colour(info);
                let mut text = "fill=\"".to_owned();
                text.append(colour.to_string().as_str());
                text.append("\"");
                text
            },
        }
    }

    /// The cell of a day.
    fn render_cell(&self, day: &Data, total: u128, day_count: u32) -> (text: String)
        requires
            day.date.valid(),
            total <= day_count * usize::MAX,
        ensures
            text@ == self.cell_text(*day, total as nat, day_count as nat),
    {
        let info = ContributionInfo { count_today: day.count, total_count: total, day_count };
        let row: u128 = day.date.weekday().num_days_from_monday() as u128;
        let size: u128 = self.cell_size as u128 + 2;
        assert(size * row <= 0x1_0000_0000_0000_0001 * 6) by (nonlinear_arith)
            requires
                0 <= size <= 0x1_0000_0000_0000_0001,
                0 <= row <= 6,
        ;
        let y: u128 = size * row;
        let mut text = "<rect x=\"0\" y=\"".to_owned();
        push_decimal(&mut text, y);
        text.append("\" rx=\"2\" ry=\"2\" width=\"");
        push_decimal(&mut text, self.cell_size as u128);
        text.append("\" height=\"");
        push_decimal(&mut text, self.cell_size as u128);
        text.append("\" ");
        text.append(self.render_paint(info).as_str());
        text.append(" data-hover-info=\"");
        push_hover_info(&mut text, day.count);
        text.append("\" data-date=\"");
        day.date.push_to(&mut text);
        text.append("\" class=\"user-contrib-cell has-tooltip\"></rect>");
        text
    }

    /// The cells of the days of a week, one per line. `total` and
    /// `day_count` are the contributions and the days of all weeks.
    pub fn render_week_day_cells(&self, days: Vec<Data>, total: u128, day_count: u32) -> (text:
        String)
        requires
            valid_days(days@),
            total <= day_count * usize::MAX,
        ensures
            text@ == self.week_cells_text(days@, total as nat, day_count as nat),
    {
        let ghost parts = Seq::new(
            days@.len(),
            |i: int| self.cell_text(days@[i], total as nat, day_count as nat),
        );
        let mut text = String::new();
        let mut i: usize = 0;
        while i < days.len()
            invariant
                i <= days.len(),
                valid_days(days@),
                total <= day_count * usize::MAX,
                parts == Seq::new(
                    days@.len(),
                    |i: int| self.cell_text(days@[i], total as nat, day_count as nat),
                ),
                text@ == joined(parts.take(i as int)),
            decreases days.len() - i,
        {
            if i > 0 {
                text.append("\n");
            }
            let cell = self.render_cell(&days[i], total, day_count);
            text.append(cell.as_str());
            proof {
                lemma_joined_step(parts, i as int);
                if i == 0 {
                    assert(text@ =~= parts[0]);
                }
            }
            i += 1;
        }
        assert(parts.take(i as int) =~= parts);
        text
    }

    /// The column of a week.
    fn render_week(&self, week: usize, days: Vec<Data>, total: u128, day_count: u32) -> (text:
        String)
        requires
            week < usize::MAX,
            valid_days(days@),
            total <= day_count * usize::MAX,
        ensures
            text@ == self.week_text(week as int, days@, total as nat, day_count as nat),
    {
        let x = self.column_x(week);
        let y: u128 = self.font_size as u128 + EXTRA_PADDING as u128;
        let ghost days_view = days@;
        let mut text = "<g transform=\"translate(".to_owned();
        push_decimal(&mut text, x);
        text.append(", ");
        push_decimal(&mut text, y);
        text.append(")\" data-testid=\"user-contrib-cell-group\">\n");
        text.append(self.render_week_day_cells(days, total, day_count).as_str());
        text.append("\n</g>");
        text
    }

    /// The columns of the weeks, one after the other.
    pub fn render_week_rows(&self, result: Vec<Vec<Data>>) -> (text: String)
        requires
            valid_weeks(weeks_view(result@)),
            day_total(weeks_view(result@)) <= u32::MAX,
        ensures
            text@ == self.week_rows_text(weeks_view(result@)),
    {
        let ghost weeks = weeks_view(result@);
        let (total, day_count) = totals(&result);
        let ghost parts = Seq::new(
            weeks.len(),
            |week: int| self.week_text(week, weeks[week], total as nat, day_count as nat),
        );
        let mut text = String::new();
        let mut week: usize = 0;
        while week < result.len()
            invariant
                week <= result.len(),
                weeks == weeks_view(result@),
                valid_weeks(weeks),
                total <= day_count * usize::MAX,
                parts == Seq::new(
                    weeks.len(),
                    |week: int| self.week_text(week, weeks[week], total as nat, day_count as nat),
                ),
                text@ == joined(parts.take(week as int)),
            decreases result.len() - week,
        {
            if week > 0 {
                text.append("\n");
            }
            assert(valid_days(weeks[week as int]));
            let days = result[week].clone();
            assert(days@ == weeks[week as int]);
            let column = self.render_week(week, days, total, day_count);
            text.append(column.as_str());
            proof {
                lemma_joined_step(parts, week as int);
                if week == 0 {
                    assert(text@ =~= parts[0]);
                }
            }
            week += 1;
        }
        assert(parts.take(week as int) =~= parts);
        text
    }

    /// The captions of the months, in a group.
    pub fn render_text(&self, months: Vec<MonthText>) -> (text: String)
        requires
            forall|i: int|
                0 <= i < months.len() ==> (#[trigger] months[i]).month < 12 && months[i].group
                    < usize::MAX,
        ensures
            text@ == self.months_text(months@),
    {
        let ghost parts = Seq::new(months@.len(), |i: int| self.month_text(months@[i]));
        let mut lines = String::new();
        let mut i: usize = 0;
        while i < months.len()
            invariant
                i <= months.len(),
                forall|i: int|
                    0 <= i < months.len() ==> (#[trigger] months[i]).month < 12 && months[i].group
                        < usize::MAX,
                parts == Seq::new(months@.len(), |i: int| self.month_text(months@[i])),
                lines@ == joined(parts.take(i as int)),
            decreases months.len() - i,
        {
            if i > 0 {
                lines.append("\n");
            }
            let caption = months[i].render(self);
            lines.append(caption.as_str());
            proof {
                lemma_joined_step(parts, i as int);
                if i == 0 {
                    assert(lines@ =~= parts[0]);
                }
            }
            i += 1;
        }
        assert(parts.take(i as int) =~= parts);
        let mut text = "<g direction=\"ltr\">".to_owned();
        text.append(lines.as_str());
        text.append("</g>");
        text
    }

    /// The rule of the style sheet for one level.
    fn render_level_rule(level: usize, count: usize) -> (text: String)
        requires
            level == level_of(count as nat),
        ensures
            text@ == Self::level_rule_text(level as nat),
    {
        let colour = get_gitlab_colour(
            ContributionInfo { count_today: count, total_count: 0, day_count: 0 },
        );
        let mut text = "\n\n            .user-contrib-cell[data-level=\"".to_owned();
        push_decimal(&mut text, level as u128);
        text.append("\"] {\n                fill: ");
        text.append(colour.to_string().as_str());
        text.append(";\n            }");
        text
    }

    /// The style sheet.
    pub fn get_style(&self) -> (text: String)
        ensures
            text@ == self.style_text(),
    {
        let mut text =
            "<style>\n            :root {\n                --text-color-default: #3a383f;\n                --border-color-default: #dcdcde;\n            }\n\n            .user-contrib-text {\n                font-size: ".to_owned();
        push_decimal(&mut text, self.font_size as u128);
        text.append(
            "px;\n                font-family: \"Noto Sans\", Ubuntu, Cantarell, \"Helvetica Neue\", sans-serif;\n            }",
        );
        let mut rules = String::new();
        match self.colour_strategy {
            ColourStrategy::GitlabStrategy => {
                rules.append(Self::render_level_rule(0, 0).as_str());
                assert(rules@ =~= Self::level_rule_text(0));
                rules.append(Self::render_level_rule(1, 1).as_str());
                rules.append(Self::render_level_rule(2, 10).as_str());
                rules.append(Self::render_level_rule(3, 20).as_str());
                rules.append(Self::render_level_rule(4, 30).as_str());
            },
            ColourStrategy::InterpolationStrategy { .. } => {},
        }
        text.append(rules.as_str());
        text.append("\n        </style>");
        text
    }

    /// The image of the given width and height in pixels around the style
    /// sheet and the content.
    pub fn wrap_svg(&self, width: u128, height: u128, content: &str) -> (text: String)
        ensures
            text@ == self.wrapped_text(width as nat, height as nat, content@),
    {
        let mut text = "<svg xmlns=\"http://www.w3.org/2000/svg\" width=\"".to_owned();
        push_decimal(&mut text, width);
        text.append("\" height=\"");
        push_decimal(&mut text, height);
        text.append("\" class=\"contrib-calendar\" data-testid=\"contrib-calendar\">\n    ");
        text.append(self.get_style().as_str());
        text.append("\n    ");
        text.append(content);
        text.append("\n</svg>");
        text
    }

    /// Composes the image of a calendar from its weeks and the captions of
    /// its months.
    pub fn compose(&self, weeks: Vec<Vec<Data>>, months: Vec<MonthText>) -> (text: String)
        requires
            valid_weeks(weeks_view(weeks@)),
            day_total(weeks_view(weeks@)) <= u32::MAX,
            weeks.len() < usize::MAX,
            forall|i: int|
                0 <= i < months.len() ==> (#[trigger] months[i]).month < 12 && months[i].group
                    < usize::MAX,
        ensures
            text@ == self.svg_text(weeks_view(weeks@), months@),
    {
        let week_count = weeks.len();
        let mut content = self.render_week_rows(weeks);
        content.append("\n");
        content.append(self.render_text(months).as_str());
        let size: u128 = self.cell_size as u128 + 2;
        assert(week_count * size <= 0xffff_ffff_ffff_fffe * 0x1_0000_0000_0000_0001)
            by (nonlinear_arith)
            requires
                0 <= size <= 0x1_0000_0000_0000_0001,
                0 <= week_count <= 0xffff_ffff_ffff_fffe,
        ;
        let width: u128 = week_count as u128 * size + MARGIN_HORIZONTAL as u128;
        let height: u128 = self.font_size as u128 + 7 * size + EXTRA_PADDING as u128;
        self.wrap_svg(width, height, content.as_str())
    }

    /// Renders the calendar of the year that ends with `last_day`: every
    /// day from the same day one year earlier to `last_day`, with the
    /// contributions that the ledger holds for it.
    pub fn render_at(&self, activity: &ContributionActivity, last_day: Date) -> (text: String)
        requires
            last_day.valid(),
            last_day.year > MIN_YEAR,
        ensures
            text@ == self.calendar_text(activity@, last_day),
    {
        let (weeks, months) = layout(activity, last_day);
        proof {
            lemma_calendar_days(activity@, last_day);
            lemma_calendar_shape(activity@, last_day);
            lemma_sub_year(last_day);
            lemma_last_day_number(last_day);
            let first = last_day.sub_year();
            lemma_month_labels(
                first,
                last_day.day_number(),
                week_count(first.day_number(), last_day.day_number()) as nat,
            );
            let all = weeks_view(weeks@);
            assert forall|week: int| 0 <= week < all.len() implies valid_days(
                #[trigger] all[week],
            ) by {
                assert forall|i: int| 0 <= i < all[week].len() implies (
                #[trigger] all[week][i]).date.valid() by {
                    assert(calendar_weeks(activity@, last_day)[week][i].date.valid());
                }
            }
        }
        self.compose(weeks, months)
    }

    /// The distance in pixels of column `week` from the left edge.
    fn column_x(&self, week: usize) -> (x: u128)
        requires
            week < usize::MAX,
        ensures
            x == self.day_size() * week + MARGIN_HORIZONTAL,
    {
        let size: u128 = self.cell_size as u128 + 2;
        assert(size * week <= 0x1_0000_0000_0000_0001 * 0xffff_ffff_ffff_fffe) by (nonlinear_arith)
            requires
                0 <= size <= 0x1_0000_0000_0000_0001,
                0 <= week <= 0xffff_ffff_ffff_fffe,
        ;
        size * week as u128 + MARGIN_HORIZONTAL as u128
    }
}

/// The text of the first `upto + 1` parts is the text of the first `upto`
/// parts, a line break and the next part (and only that part where it is
/// the first).
proof fn lemma_joined_step(parts: Seq<Seq<char>>, upto: int)
    requires
        0 <= upto < parts.len(),
    ensures
        joined(parts.take(upto + 1)) == if upto == 0 {
            parts[0]
        } else {
            joined(parts.take(upto)) + "\n"@ + parts[upto]
        },
{
    assert(parts.take(upto + 1).drop_last() =~= parts.take(upto));
}

/// The counts of a week add up to at most `usize::MAX` for each day.
proof fn lemma_count_sum_bound(days: Seq<Data>)
    ensures
        count_sum(days) <= days.len() * usize::MAX,
    decreases days.len(),
{
    if days.len() > 0 {
        lemma_count_sum_bound(days.drop_last());
        assert((days.len() - 1) * usize::MAX + usize::MAX == days.len() * usize::MAX)
            by (nonlinear_arith);
    }
}

/// The contributions and the days of all weeks.
fn totals(weeks: &Vec<Vec<Data>>) -> (sums: (u128, u32))
    requires
        day_total(weeks_view(weeks@)) <= u32::MAX,
    ensures
        sums.0 == count_total(weeks_view(weeks@)),
        sums.1 == day_total(weeks_view(weeks@)),
        sums.0 <= sums.1 * usize::MAX,
{
    let ghost all = weeks_view(weeks@);
    let mut total: u128 = 0;
    let mut day_count: u32 = 0;
    let mut week: usize = 0;
    while week < weeks.len()
        invariant
            week <= weeks.len(),
            all == weeks_view(weeks@),
            day_total(all) <= u32::MAX,
            total == count_total(all.take(week as int)),
            day_count == day_total(all.take(week as int)),
            total <= day_count * usize::MAX,
            day_total(all.take(week as int)) <= day_total(all),
        decreases weeks.len() - week,
    {
        let days = &weeks[week];
        proof {
            assert(all.take(week + 1).drop_last() =~= all.take(week as int));
            assert(all.take(week + 1).last() == days@);
            lemma_day_total_prefix(all, week + 1);
        }
        let ghost before = total;
        let mut i: usize = 0;
        while i < days.len()
            invariant
                i <= days.len(),
                total == before + count_sum(days@.take(i as int)),
                before <= day_count * usize::MAX,
                day_count + days.len() <= u32::MAX,
            decreases days.len() - i,
        {
            proof {
                assert(days@.take(i + 1).drop_last() =~= days@.take(i as int));
                lemma_count_sum_bound(days@.take(i + 1));
                assert(day_count * usize::MAX + (i + 1) * usize::MAX <= u32::MAX * usize::MAX)
                    by (nonlinear_arith)
                    requires
                        day_count + (i + 1) <= u32::MAX,
                ;
            }
            total = total + days[i].count as u128;
            i += 1;
        }
        proof {
            assert(days@.take(i as int) =~= days@);
            lemma_count_sum_bound(days@);
            assert(day_count * usize::MAX + days.len() * usize::MAX == (day_count + days.len())
                * usize::MAX) by (nonlinear_arith);
        }
        day_count = day_count + days.len() as u32;
        week += 1;
    }
    assert(all.take(week as int) =~= all);
    (total, day_count)
}

/// The first weeks of a calendar have no more days than all its weeks.
proof fn lemma_day_total_prefix(weeks: Seq<Seq<Data>>, upto: int)
    requires
        0 <= upto <= weeks.len(),
    ensures
        day_total(weeks.take(upto)) <= day_total(weeks),
    decreases weeks.len() - upto,
{
    if upto < weeks.len() {
        lemma_day_total_prefix(weeks, upto + 1);
        assert(weeks.take(upto + 1).drop_last() =~= weeks.take(upto));
    } else {
        assert(weeks.take(upto) =~= weeks);
    }
}

} // verus!
