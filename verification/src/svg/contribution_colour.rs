//! The colour of a day's cell: fixed colours by level, or a colour
//! interpolated between two by how active the day was.

use crate::svg::rgba::{Rgba, FACTOR_LIMIT};
use vstd::prelude::*;

verus! {

/// What the colour of a day's cell is computed from: the contributions of
/// the day, and the days and contributions of the whole rendered window,
/// whose quotient is the average count per day.
#[derive(Clone, Copy, Debug, PartialEq, Eq, Structural)]
pub struct ContributionInfo {
    pub count_today: usize,
    pub total_count: u128,
    pub day_count: u32,
}

impl ContributionInfo {
    /// Whether the total can be the sum of `day_count` counts.
    pub open spec fn valid(self) -> bool {
        self.total_count <= self.day_count * usize::MAX
    }
}

/// The strategies to compute the colour of a cell.
#[derive(Clone, Copy, Debug, PartialEq, Eq, Structural)]
pub enum ColourStrategy {
    /// The five fixed colours of the GitLab contribution calendar.
    GitlabStrategy,
    /// A colour between `inactive_colour` and `active_colour`.
    InterpolationStrategy { inactive_colour: Rgba, active_colour: Rgba },
}

/// The colour of a day without contributions.
pub open spec fn white_smoke() -> Rgba {
    Rgba(236, 236, 239, 255)
}

/// The colour of a day with 1 to 9 contributions.
pub open spec fn lavender() -> Rgba {
    Rgba(210, 220, 255, 255)
}

/// The colour of a day with 10 to 19 contributions.
pub open spec fn cornflower_blue() -> Rgba {
    Rgba(121, 146, 245, 255)
}

/// The colour of a day with 20 to 29 contributions.
pub open spec fn royal_blue() -> Rgba {
    Rgba(78, 101, 205, 255)
}

/// The colour of a day with 30 contributions or more.
pub open spec fn darkslate_blue() -> Rgba {
    Rgba(48, 52, 112, 255)
}

/// The fixed colour of a day with `count` contributions.
pub open spec fn gitlab_colour(count: nat) -> Rgba {
    if count == 0 {
        white_smoke()
    } else if count < 10 {
        lavender()
    } else if count < 20 {
        cornflower_blue()
    } else if count < 30 {
        royal_blue()
    } else {
        darkslate_blue()
    }
}

/// The numerator of the activity of a day: as a fraction, the activity of a
/// day with `count` contributions in a window of `days` days with `total`
/// contributions is `count / (count + total / days)`, which is
/// `count * days / (count * days + total)`.
pub open spec fn activity_numerator(count: int, total: int, days: int) -> int {
    count * days
}

/// The denominator of the activity of a day; 1 where `count * days + total`
/// is 0, so that the activity is 0 there.
pub open spec fn activity_denominator(count: int, total: int, days: int) -> int {
    if count * days + total > 0 {
        count * days + total
    } else {
        1
    }
}

/// The colour between `inactive` and `active` for a day.
pub open spec fn interpolated_colour(inactive: Rgba, active: Rgba, info: ContributionInfo) -> Rgba {
    inactive.interpolate_spec(
        active,
        activity_numerator(
            info.count_today as int,
            info.total_count as int,
            info.day_count as int,
        ),
        activity_denominator(
            info.count_today as int,
            info.total_count as int,
            info.day_count as int,
        ),
    )
}

impl ColourStrategy {
    /// The colour of the cell of a day.
    pub open spec fn colour_of(self, info: ContributionInfo) -> Rgba {
        match self {
            ColourStrategy::GitlabStrategy => gitlab_colour(info.count_today as nat),
            ColourStrategy::InterpolationStrategy { inactive_colour, active_colour } => {
                interpolated_colour(inactive_colour, active_colour, info)
            },
        }
    }

    /// The colour of the cell of a day.
    pub fn get_colour(&self, info: ContributionInfo) -> (colour: Rgba)
        requires
            info.valid(),
        ensures
            colour == self.colour_of(info),
    {
        match self {
            ColourStrategy::GitlabStrategy => get_gitlab_colour(info),
            ColourStrategy::InterpolationStrategy { inactive_colour, active_colour } => {
                get_interpolated_colour(inactive_colour, active_colour, info)
            },
        }
    }
}

/// The activity of a day as a fraction between 0 and 1: numerator and
/// denominator.
pub fn f(count: usize, total: u128, days: u32) -> (factor: (u128, u128))
    requires
        total <= days * usize::MAX,
    ensures
        factor.0 == activity_numerator(count as int, total as int, days as int),
        factor.1 == activity_denominator(count as int, total as int, days as int),
        factor.0 <= factor.1,
        0 < factor.1 <= FACTOR_LIMIT,
{
    assert(count * days <= usize::MAX * u32::MAX && days * usize::MAX <= usize::MAX * u32::MAX)
        by (nonlinear_arith)
        requires
            count <= usize::MAX,
            days <= u32::MAX,
    ;
    let numerator: u128 = count as u128 * days as u128;
    let divisor: u128 = numerator + total;
    if divisor == 0 {
        (0, 1)
    } else {
        (numerator, divisor)
    }
}

/// The fixed colour of a day by its level.
pub fn get_gitlab_colour(info: ContributionInfo) -> (colour: Rgba)
    ensures
        colour == gitlab_colour(info.count_today as nat),
{
    let count = info.count_today;
    if count == 0 {
        Rgba::new(236, 236, 239, 255)
    } else if count < 10 {
        Rgba::new(210, 220, 255, 255)
    } else if count < 20 {
        Rgba::new(121, 146, 245, 255)
    } else if count < 30 {
        Rgba::new(78, 101, 205, 255)
    } else {
        Rgba::new(48, 52, 112, 255)
    }
}

/// The colour between `inactive_colour` and `active_colour` by the activity
/// of a day.
pub fn get_interpolated_colour(
    inactive_colour: &Rgba,
    active_colour: &Rgba,
    info: ContributionInfo,
) -> (colour: Rgba)
    requires
        info.valid(),
    ensures
        colour == interpolated_colour(*inactive_colour, *active_colour, info),
{
    let (numerator, denominator) = f(info.count_today, info.total_count, info.day_count);
    inactive_colour.interpolate(*active_colour, numerator, denominator)
}

/// A day without contributions has activity 0.
pub proof fn lemma_activity_of_zero(total: int, days: int)
    ensures
        activity_numerator(0, total, days) == 0,
{
}

/// The activity lies between 0 and 1, and below 1 where the window has
/// contributions.
pub proof fn lemma_activity_bounded(count: int, total: int, days: int)
    requires
        0 <= count,
        0 <= total,
        0 <= days,
    ensures
        0 <= activity_numerator(count, total, days) <= activity_denominator(count, total, days),
        0 < activity_denominator(count, total, days),
        total > 0 ==> activity_numerator(count, total, days) < activity_denominator(
            count,
            total,
            days,
        ),
{
    assert(0 <= count * days) by (nonlinear_arith)
        requires
            0 <= count,
            0 <= days,
    ;
}

/// More contributions on a day never make its activity smaller:
/// `n1 / d1 <= n2 / d2`, stated as `n1 * d2 <= n2 * d1`.
pub proof fn lemma_activity_monotone(fewer: int, more: int, total: int, days: int)
    requires
        0 <= fewer <= more,
        0 <= total,
        0 <= days,
    ensures
        activity_numerator(fewer, total, days) * activity_denominator(more, total, days)
            <= activity_numerator(more, total, days) * activity_denominator(fewer, total, days),
{
    let a = fewer * days;
    let b = more * days;
    assert(0 <= a <= b) by (nonlinear_arith)
        requires
            0 <= fewer <= more,
            0 <= days,
            a == fewer * days,
            b == more * days,
    ;
    if a + total > 0 {
        assert(a * (b + total) <= b * (a + total)) by (nonlinear_arith)
            requires
                0 <= a <= b,
                0 <= total,
        ;
    } else {
        let divisor = activity_denominator(more, total, days);
        assert(a * divisor == 0) by (nonlinear_arith)
            requires
                a == 0,
        ;
    }
}

/// The activity comes as close to 1 as one likes when the count of the day
/// grows: once a day has `k` times the average count, its activity is at
/// most `1 / (k + 1)` away from 1.
pub proof fn lemma_activity_approaches_one(count: int, total: int, days: int, k: int)
    requires
        0 < count,
        0 <= total,
        0 < days,
        0 <= k,
        count * days >= k * total,
    ensures
        (k + 1) * (activity_denominator(count, total, days) - activity_numerator(
            count,
            total,
            days,
        )) <= activity_denominator(count, total, days),
{
    let n = count * days;
    assert(n > 0) by (nonlinear_arith)
        requires
            0 < count,
            0 < days,
            n == count * days,
    ;
    assert((k + 1) * ((n + total) - n) <= n + total) by (nonlinear_arith)
        requires
            n >= k * total,
            0 <= total,
            0 <= k,
    ;
}

/// The activity does not change when the count of the day and the average
/// count are multiplied by the same number: the two fractions are equal,
/// stated by cross-multiplication.
pub proof fn lemma_activity_scale_invariant(count: int, total: int, days: int, c: int)
    requires
        0 <= count,
        0 <= total,
        0 < days,
        0 < c,
    ensures
        activity_numerator(c * count, c * total, days) * activity_denominator(count, total, days)
            == activity_numerator(count, total, days) * activity_denominator(
            c * count,
            c * total,
            days,
        ),
{
    let n = count * days;
    assert(c * count * days == c * n) by (nonlinear_arith)
        requires
            n == count * days,
    ;
    assert(0 <= n) by (nonlinear_arith)
        requires
            0 <= count,
            0 < days,
            n == count * days,
    ;
    if n + total > 0 {
        assert(c * n + c * total > 0) by (nonlinear_arith)
            requires
                n + total > 0,
                0 < c,
        ;
        assert((c * n) * (n + total) == n * (c * n + c * total)) by (nonlinear_arith);
    } else {
        assert(c * n + c * total == 0) by (nonlinear_arith)
            requires
                n + total == 0,
        ;
    }
}

/// At factor 0 the interpolated colour is the first colour, at factor 1 the
/// second.
pub proof fn lemma_interpolate_ends(from: Rgba, to: Rgba, denominator: int)
    requires
        denominator > 0,
    ensures
        from.interpolate_spec(to, 0, denominator) == from,
        from.interpolate_spec(to, denominator, denominator) == to,
{
    lemma_interpolate_channel_ends(from.0, to.0, denominator);
    lemma_interpolate_channel_ends(from.1, to.1, denominator);
    lemma_interpolate_channel_ends(from.2, to.2, denominator);
    lemma_interpolate_channel_ends(from.3, to.3, denominator);
}

/// One channel of [`lemma_interpolate_ends`].
proof fn lemma_interpolate_channel_ends(from: u8, to: u8, denominator: int)
    requires
        denominator > 0,
    ensures
        crate::svg::rgba::interpolate_channel(from, to, 0, denominator) == from,
        crate::svg::rgba::interpolate_channel(from, to, denominator, denominator) == to,
{
    assert((2 * (from * denominator + (to - from) * 0) + denominator) / (2 * denominator) == from)
        by (nonlinear_arith)
        requires
            denominator > 0,
            0 <= from,
    ;
    assert((2 * (from * denominator + (to - from) * denominator) + denominator) / (2
        * denominator) == to) by (nonlinear_arith)
        requires
            denominator > 0,
            0 <= to,
    ;
}

} // verus!
