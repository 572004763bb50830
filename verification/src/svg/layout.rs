//! The layout of a year of days in weeks: one column per week from Monday to
//! Sunday, and the weeks at which the caption of a month stands.

use crate::date::{
    lemma_day_number_injective, lemma_last_day_number, lemma_plus_days, lemma_sub_year, lemma_succ,
    Date, Weekday, MIN_YEAR,
};
use crate::types::contribution_activity::{count_or_zero, ContributionActivity};
use vstd::prelude::*;

verus! {

/// A day of the calendar with its contributions.
#[derive(Clone, Copy, Debug, PartialEq, Eq, Structural)]
pub struct Data {
    pub count: usize,
    pub date: Date,
}

/// The caption of a month: the week (column) at which it stands and the
/// month, from 0 for January.
#[derive(Clone, Copy, Debug, PartialEq, Eq, Structural)]
pub struct MonthText {
    pub group: usize,
    pub month: u32,
}

/// The number of the week that a day lies in, counting weeks from Monday to
/// Sunday.
pub open spec fn week_index(day_number: int) -> int {
    (day_number - 1) / 7
}

/// The number of weeks that the days from `first` to `last` touch.
pub open spec fn week_count(first: int, last: int) -> int {
    week_index(last) - week_index(first) + 1
}

/// The first day of the window that lies in its week `week`: the first day
/// of the window in week 0, a Monday in every other week.
pub open spec fn week_first_day(first: int, week: int) -> int {
    if week == 0 {
        first
    } else {
        (week_index(first) + week) * 7 + 1
    }
}

/// The last day of the window that lies in its week `week`: a Sunday, or
/// the last day of the window.
pub open spec fn week_last_day(first: int, last: int, week: int) -> int {
    let sunday = (week_index(first) + week) * 7 + 7;
    if sunday < last {
        sunday
    } else {
        last
    }
}

/// The slot of the day with the given number in a window that starts at
/// `first`: its date and its count, 0 where the ledger has no entry.
pub open spec fn day_slot(activity: Map<int, nat>, first: Date, day_number: int) -> Data {
    Data {
        count: count_or_zero(activity, day_number) as usize,
        date: first.plus_days((day_number - first.day_number()) as nat),
    }
}

/// The days of week `week` of the window from `first` to day number `last`.
pub open spec fn week_slots(activity: Map<int, nat>, first: Date, last: int, week: int) -> Seq<
    Data,
> {
    let from = week_first_day(first.day_number(), week);
    let to = week_last_day(first.day_number(), last, week);
    Seq::new((to - from + 1) as nat, |i: int| day_slot(activity, first, from + i))
}

/// The weeks of the window from `first` to day number `last`.
pub open spec fn weeks_between(activity: Map<int, nat>, first: Date, last: int) -> Seq<Seq<Data>> {
    Seq::new(
        week_count(first.day_number(), last) as nat,
        |week: int| week_slots(activity, first, last, week),
    )
}

/// The calendar of the year that ends with `last_day`: the weeks of the
/// window from the same day one year earlier to `last_day`.
pub open spec fn calendar_weeks(activity: Map<int, nat>, last_day: Date) -> Seq<Seq<Data>> {
    weeks_between(activity, last_day.sub_year(), last_day.day_number())
}

/// The month, from 0 for January, of the first day of week `week` of the
/// window that starts at `first`.
pub open spec fn week_month(first: Date, week: int) -> int {
    first.plus_days(
        (week_first_day(first.day_number(), week) - first.day_number()) as nat,
    ).month - 1
}

/// Whether a caption stands at week `week`: at the first week, and where
/// the month of a week's first day is not that of the week before.
pub open spec fn starts_month(first: Date, week: int) -> bool {
    week == 0 || week_month(first, week) != week_month(first, week - 1)
}

/// The captions of the first `weeks` weeks of the window that starts at
/// `first`.
pub open spec fn month_labels(first: Date, weeks: nat) -> Seq<MonthText>
    decreases weeks,
{
    if weeks == 0 {
        Seq::empty()
    } else {
        let before = month_labels(first, (weeks - 1) as nat);
        if starts_month(first, weeks - 1) {
            before.push(
                MonthText {
                    group: (weeks - 1) as usize,
                    month: week_month(first, weeks - 1) as u32,
                },
            )
        } else {
            before
        }
    }
}

/// The captions of the calendar of the year that ends with `last_day`.
pub open spec fn calendar_months(last_day: Date) -> Seq<MonthText> {
    month_labels(
        last_day.sub_year(),
        week_count(last_day.sub_year().day_number(), last_day.day_number()) as nat,
    )
}

/// The weeks that a vector of weeks holds.
pub open spec fn weeks_view(weeks: Seq<Vec<Data>>) -> Seq<Seq<Data>> {
    Seq::new(weeks.len(), |week: int| weeks[week]@)
}

/// A window of one day is one week of one day.
pub proof fn lemma_weeks_of_one_day(activity: Map<int, nat>, first: Date)
    ensures
        weeks_between(activity, first, first.day_number()) == seq![
            seq![day_slot(activity, first, first.day_number())],
        ],
{
    let n = first.day_number();
    let weeks = weeks_between(activity, first, n);
    assert(weeks.len() == 1);
    assert(weeks[0] =~= seq![day_slot(activity, first, n)]);
    assert(weeks =~= seq![seq![day_slot(activity, first, n)]]);
}

/// A window that grows by a day gets a new week where that day is a Monday,
/// and has its last week grow by the day where it is not.
pub proof fn lemma_weeks_grow(activity: Map<int, nat>, first: Date, last: int)
    requires
        first.day_number() < last,
    ensures
        weeks_between(activity, first, last - 1).len() >= 1,
        (last - 1) % 7 == 0 ==> weeks_between(activity, first, last) == weeks_between(
            activity,
            first,
            last - 1,
        ).push(seq![day_slot(activity, first, last)]),
        (last - 1) % 7 != 0 ==> weeks_between(activity, first, last) == weeks_between(
            activity,
            first,
            last - 1,
        ).drop_last().push(
            weeks_between(activity, first, last - 1).last().push(day_slot(activity, first, last)),
        ),
        week_count(first.day_number(), last) == week_count(first.day_number(), last - 1) + if (last
            - 1) % 7 == 0 {
            1int
        } else {
            0
        },
        (last - 1) % 7 == 0 ==> week_first_day(
            first.day_number(),
            week_count(first.day_number(), last) - 1,
        ) == last,
{
    let n = first.day_number();
    let before = weeks_between(activity, first, last - 1);
    let after = weeks_between(activity, first, last);
    let count = week_count(n, last - 1);
    assert(week_index(n) <= week_index(last - 1));
    if (last - 1) % 7 == 0 {
        assert(week_index(last) == week_index(last - 1) + 1);
        assert(after.len() == count + 1);
        assert forall|week: int| 0 <= week < count implies #[trigger] after[week]
            == before[week] by {
            assert(week_last_day(n, last, week) == week_last_day(n, last - 1, week));
            assert(after[week] =~= before[week]);
        }
        assert(after[count] =~= seq![day_slot(activity, first, last)]);
        assert(after =~= before.push(seq![day_slot(activity, first, last)]));
    } else {
        assert(week_index(last) == week_index(last - 1));
        assert(after.len() == count);
        assert forall|week: int| 0 <= week < count - 1 implies #[trigger] after[week]
            == before[week] by {
            assert(week_last_day(n, last, week) == week_last_day(n, last - 1, week));
            assert(after[week] =~= before[week]);
        }
        assert(after[count - 1] =~= before[count - 1].push(day_slot(activity, first, last)));
        assert(after =~= before.drop_last().push(
            before.last().push(day_slot(activity, first, last)),
        ));
    }
}

/// The calendar of a year has 53 or 54 weeks, each of one to seven days.
pub proof fn lemma_calendar_shape(activity: Map<int, nat>, last_day: Date)
    requires
        last_day.valid(),
        last_day.year > MIN_YEAR,
    ensures
        calendar_weeks(activity, last_day).len() == 53 || calendar_weeks(activity, last_day).len()
            == 54,
        forall|week: int|
            0 <= week < calendar_weeks(activity, last_day).len() ==> 1 <= (
            #[trigger] calendar_weeks(activity, last_day)[week]).len() <= 7,
        forall|week: int|
            0 < week < calendar_weeks(activity, last_day).len() - 1 ==> (
            #[trigger] calendar_weeks(activity, last_day)[week]).len() == 7,
{
    lemma_sub_year(last_day);
}

/// Where a slot of the calendar stands decides its day: slot `index` of
/// week `week` holds the valid date whose number is that of the week's
/// first day plus `index`, a day of the window in that very week, with the
/// count of the ledger.
pub proof fn lemma_calendar_slot(activity: Map<int, nat>, last_day: Date, week: int, index: int)
    requires
        last_day.valid(),
        last_day.year > MIN_YEAR,
        0 <= week < calendar_weeks(activity, last_day).len(),
        0 <= index < calendar_weeks(activity, last_day)[week].len(),
    ensures
        ({
            let first = last_day.sub_year();
            let slot = calendar_weeks(activity, last_day)[week][index];
            &&& slot.date.valid()
            &&& first.day_number() <= slot.date.day_number() <= last_day.day_number()
            &&& slot.date.day_number() == week_first_day(first.day_number(), week) + index
            &&& week == week_index(slot.date.day_number()) - week_index(first.day_number())
            &&& slot.count == count_or_zero(activity, slot.date.day_number()) as usize
        }),
{
    lemma_sub_year(last_day);
    lemma_last_day_number(last_day);
    let first = last_day.sub_year();
    let number = week_first_day(first.day_number(), week) + index;
    lemma_plus_days(first, (number - first.day_number()) as nat);
}

/// Every day from one year before `last_day` to `last_day` has its slot in
/// the calendar: in the week it lies in, at its distance from that week's
/// first day.
pub proof fn lemma_calendar_covers(activity: Map<int, nat>, last_day: Date, date: Date)
    requires
        last_day.valid(),
        last_day.year > MIN_YEAR,
        date.valid(),
        last_day.sub_year().day_number() <= date.day_number() <= last_day.day_number(),
    ensures
        ({
            let first = last_day.sub_year().day_number();
            let week = week_index(date.day_number()) - week_index(first);
            let index = date.day_number() - week_first_day(first, week);
            &&& 0 <= week < calendar_weeks(activity, last_day).len()
            &&& 0 <= index < calendar_weeks(activity, last_day)[week].len()
            &&& calendar_weeks(activity, last_day)[week][index].date == date
        }),
{
    lemma_sub_year(last_day);
    lemma_last_day_number(last_day);
    let first = last_day.sub_year();
    lemma_plus_days(first, (date.day_number() - first.day_number()) as nat);
    lemma_day_number_injective(
        first.plus_days((date.day_number() - first.day_number()) as nat),
        date,
    );
}

/// No day stands in two slots of the calendar.
pub proof fn lemma_calendar_exactly_once(
    activity: Map<int, nat>,
    last_day: Date,
    week: int,
    index: int,
    other_week: int,
    other_index: int,
)
    requires
        last_day.valid(),
        last_day.year > MIN_YEAR,
        0 <= week < calendar_weeks(activity, last_day).len(),
        0 <= index < calendar_weeks(activity, last_day)[week].len(),
        0 <= other_week < calendar_weeks(activity, last_day).len(),
        0 <= other_index < calendar_weeks(activity, last_day)[other_week].len(),
        calendar_weeks(activity, last_day)[week][index].date == calendar_weeks(
            activity,
            last_day,
        )[other_week][other_index].date,
    ensures
        week == other_week,
        index == other_index,
{
    lemma_calendar_slot(activity, last_day, week, index);
    lemma_calendar_slot(activity, last_day, other_week, other_index);
}

/// The number of days in all weeks.
pub open spec fn day_total(weeks: Seq<Seq<Data>>) -> nat
    decreases weeks.len(),
{
    if weeks.len() == 0 {
        0
    } else {
        day_total(weeks.drop_last()) + weeks.last().len()
    }
}

/// The weeks of a window hold as many days as the window has.
pub proof fn lemma_day_total(activity: Map<int, nat>, first: Date, last: int)
    requires
        first.day_number() <= last,
    ensures
        day_total(weeks_between(activity, first, last)) == last - first.day_number() + 1,
    decreases last - first.day_number(),
{
    if first.day_number() == last {
        lemma_weeks_of_one_day(activity, first);
        let weeks = weeks_between(activity, first, last);
        assert(weeks.drop_last() =~= Seq::<Seq<Data>>::empty());
        assert(day_total(weeks.drop_last()) == 0);
    } else {
        lemma_day_total(activity, first, last - 1);
        lemma_weeks_grow(activity, first, last);
        let before = weeks_between(activity, first, last - 1);
        let after = weeks_between(activity, first, last);
        if (last - 1) % 7 == 0 {
            assert(after.drop_last() =~= before);
        } else {
            assert(after.drop_last() =~= before.drop_last());
        }
    }
}

/// The calendar of a year has a slot for each of its 366 or 367 days, and
/// every slot holds a valid date.
pub proof fn lemma_calendar_days(activity: Map<int, nat>, last_day: Date)
    requires
        last_day.valid(),
        last_day.year > MIN_YEAR,
    ensures
        day_total(calendar_weeks(activity, last_day)) == last_day.day_number()
            - last_day.sub_year().day_number() + 1,
        day_total(calendar_weeks(activity, last_day)) == 366 || day_total(
            calendar_weeks(activity, last_day),
        ) == 367,
        forall|week: int, index: int|
            0 <= week < calendar_weeks(activity, last_day).len() && 0 <= index < calendar_weeks(
                activity,
                last_day,
            )[week].len() ==> (#[trigger] calendar_weeks(
                activity,
                last_day,
            )[week][index]).date.valid(),
{
    lemma_sub_year(last_day);
    lemma_day_total(activity, last_day.sub_year(), last_day.day_number());
    assert forall|week: int, index: int|
        0 <= week < calendar_weeks(activity, last_day).len() && 0 <= index < calendar_weeks(
            activity,
            last_day,
        )[week].len() implies (#[trigger] calendar_weeks(
        activity,
        last_day,
    )[week][index]).date.valid() by {
        lemma_calendar_slot(activity, last_day, week, index);
    }
}

/// The captions of the first weeks of a window stand at those weeks, in
/// rising order of the weeks, each with a month from 0 to 11.
pub proof fn lemma_month_labels(first: Date, last: int, weeks: nat)
    requires
        first.valid(),
        first.day_number() <= last <= crate::date::MAX_DAY_NUMBER,
        weeks <= week_count(first.day_number(), last),
    ensures
        month_labels(first, weeks).len() <= weeks,
        forall|i: int|
            0 <= i < month_labels(first, weeks).len() ==> (#[trigger] month_labels(
                first,
                weeks,
            )[i]).month < 12 && month_labels(first, weeks)[i].group < weeks,
    decreases weeks,
{
    if weeks > 0 {
        lemma_month_labels(first, last, (weeks - 1) as nat);
        let start = week_first_day(first.day_number(), weeks - 1);
        lemma_plus_days(first, (start - first.day_number()) as nat);
    }
}

/// The count that the ledger holds for a day, 0 where it has no entry.
fn count_on(activity: &ContributionActivity, date: &Date) -> (count: usize)
    requires
        date.valid(),
    ensures
        count == count_or_zero(activity@, date.day_number()),
{
    match activity.get(date) {
        Some(count) => count,
        None => 0,
    }
}

/// Lays out the year that ends with `last_day`: every day from the same
/// day one year earlier to `last_day`, in weeks from Monday to Sunday, and
/// the captions of the months.
pub fn layout(activity: &ContributionActivity, last_day: Date) -> (calendar: (
    Vec<Vec<Data>>,
    Vec<MonthText>,
))
    requires
        last_day.valid(),
        last_day.year > MIN_YEAR,
    ensures
        weeks_view(calendar.0@) == calendar_weeks(activity@, last_day),
        calendar.1@ == calendar_months(last_day),
{
    proof {
        lemma_sub_year(last_day);
        lemma_last_day_number(last_day);
    }
    let first = match last_day.checked_sub_year() {
        Some(first) => first,
        None => last_day,
    };
    let first_number = first.num_days_from_ce();
    let last_number = last_day.num_days_from_ce();
    let mut weeks: Vec<Vec<Data>> = Vec::new();
    let mut months: Vec<MonthText> = Vec::new();
    months.push(MonthText { group: 0, month: first.month0() });
    let mut current: Vec<Data> = Vec::new();
    current.push(Data { count: count_on(activity, &first), date: first });
    let mut day = first;
    let mut number = first_number;
    proof {
        lemma_weeks_of_one_day(activity@, first);
        assert(weeks_view(weeks@).push(current@) =~= weeks_between(
            activity@,
            first,
            number as int,
        ));
        reveal_with_fuel(month_labels, 2);
        assert(months@ =~= month_labels(first, 1));
    }
    while number < last_number
        invariant
            first.valid(),
            day.valid(),
            last_day.valid(),
            first_number == first.day_number(),
            last_number == last_day.day_number(),
            first_number <= number <= last_number,
            last_number - first_number <= 366,
            day == first.plus_days((number - first_number) as nat),
            day.day_number() == number,
            weeks_view(weeks@).push(current@) == weeks_between(activity@, first, number as int),
            weeks.len() + 1 == week_count(first_number as int, number as int),
            weeks.len() <= number - first_number,
            months@ == month_labels(first, (weeks.len() + 1) as nat),
            months.len() >= 1,
            months@.last().month == week_month(first, weeks.len() as int),
        decreases last_number - number,
    {
        proof {
            lemma_last_day_number(last_day);
            lemma_last_day_number(day);
            lemma_succ(day);
            lemma_weeks_grow(activity@, first, number + 1);
        }
        let ghost before = weeks_view(weeks@).push(current@);
        let next = match day.succ_opt() {
            Some(next) => next,
            None => day,
        };
        day = next;
        number = number + 1;
        let data = Data { count: count_on(activity, &day), date: day };
        assert(data == day_slot(activity@, first, number as int));
        let starts_week = match day.weekday() {
            Weekday::Mon => true,
            _ => false,
        };
        assert(starts_week == ((number - 1) % 7 == 0));
        if starts_week {
            let month = day.month0();
            let anchored = months[months.len() - 1].month;
            weeks.push(current);
            current = Vec::new();
            assert(week_month(first, weeks.len() as int) == month);
            if month != anchored {
                months.push(MonthText { group: weeks.len(), month });
            }
            current.push(data);
            proof {
                assert(weeks_view(weeks@) =~= before);
                assert(weeks_view(weeks@).push(current@) =~= before.push(seq![data]));
            }
        } else {
            current.push(data);
            proof {
                assert(weeks_view(weeks@).push(current@) =~= before.drop_last().push(
                    before.last().push(data),
                ));
            }
        }
    }
    weeks.push(current);
    proof {
        assert(weeks_view(weeks@) =~= weeks_between(activity@, first, last_number as int));
    }
    (weeks, months)
}

} // verus!
