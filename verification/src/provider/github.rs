//! Contributions from the contribution calendar of GitHub: the cells of
//! the page, each with its date and a tooltip that says how many
//! contributions the day had.

use crate::date::Date;
use crate::provider::html::{
    attributes_of_matches, found_text, inner_html_of_first_matches, pair_texts,
    selected_attributes, selected_inner_html,
};
use crate::provider::{parse_date, parsed_day_number, DATE_DESCRIPTION};
use crate::types::contribution_activity::{
    ledger_of_entries, numbered, total_of, ContributionActivity,
};
use crate::types::error::Error;
use crate::text::optional_text;
use vstd::prelude::*;
use vstd::string::StrSliceExecFns;
use vstd::string::StringExecFns;

verus! {

/// The contribution calendar of GitHub.
pub struct Github {}

/// What the page holds as the tooltip of a cell.
#[derive(Debug)]
pub enum Tooltip {
    /// The text of the tooltip.
    Found(String),
    /// The page has no tooltip for the cell.
    Missing,
    /// The identifier of the cell makes no selector; the text says why.
    SelectorFailed(String),
}

/// A cell of the calendar as the page holds it: its date, its identifier,
/// and the tooltip that belongs to the identifier.
#[derive(Debug)]
pub struct Cell {
    pub date: Option<String>,
    pub id: Option<String>,
    pub tooltip: Tooltip,
}

/// The texts of the tooltip of a cell.
pub enum TooltipText {
    Found(Seq<char>),
    Missing,
    SelectorFailed(Seq<char>),
}

/// The texts of a cell.
pub struct CellText {
    pub date: Option<Seq<char>>,
    pub id: Option<Seq<char>>,
    pub tooltip: TooltipText,
}

impl View for Tooltip {
    type V = TooltipText;

    open spec fn view(&self) -> TooltipText {
        match self {
            Tooltip::Found(text) => TooltipText::Found(text@),
            Tooltip::Missing => TooltipText::Missing,
            Tooltip::SelectorFailed(why) => TooltipText::SelectorFailed(why@),
        }
    }
}

impl View for Cell {
    type V = CellText;

    open spec fn view(&self) -> CellText {
        CellText {
            date: optional_text(self.date),
            id: optional_text(self.id),
            tooltip: self.tooltip@,
        }
    }
}

/// The texts of a list of cells.
pub open spec fn cell_texts(cells: Seq<Cell>) -> Seq<CellText> {
    Seq::new(cells.len(), |i: int| cells[i]@)
}

/// Why a cell gives no day and count.
pub enum CellFault {
    /// The cell has no date or no identifier.
    AttributeMissing,
    /// The identifier of the cell makes no selector.
    SelectorError(Seq<char>),
    /// The cell has no tooltip.
    TooltipMissing,
    /// The tooltip, whose text this is, gives no count.
    UnexpectedTooltipMessage(Seq<char>),
    /// The date of the cell is no date.
    UnableToParseDate,
}

/// Whether a character is one of the digits 0 to 9.
pub open spec fn is_digit(c: char) -> bool {
    '0' <= c && c <= '9'
}

/// The number of digits at the start of a text.
pub open spec fn leading_digits(text: Seq<char>) -> nat
    decreases text.len(),
{
    if text.len() > 0 && is_digit(text[0]) {
        1 + leading_digits(text.skip(1))
    } else {
        0
    }
}

/// The number that decimal digits stand for.
pub open spec fn digits_value(digits: Seq<char>) -> nat
    decreases digits.len(),
{
    if digits.len() == 0 {
        0
    } else {
        (digits_value(digits.drop_last()) * 10 + (digits.last() as int - 48)) as nat
    }
}

/// Whether `text` has `prefix` at position `at`.
pub open spec fn has_at(text: Seq<char>, at: int, prefix: Seq<char>) -> bool {
    &&& 0 <= at
    &&& at + prefix.len() <= text.len()
    &&& text.subrange(at, at + prefix.len()) == prefix
}

/// The count that a tooltip gives: 0 where it starts with
/// `No contributions`; the number at its start where that is followed by
/// ` contribution` and is no more than `usize::MAX`; none else.
pub open spec fn tooltip_count(text: Seq<char>) -> Option<nat> {
    if has_at(text, 0, "No contributions"@) {
        Some(0)
    } else {
        let digits = leading_digits(text);
        if digits > 0 && has_at(text, digits as int, " contribution"@) && digits_value(
            text.take(digits as int),
        ) <= usize::MAX {
            Some(digits_value(text.take(digits as int)))
        } else {
            None
        }
    }
}

/// The day and the count that a cell gives: its date read as a date and
/// the count of its tooltip. What is looked at first decides the fault:
/// the date is there, the identifier is there, the identifier has made a
/// selector, the tooltip is there, the tooltip gives a count, the date is
/// a date.
pub open spec fn cell_reads(cell: CellText) -> Result<(int, nat), CellFault> {
    if cell.date is None || cell.id is None {
        Err(CellFault::AttributeMissing)
    } else {
        match cell.tooltip {
            TooltipText::SelectorFailed(why) => Err(CellFault::SelectorError(why)),
            TooltipText::Missing => Err(CellFault::TooltipMissing),
            TooltipText::Found(text) => match tooltip_count(text) {
                None => Err(CellFault::UnexpectedTooltipMessage(text)),
                Some(count) => match parsed_day_number(cell.date->0, DATE_DESCRIPTION@) {
                    None => Err(CellFault::UnableToParseDate),
                    Some(day) => Ok((day, count)),
                },
            },
        }
    }
}

/// The days and counts that the cells give, in their order, or the fault
/// of the first cell that gives none.
pub open spec fn cells_read(cells: Seq<CellText>) -> Result<Seq<(int, nat)>, CellFault>
    decreases cells.len(),
{
    if cells.len() == 0 {
        Ok(Seq::empty())
    } else {
        match cells_read(cells.drop_last()) {
            Err(fault) => Err(fault),
            Ok(entries) => match cell_reads(cells.last()) {
                Err(fault) => Err(fault),
                Ok(entry) => Ok(entries.push(entry)),
            },
        }
    }
}

/// Whether an error says what the fault of a cell is.
pub open spec fn tells(error: Error, fault: CellFault) -> bool {
    match fault {
        CellFault::AttributeMissing => error is AttributeMissing,
        CellFault::SelectorError(why) => error matches Error::SelectorError(text) && text@ == why,
        CellFault::TooltipMissing => error is TooltipMissing,
        CellFault::UnexpectedTooltipMessage(tooltip) => error matches Error::UnexpectedTooltipMessage(
            text,
        ) && text@ == tooltip,
        CellFault::UnableToParseDate => error is UnableToParseDate,
    }
}

/// What the cells of a page come to: the ledger that holds for the day of
/// each cell the count of its tooltip, that of the last cell where several
/// cells name one day; the error of the first cell that gives no day and
/// count; an error where the counts add up to more than `usize::MAX`.
pub open spec fn comes_to(cells: Seq<CellText>, activity: Result<ContributionActivity, Error>)
    -> bool {
    match activity {
        Ok(ledger) => cells_read(cells) matches Ok(entries) && ledger@ == ledger_of_entries(
            entries,
        ),
        Err(error) => match cells_read(cells) {
            Err(fault) => tells(error, fault),
            Ok(entries) => error is TooManyContributions && total_of(ledger_of_entries(entries))
                > usize::MAX,
        },
    }
}

/// The selector of the cells of the calendar.
pub const CELLS: &'static str = "div > table > tbody td[data-date]";

/// The attribute of a cell that holds its date.
pub const DATE_ATTRIBUTE: &'static str = "data-date";

/// The attribute of a cell that holds its identifier.
pub const ID_ATTRIBUTE: &'static str = "id";

/// The selector of the tooltip that belongs to a cell with the identifier
/// `id`.
pub open spec fn tooltip_selector(id: Seq<char>) -> Seq<char> {
    "tool-tip[for=\""@ + id + "\"]"@
}

/// The cell with the given date and identifier as the page holds it: with
/// the tooltip that the page has for the identifier.
pub open spec fn cell_on_page(html: Seq<char>, date: Option<Seq<char>>, id: Option<Seq<char>>)
    -> CellText {
    CellText {
        date,
        id,
        tooltip: match id {
            None => TooltipText::Missing,
            Some(id) => match selected_inner_html(html, tooltip_selector(id)) {
                Err(why) => TooltipText::SelectorFailed(why),
                Ok(None) => TooltipText::Missing,
                Ok(Some(text)) => TooltipText::Found(text),
            },
        },
    }
}

/// The cells of the calendar that a page holds, in the order of the page; an
/// error where the selector of the cells is none.
pub open spec fn cells_on_page(html: Seq<char>) -> Result<Seq<CellText>, Seq<char>> {
    match selected_attributes(html, CELLS@, DATE_ATTRIBUTE@, ID_ATTRIBUTE@) {
        Err(why) => Err(why),
        Ok(pairs) => Ok(
            Seq::new(pairs.len(), |i: int| cell_on_page(html, pairs[i].0, pairs[i].1)),
        ),
    }
}

/// Whether `text` has `prefix` at position `at`.
fn starts_at(text: &str, at: usize, prefix: &str) -> (starts: bool)
    requires
        at <= text@.len(),
    ensures
        starts == has_at(text@, at as int, prefix@),
{
    let length = text.unicode_len();
    let prefix_length = prefix.unicode_len();
    if prefix_length > length - at {
        return false;
    }
    let mut i: usize = 0;
    while i < prefix_length
        invariant
            i <= prefix_length,
            length == text@.len(),
            prefix_length == prefix@.len(),
            at + prefix_length <= length,
            forall|j: int| 0 <= j < i ==> text@[at + j] == prefix@[j],
        decreases prefix_length - i,
    {
        if text.get_char(at + i) != prefix.get_char(i) {
            assert(text@.subrange(at as int, at + prefix_length)[i as int] != prefix@[i as int]);
            return false;
        }
        i += 1;
    }
    assert(text@.subrange(at as int, at + prefix_length) =~= prefix@);
    true
}

/// A text whose first `count` characters are digits, followed by none, has
/// `count` digits at its start.
proof fn lemma_leading_digits_found(text: Seq<char>, count: nat)
    requires
        count <= text.len(),
        forall|i: int| 0 <= i < count ==> is_digit(#[trigger] text[i]),
        count < text.len() ==> !is_digit(text[count as int]),
    ensures
        leading_digits(text) == count,
    decreases count,
{
    if count > 0 {
        assert(is_digit(text[0]));
        assert forall|i: int| 0 <= i < count - 1 implies is_digit(
            #[trigger] text.skip(1)[i],
        ) by {
            assert(text.skip(1)[i] == text[i + 1]);
        }
        lemma_leading_digits_found(text.skip(1), (count - 1) as nat);
    }
}

/// More digits never stand for a smaller number.
proof fn lemma_digits_value_grows(digits: Seq<char>, shorter: int)
    requires
        0 <= shorter <= digits.len(),
        forall|i: int| 0 <= i < digits.len() ==> is_digit(#[trigger] digits[i]),
    ensures
        digits_value(digits.take(shorter)) <= digits_value(digits),
    decreases digits.len(),
{
    if shorter < digits.len() {
        assert(digits.drop_last().take(shorter) =~= digits.take(shorter));
        lemma_digits_value_grows(digits.drop_last(), shorter);
        assert(is_digit(digits[digits.len() - 1]));
    } else {
        assert(digits.take(shorter) =~= digits);
    }
}

/// Reads the count that a tooltip gives.
pub fn count_of_tooltip(text: &str) -> (count: Option<usize>)
    ensures
        count is Some <==> tooltip_count(text@) is Some,
        count is Some ==> count->0 == tooltip_count(text@)->0,
{
    if starts_at(text, 0, "No contributions") {
        return Some(0);
    }
    let length = text.unicode_len();
    let mut digits: usize = 0;
    while digits < length && is_digit_char(text.get_char(digits))
        invariant
            digits <= length,
            length == text@.len(),
            forall|i: int| 0 <= i < digits ==> is_digit(#[trigger] text@[i]),
        decreases length - digits,
    {
        digits += 1;
    }
    proof {
        lemma_leading_digits_found(text@, digits as nat);
    }
    if digits == 0 || !starts_at(text, digits, " contribution") {
        return None;
    }
    let ghost number = text@.take(digits as int);
    let mut value: usize = 0;
    let mut i: usize = 0;
    proof {
        assert(number.take(0) =~= Seq::<char>::empty());
    }
    while i < digits
        invariant
            i <= digits,
            digits <= length,
            length == text@.len(),
            number == text@.take(digits as int),
            leading_digits(text@) == digits,
            !has_at(text@, 0, "No contributions"@),
            forall|i: int| 0 <= i < digits ==> is_digit(#[trigger] number[i]),
            value == digits_value(number.take(i as int)),
        decreases digits - i,
    {
        let digit = text.get_char(i);
        proof {
            assert(number[i as int] == digit);
            assert(number.take(i + 1).drop_last() =~= number.take(i as int));
            lemma_digits_value_grows(number, i + 1);
        }
        let value_of_digit: usize = (digit as u32 - 48) as usize;
        value = match value.checked_mul(10) {
            Some(tenfold) => match tenfold.checked_add(value_of_digit) {
                Some(sum) => sum,
                None => {
                    return None;
                },
            },
            None => {
                return None;
            },
        };
        i += 1;
    }
    proof {
        assert(number.take(i as int) =~= number);
    }
    Some(value)
}

/// Whether a character is one of the digits 0 to 9.
fn is_digit_char(c: char) -> (digit: bool)
    ensures
        digit == is_digit(c),
{
    '0' <= c && c <= '9'
}

impl Github {
    /// Reads the day and the count of a cell.
    pub fn read_cell(cell: &Cell) -> (entry: Result<(Date, usize), Error>)
        ensures
            match entry {
                Ok((date, count)) => date.valid() && cell_reads(cell@) == Ok::<
                    (int, nat),
                    CellFault,
                >((date.day_number(), count as nat)),
                Err(error) => cell_reads(cell@) is Err && tells(error, cell_reads(cell@)->Err_0),
            },
    {
        let date = match &cell.date {
            Some(date) => date,
            None => {
                return Err(Error::AttributeMissing);
            },
        };
        if cell.id.is_none() {
            return Err(Error::AttributeMissing);
        }
        let text = match &cell.tooltip {
            Tooltip::SelectorFailed(why) => {
                return Err(Error::SelectorError(why.clone()));
            },
            Tooltip::Missing => {
                return Err(Error::TooltipMissing);
            },
            Tooltip::Found(text) => text,
        };
        let count = match count_of_tooltip(text.as_str()) {
            Some(count) => count,
            None => {
                return Err(Error::UnexpectedTooltipMessage(text.clone()));
            },
        };
        match parse_date(date.as_str()) {
            Ok(day) => Ok((day, count)),
            Err(error) => Err(error),
        }
    }

    /// The ledger of the cells of a page: for the day of each cell the
    /// count of its tooltip, that of the last cell where several cells
    /// name one day. The first cell that gives no day and count makes the
    /// page an error, and so do counts that add up to more than
    /// `usize::MAX`.
    pub fn activity_of_cells(cells: &Vec<Cell>) -> (activity: Result<ContributionActivity, Error>)
        ensures
            comes_to(cell_texts(cells@), activity),
    {
        let ghost texts = cell_texts(cells@);
        let mut entries: Vec<(Date, usize)> = Vec::new();
        let mut i: usize = 0;
        proof {
            assert(texts.take(0) =~= Seq::<CellText>::empty());
            assert(numbered(entries@) =~= Seq::<(int, nat)>::empty());
        }
        while i < cells.len()
            invariant
                i <= cells.len(),
                texts == cell_texts(cells@),
                cells_read(texts.take(i as int)) == Ok::<Seq<(int, nat)>, CellFault>(
                    numbered(entries@),
                ),
                forall|j: int| 0 <= j < entries.len() ==> (#[trigger] entries[j]).0.valid(),
            decreases cells.len() - i,
        {
            proof {
                assert(texts.take(i + 1).drop_last() =~= texts.take(i as int));
                assert(texts.take(i + 1).last() == cells[i as int]@);
                lemma_cells_read_fails(texts, i + 1);
            }
            let ghost before = numbered(entries@);
            match Github::read_cell(&cells[i]) {
                Ok(entry) => {
                    entries.push(entry);
                    proof {
                        assert(numbered(entries@) =~= before.push(
                            (entry.0.day_number(), entry.1 as nat),
                        ));
                    }
                },
                Err(error) => {
                    return Err(error);
                },
            }
            i += 1;
        }
        proof {
            assert(texts.take(i as int) =~= texts);
        }
        match ContributionActivity::from_entries(&entries) {
            Some(ledger) => Ok(ledger),
            None => Err(Error::TooManyContributions),
        }
    }
}

impl Github {
    /// The address of the page that holds the calendar of a user.
    pub fn contributions_url(user_name: &str) -> (url: String)
        ensures
            url@ == "https://github.com/users/"@ + user_name@ + "/contributions"@,
    {
        let mut url = "https://github.com/users/".to_owned();
        url.append(user_name);
        url.append("/contributions");
        url
    }

    /// The ledger of the calendar on a page of GitHub.
    pub fn parse(html: &str) -> (activity: Result<ContributionActivity, Error>)
        ensures
            match cells_on_page(html@) {
                Err(why) => activity matches Err(Error::SelectorError(text)) && text@ == why,
                Ok(cells) => comes_to(cells, activity),
            },
    {
        let pairs = match attributes_of_matches(html, CELLS, DATE_ATTRIBUTE, ID_ATTRIBUTE) {
            Ok(pairs) => pairs,
            Err(why) => {
                return Err(Error::SelectorError(why));
            },
        };
        let mut selectors: Vec<String> = Vec::new();
        let mut i: usize = 0;
        while i < pairs.len()
            invariant
                i <= pairs.len(),
                selectors.len() == i,
                forall|j: int|
                    0 <= j < i ==> ((#[trigger] pairs[j]).1 matches Some(id) ==> selectors[j]@
                        == tooltip_selector(id@)),
            decreases pairs.len() - i,
        {
            let mut selector = "tool-tip[for=\"".to_owned();
            match &pairs[i].1 {
                Some(id) => {
                    selector.append(id.as_str());
                },
                None => {},
            }
            selector.append("\"]");
            selectors.push(selector);
            i += 1;
        }
        let found = inner_html_of_first_matches(html, &selectors);
        let ghost on_page = cells_on_page(html@)->Ok_0;
        let mut cells: Vec<Cell> = Vec::new();
        let mut i: usize = 0;
        while i < pairs.len()
            invariant
                i <= pairs.len(),
                cells.len() == i,
                found.len() == pairs.len(),
                selectors.len() == pairs.len(),
                cells_on_page(html@) == Ok::<Seq<CellText>, Seq<char>>(on_page),
                on_page.len() == pairs.len(),
                forall|j: int|
                    0 <= j < pairs.len() ==> #[trigger] on_page[j] == cell_on_page(
                        html@,
                        optional_text(pairs[j].0),
                        optional_text(pairs[j].1),
                    ),
                forall|j: int|
                    0 <= j < pairs.len() ==> ((#[trigger] pairs[j]).1 matches Some(id)
                        ==> selectors[j]@ == tooltip_selector(id@)),
                forall|j: int|
                    0 <= j < found.len() ==> found_text(#[trigger] found[j])
                        == selected_inner_html(html@, selectors[j]@),
                forall|j: int| 0 <= j < i ==> (#[trigger] cells[j])@ == on_page[j],
            decreases pairs.len() - i,
        {
            let date = copy_text(&pairs[i].0);
            let id = copy_text(&pairs[i].1);
            let tooltip = if id.is_none() {
                Tooltip::Missing
            } else {
                match &found[i] {
                    Err(why) => Tooltip::SelectorFailed(why.clone()),
                    Ok(None) => Tooltip::Missing,
                    Ok(Some(text)) => Tooltip::Found(text.clone()),
                }
            };
            proof {
                assert(pairs[i as int].1 matches Some(held) ==> selectors[i as int]@
                    == tooltip_selector(held@));
                assert(found_text(found[i as int]) == selected_inner_html(
                    html@,
                    selectors[i as int]@,
                ));
            }
            cells.push(Cell { date, id, tooltip });
            i += 1;
        }
        proof {
            assert(cell_texts(cells@) =~= on_page);
        }
        Github::activity_of_cells(&cells)
    }
}

/// A copy of an optional text.
fn copy_text(text: &Option<String>) -> (copy: Option<String>)
    ensures
        optional_text(copy) == optional_text(*text),
{
    match text {
        Some(held) => Some(held.clone()),
        None => None,
    }
}

/// Where the first cells of a page give a fault, the page gives that fault.
proof fn lemma_cells_read_fails(cells: Seq<CellText>, upto: int)
    requires
        0 <= upto <= cells.len(),
    ensures
        cells_read(cells.take(upto)) is Err ==> cells_read(cells) == cells_read(cells.take(upto)),
    decreases cells.len() - upto,
{
    if upto < cells.len() {
        assert(cells.take(upto + 1).drop_last() =~= cells.take(upto));
        lemma_cells_read_fails(cells, upto + 1);
    } else {
        assert(cells.take(upto) =~= cells);
    }
}

} // verus!
