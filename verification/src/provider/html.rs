//! Pages in HTML, read by scraper: what the elements that a selector
//! matches hold.

use crate::text::optional_text;
use vstd::prelude::*;

verus! {

/// For each element of the page `html` that the selector `selectors`
/// matches, in the order of the page, the values of its attributes `first`
/// and `second`, `None` where it has no such attribute; what scraper says
/// in words where `selectors` is no selector.
pub uninterp spec fn selected_attributes(
    html: Seq<char>,
    selectors: Seq<char>,
    first: Seq<char>,
    second: Seq<char>,
) -> Result<Seq<(Option<Seq<char>>, Option<Seq<char>>)>, Seq<char>>;

/// What stands inside the first element of the page `html` that the
/// selector `selectors` matches, as HTML; `None` where it matches no
/// element; what scraper says in words where `selectors` is no selector.
pub uninterp spec fn selected_inner_html(html: Seq<char>, selectors: Seq<char>) -> Result<
    Option<Seq<char>>,
    Seq<char>,
>;

/// The texts of a list of pairs of optional strings.
pub open spec fn pair_texts(pairs: Seq<(Option<String>, Option<String>)>) -> Seq<
    (Option<Seq<char>>, Option<Seq<char>>),
> {
    Seq::new(pairs.len(), |i: int| (optional_text(pairs[i].0), optional_text(pairs[i].1)))
}

/// The texts of what was found for a selector.
pub open spec fn found_text(found: Result<Option<String>, String>) -> Result<
    Option<Seq<char>>,
    Seq<char>,
> {
    match found {
        Ok(inner) => Ok(optional_text(inner)),
        Err(why) => Err(why@),
    }
}

/// `scraper::Html::parse_document`, `Selector::parse`, `Html::select` and
/// `ElementRef::attr`: reads a page, finds the elements that a selector
/// matches and hands out two attributes of each. All of it depends on the
/// four texts alone. The error is the `to_string` of scraper's
/// `SelectorErrorKind`.
#[verifier::external_body]
pub(crate) fn attributes_of_matches(html: &str, selectors: &str, first: &str, second: &str) -> (found:
    Result<Vec<(Option<String>, Option<String>)>, String>)
    ensures
        match found {
            Ok(pairs) => selected_attributes(html@, selectors@, first@, second@) == Ok::<
                Seq<(Option<Seq<char>>, Option<Seq<char>>)>,
                Seq<char>,
            >(pair_texts(pairs@)),
            Err(why) => selected_attributes(html@, selectors@, first@, second@) == Err::<
                Seq<(Option<Seq<char>>, Option<Seq<char>>)>,
                Seq<char>,
            >(why@),
        },
{
    let selector = scraper::Selector::parse(selectors).map_err(|error| error.to_string())?;
    let document = scraper::Html::parse_document(html);
    Ok(
        document.select(&selector).map(
            |element| (element.attr(first).map(String::from), element.attr(second).map(String::from)),
        ).collect(),
    )
}

/// `scraper::Html::parse_document`, `Selector::parse`, `Html::select` and
/// `ElementRef::inner_html`, for each of a list of selectors: reads a page
/// and hands out, for each selector, what stands inside the first element
/// that it matches. What is found for a selector depends on the page and
/// the selector alone. The error is the `to_string` of scraper's
/// `SelectorErrorKind`.
#[verifier::external_body]
pub(crate) fn inner_html_of_first_matches(html: &str, selectors: &Vec<String>) -> (found: Vec<
    Result<Option<String>, String>,
>)
    ensures
        found.len() == selectors.len(),
        forall|i: int|
            0 <= i < found.len() ==> found_text(#[trigger] found[i]) == selected_inner_html(
                html@,
                selectors[i]@,
            ),
{
    let document = scraper::Html::parse_document(html);
    selectors.iter().map(
        |text|
            match scraper::Selector::parse(text) {
                Ok(selector) => Ok(
                    document.select(&selector).next().map(|element| element.inner_html()),
                ),
                Err(error) => Err(error.to_string()),
            },
    ).collect()
}

} // verus!
