//! Addresses, changed by the url crate.

use crate::text::optional_text;
use vstd::prelude::*;

verus! {

/// The address `url` with its path replaced by `path`, as the url crate
/// writes it; `None` where `url` is no address.
pub uninterp spec fn url_with_path(url: Seq<char>, path: Seq<char>) -> Option<Seq<char>>;

/// The address `url` with its query replaced by `query`, as the url crate
/// writes it; `None` where `url` is no address.
pub uninterp spec fn url_with_query(url: Seq<char>, query: Seq<char>) -> Option<Seq<char>>;

/// The greatest number of characters of an address, a path or a query that
/// is handed to the url crate, which counts the bytes of an address in 32
/// bits.
pub const URL_LIMIT: usize = 10_000_000;

/// `url::Url::parse`, `Url::set_path` and the address as a `String`:
/// reads an address and replaces its path. The result depends on the two
/// texts alone.
#[verifier::external_body]
pub(crate) fn with_path(url: &str, path: &str) -> (changed: Option<String>)
    requires
        url@.len() <= URL_LIMIT,
        path@.len() <= URL_LIMIT,
    ensures
        optional_text(changed) == url_with_path(url@, path@),
{
    url::Url::parse(url).ok().map(
        |mut parsed|
            {
                parsed.set_path(path);
                parsed.into()
            },
    )
}

/// `url::Url::parse`, `Url::set_query` and the address as a `String`:
/// reads an address and replaces its query. The result depends on the two
/// texts alone.
#[verifier::external_body]
pub(crate) fn with_query(url: &str, query: &str) -> (changed: Option<String>)
    requires
        url@.len() <= URL_LIMIT,
        query@.len() <= URL_LIMIT,
    ensures
        optional_text(changed) == url_with_query(url@, query@),
{
    url::Url::parse(url).ok().map(
        |mut parsed|
            {
                parsed.set_query(Some(query));
                parsed.into()
            },
    )
}

} // verus!
