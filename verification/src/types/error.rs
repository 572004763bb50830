//! The ways in which getting or rendering contributions can fail.

use crate::svg::svg_renderer::BuilderError;
use vstd::prelude::*;

verus! {

/// Why there are no contributions, or no image of them.
#[derive(Debug, PartialEq, Eq)]
pub enum Error {
    /// A selector for a page could not be read; the text says why.
    SelectorError(String),
    /// An element of a page lacks an attribute.
    AttributeMissing,
    /// A day of a page has no tooltip.
    TooltipMissing,
    /// The tooltip of a day does not give a count; the text is the tooltip.
    UnexpectedTooltipMessage(String),
    /// A text or a timestamp gives no date; the text says why.
    UnableToParseDate(String),
    /// A text is not the JSON that was expected; the text says why.
    UnableToParseJson(String),
    /// A request failed; the text says why.
    ReqwestError(String),
    /// Git failed; the text says why.
    GitError(String),
    /// A repository could not be cloned within the time allowed.
    RepositoryCloningTimedOut,
    /// The contributions of a source add up to more than `usize::MAX`.
    TooManyContributions,
    /// The user does not exist.
    UserNotFound,
    /// No renderer could be built.
    BuilderError(BuilderError),
}

impl From<BuilderError> for Error {
    fn from(error: BuilderError) -> (wrapped: Self)
        ensures
            wrapped == Error::BuilderError(error),
    {
        Error::BuilderError(error)
    }
}

impl vstd::std_specs::convert::FromSpecImpl<BuilderError> for Error {
    open spec fn obeys_from_spec() -> bool {
        true
    }

    open spec fn from_spec(error: BuilderError) -> Self {
        Error::BuilderError(error)
    }
}

} // verus!
