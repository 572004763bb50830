//! The five levels of activity that a day's cell can show.

use vstd::prelude::*;

verus! {

/// The level of a day with `count` contributions: 0 for none, 1 for 1 to 9,
/// 2 for 10 to 19, 3 for 20 to 29, 4 for 30 and more.
pub open spec fn level_of(count: nat) -> nat {
    if count == 0 {
        0
    } else if count < 10 {
        1
    } else if count < 20 {
        2
    } else if count < 30 {
        3
    } else {
        4
    }
}

/// What a level stands for, in words.
pub open spec fn level_text(level: nat) -> Seq<char> {
    if level == 0 {
        "No contributions"@
    } else if level == 1 {
        "1-9 contributions"@
    } else if level == 2 {
        "10-19 contributions"@
    } else if level == 3 {
        "20-29 contributions"@
    } else {
        "30+ contributions"@
    }
}

/// A division of contribution counts into levels.
pub trait ContributionLevel {
    /// The level of a count and what that level stands for.
    fn get_contrib_level(count: usize) -> (level: (usize, String))
        ensures
            level.0 == level_of(count as nat),
            level.1@ == level_text(level_of(count as nat)),
    ;
}

/// The levels of the GitLab contribution calendar.
pub struct GitlabContributionLevel {}

impl ContributionLevel for GitlabContributionLevel {
    fn get_contrib_level(count: usize) -> (level: (usize, String)) {
        if count == 0 {
            (0, "No contributions".to_owned())
        } else if count < 10 {
            (1, "1-9 contributions".to_owned())
        } else if count < 20 {
            (2, "10-19 contributions".to_owned())
        } else if count < 30 {
            (3, "20-29 contributions".to_owned())
        } else {
            (4, "30+ contributions".to_owned())
        }
    }
}

} // verus!
