//! The data that providers produce and the renderer consumes.

pub mod contribution_activity;
pub mod error;

pub use contribution_activity::ContributionActivity;
pub use error::Error;
