//! Contribution calendars: a ledger of contributions per day, the sources
//! that fill it, the calendar arithmetic that lays a year of it out in
//! weeks, and a renderer that turns the layout into an SVG heatmap.

pub mod date;
pub mod provider;
pub mod source;
pub mod svg;
pub mod text;
pub mod types;
