//! The calendar as an SVG image: colours, the layout in weeks, and the
//! renderer.

pub mod rgba;
pub mod contribution_colour;
pub mod contribution_level;
pub mod layout;
pub mod svg_renderer;
