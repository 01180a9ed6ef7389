//! Line breaking and pagination of text on a small fixed-size display.
//!
//! A [`style::TextStyle`] and a bounding box make a [`layout::TextLayout`]. The
//! layout walks a string line by line: [`span::Span::fit_horizontally`] decides
//! where each line ends, and every decision is reported to a
//! [`sink::LayoutSink`], which measures, records drawing operations or traces.

pub mod bootloader;
pub mod geometry;
pub mod layout;
pub mod metrics;
pub mod sink;
pub mod span;
pub mod style;
pub mod text;
