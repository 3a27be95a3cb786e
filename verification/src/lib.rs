//! Composition and rendering of a one-line terminal prompt.
//!
//! A prompt is assembled from named modules, each of which yields styled
//! segments and the time it took to produce them. This crate decides which
//! modules a template variable denotes, puts their results in template order,
//! renders the segments for a given shell, and lays out two diagnostic tables.

pub mod compose;
pub mod config;
pub mod duration;
pub mod evaluate;
pub mod explain;
pub mod prompt;
pub mod resolve;
pub mod segment;
pub mod text;
pub mod timings;
pub mod width;

pub use duration::format_duration;
pub use explain::explain;
pub use prompt::{get_module, get_prompt};
pub use timings::timings;
pub use width::{Grapheme, UnicodeWidthGraphemes};
