//! Paragraph layout: breaking a text into lines, drawing each line from the
//! coverage of its glyphs, and stacking the aligned lines into one grid.
//!
//! The font itself stays outside: measuring a piece of text and rasterizing a
//! glyph are done by the caller, who hands the results over as plain numbers.

pub mod align;
pub mod assemble;
pub mod breaks;
pub mod caption;
pub mod font;
pub mod line;

pub use align::Alignment;
pub use caption::{Caption, CaptionBuilder};
pub use font::FontBuilder;
