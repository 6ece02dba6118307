//! Flashcard derivation for a kanji dictionary with furigana readings.
//!
//! The crate has three layers:
//! - `furi`: the compact furigana text codec, turning a two-separator
//!   textual form into a structured sequence of units and back;
//! - `book`: the document model (book, chapters, characters, usages);
//! - `derive`: the projections of a loaded book into quiz cards and
//!   into the glyph inventory needed to render them.

pub mod book;
pub mod derive;
pub mod furi;

pub use book::{Book, Card, Chapter, Character, Font, Usage};
pub use derive::{cards, font};
pub use furi::{FuriChar, FuriString};
