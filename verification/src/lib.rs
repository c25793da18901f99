//! Korean word and morpheme segmentation, given as byte spans.
//!
//! A [`Segmenter`] holds the dictionary-based engine. [`breakStrings`] asks it for
//! the tokens of a text and hands them out as half-open byte intervals;
//! [`tokenize`] does the same for a raw, possibly absent, byte buffer and reports
//! the number of spans through a count slot, the way a foreign caller expects it.

pub mod boundary;
pub mod engine;
pub mod failure;
pub mod span;
pub mod text;

pub use boundary::{breakStrings, deliver, segment_input, spans_or_failure, tokenize};
pub use engine::{admit_length, Segmenter, MAX_TEXT_BYTES};
pub use failure::Failure;
pub use span::{spans_from_offsets, BreakResult, TokenOffsets};
pub use text::decode_input;
