//! Structural analysis of binary image containers.
//!
//! Given raw file bytes, the library identifies which supported container
//! format (PNG, JPEG or GIF) they hold, walks the format's internal
//! structure — chunks, marker segments or blocks — and produces an ordered,
//! annotated map of byte ranges, together with a handful of header fields
//! (dimensions, bit depth, color mode).  A small set of classical text
//! transforms used by the same toolbox is kept alongside.

pub mod analyzer;
pub mod caesar;
pub mod cursor;
pub mod formats;
pub mod gif;
pub mod jpeg;
pub mod png;
pub mod replacer;
pub mod textutil;
pub mod vigenere;
