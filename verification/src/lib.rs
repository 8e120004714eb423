//! Glyph cache construction and string layout for bitmap-font text drawing.
//!
//! The library owns the two pieces of real logic in a glyph renderer: building
//! a cache that maps characters to glyph metrics and texture handles, and
//! laying a string out as a sequence of positioned quad draw commands. All
//! GPU and windowing work stays outside; the library exchanges plain values
//! with it.

pub mod cache;
pub mod chars;
pub mod glyph;
pub mod layout;
