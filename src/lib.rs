//! Text shaping with font fallback, incremental reshaping and decoration
//! lines that evade glyph ink.
//!
//! - `units`: fixed-point em values and their resolution against a font size.
//! - `style`: the resolved style values of a run of text.
//! - `resolve`: the font variant, family list and OpenType features that the
//!   style values ask for.
//! - `font`: the faces to choose from, face selection and vertical metrics.
//! - `engine`: the calls into std and the shaping engine, with what is
//!   assumed of them.
//! - `shaping`: segment shaping with fallback, tracking, measurement, and
//!   reshaping of sub-ranges.
//! - `decorate`: frames, decoration placement and ink evasion.

pub mod decorate;
pub mod engine;
pub mod font;
pub mod resolve;
pub mod shaping;
pub mod style;
pub mod units;
