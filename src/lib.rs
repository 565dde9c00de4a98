//! A footprint editor's core: geometry elements produced by a generator,
//! their aggregation into a footprint, and the footprint's file format.
//!
//! Lengths are fixed-point integers in nanometres (one millionth of a
//! millimetre); the file format writes them back in millimetres.

pub mod decimal;
pub mod element;
pub mod json;
pub mod record;
pub mod kicad;
pub mod state;
