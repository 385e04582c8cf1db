//! Cutting columns out of text: a selection list names positions, and an
//! extractor copies the characters, bytes or fields at those positions.

pub mod positions;
pub mod config;
pub mod driver;
pub mod extract;
pub mod laws;
