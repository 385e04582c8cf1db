//! Verified building blocks for a family of line-oriented text tools.
//!
//! The heart is `cutr`: selection lists such as `1,7,3-5`, the extractors
//! that apply them to the characters, bytes or fields of a line, and the
//! course of a run over several files. Around it stand the decisions of the
//! other tools, and what they share: decimal numbers (`decimal`), text and
//! lines (`text`), and regular expressions (`pattern`).

pub mod decimal;
pub mod pattern;
pub mod text;

pub mod adder;
pub mod calr;
pub mod catr;
pub mod commr;
pub mod cutr;
pub mod echor;
pub mod findr;
pub mod fortuner;
pub mod grepr;
pub mod headr;
pub mod lsr;
pub mod tailr;
pub mod uniqr;
pub mod wcr;
