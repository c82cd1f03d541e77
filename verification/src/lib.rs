//! Forced phoneme alignment: the pieces that sit between a transcript, a
//! constrained speech decoder and the label file written for each utterance.
//!
//! The decoder itself, the linguistic front end and all file access live
//! outside this crate. What is here is the logic around them, with every
//! function verified against its contract.

pub mod audio;
pub mod decimal;
pub mod extract;
pub mod grammar;
pub mod labels;
pub mod session;
pub mod text;
pub mod transcript;
pub mod words;
