//! Codec for 16x16 terrain map patterns: a grid of height levels and prefab
//! tags, with a verified parser and serializer for the textual pattern format.

pub mod chars;
pub mod error;
pub mod level;
pub mod parse;
pub mod pattern;
pub mod prefab;
pub mod round_trip;
pub mod serialize;
pub mod strings;

pub use error::Error;
pub use pattern::MapPattern;
pub use prefab::Prefab;
