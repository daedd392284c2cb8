//! Merging of custom and default emoji listings into one name-to-image map.
//!
//! The crate holds the data rules of an emoji export: how two listings are
//! combined, how the records of the public emoji dataset become entries, and
//! how the run is planned from its credential and arguments.

pub mod dataset;
pub mod emoji_map;
pub mod pipeline;
pub mod platform;
