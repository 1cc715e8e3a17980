//! Validation of GTFS transit feeds: a battery of rules over a feed's rows and
//! over its linked model, the issues they find, and summary metadata.
//!
//! Every value is an integer or text: coordinates are in units of 1e-7
//! degree, distances in millimetres, times in seconds, speeds in metres per
//! hour.

pub mod collect;
pub mod custom_rules;
pub mod daemon;
pub mod dates;
pub mod issues;
pub mod laws;
pub mod lookup;
pub mod metadatas;
pub mod model;
pub mod text;
pub mod validate;
pub mod validators;
pub mod visualization;
