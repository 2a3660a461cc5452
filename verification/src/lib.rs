//! Counts occurrences of a coordinate-system classification in XML records
//! buried inside arbitrarily nested zip archives, weighting each count by a
//! multiplicity recorded in a companion manifest, and combines the results
//! over a batch of archives.

pub mod classify;
pub mod codec;
pub mod manifest;
pub mod tally;
pub mod text;
pub mod walk;
pub mod ziputil;
