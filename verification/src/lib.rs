//! Normalizes tabular recipient records, reclassifies their country field
//! through a fixed code table, redacts internationally formatted phone
//! numbers, and partitions the records by country and region for output.

pub mod csvfmt;
pub mod grouping;
pub mod pipeline;
pub mod record;
pub mod text;
pub mod translator;
