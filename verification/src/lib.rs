//! Deterministic creatures on a hexagonal grid.
//!
//! Whether a creature stands in a grid cell during a given minute is decided
//! by hashing the cell and the minute and drawing once from a weighted table
//! with a generator seeded by the digest. Nothing is stored: the same cell and
//! minute always give the same answer. A rolling window turns the passing of
//! wall-clock time into spawn and removal instructions.

pub mod encoding;
pub mod time;
pub mod key;
pub mod oracle;
pub mod window;

