//! What the operations promise, said of their arguments and results.
pub mod caching;
pub mod fields;
pub mod group;
pub mod lanes;
pub mod points;
pub mod scalars;
pub mod verification;
