//! A search-and-replace engine: the pure rewrite of matched byte ranges,
//! the per-run bookkeeping of the replacement stage, and the control
//! protocol that pipeline stages follow.

pub mod splice;
pub mod pattern;
pub mod pipeline;
pub mod replacer;
pub mod position;
