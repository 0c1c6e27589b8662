//! Optimization primitives over IEEE-754 binary64 encodings: objective
//! directions, bounds, search spaces, scores, losses, grid search and local
//! search.
//!
//! Every real-valued quantity is carried as the 64-bit pattern of a binary64
//! number (what `f64::to_bits` yields). The decisions these helpers make
//! (finiteness checks, comparisons, selections, rankings and search control
//! flow) are stated over the model in [`binary64`] and proved.

pub mod binary64;
pub mod objective;
pub mod constraint;
pub mod score;
pub mod loss;
pub mod local_search;
pub mod grid_search;
pub mod search_space;
