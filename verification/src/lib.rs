//! A small neural-network training engine built around a dense matrix type.
//!
//! Every numeric entry is carried as the bit pattern of an IEEE-754 binary64
//! value, so the whole structural logic of the engine (indexing, logical
//! transposition, the binary persistence format, comparisons, batching and
//! checkpoint decisions) is ordinary integer code that can be verified.
//! The four rounding arithmetic operations are delegated to a software
//! implementation of binary64 arithmetic behind a small trusted boundary.

pub mod activation;
pub mod checkpoint;
pub mod arith;
pub mod matrix;
pub mod model;
pub mod model_builder;
pub mod parse_test_csv;
pub mod optimizer;
pub mod save_load;
pub mod utils;
pub mod fbits;
pub mod layers;
pub mod loss;
