//! Aggregation of per-identity face feature vectors and detection of
//! outlying samples.
//!
//! Feature vectors are sequences of IEEE-754 doubles. Inside this library a
//! double is carried as its 64-bit pattern (`u64`), which is exactly what is
//! stored and compared; arithmetic on the values happens at the edge.
pub mod codec;
pub mod error;
pub mod feature;
pub mod floatbits;
pub mod stats;
pub mod photos;
pub mod compare;
pub mod ingest;
