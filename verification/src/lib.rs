//! Vanity identifier mining: a deterministic candidate generator over a
//! 64-bit index space, SHA-256 digest and identifier derivation with a
//! sixteen-letter alphabet, prefix matching, and the coordination logic
//! that partitions the space across workers and records the first match.

pub mod accel;
pub mod digest;
pub mod ident;
pub mod partition;
pub mod pem;
pub mod run;
pub mod search;
