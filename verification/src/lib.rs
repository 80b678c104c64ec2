//! Verified MD5 message digest.
//!
//! The digest engine is a pure function from a byte sequence to a 16-byte
//! digest: the message is padded and framed with its bit length, split into
//! 64-byte blocks, and each block is folded into a four-word running state by
//! 64 rounds of bit mixing.  `model` states the algorithm as spec functions;
//! `engine` holds the executable code, proved equal to the model; `laws`
//! proves the properties that hold of every input.

pub mod engine;
pub mod laws;
pub mod model;
