//! A proof-of-work nonce solver.
//!
//! Given a caller-supplied prefix string and a target threshold written as a
//! hexadecimal digest, the solver searches for the smallest non-negative
//! nonce such that hashing the concatenation of the prefix and the decimal
//! rendering of the nonce yields a digest that is, read as a fixed-length
//! big-endian unsigned integer, less than or equal to the target.

pub mod compare;
pub mod hashes;
pub mod hexcodec;
pub mod numeral;
pub mod progress;
pub mod solver;
