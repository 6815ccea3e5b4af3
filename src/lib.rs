//! A pseudorandom word generator for passwords and raw byte streams.
//!
//! The generator mixes a fresh entropy sample into one evolving state word on
//! every call; the sample comes either from a hardware cycle counter read by the
//! caller or from a pool of operating-system randomness that this crate keeps
//! as an owned buffer with an explicit lifecycle.

pub mod charset;
pub mod cli;
pub mod pool;
pub mod primes;
pub mod rand;
pub mod settings;
pub mod source;
pub mod stream;
pub mod text;
mod wipe;
