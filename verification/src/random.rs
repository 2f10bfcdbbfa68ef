//! Randomness-backed utilities.

pub mod lottery;
