//! Inspection of the persisted state of a ledger node: unlocking the key of
//! its stores, typing their rows, putting the chain of an agent together
//! from two stores, mapping slices to time ranges, comparing captures of
//! slice hashes, and putting what is found in readable form.

pub mod bits;
pub mod cli;
pub mod compare;
pub mod encoding;
pub mod error;
pub mod hash;
pub mod ops;
pub mod partition;
pub mod readable;
pub mod render;
pub mod retrieve;

pub use error::{HcOpsError, HcOpsResult, HcOpsResultContextExt};
