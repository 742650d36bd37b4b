//! A memory tester: a buffer of 64-bit words is stressed with a fixed battery
//! of bit patterns, and its two halves are compared after each pass. Every
//! word where the halves disagree is recorded in a per-address error ledger.
use vstd::prelude::*;

pub mod ledger;
pub mod patterns;
mod platform;
pub mod session;

pub use ledger::compare_halves;
pub use patterns::{apply_op, WordOp};
pub use session::{MemoryTestIterator, MemoryTests, SetupError};

verus! {

} // verus!
