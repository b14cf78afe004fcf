//! Real numbers that the core carries and never computes on.

use vstd::prelude::*;

verus! {

/// A real number as the bit pattern of its IEEE 754 double-precision form.
/// The core stores it, compares it bit for bit and hands it on; arithmetic
/// on it is left to the code that reads and writes the stores.
#[derive(Clone, Copy, Debug, PartialEq, Eq, Structural)]
pub struct Amount {
    pub bits: u64,
}

} // verus!
