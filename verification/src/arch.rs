//! Basic types of the x86_64 architecture.
use vstd::prelude::*;

verus! {

/// A virtual address.
///
/// Virtual addresses are 64-bit wide on the only architecture this library targets.
pub type VirtAddr = u64;

/// A physical address.
pub type PhysAddr = u64;

/// A privilege level.
#[derive(Debug, Clone, Copy, PartialEq, Eq, Structural)]
pub enum Ring {
    /// Ring 0
    Zero,
    /// Ring 1
    One,
    /// Ring 2
    Two,
    /// Ring 3
    Three,
}

impl Ring {
    /// The numeric privilege level of a ring.
    pub open spec fn level(self) -> u8 {
        match self {
            Ring::Zero => 0,
            Ring::One => 1,
            Ring::Two => 2,
            Ring::Three => 3,
        }
    }

    /// Returns the numeric privilege level of this ring (its two-bit encoding).
    pub fn as_u8(self) -> (r: u8)
        ensures
            r == self.level(),
            r <= 3,
    {
        match self {
            Ring::Zero => 0,
            Ring::One => 1,
            Ring::Two => 2,
            Ring::Three => 3,
        }
    }

    /// Creates a ring from its two-bit encoding.
    pub fn from_raw(r: u8) -> (ring: Ring)
        requires
            r <= 3,
        ensures
            ring.level() == r,
    {
        if r == 0 {
            Ring::Zero
        } else if r == 1 {
            Ring::One
        } else if r == 2 {
            Ring::Two
        } else {
            Ring::Three
        }
    }
}

} // verus!
