//! Address types shared by the memory-management code.

use vstd::prelude::*;

verus! {

/// A physical memory address.
#[derive(Debug, Copy, Clone)]
pub struct PhysAddr(pub u64);

/// A virtual memory address.
#[derive(Debug, Copy, Clone)]
pub struct VirtAddr(pub u64);

} // verus!
