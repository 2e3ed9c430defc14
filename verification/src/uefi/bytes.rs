//! Bounds-checked reads of physical memory and little-endian decoding.

use vstd::prelude::*;
use vstd::slice::slice_subrange;

verus! {

/// A window of physical memory: the bytes found from the address `base`
/// on. Every read of a firmware structure goes through `Memory::read`,
/// which hands out no byte from outside the window.
#[derive(Debug, Clone, Copy)]
pub struct Memory<'a> {
    base: usize,
    bytes: &'a [u8],
}

impl<'a> Memory<'a> {
    /// The address of the first byte of the window.
    pub closed spec fn base(&self) -> usize {
        self.base
    }

    /// The bytes of the window, in address order.
    pub closed spec fn bytes(&self) -> Seq<u8> {
        self.bytes@
    }

    /// The `len` bytes from the address `addr` on lie within the window.
    pub open spec fn holds(&self, addr: int, len: int) -> bool {
        0 <= len && self.base() <= addr && addr + len <= self.base() + self.bytes().len()
    }

    /// The `len` bytes from the address `addr` on.
    pub open spec fn at(&self, addr: int, len: int) -> Seq<u8> {
        self.bytes().subrange(addr - self.base(), addr - self.base() + len)
    }

    /// Returns the window that shows `bytes` at the address `base`.
    pub fn new(base: usize, bytes: &'a [u8]) -> (mem: Self)
        ensures
            mem.base() == base,
            mem.bytes() == bytes@,
    {
        Memory { base, bytes }
    }

    /// Reads `len` bytes at the address `addr`, or nothing where some of
    /// them lie outside the window.
    pub fn read(&self, addr: usize, len: usize) -> (out: Option<&'a [u8]>)
        ensures
            out is Some <==> self.holds(addr as int, len as int),
            out is Some ==> out->Some_0@ == self.at(addr as int, len as int),
    {
        if addr < self.base {
            return None;
        }
        let from = addr - self.base;
        if from > self.bytes.len() || len > self.bytes.len() - from {
            return None;
        }
        Some(slice_subrange(self.bytes, from, from + len))
    }
}

/// The 16-bit number that the two bytes from `at` on hold, low byte first.
pub open spec fn le_u16(bytes: Seq<u8>, at: int) -> u16 {
    (bytes[at] + 0x100 * bytes[at + 1]) as u16
}

/// The 32-bit number that the four bytes from `at` on hold, low byte first.
pub open spec fn le_u32(bytes: Seq<u8>, at: int) -> u32 {
    (bytes[at] + 0x100 * bytes[at + 1] + 0x1_0000 * bytes[at + 2] + 0x100_0000 * bytes[at
        + 3]) as u32
}

/// The 64-bit number that the eight bytes from `at` on hold, low byte
/// first.
pub open spec fn le_u64(bytes: Seq<u8>, at: int) -> u64 {
    (le_u32(bytes, at) + 0x1_0000_0000 * le_u32(bytes, at + 4)) as u64
}

/// Decodes the little-endian 16-bit number at the offset `at`.
pub fn read_u16(bytes: &[u8], at: usize) -> (value: u16)
    requires
        at + 2 <= bytes@.len(),
    ensures
        value == le_u16(bytes@, at as int),
{
    let b0 = bytes[at] as u16;
    let b1 = bytes[at + 1] as u16;
    b0 + 0x100 * b1
}

/// Decodes the little-endian 32-bit number at the offset `at`.
pub fn read_u32(bytes: &[u8], at: usize) -> (value: u32)
    requires
        at + 4 <= bytes@.len(),
    ensures
        value == le_u32(bytes@, at as int),
{
    let b0 = bytes[at] as u32;
    let b1 = bytes[at + 1] as u32;
    let b2 = bytes[at + 2] as u32;
    let b3 = bytes[at + 3] as u32;
    b0 + 0x100 * b1 + 0x1_0000 * b2 + 0x100_0000 * b3
}

/// Decodes the little-endian 64-bit number at the offset `at`.
pub fn read_u64(bytes: &[u8], at: usize) -> (value: u64)
    requires
        at + 8 <= bytes@.len(),
    ensures
        value == le_u64(bytes@, at as int),
{
    assert(bytes@.len() == bytes.len());
    let low = read_u32(bytes, at) as u64;
    let high = read_u32(bytes, at + 4) as u64;
    low + 0x1_0000_0000 * high
}

/// A number read from a buffer is another number once one of the bytes that
/// it is read from is changed.
pub proof fn lemma_le_changed(bytes: Seq<u8>, at: int, k: int, value: u8)
    requires
        0 <= at,
        0 <= k,
        at + k < bytes.len(),
        value != bytes[at + k],
    ensures
        k < 2 && at + 2 <= bytes.len() ==> le_u16(bytes.update(at + k, value), at) != le_u16(
            bytes,
            at,
        ),
        k < 4 && at + 4 <= bytes.len() ==> le_u32(bytes.update(at + k, value), at) != le_u32(
            bytes,
            at,
        ),
        k < 8 && at + 8 <= bytes.len() ==> le_u64(bytes.update(at + k, value), at) != le_u64(
            bytes,
            at,
        ),
{
}

} // verus!
