//! Checksums of firmware and ACPI tables.

use vstd::prelude::*;
use vstd::slice::slice_subrange;

verus! {

/// The generator polynomial of the standard CRC-32.
pub const CRC32_POLYNOMIAL: u32 = 0x04c1_1db7;

/// The generator polynomial with its bits in reverse order, as the
/// reflected algorithm uses it.
pub const CRC32_REFLECTED: u32 = 0xedb8_8320;

/// Bit `i` of `CRC32_REFLECTED` is bit `31 - i` of `CRC32_POLYNOMIAL`.
pub proof fn lemma_reflected_polynomial()
    ensures
        forall|i: u32, j: u32|
            i + j == 31 ==> #[trigger] ((0xedb8_8320u32 >> i) & 1) == #[trigger] ((0x04c1_1db7u32
                >> j) & 1),
{
    assert(forall|i: u32, j: u32|
        i + j == 31 ==> #[trigger] ((0xedb8_8320u32 >> i) & 1) == #[trigger] ((0x04c1_1db7u32 >> j)
            & 1)) by (bit_vector);
}

/// One step of the reflected division: the low bit leaves, and where it was
/// set the polynomial is subtracted.
pub open spec fn crc32_shift(x: u32) -> u32 {
    if x & 1 != 0 {
        (x >> 1) ^ 0xedb8_8320u32
    } else {
        x >> 1
    }
}

/// `n` steps of the reflected division.
pub open spec fn crc32_shifts(x: u32, n: nat) -> u32
    decreases n,
{
    if n == 0 {
        x
    } else {
        crc32_shift(crc32_shifts(x, (n - 1) as nat))
    }
}

/// The entry of the lookup table for the byte `i`.
pub open spec fn crc32_entry(i: int) -> u32 {
    crc32_shifts(i as u32, 8)
}

/// The running remainder after one more byte: the byte enters at the low
/// end and eight steps of the division follow.
pub open spec fn crc32_feed(crc: u32, byte: u8) -> u32 {
    crc32_shifts(crc ^ (byte as u32), 8)
}

/// The running remainder after the bytes of `bytes`, starting from `crc`.
pub open spec fn crc32_run(crc: u32, bytes: Seq<u8>) -> u32
    decreases bytes.len(),
{
    if bytes.len() == 0 {
        crc
    } else {
        crc32_feed(crc32_run(crc, bytes.drop_last()), bytes.last())
    }
}

/// The reflected CRC-32 of `bytes`: the remainder starts with all bits set
/// and is inverted at the end.
pub open spec fn spec_crc32(bytes: Seq<u8>) -> u32 {
    crc32_run(0xffff_ffff, bytes) ^ 0xffff_ffff
}

/// Eight steps of the reflected division, written out.
spec fn crc32_shift8(x: u32) -> u32 {
    crc32_shift(
        crc32_shift(
            crc32_shift(crc32_shift(crc32_shift(crc32_shift(crc32_shift(crc32_shift(x)))))),
        ),
    )
}

proof fn lemma_shifts_8(x: u32)
    ensures
        crc32_shifts(x, 8) == crc32_shift8(x),
{
    reveal_with_fuel(crc32_shifts, 9);
}

/// The division is linear: the eight steps on a word are those on its low
/// byte, with the rest of the word, moved down by a byte, added.
proof fn lemma_shift8_low_byte(x: u32)
    ensures
        crc32_shift8(x) == crc32_shift8(x & 0xff) ^ (x >> 8),
{
    assert(crc32_shift8(x) == crc32_shift8(x & 0xff) ^ (x >> 8)) by (bit_vector);
}

/// One table lookup does what feeding a byte asks for.
proof fn lemma_table_step(crc: u32, byte: u8)
    ensures
        (crc ^ (byte as u32)) & 0xff < 256,
        crc32_feed(crc, byte) == crc32_entry(((crc ^ (byte as u32)) & 0xff) as int) ^ (crc >> 8),
{
    let x = crc ^ (byte as u32);
    assert(x & 0xff < 256) by (bit_vector);
    assert(x >> 8 == crc >> 8) by (bit_vector)
        requires
            x == crc ^ (byte as u32),
    ;
    lemma_shifts_8(x);
    lemma_shifts_8(x & 0xff);
    lemma_shift8_low_byte(x);
}

/// Running over a concatenation is running over its parts in turn.
pub proof fn lemma_crc32_run_concat(crc: u32, a: Seq<u8>, b: Seq<u8>)
    ensures
        crc32_run(crc, a + b) == crc32_run(crc32_run(crc, a), b),
    decreases b.len(),
{
    if b.len() == 0 {
        assert(a + b =~= a);
    } else {
        lemma_crc32_run_concat(crc, a, b.drop_last());
        assert((a + b).drop_last() =~= a + b.drop_last());
        assert((a + b).last() == b.last());
    }
}

/// Builds a lookup table for the standard CRC32 algorithm using a seed
/// polynomial value of 0x04c11db7.
pub fn build_crc32_table() -> (table: [u32; 256])
    ensures
        forall|i: int| 0 <= i < 256 ==> table@[i] == crc32_entry(i),
{
    let mut table = [0u32;256];
    let mut i: usize = 0;
    while i < 256
        invariant
            i <= 256,
            forall|k: int| 0 <= k < i ==> table@[k] == crc32_entry(k),
        decreases 256 - i,
    {
        let mut item: u32 = i as u32;
        let mut round: usize = 0;
        while round < 8
            invariant
                i < 256,
                round <= 8,
                item == crc32_shifts(i as u32, round as nat),
            decreases 8 - round,
        {
            item = if item & 1 != 0 {
                (item >> 1) ^ CRC32_REFLECTED
            } else {
                item >> 1
            };
            round += 1;
        }
        table[i] = item;
        i += 1;
    }
    table
}

/// Carries the running remainder `crc` over `bytes`, with the lookup table.
pub fn crc32_update(table: &[u32; 256], crc: u32, bytes: &[u8]) -> (out: u32)
    requires
        forall|i: int| 0 <= i < 256 ==> table@[i] == crc32_entry(i),
    ensures
        out == crc32_run(crc, bytes@),
{
    let mut crc = crc;
    let ghost start = crc;
    let mut off: usize = 0;
    while off < bytes.len()
        invariant
            off <= bytes@.len(),
            forall|i: int| 0 <= i < 256 ==> table@[i] == crc32_entry(i),
            crc == crc32_run(start, bytes@.take(off as int)),
        decreases bytes@.len() - off,
    {
        let b = bytes[off];
        proof {
            lemma_table_step(crc, b);
            assert(bytes@.take(off + 1).drop_last() =~= bytes@.take(off as int));
            assert(bytes@.take(off + 1).last() == b);
        }
        let idx = ((crc ^ (b as u32)) & 0xff) as usize;
        crc = table[idx] ^ (crc >> 8);
        off += 1;
    }
    assert(bytes@.take(off as int) =~= bytes@);
    crc
}

/// Returns the CRC32 checksum of the provided buffer.
pub fn crc32(bytes: &[u8]) -> (crc: u32)
    ensures
        crc == spec_crc32(bytes@),
{
    let table = build_crc32_table();
    crc32_update(&table, 0xffff_ffff, bytes) ^ 0xffff_ffff
}

/// Offset of the CRC-32 field in the header of a firmware table.
pub const CRC32_FIELD: usize = 16;

/// Size of the header of a firmware table.
pub const TABLE_HEADER_SIZE: usize = 24;

/// `table` with the four bytes of the CRC-32 field of its header set to
/// zero.
pub open spec fn without_crc32(table: Seq<u8>) -> Seq<u8> {
    Seq::new(
        table.len(),
        |i: int|
            if CRC32_FIELD <= i < CRC32_FIELD + 4 {
                0u8
            } else {
                table[i]
            },
    )
}

/// Returns the CRC32 checksum of a firmware table, computed as the firmware
/// computed it: with the table's own CRC-32 field taken as zero.
pub fn table_crc32(table: &[u8]) -> (crc: u32)
    requires
        table@.len() >= TABLE_HEADER_SIZE,
    ensures
        crc == spec_crc32(without_crc32(table@)),
{
    let lookup = build_crc32_table();
    let zeros = [0u8;4];
    let head = slice_subrange(table, 0, CRC32_FIELD);
    let tail = slice_subrange(table, CRC32_FIELD + 4, table.len());
    let crc = crc32_update(&lookup, 0xffff_ffff, head);
    let crc = crc32_update(&lookup, crc, zeros.as_slice());
    let crc = crc32_update(&lookup, crc, tail);
    proof {
        lemma_crc32_run_concat(0xffff_ffff, head@, zeros@);
        lemma_crc32_run_concat(0xffff_ffff, head@ + zeros@, tail@);
        assert(without_crc32(table@) =~= head@ + zeros@ + tail@);
    }
    crc ^ 0xffff_ffff
}

/// The sum of the bytes of `bytes`.
pub open spec fn byte_total(bytes: Seq<u8>) -> int
    decreases bytes.len(),
{
    if bytes.len() == 0 {
        0
    } else {
        byte_total(bytes.drop_last()) + bytes.last()
    }
}

/// The sum of the bytes of `bytes`, modulo 256.
pub open spec fn byte_sum(bytes: Seq<u8>) -> u8 {
    (byte_total(bytes) % 256) as u8
}

/// Returns the result of adding all the bytes of the provided buffer.
pub fn add_bytes(bytes: &[u8]) -> (checksum: u8)
    ensures
        checksum == byte_sum(bytes@),
{
    let mut checksum: u8 = 0;
    let mut off: usize = 0;
    while off < bytes.len()
        invariant
            off <= bytes@.len(),
            checksum == byte_sum(bytes@.take(off as int)),
        decreases bytes@.len() - off,
    {
        let b = bytes[off];
        proof {
            assert(bytes@.take(off + 1).drop_last() =~= bytes@.take(off as int));
            assert(bytes@.take(off + 1).last() == b);
        }
        checksum = checksum.wrapping_add(b);
        off += 1;
    }
    assert(bytes@.take(off as int) =~= bytes@);
    checksum
}

/// Putting `value` in the place of the byte at `at` changes the sum by the
/// difference of the two.
pub proof fn lemma_byte_total_update(bytes: Seq<u8>, at: int, value: u8)
    requires
        0 <= at < bytes.len(),
    ensures
        byte_total(bytes.update(at, value)) == byte_total(bytes) - bytes[at] + value,
    decreases bytes.len(),
{
    let changed = bytes.update(at, value);
    if at == bytes.len() - 1 {
        assert(changed.drop_last() =~= bytes.drop_last());
    } else {
        lemma_byte_total_update(bytes.drop_last(), at, value);
        assert(changed.drop_last() =~= bytes.drop_last().update(at, value));
    }
}

/// Where the bytes of a buffer add up to zero, they no longer do once any
/// single byte of it is changed.
pub proof fn lemma_changed_byte_breaks_sum(bytes: Seq<u8>, at: int, value: u8)
    requires
        0 <= at < bytes.len(),
        value != bytes[at],
        byte_sum(bytes) == 0,
    ensures
        byte_sum(bytes.update(at, value)) != 0,
{
    lemma_byte_total_update(bytes, at, value);
}

} // verus!
