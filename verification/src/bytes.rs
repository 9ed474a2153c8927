//! Big-endian integers in a byte buffer: what they are, and how they are read.

use vstd::prelude::*;

verus! {

/// Whether `n` bytes lie in `b` from position `pos` on.
pub open spec fn has_bytes(b: Seq<u8>, pos: int, n: int) -> bool {
    0 <= pos && 0 <= n && pos + n <= b.len()
}

/// The unsigned 16-bit integer whose two bytes start at `pos`.
pub open spec fn u16_at(b: Seq<u8>, pos: int) -> int {
    b[pos] as int * 0x100 + b[pos + 1] as int
}

/// The unsigned 32-bit integer whose four bytes start at `pos`.
pub open spec fn u32_at(b: Seq<u8>, pos: int) -> int {
    u16_at(b, pos) * 0x1_0000 + u16_at(b, pos + 2)
}

/// The unsigned 64-bit integer whose eight bytes start at `pos`.
pub open spec fn u64_at(b: Seq<u8>, pos: int) -> int {
    u32_at(b, pos) * 0x1_0000_0000 + u32_at(b, pos + 4)
}

/// The two's-complement reading of an unsigned integer below `2 * half`.
pub open spec fn signed(u: int, half: int) -> int {
    if u < half {
        u
    } else {
        u - 2 * half
    }
}

/// The signed byte at `pos`.
pub open spec fn i8_at(b: Seq<u8>, pos: int) -> i8 {
    signed(b[pos] as int, 0x80) as i8
}

/// The signed 16-bit integer at `pos`.
pub open spec fn i16_at(b: Seq<u8>, pos: int) -> i16 {
    signed(u16_at(b, pos), 0x8000) as i16
}

/// The signed 32-bit integer at `pos`.
pub open spec fn i32_at(b: Seq<u8>, pos: int) -> i32 {
    signed(u32_at(b, pos), 0x8000_0000) as i32
}

/// The signed 64-bit integer at `pos`.
pub open spec fn i64_at(b: Seq<u8>, pos: int) -> i64 {
    signed(u64_at(b, pos), 0x8000_0000_0000_0000) as i64
}

/// Reads the unsigned 16-bit integer at `pos`.
pub fn read_u16(buf: &[u8], pos: usize) -> (r: u16)
    requires
        has_bytes(buf@, pos as int, 2),
    ensures
        r == u16_at(buf@, pos as int),
{
    let hi: u16 = buf[pos] as u16;
    let lo: u16 = buf[pos + 1] as u16;
    hi * 0x100 + lo
}

/// Reads the unsigned 32-bit integer at `pos`.
pub fn read_u32(buf: &[u8], pos: usize) -> (r: u32)
    requires
        has_bytes(buf@, pos as int, 4),
    ensures
        r == u32_at(buf@, pos as int),
{
    assert(buf@.len() == buf.len());
    let hi: u32 = read_u16(buf, pos) as u32;
    let lo: u32 = read_u16(buf, pos + 2) as u32;
    hi * 0x1_0000 + lo
}

/// Reads the unsigned 64-bit integer at `pos`.
pub fn read_u64(buf: &[u8], pos: usize) -> (r: u64)
    requires
        has_bytes(buf@, pos as int, 8),
    ensures
        r == u64_at(buf@, pos as int),
{
    assert(buf@.len() == buf.len());
    let hi: u64 = read_u32(buf, pos) as u64;
    let lo: u64 = read_u32(buf, pos + 4) as u64;
    hi * 0x1_0000_0000 + lo
}

/// Reads the signed byte at `pos`.
pub fn read_i8(buf: &[u8], pos: usize) -> (r: i8)
    requires
        has_bytes(buf@, pos as int, 1),
    ensures
        r == i8_at(buf@, pos as int),
{
    let u: u8 = buf[pos];
    if u < 0x80 {
        u as i8
    } else {
        (u as i16 - 0x100) as i8
    }
}

/// Reads the signed 16-bit integer at `pos`.
pub fn read_i16(buf: &[u8], pos: usize) -> (r: i16)
    requires
        has_bytes(buf@, pos as int, 2),
    ensures
        r == i16_at(buf@, pos as int),
{
    let u: u16 = read_u16(buf, pos);
    if u < 0x8000 {
        u as i16
    } else {
        (u as i32 - 0x1_0000) as i16
    }
}

/// Reads the signed 32-bit integer at `pos`.
pub fn read_i32(buf: &[u8], pos: usize) -> (r: i32)
    requires
        has_bytes(buf@, pos as int, 4),
    ensures
        r == i32_at(buf@, pos as int),
{
    let u: u32 = read_u32(buf, pos);
    if u < 0x8000_0000 {
        u as i32
    } else {
        (u as i64 - 0x1_0000_0000) as i32
    }
}

/// Reads the signed 64-bit integer at `pos`.
pub fn read_i64(buf: &[u8], pos: usize) -> (r: i64)
    requires
        has_bytes(buf@, pos as int, 8),
    ensures
        r == i64_at(buf@, pos as int),
{
    let u: u64 = read_u64(buf, pos);
    if u < 0x8000_0000_0000_0000 {
        u as i64
    } else {
        (u as i128 - 0x1_0000_0000_0000_0000) as i64
    }
}

} // verus!
