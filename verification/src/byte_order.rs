//! Little-endian integers in byte buffers, read and written by the
//! `byteorder` crate.

use vstd::prelude::*;
use byteorder::{ByteOrder, LittleEndian};
use crate::layout::{header, zeros};
use crate::types::{GodotTypeIndex, SerializeFlag};

verus! {

/// The two bytes of `x`, least significant first.
pub open spec fn u16_le(x: u16) -> Seq<u8> {
    seq![(x % 0x100) as u8, (x / 0x100) as u8]
}

/// The four bytes of `x`, least significant first.
pub open spec fn u32_le(x: u32) -> Seq<u8> {
    seq![
        (x % 0x100) as u8,
        (x / 0x100 % 0x100) as u8,
        (x / 0x1_0000 % 0x100) as u8,
        (x / 0x100_0000) as u8,
    ]
}

/// The eight bytes of `x`, least significant first.
pub open spec fn u64_le(x: u64) -> Seq<u8> {
    seq![
        (x % 0x100) as u8,
        (x / 0x100 % 0x100) as u8,
        (x / 0x1_0000 % 0x100) as u8,
        (x / 0x100_0000 % 0x100) as u8,
        (x / 0x1_0000_0000 % 0x100) as u8,
        (x / 0x100_0000_0000 % 0x100) as u8,
        (x / 0x1_0000_0000_0000 % 0x100) as u8,
        (x / 0x100_0000_0000_0000) as u8,
    ]
}

/// The number that two bytes hold, least significant first.
pub open spec fn le_u16(b: Seq<u8>) -> u16
    recommends
        b.len() == 2,
{
    (b[0] + 0x100 * b[1]) as u16
}

/// The number that four bytes hold, least significant first.
pub open spec fn le_u32(b: Seq<u8>) -> u32
    recommends
        b.len() == 4,
{
    (b[0] + 0x100 * b[1] + 0x1_0000 * b[2] + 0x100_0000 * b[3]) as u32
}

/// The number that eight bytes hold, least significant first.
pub open spec fn le_u64(b: Seq<u8>) -> u64
    recommends
        b.len() == 8,
{
    (b[0] + 0x100 * b[1] + 0x1_0000 * b[2] + 0x100_0000 * b[3] + 0x1_0000_0000 * b[4]
        + 0x100_0000_0000 * b[5] + 0x1_0000_0000_0000 * b[6] + 0x100_0000_0000_0000 * b[7]) as u64
}

/// The `width` bytes of `b` from `at` on.
pub open spec fn field(b: Seq<u8>, at: int, width: int) -> Seq<u8> {
    b.subrange(at, at + width)
}

/// The unsigned number with the same 32 bits as `x` in two's complement.
pub open spec fn unsigned32(x: i32) -> u32 {
    if x < 0 {
        (x + 0x1_0000_0000) as u32
    } else {
        x as u32
    }
}

/// The signed number with the same 32 bits as `x` in two's complement.
pub open spec fn signed32(x: u32) -> i32 {
    if x >= 0x8000_0000 {
        (x - 0x1_0000_0000) as i32
    } else {
        x as i32
    }
}

/// The unsigned number with the same 64 bits as `x` in two's complement.
pub open spec fn unsigned64(x: i64) -> u64 {
    if x < 0 {
        (x + 0x1_0000_0000_0000_0000) as u64
    } else {
        x as u64
    }
}

/// The signed number with the same 64 bits as `x` in two's complement.
pub open spec fn signed64(x: u64) -> i64 {
    if x >= 0x8000_0000_0000_0000 {
        (x - 0x1_0000_0000_0000_0000) as i64
    } else {
        x as i64
    }
}

/// `byteorder::LittleEndian::read_u16`: the number that the first two bytes
/// of the slice hold, least significant first. The call panics on a slice of
/// fewer than two bytes, which `requires` leaves out.
#[verifier::external_body]
pub(crate) fn read_u16(buf: &[u8]) -> (n: u16)
    requires
        buf@.len() >= 2,
    ensures
        n == le_u16(buf@.subrange(0, 2)),
{
    LittleEndian::read_u16(buf)
}

/// `byteorder::LittleEndian::read_u32`: the number that the first four bytes
/// of the slice hold, least significant first. The call panics on a slice of
/// fewer than four bytes, which `requires` leaves out.
#[verifier::external_body]
pub(crate) fn read_u32(buf: &[u8]) -> (n: u32)
    requires
        buf@.len() >= 4,
    ensures
        n == le_u32(buf@.subrange(0, 4)),
{
    LittleEndian::read_u32(buf)
}

/// `byteorder::LittleEndian::read_u64`: the number that the first eight bytes
/// of the slice hold, least significant first. The call panics on a slice of
/// fewer than eight bytes, which `requires` leaves out.
#[verifier::external_body]
pub(crate) fn read_u64(buf: &[u8]) -> (n: u64)
    requires
        buf@.len() >= 8,
    ensures
        n == le_u64(buf@.subrange(0, 8)),
{
    LittleEndian::read_u64(buf)
}

/// `byteorder::LittleEndian::write_u16` on a buffer of two bytes: afterwards
/// the buffer holds the two bytes of `n`, least significant first.
#[verifier::external_body]
pub(crate) fn write_u16(n: u16) -> (out: [u8; 2])
    ensures
        out@ == u16_le(n),
{
    let mut out: [u8; 2] = [0; 2];
    LittleEndian::write_u16(&mut out, n);
    out
}

/// `byteorder::LittleEndian::write_u32` on a buffer of four bytes: afterwards
/// the buffer holds the four bytes of `n`, least significant first.
#[verifier::external_body]
pub(crate) fn write_u32(n: u32) -> (out: [u8; 4])
    ensures
        out@ == u32_le(n),
{
    let mut out: [u8; 4] = [0; 4];
    LittleEndian::write_u32(&mut out, n);
    out
}

/// `byteorder::LittleEndian::write_u64` on a buffer of eight bytes:
/// afterwards the buffer holds the eight bytes of `n`, least significant
/// first.
#[verifier::external_body]
pub(crate) fn write_u64(n: u64) -> (out: [u8; 8])
    ensures
        out@ == u64_le(n),
{
    let mut out: [u8; 8] = [0; 8];
    LittleEndian::write_u64(&mut out, n);
    out
}

/// The 16-bit number that the two bytes from `at` on hold.
pub(crate) fn u16_at(bytes: &[u8], at: usize) -> (n: u16)
    requires
        at + 2 <= bytes@.len(),
    ensures
        n == le_u16(field(bytes@, at as int, 2)),
{
    let len: usize = bytes.len();
    assert(at + 2 <= len);
    let field = &bytes[at..at + 2];
    assert(field@.subrange(0, 2) == field@);
    read_u16(field)
}

/// The 32-bit number that the four bytes from `at` on hold.
pub(crate) fn u32_at(bytes: &[u8], at: usize) -> (n: u32)
    requires
        at + 4 <= bytes@.len(),
    ensures
        n == le_u32(field(bytes@, at as int, 4)),
{
    let len: usize = bytes.len();
    assert(at + 4 <= len);
    let field = &bytes[at..at + 4];
    assert(field@.subrange(0, 4) == field@);
    read_u32(field)
}

/// The 64-bit number that the eight bytes from `at` on hold.
pub(crate) fn u64_at(bytes: &[u8], at: usize) -> (n: u64)
    requires
        at + 8 <= bytes@.len(),
    ensures
        n == le_u64(field(bytes@, at as int, 8)),
{
    let len: usize = bytes.len();
    assert(at + 8 <= len);
    let field = &bytes[at..at + 8];
    assert(field@.subrange(0, 8) == field@);
    read_u64(field)
}

/// The signed 32-bit number that the four bytes from `at` on hold.
pub(crate) fn i32_at(bytes: &[u8], at: usize) -> (n: i32)
    requires
        at + 4 <= bytes@.len(),
    ensures
        n == signed32(le_u32(field(bytes@, at as int, 4))),
{
    let u: u32 = u32_at(bytes, at);
    if u >= 0x8000_0000 {
        ((u - 0x8000_0000) as i32) + i32::MIN
    } else {
        u as i32
    }
}

/// The signed 64-bit number that the eight bytes from `at` on hold.
pub(crate) fn i64_at(bytes: &[u8], at: usize) -> (n: i64)
    requires
        at + 8 <= bytes@.len(),
    ensures
        n == signed64(le_u64(field(bytes@, at as int, 8))),
{
    let u: u64 = u64_at(bytes, at);
    if u >= 0x8000_0000_0000_0000 {
        ((u - 0x8000_0000_0000_0000) as i64) + i64::MIN
    } else {
        u as i64
    }
}

/// The four bytes of a signed 32-bit number in two's complement.
pub(crate) fn write_i32(n: i32) -> (out: [u8; 4])
    ensures
        out@ == u32_le(unsigned32(n)),
{
    let u: u32 = if n < 0 {
        ((n - i32::MIN) as u32) + 0x8000_0000
    } else {
        n as u32
    };
    write_u32(u)
}

/// The eight bytes of a signed 64-bit number in two's complement.
pub(crate) fn write_i64(n: i64) -> (out: [u8; 8])
    ensures
        out@ == u64_le(unsigned64(n)),
{
    let u: u64 = if n < 0 {
        ((n - i64::MIN) as u64) + 0x8000_0000_0000_0000
    } else {
        n as u64
    };
    write_u64(u)
}

/// Appends a copy of `bytes` to `out`.
pub(crate) fn append(out: &mut Vec<u8>, bytes: &[u8])
    ensures
        final(out)@ == old(out)@ + bytes@,
{
    let mut i: usize = 0;
    while i < bytes.len()
        invariant
            i <= bytes.len(),
            out@ == old(out)@ + bytes@.take(i as int),
        decreases bytes.len() - i,
    {
        out.push(bytes[i]);
        i += 1;
        assert(bytes@.take(i as int) == bytes@.take(i - 1).push(bytes@[i - 1]));
    }
    assert(bytes@.take(i as int) == bytes@);
}

/// Appends `n` zero bytes to `out`.
pub(crate) fn append_zeros(out: &mut Vec<u8>, n: usize)
    ensures
        final(out)@ == old(out)@ + zeros(n as nat),
{
    let mut i: usize = 0;
    while i < n
        invariant
            i <= n,
            out@ == old(out)@ + zeros(i as nat),
        decreases n - i,
    {
        out.push(0);
        i += 1;
        assert(zeros(i as nat) == zeros((i - 1) as nat).push(0u8));
    }
}

/// A fresh buffer that holds the header of a value.
pub(crate) fn start(tag: GodotTypeIndex, flag: SerializeFlag) -> (out: Vec<u8>)
    ensures
        out@ == header(tag, flag),
        out@.len() == 4,
{
    let mut out: Vec<u8> = Vec::new();
    let code = write_u16(tag.code());
    append(&mut out, code.as_slice());
    let width = write_u16(flag.code());
    append(&mut out, width.as_slice());
    out
}

/// A 16-bit number has two bytes, from which it is read back.
pub proof fn lemma_u16_le(x: u16)
    ensures
        u16_le(x).len() == 2,
        le_u16(u16_le(x)) == x,
{
}

/// A 32-bit number has four bytes, from which it is read back.
pub proof fn lemma_u32_le(x: u32)
    ensures
        u32_le(x).len() == 4,
        le_u32(u32_le(x)) == x,
{
}

/// A 64-bit number has eight bytes, from which it is read back.
pub proof fn lemma_u64_le(x: u64)
    ensures
        u64_le(x).len() == 8,
        le_u64(u64_le(x)) == x,
{
    assert(x % 0x100 + 0x100 * (x / 0x100 % 0x100) + 0x1_0000 * (x / 0x1_0000 % 0x100) + 0x100_0000
        * (x / 0x100_0000 % 0x100) + 0x1_0000_0000 * (x / 0x1_0000_0000 % 0x100)
        + 0x100_0000_0000 * (x / 0x100_0000_0000 % 0x100) + 0x1_0000_0000_0000 * (x
        / 0x1_0000_0000_0000 % 0x100) + 0x100_0000_0000_0000 * (x / 0x100_0000_0000_0000) == x)
        by (bit_vector);
    assert(x / 0x100_0000_0000_0000 < 0x100) by (bit_vector);
}

/// A signed 32-bit number is read back from its bits in two's complement.
pub proof fn lemma_signed32(x: i32)
    ensures
        signed32(unsigned32(x)) == x,
{
}

/// A signed 64-bit number is read back from its bits in two's complement.
pub proof fn lemma_signed64(x: i64)
    ensures
        signed64(unsigned64(x)) == x,
{
}

} // verus!
