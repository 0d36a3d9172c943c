//! Big-endian integers inside byte buffers.

use byteorder::{ByteOrder, NetworkEndian};
use vstd::prelude::*;

verus! {

/// The two bytes of `v`, most significant first.
pub open spec fn u16_be(v: u16) -> Seq<u8> {
    seq![(v / 0x100) as u8, (v % 0x100) as u8]
}

/// The four bytes of `v`, most significant first.
pub open spec fn u32_be(v: u32) -> Seq<u8> {
    seq![
        (v / 0x100_0000) as u8,
        (v / 0x1_0000 % 0x100) as u8,
        (v / 0x100 % 0x100) as u8,
        (v % 0x100) as u8,
    ]
}

/// The number that the two bytes at `at` spell, most significant first.
pub open spec fn u16_at(bytes: Seq<u8>, at: int) -> int {
    bytes[at] * 0x100 + bytes[at + 1]
}

/// The number that the four bytes at `at` spell, most significant first.
pub open spec fn u32_at(bytes: Seq<u8>, at: int) -> int {
    bytes[at] * 0x100_0000 + bytes[at + 1] * 0x1_0000 + bytes[at + 2] * 0x100 + bytes[at + 3]
}

/// `n` zero bytes.
pub open spec fn zeros(n: nat) -> Seq<u8> {
    Seq::new(n, |i: int| 0u8)
}

/// `buf` with the bytes from `at` on replaced by `bytes`.
pub open spec fn overwrite(buf: Seq<u8>, at: int, bytes: Seq<u8>) -> Seq<u8> {
    buf.subrange(0, at) + bytes + buf.subrange(at + bytes.len(), buf.len() as int)
}

/// Calls `byteorder::NetworkEndian::write_u16` on the tail of `buf` that
/// starts at `at`. Trusted: the call stores the two bytes of `v`, most
/// significant first, and leaves every other byte alone. It panics on a
/// tail shorter than two bytes, which the precondition rules out.
#[verifier::external_body]
pub(crate) fn put_u16(buf: &mut [u8], at: usize, v: u16)
    requires
        at + 2 <= old(buf)@.len(),
    ensures
        final(buf)@ == overwrite(old(buf)@, at as int, u16_be(v)),
{
    NetworkEndian::write_u16(&mut buf[at..], v)
}

/// Calls `byteorder::NetworkEndian::write_u32` on the tail of `buf` that
/// starts at `at`. Trusted: the call stores the four bytes of `v`, most
/// significant first, and leaves every other byte alone. It panics on a
/// tail shorter than four bytes, which the precondition rules out.
#[verifier::external_body]
pub(crate) fn put_u32(buf: &mut [u8], at: usize, v: u32)
    requires
        at + 4 <= old(buf)@.len(),
    ensures
        final(buf)@ == overwrite(old(buf)@, at as int, u32_be(v)),
{
    NetworkEndian::write_u32(&mut buf[at..], v)
}

/// Calls `byteorder::NetworkEndian::read_u16` on the tail of `buf` that
/// starts at `at`. Trusted: the result is the number spelled by the first
/// two bytes of that tail. It panics on a shorter tail, which the
/// precondition rules out.
#[verifier::external_body]
pub(crate) fn get_u16(buf: &[u8], at: usize) -> (v: u16)
    requires
        at + 2 <= buf@.len(),
    ensures
        v == u16_at(buf@, at as int),
{
    NetworkEndian::read_u16(&buf[at..])
}

/// Calls `byteorder::NetworkEndian::read_u32` on the tail of `buf` that
/// starts at `at`. Trusted: the result is the number spelled by the first
/// four bytes of that tail. It panics on a shorter tail, which the
/// precondition rules out.
#[verifier::external_body]
pub(crate) fn get_u32(buf: &[u8], at: usize) -> (v: u32)
    requires
        at + 4 <= buf@.len(),
    ensures
        v == u32_at(buf@, at as int),
{
    NetworkEndian::read_u32(&buf[at..])
}

/// Reading back what was written gives the number that was written.
pub proof fn lemma_u16_round_trip(v: u16)
    ensures
        u16_at(u16_be(v), 0) == v,
{
}

/// Reading back what was written gives the number that was written.
pub proof fn lemma_u32_round_trip(v: u32)
    ensures
        u32_at(u32_be(v), 0) == v,
{
}

} // verus!
