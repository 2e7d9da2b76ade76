use bytes::Buf;
use vstd::prelude::*;

verus! {

/// The number that two bytes write in little-endian order.
pub open spec fn u16_le(b: Seq<u8>) -> u16 {
    (b[0] + 0x100 * b[1]) as u16
}

/// The number that four bytes write in little-endian order.
pub open spec fn u32_le(b: Seq<u8>) -> u32 {
    (b[0] + 0x100 * b[1] + 0x1_0000 * b[2] + 0x100_0000 * b[3]) as u32
}

/// The signed number that four bytes write in little-endian order, in two's complement.
pub open spec fn i32_le(b: Seq<u8>) -> i32 {
    if b[3] < 0x80 {
        u32_le(b) as i32
    } else {
        (u32_le(b) - 0x1_0000_0000) as i32
    }
}

/// `bytes::Buf::get_u8` on a byte slice: returns the first byte and moves the cursor
/// past it. It panics on an empty slice, which the precondition leaves out.
#[verifier::external_body]
pub(crate) fn get_u8(cursor: &mut &[u8]) -> (v: u8)
    requires
        old(cursor)@.len() >= 1,
    ensures
        v == old(cursor)@[0],
        final(cursor)@ == old(cursor)@.skip(1),
{
    cursor.get_u8()
}

/// `bytes::Buf::get_u16_le` on a byte slice: returns the first two bytes read as a
/// little-endian number and moves the cursor past them. It panics on fewer than two
/// bytes, which the precondition leaves out.
#[verifier::external_body]
pub(crate) fn get_u16_le(cursor: &mut &[u8]) -> (v: u16)
    requires
        old(cursor)@.len() >= 2,
    ensures
        v == u16_le(old(cursor)@),
        final(cursor)@ == old(cursor)@.skip(2),
{
    cursor.get_u16_le()
}

/// `bytes::Buf::get_u32_le` on a byte slice: returns the first four bytes read as a
/// little-endian number and moves the cursor past them. It panics on fewer than four
/// bytes, which the precondition leaves out.
#[verifier::external_body]
pub(crate) fn get_u32_le(cursor: &mut &[u8]) -> (v: u32)
    requires
        old(cursor)@.len() >= 4,
    ensures
        v == u32_le(old(cursor)@),
        final(cursor)@ == old(cursor)@.skip(4),
{
    cursor.get_u32_le()
}

/// `bytes::Buf::get_i32_le` on a byte slice: returns the first four bytes read as a
/// signed little-endian number and moves the cursor past them. It panics on fewer than
/// four bytes, which the precondition leaves out.
#[verifier::external_body]
pub(crate) fn get_i32_le(cursor: &mut &[u8]) -> (v: i32)
    requires
        old(cursor)@.len() >= 4,
    ensures
        v == i32_le(old(cursor)@),
        final(cursor)@ == old(cursor)@.skip(4),
{
    cursor.get_i32_le()
}

/// `bytes::Buf::copy_to_slice` on a byte slice, into an array of sixteen bytes: the array
/// holds the first sixteen bytes, and the cursor has moved past them. It panics on fewer
/// than sixteen bytes, which the precondition leaves out.
#[verifier::external_body]
pub(crate) fn copy_to_ident(cursor: &mut &[u8]) -> (out: [u8; 16])
    requires
        old(cursor)@.len() >= 16,
    ensures
        out@ == old(cursor)@.take(16),
        final(cursor)@ == old(cursor)@.skip(16),
{
    let mut out = [0u8; 16];
    cursor.copy_to_slice(&mut out);
    out
}

} // verus!
