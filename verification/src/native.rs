//! Integers in the byte order of the machine that runs the library.
//!
//! ibsim copies its C records straight into datagrams, so every integer field
//! travels in native byte order. The byte order is `vstd::endian::endianness()`:
//! one fixed order for the whole process, little or big.
use vstd::bytes::*;
use vstd::endian::{endianness, Endian};
use vstd::prelude::*;

verus! {

/// The two bytes that hold `x` in native byte order.
pub open spec fn ne_bytes_u16(x: u16) -> Seq<u8> {
    match endianness() {
        Endian::Little => spec_u16_to_le_bytes(x),
        Endian::Big => spec_u16_to_le_bytes(x).reverse(),
    }
}

/// The `u16` that two bytes hold in native byte order.
pub open spec fn ne_value_u16(b: Seq<u8>) -> u16 {
    match endianness() {
        Endian::Little => spec_u16_from_le_bytes(b),
        Endian::Big => spec_u16_from_le_bytes(b.reverse()),
    }
}

/// The four bytes that hold `x` in native byte order.
pub open spec fn ne_bytes_u32(x: u32) -> Seq<u8> {
    match endianness() {
        Endian::Little => spec_u32_to_le_bytes(x),
        Endian::Big => spec_u32_to_le_bytes(x).reverse(),
    }
}

/// The `u32` that four bytes hold in native byte order.
pub open spec fn ne_value_u32(b: Seq<u8>) -> u32 {
    match endianness() {
        Endian::Little => spec_u32_from_le_bytes(b),
        Endian::Big => spec_u32_from_le_bytes(b.reverse()),
    }
}

/// The eight bytes that hold `x` in native byte order.
pub open spec fn ne_bytes_u64(x: u64) -> Seq<u8> {
    match endianness() {
        Endian::Little => spec_u64_to_le_bytes(x),
        Endian::Big => spec_u64_to_le_bytes(x).reverse(),
    }
}

/// The `u64` that eight bytes hold in native byte order.
pub open spec fn ne_value_u64(b: Seq<u8>) -> u64 {
    match endianness() {
        Endian::Little => spec_u64_from_le_bytes(b),
        Endian::Big => spec_u64_from_le_bytes(b.reverse()),
    }
}

/// Writing a `u16` in native order and reading it back gives the `u16`, and
/// reading two bytes and writing the value back gives the bytes.
pub proof fn lemma_ne_u16(x: u16, b: Seq<u8>)
    ensures
        ne_bytes_u16(x).len() == 2,
        ne_value_u16(ne_bytes_u16(x)) == x,
        b.len() == 2 ==> ne_bytes_u16(ne_value_u16(b)) == b,
{
    lemma_auto_spec_u16_to_from_le_bytes();
    assert(spec_u16_to_le_bytes(x).reverse().reverse() =~= spec_u16_to_le_bytes(x));
    assert(b.reverse().reverse() =~= b);
    assert(b.len() == 2 ==> b.reverse().len() == 2);
}

/// Writing a `u32` in native order and reading it back gives the `u32`, and
/// reading four bytes and writing the value back gives the bytes.
pub proof fn lemma_ne_u32(x: u32, b: Seq<u8>)
    ensures
        ne_bytes_u32(x).len() == 4,
        ne_value_u32(ne_bytes_u32(x)) == x,
        b.len() == 4 ==> ne_bytes_u32(ne_value_u32(b)) == b,
{
    lemma_auto_spec_u32_to_from_le_bytes();
    assert(spec_u32_to_le_bytes(x).reverse().reverse() =~= spec_u32_to_le_bytes(x));
    assert(b.reverse().reverse() =~= b);
    assert(b.len() == 4 ==> b.reverse().len() == 4);
}

/// Writing a `u64` in native order and reading it back gives the `u64`, and
/// reading eight bytes and writing the value back gives the bytes.
pub proof fn lemma_ne_u64(x: u64, b: Seq<u8>)
    ensures
        ne_bytes_u64(x).len() == 8,
        ne_value_u64(ne_bytes_u64(x)) == x,
        b.len() == 8 ==> ne_bytes_u64(ne_value_u64(b)) == b,
{
    lemma_auto_spec_u64_to_from_le_bytes();
    assert(spec_u64_to_le_bytes(x).reverse().reverse() =~= spec_u64_to_le_bytes(x));
    assert(b.reverse().reverse() =~= b);
    assert(b.len() == 8 ==> b.reverse().len() == 8);
}

/// `u16::to_ne_bytes`: the memory representation of `x` in the machine's
/// byte order, little-endian or big-endian as `endianness()` says.
#[verifier::external_body]
pub(crate) fn u16_to_ne(x: u16) -> (b: [u8; 2])
    ensures
        b@ == ne_bytes_u16(x),
{
    x.to_ne_bytes()
}

/// `u16::from_ne_bytes`: the `u16` whose memory representation in the
/// machine's byte order is `b`.
#[verifier::external_body]
pub(crate) fn u16_from_ne(b: [u8; 2]) -> (x: u16)
    ensures
        x == ne_value_u16(b@),
{
    u16::from_ne_bytes(b)
}

/// `u32::to_ne_bytes`: the memory representation of `x` in the machine's
/// byte order, little-endian or big-endian as `endianness()` says.
#[verifier::external_body]
pub(crate) fn u32_to_ne(x: u32) -> (b: [u8; 4])
    ensures
        b@ == ne_bytes_u32(x),
{
    x.to_ne_bytes()
}

/// `u32::from_ne_bytes`: the `u32` whose memory representation in the
/// machine's byte order is `b`.
#[verifier::external_body]
pub(crate) fn u32_from_ne(b: [u8; 4]) -> (x: u32)
    ensures
        x == ne_value_u32(b@),
{
    u32::from_ne_bytes(b)
}

/// `u64::to_ne_bytes`: the memory representation of `x` in the machine's
/// byte order, little-endian or big-endian as `endianness()` says.
#[verifier::external_body]
pub(crate) fn u64_to_ne(x: u64) -> (b: [u8; 8])
    ensures
        b@ == ne_bytes_u64(x),
{
    x.to_ne_bytes()
}

/// `u64::from_ne_bytes`: the `u64` whose memory representation in the
/// machine's byte order is `b`.
#[verifier::external_body]
pub(crate) fn u64_from_ne(b: [u8; 8]) -> (x: u64)
    ensures
        x == ne_value_u64(b@),
{
    u64::from_ne_bytes(b)
}

/// Appends `bytes` to `out`.
pub(crate) fn push_all(out: &mut Vec<u8>, bytes: &[u8])
    ensures
        final(out)@ == old(out)@ + bytes@,
{
    let mut i: usize = 0;
    while i < bytes.len()
        invariant
            i <= bytes@.len(),
            out@ == old(out)@ + bytes@.subrange(0, i as int),
        decreases bytes@.len() - i,
    {
        out.push(bytes[i]);
        i = i + 1;
        assert(out@ =~= old(out)@ + bytes@.subrange(0, i as int));
    }
    assert(bytes@.subrange(0, i as int) =~= bytes@);
}

} // verus!
