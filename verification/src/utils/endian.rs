//! Little-endian integers, as the files of the store hold them.
//!
//! The conversions are those of the `byteorder` crate. What they compute is
//! stated over the little-endian functions of `vstd::bytes`; a signed value
//! is laid out as the unsigned value with the same bits.

use byteorder::{ByteOrder, LittleEndian};
use vstd::bytes::{
    lemma_auto_spec_u16_to_from_le_bytes, lemma_auto_spec_u32_to_from_le_bytes,
    lemma_auto_spec_u64_to_from_le_bytes, spec_u16_from_le_bytes, spec_u16_to_le_bytes,
    spec_u32_from_le_bytes, spec_u32_to_le_bytes, spec_u64_from_le_bytes, spec_u64_to_le_bytes,
};
use vstd::prelude::*;

verus! {

/// The two bytes of a signed 16-bit value.
pub open spec fn spec_i16_to_le_bytes(x: i16) -> Seq<u8> {
    spec_u16_to_le_bytes(x as u16)
}

/// The signed 16-bit value of two bytes.
pub open spec fn spec_i16_from_le_bytes(s: Seq<u8>) -> i16 {
    spec_u16_from_le_bytes(s) as i16
}

/// The four bytes of a signed 32-bit value.
pub open spec fn spec_i32_to_le_bytes(x: i32) -> Seq<u8> {
    spec_u32_to_le_bytes(x as u32)
}

/// The signed 32-bit value of four bytes.
pub open spec fn spec_i32_from_le_bytes(s: Seq<u8>) -> i32 {
    spec_u32_from_le_bytes(s) as i32
}

/// The eight bytes of a signed 64-bit value.
pub open spec fn spec_i64_to_le_bytes(x: i64) -> Seq<u8> {
    spec_u64_to_le_bytes(x as u64)
}

/// The signed 64-bit value of eight bytes.
pub open spec fn spec_i64_from_le_bytes(s: Seq<u8>) -> i64 {
    spec_u64_from_le_bytes(s) as i64
}

/// Reading back what was written gives the value, for each width.
pub proof fn lemma_unsigned_round_trip()
    ensures
        forall|x: u16|
            #![trigger spec_u16_to_le_bytes(x)]
            spec_u16_to_le_bytes(x).len() == 2 && spec_u16_from_le_bytes(spec_u16_to_le_bytes(x))
                == x,
        forall|x: u32|
            #![trigger spec_u32_to_le_bytes(x)]
            spec_u32_to_le_bytes(x).len() == 4 && spec_u32_from_le_bytes(spec_u32_to_le_bytes(x))
                == x,
        forall|x: u64|
            #![trigger spec_u64_to_le_bytes(x)]
            spec_u64_to_le_bytes(x).len() == 8 && spec_u64_from_le_bytes(spec_u64_to_le_bytes(x))
                == x,
{
    lemma_auto_spec_u16_to_from_le_bytes();
    lemma_auto_spec_u32_to_from_le_bytes();
    lemma_auto_spec_u64_to_from_le_bytes();
}

/// Reading back what was written gives the value, for each signed width.
pub proof fn lemma_signed_round_trip()
    ensures
        forall|x: i16|
            #![trigger spec_i16_to_le_bytes(x)]
            spec_i16_to_le_bytes(x).len() == 2 && spec_i16_from_le_bytes(spec_i16_to_le_bytes(x))
                == x,
        forall|x: i32|
            #![trigger spec_i32_to_le_bytes(x)]
            spec_i32_to_le_bytes(x).len() == 4 && spec_i32_from_le_bytes(spec_i32_to_le_bytes(x))
                == x,
        forall|x: i64|
            #![trigger spec_i64_to_le_bytes(x)]
            spec_i64_to_le_bytes(x).len() == 8 && spec_i64_from_le_bytes(spec_i64_to_le_bytes(x))
                == x,
{
    lemma_unsigned_round_trip();
    assert forall|x: i16| #![trigger spec_i16_to_le_bytes(x)] (x as u16) as i16 == x by {
        assert((x as u16) as i16 == x) by (bit_vector);
    }
    assert forall|x: i32| #![trigger spec_i32_to_le_bytes(x)] (x as u32) as i32 == x by {
        assert((x as u32) as i32 == x) by (bit_vector);
    }
    assert forall|x: i64| #![trigger spec_i64_to_le_bytes(x)] (x as u64) as i64 == x by {
        assert((x as u64) as i64 == x) by (bit_vector);
    }
}

/// `LittleEndian::write_u16` of byteorder, on a buffer of two bytes.
#[verifier::external_body]
pub(crate) fn u16_to_le_bytes(x: u16) -> (bytes: Vec<u8>)
    ensures
        bytes@ == spec_u16_to_le_bytes(x),
        bytes@.len() == 2,
{
    let mut buf = [0u8; 2];
    LittleEndian::write_u16(&mut buf, x);
    buf.to_vec()
}

/// `LittleEndian::read_u16` of byteorder: the value of the first two bytes.
/// It panics on a shorter buffer.
#[verifier::external_body]
pub(crate) fn u16_from_le_bytes(bytes: &[u8]) -> (x: u16)
    requires
        bytes@.len() >= 2,
    ensures
        x == spec_u16_from_le_bytes(bytes@.subrange(0, 2)),
{
    LittleEndian::read_u16(bytes)
}

/// `LittleEndian::write_u32` of byteorder, on a buffer of four bytes.
#[verifier::external_body]
pub(crate) fn u32_to_le_bytes(x: u32) -> (bytes: Vec<u8>)
    ensures
        bytes@ == spec_u32_to_le_bytes(x),
        bytes@.len() == 4,
{
    let mut buf = [0u8; 4];
    LittleEndian::write_u32(&mut buf, x);
    buf.to_vec()
}

/// `LittleEndian::read_u32` of byteorder: the value of the first four bytes.
/// It panics on a shorter buffer.
#[verifier::external_body]
pub(crate) fn u32_from_le_bytes(bytes: &[u8]) -> (x: u32)
    requires
        bytes@.len() >= 4,
    ensures
        x == spec_u32_from_le_bytes(bytes@.subrange(0, 4)),
{
    LittleEndian::read_u32(bytes)
}

/// `LittleEndian::write_u64` of byteorder, on a buffer of eight bytes.
#[verifier::external_body]
pub(crate) fn u64_to_le_bytes(x: u64) -> (bytes: Vec<u8>)
    ensures
        bytes@ == spec_u64_to_le_bytes(x),
        bytes@.len() == 8,
{
    let mut buf = [0u8; 8];
    LittleEndian::write_u64(&mut buf, x);
    buf.to_vec()
}

/// `LittleEndian::read_u64` of byteorder: the value of the first eight
/// bytes. It panics on a shorter buffer.
#[verifier::external_body]
pub(crate) fn u64_from_le_bytes(bytes: &[u8]) -> (x: u64)
    requires
        bytes@.len() >= 8,
    ensures
        x == spec_u64_from_le_bytes(bytes@.subrange(0, 8)),
{
    LittleEndian::read_u64(bytes)
}

/// `LittleEndian::write_i16` of byteorder, on a buffer of two bytes.
#[verifier::external_body]
pub(crate) fn i16_to_le_bytes(x: i16) -> (bytes: Vec<u8>)
    ensures
        bytes@ == spec_i16_to_le_bytes(x),
        bytes@.len() == 2,
{
    let mut buf = [0u8; 2];
    LittleEndian::write_i16(&mut buf, x);
    buf.to_vec()
}

/// `LittleEndian::read_i16` of byteorder: the value of the first two bytes.
/// It panics on a shorter buffer.
#[verifier::external_body]
pub(crate) fn i16_from_le_bytes(bytes: &[u8]) -> (x: i16)
    requires
        bytes@.len() >= 2,
    ensures
        x == spec_i16_from_le_bytes(bytes@.subrange(0, 2)),
{
    LittleEndian::read_i16(bytes)
}

/// `LittleEndian::write_i32` of byteorder, on a buffer of four bytes.
#[verifier::external_body]
pub(crate) fn i32_to_le_bytes(x: i32) -> (bytes: Vec<u8>)
    ensures
        bytes@ == spec_i32_to_le_bytes(x),
        bytes@.len() == 4,
{
    let mut buf = [0u8; 4];
    LittleEndian::write_i32(&mut buf, x);
    buf.to_vec()
}

/// `LittleEndian::read_i32` of byteorder: the value of the first four bytes.
/// It panics on a shorter buffer.
#[verifier::external_body]
pub(crate) fn i32_from_le_bytes(bytes: &[u8]) -> (x: i32)
    requires
        bytes@.len() >= 4,
    ensures
        x == spec_i32_from_le_bytes(bytes@.subrange(0, 4)),
{
    LittleEndian::read_i32(bytes)
}

/// `LittleEndian::write_i64` of byteorder, on a buffer of eight bytes.
#[verifier::external_body]
pub(crate) fn i64_to_le_bytes(x: i64) -> (bytes: Vec<u8>)
    ensures
        bytes@ == spec_i64_to_le_bytes(x),
        bytes@.len() == 8,
{
    let mut buf = [0u8; 8];
    LittleEndian::write_i64(&mut buf, x);
    buf.to_vec()
}

/// `LittleEndian::read_i64` of byteorder: the value of the first eight
/// bytes. It panics on a shorter buffer.
#[verifier::external_body]
pub(crate) fn i64_from_le_bytes(bytes: &[u8]) -> (x: i64)
    requires
        bytes@.len() >= 8,
    ensures
        x == spec_i64_from_le_bytes(bytes@.subrange(0, 8)),
{
    LittleEndian::read_i64(bytes)
}

} // verus!
