//! The field types of a document and the byte encoding of their values.
//!
//! The registry is closed: a field holds a UUID, raw bytes, text, or one of
//! ten scalars. Scalars are laid out little-endian in their own width, a UUID
//! as its sixteen bytes, text as its UTF-8 bytes. Decoding a payload of the
//! wrong length, or text that is not UTF-8, gives no value.

use crate::utils::endian::{
    i16_from_le_bytes, i16_to_le_bytes, i32_from_le_bytes, i32_to_le_bytes, i64_from_le_bytes,
    i64_to_le_bytes, lemma_signed_round_trip, lemma_unsigned_round_trip, spec_i16_from_le_bytes,
    spec_i16_to_le_bytes, spec_i32_from_le_bytes, spec_i32_to_le_bytes, spec_i64_from_le_bytes,
    spec_i64_to_le_bytes, u16_from_le_bytes, u16_to_le_bytes, u32_from_le_bytes, u32_to_le_bytes,
    u64_from_le_bytes, u64_to_le_bytes,
};
use uuid::Uuid;
use vstd::bytes::{
    spec_u16_from_le_bytes, spec_u16_to_le_bytes, spec_u32_from_le_bytes, spec_u32_to_le_bytes,
    spec_u64_from_le_bytes, spec_u64_to_le_bytes,
};
use vstd::prelude::*;
use vstd::slice::slice_to_vec;
use vstd::utf8::{
    decode_utf8, encode_utf8, encode_utf8_decode_utf8, encode_utf8_valid_utf8, valid_utf8,
};

verus! {

/// The number of field types.
pub const FIELD_TYPES: u32 = 13;

/// The type of the value that a field holds.
#[derive(Debug, Clone, Copy, PartialEq, Eq, Structural)]
pub enum FieldType {
    Uuid,
    Bytes,
    Text,
    Int8,
    Int16,
    Int32,
    Int64,
    UInt8,
    UInt16,
    UInt32,
    UInt64,
    Float32,
    Float64,
}

impl FieldType {
    /// The number that stands for the type in an encoded document.
    pub open spec fn spec_tag(self) -> u32 {
        match self {
            FieldType::Uuid => 0,
            FieldType::Bytes => 1,
            FieldType::Text => 2,
            FieldType::Int8 => 3,
            FieldType::Int16 => 4,
            FieldType::Int32 => 5,
            FieldType::Int64 => 6,
            FieldType::UInt8 => 7,
            FieldType::UInt16 => 8,
            FieldType::UInt32 => 9,
            FieldType::UInt64 => 10,
            FieldType::Float32 => 11,
            FieldType::Float64 => 12,
        }
    }

    /// The type that a number stands for, if any.
    pub open spec fn spec_from_tag(tag: u32) -> Option<FieldType> {
        if tag == 0 {
            Some(FieldType::Uuid)
        } else if tag == 1 {
            Some(FieldType::Bytes)
        } else if tag == 2 {
            Some(FieldType::Text)
        } else if tag == 3 {
            Some(FieldType::Int8)
        } else if tag == 4 {
            Some(FieldType::Int16)
        } else if tag == 5 {
            Some(FieldType::Int32)
        } else if tag == 6 {
            Some(FieldType::Int64)
        } else if tag == 7 {
            Some(FieldType::UInt8)
        } else if tag == 8 {
            Some(FieldType::UInt16)
        } else if tag == 9 {
            Some(FieldType::UInt32)
        } else if tag == 10 {
            Some(FieldType::UInt64)
        } else if tag == 11 {
            Some(FieldType::Float32)
        } else if tag == 12 {
            Some(FieldType::Float64)
        } else {
            None
        }
    }

    /// The number of bytes of a payload of the type, where the type fixes it.
    pub open spec fn spec_width(self) -> Option<nat> {
        match self {
            FieldType::Uuid => Some(16),
            FieldType::Bytes => None,
            FieldType::Text => None,
            FieldType::Int8 => Some(1),
            FieldType::Int16 => Some(2),
            FieldType::Int32 => Some(4),
            FieldType::Int64 => Some(8),
            FieldType::UInt8 => Some(1),
            FieldType::UInt16 => Some(2),
            FieldType::UInt32 => Some(4),
            FieldType::UInt64 => Some(8),
            FieldType::Float32 => Some(4),
            FieldType::Float64 => Some(8),
        }
    }

    /// The number that stands for the type in an encoded document.
    pub fn tag(self) -> (tag: u32)
        ensures
            tag == self.spec_tag(),
            tag < FIELD_TYPES,
    {
        match self {
            FieldType::Uuid => 0,
            FieldType::Bytes => 1,
            FieldType::Text => 2,
            FieldType::Int8 => 3,
            FieldType::Int16 => 4,
            FieldType::Int32 => 5,
            FieldType::Int64 => 6,
            FieldType::UInt8 => 7,
            FieldType::UInt16 => 8,
            FieldType::UInt32 => 9,
            FieldType::UInt64 => 10,
            FieldType::Float32 => 11,
            FieldType::Float64 => 12,
        }
    }

    /// The type that a number stands for: `None` for a number of 13 or more.
    pub fn from_tag(tag: u32) -> (r: Option<FieldType>)
        ensures
            r == FieldType::spec_from_tag(tag),
            r is Some <==> tag < FIELD_TYPES,
    {
        match tag {
            0 => Some(FieldType::Uuid),
            1 => Some(FieldType::Bytes),
            2 => Some(FieldType::Text),
            3 => Some(FieldType::Int8),
            4 => Some(FieldType::Int16),
            5 => Some(FieldType::Int32),
            6 => Some(FieldType::Int64),
            7 => Some(FieldType::UInt8),
            8 => Some(FieldType::UInt16),
            9 => Some(FieldType::UInt32),
            10 => Some(FieldType::UInt64),
            11 => Some(FieldType::Float32),
            12 => Some(FieldType::Float64),
            _ => None,
        }
    }

    /// The number of bytes of a payload of the type, where the type fixes it.
    pub fn width(self) -> (w: Option<usize>)
        ensures
            w is Some == self.spec_width() is Some,
            w matches Some(n) ==> self.spec_width() == Some(n as nat),
    {
        match self {
            FieldType::Uuid => Some(16),
            FieldType::Bytes => None,
            FieldType::Text => None,
            FieldType::Int8 => Some(1),
            FieldType::Int16 => Some(2),
            FieldType::Int32 => Some(4),
            FieldType::Int64 => Some(8),
            FieldType::UInt8 => Some(1),
            FieldType::UInt16 => Some(2),
            FieldType::UInt32 => Some(4),
            FieldType::UInt64 => Some(8),
            FieldType::Float32 => Some(4),
            FieldType::Float64 => Some(8),
        }
    }
}

/// The tags are stable: a type is found again from its number, and a number
/// that names a type is the number of that type.
pub proof fn lemma_tag_round_trip(t: FieldType, tag: u32)
    ensures
        FieldType::spec_from_tag(t.spec_tag()) == Some(t),
        FieldType::spec_from_tag(tag) == Some(t) ==> t.spec_tag() == tag,
{
}

#[verifier::external_type_specification]
#[verifier::external_body]
pub struct ExUuid(Uuid);

/// The sixteen bytes of a UUID.
pub uninterp spec fn uuid_bytes(id: Uuid) -> Seq<u8>;

/// `Uuid::as_bytes` of uuid: the sixteen bytes of the value.
#[verifier::external_body]
fn uuid_to_bytes(id: &Uuid) -> (bytes: Vec<u8>)
    ensures
        bytes@ == uuid_bytes(*id),
        bytes@.len() == 16,
{
    id.as_bytes().to_vec()
}

/// `Uuid::from_slice` of uuid: the UUID of exactly sixteen bytes, and an
/// error, here `None`, for any other length.
#[verifier::external_body]
fn uuid_from_bytes(bytes: &[u8]) -> (id: Option<Uuid>)
    ensures
        id is Some <==> bytes@.len() == 16,
        id matches Some(u) ==> uuid_bytes(u) == bytes@,
{
    Uuid::from_slice(bytes).ok()
}

/// `str::from_utf8` of std: the text of bytes that are valid UTF-8, and an
/// error, here `None`, for any others.
#[verifier::external_body]
fn text_from_utf8<'a>(bytes: &'a [u8]) -> (text: Option<&'a str>)
    ensures
        text is Some <==> valid_utf8(bytes@),
        text matches Some(s) ==> s@ == decode_utf8(bytes@),
{
    std::str::from_utf8(bytes).ok()
}

/// The payload of a UUID with the given bytes.
pub open spec fn uuid_encoding(bytes: Seq<u8>) -> Seq<u8> {
    bytes
}

/// The bytes of the UUID that a payload holds.
pub open spec fn uuid_decoding(d: Seq<u8>) -> Option<Seq<u8>> {
    if d.len() == 16 {
        Some(d)
    } else {
        None
    }
}

/// The payload of raw bytes.
pub open spec fn bytes_encoding(bytes: Seq<u8>) -> Seq<u8> {
    bytes
}

/// The raw bytes that a payload holds.
pub open spec fn bytes_decoding(d: Seq<u8>) -> Option<Seq<u8>> {
    Some(d)
}

/// The payload of a text.
pub open spec fn text_encoding(text: Seq<char>) -> Seq<u8> {
    encode_utf8(text)
}

/// The text that a payload holds.
pub open spec fn text_decoding(d: Seq<u8>) -> Option<Seq<char>> {
    if valid_utf8(d) {
        Some(decode_utf8(d))
    } else {
        None
    }
}

/// The payload of a signed 8-bit value.
pub open spec fn int8_encoding(v: i8) -> Seq<u8> {
    seq![v as u8]
}

/// The signed 8-bit value that a payload holds.
pub open spec fn int8_decoding(d: Seq<u8>) -> Option<i8> {
    if d.len() == 1 {
        Some(d[0] as i8)
    } else {
        None
    }
}

/// The payload of an unsigned 8-bit value.
pub open spec fn uint8_encoding(v: u8) -> Seq<u8> {
    seq![v]
}

/// The unsigned 8-bit value that a payload holds.
pub open spec fn uint8_decoding(d: Seq<u8>) -> Option<u8> {
    if d.len() == 1 {
        Some(d[0])
    } else {
        None
    }
}

/// The payload of a signed 16-bit value.
pub open spec fn int16_encoding(v: i16) -> Seq<u8> {
    spec_i16_to_le_bytes(v)
}

/// The signed 16-bit value that a payload holds.
pub open spec fn int16_decoding(d: Seq<u8>) -> Option<i16> {
    if d.len() == 2 {
        Some(spec_i16_from_le_bytes(d))
    } else {
        None
    }
}

/// The payload of a signed 32-bit value.
pub open spec fn int32_encoding(v: i32) -> Seq<u8> {
    spec_i32_to_le_bytes(v)
}

/// The signed 32-bit value that a payload holds.
pub open spec fn int32_decoding(d: Seq<u8>) -> Option<i32> {
    if d.len() == 4 {
        Some(spec_i32_from_le_bytes(d))
    } else {
        None
    }
}

/// The payload of a signed 64-bit value.
pub open spec fn int64_encoding(v: i64) -> Seq<u8> {
    spec_i64_to_le_bytes(v)
}

/// The signed 64-bit value that a payload holds.
pub open spec fn int64_decoding(d: Seq<u8>) -> Option<i64> {
    if d.len() == 8 {
        Some(spec_i64_from_le_bytes(d))
    } else {
        None
    }
}

/// The payload of an unsigned 16-bit value.
pub open spec fn uint16_encoding(v: u16) -> Seq<u8> {
    spec_u16_to_le_bytes(v)
}

/// The unsigned 16-bit value that a payload holds.
pub open spec fn uint16_decoding(d: Seq<u8>) -> Option<u16> {
    if d.len() == 2 {
        Some(spec_u16_from_le_bytes(d))
    } else {
        None
    }
}

/// The payload of an unsigned 32-bit value.
pub open spec fn uint32_encoding(v: u32) -> Seq<u8> {
    spec_u32_to_le_bytes(v)
}

/// The unsigned 32-bit value that a payload holds.
pub open spec fn uint32_decoding(d: Seq<u8>) -> Option<u32> {
    if d.len() == 4 {
        Some(spec_u32_from_le_bytes(d))
    } else {
        None
    }
}

/// The payload of an unsigned 64-bit value.
pub open spec fn uint64_encoding(v: u64) -> Seq<u8> {
    spec_u64_to_le_bytes(v)
}

/// The unsigned 64-bit value that a payload holds.
pub open spec fn uint64_decoding(d: Seq<u8>) -> Option<u64> {
    if d.len() == 8 {
        Some(spec_u64_from_le_bytes(d))
    } else {
        None
    }
}

/// Decoding the payload of a UUID gives its bytes back.
pub proof fn lemma_uuid_round_trip(bytes: Seq<u8>)
    requires
        bytes.len() == 16,
    ensures
        uuid_decoding(uuid_encoding(bytes)) == Some(bytes),
{
}

/// Decoding the payload of raw bytes gives them back.
pub proof fn lemma_bytes_round_trip(bytes: Seq<u8>)
    ensures
        bytes_decoding(bytes_encoding(bytes)) == Some(bytes),
{
}

/// Decoding the payload of a text gives the text back.
pub proof fn lemma_text_round_trip(text: Seq<char>)
    ensures
        text_decoding(text_encoding(text)) == Some(text),
{
    encode_utf8_valid_utf8(text);
    encode_utf8_decode_utf8(text);
}

/// Decoding the payload of an 8-bit value gives the value back.
pub proof fn lemma_byte_round_trip(signed: i8, unsigned: u8)
    ensures
        int8_decoding(int8_encoding(signed)) == Some(signed),
        uint8_decoding(uint8_encoding(unsigned)) == Some(unsigned),
{
    assert((signed as u8) as i8 == signed) by (bit_vector);
}

/// Decoding the payload of a signed scalar gives the value back.
pub proof fn lemma_signed_scalar_round_trip(a: i16, b: i32, c: i64)
    ensures
        int16_decoding(int16_encoding(a)) == Some(a),
        int32_decoding(int32_encoding(b)) == Some(b),
        int64_decoding(int64_encoding(c)) == Some(c),
{
    lemma_signed_round_trip();
}

/// Decoding the payload of an unsigned scalar gives the value back.
pub proof fn lemma_unsigned_scalar_round_trip(a: u16, b: u32, c: u64)
    ensures
        uint16_decoding(uint16_encoding(a)) == Some(a),
        uint32_decoding(uint32_encoding(b)) == Some(b),
        uint64_decoding(uint64_encoding(c)) == Some(c),
{
    lemma_unsigned_round_trip();
}

/// A 32-bit floating-point value, held by its bits.
#[derive(Debug, Clone, Copy, PartialEq, Eq, Structural)]
pub struct Float32Bits {
    pub bits: u32,
}

/// A 64-bit floating-point value, held by its bits.
#[derive(Debug, Clone, Copy, PartialEq, Eq, Structural)]
pub struct Float64Bits {
    pub bits: u64,
}

/// Decoding the payload of a floating-point value gives its bits back.
pub proof fn lemma_float_round_trip(a: Float32Bits, b: Float64Bits)
    ensures
        uint32_decoding(uint32_encoding(a.bits)) == Some(a.bits),
        uint64_decoding(uint64_encoding(b.bits)) == Some(b.bits),
{
    lemma_unsigned_round_trip();
}

/// Implemented on data types to convert them to bytes
pub trait ConvertFieldType<'a, T> {
    type Output;

    /// The type under which a value is stored.
    spec fn spec_type(&self) -> FieldType;

    /// The payload of a value, where it has one.
    spec fn spec_serialize(&self) -> Option<Seq<u8>>;

    /// Whether a payload holds a value of this type.
    spec fn decodable(d: Seq<u8>) -> bool;

    /// Whether `out` is the value that the payload `d` holds.
    spec fn decodes_to(d: Seq<u8>, out: Self::Output) -> bool;

    fn get_type(&self) -> (t: FieldType)
        ensures
            t == self.spec_type(),
    ;

    fn serialize(&self) -> (r: Option<Vec<u8>>)
        ensures
            r is Some <==> self.spec_serialize() is Some,
            r matches Some(bytes) ==> self.spec_serialize() == Some(bytes@),
    ;

    fn deserialize(d: &'a Vec<u8>) -> (r: Option<Self::Output>)
        ensures
            r is Some <==> Self::decodable(d@),
            r matches Some(out) ==> Self::decodes_to(d@, out),
    ;
}

impl<'a> ConvertFieldType<'a, Uuid> for Uuid {
    type Output = Uuid;

    open spec fn spec_type(&self) -> FieldType {
        FieldType::Uuid
    }

    open spec fn spec_serialize(&self) -> Option<Seq<u8>> {
        Some(uuid_encoding(uuid_bytes(*self)))
    }

    open spec fn decodable(d: Seq<u8>) -> bool {
        uuid_decoding(d) is Some
    }

    open spec fn decodes_to(d: Seq<u8>, out: Uuid) -> bool {
        uuid_decoding(d) == Some(uuid_bytes(out))
    }

    fn get_type(&self) -> (t: FieldType) {
        FieldType::Uuid
    }

    fn serialize(&self) -> (r: Option<Vec<u8>>) {
        Some(uuid_to_bytes(self))
    }

    fn deserialize(d: &'a Vec<u8>) -> (r: Option<Uuid>) {
        uuid_from_bytes(d.as_slice())
    }
}

impl<'a> ConvertFieldType<'a, &'a [u8]> for &[u8] {
    type Output = &'a [u8];

    open spec fn spec_type(&self) -> FieldType {
        FieldType::Bytes
    }

    open spec fn spec_serialize(&self) -> Option<Seq<u8>> {
        Some(bytes_encoding(self@))
    }

    open spec fn decodable(d: Seq<u8>) -> bool {
        bytes_decoding(d) is Some
    }

    open spec fn decodes_to(d: Seq<u8>, out: &'a [u8]) -> bool {
        bytes_decoding(d) == Some(out@)
    }

    fn get_type(&self) -> (t: FieldType) {
        FieldType::Bytes
    }

    fn serialize(&self) -> (r: Option<Vec<u8>>) {
        Some(slice_to_vec(*self))
    }

    fn deserialize(d: &'a Vec<u8>) -> (r: Option<&'a [u8]>) {
        Some(d.as_slice())
    }
}

impl<'a> ConvertFieldType<'a, &Vec<u8>> for &Vec<u8> {
    type Output = &'a [u8];

    open spec fn spec_type(&self) -> FieldType {
        FieldType::Bytes
    }

    open spec fn spec_serialize(&self) -> Option<Seq<u8>> {
        Some(bytes_encoding(self@))
    }

    open spec fn decodable(d: Seq<u8>) -> bool {
        bytes_decoding(d) is Some
    }

    open spec fn decodes_to(d: Seq<u8>, out: &'a [u8]) -> bool {
        bytes_decoding(d) == Some(out@)
    }

    fn get_type(&self) -> (t: FieldType) {
        FieldType::Bytes
    }

    fn serialize(&self) -> (r: Option<Vec<u8>>) {
        Some(slice_to_vec(self.as_slice()))
    }

    fn deserialize(d: &'a Vec<u8>) -> (r: Option<&'a [u8]>) {
        Some(d.as_slice())
    }
}

impl<'a> ConvertFieldType<'a, &'a str> for &str {
    type Output = &'a str;

    open spec fn spec_type(&self) -> FieldType {
        FieldType::Text
    }

    open spec fn spec_serialize(&self) -> Option<Seq<u8>> {
        Some(text_encoding(self@))
    }

    open spec fn decodable(d: Seq<u8>) -> bool {
        text_decoding(d) is Some
    }

    open spec fn decodes_to(d: Seq<u8>, out: &'a str) -> bool {
        text_decoding(d) == Some(out@)
    }

    fn get_type(&self) -> (t: FieldType) {
        FieldType::Text
    }

    fn serialize(&self) -> (r: Option<Vec<u8>>) {
        Some(slice_to_vec(self.as_bytes()))
    }

    fn deserialize(d: &'a Vec<u8>) -> (r: Option<&'a str>) {
        text_from_utf8(d.as_slice())
    }
}

impl<'a> ConvertFieldType<'a, String> for String {
    type Output = String;

    open spec fn spec_type(&self) -> FieldType {
        FieldType::Text
    }

    open spec fn spec_serialize(&self) -> Option<Seq<u8>> {
        Some(text_encoding(self@))
    }

    open spec fn decodable(d: Seq<u8>) -> bool {
        text_decoding(d) is Some
    }

    open spec fn decodes_to(d: Seq<u8>, out: String) -> bool {
        text_decoding(d) == Some(out@)
    }

    fn get_type(&self) -> (t: FieldType) {
        FieldType::Text
    }

    fn serialize(&self) -> (r: Option<Vec<u8>>) {
        Some(slice_to_vec(self.as_str().as_bytes()))
    }

    fn deserialize(d: &'a Vec<u8>) -> (r: Option<String>) {
        match text_from_utf8(d.as_slice()) {
            Some(s) => Some(s.to_owned()),
            None => None,
        }
    }
}

impl<'a> ConvertFieldType<'a, String> for &String {
    type Output = String;

    open spec fn spec_type(&self) -> FieldType {
        FieldType::Text
    }

    open spec fn spec_serialize(&self) -> Option<Seq<u8>> {
        Some(text_encoding(self@))
    }

    open spec fn decodable(d: Seq<u8>) -> bool {
        text_decoding(d) is Some
    }

    open spec fn decodes_to(d: Seq<u8>, out: String) -> bool {
        text_decoding(d) == Some(out@)
    }

    fn get_type(&self) -> (t: FieldType) {
        FieldType::Text
    }

    fn serialize(&self) -> (r: Option<Vec<u8>>) {
        Some(slice_to_vec(self.as_str().as_bytes()))
    }

    fn deserialize(d: &'a Vec<u8>) -> (r: Option<String>) {
        match text_from_utf8(d.as_slice()) {
            Some(s) => Some(s.to_owned()),
            None => None,
        }
    }
}

impl<'a> ConvertFieldType<'a, Self> for i8 {
    type Output = i8;

    open spec fn spec_type(&self) -> FieldType {
        FieldType::Int8
    }

    open spec fn spec_serialize(&self) -> Option<Seq<u8>> {
        Some(int8_encoding(*self))
    }

    open spec fn decodable(d: Seq<u8>) -> bool {
        int8_decoding(d) is Some
    }

    open spec fn decodes_to(d: Seq<u8>, out: i8) -> bool {
        int8_decoding(d) == Some(out)
    }

    fn get_type(&self) -> (t: FieldType) {
        FieldType::Int8
    }

    fn serialize(&self) -> (r: Option<Vec<u8>>) {
        let mut buf: Vec<u8> = Vec::new();
        buf.push(*self as u8);
        assert(buf@ =~= int8_encoding(*self));
        Some(buf)
    }

    fn deserialize(d: &'a Vec<u8>) -> (r: Option<i8>) {
        if d.len() == 1 {
            Some(d[0] as i8)
        } else {
            None
        }
    }
}

impl<'a> ConvertFieldType<'a, Self> for u8 {
    type Output = u8;

    open spec fn spec_type(&self) -> FieldType {
        FieldType::UInt8
    }

    open spec fn spec_serialize(&self) -> Option<Seq<u8>> {
        Some(uint8_encoding(*self))
    }

    open spec fn decodable(d: Seq<u8>) -> bool {
        uint8_decoding(d) is Some
    }

    open spec fn decodes_to(d: Seq<u8>, out: u8) -> bool {
        uint8_decoding(d) == Some(out)
    }

    fn get_type(&self) -> (t: FieldType) {
        FieldType::UInt8
    }

    fn serialize(&self) -> (r: Option<Vec<u8>>) {
        let mut buf: Vec<u8> = Vec::new();
        buf.push(*self);
        assert(buf@ =~= uint8_encoding(*self));
        Some(buf)
    }

    fn deserialize(d: &'a Vec<u8>) -> (r: Option<u8>) {
        if d.len() == 1 {
            Some(d[0])
        } else {
            None
        }
    }
}

impl<'a> ConvertFieldType<'a, Self> for i16 {
    type Output = i16;

    open spec fn spec_type(&self) -> FieldType {
        FieldType::Int16
    }

    open spec fn spec_serialize(&self) -> Option<Seq<u8>> {
        Some(int16_encoding(*self))
    }

    open spec fn decodable(d: Seq<u8>) -> bool {
        int16_decoding(d) is Some
    }

    open spec fn decodes_to(d: Seq<u8>, out: i16) -> bool {
        int16_decoding(d) == Some(out)
    }

    fn get_type(&self) -> (t: FieldType) {
        FieldType::Int16
    }

    fn serialize(&self) -> (r: Option<Vec<u8>>) {
        Some(i16_to_le_bytes(*self))
    }

    fn deserialize(d: &'a Vec<u8>) -> (r: Option<i16>) {
        if d.len() == 2 {
            assert(d@.subrange(0, 2) =~= d@);
            Some(i16_from_le_bytes(d.as_slice()))
        } else {
            None
        }
    }
}

impl<'a> ConvertFieldType<'a, Self> for i32 {
    type Output = i32;

    open spec fn spec_type(&self) -> FieldType {
        FieldType::Int32
    }

    open spec fn spec_serialize(&self) -> Option<Seq<u8>> {
        Some(int32_encoding(*self))
    }

    open spec fn decodable(d: Seq<u8>) -> bool {
        int32_decoding(d) is Some
    }

    open spec fn decodes_to(d: Seq<u8>, out: i32) -> bool {
        int32_decoding(d) == Some(out)
    }

    fn get_type(&self) -> (t: FieldType) {
        FieldType::Int32
    }

    fn serialize(&self) -> (r: Option<Vec<u8>>) {
        Some(i32_to_le_bytes(*self))
    }

    fn deserialize(d: &'a Vec<u8>) -> (r: Option<i32>) {
        if d.len() == 4 {
            assert(d@.subrange(0, 4) =~= d@);
            Some(i32_from_le_bytes(d.as_slice()))
        } else {
            None
        }
    }
}

impl<'a> ConvertFieldType<'a, Self> for i64 {
    type Output = i64;

    open spec fn spec_type(&self) -> FieldType {
        FieldType::Int64
    }

    open spec fn spec_serialize(&self) -> Option<Seq<u8>> {
        Some(int64_encoding(*self))
    }

    open spec fn decodable(d: Seq<u8>) -> bool {
        int64_decoding(d) is Some
    }

    open spec fn decodes_to(d: Seq<u8>, out: i64) -> bool {
        int64_decoding(d) == Some(out)
    }

    fn get_type(&self) -> (t: FieldType) {
        FieldType::Int64
    }

    fn serialize(&self) -> (r: Option<Vec<u8>>) {
        Some(i64_to_le_bytes(*self))
    }

    fn deserialize(d: &'a Vec<u8>) -> (r: Option<i64>) {
        if d.len() == 8 {
            assert(d@.subrange(0, 8) =~= d@);
            Some(i64_from_le_bytes(d.as_slice()))
        } else {
            None
        }
    }
}

impl<'a> ConvertFieldType<'a, Self> for u16 {
    type Output = u16;

    open spec fn spec_type(&self) -> FieldType {
        FieldType::UInt16
    }

    open spec fn spec_serialize(&self) -> Option<Seq<u8>> {
        Some(uint16_encoding(*self))
    }

    open spec fn decodable(d: Seq<u8>) -> bool {
        uint16_decoding(d) is Some
    }

    open spec fn decodes_to(d: Seq<u8>, out: u16) -> bool {
        uint16_decoding(d) == Some(out)
    }

    fn get_type(&self) -> (t: FieldType) {
        FieldType::UInt16
    }

    fn serialize(&self) -> (r: Option<Vec<u8>>) {
        Some(u16_to_le_bytes(*self))
    }

    fn deserialize(d: &'a Vec<u8>) -> (r: Option<u16>) {
        if d.len() == 2 {
            assert(d@.subrange(0, 2) =~= d@);
            Some(u16_from_le_bytes(d.as_slice()))
        } else {
            None
        }
    }
}

impl<'a> ConvertFieldType<'a, Self> for u32 {
    type Output = u32;

    open spec fn spec_type(&self) -> FieldType {
        FieldType::UInt32
    }

    open spec fn spec_serialize(&self) -> Option<Seq<u8>> {
        Some(uint32_encoding(*self))
    }

    open spec fn decodable(d: Seq<u8>) -> bool {
        uint32_decoding(d) is Some
    }

    open spec fn decodes_to(d: Seq<u8>, out: u32) -> bool {
        uint32_decoding(d) == Some(out)
    }

    fn get_type(&self) -> (t: FieldType) {
        FieldType::UInt32
    }

    fn serialize(&self) -> (r: Option<Vec<u8>>) {
        Some(u32_to_le_bytes(*self))
    }

    fn deserialize(d: &'a Vec<u8>) -> (r: Option<u32>) {
        if d.len() == 4 {
            assert(d@.subrange(0, 4) =~= d@);
            Some(u32_from_le_bytes(d.as_slice()))
        } else {
            None
        }
    }
}

impl<'a> ConvertFieldType<'a, Self> for u64 {
    type Output = u64;

    open spec fn spec_type(&self) -> FieldType {
        FieldType::UInt64
    }

    open spec fn spec_serialize(&self) -> Option<Seq<u8>> {
        Some(uint64_encoding(*self))
    }

    open spec fn decodable(d: Seq<u8>) -> bool {
        uint64_decoding(d) is Some
    }

    open spec fn decodes_to(d: Seq<u8>, out: u64) -> bool {
        uint64_decoding(d) == Some(out)
    }

    fn get_type(&self) -> (t: FieldType) {
        FieldType::UInt64
    }

    fn serialize(&self) -> (r: Option<Vec<u8>>) {
        Some(u64_to_le_bytes(*self))
    }

    fn deserialize(d: &'a Vec<u8>) -> (r: Option<u64>) {
        if d.len() == 8 {
            assert(d@.subrange(0, 8) =~= d@);
            Some(u64_from_le_bytes(d.as_slice()))
        } else {
            None
        }
    }
}

impl<'a> ConvertFieldType<'a, Self> for Float32Bits {
    type Output = Float32Bits;

    open spec fn spec_type(&self) -> FieldType {
        FieldType::Float32
    }

    open spec fn spec_serialize(&self) -> Option<Seq<u8>> {
        Some(uint32_encoding(self.bits))
    }

    open spec fn decodable(d: Seq<u8>) -> bool {
        uint32_decoding(d) is Some
    }

    open spec fn decodes_to(d: Seq<u8>, out: Float32Bits) -> bool {
        uint32_decoding(d) == Some(out.bits)
    }

    fn get_type(&self) -> (t: FieldType) {
        FieldType::Float32
    }

    fn serialize(&self) -> (r: Option<Vec<u8>>) {
        Some(u32_to_le_bytes(self.bits))
    }

    fn deserialize(d: &'a Vec<u8>) -> (r: Option<Float32Bits>) {
        if d.len() == 4 {
            assert(d@.subrange(0, 4) =~= d@);
            Some(Float32Bits { bits: u32_from_le_bytes(d.as_slice()) })
        } else {
            None
        }
    }
}

impl<'a> ConvertFieldType<'a, Self> for Float64Bits {
    type Output = Float64Bits;

    open spec fn spec_type(&self) -> FieldType {
        FieldType::Float64
    }

    open spec fn spec_serialize(&self) -> Option<Seq<u8>> {
        Some(uint64_encoding(self.bits))
    }

    open spec fn decodable(d: Seq<u8>) -> bool {
        uint64_decoding(d) is Some
    }

    open spec fn decodes_to(d: Seq<u8>, out: Float64Bits) -> bool {
        uint64_decoding(d) == Some(out.bits)
    }

    fn get_type(&self) -> (t: FieldType) {
        FieldType::Float64
    }

    fn serialize(&self) -> (r: Option<Vec<u8>>) {
        Some(u64_to_le_bytes(self.bits))
    }

    fn deserialize(d: &'a Vec<u8>) -> (r: Option<Float64Bits>) {
        if d.len() == 8 {
            assert(d@.subrange(0, 8) =~= d@);
            Some(Float64Bits { bits: u64_from_le_bytes(d.as_slice()) })
        } else {
            None
        }
    }
}

} // verus!
