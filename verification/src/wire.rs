//! The wire encoding that messages are made of: base-128 varints, tags, and
//! the four kinds of field value. Varints are read and written by the
//! `protobuf` crate; what is built on them is verified here.
//!
//! Tags and field values are put together here, and not by the streams of
//! `protobuf`, so that what is written is proved to be read back for every
//! value. Where the two differ, this module is the stricter:
//!
//! - The length before a text, bytes or a nested message counts with all
//!   its 64 bits, in reading and in writing. The streams of `protobuf` read
//!   and write the low 32 bits of it. Below 4 GiB there is no difference.
//! - A length-delimited value has to lie within the bytes that are there,
//!   a nested message too; else the bytes end too early.
//! - Groups, the wire types 3 and 4, are refused. `protobuf` passes over a
//!   group in a field that it does not know.
//! - An unknown field is passed over and forgotten; `protobuf` keeps it and
//!   writes it again.

use protobuf::CodedInputStream;
use protobuf::CodedOutputStream;
use vstd::prelude::*;
use vstd::slice::*;
use vstd::string::*;
use vstd::utf8::*;

verus! {

/// Why bytes could not be decoded.
#[derive(Clone, Copy, Debug, PartialEq, Eq, Structural)]
pub enum WireError {
    /// The bytes end in the middle of a value.
    UnexpectedEof,
    /// A field has another wire type than its number calls for, or one that
    /// is not accepted at all.
    UnexpectedWireType,
    /// A tag has field number zero or a wire type that does not exist.
    IncorrectTag,
    /// A varint goes on for more than ten bytes.
    IncorrectVarint,
    /// A text field does not hold UTF-8.
    Utf8Error,
}

/// The text that describes `e`.
pub open spec fn wire_error_text(e: WireError) -> Seq<char> {
    match e {
        WireError::UnexpectedEof => "unexpected EOF"@,
        WireError::UnexpectedWireType => "unexpected wire type"@,
        WireError::IncorrectTag => "incorrect tag"@,
        WireError::IncorrectVarint => "incorrect varint"@,
        WireError::Utf8Error => "invalid UTF-8 sequence"@,
    }
}

impl WireError {
    /// The text that describes this error.
    pub fn message(&self) -> (s: String)
        ensures
            s@ == wire_error_text(*self),
    {
        match self {
            WireError::UnexpectedEof => String::from_str("unexpected EOF"),
            WireError::UnexpectedWireType => String::from_str("unexpected wire type"),
            WireError::IncorrectTag => String::from_str("incorrect tag"),
            WireError::IncorrectVarint => String::from_str("incorrect varint"),
            WireError::Utf8Error => String::from_str("invalid UTF-8 sequence"),
        }
    }
}

/// The longest a varint may be, in bytes.
pub const VARINT_MAX_BYTES: usize = 10;

/// The bytes of `v` as a varint: seven bits to a byte, least significant
/// first, the top bit of a byte saying that another follows.
pub open spec fn varint_bytes(v: nat) -> Seq<u8>
    decreases v,
{
    if v < 128 {
        seq![v as u8]
    } else {
        seq![(v % 128 + 128) as u8] + varint_bytes(v / 128)
    }
}

/// The varint at the front of `s`, read over at most `budget` bytes: the
/// number that its seven-bit groups make, and how many bytes it takes. `None`
/// when no byte without the top bit is found in time.
pub open spec fn varint_parse(s: Seq<u8>, budget: nat) -> Option<(nat, nat)>
    decreases budget,
{
    if budget == 0 || s.len() == 0 {
        None
    } else if s[0] < 128 {
        Some((s[0] as nat, 1))
    } else {
        match varint_parse(s.drop_first(), (budget - 1) as nat) {
            Some((v, n)) => Some(((s[0] - 128 + 128 * v) as nat, n + 1)),
            None => None,
        }
    }
}

/// The varint at the front of `s` as a 64-bit number, and how many bytes it
/// takes. Of a tenth byte only the lowest bit counts: what does not fit in
/// 64 bits is dropped.
pub open spec fn decode_varint(s: Seq<u8>) -> Option<(u64, nat)> {
    match varint_parse(s, VARINT_MAX_BYTES as nat) {
        Some((v, n)) => Some(((v % 0x1_0000_0000_0000_0000) as u64, n)),
        None => None,
    }
}

/// Why no varint is at the front of `s`, when none is: ten bytes that all
/// announce another are no varint; fewer end too early.
pub open spec fn varint_failure(s: Seq<u8>) -> WireError {
    if s.len() >= VARINT_MAX_BYTES {
        WireError::IncorrectVarint
    } else {
        WireError::UnexpectedEof
    }
}

/// 128 to the power of `k`.
pub open spec fn pow128(k: nat) -> nat
    decreases k,
{
    if k == 0 {
        1
    } else {
        128 * pow128((k - 1) as nat)
    }
}

/// A varint that is found takes at least one byte, no more than the budget
/// and no more than there are.
pub proof fn lemma_varint_parse_bounds(s: Seq<u8>, budget: nat)
    ensures
        varint_parse(s, budget) matches Some((v, n)) ==> 1 <= n <= budget && n <= s.len(),
    decreases budget,
{
    if budget > 0 && s.len() > 0 && s[0] >= 128 {
        lemma_varint_parse_bounds(s.drop_first(), (budget - 1) as nat);
    }
}

/// A number below 128 to the `k` takes at most `k` bytes as a varint.
pub proof fn lemma_varint_bytes_len(v: nat, k: nat)
    requires
        k >= 1,
        v < pow128(k),
    ensures
        1 <= varint_bytes(v).len() <= k,
    decreases v,
{
    if v >= 128 {
        assert(pow128(1) == 128) by {
            reveal_with_fuel(pow128, 2);
        }
        assert(k >= 2);
        assert(pow128(k) == 128 * pow128((k - 1) as nat));
        lemma_varint_bytes_len(v / 128, (k - 1) as nat);
    }
}

/// A 64-bit number takes at most ten bytes as a varint.
pub proof fn lemma_varint_bytes_len_u64(v: u64)
    ensures
        1 <= varint_bytes(v as nat).len() <= VARINT_MAX_BYTES,
{
    assert(pow128(10) == 0x40_0000_0000_0000_0000) by {
        reveal_with_fuel(pow128, 11);
    }
    lemma_varint_bytes_len(v as nat, 10);
}

/// A varint is read back as the number that was written, whatever follows
/// it, if the budget covers its length.
pub proof fn lemma_varint_parse_bytes(v: nat, rest: Seq<u8>, budget: nat)
    requires
        budget >= varint_bytes(v).len(),
    ensures
        varint_parse(varint_bytes(v) + rest, budget) == Some((v, varint_bytes(v).len())),
    decreases v,
{
    let s = varint_bytes(v) + rest;
    if v < 128 {
        assert(s[0] == v);
    } else {
        let tail = varint_bytes(v / 128);
        assert(s[0] == v % 128 + 128);
        assert(s.drop_first() =~= tail + rest);
        lemma_varint_parse_bytes(v / 128, rest, (budget - 1) as nat);
    }
}

/// A 64-bit number is read back from its varint, whatever follows it.
pub proof fn lemma_varint_roundtrip(v: u64, rest: Seq<u8>)
    ensures
        decode_varint(varint_bytes(v as nat) + rest) == Some(
            (v, varint_bytes(v as nat).len()),
        ),
{
    lemma_varint_bytes_len_u64(v);
    lemma_varint_parse_bytes(v as nat, rest, VARINT_MAX_BYTES as nat);
}

/// Reads the varint at the front of `bytes` with `read_raw_varint64` of a
/// `protobuf::CodedInputStream` over them, and asks the stream's `pos` how
/// many bytes that took. The contract claims that the stream ors the low
/// seven bits of each byte into place up to the first byte below 128,
/// dropping what a tenth byte holds beyond 64 bits, and fails when the bytes
/// end first or ten bytes all have the top bit.
#[verifier::external_body]
fn read_raw_varint64(bytes: &[u8]) -> (r: Option<(u64, usize)>)
    ensures
        match decode_varint(bytes@) {
            Some((v, n)) => r == Some((v, n as usize)),
            None => r is None,
        },
{
    let mut is = CodedInputStream::from_bytes(bytes);
    match is.read_raw_varint64() {
        Ok(v) => Some((v, is.pos() as usize)),
        Err(_) => None,
    }
}

/// Appends `v` as a varint with `write_raw_varint64` and `flush` of a
/// `protobuf::CodedOutputStream` over the vector. The contract claims that
/// the stream keeps what the vector held and adds the bytes of `v`; with a
/// vector as its target neither call can fail.
#[verifier::external_body]
fn write_raw_varint64(buf: &mut Vec<u8>, v: u64)
    ensures
        final(buf)@ == old(buf)@ + varint_bytes(v as nat),
{
    let mut os = CodedOutputStream::vec(buf);
    let _ = os.write_raw_varint64(v);
    let _ = os.flush();
}

/// Turns bytes into text with `String::from_utf8`. The contract claims that
/// it succeeds exactly on well-formed UTF-8 and then gives the text that the
/// bytes encode.
#[verifier::external_body]
fn string_from_utf8(bytes: Vec<u8>) -> (r: Option<String>)
    ensures
        r is Some <==> valid_utf8(bytes@),
        r matches Some(s) ==> s@ == decode_utf8(bytes@),
{
    String::from_utf8(bytes).ok()
}

/// The varint at the front of `bytes` and how many bytes it takes, or why
/// there is none.
pub fn read_varint(bytes: &[u8]) -> (r: Result<(u64, usize), WireError>)
    ensures
        match decode_varint(bytes@) {
            Some((v, n)) => r == Ok::<(u64, usize), WireError>((v, n as usize)) && 1 <= n
                <= bytes@.len(),
            None => r == Err::<(u64, usize), WireError>(varint_failure(bytes@)),
        },
{
    proof {
        lemma_varint_parse_bounds(bytes@, VARINT_MAX_BYTES as nat);
    }
    match read_raw_varint64(bytes) {
        Some(found) => Ok(found),
        None => if bytes.len() >= VARINT_MAX_BYTES {
            Err(WireError::IncorrectVarint)
        } else {
            Err(WireError::UnexpectedEof)
        },
    }
}

/// Appends `v` as a varint.
pub fn write_varint(buf: &mut Vec<u8>, v: u64)
    ensures
        final(buf)@ == old(buf)@ + varint_bytes(v as nat),
{
    write_raw_varint64(buf, v)
}

/// The text that `bytes` encode as UTF-8, if they are well formed.
pub fn text_of(bytes: &[u8]) -> (r: Result<String, WireError>)
    ensures
        valid_utf8(bytes@) ==> (r matches Ok(s) && s@ == decode_utf8(bytes@)),
        !valid_utf8(bytes@) ==> r == Err::<String, WireError>(WireError::Utf8Error),
{
    match string_from_utf8(slice_to_vec(bytes)) {
        Some(s) => Ok(s),
        None => Err(WireError::Utf8Error),
    }
}

/// The wire type of a varint.
pub const WIRE_TYPE_VARINT: u8 = 0;

/// The wire type of eight bytes.
pub const WIRE_TYPE_FIXED64: u8 = 1;

/// The wire type of a length, as a varint, and so many bytes.
pub const WIRE_TYPE_LENGTH_DELIMITED: u8 = 2;

/// The wire type of four bytes.
pub const WIRE_TYPE_FIXED32: u8 = 5;

/// The greatest field number.
pub const FIELD_NUMBER_MAX: u32 = 0x1fff_ffff;

/// What a field holds on the wire.
pub enum WireValue {
    Varint(u64),
    Fixed64(Seq<u8>),
    LengthDelimited(Seq<u8>),
    Fixed32(Seq<u8>),
}

/// What a field holds, as it lies in the bytes it was read from.
#[derive(Clone, Copy, Debug, PartialEq, Eq)]
pub enum FieldValue<'a> {
    Varint(u64),
    Fixed64(&'a [u8]),
    LengthDelimited(&'a [u8]),
    Fixed32(&'a [u8]),
}

impl<'a> View for FieldValue<'a> {
    type V = WireValue;

    open spec fn view(&self) -> WireValue {
        match self {
            FieldValue::Varint(v) => WireValue::Varint(*v),
            FieldValue::Fixed64(b) => WireValue::Fixed64(b@),
            FieldValue::LengthDelimited(b) => WireValue::LengthDelimited(b@),
            FieldValue::Fixed32(b) => WireValue::Fixed32(b@),
        }
    }
}

/// The value of wire type `wire_type` at the front of `s`, and how many bytes
/// it takes. Groups, the wire types 3 and 4, are not accepted.
pub open spec fn read_value(wire_type: int, s: Seq<u8>) -> Result<(WireValue, nat), WireError> {
    if wire_type == WIRE_TYPE_VARINT {
        match decode_varint(s) {
            Some((v, n)) => Ok((WireValue::Varint(v), n)),
            None => Err(varint_failure(s)),
        }
    } else if wire_type == WIRE_TYPE_FIXED64 {
        if s.len() < 8 {
            Err(WireError::UnexpectedEof)
        } else {
            Ok((WireValue::Fixed64(s.subrange(0, 8)), 8))
        }
    } else if wire_type == WIRE_TYPE_LENGTH_DELIMITED {
        match decode_varint(s) {
            Some((len, n)) => if s.len() - n < len {
                Err(WireError::UnexpectedEof)
            } else {
                Ok((WireValue::LengthDelimited(s.subrange(n as int, n + len)), (n + len) as nat))
            },
            None => Err(varint_failure(s)),
        }
    } else if wire_type == WIRE_TYPE_FIXED32 {
        if s.len() < 4 {
            Err(WireError::UnexpectedEof)
        } else {
            Ok((WireValue::Fixed32(s.subrange(0, 4)), 4))
        }
    } else {
        Err(WireError::UnexpectedWireType)
    }
}

/// The field at the front of `s`: its number, its value, and how many bytes
/// it takes. A tag is the low 32 bits of a varint: the field number times
/// eight, plus the wire type.
pub open spec fn read_field(s: Seq<u8>) -> Result<(u32, WireValue, nat), WireError> {
    match decode_varint(s) {
        None => Err(varint_failure(s)),
        Some((t, n)) => {
            let tag = t % 0x1_0000_0000;
            if tag % 8 > 5 || tag / 8 == 0 {
                Err(WireError::IncorrectTag)
            } else {
                match read_value((tag % 8) as int, s.subrange(n as int, s.len() as int)) {
                    Ok((value, k)) => Ok(((tag / 8) as u32, value, n + k)),
                    Err(e) => Err(e),
                }
            }
        },
    }
}

/// The bytes of the tag of field `number` with wire type `wire_type`.
pub open spec fn tag_bytes(number: u32, wire_type: u8) -> Seq<u8> {
    varint_bytes((number * 8 + wire_type) as nat)
}

/// The bytes of field `number` holding the varint `v`.
pub open spec fn varint_field(number: u32, v: u64) -> Seq<u8> {
    tag_bytes(number, WIRE_TYPE_VARINT) + varint_bytes(v as nat)
}

/// The bytes of field `number` holding `data`, preceded by its length.
pub open spec fn bytes_field(number: u32, data: Seq<u8>) -> Seq<u8> {
    tag_bytes(number, WIRE_TYPE_LENGTH_DELIMITED) + varint_bytes(data.len()) + data
}

/// A field that is found takes at least two bytes, and no more than there
/// are.
pub proof fn lemma_read_field_bounds(s: Seq<u8>)
    ensures
        read_field(s) matches Ok((number, value, n)) ==> 2 <= n <= s.len() && 1 <= number
            <= FIELD_NUMBER_MAX,
{
    lemma_varint_parse_bounds(s, VARINT_MAX_BYTES as nat);
    if let Some((t, n)) = decode_varint(s) {
        lemma_varint_parse_bounds(s.subrange(n as int, s.len() as int), VARINT_MAX_BYTES as nat);
    }
}

/// A varint field is read back as it was written, whatever follows it.
pub proof fn lemma_read_varint_field(number: u32, v: u64, rest: Seq<u8>)
    requires
        1 <= number <= FIELD_NUMBER_MAX,
    ensures
        read_field(varint_field(number, v) + rest) == Ok::<(u32, WireValue, nat), WireError>(
            (number, WireValue::Varint(v), varint_field(number, v).len()),
        ),
{
    let t: u64 = (number * 8) as u64;
    let tag = tag_bytes(number, WIRE_TYPE_VARINT);
    let s = varint_field(number, v) + rest;
    let after = varint_bytes(v as nat) + rest;
    assert(s =~= tag + after);
    lemma_varint_roundtrip(t, after);
    assert(s.subrange(tag.len() as int, s.len() as int) =~= after);
    lemma_varint_roundtrip(v, rest);
}

/// A length-delimited field is read back as it was written, whatever follows
/// it.
pub proof fn lemma_read_bytes_field(number: u32, data: Seq<u8>, rest: Seq<u8>)
    requires
        1 <= number <= FIELD_NUMBER_MAX,
        data.len() <= u64::MAX,
    ensures
        read_field(bytes_field(number, data) + rest) == Ok::<(u32, WireValue, nat), WireError>(
            (number, WireValue::LengthDelimited(data), bytes_field(number, data).len()),
        ),
{
    let t: u64 = (number * 8 + 2) as u64;
    let tag = tag_bytes(number, WIRE_TYPE_LENGTH_DELIMITED);
    let len = varint_bytes(data.len());
    let s = bytes_field(number, data) + rest;
    let after = len + data + rest;
    assert(s =~= tag + after);
    lemma_varint_roundtrip(t, after);
    assert(s.subrange(tag.len() as int, s.len() as int) =~= after);
    assert(after =~= len + (data + rest));
    lemma_varint_roundtrip(data.len() as u64, data + rest);
    assert(after.subrange(len.len() as int, (len.len() + data.len()) as int) =~= data);
}

/// The field at the front of `bytes`: its number, its value, and how many
/// bytes it takes; or why there is none.
pub fn read_field_from<'a>(bytes: &'a [u8]) -> (r: Result<(u32, FieldValue<'a>, usize), WireError>)
    ensures
        match read_field(bytes@) {
            Ok((number, value, n)) => r matches Ok(f) && f.0 == number && f.1@ == value && f.2
                == n && 2 <= n <= bytes@.len(),
            Err(e) => r matches Err(err) && err == e,
        },
{
    proof {
        lemma_read_field_bounds(bytes@);
    }
    let (t, n) = match read_varint(bytes) {
        Ok(found) => found,
        Err(e) => {
            return Err(e);
        },
    };
    let tag: u64 = t % 0x1_0000_0000;
    let wire_type: u64 = tag % 8;
    let number: u32 = (tag / 8) as u32;
    if wire_type > 5 || number == 0 {
        return Err(WireError::IncorrectTag);
    }
    let rest = slice_subrange(bytes, n, bytes.len());
    if wire_type == 0 {
        match read_varint(rest) {
            Ok((v, k)) => Ok((number, FieldValue::Varint(v), n + k)),
            Err(e) => Err(e),
        }
    } else if wire_type == 1 {
        if rest.len() < 8 {
            Err(WireError::UnexpectedEof)
        } else {
            Ok((number, FieldValue::Fixed64(slice_subrange(rest, 0, 8)), n + 8))
        }
    } else if wire_type == 2 {
        match read_varint(rest) {
            Ok((len, k)) => {
                if ((rest.len() - k) as u64) < len {
                    Err(WireError::UnexpectedEof)
                } else {
                    let end: usize = k + len as usize;
                    Ok((number, FieldValue::LengthDelimited(slice_subrange(rest, k, end)), n + end))
                }
            },
            Err(e) => Err(e),
        }
    } else if wire_type == 5 {
        if rest.len() < 4 {
            Err(WireError::UnexpectedEof)
        } else {
            Ok((number, FieldValue::Fixed32(slice_subrange(rest, 0, 4)), n + 4))
        }
    } else {
        Err(WireError::UnexpectedWireType)
    }
}

/// Appends field `number` holding the varint `v`.
pub fn write_varint_field(buf: &mut Vec<u8>, number: u32, v: u64)
    requires
        1 <= number <= FIELD_NUMBER_MAX,
    ensures
        final(buf)@ == old(buf)@ + varint_field(number, v),
{
    write_raw_varint64(buf, number as u64 * 8);
    write_raw_varint64(buf, v);
    assert(buf@ =~= old(buf)@ + varint_field(number, v));
}

/// Appends field `number` holding `data`, preceded by its length.
pub fn write_bytes_field(buf: &mut Vec<u8>, number: u32, data: &[u8])
    requires
        1 <= number <= FIELD_NUMBER_MAX,
    ensures
        final(buf)@ == old(buf)@ + bytes_field(number, data@),
{
    write_raw_varint64(buf, number as u64 * 8 + 2);
    write_raw_varint64(buf, data.len() as u64);
    buf.extend_from_slice(data);
    assert(buf@ =~= old(buf)@ + bytes_field(number, data@));
}

/// The bytes of a text field: nothing for the empty text, which is the
/// default; else the field with the text as UTF-8.
pub open spec fn text_field(number: u32, text: Seq<char>) -> Seq<u8> {
    if text.len() == 0 {
        Seq::empty()
    } else {
        bytes_field(number, encode_utf8(text))
    }
}

/// The bytes of a field of bytes: nothing when there are none, which is the
/// default.
pub open spec fn data_field(number: u32, data: Seq<u8>) -> Seq<u8> {
    if data.len() == 0 {
        Seq::empty()
    } else {
        bytes_field(number, data)
    }
}

/// The bytes of a number field: nothing for zero, which is the default.
pub open spec fn number_field(number: u32, v: u64) -> Seq<u8> {
    if v == 0 {
        Seq::empty()
    } else {
        varint_field(number, v)
    }
}

/// The text that a field value holds: it has to be length-delimited UTF-8.
pub open spec fn text_value(value: WireValue) -> Result<Seq<char>, WireError> {
    match value {
        WireValue::LengthDelimited(b) => if valid_utf8(b) {
            Ok(decode_utf8(b))
        } else {
            Err(WireError::Utf8Error)
        },
        _ => Err(WireError::UnexpectedWireType),
    }
}

/// The bytes that a field value holds: it has to be length-delimited.
pub open spec fn data_value(value: WireValue) -> Result<Seq<u8>, WireError> {
    match value {
        WireValue::LengthDelimited(b) => Ok(b),
        _ => Err(WireError::UnexpectedWireType),
    }
}

/// The number that a field value holds: it has to be a varint.
pub open spec fn number_value(value: WireValue) -> Result<u64, WireError> {
    match value {
        WireValue::Varint(v) => Ok(v),
        _ => Err(WireError::UnexpectedWireType),
    }
}

/// The 64 bits of `v` as an unsigned number, in two's complement.
pub open spec fn bits_of_i64(v: i64) -> u64 {
    if v >= 0 {
        v as u64
    } else {
        (v + 0x1_0000_0000_0000_0000) as u64
    }
}

/// The signed number whose 64 bits in two's complement are `v`.
pub open spec fn i64_of_bits(v: u64) -> i64 {
    if v < 0x8000_0000_0000_0000 {
        v as i64
    } else {
        (v - 0x1_0000_0000_0000_0000) as i64
    }
}

/// The signed number whose 32 bits in two's complement are the low 32 bits
/// of `v`.
pub open spec fn i32_of_low_bits(v: u64) -> i32 {
    if v % 0x1_0000_0000 < 0x8000_0000 {
        (v % 0x1_0000_0000) as i32
    } else {
        (v % 0x1_0000_0000 - 0x1_0000_0000) as i32
    }
}

/// The 64 bits of `v` as an unsigned number, in two's complement.
pub fn i64_to_bits(v: i64) -> (u: u64)
    ensures
        u == bits_of_i64(v),
        i64_of_bits(u) == v,
{
    if v >= 0 {
        v as u64
    } else {
        let below: u64 = (-(v + 1)) as u64;
        u64::MAX - below
    }
}

/// The signed number whose 64 bits in two's complement are `v`.
pub fn i64_from_bits(v: u64) -> (i: i64)
    ensures
        i == i64_of_bits(v),
{
    if v < 0x8000_0000_0000_0000 {
        v as i64
    } else {
        let below: u64 = u64::MAX - v;
        -(below as i64) - 1
    }
}

/// The signed number whose 32 bits in two's complement are the low 32 bits
/// of `v`.
pub fn i32_from_low_bits(v: u64) -> (i: i32)
    ensures
        i == i32_of_low_bits(v),
{
    let low: u64 = v % 0x1_0000_0000;
    if low < 0x8000_0000 {
        low as i32
    } else {
        let below: u64 = 0xffff_ffff - low;
        -(below as i32) - 1
    }
}

/// The text that `value` holds, or why it holds none.
pub fn value_text(value: &FieldValue<'_>) -> (r: Result<String, WireError>)
    ensures
        match text_value(value@) {
            Ok(t) => r matches Ok(s) && s@ == t,
            Err(e) => r matches Err(err) && err == e,
        },
{
    match value {
        FieldValue::LengthDelimited(b) => text_of(b),
        _ => Err(WireError::UnexpectedWireType),
    }
}

/// The bytes that `value` holds, or why it holds none.
pub fn value_data(value: &FieldValue<'_>) -> (r: Result<Vec<u8>, WireError>)
    ensures
        match data_value(value@) {
            Ok(d) => r matches Ok(v) && v@ == d,
            Err(e) => r matches Err(err) && err == e,
        },
{
    match value {
        FieldValue::LengthDelimited(b) => Ok(slice_to_vec(b)),
        _ => Err(WireError::UnexpectedWireType),
    }
}

/// The number that `value` holds, or why it holds none.
pub fn value_number(value: &FieldValue<'_>) -> (r: Result<u64, WireError>)
    ensures
        r == number_value(value@),
{
    match value {
        FieldValue::Varint(v) => Ok(*v),
        _ => Err(WireError::UnexpectedWireType),
    }
}

/// Appends the text field `number`, unless the text is empty.
pub fn write_text_field(buf: &mut Vec<u8>, number: u32, text: &str)
    requires
        1 <= number <= FIELD_NUMBER_MAX,
    ensures
        final(buf)@ == old(buf)@ + text_field(number, text@),
        encode_utf8(text@).len() <= usize::MAX,
{
    let bytes = text.as_bytes();
    if bytes.len() == 0 {
        assert(text@.len() == 0) by {
            if text@.len() > 0 {
                encode_utf8_first_scalar(text@);
            }
        }
        assert(buf@ =~= old(buf)@ + text_field(number, text@));
    } else {
        write_bytes_field(buf, number, bytes);
    }
}

/// Appends the field `number` of bytes, unless there are none.
pub fn write_data_field(buf: &mut Vec<u8>, number: u32, data: &[u8])
    requires
        1 <= number <= FIELD_NUMBER_MAX,
    ensures
        final(buf)@ == old(buf)@ + data_field(number, data@),
{
    if data.len() == 0 {
        assert(buf@ =~= old(buf)@ + data_field(number, data@));
    } else {
        write_bytes_field(buf, number, data);
    }
}

/// Appends the number field `number`, unless the number is zero.
pub fn write_number_field(buf: &mut Vec<u8>, number: u32, v: u64)
    requires
        1 <= number <= FIELD_NUMBER_MAX,
    ensures
        final(buf)@ == old(buf)@ + number_field(number, v),
{
    if v == 0 {
        assert(buf@ =~= old(buf)@ + number_field(number, v));
    } else {
        write_varint_field(buf, number, v);
    }
}

} // verus!
