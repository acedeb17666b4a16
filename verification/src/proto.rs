//! The two messages that frames carry, a request and a response, and how
//! they are told to and from bytes.

use crate::error::{code_number, code_of_number, Code, Status, StatusView};
use crate::wire::{
    bytes_field, data_field, data_value, i32_from_low_bits, i32_of_low_bits, i64_from_bits,
    i64_of_bits, i64_to_bits, bits_of_i64, lemma_read_bytes_field, lemma_read_field_bounds,
    lemma_read_varint_field, number_field, number_value, read_field, read_field_from, text_field,
    text_value, value_data, value_number, value_text, varint_field, write_bytes_field,
    write_data_field, write_number_field, write_text_field, FieldValue, WireError, WireValue,
};
use vstd::prelude::*;
use vstd::slice::*;
use vstd::string::*;
use vstd::utf8::*;

verus! {

/// A message: a record whose fields are numbered, told to bytes field by
/// field and told from bytes by merging the fields found into it.
pub trait Message: View + Sized {
    /// The message of which every field has its default.
    spec fn empty() -> Self::V;

    /// The message `m` after field `number` holding `value` was merged into
    /// it, or why that field is not accepted.
    spec fn with_field(m: Self::V, number: u32, value: WireValue) -> Result<Self::V, WireError>;

    /// The bytes of `m`.
    spec fn bytes(m: Self::V) -> Seq<u8>;

    /// Whether every length in `m` can be written down: each fits in 64 bits.
    spec fn encodable(m: Self::V) -> bool;

    /// A message of which every field has its default.
    fn new() -> (m: Self)
        ensures
            m@ == Self::empty(),
    ;

    /// Merges field `number` holding `value` into this message. Nothing is
    /// said of what the message holds after an error.
    fn merge_field(&mut self, number: u32, value: FieldValue<'_>) -> (r: Result<(), WireError>)
        ensures
            match Self::with_field(old(self)@, number, value@) {
                Ok(next) => r is Ok && final(self)@ == next,
                Err(e) => r == Err::<(), WireError>(e),
            },
    ;

    /// Appends the bytes of this message.
    fn write_to(&self, buf: &mut Vec<u8>)
        ensures
            final(buf)@ == old(buf)@ + Self::bytes(self@),
            Self::encodable(self@),
    ;
}

/// The message `acc` after every field in `s` was merged into it in turn, or
/// the first reason why one could not be.
pub open spec fn merge<M: Message>(s: Seq<u8>, acc: M::V) -> Result<M::V, WireError>
    decreases s.len(),
{
    if s.len() == 0 {
        Ok(acc)
    } else {
        match read_field(s) {
            Err(e) => Err(e),
            Ok((number, value, n)) => match M::with_field(acc, number, value) {
                Err(e) => Err(e),
                Ok(next) => {
                    proof {
                        lemma_read_field_bounds(s);
                    }
                    merge::<M>(s.subrange(n as int, s.len() as int), next)
                },
            },
        }
    }
}

/// The message that `s` stands for: what merging `s` into the message of
/// defaults gives.
pub open spec fn decode<M: Message>(s: Seq<u8>) -> Result<M::V, WireError> {
    merge::<M>(s, M::empty())
}

/// One step of merging: bytes that start with a field give what the rest
/// gives, merged into the message with that field.
pub proof fn lemma_merge_field<M: Message>(
    field: Seq<u8>,
    rest: Seq<u8>,
    acc: M::V,
    number: u32,
    value: WireValue,
)
    requires
        field.len() > 0,
        read_field(field + rest) == Ok::<(u32, WireValue, nat), WireError>(
            (number, value, field.len()),
        ),
    ensures
        merge::<M>(field + rest, acc) == match M::with_field(acc, number, value) {
            Ok(next) => merge::<M>(rest, next),
            Err(e) => Err(e),
        },
{
    let s = field + rest;
    assert(s.subrange(field.len() as int, s.len() as int) =~= rest);
}

/// Merges every field in `bytes` into `m`.
pub fn merge_from<M: Message>(m: &mut M, bytes: &[u8]) -> (r: Result<(), WireError>)
    ensures
        match merge::<M>(bytes@, old(m)@) {
            Ok(merged) => r is Ok && final(m)@ == merged,
            Err(e) => r == Err::<(), WireError>(e),
        },
{
    let mut rest: &[u8] = bytes;
    while rest.len() > 0
        invariant
            merge::<M>(bytes@, old(m)@) == merge::<M>(rest@, m@),
        decreases rest@.len(),
    {
        let (number, value, n) = match read_field_from(rest) {
            Ok(found) => found,
            Err(e) => {
                return Err(e);
            },
        };
        match m.merge_field(number, value) {
            Ok(()) => {},
            Err(e) => {
                return Err(e);
            },
        }
        rest = slice_subrange(rest, n, rest.len());
    }
    Ok(())
}

/// The message that `bytes` stand for, or why they stand for none.
pub fn parse_from_bytes<M: Message>(bytes: &[u8]) -> (r: Result<M, WireError>)
    ensures
        match decode::<M>(bytes@) {
            Ok(m) => r matches Ok(found) && found@ == m,
            Err(e) => r matches Err(err) && err == e,
        },
{
    let mut m = M::new();
    match merge_from(&mut m, bytes) {
        Ok(()) => Ok(m),
        Err(e) => Err(e),
    }
}

/// The bytes of `m`.
pub fn write_to_bytes<M: Message>(m: &M) -> (out: Vec<u8>)
    ensures
        out@ == M::bytes(m@),
        M::encodable(m@),
{
    let mut out: Vec<u8> = Vec::new();
    m.write_to(&mut out);
    assert(out@ =~= M::bytes(m@));
    out
}

/// A key with its value, as requests carry them.
#[derive(Clone, Debug, PartialEq, Eq)]
pub struct KeyValue {
    pub key: String,
    pub value: String,
}

/// What a `KeyValue` holds, as mathematical values.
pub struct KeyValueView {
    pub key: Seq<char>,
    pub value: Seq<char>,
}

impl View for KeyValue {
    type V = KeyValueView;

    open spec fn view(&self) -> KeyValueView {
        KeyValueView { key: self.key@, value: self.value@ }
    }
}

impl Message for KeyValue {
    open spec fn empty() -> KeyValueView {
        KeyValueView { key: Seq::empty(), value: Seq::empty() }
    }

    open spec fn with_field(m: KeyValueView, number: u32, value: WireValue) -> Result<
        KeyValueView,
        WireError,
    > {
        if number == 1 {
            match text_value(value) {
                Ok(key) => Ok(KeyValueView { key, ..m }),
                Err(e) => Err(e),
            }
        } else if number == 2 {
            match text_value(value) {
                Ok(value) => Ok(KeyValueView { value, ..m }),
                Err(e) => Err(e),
            }
        } else {
            Ok(m)
        }
    }

    open spec fn bytes(m: KeyValueView) -> Seq<u8> {
        text_field(1, m.key) + text_field(2, m.value)
    }

    open spec fn encodable(m: KeyValueView) -> bool {
        &&& encode_utf8(m.key).len() <= u64::MAX
        &&& encode_utf8(m.value).len() <= u64::MAX
    }

    fn new() -> (m: KeyValue) {
        KeyValue { key: String::new(), value: String::new() }
    }

    fn merge_field(&mut self, number: u32, value: FieldValue<'_>) -> (r: Result<(), WireError>) {
        if number == 1 {
            match value_text(&value) {
                Ok(key) => {
                    self.key = key;
                    Ok(())
                },
                Err(e) => Err(e),
            }
        } else if number == 2 {
            match value_text(&value) {
                Ok(value) => {
                    self.value = value;
                    Ok(())
                },
                Err(e) => Err(e),
            }
        } else {
            Ok(())
        }
    }

    fn write_to(&self, buf: &mut Vec<u8>) {
        write_text_field(buf, 1, self.key.as_str());
        write_text_field(buf, 2, self.value.as_str());
        assert(buf@ =~= old(buf)@ + Self::bytes(self@));
    }
}

/// Merging a text field into a message: nothing for the empty text, else
/// what the message makes of the text.
pub proof fn lemma_merge_text_field<M: Message>(
    number: u32,
    text: Seq<char>,
    rest: Seq<u8>,
    acc: M::V,
)
    requires
        1 <= number <= crate::wire::FIELD_NUMBER_MAX,
        encode_utf8(text).len() <= u64::MAX,
    ensures
        text_value(WireValue::LengthDelimited(encode_utf8(text))) == Ok::<Seq<char>, WireError>(
            text,
        ),
        merge::<M>(text_field(number, text) + rest, acc) == if text.len() == 0 {
            merge::<M>(rest, acc)
        } else {
            match M::with_field(acc, number, WireValue::LengthDelimited(encode_utf8(text))) {
                Ok(next) => merge::<M>(rest, next),
                Err(e) => Err(e),
            }
        },
{
    encode_utf8_valid_utf8(text);
    encode_utf8_decode_utf8(text);
    if text.len() == 0 {
        assert(text_field(number, text) + rest =~= rest);
    } else {
        let data = encode_utf8(text);
        lemma_read_bytes_field(number, data, rest);
        lemma_merge_field::<M>(
            bytes_field(number, data),
            rest,
            acc,
            number,
            WireValue::LengthDelimited(data),
        );
    }
}

/// Merging a field of bytes into a message: nothing when there are none,
/// else what the message makes of the bytes.
pub proof fn lemma_merge_data_field<M: Message>(
    number: u32,
    data: Seq<u8>,
    rest: Seq<u8>,
    acc: M::V,
)
    requires
        1 <= number <= crate::wire::FIELD_NUMBER_MAX,
        data.len() <= u64::MAX,
    ensures
        merge::<M>(data_field(number, data) + rest, acc) == if data.len() == 0 {
            merge::<M>(rest, acc)
        } else {
            match M::with_field(acc, number, WireValue::LengthDelimited(data)) {
                Ok(next) => merge::<M>(rest, next),
                Err(e) => Err(e),
            }
        },
{
    if data.len() == 0 {
        assert(data_field(number, data) + rest =~= rest);
    } else {
        lemma_read_bytes_field(number, data, rest);
        lemma_merge_field::<M>(
            bytes_field(number, data),
            rest,
            acc,
            number,
            WireValue::LengthDelimited(data),
        );
    }
}

/// Merging a field that is written even when it holds no bytes.
pub proof fn lemma_merge_bytes_field<M: Message>(
    number: u32,
    data: Seq<u8>,
    rest: Seq<u8>,
    acc: M::V,
)
    requires
        1 <= number <= crate::wire::FIELD_NUMBER_MAX,
        data.len() <= u64::MAX,
    ensures
        merge::<M>(bytes_field(number, data) + rest, acc) == match M::with_field(
            acc,
            number,
            WireValue::LengthDelimited(data),
        ) {
            Ok(next) => merge::<M>(rest, next),
            Err(e) => Err(e),
        },
{
    lemma_read_bytes_field(number, data, rest);
    lemma_bytes_field_nonempty(number, data);
    lemma_merge_field::<M>(
        bytes_field(number, data),
        rest,
        acc,
        number,
        WireValue::LengthDelimited(data),
    );
}

/// A length-delimited field takes at least one byte.
proof fn lemma_bytes_field_nonempty(number: u32, data: Seq<u8>)
    ensures
        bytes_field(number, data).len() > 0,
{
    crate::wire::lemma_varint_bytes_len_u64(0);
    let t = (number * 8 + 2) as nat;
    assert(crate::wire::varint_bytes(t).len() > 0);
}

/// Merging a number field into a message: nothing for zero, else what the
/// message makes of the number.
pub proof fn lemma_merge_number_field<M: Message>(number: u32, v: u64, rest: Seq<u8>, acc: M::V)
    requires
        1 <= number <= crate::wire::FIELD_NUMBER_MAX,
    ensures
        merge::<M>(number_field(number, v) + rest, acc) == if v == 0 {
            merge::<M>(rest, acc)
        } else {
            match M::with_field(acc, number, WireValue::Varint(v)) {
                Ok(next) => merge::<M>(rest, next),
                Err(e) => Err(e),
            }
        },
{
    if v == 0 {
        assert(number_field(number, v) + rest =~= rest);
    } else {
        lemma_read_varint_field(number, v, rest);
        let t = (number * 8) as nat;
        assert(crate::wire::varint_bytes(t).len() > 0);
        lemma_merge_field::<M>(varint_field(number, v), rest, acc, number, WireValue::Varint(v));
    }
}

/// A key with its value is told from its bytes as it was told to them.
pub proof fn lemma_key_value_roundtrip(m: KeyValueView)
    requires
        KeyValue::encodable(m),
    ensures
        decode::<KeyValue>(KeyValue::bytes(m)) == Ok::<KeyValueView, WireError>(m),
{
    let empty = KeyValue::empty();
    let second = text_field(2, m.value);
    lemma_merge_text_field::<KeyValue>(1, m.key, second, empty);
    let with_key = KeyValueView { key: m.key, ..empty };
    assert(second =~= second + Seq::<u8>::empty());
    lemma_merge_text_field::<KeyValue>(2, m.value, Seq::empty(), with_key);
}

impl Message for Status {
    open spec fn empty() -> StatusView {
        StatusView { code: Code::OK, message: Seq::empty() }
    }

    open spec fn with_field(m: StatusView, number: u32, value: WireValue) -> Result<
        StatusView,
        WireError,
    > {
        if number == 1 {
            match number_value(value) {
                Ok(v) => match code_of_number(i32_of_low_bits(v) as int) {
                    Some(code) => Ok(StatusView { code, ..m }),
                    None => Ok(m),
                },
                Err(e) => Err(e),
            }
        } else if number == 2 {
            match text_value(value) {
                Ok(message) => Ok(StatusView { message, ..m }),
                Err(e) => Err(e),
            }
        } else {
            Ok(m)
        }
    }

    open spec fn bytes(m: StatusView) -> Seq<u8> {
        number_field(1, code_number(m.code) as u64) + text_field(2, m.message)
    }

    open spec fn encodable(m: StatusView) -> bool {
        encode_utf8(m.message).len() <= u64::MAX
    }

    fn new() -> (m: Status) {
        Status { code: Code::OK, message: String::new() }
    }

    fn merge_field(&mut self, number: u32, value: FieldValue<'_>) -> (r: Result<(), WireError>) {
        if number == 1 {
            match value_number(&value) {
                Ok(v) => {
                    match Code::from_i32(i32_from_low_bits(v)) {
                        Some(code) => {
                            self.code = code;
                        },
                        None => {},
                    }
                    Ok(())
                },
                Err(e) => Err(e),
            }
        } else if number == 2 {
            match value_text(&value) {
                Ok(message) => {
                    self.message = message;
                    Ok(())
                },
                Err(e) => Err(e),
            }
        } else {
            Ok(())
        }
    }

    fn write_to(&self, buf: &mut Vec<u8>) {
        write_number_field(buf, 1, self.code.value() as u64);
        write_text_field(buf, 2, self.message.as_str());
        assert(buf@ =~= old(buf)@ + Self::bytes(self@));
    }
}

/// A status is told from its bytes as it was told to them.
pub proof fn lemma_status_roundtrip(m: StatusView)
    requires
        Status::encodable(m),
    ensures
        decode::<Status>(Status::bytes(m)) == Ok::<StatusView, WireError>(m),
{
    let empty = Status::empty();
    let second = text_field(2, m.message);
    let n = code_number(m.code) as u64;
    crate::error::lemma_code_number_roundtrip(m.code);
    lemma_merge_number_field::<Status>(1, n, second, empty);
    let with_code = StatusView { code: m.code, ..empty };
    assert(second =~= second + Seq::<u8>::empty());
    lemma_merge_text_field::<Status>(2, m.message, Seq::empty(), with_code);
}

/// The payload of a request frame: which method of which service is called,
/// and with what.
#[derive(Clone, Debug, PartialEq, Eq)]
pub struct Request {
    pub service: String,
    pub method: String,
    /// Carried, and left to the handler to honour.
    pub timeout_nano: i64,
    pub metadata: Vec<KeyValue>,
    pub payload: Vec<u8>,
}

/// What a `Request` holds, as mathematical values.
pub struct RequestView {
    pub service: Seq<char>,
    pub method: Seq<char>,
    pub timeout_nano: i64,
    pub metadata: Seq<KeyValueView>,
    pub payload: Seq<u8>,
}

impl View for Request {
    type V = RequestView;

    open spec fn view(&self) -> RequestView {
        RequestView {
            service: self.service@,
            method: self.method@,
            timeout_nano: self.timeout_nano,
            metadata: self.metadata@.map_values(|kv: KeyValue| kv@),
            payload: self.payload@,
        }
    }
}

/// The bytes of the metadata of a request: one field for each entry, in
/// order.
pub open spec fn metadata_bytes(items: Seq<KeyValueView>) -> Seq<u8>
    decreases items.len(),
{
    if items.len() == 0 {
        Seq::empty()
    } else {
        bytes_field(5, KeyValue::bytes(items[0])) + metadata_bytes(items.drop_first())
    }
}

/// Whether every entry of `items` can be written down.
pub open spec fn metadata_encodable(items: Seq<KeyValueView>) -> bool {
    forall|i: int|
        0 <= i < items.len() ==> KeyValue::encodable(#[trigger] items[i]) && KeyValue::bytes(
            items[i],
        ).len() <= u64::MAX
}

/// The bytes of entries that follow others follow the bytes of those.
pub proof fn lemma_metadata_bytes_concat(a: Seq<KeyValueView>, b: Seq<KeyValueView>)
    ensures
        metadata_bytes(a + b) == metadata_bytes(a) + metadata_bytes(b),
    decreases a.len(),
{
    if a.len() == 0 {
        assert(a + b =~= b);
        assert(metadata_bytes(a) + metadata_bytes(b) =~= metadata_bytes(b));
    } else {
        assert((a + b).drop_first() =~= a.drop_first() + b);
        assert((a + b)[0] == a[0]);
        lemma_metadata_bytes_concat(a.drop_first(), b);
        let head = bytes_field(5, KeyValue::bytes(a[0]));
        assert(head + (metadata_bytes(a.drop_first()) + metadata_bytes(b)) =~= (head
            + metadata_bytes(a.drop_first())) + metadata_bytes(b));
    }
}

impl Message for Request {
    open spec fn empty() -> RequestView {
        RequestView {
            service: Seq::empty(),
            method: Seq::empty(),
            timeout_nano: 0,
            metadata: Seq::empty(),
            payload: Seq::empty(),
        }
    }

    open spec fn with_field(m: RequestView, number: u32, value: WireValue) -> Result<
        RequestView,
        WireError,
    > {
        if number == 1 {
            match text_value(value) {
                Ok(service) => Ok(RequestView { service, ..m }),
                Err(e) => Err(e),
            }
        } else if number == 2 {
            match text_value(value) {
                Ok(method) => Ok(RequestView { method, ..m }),
                Err(e) => Err(e),
            }
        } else if number == 3 {
            match data_value(value) {
                Ok(payload) => Ok(RequestView { payload, ..m }),
                Err(e) => Err(e),
            }
        } else if number == 4 {
            match number_value(value) {
                Ok(v) => Ok(RequestView { timeout_nano: i64_of_bits(v), ..m }),
                Err(e) => Err(e),
            }
        } else if number == 5 {
            match data_value(value) {
                Ok(data) => match decode::<KeyValue>(data) {
                    Ok(entry) => Ok(RequestView { metadata: m.metadata.push(entry), ..m }),
                    Err(e) => Err(e),
                },
                Err(e) => Err(e),
            }
        } else {
            Ok(m)
        }
    }

    open spec fn bytes(m: RequestView) -> Seq<u8> {
        text_field(1, m.service) + text_field(2, m.method) + data_field(3, m.payload)
            + number_field(4, bits_of_i64(m.timeout_nano)) + metadata_bytes(m.metadata)
    }

    open spec fn encodable(m: RequestView) -> bool {
        &&& encode_utf8(m.service).len() <= u64::MAX
        &&& encode_utf8(m.method).len() <= u64::MAX
        &&& m.payload.len() <= u64::MAX
        &&& metadata_encodable(m.metadata)
    }

    fn new() -> (m: Request) {
        let m = Request {
            service: String::new(),
            method: String::new(),
            timeout_nano: 0,
            metadata: Vec::new(),
            payload: Vec::new(),
        };
        assert(m@.metadata =~= Seq::empty());
        m
    }

    fn merge_field(&mut self, number: u32, value: FieldValue<'_>) -> (r: Result<(), WireError>) {
        if number == 1 {
            match value_text(&value) {
                Ok(service) => {
                    self.service = service;
                    Ok(())
                },
                Err(e) => Err(e),
            }
        } else if number == 2 {
            match value_text(&value) {
                Ok(method) => {
                    self.method = method;
                    Ok(())
                },
                Err(e) => Err(e),
            }
        } else if number == 3 {
            match value_data(&value) {
                Ok(payload) => {
                    self.payload = payload;
                    Ok(())
                },
                Err(e) => Err(e),
            }
        } else if number == 4 {
            match value_number(&value) {
                Ok(v) => {
                    self.timeout_nano = i64_from_bits(v);
                    Ok(())
                },
                Err(e) => Err(e),
            }
        } else if number == 5 {
            match value {
                FieldValue::LengthDelimited(data) => match parse_from_bytes::<KeyValue>(data) {
                    Ok(entry) => {
                        self.metadata.push(entry);
                        assert(self@.metadata =~= old(self)@.metadata.push(entry@));
                        Ok(())
                    },
                    Err(e) => Err(e),
                },
                _ => Err(WireError::UnexpectedWireType),
            }
        } else {
            Ok(())
        }
    }

    fn write_to(&self, buf: &mut Vec<u8>) {
        write_text_field(buf, 1, self.service.as_str());
        write_text_field(buf, 2, self.method.as_str());
        write_data_field(buf, 3, self.payload.as_slice());
        write_number_field(buf, 4, i64_to_bits(self.timeout_nano));
        let ghost head = buf@;
        let ghost items = self@.metadata;
        assert(head =~= old(buf)@ + (text_field(1, self@.service) + text_field(2, self@.method)
            + data_field(3, self@.payload) + number_field(4, bits_of_i64(self@.timeout_nano))));
        assert(items.take(0) =~= Seq::<KeyValueView>::empty());
        let mut i: usize = 0;
        while i < self.metadata.len()
            invariant
                0 <= i <= self.metadata.len(),
                items == self@.metadata,
                items.len() == self.metadata.len(),
                buf@ == head + metadata_bytes(items.take(i as int)),
                forall|j: int|
                    0 <= j < i ==> KeyValue::encodable(#[trigger] items[j]) && KeyValue::bytes(
                        items[j],
                    ).len() <= u64::MAX,
            decreases self.metadata.len() - i,
        {
            let entry = write_to_bytes(&self.metadata[i]);
            let entry_len = entry.len();
            write_bytes_field(buf, 5, entry.as_slice());
            proof {
                let one = seq![items[i as int]];
                assert(items[i as int] == self.metadata@[i as int]@);
                assert(items.take(i + 1) =~= items.take(i as int) + one);
                lemma_metadata_bytes_concat(items.take(i as int), one);
                assert(one.drop_first() =~= Seq::<KeyValueView>::empty());
                assert(metadata_bytes(one.drop_first()) =~= Seq::<u8>::empty());
                assert(metadata_bytes(one) =~= bytes_field(5, KeyValue::bytes(items[i as int])));
                assert(buf@ =~= head + metadata_bytes(items.take(i + 1)));
            }
            i = i + 1;
        }
        let payload_len = self.payload.len();
        assert(items.take(i as int) =~= items);
        assert(buf@ =~= old(buf)@ + Self::bytes(self@));
    }
}

/// Merging the fields of metadata entries into a request adds the entries,
/// in order, to those it holds.
pub proof fn lemma_merge_metadata(items: Seq<KeyValueView>, acc: RequestView)
    requires
        metadata_encodable(items),
    ensures
        merge::<Request>(metadata_bytes(items), acc) == Ok::<RequestView, WireError>(
            RequestView { metadata: acc.metadata + items, ..acc },
        ),
    decreases items.len(),
{
    if items.len() == 0 {
        assert(acc.metadata + items =~= acc.metadata);
    } else {
        let first = items[0];
        let rest = metadata_bytes(items.drop_first());
        lemma_key_value_roundtrip(first);
        lemma_merge_bytes_field::<Request>(5, KeyValue::bytes(first), rest, acc);
        let next = RequestView { metadata: acc.metadata.push(first), ..acc };
        lemma_merge_metadata(items.drop_first(), next);
        assert(next.metadata + items.drop_first() =~= acc.metadata + items);
    }
}

/// The last fields of a request, the timeout and the metadata, merged into
/// a request that holds neither.
proof fn lemma_request_tail(m: RequestView, acc: RequestView)
    requires
        Request::encodable(m),
        acc.timeout_nano == 0,
        acc.metadata == Seq::<KeyValueView>::empty(),
    ensures
        merge::<Request>(
            number_field(4, bits_of_i64(m.timeout_nano)) + metadata_bytes(m.metadata),
            acc,
        ) == Ok::<RequestView, WireError>(
            RequestView { timeout_nano: m.timeout_nano, metadata: m.metadata, ..acc },
        ),
{
    let bits = bits_of_i64(m.timeout_nano);
    let rest = metadata_bytes(m.metadata);
    let next = RequestView { timeout_nano: m.timeout_nano, ..acc };
    assert(bits == 0 ==> m.timeout_nano == 0);
    assert(i64_of_bits(bits) == m.timeout_nano);
    assert(merge::<Request>(number_field(4, bits) + rest, acc) == merge::<Request>(rest, next)) by {
        lemma_merge_number_field::<Request>(4, bits, rest, acc);
    }
    assert(merge::<Request>(rest, next) == Ok::<RequestView, WireError>(
        RequestView { metadata: next.metadata + m.metadata, ..next },
    )) by {
        lemma_merge_metadata(m.metadata, next);
    }
    assert(next.metadata + m.metadata =~= m.metadata);
}

/// The payload of a request merged into a request that holds none.
proof fn lemma_request_payload(m: RequestView, rest: Seq<u8>, acc: RequestView)
    requires
        Request::encodable(m),
        acc.payload == Seq::<u8>::empty(),
    ensures
        merge::<Request>(data_field(3, m.payload) + rest, acc) == merge::<Request>(
            rest,
            RequestView { payload: m.payload, ..acc },
        ),
{
    lemma_merge_data_field::<Request>(3, m.payload, rest, acc);
    if m.payload.len() == 0 {
        assert(m.payload =~= Seq::<u8>::empty());
    }
}

/// The names in a request, of the service and of the method, merged into a
/// request that holds neither.
proof fn lemma_request_names(m: RequestView, rest: Seq<u8>, acc: RequestView)
    requires
        Request::encodable(m),
        acc.service == Seq::<char>::empty(),
        acc.method == Seq::<char>::empty(),
    ensures
        merge::<Request>(text_field(1, m.service) + text_field(2, m.method) + rest, acc)
            == merge::<Request>(
            rest,
            RequestView { service: m.service, method: m.method, ..acc },
        ),
{
    let f1 = text_field(1, m.service);
    let f2 = text_field(2, m.method);
    let with_service = RequestView { service: m.service, ..acc };
    assert(f1 + f2 + rest =~= f1 + (f2 + rest));
    assert(merge::<Request>(f1 + (f2 + rest), acc) == merge::<Request>(f2 + rest, with_service))
        by {
        lemma_merge_text_field::<Request>(1, m.service, f2 + rest, acc);
        if m.service.len() == 0 {
            assert(m.service =~= Seq::<char>::empty());
        }
    }
    assert(merge::<Request>(f2 + rest, with_service) == merge::<Request>(
        rest,
        RequestView { method: m.method, ..with_service },
    )) by {
        lemma_merge_text_field::<Request>(2, m.method, rest, with_service);
        if m.method.len() == 0 {
            assert(m.method =~= Seq::<char>::empty());
        }
    }
}

/// A request is told from its bytes as it was told to them.
pub proof fn lemma_request_roundtrip(m: RequestView)
    requires
        Request::encodable(m),
    ensures
        decode::<Request>(Request::bytes(m)) == Ok::<RequestView, WireError>(m),
{
    let empty = Request::empty();
    let f3 = data_field(3, m.payload);
    let tail = number_field(4, bits_of_i64(m.timeout_nano)) + metadata_bytes(m.metadata);
    let named = RequestView { service: m.service, method: m.method, ..empty };
    let loaded = RequestView { payload: m.payload, ..named };
    assert(Request::bytes(m) =~= text_field(1, m.service) + text_field(2, m.method) + (f3
        + tail));
    lemma_request_names(m, f3 + tail, empty);
    lemma_request_payload(m, tail, named);
    lemma_request_tail(m, loaded);
}

/// The payload of a response frame: how the call went, and what it gave.
#[derive(Clone, Debug, PartialEq, Eq)]
pub struct Response {
    /// How the call went. A response of which nothing was set has none.
    pub status: Option<Status>,
    pub payload: Vec<u8>,
}

/// What a `Response` holds, as mathematical values.
pub struct ResponseView {
    pub status: Option<StatusView>,
    pub payload: Seq<u8>,
}

/// What a status that may be missing holds, as mathematical values.
pub open spec fn status_view(status: Option<Status>) -> Option<StatusView> {
    match status {
        Some(s) => Some(s@),
        None => None,
    }
}

impl View for Response {
    type V = ResponseView;

    open spec fn view(&self) -> ResponseView {
        ResponseView { status: status_view(self.status), payload: self.payload@ }
    }
}

/// The bytes of the status of a response: nothing when none was set; else
/// the field with the bytes of the status, also when those are none.
pub open spec fn status_field(status: Option<StatusView>) -> Seq<u8> {
    match status {
        Some(s) => bytes_field(1, Status::bytes(s)),
        None => Seq::empty(),
    }
}

impl Message for Response {
    open spec fn empty() -> ResponseView {
        ResponseView { status: None, payload: Seq::empty() }
    }

    open spec fn with_field(m: ResponseView, number: u32, value: WireValue) -> Result<
        ResponseView,
        WireError,
    > {
        if number == 1 {
            match data_value(value) {
                Ok(data) => match decode::<Status>(data) {
                    Ok(status) => Ok(ResponseView { status: Some(status), ..m }),
                    Err(e) => Err(e),
                },
                Err(e) => Err(e),
            }
        } else if number == 2 {
            match data_value(value) {
                Ok(payload) => Ok(ResponseView { payload, ..m }),
                Err(e) => Err(e),
            }
        } else {
            Ok(m)
        }
    }

    open spec fn bytes(m: ResponseView) -> Seq<u8> {
        status_field(m.status) + data_field(2, m.payload)
    }

    open spec fn encodable(m: ResponseView) -> bool {
        &&& m.status matches Some(s) ==> Status::encodable(s) && Status::bytes(s).len()
            <= u64::MAX
        &&& m.payload.len() <= u64::MAX
    }

    fn new() -> (m: Response) {
        Response { status: None, payload: Vec::new() }
    }

    fn merge_field(&mut self, number: u32, value: FieldValue<'_>) -> (r: Result<(), WireError>) {
        if number == 1 {
            match value {
                FieldValue::LengthDelimited(data) => match parse_from_bytes::<Status>(data) {
                    Ok(status) => {
                        self.status = Some(status);
                        Ok(())
                    },
                    Err(e) => Err(e),
                },
                _ => Err(WireError::UnexpectedWireType),
            }
        } else if number == 2 {
            match value_data(&value) {
                Ok(payload) => {
                    self.payload = payload;
                    Ok(())
                },
                Err(e) => Err(e),
            }
        } else {
            Ok(())
        }
    }

    fn write_to(&self, buf: &mut Vec<u8>) {
        match &self.status {
            Some(status) => {
                let bytes = write_to_bytes(status);
                let len = bytes.len();
                write_bytes_field(buf, 1, bytes.as_slice());
            },
            None => {
                assert(buf@ =~= old(buf)@ + status_field(self@.status));
            },
        }
        let payload_len = self.payload.len();
        write_data_field(buf, 2, self.payload.as_slice());
        assert(buf@ =~= old(buf)@ + Self::bytes(self@));
    }
}

/// A response is told from its bytes as it was told to them, with its
/// status or without.
pub proof fn lemma_response_roundtrip(m: ResponseView)
    requires
        Response::encodable(m),
    ensures
        decode::<Response>(Response::bytes(m)) == Ok::<ResponseView, WireError>(m),
{
    let empty = Response::empty();
    let second = data_field(2, m.payload);
    assert(second =~= second + Seq::<u8>::empty());
    let with_status = ResponseView { status: m.status, ..empty };
    match m.status {
        Some(status) => {
            lemma_status_roundtrip(status);
            lemma_merge_bytes_field::<Response>(1, Status::bytes(status), second, empty);
        },
        None => {
            assert(Response::bytes(m) =~= second);
        },
    }
    lemma_merge_data_field::<Response>(2, m.payload, Seq::empty(), with_status);
    assert(m.payload.len() == 0 ==> m.payload =~= Seq::<u8>::empty());
}

/// A response of which nothing was set has no bytes at all.
pub proof fn lemma_unset_response_is_empty()
    ensures
        Response::bytes(Response::empty()) == Seq::<u8>::empty(),
{
    assert(Response::bytes(Response::empty()) =~= Seq::<u8>::empty());
}

} // verus!
