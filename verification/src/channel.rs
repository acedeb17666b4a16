//! The wire framing: a ten-byte header in network byte order, then the
//! payload. Nothing here touches a socket: a reader is handed what each read
//! gave and says how many bytes it still wants, a writer says which bytes are
//! still to go out.

use crate::error::{Error, ErrorView};
use vstd::prelude::*;
use vstd::slice::*;
use vstd::string::*;

verus! {

/// The number of bytes of a header on the wire.
pub const MESSAGE_HEADER_LENGTH: usize = 10;

/// The longest payload that is accepted: 4 MiB.
pub const MESSAGE_LENGTH_MAX: usize = 4194304;

/// The type of a frame that carries a request.
pub const MESSAGE_TYPE_REQUEST: u8 = 1;

/// The type of a frame that carries a response.
pub const MESSAGE_TYPE_RESPONSE: u8 = 2;

/// The header that precedes every payload.
#[derive(Clone, Copy, Debug, PartialEq, Eq, Structural)]
pub struct MessageHeader {
    /// The number of payload bytes that follow.
    pub length: u32,
    /// Chosen by the caller of a request and echoed by its response.
    pub stream_id: u32,
    pub type_: u8,
    /// Reserved.
    pub flags: u8,
}

/// The four bytes of `v`, most significant first.
pub open spec fn be32_bytes(v: u32) -> Seq<u8> {
    seq![
        (v / 0x100_0000) as u8,
        (v / 0x1_0000 % 0x100) as u8,
        (v / 0x100 % 0x100) as u8,
        (v % 0x100) as u8,
    ]
}

/// The number whose four bytes, most significant first, are `b[at..at + 4]`.
pub open spec fn be32_value(b: Seq<u8>, at: int) -> u32 {
    (b[at] * 0x100_0000 + b[at + 1] * 0x1_0000 + b[at + 2] * 0x100 + b[at + 3]) as u32
}

/// The ten bytes that stand for `h` on the wire.
pub open spec fn header_bytes(h: MessageHeader) -> Seq<u8> {
    be32_bytes(h.length) + be32_bytes(h.stream_id) + seq![h.type_, h.flags]
}

/// The header that the first ten bytes of `b` stand for.
pub open spec fn header_of(b: Seq<u8>) -> MessageHeader {
    MessageHeader {
        length: be32_value(b, 0),
        stream_id: be32_value(b, 4),
        type_: b[8],
        flags: b[9],
    }
}

/// A whole frame on the wire: the header, then the payload.
pub open spec fn frame_bytes(h: MessageHeader, payload: Seq<u8>) -> Seq<u8> {
    header_bytes(h) + payload
}

/// How many more bytes a reader that has received `received` of a frame asks
/// for: the rest of the header first, then the rest of the payload that the
/// header announces. It asks for nothing once the frame is whole, and nothing
/// after a header that announces more than the cap.
pub open spec fn bytes_wanted(received: Seq<u8>) -> nat {
    if received.len() < MESSAGE_HEADER_LENGTH {
        (MESSAGE_HEADER_LENGTH - received.len()) as nat
    } else if header_of(received).length > MESSAGE_LENGTH_MAX {
        0
    } else if received.len() < MESSAGE_HEADER_LENGTH + header_of(received).length {
        (MESSAGE_HEADER_LENGTH + header_of(received).length - received.len()) as nat
    } else {
        0
    }
}

/// Whether `received` is one whole frame within the cap.
pub open spec fn is_whole_frame(received: Seq<u8>) -> bool {
    &&& received.len() >= MESSAGE_HEADER_LENGTH
    &&& header_of(received).length <= MESSAGE_LENGTH_MAX
    &&& received.len() == MESSAGE_HEADER_LENGTH + header_of(received).length
}

/// Whether `received` holds a header that announces more than the cap.
pub open spec fn is_oversized(received: Seq<u8>) -> bool {
    &&& received.len() >= MESSAGE_HEADER_LENGTH
    &&& header_of(received).length > MESSAGE_LENGTH_MAX
}

/// The payload of a whole frame: what follows its header.
pub open spec fn payload_of(received: Seq<u8>) -> Seq<u8> {
    received.subrange(MESSAGE_HEADER_LENGTH as int, received.len() as int)
}

/// Four digits in base 256 are found again from the number they write.
proof fn lemma_be32_digits(b0: int, b1: int, b2: int, b3: int)
    requires
        0 <= b0 < 0x100,
        0 <= b1 < 0x100,
        0 <= b2 < 0x100,
        0 <= b3 < 0x100,
    ensures
        ({
            let v = b0 * 0x100_0000 + b1 * 0x1_0000 + b2 * 0x100 + b3;
            &&& 0 <= v <= u32::MAX
            &&& v / 0x100_0000 == b0
            &&& v / 0x1_0000 % 0x100 == b1
            &&& v / 0x100 % 0x100 == b2
            &&& v % 0x100 == b3
        }),
{
}

/// A number is the one that its four digits in base 256 write.
proof fn lemma_be32_number(v: int)
    requires
        0 <= v <= u32::MAX,
    ensures
        v == (v / 0x100_0000) * 0x100_0000 + (v / 0x1_0000 % 0x100) * 0x1_0000 + (v / 0x100
            % 0x100) * 0x100 + v % 0x100,
        0 <= v / 0x100_0000 < 0x100,
{
}

/// A number is found again from its four bytes.
pub proof fn lemma_be32_roundtrip(v: u32, rest: Seq<u8>)
    ensures
        be32_bytes(v).len() == 4,
        be32_value(be32_bytes(v) + rest, 0) == v,
{
    lemma_be32_number(v as int);
    let b = be32_bytes(v) + rest;
    assert(b[0] == (v / 0x100_0000) as u8);
    assert(b[1] == (v / 0x1_0000 % 0x100) as u8);
    assert(b[2] == (v / 0x100 % 0x100) as u8);
    assert(b[3] == (v % 0x100) as u8);
}

/// Four bytes are found again from the number they stand for.
pub proof fn lemma_be32_bytes_of_value(b: Seq<u8>, at: int)
    requires
        0 <= at,
        at + 4 <= b.len(),
    ensures
        be32_bytes(be32_value(b, at)) == b.subrange(at, at + 4),
{
    lemma_be32_digits(b[at] as int, b[at + 1] as int, b[at + 2] as int, b[at + 3] as int);
    let v = be32_value(b, at);
    let out = be32_bytes(v);
    let sub = b.subrange(at, at + 4);
    assert(out[0] == sub[0]);
    assert(out[1] == sub[1]);
    assert(out[2] == sub[2]);
    assert(out[3] == sub[3]);
    assert(out =~= sub);
}

/// A header is found again from its ten bytes, whatever follows them.
pub proof fn lemma_header_roundtrip(h: MessageHeader, rest: Seq<u8>)
    ensures
        header_bytes(h).len() == MESSAGE_HEADER_LENGTH,
        header_of(header_bytes(h) + rest) == h,
{
    let b = header_bytes(h) + rest;
    lemma_be32_roundtrip(h.length, Seq::empty());
    lemma_be32_roundtrip(h.stream_id, Seq::empty());
    assert(b[0] == be32_bytes(h.length)[0]);
    assert(b[1] == be32_bytes(h.length)[1]);
    assert(b[2] == be32_bytes(h.length)[2]);
    assert(b[3] == be32_bytes(h.length)[3]);
    assert(b[4] == be32_bytes(h.stream_id)[0]);
    assert(b[5] == be32_bytes(h.stream_id)[1]);
    assert(b[6] == be32_bytes(h.stream_id)[2]);
    assert(b[7] == be32_bytes(h.stream_id)[3]);
    assert(b[8] == h.type_);
    assert(b[9] == h.flags);
}

/// Ten bytes are found again from the header they stand for.
pub proof fn lemma_header_bytes_of_header(b: Seq<u8>)
    requires
        b.len() >= MESSAGE_HEADER_LENGTH,
    ensures
        header_bytes(header_of(b)) == b.subrange(0, MESSAGE_HEADER_LENGTH as int),
{
    lemma_be32_bytes_of_value(b, 0);
    lemma_be32_bytes_of_value(b, 4);
    assert(header_bytes(header_of(b)) =~= b.subrange(0, MESSAGE_HEADER_LENGTH as int));
}

/// What is written is what is read: a reader that has received any proper
/// part of the bytes of a frame asks for more, and for no more than the frame
/// still has; one that has received them all asks for nothing and holds the
/// header and the payload that were written.
pub proof fn lemma_frame_roundtrip(h: MessageHeader, payload: Seq<u8>, k: int)
    requires
        h.length == payload.len(),
        payload.len() <= MESSAGE_LENGTH_MAX,
        0 <= k <= frame_bytes(h, payload).len(),
    ensures
        frame_bytes(h, payload).len() == MESSAGE_HEADER_LENGTH + payload.len(),
        is_whole_frame(frame_bytes(h, payload)),
        header_of(frame_bytes(h, payload)) == h,
        payload_of(frame_bytes(h, payload)) == payload,
        bytes_wanted(frame_bytes(h, payload)) == 0,
        read_result(frame_bytes(h, payload)) == Ok::<(MessageHeader, Seq<u8>), ErrorView>(
            (h, payload),
        ),
        absorbed(
            absorbed(Seq::empty(), frame_bytes(h, payload)).0,
            absorbed(Seq::empty(), frame_bytes(h, payload)).1,
        ).0 == frame_bytes(h, payload),
        k < frame_bytes(h, payload).len() ==> 0 < bytes_wanted(
            frame_bytes(h, payload).subrange(0, k),
        ) <= frame_bytes(h, payload).len() - k,
{
    let f = frame_bytes(h, payload);
    lemma_header_roundtrip(h, payload);
    assert(payload_of(f) =~= payload);
    assert(absorbed(absorbed(Seq::empty(), f).0, absorbed(Seq::empty(), f).1).0 == f) by {
        let first = absorbed(Seq::<u8>::empty(), f);
        assert(first.0 =~= header_bytes(h));
        assert(first.1 =~= payload);
        assert(header_bytes(h) =~= header_bytes(h) + Seq::<u8>::empty());
        lemma_header_roundtrip(h, Seq::empty());
        assert(absorbed(first.0, first.1).0 =~= f);
    }
    if k < f.len() {
        let p = f.subrange(0, k);
        if k >= MESSAGE_HEADER_LENGTH {
            let rest = payload.subrange(0, k - MESSAGE_HEADER_LENGTH);
            assert(p =~= header_bytes(h) + rest);
            lemma_header_roundtrip(h, rest);
        }
    }
}

/// Whatever the parts are in which the bytes of a frame arrive, a reader
/// takes them all in: one that holds the first `k` bytes and is given the
/// next `j` holds the first `k + j`.
pub proof fn lemma_reader_takes_what_it_is_given(
    h: MessageHeader,
    payload: Seq<u8>,
    k: int,
    j: int,
)
    requires
        h.length == payload.len(),
        payload.len() <= MESSAGE_LENGTH_MAX,
        0 <= k,
        0 <= j,
        k + j <= frame_bytes(h, payload).len(),
    ensures
        ({
            let f = frame_bytes(h, payload);
            let first = absorbed(f.subrange(0, k), f.subrange(k, k + j));
            absorbed(first.0, first.1).0 == f.subrange(0, k + j)
        }),
{
    let f = frame_bytes(h, payload);
    let held = f.subrange(0, k);
    let chunk = f.subrange(k, k + j);
    let first = absorbed(held, chunk);
    lemma_frame_roundtrip(h, payload, k);
    if k < f.len() {
        if j <= bytes_wanted(held) {
            assert(first.0 =~= f.subrange(0, k + j));
            assert(first.1 =~= Seq::<u8>::empty());
            assert(absorbed(first.0, first.1).0 =~= f.subrange(0, k + j));
        } else {
            let w = bytes_wanted(held) as int;
            assert(k < MESSAGE_HEADER_LENGTH) by {
                if k >= MESSAGE_HEADER_LENGTH {
                    let rest = payload.subrange(0, k - MESSAGE_HEADER_LENGTH);
                    assert(held =~= header_bytes(h) + rest);
                    lemma_header_roundtrip(h, rest);
                }
            }
            assert(w == MESSAGE_HEADER_LENGTH - k);
            assert(first.0 =~= header_bytes(h));
            assert(first.1 =~= f.subrange(MESSAGE_HEADER_LENGTH as int, k + j));
            assert(header_bytes(h) =~= header_bytes(h) + Seq::<u8>::empty());
            lemma_header_roundtrip(h, Seq::empty());
            assert(bytes_wanted(first.0) == payload.len());
            assert(absorbed(first.0, first.1).0 =~= f.subrange(0, k + j));
        }
    } else {
        assert(chunk =~= Seq::<u8>::empty());
        assert(first.0 =~= held);
        assert(first.1 =~= Seq::<u8>::empty());
        assert(absorbed(first.0, first.1).0 =~= f.subrange(0, k + j));
    }
}

/// A header that announces more than the cap ends the reading at once,
/// with a protocol error, however much of the payload follows.
pub proof fn lemma_oversized_is_refused(received: Seq<u8>)
    requires
        received.len() >= MESSAGE_HEADER_LENGTH,
        header_of(received).length > MESSAGE_LENGTH_MAX,
    ensures
        bytes_wanted(received) == 0,
        read_result(received) == Err::<(MessageHeader, Seq<u8>), ErrorView>(
            ErrorView::Protocol(oversized_text()),
        ),
{
}

impl MessageHeader {
    /// The header of a response to the request that came with `stream_id`,
    /// for a payload of `length` bytes.
    pub fn new_response(stream_id: u32, length: u32) -> (h: MessageHeader)
        ensures
            h == (MessageHeader { length, stream_id, type_: MESSAGE_TYPE_RESPONSE, flags: 0 }),
    {
        MessageHeader { length, stream_id, type_: MESSAGE_TYPE_RESPONSE, flags: 0 }
    }

    /// The header of a request under `stream_id`, for a payload of `length`
    /// bytes.
    pub fn new_request(stream_id: u32, length: u32) -> (h: MessageHeader)
        ensures
            h == (MessageHeader { length, stream_id, type_: MESSAGE_TYPE_REQUEST, flags: 0 }),
    {
        MessageHeader { length, stream_id, type_: MESSAGE_TYPE_REQUEST, flags: 0 }
    }

    /// The ten bytes of this header on the wire.
    pub fn to_bytes(&self) -> (out: Vec<u8>)
        ensures
            out@ == header_bytes(*self),
    {
        let mut out: Vec<u8> = Vec::with_capacity(MESSAGE_HEADER_LENGTH);
        push_be32(&mut out, self.length);
        push_be32(&mut out, self.stream_id);
        out.push(self.type_);
        out.push(self.flags);
        assert(out@ =~= header_bytes(*self));
        out
    }

    /// The header that the first ten bytes of `bytes` stand for; `None` when
    /// there are fewer than ten.
    pub fn from_bytes(bytes: &[u8]) -> (h: Option<MessageHeader>)
        ensures
            bytes@.len() >= MESSAGE_HEADER_LENGTH ==> h == Some(header_of(bytes@)),
            bytes@.len() < MESSAGE_HEADER_LENGTH ==> h is None,
    {
        if bytes.len() < MESSAGE_HEADER_LENGTH {
            return None;
        }
        Some(
            MessageHeader {
                length: read_be32(bytes, 0),
                stream_id: read_be32(bytes, 4),
                type_: bytes[8],
                flags: bytes[9],
            },
        )
    }
}

/// Appends the four bytes of `v`, most significant first.
fn push_be32(out: &mut Vec<u8>, v: u32)
    ensures
        final(out)@ == old(out)@ + be32_bytes(v),
{
    out.push((v / 0x100_0000) as u8);
    out.push((v / 0x1_0000 % 0x100) as u8);
    out.push((v / 0x100 % 0x100) as u8);
    out.push((v % 0x100) as u8);
    assert(out@ =~= old(out)@ + be32_bytes(v));
}

/// The number whose four bytes, most significant first, start at `at`.
fn read_be32(bytes: &[u8], at: usize) -> (v: u32)
    requires
        at + 4 <= bytes@.len(),
    ensures
        v == be32_value(bytes@, at as int),
{
    let b0: u32 = bytes[at] as u32;
    let b1: u32 = bytes[at + 1] as u32;
    let b2: u32 = bytes[at + 2] as u32;
    let b3: u32 = bytes[at + 3] as u32;
    b0 * 0x100_0000 + b1 * 0x1_0000 + b2 * 0x100 + b3
}

/// The bytes of one frame, ready to be written: the header as it is given,
/// then the payload.
pub fn encode_message(mh: &MessageHeader, payload: &[u8]) -> (out: Vec<u8>)
    ensures
        out@ == frame_bytes(*mh, payload@),
{
    let mut out = mh.to_bytes();
    out.extend_from_slice(payload);
    out
}

/// What one read on a socket gave.
#[derive(Clone, Debug, PartialEq, Eq)]
pub enum ReadOutcome {
    /// The bytes that were read. None at all means that the peer is gone.
    Data(Vec<u8>),
    /// The peer has closed the connection.
    Closed,
    /// The read was interrupted before it gave anything: it is made again.
    Interrupted,
    /// The read failed for good, with this description.
    Failed(String),
}

/// Reads one frame from what a socket gives, in as many parts as it comes.
pub struct FrameReader {
    buf: Vec<u8>,
}

impl View for FrameReader {
    type V = Seq<u8>;

    /// The bytes of the frame that were received so far.
    closed spec fn view(&self) -> Seq<u8> {
        self.buf@
    }
}

/// The text of the error for a peer that is gone.
pub open spec fn disconnected_text() -> Seq<char> {
    "socket disconnected"@
}

/// The text of the error for a header that announces more than the cap.
pub open spec fn oversized_text() -> Seq<char> {
    "message length exceeds the maximum message size"@
}

/// The text of the error for a frame of which bytes are still missing.
pub open spec fn incomplete_text() -> Seq<char> {
    "message is incomplete"@
}

/// What a reader that holds `received` takes of `chunk`: as many bytes from
/// its front as the reader wants. The result is what the reader holds then,
/// and what is left of the chunk.
pub open spec fn absorbed(received: Seq<u8>, chunk: Seq<u8>) -> (Seq<u8>, Seq<u8>) {
    if chunk.len() <= bytes_wanted(received) {
        (received + chunk, Seq::empty())
    } else {
        (
            received + chunk.subrange(0, bytes_wanted(received) as int),
            chunk.subrange(bytes_wanted(received) as int, chunk.len() as int),
        )
    }
}

/// What a reader holds after `outcome`, when before it held `received`: of
/// the bytes that were read it takes what completes the header and then,
/// of what is left, what the header announces. Bytes beyond the frame are
/// not taken.
pub open spec fn received_after(received: Seq<u8>, outcome: ReadOutcome) -> Seq<u8> {
    match outcome {
        ReadOutcome::Data(chunk) => absorbed(
            absorbed(received, chunk@).0,
            absorbed(received, chunk@).1,
        ).0,
        _ => received,
    }
}

/// The error that ends the reading of a frame on `outcome`, if it ends it: a
/// peer that is gone, by a close or by a read that gave nothing while bytes
/// were wanted, and a read that failed for good.
pub open spec fn read_failure(received: Seq<u8>, outcome: ReadOutcome) -> Option<ErrorView> {
    match outcome {
        ReadOutcome::Data(chunk) => if chunk@.len() == 0 && bytes_wanted(received) > 0 {
            Some(ErrorView::Socket(disconnected_text()))
        } else {
            None
        },
        ReadOutcome::Closed => Some(ErrorView::Socket(disconnected_text())),
        ReadOutcome::Interrupted => None,
        ReadOutcome::Failed(detail) => Some(ErrorView::Socket(detail@)),
    }
}

/// How the reading of a frame ended of which `received` was received.
pub open spec fn read_result(received: Seq<u8>) -> Result<(MessageHeader, Seq<u8>), ErrorView> {
    if is_oversized(received) {
        Err(ErrorView::Protocol(oversized_text()))
    } else if is_whole_frame(received) {
        Ok((header_of(received), payload_of(received)))
    } else {
        Err(ErrorView::Others(incomplete_text()))
    }
}

impl FrameReader {
    /// A reader that has received nothing yet.
    pub fn new() -> (r: FrameReader)
        ensures
            r@ == Seq::<u8>::empty(),
    {
        FrameReader { buf: Vec::new() }
    }

    /// How many bytes to ask the socket for next. Zero means that reading is
    /// over and `finish` says how it ended.
    pub fn wanted(&self) -> (n: usize)
        ensures
            n == bytes_wanted(self@),
    {
        let len = self.buf.len();
        if len < MESSAGE_HEADER_LENGTH {
            return MESSAGE_HEADER_LENGTH - len;
        }
        let length = read_be32(self.buf.as_slice(), 0) as usize;
        if length > MESSAGE_LENGTH_MAX {
            0
        } else if len < MESSAGE_HEADER_LENGTH + length {
            MESSAGE_HEADER_LENGTH + length - len
        } else {
            0
        }
    }

    /// Takes from the front of `chunk` as many bytes as are wanted, and gives
    /// what is left of it.
    fn absorb<'a>(&mut self, chunk: &'a [u8]) -> (rest: &'a [u8])
        ensures
            final(self)@ == absorbed(old(self)@, chunk@).0,
            rest@ == absorbed(old(self)@, chunk@).1,
    {
        let want = self.wanted();
        if chunk.len() <= want {
            self.buf.extend_from_slice(chunk);
            slice_subrange(chunk, chunk.len(), chunk.len())
        } else {
            self.buf.extend_from_slice(slice_subrange(chunk, 0, want));
            slice_subrange(chunk, want, chunk.len())
        }
    }

    /// Takes in what one read gave. `Ok` means that reading goes on with what
    /// `wanted` then says; an error ends it.
    pub fn accept(&mut self, outcome: ReadOutcome) -> (r: Result<(), Error>)
        ensures
            final(self)@ == received_after(old(self)@, outcome),
            match read_failure(old(self)@, outcome) {
                Some(e) => r matches Err(err) && err@ == e,
                None => r is Ok,
            },
    {
        match outcome {
            ReadOutcome::Data(chunk) => {
                let want = self.wanted();
                if chunk.len() == 0 && want > 0 {
                    assert(self@ + chunk@ =~= self@);
                    return Err(Error::Socket(String::from_str("socket disconnected")));
                }
                let rest = self.absorb(chunk.as_slice());
                self.absorb(rest);
                Ok(())
            },
            ReadOutcome::Closed => Err(Error::Socket(String::from_str("socket disconnected"))),
            ReadOutcome::Interrupted => Ok(()),
            ReadOutcome::Failed(detail) => Err(Error::Socket(detail)),
        }
    }

    /// How the reading ended: with the header and the payload of a whole
    /// frame; with a protocol error after a header that announces more than
    /// the cap; with another error while bytes are still missing.
    pub fn finish(self) -> (r: Result<(MessageHeader, Vec<u8>), Error>)
        ensures
            match read_result(self@) {
                Ok(frame) => r matches Ok(f) && f.0 == frame.0 && f.1@ == frame.1,
                Err(e) => r matches Err(err) && err@ == e,
            },
    {
        let len = self.buf.len();
        match MessageHeader::from_bytes(self.buf.as_slice()) {
            None => Err(Error::Others(String::from_str("message is incomplete"))),
            Some(mh) => {
                if mh.length as usize > MESSAGE_LENGTH_MAX {
                    Err(
                        Error::Protocol(
                            String::from_str("message length exceeds the maximum message size"),
                        ),
                    )
                } else if len != MESSAGE_HEADER_LENGTH + mh.length as usize {
                    Err(Error::Others(String::from_str("message is incomplete")))
                } else {
                    let payload = slice_to_vec(
                        slice_subrange(self.buf.as_slice(), MESSAGE_HEADER_LENGTH, len),
                    );
                    Ok((mh, payload))
                }
            },
        }
    }
}

/// What one write on a socket gave.
#[derive(Clone, Debug, PartialEq, Eq)]
pub enum WriteOutcome {
    /// So many bytes went out.
    Wrote(usize),
    /// The write was interrupted before anything went out: it is made again.
    Interrupted,
    /// The write failed for good, with this description.
    Failed(String),
}

/// Writes one frame to a socket that may take it in parts.
pub struct FrameWriter {
    bytes: Vec<u8>,
    sent: usize,
}

impl FrameWriter {
    #[verifier::type_invariant]
    spec fn sent_within(self) -> bool {
        self.sent <= self.bytes@.len()
    }

    /// The bytes of the frame that is being written.
    pub closed spec fn frame(&self) -> Seq<u8> {
        self.bytes@
    }

    /// How many of them have gone out.
    pub closed spec fn written(&self) -> nat {
        self.sent as nat
    }

    /// A writer for the frame made of `mh` and `payload`, of which nothing has
    /// gone out yet.
    pub fn new(mh: &MessageHeader, payload: &[u8]) -> (w: FrameWriter)
        ensures
            w.frame() == frame_bytes(*mh, payload@),
            w.written() == 0,
    {
        FrameWriter { bytes: encode_message(mh, payload), sent: 0 }
    }

    /// The bytes that are still to go out, in order. None means that the
    /// frame is written.
    pub fn pending(&self) -> (rest: &[u8])
        ensures
            self.written() <= self.frame().len(),
            rest@ == self.frame().subrange(self.written() as int, self.frame().len() as int),
    {
        proof {
            use_type_invariant(self);
        }
        slice_subrange(self.bytes.as_slice(), self.sent, self.bytes.len())
    }

    /// Takes in what one write of `pending` gave. `Ok` means that writing
    /// goes on with what `pending` then holds; a write that failed for good
    /// ends it with a socket error. Of the bytes reported, no more are
    /// counted than were pending.
    pub fn accept(&mut self, outcome: WriteOutcome) -> (r: Result<(), Error>)
        ensures
            final(self).frame() == old(self).frame(),
            final(self).written() == written_after(old(self).frame(), old(self).written(), outcome),
            match outcome {
                WriteOutcome::Failed(detail) => r matches Err(e) && e@ == ErrorView::Socket(
                    detail@,
                ),
                _ => r is Ok,
            },
    {
        proof {
            use_type_invariant(&*self);
        }
        match outcome {
            WriteOutcome::Wrote(n) => {
                let left = self.bytes.len() - self.sent;
                if n <= left {
                    self.sent = self.sent + n;
                } else {
                    self.sent = self.bytes.len();
                }
                Ok(())
            },
            WriteOutcome::Interrupted => Ok(()),
            WriteOutcome::Failed(detail) => Err(Error::Socket(detail)),
        }
    }
}

/// How many bytes of `frame` have gone out after `outcome`, when before it
/// `written` had.
pub open spec fn written_after(frame: Seq<u8>, written: nat, outcome: WriteOutcome) -> nat {
    match outcome {
        WriteOutcome::Wrote(n) => if written + n <= frame.len() {
            written + n as nat
        } else {
            frame.len()
        },
        _ => written,
    }
}

} // verus!
