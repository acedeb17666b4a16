//! What a method handler is, what it is handed, and how its answer becomes a
//! response frame on the way to the writer of the connection.

use crate::channel::{MessageHeader, MESSAGE_TYPE_RESPONSE};
use crate::error::{get_status, Code, Error, ErrorView, Status, StatusView};
use crate::proto::{write_to_bytes, Message, Request, Response, ResponseView};
use std::sync::mpsc::Sender;
use vstd::prelude::*;
use vstd::string::*;

verus! {

/// A file descriptor, as the operating system numbers it.
pub type RawFd = i32;

/// One frame on its way to the writer of a connection.
pub type Frame = (MessageHeader, Vec<u8>);

/// The sending half of a channel, `std::sync::mpsc::Sender`: a value that
/// is carried about and handed to `send`, of which nothing else is known.
#[verifier::external_type_specification]
#[verifier::external_body]
#[verifier::reject_recursive_types(T)]
pub struct ExSender<T>(Sender<T>);

/// What a handler is handed besides the request: the means to reply.
#[derive(Debug)]
pub struct TtrpcContext {
    /// The socket of the connection.
    pub fd: RawFd,
    /// The header that the request came with.
    pub mh: MessageHeader,
    /// Where response frames go.
    pub res_tx: Sender<Frame>,
}

/// The capability to serve one method: it replies through the context and
/// returns an error only when the connection cannot go on. Handlers are
/// shared by the workers of every connection.
pub trait MethodHandler: Send + Sync {
    fn handler(&self, ctx: TtrpcContext, req: Request) -> Result<(), Error>;
}

/// A hook that runs before every handler, with the context the handler will
/// get. What it returns does not change what is done with the request.
pub trait PreHandler: Send + Sync {
    fn handler(&self, ctx: &TtrpcContext) -> Result<(), Error>;
}

/// Hands a frame to a channel with `Sender::send`. Nothing is claimed of the
/// result: it is `false` when the receiving end is gone.
#[verifier::external_body]
fn send_frame(tx: &Sender<Frame>, mh: MessageHeader, buf: Vec<u8>) -> (sent: bool) {
    tx.send((mh, buf)).is_ok()
}

/// Another handle on the same channel, with `Sender::clone`.
#[verifier::external_body]
pub(crate) fn clone_sender(tx: &Sender<Frame>) -> (other: Sender<Frame>) {
    tx.clone()
}

/// The text of the error for a response that a header cannot announce.
pub open spec fn too_long_text() -> Seq<char> {
    "response is too long for a frame"@
}

/// The text of the error for a channel whose receiving end is gone.
pub open spec fn closed_channel_text() -> Seq<char> {
    "sending on a closed channel"@
}

/// The frame that answers the request that came under `stream_id` with
/// `res`: the bytes of `res` under a response header with the same stream id
/// and their length. There is none when the length does not fit the header.
pub open spec fn response_frame_of(stream_id: u32, res: ResponseView) -> Result<
    (MessageHeader, Seq<u8>),
    ErrorView,
> {
    if Response::bytes(res).len() > u32::MAX {
        Err(ErrorView::Others(too_long_text()))
    } else {
        Ok(
            (
                MessageHeader {
                    length: Response::bytes(res).len() as u32,
                    stream_id,
                    type_: MESSAGE_TYPE_RESPONSE,
                    flags: 0,
                },
                Response::bytes(res),
            ),
        )
    }
}

/// The frame that answers the request that came under `stream_id` with
/// `res`.
pub fn response_frame(stream_id: u32, res: &Response) -> (r: Result<Frame, Error>)
    ensures
        match response_frame_of(stream_id, res@) {
            Ok(frame) => r matches Ok(f) && f.0 == frame.0 && f.1@ == frame.1,
            Err(e) => r matches Err(err) && err@ == e,
        },
{
    let buf = write_to_bytes(res);
    if buf.len() > u32::MAX as usize {
        return Err(Error::Others(String::from_str("response is too long for a frame")));
    }
    let mh = MessageHeader::new_response(stream_id, buf.len() as u32);
    Ok((mh, buf))
}

/// What a send comes to: nothing to report when the frame was taken, an
/// error when the receiving end of the channel is gone.
pub fn sent_or_closed(sent: bool) -> (r: Result<(), Error>)
    ensures
        sent ==> r is Ok,
        !sent ==> (r matches Err(e) && e@ == ErrorView::Others(closed_channel_text())),
{
    if sent {
        Ok(())
    } else {
        Err(Error::Others(String::from_str("sending on a closed channel")))
    }
}

/// The response that tells the peer why its request was not served:
/// `status`, and no payload.
pub fn rejection(status: Status) -> (res: Response)
    ensures
        res@ == (ResponseView { status: Some(status@), payload: Seq::empty() }),
{
    Response { status: Some(status), payload: Vec::new() }
}

/// What the handler of a request on the connection `fd` is handed: the
/// socket, the header `mh` that the request came with, and `res_tx` to
/// reply through.
pub fn context_of(fd: RawFd, mh: MessageHeader, res_tx: Sender<Frame>) -> (ctx: TtrpcContext)
    ensures
        ctx.fd == fd,
        ctx.mh == mh,
        ctx.res_tx == res_tx,
{
    TtrpcContext { fd, mh, res_tx }
}

/// Sends `res` to the writer of the connection as the answer to the request
/// that came under `stream_id`. What is sent is the frame that
/// `response_frame` gives; a response too long for a frame is not sent.
/// Whether the channel takes the frame is for the channel to say:
/// `sent_or_closed` tells what is returned then.
pub fn response_to_channel(stream_id: u32, res: Response, tx: Sender<Frame>) -> (r: Result<
    (),
    Error,
>)
    ensures
        response_frame_of(stream_id, res@) matches Err(e) ==> (r matches Err(err) && err@ == e),
        response_frame_of(stream_id, res@) is Ok ==> (r is Ok || (r matches Err(err) && err@
            == ErrorView::Others(closed_channel_text()))),
        r matches Err(err) ==> err@ is Others,
{
    match response_frame(stream_id, &res) {
        Ok((mh, buf)) => sent_or_closed(send_frame(&tx, mh, buf)),
        Err(e) => Err(e),
    }
}

/// The text that `{:?}` gives for a string: the string between quotation
/// marks, with what cannot stand there as it is written as an escape.
pub uninterp spec fn debug_quoted(s: Seq<char>) -> Seq<char>;

/// Formats a string with `{:?}`. The contract claims only that the text is
/// a function of the string.
#[verifier::external_body]
fn quote_debug(s: &str) -> (q: String)
    ensures
        q@ == debug_quoted(s@),
{
    format!("{:?}", s)
}

/// The name of the kind of `e`, and the detail that it carries. A status
/// is no failure to describe: it goes to the peer as it is.
pub open spec fn error_parts(e: ErrorView) -> (Seq<char>, Seq<char>)
    recommends
        !(e is RpcStatus),
{
    match e {
        ErrorView::Socket(detail) => ("Socket"@, detail),
        ErrorView::Protocol(detail) => ("Protocol"@, detail),
        ErrorView::RpcStatus(status) => ("RpcStatus"@, status.message),
        ErrorView::Others(detail) => ("Others"@, detail),
    }
}

/// The description of an error of kind `kind` whose detail, with its
/// quotation marks, is `quoted`: the kind, and the detail in brackets.
pub open spec fn description_text(kind: Seq<char>, quoted: Seq<char>) -> Seq<char> {
    kind + "("@ + quoted + ")"@
}

/// The text that describes an error that is no status to the peer: the
/// name of its kind, and in brackets its detail as `{:?}` gives it.
pub open spec fn error_description(e: ErrorView) -> Seq<char>
    recommends
        !(e is RpcStatus),
{
    description_text(error_parts(e).0, debug_quoted(error_parts(e).1))
}

/// The name of the kind of `e`, which is no status, and the detail that it
/// carries.
pub fn parts_of(e: &Error) -> (parts: (&'static str, &str))
    requires
        !(e@ is RpcStatus),
    ensures
        parts.0@ == error_parts(e@).0,
        parts.1@ == error_parts(e@).1,
{
    match e {
        Error::Socket(detail) => ("Socket", detail.as_str()),
        Error::Protocol(detail) => ("Protocol", detail.as_str()),
        Error::RpcStatus(status) => ("RpcStatus", status.message.as_str()),
        Error::Others(detail) => ("Others", detail.as_str()),
    }
}

/// The description of an error of kind `kind` whose detail, with its
/// quotation marks, is `quoted`.
pub fn description_of(kind: &str, quoted: &str) -> (s: String)
    ensures
        s@ == description_text(kind@, quoted@),
{
    let mut s = String::from_str(kind);
    s.append("(");
    s.append(quoted);
    s.append(")");
    s
}

/// The text that describes `e`, which is no status, to the peer.
pub fn describe_error(e: &Error) -> (s: String)
    requires
        !(e@ is RpcStatus),
    ensures
        s@ == error_description(e@),
{
    let (kind, detail) = parts_of(e);
    let quoted = quote_debug(detail);
    description_of(kind, quoted.as_str())
}

/// The response that reports how a call went: the reply of the service as
/// payload under the status OK; the status that the service failed with; or
/// the status UNKNOWN with the description of any other error.
pub open spec fn reply_view(outcome: Result<Seq<u8>, ErrorView>) -> ResponseView {
    match outcome {
        Ok(payload) => ResponseView {
            status: Some(StatusView { code: Code::OK, message: Seq::empty() }),
            payload,
        },
        Err(ErrorView::RpcStatus(status)) => ResponseView {
            status: Some(status),
            payload: Seq::empty(),
        },
        Err(e) => ResponseView {
            status: Some(StatusView { code: Code::UNKNOWN, message: error_description(e) }),
            payload: Seq::empty(),
        },
    }
}

/// What `outcome` holds, as mathematical values.
pub open spec fn outcome_view(outcome: Result<Vec<u8>, Error>) -> Result<Seq<u8>, ErrorView> {
    match outcome {
        Ok(payload) => Ok(payload@),
        Err(e) => Err(e@),
    }
}

/// The response that reports how a call went, from what the service
/// returned: the bytes of its reply, or an error.
pub fn reply_of(outcome: Result<Vec<u8>, Error>) -> (res: Response)
    ensures
        res@ == reply_view(outcome_view(outcome)),
{
    match outcome {
        Ok(payload) => Response { status: Some(get_status(Code::OK, String::new())), payload },
        Err(Error::RpcStatus(status)) => Response { status: Some(status), payload: Vec::new() },
        Err(e) => {
            let text = describe_error(&e);
            Response { status: Some(get_status(Code::UNKNOWN, text)), payload: Vec::new() }
        },
    }
}

/// The typed request that the payload of `req` stands for; a payload that
/// stands for none is an error with the decoder's text.
pub fn request_payload<M: Message>(req: &Request) -> (r: Result<M, Error>)
    ensures
        match crate::proto::decode::<M>(req@.payload) {
            Ok(m) => r matches Ok(found) && found@ == m,
            Err(e) => r matches Err(err) && err@ == ErrorView::Others(
                crate::wire::wire_error_text(e),
            ),
        },
{
    match crate::proto::parse_from_bytes::<M>(req.payload.as_slice()) {
        Ok(m) => Ok(m),
        Err(e) => Err(Error::Others(e.message())),
    }
}

} // verus!
