use std::sync::mpsc::channel;
use ttrpc::channel::MessageHeader;
use ttrpc::error::{get_status, Code, Error, Status};
use ttrpc::handler::{
    context_of, describe_error, description_of, parts_of, rejection, reply_of, request_payload,
    response_frame, response_to_channel, sent_or_closed,
};
use ttrpc::proto::Message;
use ttrpc::proto::{write_to_bytes, KeyValue, Request, Response};

fn ok_response(payload: &[u8]) -> Response {
    Response { status: Some(get_status(Code::OK, String::new())), payload: payload.to_vec() }
}

#[test]
fn response_frame_echoes_the_stream_id() {
    let (mh, buf) = response_frame(7, &ok_response(b"hi")).unwrap();
    assert_eq!(mh, MessageHeader { length: 6, stream_id: 7, type_: 2, flags: 0 });
    assert_eq!(buf, vec![0x0a, 0, 0x12, 2, b'h', b'i']);
    let (mh, buf) = response_frame(
        u32::MAX,
        &Response {
            status: Some(Status { code: Code::OK, message: String::new() }),
            payload: Vec::new(),
        },
    )
    .unwrap();
    assert_eq!(mh, MessageHeader { length: 2, stream_id: u32::MAX, type_: 2, flags: 0 });
    assert_eq!(buf, vec![0x0a, 0]);
}

#[test]
fn response_goes_to_the_channel() {
    let (tx, rx) = channel();
    assert_eq!(response_to_channel(3, ok_response(b"abc"), tx.clone()), Ok(()));
    assert_eq!(response_to_channel(4, ok_response(b""), tx), Ok(()));
    let (mh, buf) = rx.recv().unwrap();
    assert_eq!(mh, MessageHeader { length: 7, stream_id: 3, type_: 2, flags: 0 });
    assert_eq!(buf, write_to_bytes(&ok_response(b"abc")));
    let (mh, buf) = rx.recv().unwrap();
    assert_eq!(mh, MessageHeader { length: 2, stream_id: 4, type_: 2, flags: 0 });
    assert_eq!(buf, vec![0x0a, 0]);
    assert!(rx.recv().is_err());
}

#[test]
fn response_of_which_nothing_was_set_is_an_empty_frame() {
    let (tx, rx) = channel();
    assert_eq!(response_to_channel(7, Response::new(), tx), Ok(()));
    assert_eq!(
        rx.recv(),
        Ok((MessageHeader { length: 0, stream_id: 7, type_: 2, flags: 0 }, vec![]))
    );
    assert!(rx.try_recv().is_err());
    assert_eq!(
        response_frame(7, &Response::new()),
        Ok((MessageHeader { length: 0, stream_id: 7, type_: 2, flags: 0 }, Vec::new()))
    );
}

#[test]
fn rejection_is_a_status_without_payload() {
    let status = get_status(Code::INVALID_ARGUMENT, "why".to_string());
    assert_eq!(
        rejection(status.clone()),
        Response { status: Some(status), payload: Vec::new() }
    );
}

#[test]
fn context_holds_what_it_was_made_of() {
    let (tx, rx) = channel();
    let mh = MessageHeader { length: 4, stream_id: 9, type_: 1, flags: 3 };
    let ctx = context_of(12, mh, tx);
    assert_eq!(ctx.fd, 12);
    assert_eq!(ctx.mh, mh);
    assert_eq!(response_to_channel(ctx.mh.stream_id, Response::new(), ctx.res_tx), Ok(()));
    assert_eq!(rx.recv().unwrap().0.stream_id, 9);
}

#[test]
fn response_to_a_closed_channel_is_an_error() {
    let (tx, rx) = channel();
    drop(rx);
    assert_eq!(
        response_to_channel(3, ok_response(b"abc"), tx),
        Err(Error::Others("sending on a closed channel".to_string()))
    );
}

#[test]
fn send_outcomes() {
    assert_eq!(sent_or_closed(true), Ok(()));
    assert_eq!(
        sent_or_closed(false),
        Err(Error::Others("sending on a closed channel".to_string()))
    );
}

#[test]
fn reply_of_a_result_is_ok_with_the_payload() {
    assert_eq!(reply_of(Ok(b"out".to_vec())), ok_response(b"out"));
    assert_eq!(reply_of(Ok(Vec::new())), ok_response(b""));
}

#[test]
fn reply_of_a_status_is_that_status() {
    let status = get_status(Code::NOT_FOUND, "no such thing".to_string());
    assert_eq!(
        reply_of(Err(Error::RpcStatus(status.clone()))),
        Response { status: Some(status), payload: Vec::new() }
    );
}

#[test]
fn reply_of_another_error_is_unknown_with_its_description() {
    assert_eq!(
        reply_of(Err(Error::Others("boom".to_string()))),
        Response {
            status: Some(get_status(Code::UNKNOWN, "Others(\"boom\")".to_string())),
            payload: Vec::new(),
        }
    );
    assert_eq!(
        reply_of(Err(Error::Socket("gone".to_string()))).status,
        Some(get_status(Code::UNKNOWN, "Socket(\"gone\")".to_string()))
    );
    assert_eq!(
        reply_of(Err(Error::Protocol(String::new()))).status,
        Some(get_status(Code::UNKNOWN, "Protocol(\"\")".to_string()))
    );
}

#[test]
fn description_is_the_debug_form() {
    for detail in ["", "plain", "with \"quotes\"", "back\\slash", "line\nbreak\ttab", "\u{1b}[0m \u{e9}"] {
        for e in [
            Error::Socket(detail.to_string()),
            Error::Protocol(detail.to_string()),
            Error::Others(detail.to_string()),
        ] {
            assert_eq!(describe_error(&e), format!("{:?}", e));
        }
    }
}

#[test]
fn description_is_kind_and_detail_in_brackets() {
    assert_eq!(description_of("Others", "\"x\""), "Others(\"x\")");
    assert_eq!(description_of("", ""), "()");
    assert_eq!(parts_of(&Error::Socket("a".to_string())), ("Socket", "a"));
    assert_eq!(parts_of(&Error::Protocol("b".to_string())), ("Protocol", "b"));
    assert_eq!(parts_of(&Error::Others("c".to_string())), ("Others", "c"));
}

#[test]
fn typed_request_is_taken_from_the_payload() {
    let inner = KeyValue { key: "k".to_string(), value: "v".to_string() };
    let req = Request {
        service: "S".to_string(),
        method: "M".to_string(),
        timeout_nano: 0,
        metadata: Vec::new(),
        payload: write_to_bytes(&inner),
    };
    assert_eq!(request_payload::<KeyValue>(&req), Ok(inner));
    let req = Request { payload: vec![0x0a, 1, 0xff], ..req };
    assert_eq!(
        request_payload::<KeyValue>(&req),
        Err(Error::Others("invalid UTF-8 sequence".to_string()))
    );
    let req = Request { payload: vec![0xff, 0xff], ..req };
    assert_eq!(
        request_payload::<KeyValue>(&req),
        Err(Error::Others("unexpected EOF".to_string()))
    );
}

#[test]
fn status_codes_and_numbers() {
    assert_eq!(Code::OK.value(), 0);
    assert_eq!(Code::UNKNOWN.value(), 2);
    assert_eq!(Code::INVALID_ARGUMENT.value(), 3);
    assert_eq!(Code::NOT_FOUND.value(), 5);
    assert_eq!(Code::INTERNAL.value(), 13);
    assert_eq!(Code::UNAUTHENTICATED.value(), 16);
    for n in 0..=16 {
        assert_eq!(Code::from_i32(n).unwrap().value(), n);
    }
    assert_eq!(Code::from_i32(17), None);
    assert_eq!(Code::from_i32(-1), None);
    assert_eq!(Code::from_i32(i32::MAX), None);
}

#[test]
fn status_is_code_and_message() {
    assert_eq!(
        get_status(Code::INTERNAL, "oops".to_string()),
        Status { code: Code::INTERNAL, message: "oops".to_string() }
    );
}

#[test]
fn fatal_errors() {
    assert!(Error::Socket("x".to_string()).fatal());
    assert!(Error::Protocol("x".to_string()).fatal());
    assert!(!Error::Others("x".to_string()).fatal());
    assert!(!Error::RpcStatus(get_status(Code::OK, String::new())).fatal());
}
