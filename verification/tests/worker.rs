use std::sync::atomic::{AtomicUsize, Ordering};
use std::sync::mpsc::{channel, Receiver};
use std::sync::Arc;
use ttrpc::channel::{FrameReader, MessageHeader, ReadOutcome};
use ttrpc::error::{get_status, Code, Error};
use ttrpc::handler::{
    reply_of, response_to_channel, Frame, MethodHandler, PreHandler, TtrpcContext,
};
use ttrpc::proto::{parse_from_bytes, write_to_bytes, Request, Response};
use ttrpc::router::Methods;
use ttrpc::worker::{
    check_method_handler_threads, classify, control, handle_message, method_path,
    start_method_handler_threads, verdict_of, AfterRead, ControlAction, ControlEvent, Engine,
    Step, Verdict, WorkerAction, WorkerEvent, WriterAction,
};

struct Echo;

impl MethodHandler for Echo {
    fn handler(&self, ctx: TtrpcContext, req: Request) -> Result<(), Error> {
        response_to_channel(ctx.mh.stream_id, reply_of(Ok(req.payload)), ctx.res_tx)
    }
}

struct Refuse;

impl MethodHandler for Refuse {
    fn handler(&self, ctx: TtrpcContext, _req: Request) -> Result<(), Error> {
        let status = get_status(Code::PERMISSION_DENIED, "no".to_string());
        response_to_channel(ctx.mh.stream_id, reply_of(Err(Error::RpcStatus(status))), ctx.res_tx)
    }
}

struct Broken;

impl MethodHandler for Broken {
    fn handler(&self, _ctx: TtrpcContext, _req: Request) -> Result<(), Error> {
        Err(Error::Others("broken".to_string()))
    }
}

struct Seen {
    fd: Arc<AtomicUsize>,
    flags: Arc<AtomicUsize>,
    payload_len: Arc<AtomicUsize>,
}

impl MethodHandler for Seen {
    fn handler(&self, ctx: TtrpcContext, req: Request) -> Result<(), Error> {
        self.fd.store(ctx.fd as usize, Ordering::SeqCst);
        self.flags.store(ctx.mh.flags as usize, Ordering::SeqCst);
        self.payload_len.store(req.payload.len(), Ordering::SeqCst);
        Ok(())
    }
}

struct Hook {
    calls: Arc<AtomicUsize>,
    stream_ids: Arc<AtomicUsize>,
    fail: bool,
}

impl PreHandler for Hook {
    fn handler(&self, ctx: &TtrpcContext) -> Result<(), Error> {
        self.calls.fetch_add(1, Ordering::SeqCst);
        self.stream_ids.fetch_add(ctx.mh.stream_id as usize, Ordering::SeqCst);
        if self.fail {
            Err(Error::Others("hook".to_string()))
        } else {
            Ok(())
        }
    }
}

fn methods() -> Methods {
    let mut methods = Methods::new();
    methods.insert("/Echo/Ping".to_string(), Box::new(Echo));
    methods.insert("/Echo/Refuse".to_string(), Box::new(Refuse));
    methods.insert("/Echo/Broken".to_string(), Box::new(Broken));
    methods
}

fn request(service: &str, method: &str, payload: &[u8]) -> Request {
    Request {
        service: service.to_string(),
        method: method.to_string(),
        timeout_nano: 0,
        metadata: Vec::new(),
        payload: payload.to_vec(),
    }
}

fn request_frame(stream_id: u32, req: &Request) -> Frame {
    let payload = write_to_bytes(req);
    (MessageHeader::new_request(stream_id, payload.len() as u32), payload)
}

fn one_response(rx: &Receiver<Frame>) -> (MessageHeader, Response) {
    let (mh, buf) = rx.try_recv().unwrap();
    assert!(rx.try_recv().is_err());
    assert_eq!(mh.length as usize, buf.len());
    (mh, parse_from_bytes::<Response>(&buf).unwrap())
}

#[test]
fn path_of_a_method() {
    assert_eq!(method_path("Echo", "Ping"), "/Echo/Ping");
    assert_eq!(method_path("", ""), "//");
    assert_eq!(method_path("a.b.C", "d/e"), "/a.b.C/d/e");
}

#[test]
fn happy_path() {
    let (tx, rx) = channel();
    let frame = request_frame(7, &request("Echo", "Ping", b"hi"));
    assert_eq!(handle_message(&methods(), &None, 3, Ok(frame), &tx), Verdict::Continue);
    let (mh, buf) = rx.try_recv().unwrap();
    assert_eq!(mh, MessageHeader { length: 6, stream_id: 7, type_: 2, flags: 0 });
    assert_eq!(
        buf,
        write_to_bytes(&Response {
            status: Some(get_status(Code::OK, String::new())),
            payload: b"hi".to_vec()
        })
    );
    assert!(rx.try_recv().is_err());
}

#[test]
fn missing_route() {
    let (tx, rx) = channel();
    let routes = methods();
    let frame = request_frame(7, &request("Echo", "Pong", b"hi"));
    assert_eq!(handle_message(&routes, &None, 3, Ok(frame), &tx), Verdict::Continue);
    let (mh, buf) = rx.try_recv().unwrap();
    let expected = write_to_bytes(&Response {
        status: Some(get_status(Code::INVALID_ARGUMENT, "/Echo/Pong does not exist".to_string())),
        payload: Vec::new(),
    });
    assert_eq!(mh, MessageHeader { length: expected.len() as u32, stream_id: 7, type_: 2, flags: 0 });
    assert_eq!(buf, expected);
    let frame = request_frame(8, &request("Echo", "Ping", b"again"));
    assert_eq!(handle_message(&routes, &None, 3, Ok(frame), &tx), Verdict::Continue);
    let (mh, res) = one_response(&rx);
    assert_eq!(mh.stream_id, 8);
    assert_eq!(res.status, Some(get_status(Code::OK, String::new())));
    assert_eq!(res.payload, b"again");
}

#[test]
fn bad_decode() {
    let (tx, rx) = channel();
    let routes = methods();
    let frame = (MessageHeader::new_request(1, 2), vec![0xff, 0xff]);
    assert_eq!(handle_message(&routes, &None, 3, Ok(frame), &tx), Verdict::Continue);
    let (mh, res) = one_response(&rx);
    assert_eq!(mh.stream_id, 1);
    assert_eq!(mh.type_, 2);
    assert_eq!(
        res.status,
        Some(get_status(Code::INVALID_ARGUMENT, "unexpected EOF".to_string()))
    );
    assert!(res.payload.is_empty());
    let frame = request_frame(2, &request("Echo", "Ping", b"still open"));
    assert_eq!(handle_message(&routes, &None, 3, Ok(frame), &tx), Verdict::Continue);
    assert_eq!(one_response(&rx).1.payload, b"still open");
}

#[test]
fn stream_id_is_echoed() {
    let (tx, rx) = channel();
    let routes = methods();
    for stream_id in [0, 1, 2, 3, 0x8000_0000, u32::MAX] {
        for method in ["Ping", "Refuse", "Nothing"] {
            let frame = request_frame(stream_id, &request("Echo", method, b"x"));
            assert_eq!(handle_message(&routes, &None, 3, Ok(frame), &tx), Verdict::Continue);
            assert_eq!(one_response(&rx).0.stream_id, stream_id);
        }
        let frame = (MessageHeader::new_request(stream_id, 1), vec![0x08]);
        assert_eq!(handle_message(&routes, &None, 3, Ok(frame), &tx), Verdict::Continue);
        assert_eq!(one_response(&rx).0.stream_id, stream_id);
    }
}

#[test]
fn status_of_the_service_is_sent_as_it_is() {
    let (tx, rx) = channel();
    let frame = request_frame(5, &request("Echo", "Refuse", b""));
    assert_eq!(handle_message(&methods(), &None, 3, Ok(frame), &tx), Verdict::Continue);
    let (_, res) = one_response(&rx);
    assert_eq!(res.status, Some(get_status(Code::PERMISSION_DENIED, "no".to_string())));
}

#[test]
fn handler_failure_gives_the_connection_up() {
    let (tx, rx) = channel();
    let frame = request_frame(5, &request("Echo", "Broken", b""));
    assert_eq!(handle_message(&methods(), &None, 3, Ok(frame), &tx), Verdict::Quit);
    assert!(rx.try_recv().is_err());
}

#[test]
fn closed_channel_gives_the_connection_up() {
    let (tx, rx) = channel();
    drop(rx);
    let routes = methods();
    let frame = request_frame(5, &request("Echo", "Nothing", b""));
    assert_eq!(handle_message(&routes, &None, 3, Ok(frame), &tx), Verdict::Quit);
    let frame = request_frame(5, &request("Echo", "Ping", b""));
    assert_eq!(handle_message(&routes, &None, 3, Ok(frame), &tx), Verdict::Quit);
    let frame = (MessageHeader::new_response(5, 0), Vec::new());
    assert_eq!(handle_message(&routes, &None, 3, Ok(frame), &tx), Verdict::Continue);
}

#[test]
fn other_frames_are_dropped() {
    let (tx, rx) = channel();
    let routes = methods();
    let payload = write_to_bytes(&request("Echo", "Ping", b"hi"));
    for type_ in [0u8, 2, 3, 255] {
        let mh = MessageHeader { length: payload.len() as u32, stream_id: 7, type_, flags: 0 };
        assert_eq!(classify(&routes, Ok((mh, payload.clone()))), Step::Skip);
        assert_eq!(handle_message(&routes, &None, 3, Ok((mh, payload.clone())), &tx), Verdict::Continue);
        assert!(rx.try_recv().is_err());
    }
}

#[test]
fn flags_are_ignored() {
    let (tx, rx) = channel();
    let flags_seen = Arc::new(AtomicUsize::new(0));
    let mut routes = methods();
    routes.insert(
        "/Echo/Seen".to_string(),
        Box::new(Seen {
            fd: Arc::new(AtomicUsize::new(0)),
            flags: flags_seen.clone(),
            payload_len: Arc::new(AtomicUsize::new(0)),
        }),
    );
    let payload = write_to_bytes(&request("Echo", "Ping", b"hi"));
    for flags in [1u8, 0x80, 0xff] {
        let mh = MessageHeader { length: payload.len() as u32, stream_id: 7, type_: 1, flags };
        assert_eq!(handle_message(&routes, &None, 3, Ok((mh, payload.clone())), &tx), Verdict::Continue);
        let (mh, res) = one_response(&rx);
        assert_eq!(mh, MessageHeader { length: 6, stream_id: 7, type_: 2, flags: 0 });
        assert_eq!(res.payload, b"hi");
    }
    let payload = write_to_bytes(&request("Echo", "Seen", b""));
    let mh = MessageHeader { length: payload.len() as u32, stream_id: 7, type_: 1, flags: 0x42 };
    assert_eq!(handle_message(&routes, &None, 3, Ok((mh, payload)), &tx), Verdict::Continue);
    assert_eq!(flags_seen.load(Ordering::SeqCst), 0x42);
}

#[test]
fn handler_sees_the_socket_and_an_empty_payload() {
    let (tx, _rx) = channel();
    let fd = Arc::new(AtomicUsize::new(0));
    let payload_len = Arc::new(AtomicUsize::new(99));
    let mut routes = Methods::new();
    routes.insert(
        "/S/M".to_string(),
        Box::new(Seen {
            fd: fd.clone(),
            flags: Arc::new(AtomicUsize::new(0)),
            payload_len: payload_len.clone(),
        }),
    );
    let frame = request_frame(1, &request("S", "M", b""));
    assert_eq!(handle_message(&routes, &None, 42, Ok(frame), &tx), Verdict::Continue);
    assert_eq!(fd.load(Ordering::SeqCst), 42);
    assert_eq!(payload_len.load(Ordering::SeqCst), 0);
}

#[test]
fn frame_without_payload_is_routed() {
    let (tx, rx) = channel();
    let payload_len = Arc::new(AtomicUsize::new(99));
    let mut routes = methods();
    let frame = (MessageHeader::new_request(4, 0), Vec::new());
    assert_eq!(
        classify(&routes, Ok(frame.clone())),
        Step::Reject {
            stream_id: 4,
            status: get_status(Code::INVALID_ARGUMENT, "// does not exist".to_string())
        }
    );
    assert_eq!(handle_message(&routes, &None, 3, Ok(frame.clone()), &tx), Verdict::Continue);
    assert_eq!(one_response(&rx).1.status.unwrap().message, "// does not exist");
    routes.insert(
        "//".to_string(),
        Box::new(Seen {
            fd: Arc::new(AtomicUsize::new(0)),
            flags: Arc::new(AtomicUsize::new(0)),
            payload_len: payload_len.clone(),
        }),
    );
    assert_eq!(
        classify(&routes, Ok(frame.clone())),
        Step::Invoke { path: "//".to_string(), mh: frame.0, req: request("", "", b"") }
    );
    assert_eq!(handle_message(&routes, &None, 3, Ok(frame), &tx), Verdict::Continue);
    assert_eq!(payload_len.load(Ordering::SeqCst), 0);
}

#[test]
fn errors_are_sorted() {
    let (tx, rx) = channel();
    let routes = methods();
    assert_eq!(classify(&routes, Err(Error::Socket("gone".to_string()))), Step::Quit);
    assert_eq!(classify(&routes, Err(Error::Protocol("long".to_string()))), Step::Quit);
    assert_eq!(classify(&routes, Err(Error::Others("odd".to_string()))), Step::Skip);
    assert_eq!(
        classify(&routes, Err(Error::RpcStatus(get_status(Code::INTERNAL, String::new())))),
        Step::Skip
    );
    assert_eq!(
        handle_message(&routes, &None, 3, Err(Error::Socket("gone".to_string())), &tx),
        Verdict::Quit
    );
    assert_eq!(
        handle_message(&routes, &None, 3, Err(Error::Protocol("long".to_string())), &tx),
        Verdict::Quit
    );
    assert_eq!(
        handle_message(&routes, &None, 3, Err(Error::Others("odd".to_string())), &tx),
        Verdict::Continue
    );
    assert!(rx.try_recv().is_err());
}

#[test]
fn oversized_frame_ends_the_connection_without_a_response() {
    let (tx, rx) = channel();
    let mut reader = FrameReader::new();
    reader
        .accept(ReadOutcome::Data(MessageHeader::new_request(9, 4 * 1024 * 1024 + 1).to_bytes()))
        .unwrap();
    assert_eq!(reader.wanted(), 0);
    let read = reader.finish();
    assert!(matches!(read, Err(Error::Protocol(_))));
    assert_eq!(handle_message(&methods(), &None, 3, read, &tx), Verdict::Quit);
    assert!(rx.try_recv().is_err());
}

#[test]
fn peer_close_ends_the_connection() {
    let (tx, rx) = channel();
    let mut reader = FrameReader::new();
    let read = match reader.accept(ReadOutcome::Closed) {
        Ok(()) => reader.finish(),
        Err(e) => Err(e),
    };
    assert_eq!(read, Err(Error::Socket("socket disconnected".to_string())));
    let mut engine = Engine::new(3, 1, 5);
    assert!(engine.enter());
    assert_eq!(engine.leave(), AfterRead::HandleAndSignal);
    assert_eq!(handle_message(&methods(), &None, 3, read, &tx), Verdict::Quit);
    engine.close();
    assert!(engine.is_quit());
    assert_eq!(control(&engine, ControlEvent::Woken), ControlAction::Teardown);
    assert!(!engine.enter());
    assert!(rx.try_recv().is_err());
}

#[test]
fn classification_of_requests() {
    let routes = methods();
    let req = request("Echo", "Ping", b"hi");
    let frame = request_frame(7, &req);
    assert_eq!(
        classify(&routes, Ok(frame.clone())),
        Step::Invoke { path: "/Echo/Ping".to_string(), mh: frame.0, req }
    );
    let frame = request_frame(7, &request("echo", "Ping", b"hi"));
    assert_eq!(
        classify(&routes, Ok(frame)),
        Step::Reject {
            stream_id: 7,
            status: get_status(Code::INVALID_ARGUMENT, "/echo/Ping does not exist".to_string())
        }
    );
    assert_eq!(
        classify(&routes, Ok((MessageHeader::new_request(9, 3), vec![0x0a, 1, 0xff]))),
        Step::Reject {
            stream_id: 9,
            status: get_status(Code::INVALID_ARGUMENT, "invalid UTF-8 sequence".to_string())
        }
    );
    assert_eq!(
        classify(&Methods::new(), Ok(request_frame(1, &request("Echo", "Ping", b"")))),
        Step::Reject {
            stream_id: 1,
            status: get_status(Code::INVALID_ARGUMENT, "/Echo/Ping does not exist".to_string())
        }
    );
}

#[test]
fn hook_runs_before_every_handler() {
    let (tx, rx) = channel();
    let calls = Arc::new(AtomicUsize::new(0));
    let stream_ids = Arc::new(AtomicUsize::new(0));
    let hook: Option<Box<dyn PreHandler>> =
        Some(Box::new(Hook { calls: calls.clone(), stream_ids: stream_ids.clone(), fail: false }));
    let routes = methods();
    let frame = request_frame(7, &request("Echo", "Ping", b"hi"));
    assert_eq!(handle_message(&routes, &hook, 3, Ok(frame), &tx), Verdict::Continue);
    assert_eq!(calls.load(Ordering::SeqCst), 1);
    assert_eq!(stream_ids.load(Ordering::SeqCst), 7);
    let frame = request_frame(10, &request("Echo", "Broken", b"hi"));
    assert_eq!(handle_message(&routes, &hook, 3, Ok(frame), &tx), Verdict::Quit);
    assert_eq!(calls.load(Ordering::SeqCst), 2);
    assert_eq!(stream_ids.load(Ordering::SeqCst), 17);
    let frame = request_frame(7, &request("Echo", "Nothing", b"hi"));
    assert_eq!(handle_message(&routes, &hook, 3, Ok(frame), &tx), Verdict::Continue);
    let frame = (MessageHeader::new_response(7, 0), Vec::new());
    assert_eq!(handle_message(&routes, &hook, 3, Ok(frame), &tx), Verdict::Continue);
    assert_eq!(calls.load(Ordering::SeqCst), 2);
    assert_eq!(rx.try_iter().count(), 2);
}

#[test]
fn hook_that_fails_changes_nothing() {
    let (tx, rx) = channel();
    let calls = Arc::new(AtomicUsize::new(0));
    let hook: Option<Box<dyn PreHandler>> = Some(Box::new(Hook {
        calls: calls.clone(),
        stream_ids: Arc::new(AtomicUsize::new(0)),
        fail: true,
    }));
    let frame = request_frame(7, &request("Echo", "Ping", b"hi"));
    assert_eq!(handle_message(&methods(), &hook, 3, Ok(frame), &tx), Verdict::Continue);
    assert_eq!(calls.load(Ordering::SeqCst), 1);
    assert_eq!(one_response(&rx).1.payload, b"hi");
}

#[test]
fn verdicts() {
    assert_eq!(verdict_of(&Ok(())), Verdict::Continue);
    assert_eq!(verdict_of(&Err(Error::Others(String::new()))), Verdict::Quit);
    assert_eq!(
        verdict_of(&Err(Error::RpcStatus(get_status(Code::OK, String::new())))),
        Verdict::Quit
    );
}

#[test]
fn router_holds_one_handler_for_a_path() {
    let mut routes = Methods::new();
    assert_eq!(routes.len(), 0);
    assert!(!routes.contains_key("/Echo/Ping"));
    assert!(routes.get("/Echo/Ping").is_none());
    routes.insert("/Echo/Ping".to_string(), Box::new(Broken));
    routes.insert("/Echo/Ping".to_string(), Box::new(Echo));
    assert_eq!(routes.len(), 1);
    assert!(routes.contains_key("/Echo/Ping"));
    assert!(routes.get("/Echo/Ping").is_some());
    let (tx, rx) = channel();
    let frame = request_frame(7, &request("Echo", "Ping", b"hi"));
    assert_eq!(handle_message(&routes, &None, 3, Ok(frame), &tx), Verdict::Continue);
    assert_eq!(one_response(&rx).1.payload, b"hi");
}

#[test]
fn router_takes_in_another() {
    let mut routes = Methods::new();
    routes.insert("/A/x".to_string(), Box::new(Broken));
    routes.insert("/A/y".to_string(), Box::new(Echo));
    let mut more = Methods::new();
    more.insert("/A/x".to_string(), Box::new(Echo));
    more.insert("/B/z".to_string(), Box::new(Echo));
    routes.extend(more);
    assert_eq!(routes.len(), 3);
    let (tx, rx) = channel();
    for (i, (service, method)) in [("A", "x"), ("A", "y"), ("B", "z")].iter().enumerate() {
        let frame = request_frame(i as u32, &request(service, method, b"p"));
        assert_eq!(handle_message(&routes, &None, 3, Ok(frame), &tx), Verdict::Continue);
        assert_eq!(one_response(&rx).0.stream_id, i as u32);
    }
}

#[test]
fn pool_admits_workers_up_to_the_maximum() {
    let mut engine = Engine::new(3, 1, 5);
    assert_eq!(engine.waiting(), 0);
    for n in 1..=5 {
        assert!(engine.enter());
        assert_eq!(engine.waiting(), n);
    }
    assert!(!engine.enter());
    assert!(!engine.enter());
    assert_eq!(engine.waiting(), 5);
}

#[test]
fn pool_signals_below_the_minimum() {
    let mut engine = Engine::new(4, 2, 6);
    for _ in 0..4 {
        assert!(engine.enter());
    }
    assert_eq!(engine.leave(), AfterRead::Handle);
    assert_eq!(engine.waiting(), 3);
    assert_eq!(engine.leave(), AfterRead::Handle);
    assert_eq!(engine.waiting(), 2);
    assert_eq!(check_method_handler_threads(&engine), 0);
    assert_eq!(engine.leave(), AfterRead::HandleAndSignal);
    assert_eq!(engine.waiting(), 1);
    assert_eq!(check_method_handler_threads(&engine), 3);
    assert_eq!(engine.leave(), AfterRead::HandleAndSignal);
    assert_eq!(engine.waiting(), 0);
    assert_eq!(check_method_handler_threads(&engine), 4);
    assert_eq!(engine.leave(), AfterRead::HandleAndSignal);
    assert_eq!(engine.waiting(), 0);
}

#[test]
fn pool_settles_within_its_bounds() {
    for (default, min, max) in [(3usize, 1usize, 5usize), (2, 1, 3), (10, 4, 11), (5, 0, 6)] {
        for start in 0..=max {
            let mut engine = Engine::new(default, min, max);
            for _ in 0..start {
                assert!(engine.enter());
            }
            let n = check_method_handler_threads(&engine);
            for _ in 0..n {
                assert!(engine.enter());
            }
            assert!(min <= engine.waiting() && engine.waiting() <= max);
            assert_eq!(check_method_handler_threads(&engine), 0);
            if start < min {
                assert_eq!(engine.waiting(), default);
            } else {
                assert_eq!(engine.waiting(), start);
            }
        }
    }
}

#[test]
fn pool_that_is_given_up_stays_so() {
    let mut engine = Engine::new(3, 1, 5);
    assert!(engine.enter());
    assert!(engine.enter());
    assert!(!engine.is_quit());
    engine.close();
    assert!(engine.is_quit());
    assert!(!engine.enter());
    assert_eq!(engine.leave(), AfterRead::Stop);
    assert_eq!(engine.waiting(), 2);
    assert_eq!(check_method_handler_threads(&engine), 0);
    assert_eq!(start_method_handler_threads(3, &engine), 0);
    engine.close();
    assert!(engine.is_quit());
}

#[test]
fn workers_are_started_unless_given_up() {
    let engine = Engine::new(3, 1, 5);
    assert_eq!(start_method_handler_threads(3, &engine), 3);
    assert_eq!(start_method_handler_threads(0, &engine), 0);
    assert_eq!(check_method_handler_threads(&engine), 3);
}

#[test]
fn control_loop() {
    let mut engine = Engine::new(3, 1, 5);
    assert_eq!(control(&engine, ControlEvent::Started), ControlAction::Spawn(3));
    assert_eq!(control(&engine, ControlEvent::Woken), ControlAction::Spawn(3));
    assert!(engine.enter());
    assert_eq!(control(&engine, ControlEvent::Woken), ControlAction::Spawn(0));
    assert_eq!(control(&engine, ControlEvent::Disconnected), ControlAction::Teardown);
    engine.close();
    assert_eq!(control(&engine, ControlEvent::Started), ControlAction::Teardown);
    assert_eq!(control(&engine, ControlEvent::Woken), ControlAction::Teardown);
    assert_eq!(control(&engine, ControlEvent::Disconnected), ControlAction::Teardown);
}

#[test]
fn worker_round() {
    let mut engine = Engine::new(3, 1, 5);
    assert_eq!(engine.work(WorkerEvent::Begin), WorkerAction::Lock);
    assert_eq!(engine.waiting(), 1);
    assert_eq!(engine.work(WorkerEvent::Locked), WorkerAction::Read);
    assert_eq!(engine.work(WorkerEvent::ReadDone), WorkerAction::Handle { signal: true });
    assert_eq!(engine.waiting(), 0);
    assert_eq!(engine.work(WorkerEvent::Handled(Verdict::Continue)), WorkerAction::Lock);
    assert_eq!(engine.waiting(), 1);
    assert_eq!(engine.work(WorkerEvent::Begin), WorkerAction::Lock);
    assert_eq!(engine.work(WorkerEvent::Begin), WorkerAction::Lock);
    assert_eq!(engine.waiting(), 3);
    assert_eq!(engine.work(WorkerEvent::ReadDone), WorkerAction::Handle { signal: false });
    assert_eq!(engine.work(WorkerEvent::ReadDone), WorkerAction::Handle { signal: false });
    assert_eq!(engine.work(WorkerEvent::ReadDone), WorkerAction::Handle { signal: true });
    assert!(!engine.is_quit());
}

#[test]
fn worker_ends_when_the_pool_is_full() {
    let mut engine = Engine::new(2, 1, 3);
    for _ in 0..3 {
        assert_eq!(engine.work(WorkerEvent::Begin), WorkerAction::Lock);
    }
    assert_eq!(engine.work(WorkerEvent::Begin), WorkerAction::Exit);
    assert_eq!(engine.work(WorkerEvent::Handled(Verdict::Continue)), WorkerAction::Exit);
    assert_eq!(engine.waiting(), 3);
    assert!(!engine.is_quit());
}

#[test]
fn worker_gives_the_connection_up_after_a_verdict_to_quit() {
    let mut engine = Engine::new(3, 1, 5);
    assert_eq!(engine.work(WorkerEvent::Begin), WorkerAction::Lock);
    assert_eq!(engine.work(WorkerEvent::Begin), WorkerAction::Lock);
    assert_eq!(engine.work(WorkerEvent::Locked), WorkerAction::Read);
    assert_eq!(engine.work(WorkerEvent::ReadDone), WorkerAction::Handle { signal: false });
    assert_eq!(engine.work(WorkerEvent::Handled(Verdict::Quit)), WorkerAction::SignalAndExit);
    assert!(engine.is_quit());
    assert_eq!(engine.work(WorkerEvent::Locked), WorkerAction::SignalAndExit);
    assert_eq!(engine.work(WorkerEvent::ReadDone), WorkerAction::SignalAndExit);
    assert_eq!(engine.work(WorkerEvent::Begin), WorkerAction::Exit);
    assert_eq!(engine.work(WorkerEvent::Handled(Verdict::Continue)), WorkerAction::Exit);
    assert_eq!(engine.work(WorkerEvent::Handled(Verdict::Quit)), WorkerAction::SignalAndExit);
    assert_eq!(engine.waiting(), 1);
    assert_eq!(control(&engine, ControlEvent::Woken), ControlAction::Teardown);
}

#[test]
fn lock_is_held_from_the_take_to_the_end_of_the_read() {
    let mut engine = Engine::new(3, 1, 5);
    assert!(!engine.is_reading());
    assert_eq!(engine.work(WorkerEvent::Begin), WorkerAction::Lock);
    assert!(!engine.is_reading());
    assert_eq!(engine.work(WorkerEvent::Locked), WorkerAction::Read);
    assert!(engine.is_reading());
    assert_eq!(engine.work(WorkerEvent::Begin), WorkerAction::Lock);
    assert!(engine.is_reading());
    assert_eq!(engine.work(WorkerEvent::ReadDone), WorkerAction::Handle { signal: false });
    assert!(!engine.is_reading());
    assert_eq!(engine.work(WorkerEvent::Locked), WorkerAction::Read);
    assert!(engine.is_reading());
    assert_eq!(engine.work(WorkerEvent::Handled(Verdict::Continue)), WorkerAction::Lock);
    assert!(engine.is_reading());
    engine.close();
    assert_eq!(engine.work(WorkerEvent::ReadDone), WorkerAction::SignalAndExit);
    assert!(!engine.is_reading());
    assert_eq!(engine.work(WorkerEvent::Locked), WorkerAction::SignalAndExit);
    assert!(!engine.is_reading());
}

#[test]
fn failed_write_gives_the_connection_up() {
    let mut engine = Engine::new(3, 1, 5);
    assert_eq!(engine.wrote(&Ok(())), WriterAction::Continue);
    assert!(!engine.is_quit());
    assert_eq!(engine.wrote(&Err(Error::Socket("EPIPE".to_string()))), WriterAction::Stop);
    assert!(engine.is_quit());
    assert_eq!(engine.wrote(&Ok(())), WriterAction::Continue);
    assert!(engine.is_quit());
    assert_eq!(control(&engine, ControlEvent::Woken), ControlAction::Teardown);
}

#[test]
fn rejection_that_is_sent_is_a_status_under_the_stream_id() {
    let (tx, rx) = channel();
    let frame = request_frame(77, &request("No", "Where", b"x"));
    assert_eq!(handle_message(&methods(), &None, 3, Ok(frame), &tx), Verdict::Continue);
    let (mh, buf) = rx.try_recv().unwrap();
    let expected = write_to_bytes(&ttrpc::handler::rejection(get_status(
        Code::INVALID_ARGUMENT,
        "/No/Where does not exist".to_string(),
    )));
    assert_eq!(buf, expected);
    assert_eq!(
        mh,
        MessageHeader { length: expected.len() as u32, stream_id: 77, type_: 2, flags: 0 }
    );
}
