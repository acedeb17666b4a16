//! What a worker of a connection does with what a read gave, and the
//! bookkeeping of the pool of workers that grows and shrinks with the load.

use crate::channel::{MessageHeader, MESSAGE_TYPE_REQUEST};
use crate::error::{get_status, Code, Error, ErrorView, Status, StatusView};
use crate::handler::{
    clone_sender, context_of, rejection, response_frame_of, response_to_channel, Frame,
    MethodHandler, PreHandler, RawFd,
};
use crate::proto::{decode, parse_from_bytes, Message, Request, RequestView, ResponseView};
use crate::router::Methods;
use crate::wire::wire_error_text;
use std::sync::mpsc::Sender;
use vstd::prelude::*;
use vstd::string::*;

verus! {

/// The path under which the handler of `method` of `service` is registered.
pub open spec fn path_of(service: Seq<char>, method: Seq<char>) -> Seq<char> {
    "/"@ + service + "/"@ + method
}

/// The text that tells the peer that nothing is registered under `path`.
pub open spec fn missing_text(path: Seq<char>) -> Seq<char> {
    path + " does not exist"@
}

/// What a worker does with what a read gave.
pub enum Disposition {
    /// The connection is given up.
    Quit,
    /// Nothing: the worker goes on to the next frame.
    Skip,
    /// The request cannot be served, and the peer is told why under the
    /// stream id of the request.
    Reject { stream_id: u32, status: StatusView },
    /// The request goes to the handler registered under `path`, with the
    /// header it came with.
    Invoke { path: Seq<char>, mh: MessageHeader, req: RequestView },
}

/// What a worker does with `read`, the outcome of reading one frame, when
/// handlers are registered under `routes`. A socket or protocol error gives
/// the connection up; any other error is passed over, and so is a frame
/// that is no request, whatever its flags. A request that cannot be decoded
/// is rejected with the decoder's text, one for a path without a handler
/// with the path; both as an invalid argument.
pub open spec fn disposition(
    read: Result<(MessageHeader, Seq<u8>), ErrorView>,
    routes: Set<Seq<char>>,
) -> Disposition {
    match read {
        Err(e) => if e is Socket || e is Protocol {
            Disposition::Quit
        } else {
            Disposition::Skip
        },
        Ok((mh, payload)) => if mh.type_ != MESSAGE_TYPE_REQUEST {
            Disposition::Skip
        } else {
            match decode::<Request>(payload) {
                Err(e) => Disposition::Reject {
                    stream_id: mh.stream_id,
                    status: StatusView { code: Code::INVALID_ARGUMENT, message: wire_error_text(e) },
                },
                Ok(req) => if routes.contains(path_of(req.service, req.method)) {
                    Disposition::Invoke { path: path_of(req.service, req.method), mh, req }
                } else {
                    Disposition::Reject {
                        stream_id: mh.stream_id,
                        status: StatusView {
                            code: Code::INVALID_ARGUMENT,
                            message: missing_text(path_of(req.service, req.method)),
                        },
                    }
                },
            }
        },
    }
}

/// A reply or a call is always for the request that was read: it carries
/// the stream id, and a call the whole header, that the request came with.
pub proof fn lemma_stream_id_is_echoed(mh: MessageHeader, payload: Seq<u8>, routes: Set<Seq<char>>)
    ensures
        match disposition(Ok((mh, payload)), routes) {
            Disposition::Reject { stream_id, .. } => stream_id == mh.stream_id,
            Disposition::Invoke { mh: handed, .. } => handed == mh,
            _ => true,
        },
{
}

/// A socket or protocol error gives the connection up, and nothing is sent
/// for it; any other error is passed over.
pub proof fn lemma_errors_are_sorted(e: ErrorView, routes: Set<Seq<char>>)
    ensures
        e is Socket || e is Protocol ==> disposition(Err(e), routes) == Disposition::Quit,
        e is RpcStatus || e is Others ==> disposition(Err(e), routes) == Disposition::Skip,
{
}

/// A frame that is no request is passed over.
pub proof fn lemma_other_frames_are_dropped(
    mh: MessageHeader,
    payload: Seq<u8>,
    routes: Set<Seq<char>>,
)
    requires
        mh.type_ != MESSAGE_TYPE_REQUEST,
    ensures
        disposition(Ok((mh, payload)), routes) == Disposition::Skip,
{
}

/// The flags of a frame change nothing in what is done with it, but that a
/// handler is handed the header with the flags it came with.
pub proof fn lemma_flags_are_ignored(
    mh: MessageHeader,
    flags: u8,
    payload: Seq<u8>,
    routes: Set<Seq<char>>,
)
    ensures
        match (
            disposition(Ok((mh, payload)), routes),
            disposition(Ok((MessageHeader { flags, ..mh }, payload)), routes),
        ) {
            (
                Disposition::Invoke { path, mh: first, req },
                Disposition::Invoke { path: other_path, mh: second, req: other_req },
            ) => path == other_path && req == other_req && second == (MessageHeader {
                flags,
                ..first
            }),
            (a, b) => a == b,
        },
{
}

/// A request frame without payload stands for the request of which every
/// field has its default, and is routed as such: to the handler under "//",
/// which is handed an empty payload, where there is one.
pub proof fn lemma_empty_payload_is_routed(mh: MessageHeader, routes: Set<Seq<char>>)
    requires
        mh.type_ == MESSAGE_TYPE_REQUEST,
    ensures
        decode::<Request>(Seq::empty()) == Ok::<RequestView, crate::wire::WireError>(
            Request::empty(),
        ),
        routes.contains(path_of(Seq::empty(), Seq::empty())) ==> disposition(
            Ok((mh, Seq::empty())),
            routes,
        ) == (Disposition::Invoke {
            path: path_of(Seq::empty(), Seq::empty()),
            mh,
            req: Request::empty(),
        }),
        !routes.contains(path_of(Seq::empty(), Seq::empty())) ==> disposition(
            Ok((mh, Seq::empty())),
            routes,
        ) is Reject,
{
}

/// What a worker does with what a read gave, with the values to do it with.
#[derive(Clone, Debug, PartialEq, Eq)]
pub enum Step {
    Quit,
    Skip,
    Reject { stream_id: u32, status: Status },
    Invoke { path: String, mh: MessageHeader, req: Request },
}

impl View for Step {
    type V = Disposition;

    open spec fn view(&self) -> Disposition {
        match self {
            Step::Quit => Disposition::Quit,
            Step::Skip => Disposition::Skip,
            Step::Reject { stream_id, status } => Disposition::Reject {
                stream_id: *stream_id,
                status: status@,
            },
            Step::Invoke { path, mh, req } => Disposition::Invoke {
                path: path@,
                mh: *mh,
                req: req@,
            },
        }
    }
}

/// What the outcome of reading one frame holds, as mathematical values.
pub open spec fn read_view(read: Result<Frame, Error>) -> Result<
    (MessageHeader, Seq<u8>),
    ErrorView,
> {
    match read {
        Ok(frame) => Ok((frame.0, frame.1@)),
        Err(e) => Err(e@),
    }
}

/// The path under which the handler of `method` of `service` is registered.
pub fn method_path(service: &str, method: &str) -> (path: String)
    ensures
        path@ == path_of(service@, method@),
{
    let mut path = String::from_str("/");
    path.append(service);
    path.append("/");
    path.append(method);
    path
}

/// What to do with `read`, the outcome of reading one frame.
pub fn classify(methods: &Methods, read: Result<Frame, Error>) -> (step: Step)
    ensures
        step@ == disposition(read_view(read), methods@.dom()),
{
    let (mh, payload) = match read {
        Ok(frame) => frame,
        Err(e) => {
            return if e.fatal() {
                Step::Quit
            } else {
                Step::Skip
            };
        },
    };
    if mh.type_ != MESSAGE_TYPE_REQUEST {
        return Step::Skip;
    }
    let req: Request = match parse_from_bytes::<Request>(payload.as_slice()) {
        Ok(req) => req,
        Err(e) => {
            return Step::Reject {
                stream_id: mh.stream_id,
                status: get_status(Code::INVALID_ARGUMENT, e.message()),
            };
        },
    };
    let path = method_path(req.service.as_str(), req.method.as_str());
    if methods.contains_key(path.as_str()) {
        Step::Invoke { path, mh, req }
    } else {
        let mut message = path;
        message.append(" does not exist");
        Step::Reject { stream_id: mh.stream_id, status: get_status(Code::INVALID_ARGUMENT, message) }
    }
}

/// Whether a worker goes on to the next frame or gives the connection up.
#[derive(Clone, Copy, Debug, PartialEq, Eq, Structural)]
pub enum Verdict {
    Continue,
    Quit,
}

/// What a worker does after a reply was sent or a handler has returned: it
/// goes on after success and gives the connection up after an error.
pub fn verdict_of(outcome: &Result<(), Error>) -> (v: Verdict)
    ensures
        outcome is Ok ==> v == Verdict::Continue,
        outcome is Err ==> v == Verdict::Quit,
{
    match outcome {
        Ok(_) => Verdict::Continue,
        Err(_) => Verdict::Quit,
    }
}

/// Whether what is to be done with a read is a rejection that does not fit
/// a frame: such a one is not sent, and the connection is given up.
pub open spec fn is_unsendable(d: Disposition) -> bool {
    d matches Disposition::Reject { stream_id, status } && response_frame_of(
        stream_id,
        ResponseView { status: Some(status), payload: Seq::empty() },
    ) is Err
}

/// Does what `classify` says of `read`. A rejection is sent to `res_tx` as
/// the response that `rejection` makes of its status, under the stream id
/// of the request. A call is made with the context that `context_of` makes
/// of `fd`, the header of the request and another handle on `res_tx`, after
/// the hook, if there is one, was run with the same context. What the send
/// or the handler returns decides as `verdict_of` says.
pub fn handle_message(
    methods: &Methods,
    pre_handler: &Option<Box<dyn PreHandler>>,
    fd: RawFd,
    read: Result<Frame, Error>,
    res_tx: &Sender<Frame>,
) -> (v: Verdict)
    ensures
        disposition(read_view(read), methods@.dom()) is Quit ==> v == Verdict::Quit,
        disposition(read_view(read), methods@.dom()) is Skip ==> v == Verdict::Continue,
        is_unsendable(disposition(read_view(read), methods@.dom())) ==> v == Verdict::Quit,
{
    match classify(methods, read) {
        Step::Quit => Verdict::Quit,
        Step::Skip => Verdict::Continue,
        Step::Reject { stream_id, status } => {
            verdict_of(&response_to_channel(stream_id, rejection(status), clone_sender(res_tx)))
        },
        Step::Invoke { path, mh, req } => match methods.get(path.as_str()) {
            Some(method) => {
                let ctx = context_of(fd, mh, clone_sender(res_tx));
                match pre_handler {
                    Some(hook) => {
                        let _ = hook.handler(&ctx);
                    },
                    None => {},
                }
                verdict_of(&method.handler(ctx, req))
            },
            None => {
                assert(false);
                Verdict::Continue
            },
        },
    }
}

/// The bookkeeping of the pool of workers of one connection: how many
/// workers wait to read, the bounds that the pool is held to, and whether
/// the connection is being given up. Whoever shares it among the workers
/// lets one of them at a time make a step.
pub struct Engine {
    waiting: usize,
    default: usize,
    min: usize,
    max: usize,
    quit: bool,
    reading: bool,
}

/// What an `Engine` holds, as mathematical values.
pub struct EngineView {
    /// How many workers wait to read a frame.
    pub waiting: nat,
    /// How many workers a pool is started with and refilled to.
    pub default: nat,
    /// The count below which the pool is refilled.
    pub min: nat,
    /// The count above which no worker stays.
    pub max: nat,
    /// Whether the connection is being given up.
    pub quit: bool,
    /// Whether a worker holds the lock that lets one at a time read.
    pub reading: bool,
}

/// What a worker does after a read.
#[derive(Clone, Copy, Debug, PartialEq, Eq, Structural)]
pub enum AfterRead {
    /// It handles what was read.
    Handle,
    /// It handles what was read, and first wakes the control loop, because
    /// fewer workers wait than the minimum.
    HandleAndSignal,
    /// It wakes the control loop and ends: the connection is being given up.
    Stop,
}

impl EngineView {
    /// The bounds are in order and no more workers wait than the maximum.
    pub open spec fn wf(self) -> bool {
        self.min < self.default < self.max && self.waiting <= self.max
    }

    /// After a worker has asked to wait for a frame: it is counted, unless
    /// the connection is being given up or as many wait as the maximum.
    pub open spec fn entered(self) -> EngineView {
        if self.quit || self.waiting >= self.max {
            self
        } else {
            EngineView { waiting: self.waiting + 1, ..self }
        }
    }

    /// Whether a worker that asks to wait for a frame is let.
    pub open spec fn admits(self) -> bool {
        !self.quit && self.waiting < self.max
    }

    /// After `n` workers in turn have asked to wait for a frame.
    pub open spec fn entered_times(self, n: nat) -> EngineView
        decreases n,
    {
        if n == 0 {
            self
        } else {
            self.entered().entered_times((n - 1) as nat)
        }
    }

    /// After a worker has read: it waits no longer, unless the connection is
    /// being given up, when the count is left as it is.
    pub open spec fn left(self) -> EngineView {
        if self.quit || self.waiting == 0 {
            self
        } else {
            EngineView { waiting: (self.waiting - 1) as nat, ..self }
        }
    }

    /// What a worker does after it has read.
    pub open spec fn after_read(self) -> AfterRead {
        if self.quit {
            AfterRead::Stop
        } else if self.left().waiting < self.min {
            AfterRead::HandleAndSignal
        } else {
            AfterRead::Handle
        }
    }

    /// How many workers the control loop starts when it wakes: as many as
    /// bring the count to the default when fewer wait than the minimum, and
    /// none when the connection is being given up.
    pub open spec fn refill(self) -> nat {
        if !self.quit && self.waiting < self.min {
            (self.default - self.waiting) as nat
        } else {
            0
        }
    }

    /// After the connection was given up.
    pub open spec fn closed(self) -> EngineView {
        EngineView { quit: true, ..self }
    }
}

/// Workers that ask to wait are counted up to the maximum.
pub proof fn lemma_entered_times(v: EngineView, n: nat)
    requires
        v.wf(),
        !v.quit,
    ensures
        v.entered_times(n) == (EngineView {
            waiting: if v.waiting + n <= v.max {
                v.waiting + n
            } else {
                v.max
            },
            ..v
        }),
    decreases n,
{
    if n > 0 {
        lemma_entered_times(v.entered(), (n - 1) as nat);
    }
}

/// Once the control loop has woken and the workers it started wait, the
/// count of waiting workers is within the bounds, as long as the connection
/// is not being given up.
pub proof fn lemma_settled_within_bounds(v: EngineView)
    requires
        v.wf(),
        !v.quit,
    ensures
        v.min <= v.entered_times(v.refill()).waiting <= v.max,
        v.entered_times(v.refill()).wf(),
        v.entered_times(v.refill()).refill() == 0,
{
    lemma_entered_times(v, v.refill());
}

/// No step takes the count of waiting workers over the maximum, and none
/// takes back that the connection is being given up.
pub proof fn lemma_steps_keep_bounds(v: EngineView)
    requires
        v.wf(),
    ensures
        v.entered().wf(),
        v.left().wf(),
        v.closed().wf(),
        v.quit ==> v.entered().quit && v.left().quit && v.closed().quit,
        v.closed().quit,
{
}

impl View for Engine {
    type V = EngineView;

    closed spec fn view(&self) -> EngineView {
        EngineView {
            waiting: self.waiting as nat,
            default: self.default as nat,
            min: self.min as nat,
            max: self.max as nat,
            quit: self.quit,
            reading: self.reading,
        }
    }
}

impl Engine {
    #[verifier::type_invariant]
    spec fn bounds_hold(self) -> bool {
        self@.wf()
    }

    /// The bookkeeping of a pool in which no worker waits yet.
    pub fn new(default: usize, min: usize, max: usize) -> (e: Engine)
        requires
            min < default < max,
        ensures
            e@ == (EngineView {
                waiting: 0,
                default: default as nat,
                min: min as nat,
                max: max as nat,
                quit: false,
                reading: false,
            }),
            e@.wf(),
    {
        Engine { waiting: 0, default, min, max, quit: false, reading: false }
    }

    /// Whether the connection is being given up.
    pub fn is_quit(&self) -> (b: bool)
        ensures
            b == self@.quit,
            self@.wf(),
    {
        proof {
            use_type_invariant(self);
        }
        self.quit
    }

    /// How many workers wait to read a frame.
    pub fn waiting(&self) -> (n: usize)
        ensures
            n == self@.waiting,
            self@.wf(),
    {
        proof {
            use_type_invariant(self);
        }
        self.waiting
    }

    /// A worker asks to wait for a frame. It is let, and counted, unless the
    /// connection is being given up or as many wait as the maximum: then it
    /// ends, and the pool has shrunk by one.
    pub fn enter(&mut self) -> (admitted: bool)
        ensures
            admitted == old(self)@.admits(),
            final(self)@ == old(self)@.entered(),
            final(self)@.wf(),
    {
        proof {
            use_type_invariant(&*self);
        }
        if self.quit || self.waiting >= self.max {
            false
        } else {
            self.waiting = self.waiting + 1;
            true
        }
    }

    /// A worker has read. Unless the connection is being given up it waits
    /// no longer, and is told to wake the control loop when fewer wait now
    /// than the minimum.
    pub fn leave(&mut self) -> (next: AfterRead)
        ensures
            next == old(self)@.after_read(),
            final(self)@ == old(self)@.left(),
            final(self)@.wf(),
    {
        proof {
            use_type_invariant(&*self);
        }
        if self.quit {
            return AfterRead::Stop;
        }
        if self.waiting > 0 {
            self.waiting = self.waiting - 1;
        }
        if self.waiting < self.min {
            AfterRead::HandleAndSignal
        } else {
            AfterRead::Handle
        }
    }

    /// What the worker that reports `event` does next.
    pub fn work(&mut self, event: WorkerEvent) -> (action: WorkerAction)
        ensures
            final(self)@ == worker_step(old(self)@, event).0,
            action == worker_step(old(self)@, event).1,
            final(self)@.wf(),
    {
        match event {
            WorkerEvent::Begin | WorkerEvent::Handled(Verdict::Continue) => if self.enter() {
                WorkerAction::Lock
            } else {
                WorkerAction::Exit
            },
            WorkerEvent::Locked => if self.is_quit() {
                WorkerAction::SignalAndExit
            } else {
                proof {
                    use_type_invariant(&*self);
                }
                self.reading = true;
                WorkerAction::Read
            },
            WorkerEvent::ReadDone => {
                let next = self.leave();
                proof {
                    use_type_invariant(&*self);
                }
                self.reading = false;
                match next {
                    AfterRead::Stop => WorkerAction::SignalAndExit,
                    AfterRead::HandleAndSignal => WorkerAction::Handle { signal: true },
                    AfterRead::Handle => WorkerAction::Handle { signal: false },
                }
            },
            WorkerEvent::Handled(Verdict::Quit) => {
                self.close();
                WorkerAction::SignalAndExit
            },
        }
    }

    /// What the writer of responses does after a write that gave `outcome`.
    pub fn wrote(&mut self, outcome: &Result<(), Error>) -> (action: WriterAction)
        ensures
            final(self)@ == writer_step(old(self)@, outcome is Ok).0,
            action == writer_step(old(self)@, outcome is Ok).1,
            final(self)@.wf(),
    {
        proof {
            use_type_invariant(&*self);
        }
        match outcome {
            Ok(_) => WriterAction::Continue,
            Err(_) => {
                self.close();
                WriterAction::Stop
            },
        }
    }

    /// Whether a worker holds the lock that lets one at a time read.
    pub fn is_reading(&self) -> (b: bool)
        ensures
            b == self@.reading,
    {
        self.reading
    }

    /// Gives the connection up: from now on no worker is let wait.
    pub fn close(&mut self)
        ensures
            final(self)@ == old(self)@.closed(),
            final(self)@.wf(),
    {
        proof {
            use_type_invariant(&*self);
        }
        self.quit = true;
    }
}

/// What a worker of a connection reports.
#[derive(Clone, Copy, Debug, PartialEq, Eq, Structural)]
pub enum WorkerEvent {
    /// It has started.
    Begin,
    /// It holds the lock that lets one worker at a time read.
    Locked,
    /// It has read, successfully or not, and released the lock.
    ReadDone,
    /// It has done with what it read as `handle_message` says, with this
    /// verdict.
    Handled(Verdict),
}

/// What a worker of a connection does next.
#[derive(Clone, Copy, Debug, PartialEq, Eq, Structural)]
pub enum WorkerAction {
    /// Take the lock that lets one worker at a time read.
    Lock,
    /// Read one frame, then release the lock.
    Read,
    /// Handle what was read; before that, wake the control loop if `signal`
    /// says so.
    Handle { signal: bool },
    /// Release the lock if it is held, wake the control loop, and end.
    SignalAndExit,
    /// End.
    Exit,
}

/// The pool after a worker has reported `event`, and what the worker does
/// next. A worker that starts, or has handled a frame and goes on, asks to
/// wait for the next frame and takes the lock if it is let, else it ends.
/// With the lock it reads, unless the connection is being given up. After
/// the read it waits no longer and handles what it read, unless the
/// connection is being given up. After a verdict to quit it gives the
/// connection up. The lock counts as held from the report that it was
/// taken to the report that the read is done.
pub open spec fn worker_step(v: EngineView, event: WorkerEvent) -> (EngineView, WorkerAction) {
    match event {
        WorkerEvent::Begin | WorkerEvent::Handled(Verdict::Continue) => (
            v.entered(),
            if v.admits() {
                WorkerAction::Lock
            } else {
                WorkerAction::Exit
            },
        ),
        WorkerEvent::Locked => if v.quit {
            (v, WorkerAction::SignalAndExit)
        } else {
            (EngineView { reading: true, ..v }, WorkerAction::Read)
        },
        WorkerEvent::ReadDone => (
            EngineView { reading: false, ..v.left() },
            match v.after_read() {
                AfterRead::Stop => WorkerAction::SignalAndExit,
                AfterRead::HandleAndSignal => WorkerAction::Handle { signal: true },
                AfterRead::Handle => WorkerAction::Handle { signal: false },
            },
        ),
        WorkerEvent::Handled(Verdict::Quit) => (v.closed(), WorkerAction::SignalAndExit),
    }
}

/// Whatever a worker reports, the count of waiting workers stays within the
/// maximum, and a connection that is being given up stays so.
pub proof fn lemma_worker_step_keeps_bounds(v: EngineView, event: WorkerEvent)
    requires
        v.wf(),
    ensures
        worker_step(v, event).0.wf(),
        v.quit ==> worker_step(v, event).0.quit,
        v.quit ==> worker_step(v, event).1 == WorkerAction::SignalAndExit || worker_step(
            v,
            event,
        ).1 == WorkerAction::Exit,
{
}

/// A worker handles what it read only after it has released the lock: while
/// a handler runs, another worker can read the next frame. And a read is
/// handed out only to the worker that reports holding the lock.
pub proof fn lemma_lock_is_free_while_handling(v: EngineView, event: WorkerEvent)
    ensures
        worker_step(v, event).1 is Handle ==> event == WorkerEvent::ReadDone && !worker_step(
            v,
            event,
        ).0.reading,
        worker_step(v, event).1 == WorkerAction::Read ==> event == WorkerEvent::Locked
            && worker_step(v, event).0.reading,
{
}

/// What the writer of the responses of a connection does after a write.
#[derive(Clone, Copy, Debug, PartialEq, Eq, Structural)]
pub enum WriterAction {
    /// It waits for the next response.
    Continue,
    /// It ends.
    Stop,
}

/// The pool after the writer has written a frame, successfully or not, and
/// what the writer does next: a write that failed gives the connection up
/// and ends the writer.
pub open spec fn writer_step(v: EngineView, written: bool) -> (EngineView, WriterAction) {
    if written {
        (v, WriterAction::Continue)
    } else {
        (v.closed(), WriterAction::Stop)
    }
}

/// What the control loop of a connection reports.
#[derive(Clone, Copy, Debug, PartialEq, Eq, Structural)]
pub enum ControlEvent {
    /// The engine has started, and with it the writer of responses.
    Started,
    /// A worker has woken the loop.
    Woken,
    /// No worker is left to wake the loop.
    Disconnected,
}

/// What the control loop of a connection does next.
#[derive(Clone, Copy, Debug, PartialEq, Eq, Structural)]
pub enum ControlAction {
    /// Start so many workers, then wait to be woken.
    Spawn(usize),
    /// End the loop: let the writer finish, close the socket, and report it
    /// to the reaper.
    Teardown,
}

/// What the control loop does on `event` with the pool in state `v`. It
/// starts the pool with the default count of workers, refills it to that
/// count when it is woken and fewer wait than the minimum, and ends when
/// the connection is being given up or no worker is left.
pub open spec fn control_action(v: EngineView, event: ControlEvent) -> ControlAction {
    match event {
        ControlEvent::Disconnected => ControlAction::Teardown,
        ControlEvent::Started => if v.quit {
            ControlAction::Teardown
        } else {
            ControlAction::Spawn(v.default as usize)
        },
        ControlEvent::Woken => if v.quit {
            ControlAction::Teardown
        } else {
            ControlAction::Spawn(v.refill() as usize)
        },
    }
}

/// What the control loop of a connection does on `event`.
pub fn control(engine: &Engine, event: ControlEvent) -> (action: ControlAction)
    ensures
        action == control_action(engine@, event),
{
    if engine.is_quit() {
        return ControlAction::Teardown;
    }
    match event {
        ControlEvent::Disconnected => ControlAction::Teardown,
        ControlEvent::Started => ControlAction::Spawn(
            start_method_handler_threads(engine.default, engine),
        ),
        ControlEvent::Woken => ControlAction::Spawn(check_method_handler_threads(engine)),
    }
}

/// How many workers the control loop of a connection starts when it wakes.
pub fn check_method_handler_threads(engine: &Engine) -> (n: usize)
    ensures
        n == engine@.refill(),
{
    if engine.is_quit() {
        return 0;
    }
    let c = engine.waiting();
    if c < engine.min {
        start_method_handler_threads(engine.default - c, engine)
    } else {
        0
    }
}

/// How many of `num` workers are started: all of them, or none when the
/// connection is being given up.
pub fn start_method_handler_threads(num: usize, engine: &Engine) -> (n: usize)
    ensures
        n == if engine@.quit {
            0
        } else {
            num as nat
        },
{
    if engine.is_quit() {
        0
    } else {
        num
    }
}

} // verus!
