//! The server as a whole: what it is configured with, the table of its
//! connections, and what its accept loop, its reaper and its shutdown
//! decide. Every step takes what the operating system reported and says
//! what to do next; the sockets are the caller's.

use crate::address::{one_host_text, parse_host, host_address, SocketAddress, SocketAddressView};
use crate::error::{Error, ErrorView};
use crate::handler::{Frame, PreHandler, RawFd};
use crate::router::Methods;
use crate::worker::{handle_message, Engine, EngineView, Verdict};
use std::collections::HashMap;
use std::sync::mpsc::Sender;
use vstd::prelude::*;
use vstd::std_specs::iter::IteratorSpec;
use vstd::string::*;

verus! {

/// How many workers the pool of a connection is started with and refilled
/// to, unless set otherwise.
pub const DEFAULT_WAIT_THREAD_COUNT_DEFAULT: usize = 3;

/// The count of waiting workers below which a pool is refilled, unless set
/// otherwise.
pub const DEFAULT_WAIT_THREAD_COUNT_MIN: usize = 1;

/// The count of waiting workers above which none stays, unless set
/// otherwise.
pub const DEFAULT_WAIT_THREAD_COUNT_MAX: usize = 5;

/// One accepted connection, as the table of the server knows it.
#[derive(Clone, Copy, Debug, PartialEq, Eq, Structural)]
pub struct Connection {
    /// The socket of the connection.
    pub fd: RawFd,
    /// Whether the connection was told to end.
    pub quit: bool,
}

impl Connection {
    /// A connection on `fd` that goes on.
    pub fn new(fd: RawFd) -> (c: Connection)
        ensures
            c == (Connection { fd, quit: false }),
    {
        Connection { fd, quit: false }
    }

    /// Tells the connection to end, and gives the socket to shut down for
    /// reading so that a worker blocked on it comes back.
    pub fn close(&mut self) -> (fd: RawFd)
        ensures
            *final(self) == (Connection { fd: old(self).fd, quit: true }),
            fd == old(self).fd,
    {
        self.quit = true;
        self.fd
    }
}

/// What a `Server` holds, as mathematical values.
pub struct ServerView {
    /// The listening sockets; the accept loop runs on the first.
    pub listeners: Seq<RawFd>,
    /// The two ends of the pipe that wakes the accept loop: the end it
    /// watches, and the end that shutdown closes.
    pub monitor_fd: (RawFd, RawFd),
    /// Whether the server was shut down.
    pub quit: bool,
    /// The live connections, each under its socket.
    pub connections: Map<RawFd, Connection>,
    /// The handlers registered and not yet handed to an accept loop.
    pub methods: Map<Seq<char>, Box<dyn crate::handler::MethodHandler>>,
    /// The hook registered and not yet handed to an accept loop.
    pub pre_handler: Option<Box<dyn PreHandler>>,
    /// Whether the server was started.
    pub started: bool,
    /// How many workers the pool of a connection is started with and
    /// refilled to.
    pub thread_count_default: usize,
    /// The count of waiting workers below which a pool is refilled.
    pub thread_count_min: usize,
    /// The count of waiting workers above which none stays.
    pub thread_count_max: usize,
}

/// A server: built up step by step, then started, then shut down.
pub struct Server {
    listeners: Vec<RawFd>,
    monitor_fd: (RawFd, RawFd),
    quit: bool,
    connections: HashMap<RawFd, Connection>,
    methods: Methods,
    pre_handler: Option<Box<dyn PreHandler>>,
    started: bool,
    thread_count_default: usize,
    thread_count_min: usize,
    thread_count_max: usize,
}

impl View for Server {
    type V = ServerView;

    closed spec fn view(&self) -> ServerView {
        ServerView {
            listeners: self.listeners@,
            monitor_fd: self.monitor_fd,
            quit: self.quit,
            connections: self.connections@,
            methods: self.methods@,
            pre_handler: self.pre_handler,
            started: self.started,
            thread_count_default: self.thread_count_default,
            thread_count_min: self.thread_count_min,
            thread_count_max: self.thread_count_max,
        }
    }
}

/// The text of the error for a default count that is not below the maximum.
pub open spec fn default_not_below_max_text() -> Seq<char> {
    "thread_count_default should smaller than thread_count_max"@
}

/// The text of the error for a default count that is not above the minimum.
pub open spec fn default_not_above_min_text() -> Seq<char> {
    "thread_count_default should biger than thread_count_min"@
}

/// The text of the error for a server without a listening socket.
pub open spec fn not_bound_text() -> Seq<char> {
    "ttrpc-rust not bind"@
}

/// Why a server in this state cannot be started, if it cannot: the first
/// that holds of a default count not below the maximum, a default count not
/// above the minimum, and no listening socket.
pub open spec fn start_failure(s: ServerView) -> Option<ErrorView> {
    if s.thread_count_default >= s.thread_count_max {
        Some(ErrorView::Others(default_not_below_max_text()))
    } else if s.thread_count_default <= s.thread_count_min {
        Some(ErrorView::Others(default_not_above_min_text()))
    } else if s.listeners.len() == 0 {
        Some(ErrorView::Others(not_bound_text()))
    } else {
        None
    }
}

/// The table `m` after every connection in it was told to end.
pub open spec fn all_closed(m: Map<RawFd, Connection>) -> Map<RawFd, Connection> {
    Map::new(|fd: RawFd| m.contains_key(fd), |fd: RawFd| Connection { fd: m[fd].fd, quit: true })
}

/// The table `m` after the connections on `fds` were removed in turn.
pub open spec fn reaped(m: Map<RawFd, Connection>, fds: Seq<RawFd>) -> Map<RawFd, Connection>
    decreases fds.len(),
{
    if fds.len() == 0 {
        m
    } else {
        reaped(m.remove(fds[0]), fds.drop_first())
    }
}

/// In a table from which connections were removed, those are left that
/// were in it and not among the removed.
pub proof fn lemma_reaped(m: Map<RawFd, Connection>, fds: Seq<RawFd>)
    ensures
        forall|fd: RawFd| #[trigger]
            reaped(m, fds).contains_key(fd) <==> m.contains_key(fd) && !fds.contains(fd),
    decreases fds.len(),
{
    if fds.len() > 0 {
        let first = fds[0];
        let tail = fds.drop_first();
        lemma_reaped(m.remove(first), tail);
        assert forall|fd: RawFd| #[trigger]
            reaped(m, fds).contains_key(fd) <==> m.contains_key(fd) && !fds.contains(fd) by {
            assert(reaped(m, fds).contains_key(fd) == reaped(m.remove(first), tail).contains_key(
                fd,
            ));
            if fds.contains(fd) && fd != first {
                let i = choose|i: int| 0 <= i < fds.len() && fds[i] == fd;
                assert(tail[i - 1] == fd);
            }
            if tail.contains(fd) {
                let i = choose|i: int| 0 <= i < tail.len() && tail[i] == fd;
                assert(fds[i + 1] == fd);
            }
            if fd == first {
                assert(fds[0] == fd);
            }
        }
    }
}

/// Once the reaper has removed every connection that a shutdown listed,
/// the table is empty.
pub proof fn lemma_shutdown_then_reap_empties(m: Map<RawFd, Connection>, fds: Seq<RawFd>)
    requires
        fds.to_set() == m.dom(),
    ensures
        reaped(all_closed(m), fds) == Map::<RawFd, Connection>::empty(),
{
    lemma_reaped(all_closed(m), fds);
    assert forall|fd: RawFd| !(#[trigger] reaped(all_closed(m), fds).contains_key(fd)) by {
        if all_closed(m).contains_key(fd) {
            assert(m.dom().contains(fd));
            assert(fds.to_set().contains(fd));
        }
    }
    assert(reaped(all_closed(m), fds) =~= Map::<RawFd, Connection>::empty());
}

/// What a started server serves with: the sockets of its accept loop, the
/// handlers and the hook, and the bounds of the pools of its connections.
pub struct Service {
    listener: RawFd,
    monitor_fd: RawFd,
    methods: Methods,
    pre_handler: Option<Box<dyn PreHandler>>,
    default: usize,
    min: usize,
    max: usize,
}

/// What a `Service` holds, as mathematical values.
pub struct ServiceView {
    /// The socket to accept on.
    pub listener: RawFd,
    /// The end of the pipe that becomes readable at shutdown.
    pub monitor_fd: RawFd,
    /// The handlers, each under the path of its method.
    pub methods: Map<Seq<char>, Box<dyn crate::handler::MethodHandler>>,
    /// The hook that runs before every handler, if there is one.
    pub pre_handler: Option<Box<dyn PreHandler>>,
    /// How many workers the pool of a connection is started with and
    /// refilled to.
    pub default: usize,
    /// The count of waiting workers below which a pool is refilled.
    pub min: usize,
    /// The count of waiting workers above which none stays.
    pub max: usize,
}

impl View for Service {
    type V = ServiceView;

    closed spec fn view(&self) -> ServiceView {
        ServiceView {
            listener: self.listener,
            monitor_fd: self.monitor_fd,
            methods: self.methods@,
            pre_handler: self.pre_handler,
            default: self.default,
            min: self.min,
            max: self.max,
        }
    }
}

impl Service {
    #[verifier::type_invariant]
    spec fn bounds_in_order(self) -> bool {
        self.min < self.default < self.max
    }

    /// The socket to accept on.
    pub fn listener(&self) -> (fd: RawFd)
        ensures
            fd == self@.listener,
    {
        self.listener
    }

    /// The end of the pipe that becomes readable at shutdown.
    pub fn monitor_fd(&self) -> (fd: RawFd)
        ensures
            fd == self@.monitor_fd,
    {
        self.monitor_fd
    }

    /// The handlers, each under the path of its method.
    pub fn methods(&self) -> (methods: &Methods)
        ensures
            methods@ == self@.methods,
    {
        &self.methods
    }

    /// The bookkeeping for the pool of a connection that was just accepted:
    /// no worker waits yet, and the bounds are those the server was started
    /// with.
    pub fn engine(&self) -> (e: Engine)
        ensures
            e@ == (EngineView {
                waiting: 0,
                default: self@.default as nat,
                min: self@.min as nat,
                max: self@.max as nat,
                quit: false,
                reading: false,
            }),
            e@.wf(),
    {
        proof {
            use_type_invariant(self);
        }
        Engine::new(self.default, self.min, self.max)
    }

    /// How many workers the pool of a connection is started with.
    pub fn initial_workers(&self) -> (n: usize)
        ensures
            n == self@.default,
            self@.min < self@.default < self@.max,
    {
        proof {
            use_type_invariant(self);
        }
        self.default
    }

    /// What a worker of the connection on `fd` does with `read`, the outcome
    /// of reading one frame: see `handle_message`.
    pub fn handle(&self, fd: RawFd, read: Result<Frame, Error>, res_tx: &Sender<Frame>) -> (v:
        Verdict)
        ensures
            crate::worker::disposition(crate::worker::read_view(read), self@.methods.dom())
                is Quit ==> v == Verdict::Quit,
            crate::worker::disposition(crate::worker::read_view(read), self@.methods.dom())
                is Skip ==> v == Verdict::Continue,
            crate::worker::is_unsendable(
                crate::worker::disposition(crate::worker::read_view(read), self@.methods.dom()),
            ) ==> v == Verdict::Quit,
    {
        handle_message(&self.methods, &self.pre_handler, fd, read, res_tx)
    }
}

/// What the accept loop reports.
#[derive(Clone, Copy, Debug, PartialEq, Eq, Structural)]
pub enum ListenerEvent {
    /// A round begins.
    Ready,
    /// The wait for readiness came back with these sockets readable.
    Selected { listener: bool, monitor: bool },
    /// The wait for readiness was interrupted.
    Interrupted,
    /// The wait for readiness failed.
    SelectFailed,
    /// A connection was accepted on this socket.
    Accepted(RawFd),
    /// Accepting failed.
    AcceptFailed,
}

/// What the accept loop does next.
#[derive(Clone, Copy, Debug, PartialEq, Eq, Structural)]
pub enum ListenerAction {
    /// Wait until the listening socket or the monitor is readable.
    Select,
    /// Accept a connection.
    Accept,
    /// Start the engine of the connection on this socket, which is in the
    /// table already, then begin another round.
    Spawn(RawFd),
    /// End the loop, and with it the reaper.
    Stop,
}

/// What the accept loop of a server does on `event`. A round begins with a
/// wait, unless the server was shut down. After the wait it accepts if the
/// listening socket is readable and the monitor is not, and the server was
/// not shut down meanwhile; an interrupted wait, or one that reports
/// anything else, begins another round. It ends when waiting or accepting
/// fails.
pub open spec fn listener_action(quit: bool, event: ListenerEvent) -> ListenerAction {
    match event {
        ListenerEvent::Ready | ListenerEvent::Interrupted => if quit {
            ListenerAction::Stop
        } else {
            ListenerAction::Select
        },
        ListenerEvent::Selected { listener, monitor } => if quit {
            ListenerAction::Stop
        } else if monitor || !listener {
            ListenerAction::Select
        } else {
            ListenerAction::Accept
        },
        ListenerEvent::SelectFailed | ListenerEvent::AcceptFailed => ListenerAction::Stop,
        ListenerEvent::Accepted(fd) => ListenerAction::Spawn(fd),
    }
}

/// The table of a server after `event`: an accepted connection is entered
/// under its socket, as one that goes on.
pub open spec fn connections_after(m: Map<RawFd, Connection>, event: ListenerEvent) -> Map<
    RawFd,
    Connection,
> {
    match event {
        ListenerEvent::Accepted(fd) => m.insert(fd, Connection { fd, quit: false }),
        _ => m,
    }
}

/// What is to be done with the descriptors of a server at its shutdown.
#[derive(Clone, Debug, PartialEq, Eq)]
pub struct Shutdown {
    /// The end of the monitor pipe to close first, which wakes the accept
    /// loop.
    pub monitor_fd: RawFd,
    /// The sockets of the connections to shut down for reading, each once:
    /// the engine of each then ends, closes its socket and reports it to
    /// the reaper.
    pub connections: Vec<RawFd>,
    /// Whether an accept loop was started, and is to be waited for.
    pub started: bool,
    /// The listening sockets, to close once the accept loop has ended:
    /// from then on nothing connects.
    pub listeners: Vec<RawFd>,
    /// The end of the monitor pipe that the accept loop watched, to close
    /// once the loop has ended.
    pub monitor_read_fd: RawFd,
}

impl Shutdown {
    /// Every descriptor that the plan names.
    pub open spec fn named(self) -> Set<RawFd> {
        self.listeners@.to_set().union(self.connections@.to_set()).insert(
            self.monitor_fd,
        ).insert(self.monitor_read_fd)
    }
}

/// Every descriptor that a server holds: its listening sockets, the two
/// ends of its monitor pipe, and the sockets of its connections.
pub open spec fn descriptors(s: ServerView) -> Set<RawFd> {
    s.listeners.to_set().union(s.connections.dom()).insert(s.monitor_fd.1).insert(
        s.monitor_fd.0,
    )
}

/// After a shutdown the accept loop accepts nothing: whatever it reports of
/// its waiting, it is told to end, and the table gets no new entry.
pub proof fn lemma_nothing_is_accepted_after_shutdown(
    m: Map<RawFd, Connection>,
    event: ListenerEvent,
)
    requires
        !(event is Accepted),
    ensures
        listener_action(true, event) == ListenerAction::Stop,
        connections_after(m, event) == m,
{
}

impl Server {
    /// A server with the default bounds for its pools, no listening socket
    /// and no handler. `monitor_fd` are the two ends of a pipe made for it:
    /// the end to watch and the end to close at shutdown.
    pub fn new(monitor_fd: (RawFd, RawFd)) -> (s: Server)
        ensures
            s@ == (ServerView {
                listeners: Seq::empty(),
                monitor_fd,
                quit: false,
                connections: Map::empty(),
                methods: Map::empty(),
                pre_handler: None,
                started: false,
                thread_count_default: DEFAULT_WAIT_THREAD_COUNT_DEFAULT,
                thread_count_min: DEFAULT_WAIT_THREAD_COUNT_MIN,
                thread_count_max: DEFAULT_WAIT_THREAD_COUNT_MAX,
            }),
    {
        Server {
            listeners: Vec::with_capacity(1),
            monitor_fd,
            quit: false,
            connections: HashMap::new(),
            methods: Methods::new(),
            pre_handler: None,
            started: false,
            thread_count_default: DEFAULT_WAIT_THREAD_COUNT_DEFAULT,
            thread_count_min: DEFAULT_WAIT_THREAD_COUNT_MIN,
            thread_count_max: DEFAULT_WAIT_THREAD_COUNT_MAX,
        }
    }

    /// The address to bind a listening socket to for `host`. A server that
    /// has a listening socket takes no other; else the address is the one
    /// that `host` names. The socket that the caller binds to it is then
    /// handed over with `add_listener`.
    pub fn bind(&self, host: &str) -> (r: Result<SocketAddress, Error>)
        ensures
            crate::address::address_view(r) == if self@.listeners.len() > 0 {
                Err::<SocketAddressView, ErrorView>(ErrorView::Others(one_host_text()))
            } else {
                host_address(host@)
            },
    {
        if self.listeners.len() > 0 {
            return Err(Error::Others(String::from_str("ttrpc-rust just support 1 host now")));
        }
        parse_host(host)
    }

    /// Takes a listening socket that the caller has prepared.
    pub fn add_listener(self, fd: RawFd) -> (r: Result<Server, Error>)
        ensures
            r matches Ok(s) && s@ == (ServerView { listeners: self@.listeners.push(fd), ..self@ }),
    {
        let mut s = self;
        s.listeners.push(fd);
        Ok(s)
    }

    /// Registers handlers, each under the path of its method. A handler
    /// under a path that has one already takes its place.
    pub fn register_service(self, methods: Methods) -> (s: Server)
        ensures
            s@ == (ServerView { methods: self@.methods.union_prefer_right(methods@), ..self@ }),
    {
        let mut s = self;
        s.methods.extend(methods);
        s
    }

    /// Registers the hook that runs before every handler.
    pub fn register_pre_handler(self, f: Box<dyn PreHandler>) -> (s: Server)
        ensures
            s@ == (ServerView { pre_handler: Some(f), ..self@ }),
    {
        let mut s = self;
        s.pre_handler = Some(f);
        s
    }

    /// Sets how many workers a pool is started with and refilled to.
    pub fn set_thread_count_default(self, count: usize) -> (s: Server)
        ensures
            s@ == (ServerView { thread_count_default: count, ..self@ }),
    {
        let mut s = self;
        s.thread_count_default = count;
        s
    }

    /// Sets the count of waiting workers below which a pool is refilled.
    pub fn set_thread_count_min(self, count: usize) -> (s: Server)
        ensures
            s@ == (ServerView { thread_count_min: count, ..self@ }),
    {
        let mut s = self;
        s.thread_count_min = count;
        s
    }

    /// Sets the count of waiting workers above which none stays.
    pub fn set_thread_count_max(self, count: usize) -> (s: Server)
        ensures
            s@ == (ServerView { thread_count_max: count, ..self@ }),
    {
        let mut s = self;
        s.thread_count_max = count;
        s
    }

    /// The socket that the accept loop of this server will run on, the first
    /// of its listening sockets, if the server can be started; else why it
    /// cannot. The caller prepares that socket before it starts the server.
    pub fn listener(&self) -> (r: Result<RawFd, Error>)
        ensures
            match start_failure(self@) {
                Some(e) => r matches Err(err) && err@ == e,
                None => r == Ok::<RawFd, Error>(self@.listeners[0]),
            },
    {
        if self.thread_count_default >= self.thread_count_max {
            return Err(
                Error::Others(
                    String::from_str("thread_count_default should smaller than thread_count_max"),
                ),
            );
        }
        if self.thread_count_default <= self.thread_count_min {
            return Err(
                Error::Others(
                    String::from_str("thread_count_default should biger than thread_count_min"),
                ),
            );
        }
        if self.listeners.len() == 0 {
            return Err(Error::Others(String::from_str("ttrpc-rust not bind")));
        }
        Ok(self.listeners[0])
    }

    /// Starts the server, if its bounds are in order and it has a listening
    /// socket: the handlers and the hook registered so far go to the service
    /// that is returned, for the accept loop to run with on the first
    /// listening socket. A server that cannot be started is left as it is.
    pub fn start(&mut self) -> (r: Result<Service, Error>)
        ensures
            match start_failure(old(self)@) {
                Some(e) => r matches Err(err) && err@ == e && final(self)@ == old(self)@,
                None => r matches Ok(service) && service@ == (ServiceView {
                    listener: old(self)@.listeners[0],
                    monitor_fd: old(self)@.monitor_fd.0,
                    methods: old(self)@.methods,
                    pre_handler: old(self)@.pre_handler,
                    default: old(self)@.thread_count_default,
                    min: old(self)@.thread_count_min,
                    max: old(self)@.thread_count_max,
                }) && final(self)@ == (ServerView {
                    methods: Map::empty(),
                    pre_handler: None,
                    started: true,
                    ..old(self)@
                }),
            },
    {
        let listener = match self.listener() {
            Ok(fd) => fd,
            Err(e) => {
                return Err(e);
            },
        };
        let mut methods: Methods = Methods::new();
        std::mem::swap(&mut self.methods, &mut methods);
        let pre_handler = self.pre_handler.take();
        self.started = true;
        Ok(
            Service {
                listener,
                monitor_fd: self.monitor_fd.0,
                methods,
                pre_handler,
                default: self.thread_count_default,
                min: self.thread_count_min,
                max: self.thread_count_max,
            },
        )
    }

    /// The two ends of the monitor pipe: the end that the accept loop
    /// watches, and the end that shutdown closes.
    pub fn monitor_fd(&self) -> (fds: (RawFd, RawFd))
        ensures
            fds == self@.monitor_fd,
    {
        self.monitor_fd
    }

    /// Whether the server was shut down.
    pub fn is_quit(&self) -> (b: bool)
        ensures
            b == self@.quit,
    {
        self.quit
    }

    /// How many connections are live.
    pub fn connection_count(&self) -> (n: usize)
        ensures
            n == self@.connections.len(),
    {
        broadcast use vstd::std_specs::hash::group_hash_axioms;

        self.connections.len()
    }

    /// What the accept loop does on `event`. An accepted connection is
    /// entered in the table before its engine is started.
    pub fn listen(&mut self, event: ListenerEvent) -> (action: ListenerAction)
        ensures
            action == listener_action(old(self)@.quit, event),
            final(self)@ == (ServerView {
                connections: connections_after(old(self)@.connections, event),
                ..old(self)@
            }),
    {
        broadcast use vstd::std_specs::hash::group_hash_axioms;

        match event {
            ListenerEvent::Ready | ListenerEvent::Interrupted => if self.quit {
                ListenerAction::Stop
            } else {
                ListenerAction::Select
            },
            ListenerEvent::Selected { listener, monitor } => if self.quit {
                ListenerAction::Stop
            } else if monitor || !listener {
                ListenerAction::Select
            } else {
                ListenerAction::Accept
            },
            ListenerEvent::SelectFailed | ListenerEvent::AcceptFailed => ListenerAction::Stop,
            ListenerEvent::Accepted(fd) => {
                self.connections.insert(fd, Connection::new(fd));
                ListenerAction::Spawn(fd)
            },
        }
    }

    /// Removes the connection on `fd`, whose engine has ended, from the
    /// table, and gives what the table held of it.
    pub fn reap(&mut self, fd: RawFd) -> (c: Option<Connection>)
        ensures
            final(self)@ == (ServerView {
                connections: old(self)@.connections.remove(fd),
                ..old(self)@
            }),
            c == if old(self)@.connections.contains_key(fd) {
                Some(old(self)@.connections[fd])
            } else {
                None
            },
    {
        broadcast use vstd::std_specs::hash::group_hash_axioms;

        self.connections.remove(&fd)
    }

    /// Shuts the server down: it is marked as quitting, which ends the
    /// accept loop at its next round, and every connection in the table is
    /// told to end. What is returned says which sockets to act on.
    pub fn shutdown(&mut self) -> (plan: Shutdown)
        ensures
            final(self)@ == (ServerView {
                quit: true,
                connections: all_closed(old(self)@.connections),
                ..old(self)@
            }),
            plan.monitor_fd == old(self)@.monitor_fd.1,
            plan.started == old(self)@.started,
            plan.connections@.to_set() == old(self)@.connections.dom(),
            plan.connections@.no_duplicates(),
            plan.listeners@ == old(self)@.listeners,
            plan.monitor_read_fd == old(self)@.monitor_fd.0,
            plan.named() == descriptors(old(self)@),
    {
        broadcast use vstd::std_specs::hash::group_hash_axioms;

        self.quit = true;
        let mut fds: Vec<RawFd> = Vec::new();
        for fd in it: self.connections.keys()
            invariant
                fds@.len() == it.index(),
                forall|i: int| 0 <= i < fds@.len() ==> fds@[i] == *it.seq()[i],
        {
            fds.push(*fd);
        }
        proof {
            let keys = vstd::std_specs::hash::spec_keys_iter(&self.connections).remaining();
            assert(fds@ =~= keys.unref());
        }
        let ghost before = self.connections@;
        let mut i: usize = 0;
        while i < fds.len()
            invariant
                0 <= i <= fds@.len(),
                fds@.to_set() == before.dom(),
                fds@.no_duplicates(),
                self.connections@.dom() == before.dom(),
                forall|j: int| 0 <= j < i ==> #[trigger] self.connections@[fds@[j]] == (Connection {
                    fd: before[fds@[j]].fd,
                    quit: true,
                }),
                forall|fd: RawFd|
                    before.contains_key(fd) && !fds@.subrange(0, i as int).contains(fd)
                        ==> #[trigger] self.connections@[fd] == before[fd],
                self@ == (ServerView { quit: true, connections: self.connections@, ..old(self)@ }),
            decreases fds@.len() - i,
        {
            let fd = fds[i];
            assert(fds@.to_set().contains(fd));
            let mut c: Connection = match self.connections.get(&fd) {
                Some(c) => *c,
                None => Connection::new(fd),
            };
            c.close();
            let ghost earlier = self.connections@;
            self.connections.insert(fd, c);
            proof {
                let done = fds@.subrange(0, i as int);
                let next = fds@.subrange(0, i + 1);
                assert(next[i as int] == fd);
                assert forall|f: RawFd| before.contains_key(f) && !next.contains(f) implies (
                #[trigger] self.connections@[f]) == before[f] by {
                    if done.contains(f) {
                        let k = choose|k: int| 0 <= k < done.len() && done[k] == f;
                        assert(next[k] == f);
                    }
                    assert(earlier[f] == before[f]);
                }
                assert(!done.contains(fd)) by {
                    if done.contains(fd) {
                        let k = choose|k: int| 0 <= k < done.len() && done[k] == fd;
                        assert(fds@[k] == fds@[i as int]);
                    }
                }
            }
            i = i + 1;
        }
        assert(self.connections@ =~= all_closed(before));
        let listeners = self.listeners.clone();
        assert(listeners@ =~= self.listeners@);
        Shutdown {
            monitor_fd: self.monitor_fd.1,
            connections: fds,
            started: self.started,
            listeners,
            monitor_read_fd: self.monitor_fd.0,
        }
    }
}

} // verus!
