//! The completion driver: it turns what the session needs into submissions for a completion
//! queue, and takes the completions back. Beneath the protocol driver it sets the TCP
//! connection up: a socket is made, then connected, and only then the session runs.

use std::collections::HashSet;
use std::sync::Arc;
use vstd::prelude::*;
use rustls::ClientConfig;
use crate::engine::names_server;
use crate::fsm::{ends_with, FsmError, Wants, FSM};
use crate::platform::{af_inet, sock_stream};
use crate::response::Response;
use crate::session::{Asked, Session, SessionView, Span};

verus! {

/// An IPv4 socket address: the four bytes of the host's address and the port.
#[derive(Debug, Clone, Copy, PartialEq, Eq, Hash)]
pub struct SocketAddress {
    pub ip: [u8; 4],
    pub port: u16,
}

/// How far the connection has been set up. The steps follow one another and none is tried
/// again.
#[derive(Debug, Clone, Copy)]
pub enum State {
    /// The address is known; no socket exists.
    Initialized { addr: SocketAddress },
    /// The socket `fd` exists and is to be connected to `addr`.
    Connecting { fd: i32, addr: SocketAddress },
    /// The socket `fd` is connected.
    Connected { fd: i32 },
}

/// A submission: one operation for the completion queue, under the correlation id
/// `user_data`. Buffers are named by their stretch of the driver's regions.
#[derive(Debug, PartialEq, Eq, Clone, Copy, Hash)]
pub enum Sqe {
    /// Make a socket.
    Socket { domain: i32, socket_type: i32, protocol: i32, user_data: u64 },
    /// Connect the socket `fd` to `addr`.
    Connect { fd: i32, addr: SocketAddress, user_data: u64 },
    /// Write `len` bytes from the stretch `span` of the outgoing region to `fd`.
    Write { fd: i32, span: Span, len: u32, user_data: u64 },
    /// Read up to `len` bytes from `fd` into the stretch `span` of the incoming region.
    Read { fd: i32, span: Span, len: u32, user_data: u64 },
}

/// A submission, or the response once the exchange is over.
#[derive(Debug)]
pub enum SqeOrResponse {
    Sqe(Sqe),
    Response(Response),
}

/// A completion: the result code of an operation, and the correlation id that it was
/// submitted under.
#[derive(Debug, Clone, Copy)]
pub struct Cqe {
    pub result: i32,
    pub user_data: u64,
}

/// Why a completion cannot be taken.
#[derive(Debug, Clone, Copy, PartialEq, Eq, Structural)]
pub enum CompletionError {
    /// The socket operation gave no valid descriptor.
    InvalidDescriptor,
    /// The operation failed: its result code is negative.
    Failed,
    /// The completion does not fit the step that the connection is in.
    OutOfOrder,
    /// More bytes were moved than the stretch submitted holds.
    Overrun,
}

/// What the driver was made with: the four correlation ids, and the socket's domain and type.
pub struct Setup {
    pub socket_user_data: u64,
    pub connect_user_data: u64,
    pub read_user_data: u64,
    pub write_user_data: u64,
    pub domain: i32,
    pub socket_type: i32,
}

/// Which operation a completion with the id `user_data` answers. An id that stands for
/// several operations answers the first of socket, connect, read and write.
pub enum Operation {
    Socket,
    Connect,
    Read,
    Write,
    Unknown,
}

/// The completion driver of one connection.
pub struct IoUringConnection {
    fsm: FSM,
    state: State,
    socket_user_data: u64,
    connect_user_data: u64,
    read_user_data: u64,
    write_user_data: u64,
    domain: i32,
    socket_type: i32,
    pending: HashSet<u64>,
}

/// The length of a stretch as a submission carries it: its low 32 bits.
pub open spec fn submitted_len(span: Span) -> u32 {
    if span.start <= span.end {
        ((span.end - span.start) % 0x1_0000_0000) as u32
    } else {
        0
    }
}

/// The submission that an action of the session asks for on the socket `fd`, or the response
/// once the exchange is over.
pub open spec fn asked_of(fd: i32, wants: Wants, read_user_data: u64, write_user_data: u64)
    -> SqeOrResponse {
    match wants {
        Wants::Read(span) => SqeOrResponse::Sqe(
            Sqe::Read { fd, span, len: submitted_len(span), user_data: read_user_data },
        ),
        Wants::Write(span) => SqeOrResponse::Sqe(
            Sqe::Write { fd, span, len: submitted_len(span), user_data: write_user_data },
        ),
        Wants::Done(response) => SqeOrResponse::Response(response),
    }
}

impl Setup {
    /// The operation that `user_data` stands for.
    pub open spec fn operation(self, user_data: u64) -> Operation {
        if user_data == self.socket_user_data {
            Operation::Socket
        } else if user_data == self.connect_user_data {
            Operation::Connect
        } else if user_data == self.read_user_data {
            Operation::Read
        } else if user_data == self.write_user_data {
            Operation::Write
        } else {
            Operation::Unknown
        }
    }
}

impl Sqe {
    /// The correlation id of the submission.
    pub fn user_data(self) -> (id: u64)
        ensures
            id == self.id(),
    {
        match self {
            Sqe::Socket { user_data, .. } => user_data,
            Sqe::Connect { user_data, .. } => user_data,
            Sqe::Write { user_data, .. } => user_data,
            Sqe::Read { user_data, .. } => user_data,
        }
    }

    /// The correlation id of the submission.
    pub open spec fn id(self) -> u64 {
        match self {
            Sqe::Socket { user_data, .. } => user_data,
            Sqe::Connect { user_data, .. } => user_data,
            Sqe::Write { user_data, .. } => user_data,
            Sqe::Read { user_data, .. } => user_data,
        }
    }
}

/// The length of `span` cut to 32 bits.
fn span_len(span: Span) -> (len: u32)
    ensures
        len == submitted_len(span),
{
    if span.start <= span.end {
        let len = (span.end - span.start) as u64;
        (len % 0x1_0000_0000u64) as u32
    } else {
        0
    }
}

/// The submission that makes a socket.
fn socket_sqe(domain: i32, socket_type: i32, user_data: u64) -> (sqe: Sqe)
    ensures
        sqe == (Sqe::Socket { domain, socket_type, protocol: 0, user_data }),
{
    Sqe::Socket { domain, socket_type, protocol: 0, user_data }
}

/// The submission that connects `fd` to `addr`.
fn connect_sqe(fd: i32, addr: SocketAddress, user_data: u64) -> (sqe: Sqe)
    ensures
        sqe == (Sqe::Connect { fd, addr, user_data }),
{
    Sqe::Connect { fd, addr, user_data }
}

/// The submission that writes the stretch `span` to `fd`.
fn write_sqe(fd: i32, span: Span, user_data: u64) -> (sqe: Sqe)
    ensures
        sqe == (Sqe::Write { fd, span, len: submitted_len(span), user_data }),
{
    Sqe::Write { fd, span, len: span_len(span), user_data }
}

/// The submission that reads from `fd` into the stretch `span`.
fn read_sqe(fd: i32, span: Span, user_data: u64) -> (sqe: Sqe)
    ensures
        sqe == (Sqe::Read { fd, span, len: submitted_len(span), user_data }),
{
    Sqe::Read { fd, span, len: span_len(span), user_data }
}

/// What a completion does to the connection's setup and to the session, or why it cannot be
/// taken. A socket completion must bring a descriptor, which is not negative, and find no
/// socket yet; a connect completion must not have failed and must find the socket
/// unconnected; a read or write completion is ignored until the socket is connected, and
/// then counts the bytes moved, which must not be more than were asked for; a completion
/// under any other id is ignored.
pub open spec fn completed(setup: Setup, state: State, session: SessionView, cqe: Cqe) -> Result<
    (State, SessionView),
    CompletionError,
> {
    match setup.operation(cqe.user_data) {
        Operation::Socket => if cqe.result < 0 {
            Err(CompletionError::InvalidDescriptor)
        } else {
            match state {
                State::Initialized { addr } => Ok(
                    (State::Connecting { fd: cqe.result, addr }, session),
                ),
                _ => Err(CompletionError::OutOfOrder),
            }
        },
        Operation::Connect => if cqe.result < 0 {
            Err(CompletionError::Failed)
        } else {
            match state {
                State::Connecting { fd, .. } => Ok((State::Connected { fd }, session)),
                _ => Err(CompletionError::OutOfOrder),
            }
        },
        Operation::Read => if !(state is Connected) {
            Ok((state, session))
        } else if cqe.result < 0 {
            Err(CompletionError::Failed)
        } else if session.incoming_end + cqe.result > session.incoming_capacity {
            Err(CompletionError::Overrun)
        } else {
            Ok((state, session.after_read(cqe.result as nat)))
        },
        Operation::Write => if !(state is Connected) {
            Ok((state, session))
        } else if cqe.result < 0 {
            Err(CompletionError::Failed)
        } else if session.outgoing_start + cqe.result > session.outgoing_end {
            Err(CompletionError::Overrun)
        } else {
            Ok((state, session.after_write(cqe.result as nat)))
        },
        Operation::Unknown => Ok((state, session)),
    }
}

/// The submission that an action of the session asks for on the socket `fd`, or the response
/// once the exchange is over.
pub fn submission_of(fd: i32, wants: Wants, read_user_data: u64, write_user_data: u64) -> (asked:
    SqeOrResponse)
    ensures
        asked == asked_of(fd, wants, read_user_data, write_user_data),
{
    match wants {
        Wants::Read(span) => SqeOrResponse::Sqe(read_sqe(fd, span, read_user_data)),
        Wants::Write(span) => SqeOrResponse::Sqe(write_sqe(fd, span, write_user_data)),
        Wants::Done(response) => SqeOrResponse::Response(response),
    }
}

impl IoUringConnection {
    /// How far the connection has been set up.
    pub closed spec fn state(&self) -> State {
        self.state
    }

    /// The ids submitted and not yet completed.
    pub closed spec fn pending(&self) -> Set<u64> {
        self.pending@
    }

    /// What the driver was made with.
    pub closed spec fn setup(&self) -> Setup {
        Setup {
            socket_user_data: self.socket_user_data,
            connect_user_data: self.connect_user_data,
            read_user_data: self.read_user_data,
            write_user_data: self.write_user_data,
            domain: self.domain,
            socket_type: self.socket_type,
        }
    }

    /// The bookkeeping of the session that runs over the connection.
    pub closed spec fn session(&self) -> SessionView {
        self.fsm@
    }

    /// The driver is consistent.
    pub closed spec fn wf(&self) -> bool {
        self.fsm.wf()
    }

    /// `sqe` is the submission that is due: the one of the step that the connection's setup
    /// is in, or, once connected, the read into the free tail of the incoming region or the
    /// write of the unsent bytes that the session has asked for.
    pub open spec fn is_due(&self, sqe: Sqe) -> bool {
        match self.state() {
            State::Initialized { .. } => sqe == (Sqe::Socket {
                domain: self.setup().domain,
                socket_type: self.setup().socket_type,
                protocol: 0,
                user_data: self.setup().socket_user_data,
            }),
            State::Connecting { fd, addr } => sqe == (Sqe::Connect {
                fd,
                addr,
                user_data: self.setup().connect_user_data,
            }),
            State::Connected { fd } => match self.session().asked {
                Some(Asked::Read) => sqe == (Sqe::Read {
                    fd,
                    span: self.session().read_span(),
                    len: submitted_len(self.session().read_span()),
                    user_data: self.setup().read_user_data,
                }),
                Some(Asked::Write) => sqe == (Sqe::Write {
                    fd,
                    span: self.session().write_span(),
                    len: submitted_len(self.session().write_span()),
                    user_data: self.setup().write_user_data,
                }),
                None => false,
            },
        }
    }

    /// A driver for a GET of `path` from the host `hostname` at the address `addr`. The four
    /// ids tell the completions of the four operations apart.
    pub fn get(
        config: Arc<ClientConfig>,
        hostname: &str,
        addr: SocketAddress,
        path: &str,
        socket_user_data: u64,
        connect_user_data: u64,
        read_user_data: u64,
        write_user_data: u64,
    ) -> (made: Result<IoUringConnection, FsmError>)
        ensures
            match made {
                Ok(conn) => {
                    &&& names_server(hostname@)
                    &&& conn.wf()
                    &&& conn.state() == (State::Initialized { addr })
                    &&& conn.pending() == Set::<u64>::empty()
                    &&& conn.session() == Session::fresh()
                    &&& conn.setup().socket_user_data == socket_user_data
                    &&& conn.setup().connect_user_data == connect_user_data
                    &&& conn.setup().read_user_data == read_user_data
                    &&& conn.setup().write_user_data == write_user_data
                },
                Err(error) => if names_server(hostname@) {
                    error is Tls
                } else {
                    error is InvalidServerName
                },
            },
    {
        match FSM::for_host(config, hostname, path) {
            Err(error) => Err(error),
            Ok(fsm) => Ok(
                IoUringConnection {
                    fsm,
                    state: State::Initialized { addr },
                    socket_user_data,
                    connect_user_data,
                    read_user_data,
                    write_user_data,
                    domain: af_inet(),
                    socket_type: sock_stream(),
                    pending: HashSet::new(),
                },
            ),
        }
    }

    /// Submits `sqe` unless its id is still pending.
    fn submit(&mut self, sqe: Sqe) -> (submitted: Option<Sqe>)
        ensures
            final(self).fsm == old(self).fsm,
            final(self).state() == old(self).state(),
            final(self).setup() == old(self).setup(),
            old(self).pending().contains(sqe.id()) ==> submitted is None && final(self).pending()
                == old(self).pending(),
            !old(self).pending().contains(sqe.id()) ==> submitted == Some(sqe)
                && final(self).pending() == old(self).pending().insert(sqe.id()),
    {
        broadcast use vstd::std_specs::hash::group_hash_axioms;

        let id = sqe.user_data();
        if self.pending.contains(&id) {
            return None;
        }
        self.pending.insert(id);
        Some(sqe)
    }

    /// The next submission, if one is due and its id is not pending; or the response, once
    /// the exchange is over.
    ///
    /// While the connection is set up, the submission of the step is due. Once connected, the
    /// session is asked what it wants: a read, a write, or nothing more. Where the session
    /// has asked for I/O that has not been reported, it is not asked again: the same
    /// submission is due. An id is never submitted while it is pending: the call then gives
    /// nothing, and the submission stays due.
    pub fn next_sqe(&mut self) -> (next: Result<(Option<Sqe>, Option<Response>), FsmError>)
        requires
            old(self).wf(),
        ensures
            final(self).wf(),
            final(self).state() == old(self).state(),
            final(self).setup() == old(self).setup(),
            old(self).session().advances_to(final(self).session()),
            !(old(self).state() is Connected) || old(self).session().asked is Some
                ==> final(self).session() == old(self).session() && next is Ok
                && next->Ok_0.1 is None,
            match next {
                Ok((Some(sqe), None)) => {
                    &&& final(self).is_due(sqe)
                    &&& !old(self).pending().contains(sqe.id())
                    &&& final(self).pending() == old(self).pending().insert(sqe.id())
                    &&& sqe matches Sqe::Read { span, .. } ==> span.start < span.end
                },
                Ok((None, None)) => {
                    &&& final(self).pending() == old(self).pending()
                    &&& exists|sqe: Sqe| final(self).is_due(sqe) && old(self).pending().contains(
                        sqe.id(),
                    )
                },
                Ok((None, Some(response))) => final(self).pending() == old(self).pending()
                    && ends_with(final(self).session(), response),
                Ok((Some(_), Some(_))) => false,
                Err(error) => final(self).pending() == old(self).pending()
                    && error.explained_by(final(self).session()),
            },
    {
        proof {
            self.fsm.lemma_wf();
            crate::session::lemma_advances_reflexive(self.fsm@);
        }
        let sqe = match self.state {
            State::Initialized { .. } => socket_sqe(
                self.domain,
                self.socket_type,
                self.socket_user_data,
            ),
            State::Connecting { fd, addr } => connect_sqe(fd, addr, self.connect_user_data),
            State::Connected { fd } => {
                let wants = match self.fsm.wants() {
                    Err(error) => {
                        return Err(error);
                    },
                    Ok(wants) => wants,
                };
                proof {
                    self.fsm.lemma_wf();
                }
                match submission_of(fd, wants, self.read_user_data, self.write_user_data) {
                    SqeOrResponse::Sqe(sqe) => sqe,
                    SqeOrResponse::Response(response) => {
                        return Ok((None, Some(response)));
                    },
                }
            },
        };
        let ghost due = self.is_due(sqe);
        assert(due);
        match self.submit(sqe) {
            Some(sqe) => Ok((Some(sqe), None)),
            None => {
                assert(self.is_due(sqe) && old(self).pending().contains(sqe.id()));
                Ok((None, None))
            },
        }
    }

    /// Why the completion `cqe` cannot be taken, if it cannot: the defect that `completed`
    /// names. Such a completion is fatal to the connection, and must not be handed to
    /// `process_cqe`.
    pub fn fault(&self, cqe: Cqe) -> (fault: Option<CompletionError>)
        requires
            self.wf(),
        ensures
            fault == match completed(self.setup(), self.state(), self.session(), cqe) {
                Ok(_) => None::<CompletionError>,
                Err(error) => Some(error),
            },
    {
        proof {
            self.fsm.lemma_wf();
        }
        let connected = match self.state {
            State::Connected { .. } => true,
            _ => false,
        };
        let session = self.fsm.session();
        if cqe.user_data == self.socket_user_data {
            if cqe.result < 0 {
                return Some(CompletionError::InvalidDescriptor);
            }
            match self.state {
                State::Initialized { .. } => None,
                _ => Some(CompletionError::OutOfOrder),
            }
        } else if cqe.user_data == self.connect_user_data {
            if cqe.result < 0 {
                return Some(CompletionError::Failed);
            }
            match self.state {
                State::Connecting { .. } => None,
                _ => Some(CompletionError::OutOfOrder),
            }
        } else if cqe.user_data == self.read_user_data {
            if !connected {
                None
            } else if cqe.result < 0 {
                Some(CompletionError::Failed)
            } else if cqe.result as usize > session.incoming_capacity - session.incoming_end {
                Some(CompletionError::Overrun)
            } else {
                None
            }
        } else if cqe.user_data == self.write_user_data {
            if !connected {
                None
            } else if cqe.result < 0 {
                Some(CompletionError::Failed)
            } else if cqe.result as usize > session.outgoing_end - session.outgoing_start {
                Some(CompletionError::Overrun)
            } else {
                None
            }
        } else {
            None
        }
    }

    /// Takes a completion that has no fault: its id is pending no more, and what it
    /// completes moves the connection's setup or the session on.
    pub fn process_cqe(&mut self, cqe: Cqe) -> (done: Result<(), CompletionError>)
        requires
            old(self).wf(),
            completed(old(self).setup(), old(self).state(), old(self).session(), cqe) is Ok,
        ensures
            final(self).wf(),
            final(self).setup() == old(self).setup(),
            final(self).pending() == old(self).pending().remove(cqe.user_data),
            done is Ok,
            completed(old(self).setup(), old(self).state(), old(self).session(), cqe) == Ok::<
                (State, SessionView),
                CompletionError,
            >((final(self).state(), final(self).session())),
    {
        broadcast use vstd::std_specs::hash::group_hash_axioms;

        proof {
            self.fsm.lemma_wf();
        }
        self.pending.remove(&cqe.user_data);
        if cqe.user_data == self.socket_user_data {
            match self.state {
                State::Initialized { addr } => {
                    self.state = State::Connecting { fd: cqe.result, addr };
                },
                _ => {},
            }
        } else if cqe.user_data == self.connect_user_data {
            match self.state {
                State::Connecting { fd, .. } => {
                    self.state = State::Connected { fd };
                },
                _ => {},
            }
        } else if cqe.user_data == self.read_user_data {
            match self.state {
                State::Connected { .. } => {
                    self.fsm.done_reading(cqe.result as usize);
                },
                _ => {},
            }
        } else if cqe.user_data == self.write_user_data {
            match self.state {
                State::Connected { .. } => {
                    self.fsm.done_writing(cqe.result as usize);
                },
                _ => {},
            }
        }
        Ok(())
    }

    /// The free tail of the incoming region: the stretch that a read submission names.
    pub fn read_buf(&mut self) -> (buf: &mut [u8])
        requires
            old(self).wf(),
        ensures
            buf@.len() == old(self).session().incoming_capacity - old(self).session().incoming_end,
            final(buf)@.len() == buf@.len() ==> final(self).wf(),
            final(self).session() == old(self).session(),
            final(self).state() == old(self).state(),
            final(self).setup() == old(self).setup(),
            final(self).pending() == old(self).pending(),
    {
        self.fsm.read_buf()
    }

    /// The unsent bytes: the stretch that a write submission names.
    pub fn write_buf(&self) -> (buf: &[u8])
        requires
            self.wf(),
        ensures
            buf@ == self.session().unsent(),
    {
        self.fsm.write_buf()
    }
}

/// A read completion that stays within the free tail of the incoming region moves the end
/// of the received bytes by its count, and leaves it inside the region.
pub proof fn lemma_read_completion(setup: Setup, state: State, session: SessionView, cqe: Cqe)
    requires
        session.wf(),
        state is Connected,
        setup.operation(cqe.user_data) is Read,
        0 <= cqe.result,
        session.incoming_end + cqe.result <= session.incoming_capacity,
    ensures
        completed(setup, state, session, cqe) == Ok::<(State, SessionView), CompletionError>(
            (state, session.after_read(cqe.result as nat)),
        ),
        session.after_read(cqe.result as nat).incoming_end == session.incoming_end + cqe.result,
        session.after_read(cqe.result as nat).incoming_end <= session.after_read(
            cqe.result as nat,
        ).incoming_capacity,
        session.after_read(cqe.result as nat).incoming_start == session.incoming_start,
{
}

/// Setup goes in order: before the socket exists, a connect completion that reports success
/// is out of order, and a read or a write completion changes nothing.
pub proof fn lemma_completions_before_connected(
    setup: Setup,
    state: State,
    session: SessionView,
    cqe: Cqe,
)
    requires
        !(state is Connected),
    ensures
        setup.operation(cqe.user_data) is Connect && state is Initialized && cqe.result >= 0
            ==> completed(setup, state, session, cqe) == Err::<
            (State, SessionView),
            CompletionError,
        >(CompletionError::OutOfOrder),
        setup.operation(cqe.user_data) is Read || setup.operation(cqe.user_data) is Write
            ==> completed(setup, state, session, cqe) == Ok::<
            (State, SessionView),
            CompletionError,
        >((state, session)),
{
}

} // verus!
