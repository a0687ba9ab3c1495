//! The protocol driver: it owns the TLS engine and the buffers, and says through `wants`
//! which I/O it needs next. It reads and writes no socket itself.

use std::sync::Arc;
use vstd::prelude::*;
use rustls::client::{ClientConnectionData, UnbufferedClientConnection};
use rustls::pki_types::ServerName;
use rustls::unbuffered::{EncodeTlsData, ReadTraffic, WriteTraffic};
use rustls::ClientConfig;
use crate::engine::{
    classify, close_notify, encode, encrypt, may_encrypt, names_server, next_record,
    open_connection, process, server_name, transmitted, Engine, Record, Written,
};
use crate::headers::{put, Line};
use crate::request::Request;
use crate::response::{parse_response, ParseError, Response, ResponseView};
use crate::session::{
    Asked, Defect, Plan, Report, Session, SessionView, Span, INCOMING_INITIAL,
};

verus! {

/// How many steps of the engine one query follows before it gives up.
pub const STEP_LIMIT: u64 = 0xffff_ffff_ffff_ffff;

/// What the driver needs next.
#[derive(Debug)]
pub enum Wants {
    /// Bytes are to be read from the peer into this stretch of the incoming region.
    Read(Span),
    /// The bytes in this stretch of the outgoing region are to be written to the peer.
    Write(Span),
    /// The exchange is over: here is the response.
    Done(Response),
}

/// Why the driver cannot go on.
#[derive(Debug)]
pub enum FsmError {
    /// The host name is neither a DNS name nor an IP address.
    InvalidServerName,
    /// The TLS engine failed.
    Tls(rustls::Error),
    /// The engine reported a state that the driver has no answer to.
    UnexpectedState,
    /// The engine had no room in the outgoing region even after the region had grown to the
    /// size it asked for.
    BufferTooSmall,
    /// The engine refused to write.
    Refused,
    /// The bookkeeping of the session failed.
    Session(Defect),
    /// The engine asked for no I/O within `STEP_LIMIT` steps.
    Stalled,
    /// The bytes received are no response.
    Parse(ParseError),
}

/// The protocol driver of one session.
pub struct FSM {
    conn: UnbufferedClientConnection,
    request: Option<Request>,
    incoming: Vec<u8>,
    session: Session,
}

/// Only the outgoing region and the end of the queued bytes differ between `before` and
/// `after`, and nothing that was queued is lost.
pub open spec fn queued_more(before: SessionView, after: SessionView) -> bool {
    &&& after == (SessionView {
        outgoing: after.outgoing,
        outgoing_end: after.outgoing_end,
        ..before
    })
    &&& before.advances_to(after)
}

/// Only the consumed bytes, the response and the flag for it differ between `before` and
/// `after`, and the response has only grown.
pub open spec fn received_more(before: SessionView, after: SessionView) -> bool {
    &&& after == (SessionView {
        incoming_start: after.incoming_start,
        consumed: after.consumed,
        response: after.response,
        received_response: after.received_response,
        ..before
    })
    &&& before.advances_to(after)
}

/// The session has ended, and `response` is what the bytes received hold.
pub open spec fn ends_with(session: SessionView, response: Response) -> bool {
    &&& session.is_terminal()
    &&& parse_response(session.response) == Ok::<ResponseView, ParseError>(response@)
}

impl FsmError {
    /// The error is owed in the session `session`: a parse error where the session has ended
    /// and the bytes received are no response for that reason; `Unfinished` where it has not
    /// ended; `RequestNotSent` where the request is unsent; and else an error that lies with
    /// the engine.
    pub open spec fn explained_by(self, session: SessionView) -> bool {
        match self {
            FsmError::Parse(error) => session.is_terminal() && parse_response(session.response)
                == Err::<ResponseView, ParseError>(error),
            FsmError::Session(Defect::Unfinished) => !session.is_terminal(),
            FsmError::Session(Defect::RequestNotSent) => !session.sent_request,
            _ => self.blames_engine(),
        }
    }

    /// The error lies with the TLS engine: it failed, reported what the driver cannot
    /// follow, or made no progress.
    pub open spec fn blames_engine(self) -> bool {
        ||| self is Tls
        ||| self is UnexpectedState
        ||| self is BufferTooSmall
        ||| self is Refused
        ||| self is Stalled
        ||| self == FsmError::Session(Defect::Overrun)
        ||| self == FsmError::Session(Defect::TooLarge)
    }
}

/// The action that asks for I/O in the direction `asked` in the session `session`.
pub open spec fn action(session: SessionView, asked: Asked) -> Wants {
    match asked {
        Asked::Read => Wants::Read(session.read_span()),
        Asked::Write => Wants::Write(session.write_span()),
    }
}

/// What a query promises: `wanted` is its answer, `before` the session that it found and
/// `after` the session that it leaves.
///
/// Where I/O was asked for and has not been reported, nothing changes and the same is asked
/// again. Else the session only advances, whatever the engine reports. `Read` names the free
/// tail of the incoming region, which is not empty. `Write` names the unsent bytes, which
/// are not empty unless the close notification is all that was queued. `Done` comes in the
/// terminal state alone, with the response that the received bytes hold. After `Read` and
/// `Write` that I/O is asked for; after `Done` and after an error nothing is.
pub open spec fn answers(before: SessionView, after: SessionView, wanted: Result<Wants, FsmError>)
    -> bool {
    &&& after.wf()
    &&& match before.asked {
        Some(asked) => after == before && wanted == Ok::<Wants, FsmError>(action(before, asked)),
        None => before.advances_to(after),
    }
    &&& match wanted {
        Ok(Wants::Read(span)) => {
            &&& after.asked == Some(Asked::Read)
            &&& span == after.read_span()
            &&& span.start < span.end
        },
        Ok(Wants::Write(span)) => {
            &&& after.asked == Some(Asked::Write)
            &&& span == after.write_span()
            &&& (span.start < span.end || after.we_closed)
        },
        Ok(Wants::Done(response)) => after.asked is None && ends_with(after, response),
        Err(error) => after.asked is None && error.explained_by(after),
    }
}

/// Asking again changes nothing: a query that follows a query which asked for I/O, with no
/// report of that I/O in between, gives the same answer and leaves the session as it is.
pub proof fn lemma_repeated_query(
    first: SessionView,
    second: SessionView,
    third: SessionView,
    wanted: Result<Wants, FsmError>,
    again: Result<Wants, FsmError>,
)
    requires
        answers(first, second, wanted),
        wanted matches Ok(Wants::Read(_)) || wanted matches Ok(Wants::Write(_)),
        answers(second, third, again),
    ensures
        again == wanted,
        third == second,
{
}

/// Books what the engine did when it was asked to write behind the queued bytes: bytes
/// written are queued; where the room was too small, the region grows to the size asked
/// for, once. Returns whether the write is done.
fn settle(session: &mut Session, written: Written, retried: bool) -> (done: Result<bool, FsmError>)
    requires
        old(session)@.wf(),
    ensures
        final(session)@.wf(),
        queued_more(old(session)@, final(session)@),
        done is Err <==> match written {
            Written::Bytes(count) => old(session)@.outgoing_end + count
                > old(session)@.outgoing.len(),
            Written::TooSmall(required) => retried || old(session)@.outgoing_end + required
                > usize::MAX,
            Written::Refused => true,
        },
        match done {
            Ok(finished) => if finished {
                &&& written matches Written::Bytes(count)
                &&& final(session)@.outgoing == old(session)@.outgoing
                &&& final(session)@.outgoing_end == old(session)@.outgoing_end + count
            } else {
                &&& written matches Written::TooSmall(required)
                &&& !retried
                &&& final(session)@.outgoing_end == old(session)@.outgoing_end
                &&& final(session)@.outgoing.len() == old(session)@.outgoing_end + required
            },
            Err(error) => final(session)@ == old(session)@ && error == match written {
                Written::Bytes(_) => FsmError::Session(Defect::Overrun),
                Written::TooSmall(_) => if retried {
                    FsmError::BufferTooSmall
                } else {
                    FsmError::Session(Defect::TooLarge)
                },
                Written::Refused => FsmError::Refused,
            },
        },
{
    match written {
        Written::Bytes(count) => {
            match session.queued(count) {
                Ok(()) => Ok(true),
                Err(defect) => Err(FsmError::Session(defect)),
            }
        },
        Written::TooSmall(required) => {
            if retried {
                return Err(FsmError::BufferTooSmall);
            }
            match session.reserve(required) {
                Ok(()) => Ok(false),
                Err(defect) => Err(FsmError::Session(defect)),
            }
        },
        Written::Refused => Err(FsmError::Refused),
    }
}

/// Takes every decrypted record that the engine holds into the session.
fn drain(
    mut state: ReadTraffic<'_, '_, ClientConnectionData>,
    session: &mut Session,
    budget: &mut u64,
) -> (done: Result<(), FsmError>)
    requires
        old(session)@.wf(),
    ensures
        final(session)@.wf(),
        drained(old(session)@, final(session)@, *old(budget), *final(budget), done),
{
    if *budget == 0 {
        return Err(FsmError::Stalled);
    }
    while *budget > 0
        invariant
            session@.wf(),
            received_more(old(session)@, session@),
            session@ == old(session)@ || session@.received_response,
            *budget <= *old(budget),
            *old(budget) > 0,
            *budget == 0 ==> *budget < *old(budget),
        decreases *budget,
    {
        *budget = *budget - 1;
        match next_record(&mut state) {
            Record::End => {
                return Ok(());
            },
            Record::Failed(error) => {
                return Err(FsmError::Tls(error));
            },
            Record::Data(count, payload) => {
                match session.record(count, payload.as_slice()) {
                    Ok(()) => {},
                    Err(defect) => {
                        return Err(FsmError::Session(defect));
                    },
                }
            },
        }
    }
    Err(FsmError::Stalled)
}

/// Queues the handshake record that the engine holds: where the outgoing region has no
/// room for it, the region grows to the size asked for and the engine is asked once more.
fn queue_record(mut state: EncodeTlsData<'_, ClientConnectionData>, session: &mut Session) -> (done:
    Result<(), FsmError>)
    requires
        old(session)@.wf(),
    ensures
        final(session)@.wf(),
        wrote_or_failed(old(session)@, final(session)@, done),
{
    let from = session.outgoing_end;
    let first = encode(&mut state, &mut session.outgoing, from);
    match settle(session, first, false) {
        Err(error) => Err(error),
        Ok(true) => Ok(()),
        Ok(false) => {
            let second = encode(&mut state, &mut session.outgoing, from);
            match settle(session, second, true) {
                Err(error) => Err(error),
                Ok(_) => Ok(()),
            }
        },
    }
}

/// Queues `data`, encrypted, with the same policy of growing once.
fn queue_data(
    state: &mut WriteTraffic<'_, ClientConnectionData>,
    data: &[u8],
    session: &mut Session,
) -> (done: Result<(), FsmError>)
    requires
        old(session)@.wf(),
    ensures
        final(session)@.wf(),
        wrote_or_failed(old(session)@, final(session)@, done),
{
    let from = session.outgoing_end;
    let first = encrypt(state, data, &mut session.outgoing, from);
    match settle(session, first, false) {
        Err(error) => Err(error),
        Ok(true) => Ok(()),
        Ok(false) => {
            let second = encrypt(state, data, &mut session.outgoing, from);
            match settle(session, second, true) {
                Err(error) => Err(error),
                Ok(_) => Ok(()),
            }
        },
    }
}

/// Queues the close notification, with the same policy of growing once.
fn queue_close(state: &mut WriteTraffic<'_, ClientConnectionData>, session: &mut Session) -> (done:
    Result<(), FsmError>)
    requires
        old(session)@.wf(),
    ensures
        final(session)@.wf(),
        wrote_or_failed(old(session)@, final(session)@, done),
{
    let from = session.outgoing_end;
    let first = close_notify(state, &mut session.outgoing, from);
    match settle(session, first, false) {
        Err(error) => Err(error),
        Ok(true) => Ok(()),
        Ok(false) => {
            let second = close_notify(state, &mut session.outgoing, from);
            match settle(session, second, true) {
                Err(error) => Err(error),
                Ok(_) => Ok(()),
            }
        },
    }
}

/// What taking in the engine's records comes to, `steps` being the steps that the query had
/// left before and `left` those that it has left after.
///
/// Every record asked of the engine costs a step: with no step left nothing is asked and the
/// query has stalled; else at least one step is spent. Only the consumed bytes, the response
/// and its flag change; where anything changed, a record was taken in, and the response
/// counts as received. A failure is the engine's own, a record that overruns the received
/// bytes, or the last step spent.
pub open spec fn drained(
    before: SessionView,
    after: SessionView,
    steps: u64,
    left: u64,
    done: Result<(), FsmError>,
) -> bool {
    &&& received_more(before, after)
    &&& (after != before ==> after.received_response)
    &&& if steps == 0 {
        left == 0 && after == before && done == Err::<(), FsmError>(FsmError::Stalled)
    } else {
        left < steps
    }
    &&& match done {
        Ok(_) => true,
        Err(error) => {
            &&& error is Tls || error is Stalled || error == FsmError::Session(Defect::Overrun)
            &&& error is Stalled ==> left == 0
        },
    }
}

/// What asking the engine to write behind the queued bytes comes to, under the policy of
/// growing once.
///
/// Only the outgoing region and the end of the queued bytes change; the region never
/// shrinks. On failure nothing more is queued, and the failure is a refusal of the engine,
/// room that is too small a second time, in which case the region has grown, or a region
/// that cannot grow, in which case nothing has changed. A failure that left the region at
/// its size left everything as it was.
pub open spec fn wrote_or_failed(
    before: SessionView,
    after: SessionView,
    done: Result<(), FsmError>,
) -> bool {
    &&& queued_more(before, after)
    &&& before.outgoing.len() <= after.outgoing.len()
    &&& match done {
        Ok(_) => true,
        Err(error) => {
            &&& after.outgoing_end == before.outgoing_end
            &&& error is Refused || error is BufferTooSmall || error == FsmError::Session(
                Defect::TooLarge,
            )
            &&& error is BufferTooSmall ==> before.outgoing.len() < after.outgoing.len()
            &&& error == FsmError::Session(Defect::TooLarge) ==> after == before
            &&& after.outgoing.len() == before.outgoing.len() ==> after == before
        },
    }
}

impl View for FSM {
    type V = SessionView;

    /// The session's bookkeeping.
    closed spec fn view(&self) -> SessionView {
        self.session@
    }
}

impl FSM {
    /// The request that is still to be sent: its path and its header lines.
    pub closed spec fn pending_request(&self) -> Option<(Seq<char>, Seq<Line>)> {
        match self.request {
            Some(request) => Some((request.path(), request.lines())),
            None => None,
        }
    }

    /// The driver is consistent: the cursors lie inside the regions, and the request is held
    /// until it has been sent.
    pub closed spec fn wf(&self) -> bool {
        &&& self.session@.wf()
        &&& self.session.incoming_capacity == self.incoming.len()
        &&& (self.request is Some <==> !self.session.sent_request)
    }

    /// What `wf` says of the session.
    pub proof fn lemma_wf(&self)
        requires
            self.wf(),
        ensures
            self@.wf(),
            self.pending_request() is Some <==> !self@.sent_request,
    {
    }

    /// A driver for a session with the server `server_name`, in which `request` is sent.
    pub fn new(
        config: Arc<ClientConfig>,
        server_name: ServerName<'static>,
        request: Request,
    ) -> (made: Result<FSM, FsmError>)
        ensures
            match made {
                Ok(fsm) => fsm.wf() && fsm@ == Session::fresh() && fsm.pending_request() == Some(
                    (request.path(), request.lines()),
                ),
                Err(error) => error is Tls,
            },
    {
        match open_connection(config, server_name) {
            Err(error) => Err(FsmError::Tls(error)),
            Ok(conn) => Ok(
                FSM {
                    conn,
                    request: Some(request),
                    incoming: vec![0u8; INCOMING_INITIAL],
                    session: Session::new(),
                },
            ),
        }
    }

    /// A driver for a GET of `path` from the host `hostname`: the request carries the headers
    /// `Host`, with the host's name, and `Connection: close`.
    pub fn for_host(config: Arc<ClientConfig>, hostname: &str, path: &str) -> (made: Result<
        FSM,
        FsmError,
    >)
        ensures
            match made {
                Ok(fsm) => names_server(hostname@) && fsm.wf() && fsm@ == Session::fresh()
                    && fsm.pending_request() == Some(
                    (
                        path@,
                        put(
                            put(Seq::<Line>::empty(), "Host"@, hostname@),
                            "Connection"@,
                            "close"@,
                        ),
                    ),
                ),
                Err(error) => if names_server(hostname@) {
                    error is Tls
                } else {
                    error is InvalidServerName
                },
            },
    {
        let name = match server_name(hostname) {
            None => {
                return Err(FsmError::InvalidServerName);
            },
            Some(name) => name,
        };
        let mut request = Request::get(path);
        request.add_header("Host", hostname);
        request.add_header("Connection", "close");
        FSM::new(config, name, request)
    }

    /// The session's bookkeeping.
    pub fn session(&self) -> (session: &Session)
        ensures
            session@ == self@,
    {
        &self.session
    }

    /// Makes room in the incoming region and asks for bytes to be read into it.
    fn await_input(&mut self) -> (wanted: Result<Wants, FsmError>)
        requires
            old(self).wf(),
            old(self)@.asked is None,
        ensures
            final(self).wf(),
            final(self).pending_request() == old(self).pending_request(),
            match wanted {
                Ok(wants) => final(self)@ == old(self)@.with_room().asking(Asked::Read)
                    && wants == Wants::Read(final(self)@.read_span()),
                Err(error) => final(self)@ == old(self)@ && error == FsmError::Session(
                    Defect::TooLarge,
                ) && old(self)@.with_room().incoming_capacity > usize::MAX,
            },
    {
        match self.session.make_room() {
            Err(defect) => Err(FsmError::Session(defect)),
            Ok(size) => {
                self.incoming.resize(size, 0);
                Ok(Wants::Read(self.session.ask(Asked::Read)))
            },
        }
    }

    /// Says which I/O the driver needs next. Where I/O has been asked for and not reported,
    /// the same is asked again. Else the engine is asked for its state, and what it asks for
    /// is done, until bytes must be read or written or the exchange is over.
    pub fn wants(&mut self) -> (wanted: Result<Wants, FsmError>)
        requires
            old(self).wf(),
        ensures
            final(self).wf(),
            answers(old(self)@, final(self)@, wanted),
            !final(self)@.sent_request ==> final(self).pending_request()
                == old(self).pending_request(),
    {
        match self.session.asked {
            Some(Asked::Read) => {
                return Ok(Wants::Read(self.session.read_span()));
            },
            Some(Asked::Write) => {
                return Ok(Wants::Write(self.session.write_span()));
            },
            None => {},
        }
        let mut budget: u64 = STEP_LIMIT;
        while budget > 0
            invariant
                self.wf(),
                self@.asked is None,
                old(self)@.asked is None,
                old(self)@.advances_to(self@),
                !self@.sent_request ==> self.pending_request() == old(self).pending_request(),
            decreases budget,
        {
            budget = budget - 1;
            let last = self.session.window;
            let consumed = self.session.consumed;
            let window = self.session.hand_over();
            let (count, state) = process(
                &mut self.conn,
                &mut self.incoming,
                window,
                last,
                consumed,
            );
            match self.session.discard(count) {
                Ok(()) => {},
                Err(defect) => {
                    return Err(FsmError::Session(defect));
                },
            }
            let state = match state {
                Ok(state) => state,
                Err(error) => {
                    return Err(FsmError::Tls(error));
                },
            };
            match classify(state) {
                Engine::ReadTraffic(records) => {
                    match drain(records, &mut self.session, &mut budget) {
                        Ok(()) => {},
                        Err(error) => {
                            return Err(error);
                        },
                    }
                },
                Engine::Encode(record) => {
                    match queue_record(record, &mut self.session) {
                        Ok(()) => {},
                        Err(error) => {
                            return Err(error);
                        },
                    }
                },
                Engine::Transmit(mut flight) => {
                    let writer = may_encrypt(&mut flight);
                    let report = Report::Transmit { may_encrypt: writer.is_some() };
                    match (self.session.plan(report), writer, self.request.take()) {
                        (Plan::SendRequest, Some(mut writer), Some(request)) => {
                            let bytes = request.into_bytes();
                            match queue_data(&mut writer, bytes.as_slice(), &mut self.session) {
                                Ok(()) => {
                                    self.session.sent_request = true;
                                },
                                Err(error) => {
                                    self.session.sent_request = true;
                                    return Err(error);
                                },
                            }
                        },
                        (_, _, request) => {
                            self.request = request;
                        },
                    }
                    match self.session.plan(report) {
                        Plan::Write => {
                            return Ok(Wants::Write(self.session.ask(Asked::Write)));
                        },
                        _ => {
                            transmitted(flight);
                        },
                    }
                },
                Engine::Blocked => {
                    match self.session.plan(Report::Blocked) {
                        Plan::Read => {
                            return self.await_input();
                        },
                        _ => {
                            return Err(FsmError::UnexpectedState);
                        },
                    }
                },
                Engine::Traffic(mut writer) => {
                    match self.session.plan(Report::Traffic) {
                        Plan::Read => {
                            return self.await_input();
                        },
                        Plan::CloseNotify => {
                            return match queue_close(&mut writer, &mut self.session) {
                                Ok(()) => {
                                    self.session.we_closed = true;
                                    Ok(Wants::Write(self.session.ask(Asked::Write)))
                                },
                                Err(error) => Err(error),
                            };
                        },
                        Plan::Fail(defect) => {
                            return Err(FsmError::Session(defect));
                        },
                        _ => {
                            return Err(FsmError::UnexpectedState);
                        },
                    }
                },
                Engine::PeerClosed => {
                    match self.session.plan(Report::PeerClosed) {
                        Plan::Continue => {},
                        _ => {
                            return Err(FsmError::UnexpectedState);
                        },
                    }
                },
                Engine::Closed => {
                    match self.session.plan(Report::Closed) {
                        Plan::Finish => {
                            let received = self.session.response.clone();
                            return match Response::parse(received) {
                                Ok(response) => Ok(Wants::Done(response)),
                                Err(error) => Err(FsmError::Parse(error)),
                            };
                        },
                        Plan::Fail(defect) => {
                            return Err(FsmError::Session(defect));
                        },
                        _ => {
                            return Err(FsmError::UnexpectedState);
                        },
                    }
                },
                Engine::Other => {
                    return Err(FsmError::UnexpectedState);
                },
            }
        }
        Err(FsmError::Stalled)
    }

    /// Notes that `count` bytes have been read into the stretch that `wants` named.
    pub fn done_reading(&mut self, count: usize)
        requires
            old(self).wf(),
            old(self)@.incoming_end + count <= old(self)@.incoming_capacity,
        ensures
            final(self).wf(),
            final(self)@ == old(self)@.after_read(count as nat),
            final(self)@.incoming_end <= final(self)@.incoming_capacity,
            final(self).pending_request() == old(self).pending_request(),
    {
        self.session.done_reading(count);
    }

    /// Notes that `count` bytes of the stretch that `wants` named have been written.
    pub fn done_writing(&mut self, count: usize)
        requires
            old(self).wf(),
            old(self)@.outgoing_start + count <= old(self)@.outgoing_end,
        ensures
            final(self).wf(),
            final(self)@ == old(self)@.after_write(count as nat),
            final(self).pending_request() == old(self).pending_request(),
    {
        self.session.done_writing(count);
    }

    /// The free tail of the incoming region: the stretch that `Wants::Read` names.
    pub fn read_buf(&mut self) -> (buf: &mut [u8])
        requires
            old(self).wf(),
        ensures
            buf@.len() == old(self)@.incoming_capacity - old(self)@.incoming_end,
            final(buf)@.len() == buf@.len() ==> final(self).wf(),
            final(self)@ == old(self)@,
            final(self).pending_request() == old(self).pending_request(),
    {
        let end = self.session.incoming_end;
        let whole = self.incoming.as_mut_slice();
        let (_, tail) = whole.split_at_mut(end);
        tail
    }

    /// The unsent bytes: the stretch that `Wants::Write` names.
    pub fn write_buf(&self) -> (buf: &[u8])
        requires
            self.wf(),
        ensures
            buf@ == self@.unsent(),
    {
        vstd::slice::slice_subrange(
            self.session.outgoing.as_slice(),
            self.session.outgoing_start,
            self.session.outgoing_end,
        )
    }
}

} // verus!
