//! The readiness driver: the caller waits until the socket is readable or writable, and the
//! driver says which non-blocking operation to try then, for as long as the session keeps
//! asking for the same direction.

use std::sync::Arc;
use vstd::prelude::*;
use rustls::ClientConfig;
use crate::engine::names_server;
use crate::fsm::{action, ends_with, FsmError, Wants, FSM};
use crate::platform::{pollin, pollout};
use crate::response::Response;
use crate::session::{Asked, Defect, Session, SessionView, Span};

verus! {

/// What to wait for, or the response once the exchange is over.
#[derive(Debug)]
pub enum EventsOrResponse {
    /// The `poll` events to wait for on the socket.
    Events(i16),
    /// The exchange is over.
    Response(Response),
}

/// What the caller does next within one call of `poll`.
#[derive(Debug)]
pub enum Poll {
    /// Try to read, without blocking, into this stretch of the incoming region, and report
    /// what came of it with `attempted`.
    Read(Span),
    /// Try to write, without blocking, this stretch of the outgoing region, and report what
    /// came of it with `attempted`.
    Write(Span),
    /// The call is over, with this result.
    Return(Option<Response>),
}

/// What came of trying the operation that `poll` named.
#[derive(Debug, Clone, Copy, PartialEq, Eq, Structural)]
pub enum Attempt {
    /// So many bytes were moved.
    Moved(usize),
    /// The operation would block: nothing was moved.
    WouldBlock,
}

/// The readiness driver of one connection.
pub struct PollConnection {
    fsm: FSM,
    done: bool,
    readable_events: i16,
    writable_events: i16,
}

/// The step that an action of the session asks for on a socket that is readable (`readable`)
/// or else writable: the operation in that direction, the end of the call with the response
/// once the exchange is over, and the end of the call with nothing for an action in the other
/// direction.
pub open spec fn step_for(readable: bool, wants: Wants) -> Poll {
    match wants {
        Wants::Read(span) => if readable {
            Poll::Read(span)
        } else {
            Poll::Return(None)
        },
        Wants::Write(span) => if readable {
            Poll::Return(None)
        } else {
            Poll::Write(span)
        },
        Wants::Done(response) => Poll::Return(Some(response)),
    }
}

/// Whether a call of `poll` goes on after an attempt at the I/O that the session `session`
/// has asked for: it does when bytes were moved, as many as were asked for at most; it ends
/// where the operation would block.
pub open spec fn moved(session: SessionView, attempt: Attempt) -> Result<bool, Defect> {
    match attempt {
        Attempt::WouldBlock => Ok(false),
        Attempt::Moved(count) => match session.asked {
            None => Err(Defect::Unasked),
            Some(Asked::Read) => if session.incoming_end + count <= session.incoming_capacity {
                Ok(true)
            } else {
                Err(Defect::Overrun)
            },
            Some(Asked::Write) => if session.outgoing_start + count <= session.outgoing_end {
                Ok(true)
            } else {
                Err(Defect::Overrun)
            },
        },
    }
}

/// What to wait for on an action of the session: `readable_events` for a read,
/// `writable_events` for a write, and nothing but the response once the exchange is over.
pub open spec fn waits_for(wants: Wants, readable_events: i16, writable_events: i16)
    -> EventsOrResponse {
    match wants {
        Wants::Read(_) => EventsOrResponse::Events(readable_events),
        Wants::Write(_) => EventsOrResponse::Events(writable_events),
        Wants::Done(response) => EventsOrResponse::Response(response),
    }
}

/// What to wait for on an action of the session.
pub fn events_of(wants: Wants, readable_events: i16, writable_events: i16) -> (wait:
    EventsOrResponse)
    ensures
        wait == waits_for(wants, readable_events, writable_events),
{
    match wants {
        Wants::Read(_) => EventsOrResponse::Events(readable_events),
        Wants::Write(_) => EventsOrResponse::Events(writable_events),
        Wants::Done(response) => EventsOrResponse::Response(response),
    }
}

/// The step for an action of the session on a readable socket.
pub fn poll_read(wants: Wants) -> (step: Poll)
    ensures
        step == step_for(true, wants),
{
    match wants {
        Wants::Read(span) => Poll::Read(span),
        Wants::Done(response) => Poll::Return(Some(response)),
        Wants::Write(_) => Poll::Return(None),
    }
}

/// The step for an action of the session on a writable socket.
pub fn poll_write(wants: Wants) -> (step: Poll)
    ensures
        step == step_for(false, wants),
{
    match wants {
        Wants::Write(span) => Poll::Write(span),
        Wants::Done(response) => Poll::Return(Some(response)),
        Wants::Read(_) => Poll::Return(None),
    }
}

impl PollConnection {
    /// The bookkeeping of the session that runs over the connection.
    pub closed spec fn session(&self) -> SessionView {
        self.fsm@
    }

    /// The exchange is over and its response has been handed out.
    pub closed spec fn done(&self) -> bool {
        self.done
    }

    /// The events that stand for "readable" and for "writable".
    pub closed spec fn events_for(&self) -> (i16, i16) {
        (self.readable_events, self.writable_events)
    }

    /// The driver is consistent.
    pub closed spec fn wf(&self) -> bool {
        self.fsm.wf()
    }

    /// A driver for a GET of `path` from the host `hostname`.
    pub fn get(config: Arc<ClientConfig>, hostname: &str, path: &str) -> (made: Result<
        PollConnection,
        FsmError,
    >)
        ensures
            match made {
                Ok(conn) => {
                    &&& names_server(hostname@)
                    &&& conn.wf()
                    &&& conn.session() == Session::fresh()
                    &&& !conn.done()
                },
                Err(error) => if names_server(hostname@) {
                    error is Tls
                } else {
                    error is InvalidServerName
                },
            },
    {
        match FSM::for_host(config, hostname, path) {
            Err(error) => Err(error),
            Ok(fsm) => Ok(
                PollConnection {
                    fsm,
                    done: false,
                    readable_events: pollin(),
                    writable_events: pollout(),
                },
            ),
        }
    }

    /// Whether the exchange is over and its response has been handed out.
    pub fn is_done(&self) -> (done: bool)
        ensures
            done == self.done(),
    {
        self.done
    }

    /// What the caller must wait for: readable where the session wants to read, writable
    /// where it wants to write; or the response, once the exchange is over. No I/O is asked
    /// for.
    pub fn events(&mut self) -> (wait: Result<EventsOrResponse, FsmError>)
        requires
            old(self).wf(),
        ensures
            final(self).wf(),
            old(self).session().advances_to(final(self).session()),
            final(self).done() == old(self).done(),
            final(self).events_for() == old(self).events_for(),
            old(self).session().asked matches Some(asked) ==> final(self).session()
                == old(self).session() && wait == Ok::<EventsOrResponse, FsmError>(
                waits_for(
                    action(old(self).session(), asked),
                    old(self).events_for().0,
                    old(self).events_for().1,
                ),
            ),
            match wait {
                Ok(EventsOrResponse::Events(events)) => match final(self).session().asked {
                    Some(Asked::Read) => events == final(self).events_for().0,
                    Some(Asked::Write) => events == final(self).events_for().1,
                    None => false,
                },
                Ok(EventsOrResponse::Response(response)) => ends_with(
                    final(self).session(),
                    response,
                ),
                Err(error) => error.explained_by(final(self).session()),
            },
    {
        match self.fsm.wants() {
            Err(error) => Err(error),
            Ok(wants) => Ok(events_of(wants, self.readable_events, self.writable_events)),
        }
    }

    /// One step of a call on a socket that is readable or writable, exactly one of the two.
    /// The caller tries the operation named, reports it with `attempted`, and asks again
    /// where that says so, until the step is `Return`.
    ///
    /// Once the response has been handed out, every call ends at once with nothing. An action
    /// of the session in the other direction is never acted on: the call ends with nothing.
    pub fn poll(&mut self, readable: bool, writable: bool) -> (step: Result<Poll, FsmError>)
        requires
            old(self).wf(),
            readable != writable,
        ensures
            final(self).wf(),
            old(self).session().advances_to(final(self).session()),
            final(self).events_for() == old(self).events_for(),
            old(self).done() ==> step is Ok && step->Ok_0 == Poll::Return(None)
                && final(self).done() && final(self).session() == old(self).session(),
            !old(self).done() ==> final(self).done() == (step matches Ok(
                Poll::Return(Some(_)),
            )),
            !old(self).done() ==> (old(self).session().asked matches Some(asked)
                ==> final(self).session() == old(self).session() && step == Ok::<
                Poll,
                FsmError,
            >(step_for(readable, action(old(self).session(), asked)))),
            match step {
                Ok(Poll::Read(span)) => {
                    &&& readable
                    &&& final(self).session().asked == Some(Asked::Read)
                    &&& span == final(self).session().read_span()
                    &&& span.start < span.end
                },
                Ok(Poll::Write(span)) => {
                    &&& writable
                    &&& final(self).session().asked == Some(Asked::Write)
                    &&& span == final(self).session().write_span()
                },
                Ok(Poll::Return(Some(response))) => !old(self).done() && ends_with(
                    final(self).session(),
                    response,
                ),
                Ok(Poll::Return(None)) => old(self).done() || final(self).session().asked
                    == Some(
                    if readable {
                        Asked::Write
                    } else {
                        Asked::Read
                    },
                ),
                Err(error) => !old(self).done() && error.explained_by(final(self).session()),
            },
    {
        if self.done {
            proof {
                self.fsm.lemma_wf();
                crate::session::lemma_advances_reflexive(self.fsm@);
            }
            return Ok(Poll::Return(None));
        }
        let wants = match self.fsm.wants() {
            Err(error) => {
                return Err(error);
            },
            Ok(wants) => wants,
        };
        let step = if readable {
            poll_read(wants)
        } else {
            poll_write(wants)
        };
        if let Poll::Return(Some(_)) = &step {
            self.done = true;
        }
        Ok(step)
    }

    /// Takes what came of trying the operation that `poll` named, and says whether the call
    /// goes on: bytes moved are reported to the session, and the caller asks `poll` again; an
    /// operation that would block ends the call with nothing.
    ///
    /// Bytes that were not asked for, or more bytes than were asked for, are a defect, and
    /// leave the session as it was.
    pub fn attempted(&mut self, attempt: Attempt) -> (goes_on: Result<bool, Defect>)
        requires
            old(self).wf(),
        ensures
            final(self).wf(),
            final(self).done() == old(self).done(),
            final(self).events_for() == old(self).events_for(),
            goes_on is Err ==> final(self).session() == old(self).session(),
            goes_on == moved(old(self).session(), attempt),
            goes_on == Ok::<bool, Defect>(true) ==> final(self).session()
                == match old(self).session().asked {
                Some(Asked::Write) => old(self).session().after_write(attempt->Moved_0 as nat),
                _ => old(self).session().after_read(attempt->Moved_0 as nat),
            },
            goes_on == Ok::<bool, Defect>(false) ==> final(self).session() == old(self).session(),
    {
        proof {
            self.fsm.lemma_wf();
        }
        let count = match attempt {
            Attempt::WouldBlock => {
                return Ok(false);
            },
            Attempt::Moved(count) => count,
        };
        let session = self.fsm.session();
        match session.asked {
            None => Err(Defect::Unasked),
            Some(Asked::Read) => {
                if count > session.incoming_capacity - session.incoming_end {
                    return Err(Defect::Overrun);
                }
                self.fsm.done_reading(count);
                Ok(true)
            },
            Some(Asked::Write) => {
                if count > session.outgoing_end - session.outgoing_start {
                    return Err(Defect::Overrun);
                }
                self.fsm.done_writing(count);
                Ok(true)
            },
        }
    }

    /// The free tail of the incoming region: the stretch that `Poll::Read` names.
    pub fn read_buf(&mut self) -> (buf: &mut [u8])
        requires
            old(self).wf(),
        ensures
            buf@.len() == old(self).session().incoming_capacity - old(self).session().incoming_end,
            final(buf)@.len() == buf@.len() ==> final(self).wf(),
            final(self).session() == old(self).session(),
            final(self).done() == old(self).done(),
            final(self).events_for() == old(self).events_for(),
    {
        self.fsm.read_buf()
    }

    /// The unsent bytes: the stretch that `Poll::Write` names.
    pub fn write_buf(&self) -> (buf: &[u8])
        requires
            self.wf(),
        ensures
            buf@ == self.session().unsent(),
    {
        self.fsm.write_buf()
    }
}

} // verus!
