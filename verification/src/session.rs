//! The buffer manager of a protocol session: cursors over the incoming and the outgoing byte
//! region, the response accumulator and the progress flags, and the decisions that rest on
//! them alone.

use vstd::prelude::*;

verus! {

/// How many bytes the incoming region holds at first.
pub const INCOMING_INITIAL: usize = 1024;

/// By how many bytes the incoming region grows when its tail is exhausted.
pub const INCOMING_GROWTH: usize = 16384;

/// How many bytes the outgoing region holds at first.
pub const OUTGOING_INITIAL: usize = 1024;

/// A stretch of a byte region: the bytes from `start` up to, not including, `end`.
#[derive(Debug, Clone, Copy, PartialEq, Eq, Structural, Hash)]
pub struct Span {
    pub start: usize,
    pub end: usize,
}

/// What went wrong in a session's bookkeeping.
#[derive(Debug, Clone, Copy, PartialEq, Eq, Structural)]
pub enum Defect {
    /// More bytes were reported as consumed or produced than the region holds.
    Overrun,
    /// A region would have to grow beyond what can be addressed.
    TooLarge,
    /// The data phase was reached before the request had been sent.
    RequestNotSent,
    /// The connection closed before the exchange was complete.
    Unfinished,
    /// I/O was reported that had not been asked for.
    Unasked,
}

/// The first `count` bytes of `before` stand unchanged at the start of `after`.
pub open spec fn same_prefix(before: Seq<u8>, after: Seq<u8>, count: nat) -> bool {
    &&& count <= before.len()
    &&& count <= after.len()
    &&& forall|i: int| 0 <= i < count ==> before[i] == after[i]
}

/// The direction of the I/O that a session has asked for and that has not been reported yet.
#[derive(Debug, Clone, Copy, PartialEq, Eq, Structural)]
pub enum Asked {
    /// Bytes are to be read into the free tail of the incoming region.
    Read,
    /// The unsent bytes of the outgoing region are to be written.
    Write,
}

/// A state of the TLS engine in which the session decides what happens next.
#[derive(Debug, Clone, Copy, PartialEq, Eq, Structural)]
pub enum Report {
    /// The handshake waits for more input.
    Blocked,
    /// A flight is ready to be transmitted; `may_encrypt` says whether application data may
    /// travel with it.
    Transmit { may_encrypt: bool },
    /// The handshake is over: application data may be written.
    Traffic,
    /// The peer has closed its side.
    PeerClosed,
    /// Both sides have closed.
    Closed,
}

/// What the session does on a report of the engine.
#[derive(Debug, Clone, Copy, PartialEq, Eq, Structural)]
pub enum Plan {
    /// Suspend until bytes have been read into the free tail of the incoming region.
    Read,
    /// Suspend until unsent bytes of the outgoing region have been written.
    Write,
    /// Encrypt the request into the outgoing region, then decide again.
    SendRequest,
    /// Queue the close notification, then suspend for writing.
    CloseNotify,
    /// Tell the engine that the flight has gone out, and go on.
    Transmitted,
    /// Nothing to do; go on.
    Continue,
    /// The exchange is complete: hand out the response.
    Finish,
    /// The session cannot go on.
    Fail(Defect),
}

/// The bookkeeping of one session.
#[derive(Debug)]
pub struct Session {
    /// Start of the received bytes that the engine has not consumed yet.
    pub incoming_start: usize,
    /// End of the received bytes.
    pub incoming_end: usize,
    /// Size of the incoming region.
    pub incoming_capacity: usize,
    /// The outgoing region.
    pub outgoing: Vec<u8>,
    /// Start of the queued bytes that have not been sent yet.
    pub outgoing_start: usize,
    /// End of the queued bytes.
    pub outgoing_end: usize,
    /// The decrypted response bytes received so far.
    pub response: Vec<u8>,
    /// The request has been queued for sending.
    pub sent_request: bool,
    /// Response bytes have been received.
    pub received_response: bool,
    /// Our close notification has been queued.
    pub we_closed: bool,
    /// The I/O that has been asked for and not reported yet.
    pub asked: Option<Asked>,
    /// The stretch of the incoming region that was last handed to the engine.
    pub window: Span,
    /// How many bytes of that stretch the engine has reported as consumed.
    pub consumed: usize,
}

/// A session as mathematical values.
pub struct SessionView {
    pub incoming_start: nat,
    pub incoming_end: nat,
    pub incoming_capacity: nat,
    pub outgoing: Seq<u8>,
    pub outgoing_start: nat,
    pub outgoing_end: nat,
    pub response: Seq<u8>,
    pub sent_request: bool,
    pub received_response: bool,
    pub we_closed: bool,
    pub asked: Option<Asked>,
    pub window_start: nat,
    pub window_end: nat,
    pub consumed: nat,
}

impl SessionView {
    /// The cursors lie in order inside their regions, and the unconsumed bytes start where
    /// the engine left off in the stretch that it was last handed.
    pub open spec fn wf(self) -> bool {
        &&& self.incoming_start <= self.incoming_end <= self.incoming_capacity
        &&& self.outgoing_start <= self.outgoing_end <= self.outgoing.len()
        &&& self.incoming_capacity <= usize::MAX
        &&& self.outgoing.len() <= usize::MAX
        &&& self.incoming_start == self.window_start + self.consumed
        &&& self.window_end <= self.incoming_end
        &&& (self.asked == Some(Asked::Read) ==> self.incoming_end < self.incoming_capacity)
        &&& (self.asked == Some(Asked::Write) ==> self.outgoing_start < self.outgoing_end
            || self.we_closed)
    }

    /// The stretch that I/O in the direction `asked` moves bytes of.
    pub open spec fn span_of(self, asked: Asked) -> Span {
        match asked {
            Asked::Read => self.read_span(),
            Asked::Write => self.write_span(),
        }
    }

    /// The free tail of the incoming region, into which bytes are read.
    pub open spec fn read_span(self) -> Span {
        Span { start: self.incoming_end as usize, end: self.incoming_capacity as usize }
    }

    /// The queued bytes that have not been sent.
    pub open spec fn write_span(self) -> Span {
        Span { start: self.outgoing_start as usize, end: self.outgoing_end as usize }
    }

    /// The bytes that are queued and not sent.
    pub open spec fn unsent(self) -> Seq<u8> {
        self.outgoing.subrange(self.outgoing_start as int, self.outgoing_end as int)
    }

    /// The state in which a session ends: request sent, response received, nothing left
    /// unconsumed or queued.
    pub open spec fn is_terminal(self) -> bool {
        &&& self.sent_request
        &&& self.received_response
        &&& self.incoming_start == self.incoming_end
        &&& self.outgoing_end == 0
    }

    /// The session after the engine has consumed `count` received bytes.
    pub open spec fn discarded(self, count: nat) -> SessionView {
        SessionView {
            incoming_start: self.incoming_start + count,
            consumed: self.consumed + count,
            ..self
        }
    }

    /// The session after the received bytes that are not consumed have been handed to the
    /// engine.
    pub open spec fn handed_over(self) -> SessionView {
        SessionView {
            window_start: self.incoming_start,
            window_end: self.incoming_end,
            consumed: 0,
            ..self
        }
    }

    /// The session after a decrypted record has come in.
    pub open spec fn recorded(self, count: nat, payload: Seq<u8>) -> SessionView {
        SessionView {
            incoming_start: self.incoming_start + count,
            consumed: self.consumed + count,
            response: self.response + payload,
            received_response: true,
            ..self
        }
    }

    /// The session with room to read into: the incoming region grown where its tail was
    /// exhausted.
    pub open spec fn with_room(self) -> SessionView {
        if self.incoming_end == self.incoming_capacity {
            SessionView {
                incoming_capacity: self.incoming_capacity + INCOMING_GROWTH as nat,
                ..self
            }
        } else {
            self
        }
    }

    /// The session after `count` bytes have been read into the free tail: nothing is asked
    /// for any more.
    pub open spec fn after_read(self, count: nat) -> SessionView {
        SessionView { incoming_end: self.incoming_end + count, asked: None, ..self }
    }

    /// The session after `count` unsent bytes have been written out: nothing is asked for
    /// any more, and once nothing is left unsent, both cursors go back to the start of the
    /// region.
    pub open spec fn after_write(self, count: nat) -> SessionView {
        if self.outgoing_start + count == self.outgoing_end {
            SessionView { outgoing_start: 0, outgoing_end: 0, asked: None, ..self }
        } else {
            SessionView { outgoing_start: self.outgoing_start + count, asked: None, ..self }
        }
    }

    /// The session when it asks for I/O in the direction `asked`.
    pub open spec fn asking(self, asked: Asked) -> SessionView {
        SessionView { asked: Some(asked), ..self }
    }

    /// What the session does when the engine reports `report`.
    pub open spec fn plan(self, report: Report) -> Plan {
        match report {
            Report::Blocked => Plan::Read,
            Report::Transmit { may_encrypt } => if may_encrypt && !self.sent_request {
                Plan::SendRequest
            } else if self.outgoing_start < self.outgoing_end {
                Plan::Write
            } else {
                Plan::Transmitted
            },
            Report::Traffic => if !self.sent_request {
                Plan::Fail(Defect::RequestNotSent)
            } else if !self.received_response {
                Plan::Read
            } else if !self.we_closed {
                Plan::CloseNotify
            } else {
                Plan::Read
            },
            Report::PeerClosed => Plan::Continue,
            Report::Closed => if self.is_terminal() {
                Plan::Finish
            } else {
                Plan::Fail(Defect::Unfinished)
            },
        }
    }

    /// `next` continues `self` within one query: no received byte is taken back, no byte up
    /// to the end of the queued ones is lost or altered, the response only grows, and no flag
    /// falls.
    pub open spec fn advances_to(self, next: SessionView) -> bool {
        &&& next.incoming_end == self.incoming_end
        &&& self.incoming_start <= next.incoming_start
        &&& self.incoming_capacity <= next.incoming_capacity
        &&& next.outgoing_start == self.outgoing_start
        &&& self.outgoing_end <= next.outgoing_end
        &&& same_prefix(self.outgoing, next.outgoing, self.outgoing_end)
        &&& same_prefix(self.response, next.response, self.response.len())
        &&& (self.sent_request ==> next.sent_request)
        &&& (self.received_response ==> next.received_response)
        &&& (self.we_closed ==> next.we_closed)
    }
}

/// A session continues itself.
pub proof fn lemma_advances_reflexive(session: SessionView)
    requires
        session.wf(),
    ensures
        session.advances_to(session),
{
}

/// The sum of `counts`.
pub open spec fn total(counts: Seq<nat>) -> nat
    decreases counts.len(),
{
    if counts.len() == 0 {
        0
    } else {
        total(counts.drop_last()) + counts.last()
    }
}

/// The session after reads of `counts` bytes, one after the other.
pub open spec fn after_reads(session: SessionView, counts: Seq<nat>) -> SessionView
    decreases counts.len(),
{
    if counts.len() == 0 {
        session
    } else {
        after_reads(session, counts.drop_last()).after_read(counts.last())
    }
}

/// Reads that together stay within the free tail of the incoming region leave the end of the
/// received bytes inside the region: each of them may be reported, and the session stays
/// consistent.
pub proof fn lemma_reads_stay_inside(session: SessionView, counts: Seq<nat>)
    requires
        session.wf(),
        session.incoming_end + total(counts) <= session.incoming_capacity,
    ensures
        after_reads(session, counts).wf(),
        after_reads(session, counts).incoming_end == session.incoming_end + total(counts),
        after_reads(session, counts).incoming_end <= after_reads(
            session,
            counts,
        ).incoming_capacity,
        after_reads(session, counts).incoming_capacity == session.incoming_capacity,
    decreases counts.len(),
{
    if counts.len() > 0 {
        lemma_reads_stay_inside(session, counts.drop_last());
    }
}

impl View for Session {
    type V = SessionView;

    open spec fn view(&self) -> SessionView {
        SessionView {
            incoming_start: self.incoming_start as nat,
            incoming_end: self.incoming_end as nat,
            incoming_capacity: self.incoming_capacity as nat,
            outgoing: self.outgoing@,
            outgoing_start: self.outgoing_start as nat,
            outgoing_end: self.outgoing_end as nat,
            response: self.response@,
            sent_request: self.sent_request,
            received_response: self.received_response,
            we_closed: self.we_closed,
            asked: self.asked,
            window_start: self.window.start as nat,
            window_end: self.window.end as nat,
            consumed: self.consumed as nat,
        }
    }
}

impl Session {
    /// The session before anything has happened: both regions at their first size, nothing
    /// received, queued or sent.
    pub open spec fn fresh() -> SessionView {
        SessionView {
            incoming_start: 0,
            incoming_end: 0,
            incoming_capacity: INCOMING_INITIAL as nat,
            outgoing: Seq::new(OUTGOING_INITIAL as nat, |i: int| 0u8),
            outgoing_start: 0,
            outgoing_end: 0,
            response: Seq::empty(),
            sent_request: false,
            received_response: false,
            we_closed: false,
            asked: None,
            window_start: 0,
            window_end: 0,
            consumed: 0,
        }
    }

    /// A fresh session.
    pub fn new() -> (session: Session)
        ensures
            session@.wf(),
            session@ == Session::fresh(),
    {
        let outgoing = vec![0u8; OUTGOING_INITIAL];
        assert(outgoing@ =~= Seq::new(OUTGOING_INITIAL as nat, |i: int| 0u8));
        Session {
            incoming_start: 0,
            incoming_end: 0,
            incoming_capacity: INCOMING_INITIAL,
            outgoing,
            outgoing_start: 0,
            outgoing_end: 0,
            response: Vec::new(),
            sent_request: false,
            received_response: false,
            we_closed: false,
            asked: None,
            window: Span { start: 0, end: 0 },
            consumed: 0,
        }
    }

    /// Drops `count` consumed bytes from the front of the received bytes. More than were
    /// received is an overrun, and leaves the session as it was.
    pub fn discard(&mut self, count: usize) -> (done: Result<(), Defect>)
        requires
            old(self)@.wf(),
        ensures
            final(self)@.wf(),
            match done {
                Ok(_) => old(self)@.incoming_start + count <= old(self)@.incoming_end
                    && final(self)@ == old(self)@.discarded(count as nat),
                Err(defect) => defect == Defect::Overrun && old(self)@.incoming_start + count
                    > old(self)@.incoming_end && final(self)@ == old(self)@,
            },
    {
        if count > self.incoming_end - self.incoming_start {
            return Err(Defect::Overrun);
        }
        self.incoming_start = self.incoming_start + count;
        self.consumed = self.consumed + count;
        Ok(())
    }

    /// Notes that the received bytes that are not consumed are handed to the engine, and
    /// gives their stretch.
    pub fn hand_over(&mut self) -> (window: Span)
        requires
            old(self)@.wf(),
        ensures
            final(self)@.wf(),
            final(self)@ == old(self)@.handed_over(),
            window == (Span { start: old(self).incoming_start, end: old(self).incoming_end }),
    {
        let window = Span { start: self.incoming_start, end: self.incoming_end };
        self.window = window;
        self.consumed = 0;
        window
    }

    /// Takes in one decrypted record: its payload joins the response, and the bytes that it
    /// came in are dropped from the received bytes. More than were received is an overrun,
    /// and leaves the session as it was.
    pub fn record(&mut self, count: usize, payload: &[u8]) -> (done: Result<(), Defect>)
        requires
            old(self)@.wf(),
        ensures
            final(self)@.wf(),
            match done {
                Ok(_) => old(self)@.incoming_start + count <= old(self)@.incoming_end
                    && final(self)@ == old(self)@.recorded(count as nat, payload@),
                Err(defect) => defect == Defect::Overrun && old(self)@.incoming_start + count
                    > old(self)@.incoming_end && final(self)@ == old(self)@,
            },
    {
        if count > self.incoming_end - self.incoming_start {
            return Err(Defect::Overrun);
        }
        self.incoming_start = self.incoming_start + count;
        self.consumed = self.consumed + count;
        self.response.extend_from_slice(payload);
        self.received_response = true;
        assert(self.response@ =~= old(self).response@ + payload@);
        Ok(())
    }

    /// Makes room to read into: where the free tail of the incoming region is exhausted, the
    /// region grows by `INCOMING_GROWTH` bytes. Returns the size that the region must have.
    pub fn make_room(&mut self) -> (done: Result<usize, Defect>)
        requires
            old(self)@.wf(),
        ensures
            final(self)@.wf(),
            match done {
                Ok(size) => size == final(self)@.incoming_capacity
                    && final(self)@ == old(self)@.with_room(),
                Err(defect) => defect == Defect::TooLarge
                    && old(self)@.with_room().incoming_capacity > usize::MAX
                    && final(self)@ == old(self)@,
            },
    {
        if self.incoming_end == self.incoming_capacity {
            if self.incoming_capacity > usize::MAX - INCOMING_GROWTH {
                return Err(Defect::TooLarge);
            }
            self.incoming_capacity = self.incoming_capacity + INCOMING_GROWTH;
        }
        Ok(self.incoming_capacity)
    }

    /// Resizes the outgoing region to exactly `required` bytes behind the queued ones. The
    /// bytes up to the end of the queued ones stay as they are.
    pub fn reserve(&mut self, required: usize) -> (done: Result<(), Defect>)
        requires
            old(self)@.wf(),
        ensures
            final(self)@.wf(),
            match done {
                Ok(_) => final(self)@ == (SessionView {
                    outgoing: final(self)@.outgoing,
                    ..old(self)@
                }) && final(self)@.outgoing.len() == old(self)@.outgoing_end + required
                    && same_prefix(
                    old(self)@.outgoing,
                    final(self)@.outgoing,
                    old(self)@.outgoing_end,
                ),
                Err(defect) => defect == Defect::TooLarge && old(self)@.outgoing_end + required
                    > usize::MAX && final(self)@ == old(self)@,
            },
    {
        if required > usize::MAX - self.outgoing_end {
            return Err(Defect::TooLarge);
        }
        let size = self.outgoing_end + required;
        self.outgoing.resize(size, 0);
        assert forall|i: int| 0 <= i < self.outgoing_end implies old(self).outgoing@[i]
            == self.outgoing@[i] by {
            if size > old(self).outgoing.len() {
                assert(self.outgoing@.subrange(0, old(self).outgoing.len() as int)[i]
                    == self.outgoing@[i]);
            }
        }
        Ok(())
    }

    /// Counts `count` bytes, which stand behind the queued ones, as queued. More than the
    /// region holds is an overrun, and leaves the session as it was.
    pub fn queued(&mut self, count: usize) -> (done: Result<(), Defect>)
        requires
            old(self)@.wf(),
        ensures
            final(self)@.wf(),
            match done {
                Ok(_) => old(self)@.outgoing_end + count <= old(self)@.outgoing.len()
                    && final(self)@ == (SessionView {
                    outgoing_end: old(self)@.outgoing_end + count as nat,
                    ..old(self)@
                }),
                Err(defect) => defect == Defect::Overrun && old(self)@.outgoing_end + count
                    > old(self)@.outgoing.len() && final(self)@ == old(self)@,
            },
    {
        if count > self.outgoing.len() - self.outgoing_end {
            return Err(Defect::Overrun);
        }
        self.outgoing_end = self.outgoing_end + count;
        Ok(())
    }

    /// Notes that I/O in the direction `asked` is asked for, and gives the stretch that it
    /// moves bytes of.
    pub fn ask(&mut self, asked: Asked) -> (span: Span)
        requires
            old(self)@.wf(),
            old(self)@.asking(asked).wf(),
        ensures
            final(self)@ == old(self)@.asking(asked),
            span == old(self)@.span_of(asked),
    {
        self.asked = Some(asked);
        match asked {
            Asked::Read => self.read_span(),
            Asked::Write => self.write_span(),
        }
    }

    /// Notes that `count` bytes have been read into the free tail of the incoming region.
    pub fn done_reading(&mut self, count: usize)
        requires
            old(self)@.wf(),
            old(self)@.incoming_end + count <= old(self)@.incoming_capacity,
        ensures
            final(self)@.wf(),
            final(self)@ == old(self)@.after_read(count as nat),
            final(self)@.incoming_end <= final(self)@.incoming_capacity,
    {
        self.incoming_end = self.incoming_end + count;
        self.asked = None;
    }

    /// Notes that `count` of the unsent bytes have been written out. Once nothing is left
    /// unsent, the outgoing region is used from its start again.
    pub fn done_writing(&mut self, count: usize)
        requires
            old(self)@.wf(),
            old(self)@.outgoing_start + count <= old(self)@.outgoing_end,
        ensures
            final(self)@.wf(),
            final(self)@ == old(self)@.after_write(count as nat),
    {
        self.asked = None;
        self.outgoing_start = self.outgoing_start + count;
        if self.outgoing_start == self.outgoing_end {
            self.outgoing_start = 0;
            self.outgoing_end = 0;
        }
    }

    /// The free tail of the incoming region.
    pub fn read_span(&self) -> (span: Span)
        ensures
            span == self@.read_span(),
    {
        Span { start: self.incoming_end, end: self.incoming_capacity }
    }

    /// The queued bytes that have not been sent.
    pub fn write_span(&self) -> (span: Span)
        ensures
            span == self@.write_span(),
    {
        Span { start: self.outgoing_start, end: self.outgoing_end }
    }

    /// Whether the session is in the state in which it ends.
    pub fn is_terminal(&self) -> (terminal: bool)
        ensures
            terminal == self@.is_terminal(),
    {
        self.sent_request && self.received_response && self.incoming_start == self.incoming_end
            && self.outgoing_end == 0
    }

    /// What to do when the engine reports `report`.
    pub fn plan(&self, report: Report) -> (plan: Plan)
        ensures
            plan == self@.plan(report),
    {
        match report {
            Report::Blocked => Plan::Read,
            Report::Transmit { may_encrypt } => {
                if may_encrypt && !self.sent_request {
                    Plan::SendRequest
                } else if self.outgoing_start < self.outgoing_end {
                    Plan::Write
                } else {
                    Plan::Transmitted
                }
            },
            Report::Traffic => {
                if !self.sent_request {
                    Plan::Fail(Defect::RequestNotSent)
                } else if !self.received_response {
                    Plan::Read
                } else if !self.we_closed {
                    Plan::CloseNotify
                } else {
                    Plan::Read
                }
            },
            Report::PeerClosed => Plan::Continue,
            Report::Closed => {
                if self.is_terminal() {
                    Plan::Finish
                } else {
                    Plan::Fail(Defect::Unfinished)
                }
            },
        }
    }
}

} // verus!
