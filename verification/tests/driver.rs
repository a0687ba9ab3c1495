use std::io::{Read, Write};
use std::sync::Arc;

use https_sans_io::fsm::{FsmError, Wants, FSM};
use https_sans_io::io_uring_connection::{
    submission_of, CompletionError, Cqe, IoUringConnection, SocketAddress, Sqe, SqeOrResponse,
};
use https_sans_io::poll_connection::{
    events_of, poll_read, poll_write, Attempt, EventsOrResponse, Poll, PollConnection,
};
use https_sans_io::request::Request;
use https_sans_io::response::{ParseError, Response};
use https_sans_io::session::{Defect, Span};
use rustls::pki_types::{CertificateDer, PrivateKeyDer, PrivatePkcs8KeyDer, ServerName};
use rustls::{ClientConfig, RootCertStore, ServerConfig, ServerConnection};

const RESPONSE: &[u8] = b"HTTP/1.1 200 OK\r\nContent-Length: 2\r\nServer: test\r\n\r\nhi";

fn configs() -> (Arc<ClientConfig>, Arc<ServerConfig>) {
    let certified = rcgen::generate_simple_self_signed(vec!["localhost".to_string()]).unwrap();
    let cert: CertificateDer<'static> = certified.cert.der().clone();
    let key = PrivateKeyDer::Pkcs8(PrivatePkcs8KeyDer::from(certified.key_pair.serialize_der()));
    let mut roots = RootCertStore::empty();
    roots.add(cert.clone()).unwrap();
    let client = ClientConfig::builder().with_root_certificates(roots).with_no_client_auth();
    let server =
        ServerConfig::builder().with_no_client_auth().with_single_cert(vec![cert], key).unwrap();
    (Arc::new(client), Arc::new(server))
}

/// A server on the other end of an in-memory wire: it answers the first complete request
/// with `RESPONSE` and closes.
struct Peer {
    conn: ServerConnection,
    request: Vec<u8>,
    response: Vec<u8>,
    answered: bool,
}

impl Peer {
    fn new(config: Arc<ServerConfig>) -> Peer {
        Peer::answering(config, RESPONSE)
    }

    fn answering(config: Arc<ServerConfig>, response: &[u8]) -> Peer {
        Peer {
            conn: ServerConnection::new(config).unwrap(),
            request: Vec::new(),
            response: response.to_vec(),
            answered: false,
        }
    }

    fn receive(&mut self, mut bytes: &[u8]) {
        while !bytes.is_empty() {
            self.conn.read_tls(&mut bytes).unwrap();
            self.conn.process_new_packets().unwrap();
        }
        let mut chunk = [0u8; 4096];
        loop {
            match self.conn.reader().read(&mut chunk) {
                Ok(0) => break,
                Ok(n) => self.request.extend_from_slice(&chunk[..n]),
                Err(_) => break,
            }
        }
        if !self.answered && self.request.ends_with(b"\r\n\r\n") {
            self.conn.writer().write_all(&self.response).unwrap();
            self.conn.send_close_notify();
            self.answered = true;
        }
    }

    fn send(&mut self, limit: usize) -> Vec<u8> {
        let mut out = Vec::new();
        while self.conn.wants_write() && out.len() < limit {
            self.conn.write_tls(&mut out).unwrap();
        }
        out
    }
}

/// Drives `fsm` against `peer`, moving at most `read_chunk` bytes per read and `write_chunk`
/// bytes per write.
fn converse(
    fsm: &mut FSM,
    peer: &mut Peer,
    read_chunk: usize,
    write_chunk: usize,
) -> Result<Response, FsmError> {
    let mut backlog: Vec<u8> = Vec::new();
    for _ in 0..100_000 {
        match fsm.wants()? {
            Wants::Read(span) => {
                assert!(span.start < span.end);
                if backlog.is_empty() {
                    backlog = peer.send(usize::MAX);
                }
                assert!(!backlog.is_empty(), "the driver waits for bytes that never come");
                let buf = fsm.read_buf();
                assert_eq!(buf.len(), span.end - span.start);
                let n = backlog.len().min(buf.len()).min(read_chunk);
                buf[..n].copy_from_slice(&backlog[..n]);
                backlog.drain(..n);
                fsm.done_reading(n);
            }
            Wants::Write(span) => {
                let buf = fsm.write_buf();
                assert_eq!(buf.len(), span.end - span.start);
                let n = buf.len().min(write_chunk);
                let sent = buf[..n].to_vec();
                peer.receive(&sent);
                fsm.done_writing(n);
            }
            Wants::Done(response) => return Ok(response),
        }
    }
    panic!("the exchange did not end");
}

fn request() -> Request {
    let mut request = Request::get("/");
    request.add_header("Host", "localhost");
    request.add_header("Connection", "close");
    request
}

#[test]
fn exchange_over_an_in_memory_wire() {
    let (client, server) = configs();
    let name = ServerName::try_from("localhost").unwrap();
    let mut fsm = FSM::new(client, name, request()).unwrap();
    let mut peer = Peer::new(server);
    let response = converse(&mut fsm, &mut peer, usize::MAX, usize::MAX).unwrap();
    assert_eq!(response.status, 200);
    assert_eq!(response.body, "hi");
    assert_eq!(response.headers.get("Server").map(|v| v.as_str()), Some("test"));
    assert_eq!(
        peer.request,
        b"GET / HTTP/1.1\r\nHost: localhost\r\nConnection: close\r\n\r\n".to_vec()
    );
    let session = fsm.session();
    assert!(session.sent_request && session.received_response && session.we_closed);
    assert_eq!(session.incoming_start, session.incoming_end);
    assert_eq!(session.outgoing_end, 0);
}

#[test]
fn exchange_in_small_pieces() {
    let (client, server) = configs();
    let mut fsm = FSM::for_host(client, "localhost", "/").unwrap();
    let mut peer = Peer::new(server);
    let response = converse(&mut fsm, &mut peer, 7, 50).unwrap();
    assert_eq!(response.status, 200);
    assert_eq!(response.body, "hi");
    assert_eq!(response.headers.get("Content-Length").map(|v| v.as_str()), Some("2"));
}

#[test]
fn close_notification_written_in_part_leaves_the_exchange_unfinished() {
    let (client, server) = configs();
    let mut fsm = FSM::for_host(client, "localhost", "/").unwrap();
    let mut peer = Peer::new(server);
    let outcome = converse(&mut fsm, &mut peer, usize::MAX, 7);
    assert!(matches!(outcome, Err(FsmError::Session(Defect::Unfinished))));
    assert!(fsm.session().outgoing_end > 0);
}

#[test]
fn first_action_is_a_write_of_the_hello() {
    let (client, _) = configs();
    let mut fsm = FSM::for_host(client, "localhost", "/").unwrap();
    match fsm.wants().unwrap() {
        Wants::Write(span) => {
            assert_eq!(span.start, 0);
            assert!(span.end > 0);
            // a TLS handshake record
            assert_eq!(fsm.write_buf()[0], 22);
        }
        other => panic!("expected a write, got {other:?}"),
    }
}

#[test]
fn repeated_query_gives_the_same_action() {
    let (client, _) = configs();
    let mut fsm = FSM::for_host(client, "localhost", "/").unwrap();
    let first = match fsm.wants().unwrap() {
        Wants::Write(span) => span,
        other => panic!("expected a write, got {other:?}"),
    };
    let bytes = fsm.write_buf().to_vec();
    let second = match fsm.wants().unwrap() {
        Wants::Write(span) => span,
        other => panic!("expected a write, got {other:?}"),
    };
    assert_eq!(first, second);
    assert_eq!(bytes, fsm.write_buf().to_vec());
    fsm.done_writing(second.end - second.start);
    let read = match fsm.wants().unwrap() {
        Wants::Read(span) => span,
        other => panic!("expected a read, got {other:?}"),
    };
    let again = match fsm.wants().unwrap() {
        Wants::Read(span) => span,
        other => panic!("expected a read, got {other:?}"),
    };
    assert_eq!(read, again);
    assert_eq!(read.start, 0);
    assert_eq!(read.end, 1024);
}

#[test]
fn the_write_of_the_close_notification_is_asked_again() {
    let (client, server) = configs();
    let mut fsm = FSM::for_host(client, "localhost", "/").unwrap();
    let mut peer = Peer::new(server);
    let mut backlog: Vec<u8> = Vec::new();
    // run the exchange until our close notification is queued
    let close = loop {
        match fsm.wants().unwrap() {
            Wants::Read(_) => {
                if backlog.is_empty() {
                    backlog = peer.send(usize::MAX);
                }
                assert!(!backlog.is_empty());
                let buf = fsm.read_buf();
                let n = backlog.len().min(buf.len());
                buf[..n].copy_from_slice(&backlog[..n]);
                backlog.drain(..n);
                fsm.done_reading(n);
            }
            Wants::Write(span) => {
                if fsm.session().we_closed {
                    break span;
                }
                let bytes = fsm.write_buf().to_vec();
                peer.receive(&bytes);
                fsm.done_writing(bytes.len());
            }
            Wants::Done(_) => panic!("the exchange ended before we closed"),
        }
    };
    assert!(close.start < close.end);
    let alert = fsm.write_buf().to_vec();
    for _ in 0..3 {
        match fsm.wants().unwrap() {
            Wants::Write(span) => assert_eq!(span, close),
            other => panic!("expected the same write, got {other:?}"),
        }
        assert_eq!(fsm.write_buf().to_vec(), alert);
    }
    peer.receive(&alert);
    fsm.done_writing(alert.len());
    match fsm.wants().unwrap() {
        Wants::Done(response) => assert_eq!(response.status, 200),
        other => panic!("expected the response, got {other:?}"),
    }
    // after the end the response is handed out again
    match fsm.wants().unwrap() {
        Wants::Done(response) => assert_eq!(response.body, "hi"),
        other => panic!("expected the response, got {other:?}"),
    }
}

#[test]
fn bytes_that_are_no_tls_fail_the_engine() {
    let (client, _) = configs();
    let mut fsm = FSM::for_host(client, "localhost", "/").unwrap();
    let hello = match fsm.wants().unwrap() {
        Wants::Write(span) => span,
        other => panic!("expected a write, got {other:?}"),
    };
    fsm.done_writing(hello.end - hello.start);
    assert!(matches!(fsm.wants(), Ok(Wants::Read(_))));
    let noise = [0x55u8; 64];
    fsm.read_buf()[..64].copy_from_slice(&noise);
    fsm.done_reading(64);
    assert!(matches!(fsm.wants(), Err(FsmError::Tls(_))));
}

#[test]
fn a_peer_that_answers_no_http_gives_a_parse_error() {
    let (client, server) = configs();
    let mut fsm = FSM::for_host(client, "localhost", "/").unwrap();
    let mut peer = Peer::answering(server, b"hello, world");
    let outcome = converse(&mut fsm, &mut peer, usize::MAX, usize::MAX);
    assert!(matches!(outcome, Err(FsmError::Parse(ParseError::MissingBody))));
    assert_eq!(fsm.session().response, b"hello, world".to_vec());
    assert!(fsm.session().is_terminal());
}

#[test]
fn a_long_response_is_gathered_from_many_records() {
    let (client, server) = configs();
    let mut fsm = FSM::for_host(client, "localhost", "/").unwrap();
    let mut body = String::new();
    for i in 0..6000 {
        body.push_str(&format!("line {i}\n"));
    }
    let text = format!("HTTP/1.1 200 OK\r\nContent-Type: text/plain\r\n\r\n{body}");
    let mut peer = Peer::answering(server, text.as_bytes());
    let response = converse(&mut fsm, &mut peer, 1000, usize::MAX).unwrap();
    assert_eq!(response.status, 200);
    assert_eq!(response.body, body);
    assert!(fsm.session().incoming_capacity > 1024);
    assert_eq!((fsm.session().incoming_capacity - 1024) % 16384, 0);
}

#[test]
fn host_names_that_are_no_server_names_are_refused() {
    let (client, _) = configs();
    assert!(matches!(
        FSM::for_host(client, "not a host name", "/"),
        Err(FsmError::InvalidServerName)
    ));
}

#[test]
fn reading_beyond_the_first_size_grows_the_incoming_region() {
    let (client, server) = configs();
    let mut fsm = FSM::for_host(client, "localhost", "/").unwrap();
    let mut peer = Peer::new(server);
    // write the hello, then take in all of the server's flight
    let hello = match fsm.wants().unwrap() {
        Wants::Write(span) => span,
        other => panic!("expected a write, got {other:?}"),
    };
    let bytes = fsm.write_buf().to_vec();
    peer.receive(&bytes);
    fsm.done_writing(hello.end - hello.start);
    match fsm.wants().unwrap() {
        Wants::Read(span) => assert_eq!(span, Span { start: 0, end: 1024 }),
        other => panic!("expected a read, got {other:?}"),
    }
    let flight = peer.send(usize::MAX);
    assert!(flight.len() > 0);
    let n = flight.len().min(1024);
    fsm.read_buf()[..n].copy_from_slice(&flight[..n]);
    fsm.done_reading(n);
    if n == 1024 {
        match fsm.wants().unwrap() {
            Wants::Read(span) => {
                assert!(span.start <= 1024);
                assert_eq!(span.end, 1024 + 16384);
                assert_eq!(fsm.read_buf().len(), span.end - span.start);
            }
            other => panic!("expected a read, got {other:?}"),
        }
    }
}

#[test]
fn events_follow_what_the_session_wants() {
    let (client, server) = configs();
    let mut conn = PollConnection::get(client, "localhost", "/").unwrap();
    let mut peer = Peer::new(server);
    for _ in 0..3 {
        match conn.events().unwrap() {
            EventsOrResponse::Events(events) => assert_eq!(events, libc::POLLOUT),
            other => panic!("expected events, got {other:?}"),
        }
    }
    // the socket is readable, the session wants to write: nothing is done
    assert!(matches!(conn.poll(true, false), Ok(Poll::Return(None))));
    let span = match conn.poll(false, true).unwrap() {
        Poll::Write(span) => span,
        other => panic!("expected a write, got {other:?}"),
    };
    let hello = conn.write_buf().to_vec();
    assert_eq!(hello.len(), span.end - span.start);
    peer.receive(&hello);
    assert_eq!(conn.attempted(Attempt::Moved(hello.len() + 1)), Err(Defect::Overrun));
    assert_eq!(conn.attempted(Attempt::WouldBlock), Ok(false));
    assert_eq!(conn.attempted(Attempt::Moved(hello.len())), Ok(true));
    assert_eq!(conn.attempted(Attempt::Moved(0)), Err(Defect::Unasked));
    // the direction has changed: the call for a writable socket ends
    assert!(matches!(conn.poll(false, true), Ok(Poll::Return(None))));
    match conn.events().unwrap() {
        EventsOrResponse::Events(events) => assert_eq!(events, libc::POLLIN),
        other => panic!("expected events, got {other:?}"),
    }
    assert!(matches!(conn.poll(true, false), Ok(Poll::Read(_))));
}

/// Runs the readiness driver against `peer` as a caller would: wait for what `events` names,
/// then follow `poll` until it returns.
fn poll_exchange(conn: &mut PollConnection, peer: &mut Peer) -> Response {
    let mut backlog: Vec<u8> = Vec::new();
    for _ in 0..10_000 {
        let events = match conn.events().unwrap() {
            EventsOrResponse::Events(events) => events,
            EventsOrResponse::Response(response) => return response,
        };
        let readable = events == libc::POLLIN;
        let writable = events == libc::POLLOUT;
        assert!(readable != writable);
        loop {
            match conn.poll(readable, writable).unwrap() {
                Poll::Read(span) => {
                    assert!(readable);
                    if backlog.is_empty() {
                        backlog = peer.send(usize::MAX);
                    }
                    if backlog.is_empty() {
                        assert_eq!(conn.attempted(Attempt::WouldBlock), Ok(false));
                        break;
                    }
                    let buf = conn.read_buf();
                    assert_eq!(buf.len(), span.end - span.start);
                    let n = backlog.len().min(buf.len());
                    buf[..n].copy_from_slice(&backlog[..n]);
                    backlog.drain(..n);
                    assert_eq!(conn.attempted(Attempt::Moved(n)), Ok(true));
                }
                Poll::Write(span) => {
                    assert!(writable);
                    let bytes = conn.write_buf().to_vec();
                    assert_eq!(bytes.len(), span.end - span.start);
                    peer.receive(&bytes);
                    assert_eq!(conn.attempted(Attempt::Moved(bytes.len())), Ok(true));
                }
                Poll::Return(Some(response)) => return response,
                Poll::Return(None) => break,
            }
        }
    }
    panic!("the exchange did not end");
}

#[test]
fn exchange_through_the_readiness_driver() {
    let (client, server) = configs();
    let mut conn = PollConnection::get(client, "localhost", "/").unwrap();
    let mut peer = Peer::new(server);
    let response = poll_exchange(&mut conn, &mut peer);
    assert_eq!(response.status, 200);
    assert_eq!(response.body, "hi");
    // the response has been handed out: every further call ends with nothing
    assert!(matches!(conn.poll(true, false), Ok(Poll::Return(None))));
    assert!(matches!(conn.poll(false, true), Ok(Poll::Return(None))));
}

#[test]
fn steps_of_the_readiness_driver_by_action() {
    let read = Span { start: 3, end: 9 };
    let write = Span { start: 0, end: 5 };
    assert!(matches!(poll_read(Wants::Read(read)), Poll::Read(span) if span == read));
    assert!(matches!(poll_read(Wants::Write(write)), Poll::Return(None)));
    assert!(matches!(poll_write(Wants::Write(write)), Poll::Write(span) if span == write));
    assert!(matches!(poll_write(Wants::Read(read)), Poll::Return(None)));
    let response = Response::parse(RESPONSE.to_vec()).unwrap();
    assert!(matches!(poll_read(Wants::Done(response)), Poll::Return(Some(r)) if r.status == 200));
    let response = Response::parse(RESPONSE.to_vec()).unwrap();
    assert!(matches!(poll_write(Wants::Done(response)), Poll::Return(Some(r)) if r.body == "hi"));
    assert!(matches!(events_of(Wants::Read(read), 1, 4), EventsOrResponse::Events(1)));
    assert!(matches!(events_of(Wants::Write(write), 1, 4), EventsOrResponse::Events(4)));
    let response = Response::parse(RESPONSE.to_vec()).unwrap();
    assert!(matches!(
        events_of(Wants::Done(response), 1, 4),
        EventsOrResponse::Response(r) if r.status == 200
    ));
}

const SOCKET: u64 = 1;
const CONNECT: u64 = 2;
const READ: u64 = 3;
const WRITE: u64 = 4;

fn uring(client: Arc<ClientConfig>) -> IoUringConnection {
    let addr = SocketAddress { ip: [127, 0, 0, 1], port: 443 };
    IoUringConnection::get(client, "localhost", addr, "/", SOCKET, CONNECT, READ, WRITE).unwrap()
}

#[test]
fn setup_submits_socket_then_connect() {
    let (client, _) = configs();
    let mut conn = uring(client);
    let sqe = match conn.next_sqe().unwrap() {
        (Some(sqe), None) => sqe,
        other => panic!("expected a submission, got {other:?}"),
    };
    match sqe {
        Sqe::Socket { domain, socket_type, protocol, user_data } => {
            assert_eq!(domain, libc::AF_INET);
            assert_eq!(socket_type, libc::SOCK_STREAM);
            assert_eq!(protocol, 0);
            assert_eq!(user_data, SOCKET);
        }
        other => panic!("expected a socket submission, got {other:?}"),
    }
    assert_eq!(sqe.user_data(), SOCKET);
    // the id is pending: nothing is submitted twice
    assert!(matches!(conn.next_sqe(), Ok((None, None))));
    assert!(matches!(conn.next_sqe(), Ok((None, None))));
    take(&mut conn, Cqe { result: 9, user_data: SOCKET }).unwrap();
    match conn.next_sqe().unwrap() {
        (Some(Sqe::Connect { fd, addr, user_data }), None) => {
            assert_eq!(fd, 9);
            assert_eq!(addr, SocketAddress { ip: [127, 0, 0, 1], port: 443 });
            assert_eq!(user_data, CONNECT);
        }
        other => panic!("expected a connect submission, got {other:?}"),
    }
    assert!(matches!(conn.next_sqe(), Ok((None, None))));
    take(&mut conn, Cqe { result: 0, user_data: CONNECT }).unwrap();
    match conn.next_sqe().unwrap() {
        (Some(Sqe::Write { fd, span, len, user_data }), None) => {
            assert_eq!(fd, 9);
            assert_eq!(span.start, 0);
            assert_eq!(len as usize, span.end - span.start);
            assert_eq!(conn.write_buf().len(), len as usize);
            assert_eq!(user_data, WRITE);
        }
        other => panic!("expected a write submission, got {other:?}"),
    }
    assert!(matches!(conn.next_sqe(), Ok((None, None))));
}

/// Takes `cqe` as a caller does: a completion with a fault is not handed on.
fn take(conn: &mut IoUringConnection, cqe: Cqe) -> Result<(), CompletionError> {
    match conn.fault(cqe) {
        Some(fault) => Err(fault),
        None => conn.process_cqe(cqe),
    }
}

#[test]
fn a_completion_with_a_fault_is_named_and_changes_nothing() {
    let (client, _) = configs();
    let mut conn = uring(client);
    assert!(matches!(conn.next_sqe(), Ok((Some(Sqe::Socket { .. }), None))));
    assert!(matches!(conn.next_sqe(), Ok((None, None))));
    let failed = Cqe { result: -1, user_data: SOCKET };
    assert_eq!(conn.fault(failed), Some(CompletionError::InvalidDescriptor));
    assert_eq!(conn.fault(failed), Some(CompletionError::InvalidDescriptor));
    assert!(matches!(conn.next_sqe(), Ok((None, None))));
    assert_eq!(conn.fault(Cqe { result: 7, user_data: SOCKET }), None);
}

#[test]
fn a_completion_frees_its_id() {
    let (client, _) = configs();
    let mut conn = uring(client);
    assert!(matches!(conn.next_sqe(), Ok((Some(Sqe::Socket { .. }), None))));
    // a completion under another id leaves the socket's id pending
    assert_eq!(take(&mut conn, Cqe { result: 0, user_data: 77 }), Ok(()));
    assert!(matches!(conn.next_sqe(), Ok((None, None))));
    assert_eq!(take(&mut conn, Cqe { result: 5, user_data: SOCKET }), Ok(()));
    assert!(matches!(conn.next_sqe(), Ok((Some(Sqe::Connect { fd: 5, .. }), None))));
}

#[test]
fn descriptor_zero_is_a_descriptor() {
    let (client, _) = configs();
    let mut conn = uring(client);
    assert_eq!(take(&mut conn, Cqe { result: 0, user_data: SOCKET }), Ok(()));
    assert!(matches!(conn.next_sqe(), Ok((Some(Sqe::Connect { fd: 0, .. }), None))));
}

#[test]
fn completions_out_of_order() {
    let (client, _) = configs();
    let mut conn = uring(client);
    // connect before any socket
    assert_eq!(
        take(&mut conn, Cqe { result: 0, user_data: CONNECT }),
        Err(CompletionError::OutOfOrder)
    );
    // reads and writes before the connection stands are ignored
    assert_eq!(take(&mut conn, Cqe { result: 100, user_data: READ }), Ok(()));
    assert_eq!(take(&mut conn, Cqe { result: 100, user_data: WRITE }), Ok(()));
    assert_eq!(take(&mut conn, Cqe { result: -5, user_data: READ }), Ok(()));
    assert_eq!(conn.process_cqe(Cqe { result: -5, user_data: WRITE }), Ok(()));
    // ids that stand for nothing are ignored
    assert_eq!(take(&mut conn, Cqe { result: -5, user_data: 77 }), Ok(()));
    assert!(matches!(conn.next_sqe(), Ok((Some(Sqe::Socket { .. }), None))));
    // a socket needs a descriptor, which is not negative
    assert_eq!(
        take(&mut conn, Cqe { result: -1, user_data: SOCKET }),
        Err(CompletionError::InvalidDescriptor)
    );
    assert_eq!(take(&mut conn, Cqe { result: 3, user_data: SOCKET }), Ok(()));
    // a second socket completion finds the socket made
    assert_eq!(
        take(&mut conn, Cqe { result: 4, user_data: SOCKET }),
        Err(CompletionError::OutOfOrder)
    );
    assert_eq!(
        take(&mut conn, Cqe { result: -111, user_data: CONNECT }),
        Err(CompletionError::Failed)
    );
    assert_eq!(take(&mut conn, Cqe { result: 100, user_data: READ }), Ok(()));
    assert_eq!(take(&mut conn, Cqe { result: 0, user_data: CONNECT }), Ok(()));
    assert_eq!(
        take(&mut conn, Cqe { result: 0, user_data: CONNECT }),
        Err(CompletionError::OutOfOrder)
    );
    // connected: completions count, and must stay inside what was submitted
    assert_eq!(
        take(&mut conn, Cqe { result: -32, user_data: WRITE }),
        Err(CompletionError::Failed)
    );
    assert_eq!(
        take(&mut conn, Cqe { result: 1, user_data: WRITE }),
        Err(CompletionError::Overrun)
    );
    assert_eq!(
        take(&mut conn, Cqe { result: 1025, user_data: READ }),
        Err(CompletionError::Overrun)
    );
    assert_eq!(take(&mut conn, Cqe { result: 0, user_data: READ }), Ok(()));
    // the connection is still where it was: the next submission is the session's first
    assert!(matches!(conn.next_sqe(), Ok((Some(Sqe::Write { fd: 3, .. }), None))));
}

#[test]
fn a_submission_that_is_due_stays_due() {
    let (client, _) = configs();
    let mut conn = uring(client);
    take(&mut conn, Cqe { result: 3, user_data: SOCKET }).unwrap();
    take(&mut conn, Cqe { result: 0, user_data: CONNECT }).unwrap();
    let first = match conn.next_sqe().unwrap() {
        (Some(sqe), None) => sqe,
        other => panic!("expected a submission, got {other:?}"),
    };
    // while its id is pending nothing is submitted, and the session stays as it is
    let session = format!("{:?}", conn.write_buf());
    assert!(matches!(conn.next_sqe(), Ok((None, None))));
    assert!(matches!(conn.next_sqe(), Ok((None, None))));
    assert_eq!(session, format!("{:?}", conn.write_buf()));
    // a completion that moved nothing frees the id: the same bytes are still unsent
    take(&mut conn, Cqe { result: 0, user_data: WRITE }).unwrap();
    match conn.next_sqe().unwrap() {
        (Some(again), None) => assert_eq!(again, first),
        other => panic!("expected the same submission, got {other:?}"),
    }
}

#[test]
fn exchange_through_the_completion_driver() {
    let (client, server) = configs();
    let mut conn = uring(client);
    let mut peer = Peer::new(server);
    let mut backlog: Vec<u8> = Vec::new();
    let mut seen = Vec::new();
    let response = 'exchange: {
        for _ in 0..10_000 {
            let sqe = match conn.next_sqe().unwrap() {
                (Some(sqe), None) => sqe,
                (None, Some(response)) => break 'exchange response,
                other => panic!("nothing is pending, yet nothing was submitted: {other:?}"),
            };
            let cqe = match sqe {
                Sqe::Socket { user_data, .. } => {
                    seen.push("socket");
                    Cqe { result: 5, user_data }
                }
                Sqe::Connect { fd, user_data, .. } => {
                    assert_eq!(fd, 5);
                    seen.push("connect");
                    Cqe { result: 0, user_data }
                }
                Sqe::Write { fd, len, user_data, .. } => {
                    assert_eq!(fd, 5);
                    let bytes = conn.write_buf()[..len as usize].to_vec();
                    peer.receive(&bytes);
                    Cqe { result: len as i32, user_data }
                }
                Sqe::Read { fd, len, user_data, .. } => {
                    assert_eq!(fd, 5);
                    if backlog.is_empty() {
                        backlog = peer.send(usize::MAX);
                    }
                    assert!(!backlog.is_empty(), "the driver waits for bytes that never come");
                    let n = backlog.len().min(len as usize);
                    conn.read_buf()[..n].copy_from_slice(&backlog[..n]);
                    backlog.drain(..n);
                    Cqe { result: n as i32, user_data }
                }
            };
            take(&mut conn, cqe).unwrap();
        }
        panic!("the exchange did not end");
    };
    assert_eq!(seen, vec!["socket", "connect"]);
    assert_eq!(response.status, 200);
    assert_eq!(response.body, "hi");
}

#[test]
fn submissions_by_action() {
    let span = Span { start: 16, end: 1024 };
    assert!(matches!(
        submission_of(7, Wants::Read(span), READ, WRITE),
        SqeOrResponse::Sqe(Sqe::Read { fd: 7, span: s, len: 1008, user_data: READ }) if s == span
    ));
    assert!(matches!(
        submission_of(7, Wants::Write(span), READ, WRITE),
        SqeOrResponse::Sqe(Sqe::Write { fd: 7, span: s, len: 1008, user_data: WRITE }) if s == span
    ));
    let response = Response::parse(RESPONSE.to_vec()).unwrap();
    assert!(matches!(
        submission_of(7, Wants::Done(response), READ, WRITE),
        SqeOrResponse::Response(r) if r.status == 200
    ));
}

#[test]
fn a_submission_carries_the_low_bits_of_a_long_stretch() {
    if usize::BITS >= 64 {
        let long = Span { start: 1, end: (1usize << 32) + 11 };
        assert!(matches!(
            submission_of(7, Wants::Read(long), READ, WRITE),
            SqeOrResponse::Sqe(Sqe::Read { len: 10, .. })
        ));
    }
    let backwards = Span { start: 5, end: 2 };
    assert!(matches!(
        submission_of(7, Wants::Write(backwards), READ, WRITE),
        SqeOrResponse::Sqe(Sqe::Write { len: 0, .. })
    ));
}
