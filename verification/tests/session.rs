use https_sans_io::session::{
    Asked, Defect, Plan, Report, Session, Span, INCOMING_GROWTH, INCOMING_INITIAL, OUTGOING_INITIAL,
};

#[test]
fn a_fresh_session_has_empty_regions() {
    let session = Session::new();
    assert_eq!(session.incoming_start, 0);
    assert_eq!(session.incoming_end, 0);
    assert_eq!(session.incoming_capacity, 1024);
    assert_eq!(INCOMING_INITIAL, 1024);
    assert_eq!(session.outgoing, vec![0u8; 1024]);
    assert_eq!(OUTGOING_INITIAL, 1024);
    assert_eq!(session.outgoing_start, 0);
    assert_eq!(session.outgoing_end, 0);
    assert!(session.response.is_empty());
    assert!(!session.sent_request && !session.received_response && !session.we_closed);
    assert_eq!(session.read_span(), Span { start: 0, end: 1024 });
    assert_eq!(session.write_span(), Span { start: 0, end: 0 });
    assert!(!session.is_terminal());
    assert_eq!(session.asked, None);
}

#[test]
fn what_is_asked_for_stands_until_it_is_reported() {
    let mut session = Session::new();
    assert_eq!(session.ask(Asked::Read), Span { start: 0, end: 1024 });
    assert_eq!(session.asked, Some(Asked::Read));
    session.done_reading(10);
    assert_eq!(session.asked, None);
    session.queued(5).unwrap();
    assert_eq!(session.ask(Asked::Write), Span { start: 0, end: 5 });
    assert_eq!(session.asked, Some(Asked::Write));
    session.done_writing(2);
    assert_eq!(session.asked, None);
    assert_eq!(session.ask(Asked::Write), Span { start: 2, end: 5 });
    session.done_writing(3);
    assert_eq!(session.asked, None);
    assert_eq!(session.write_span(), Span { start: 0, end: 0 });
}

#[test]
fn reading_moves_the_end_and_stays_inside_the_region() {
    let mut session = Session::new();
    session.done_reading(1000);
    session.done_reading(24);
    assert_eq!(session.incoming_end, 1024);
    assert!(session.incoming_end <= session.incoming_capacity);
    assert_eq!(session.read_span(), Span { start: 1024, end: 1024 });
}

#[test]
fn discard_drops_consumed_bytes_and_refuses_more_than_there_are() {
    let mut session = Session::new();
    session.done_reading(10);
    assert_eq!(session.discard(4), Ok(()));
    assert_eq!(session.incoming_start, 4);
    assert_eq!(session.discard(7), Err(Defect::Overrun));
    assert_eq!(session.incoming_start, 4);
    assert_eq!(session.discard(6), Ok(()));
    assert_eq!(session.incoming_start, 10);
    assert_eq!(session.discard(0), Ok(()));
}

#[test]
fn the_stretch_handed_to_the_engine_is_kept_with_what_was_consumed_of_it() {
    let mut session = Session::new();
    assert_eq!(session.window, Span { start: 0, end: 0 });
    assert_eq!(session.consumed, 0);
    session.done_reading(40);
    assert_eq!(session.hand_over(), Span { start: 0, end: 40 });
    assert_eq!(session.window, Span { start: 0, end: 40 });
    session.discard(10).unwrap();
    session.record(5, b"x").unwrap();
    assert_eq!(session.consumed, 15);
    assert_eq!(session.incoming_start, session.window.start + session.consumed);
    assert_eq!(session.discard(26), Err(Defect::Overrun));
    assert_eq!(session.consumed, 15);
    session.done_reading(8);
    assert_eq!(session.hand_over(), Span { start: 15, end: 48 });
    assert_eq!(session.consumed, 0);
    assert_eq!(session.window, Span { start: 15, end: 48 });
}

#[test]
fn record_appends_the_payload() {
    let mut session = Session::new();
    session.done_reading(30);
    assert_eq!(session.record(0, b"HTTP"), Ok(()));
    assert_eq!(session.record(5, b"/1.1"), Ok(()));
    assert_eq!(session.response, b"HTTP/1.1".to_vec());
    assert!(session.received_response);
    assert_eq!(session.incoming_start, 5);
    assert_eq!(session.record(26, b"x"), Err(Defect::Overrun));
    assert_eq!(session.response, b"HTTP/1.1".to_vec());
    assert_eq!(session.incoming_start, 5);
}

#[test]
fn an_empty_record_counts_as_response() {
    let mut session = Session::new();
    assert_eq!(session.record(0, b""), Ok(()));
    assert!(session.received_response);
}

#[test]
fn make_room_grows_only_an_exhausted_tail() {
    let mut session = Session::new();
    assert_eq!(session.make_room(), Ok(1024));
    session.done_reading(1023);
    assert_eq!(session.make_room(), Ok(1024));
    session.done_reading(1);
    assert_eq!(session.make_room(), Ok(1024 + 16384));
    assert_eq!(INCOMING_GROWTH, 16384);
    assert_eq!(session.incoming_capacity, 17408);
    assert_eq!(session.make_room(), Ok(17408));
    assert_eq!(session.read_span(), Span { start: 1024, end: 17408 });
}

#[test]
fn make_room_fails_where_the_region_cannot_grow() {
    let mut session = Session::new();
    session.incoming_capacity = usize::MAX - 100;
    session.incoming_end = usize::MAX - 100;
    assert_eq!(session.make_room(), Err(Defect::TooLarge));
    assert_eq!(session.incoming_capacity, usize::MAX - 100);
}

#[test]
fn reserve_sizes_the_region_behind_the_queued_bytes() {
    let mut session = Session::new();
    session.outgoing[0] = 7;
    session.outgoing[9] = 9;
    assert_eq!(session.queued(10), Ok(()));
    assert_eq!(session.reserve(2000), Ok(()));
    assert_eq!(session.outgoing.len(), 2010);
    assert_eq!(session.outgoing[0], 7);
    assert_eq!(session.outgoing[9], 9);
    assert_eq!(session.outgoing_end, 10);
    assert_eq!(session.reserve(usize::MAX), Err(Defect::TooLarge));
    assert_eq!(session.outgoing.len(), 2010);
}

#[test]
fn queued_counts_bytes_and_refuses_more_than_the_region_holds() {
    let mut session = Session::new();
    assert_eq!(session.queued(1000), Ok(()));
    assert_eq!(session.queued(25), Err(Defect::Overrun));
    assert_eq!(session.outgoing_end, 1000);
    assert_eq!(session.queued(24), Ok(()));
    assert_eq!(session.write_span(), Span { start: 0, end: 1024 });
}

#[test]
fn writing_everything_rewinds_the_outgoing_region() {
    let mut session = Session::new();
    session.queued(100).unwrap();
    session.done_writing(30);
    assert_eq!(session.write_span(), Span { start: 30, end: 100 });
    session.done_writing(0);
    assert_eq!(session.write_span(), Span { start: 30, end: 100 });
    session.done_writing(70);
    assert_eq!(session.write_span(), Span { start: 0, end: 0 });
    session.done_writing(0);
    assert_eq!(session.write_span(), Span { start: 0, end: 0 });
}

#[test]
fn the_terminal_state_needs_everything_settled() {
    let mut session = Session::new();
    session.sent_request = true;
    assert!(!session.is_terminal());
    session.received_response = true;
    assert!(session.is_terminal());
    session.done_reading(3);
    assert!(!session.is_terminal());
    session.discard(3).unwrap();
    assert!(session.is_terminal());
    session.queued(1).unwrap();
    assert!(!session.is_terminal());
    session.done_writing(1);
    assert!(session.is_terminal());
    assert_eq!(session.plan(Report::Closed), Plan::Finish);
}

#[test]
fn a_blocked_handshake_asks_to_read() {
    let session = Session::new();
    assert_eq!(session.plan(Report::Blocked), Plan::Read);
    assert_eq!(session.plan(Report::PeerClosed), Plan::Continue);
    assert_eq!(session.plan(Report::Closed), Plan::Fail(Defect::Unfinished));
}

#[test]
fn a_flight_carries_the_request_once() {
    let mut session = Session::new();
    assert_eq!(session.plan(Report::Transmit { may_encrypt: false }), Plan::Transmitted);
    assert_eq!(session.plan(Report::Transmit { may_encrypt: true }), Plan::SendRequest);
    session.queued(50).unwrap();
    assert_eq!(session.plan(Report::Transmit { may_encrypt: false }), Plan::Write);
    assert_eq!(session.plan(Report::Transmit { may_encrypt: true }), Plan::SendRequest);
    session.sent_request = true;
    assert_eq!(session.plan(Report::Transmit { may_encrypt: true }), Plan::Write);
    // asking again changes nothing
    assert_eq!(session.plan(Report::Transmit { may_encrypt: true }), Plan::Write);
    session.done_writing(50);
    assert_eq!(session.plan(Report::Transmit { may_encrypt: true }), Plan::Transmitted);
}

#[test]
fn the_data_phase_follows_the_flags() {
    let mut session = Session::new();
    assert_eq!(session.plan(Report::Traffic), Plan::Fail(Defect::RequestNotSent));
    session.sent_request = true;
    assert_eq!(session.plan(Report::Traffic), Plan::Read);
    session.received_response = true;
    assert_eq!(session.plan(Report::Traffic), Plan::CloseNotify);
    session.we_closed = true;
    assert_eq!(session.plan(Report::Traffic), Plan::Read);
}
