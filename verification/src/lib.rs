//! A sans-I/O HTTPS request engine. The protocol logic (the TLS handshake, the framing of
//! request and response) performs no I/O: through a small protocol of actions it says which
//! I/O it needs, and goes on once it is told how many bytes have moved. The same logic is
//! driven by blocking I/O, by readiness notification or by a completion queue.
//!
//! - [`request`], [`response`], [`headers`]: the codec, with [`scan`], [`text`] and [`wire`]
//!   beneath it.
//! - [`session`]: the buffer manager and the decisions of a session.
//! - [`engine`], [`platform`]: what is taken on trust from `rustls` and `libc`.
//! - [`fsm`]: the protocol driver.
//! - [`poll_connection`], [`io_uring_connection`]: the readiness and the completion driver.

pub mod engine;
pub mod fsm;
pub mod headers;
pub mod io_uring_connection;
pub mod platform;
pub mod poll_connection;
pub mod request;
pub mod response;
pub mod scan;
pub mod session;
pub mod text;
pub mod wire;

pub use crate::fsm::{FsmError, Wants, FSM};
pub use crate::io_uring_connection::{Cqe, IoUringConnection, Sqe, SqeOrResponse};
pub use crate::poll_connection::{EventsOrResponse, PollConnection};
pub use crate::request::Request;
pub use crate::response::Response;
