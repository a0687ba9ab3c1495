//! Numbers that the operating system assigns, as the `libc` crate has them for the target.
//! Their values differ between systems, so nothing is claimed of them: the drivers read them
//! once and hand them on.

use vstd::prelude::*;

verus! {

/// The `poll` event for "there is data to read": `libc::POLLIN`.
#[verifier::external_body]
pub(crate) fn pollin() -> (events: i16) {
    libc::POLLIN
}

/// The `poll` event for "writing will not block": `libc::POLLOUT`.
#[verifier::external_body]
pub(crate) fn pollout() -> (events: i16) {
    libc::POLLOUT
}

/// The socket domain of IPv4: `libc::AF_INET`.
#[verifier::external_body]
pub(crate) fn af_inet() -> (domain: i32) {
    libc::AF_INET
}

/// The socket type of a byte stream: `libc::SOCK_STREAM`.
#[verifier::external_body]
pub(crate) fn sock_stream() -> (socket_type: i32) {
    libc::SOCK_STREAM
}

} // verus!
