//! The TLS engine as the protocol driver sees it: the types of `rustls` that pass through the
//! driver, and the calls that it makes into them. None of these contracts is proved: each
//! says what the called function's source shows.

use std::sync::Arc;
use vstd::prelude::*;
use rustls::client::{ClientConnectionData, UnbufferedClientConnection};
use rustls::pki_types::ServerName;
use rustls::unbuffered::{
    ConnectionState, EncodeError, EncodeTlsData, EncryptError, ReadTraffic, TransmitTlsData,
    WriteTraffic,
};
use rustls::ClientConfig;
use crate::session::{same_prefix, Span};

verus! {

/// `rustls::client::UnbufferedClientConnection`, the client side of a TLS session. Nothing is
/// known of what is inside.
#[verifier::external_type_specification]
#[verifier::external_body]
pub struct ExUnbufferedClientConnection(UnbufferedClientConnection);

/// `rustls::client::ClientConnectionData`, which marks the engine's states as a client's.
#[verifier::external_type_specification]
#[verifier::external_body]
pub struct ExClientConnectionData(ClientConnectionData);

/// `rustls::ClientConfig`, the settings that a session is opened with.
#[verifier::external_type_specification]
#[verifier::external_body]
pub struct ExClientConfig(ClientConfig);

/// `rustls::pki_types::ServerName`, the name of the server as TLS uses it.
#[verifier::external_type_specification]
#[verifier::external_body]
pub struct ExServerName<'a>(ServerName<'a>);

/// `rustls::Error`, the engine's own error.
#[verifier::external_type_specification]
#[verifier::external_body]
pub struct ExTlsError(rustls::Error);

/// `rustls::unbuffered::ConnectionState`, the state that the engine reports.
#[verifier::external_type_specification]
#[verifier::external_body]
#[verifier::reject_recursive_types(Data)]
pub struct ExConnectionState<'c, 'i, Data>(ConnectionState<'c, 'i, Data>);

/// `rustls::unbuffered::ReadTraffic`, which hands out the decrypted records.
#[verifier::external_type_specification]
#[verifier::external_body]
#[verifier::reject_recursive_types(Data)]
pub struct ExReadTraffic<'c, 'i, Data>(ReadTraffic<'c, 'i, Data>);

/// `rustls::unbuffered::EncodeTlsData`, which holds a handshake record to be encoded.
#[verifier::external_type_specification]
#[verifier::external_body]
#[verifier::reject_recursive_types(Data)]
pub struct ExEncodeTlsData<'c, Data>(EncodeTlsData<'c, Data>);

/// `rustls::unbuffered::TransmitTlsData`, which waits for the flight to be transmitted.
#[verifier::external_type_specification]
#[verifier::external_body]
#[verifier::reject_recursive_types(Data)]
pub struct ExTransmitTlsData<'c, Data>(TransmitTlsData<'c, Data>);

/// `rustls::unbuffered::WriteTraffic`, which encrypts application data and the close
/// notification.
#[verifier::external_type_specification]
#[verifier::external_body]
#[verifier::reject_recursive_types(Data)]
pub struct ExWriteTraffic<'c, Data>(WriteTraffic<'c, Data>);

/// The state that the engine is in, with what the engine hands out in that state.
pub enum Engine<'c, 'i> {
    /// Decrypted records are available.
    ReadTraffic(ReadTraffic<'c, 'i, ClientConnectionData>),
    /// A handshake record waits to be encoded.
    Encode(EncodeTlsData<'c, ClientConnectionData>),
    /// Encoded records wait to be transmitted.
    Transmit(TransmitTlsData<'c, ClientConnectionData>),
    /// The handshake is over.
    Traffic(WriteTraffic<'c, ClientConnectionData>),
    /// The handshake waits for more input.
    Blocked,
    /// The peer has closed its side.
    PeerClosed,
    /// Both sides have closed.
    Closed,
    /// A state that the driver has no answer to.
    Other,
}

/// What came of asking the engine to write into the outgoing region.
pub enum Written {
    /// So many bytes were written.
    Bytes(usize),
    /// Nothing was written: the engine needs so many bytes of room.
    TooSmall(usize),
    /// Nothing was written: the engine had nothing to write, or can encrypt no more.
    Refused,
}

/// What came of asking the engine for the next decrypted record.
pub enum Record {
    /// A record: how many more received bytes to drop, and its payload.
    Data(usize, Vec<u8>),
    /// No record is left.
    End,
    /// The engine failed.
    Failed(rustls::Error),
}

/// Whether `rustls` takes `hostname` as the name of a server: as a DNS name or as an IP
/// address.
pub uninterp spec fn names_server(hostname: Seq<char>) -> bool;

/// Reads a host name as a server name. Calls `ServerName::try_from` on the owned string,
/// which takes a DNS name or an IP address and refuses everything else.
#[verifier::external_body]
pub(crate) fn server_name(hostname: &str) -> (name: Option<ServerName<'static>>)
    ensures
        name is Some <==> names_server(hostname@),
{
    ServerName::try_from(hostname.to_owned()).ok()
}

/// Opens the client side of a TLS session. Calls `UnbufferedClientConnection::new`; nothing
/// is claimed of its outcome.
#[verifier::external_body]
pub(crate) fn open_connection(config: Arc<ClientConfig>, name: ServerName<'static>) -> (opened:
    Result<UnbufferedClientConnection, rustls::Error>) {
    UnbufferedClientConnection::new(config, name)
}

/// Has the engine process the received bytes in the stretch `window` of `incoming`. Calls
/// `process_tls_records`, and returns the discard count and the state it reports. The region
/// keeps its size; nothing is claimed of the count or the state.
///
/// The engine keeps positions in the bytes that it has seen and not discarded, so the
/// stretch must continue the one that it was handed last, `last`: it starts behind the
/// `consumed` bytes that the engine has reported as discarded since, and ends no earlier.
#[verifier::external_body]
#[allow(unused_variables)]
pub(crate) fn process<'c, 'i>(
    conn: &'c mut UnbufferedClientConnection,
    incoming: &'i mut Vec<u8>,
    window: Span,
    last: Span,
    consumed: usize,
) -> (status: (usize, Result<ConnectionState<'c, 'i, ClientConnectionData>, rustls::Error>))
    requires
        window.start <= window.end <= old(incoming).len(),
        window.start == last.start + consumed,
        window.end >= last.end,
    ensures
        final(incoming).len() == old(incoming).len(),
{
    let status = conn.process_tls_records(&mut incoming[window.start..window.end]);
    (status.discard, status.state)
}

/// Tells the variants of `ConnectionState` apart.
#[verifier::external_body]
pub(crate) fn classify<'c, 'i>(state: ConnectionState<'c, 'i, ClientConnectionData>) -> (engine:
    Engine<'c, 'i>) {
    match state {
        ConnectionState::ReadTraffic(s) => Engine::ReadTraffic(s),
        ConnectionState::EncodeTlsData(s) => Engine::Encode(s),
        ConnectionState::TransmitTlsData(s) => Engine::Transmit(s),
        ConnectionState::WriteTraffic(s) => Engine::Traffic(s),
        ConnectionState::BlockedHandshake => Engine::Blocked,
        ConnectionState::PeerClosed => Engine::PeerClosed,
        ConnectionState::Closed => Engine::Closed,
        _ => Engine::Other,
    }
}

/// What every write of the engine into `outgoing[from..]` keeps to: the region keeps its
/// size and the bytes before `from`; the bytes written fit behind `from`; and where the
/// engine wrote nothing, the region is as it was, and the room asked for is more than there
/// was.
pub open spec fn wrote_behind(before: Seq<u8>, after: Seq<u8>, from: usize, written: Written)
    -> bool {
    &&& after.len() == before.len()
    &&& same_prefix(before, after, from as nat)
    &&& match written {
        Written::Bytes(count) => from + count <= before.len(),
        Written::TooSmall(required) => after == before && from + required > before.len(),
        Written::Refused => after == before,
    }
}

/// Takes the next decrypted record. Calls `ReadTraffic::next_record` and copies the payload.
#[verifier::external_body]
pub(crate) fn next_record(state: &mut ReadTraffic<'_, '_, ClientConnectionData>) -> (record:
    Record) {
    match state.next_record() {
        Some(Ok(record)) => Record::Data(record.discard, record.payload.to_vec()),
        Some(Err(error)) => Record::Failed(error),
        None => Record::End,
    }
}

/// Encodes the waiting handshake record into `outgoing[from..]`. Calls
/// `EncodeTlsData::encode`, which copies the record where it fits, and else reports its size
/// and leaves the region alone.
#[verifier::external_body]
pub(crate) fn encode(
    state: &mut EncodeTlsData<'_, ClientConnectionData>,
    outgoing: &mut Vec<u8>,
    from: usize,
) -> (written: Written)
    requires
        from <= old(outgoing).len(),
    ensures
        wrote_behind(old(outgoing)@, final(outgoing)@, from, written),
{
    match state.encode(&mut outgoing[from..]) {
        Ok(count) => Written::Bytes(count),
        Err(EncodeError::InsufficientSize(error)) => Written::TooSmall(error.required_size),
        Err(EncodeError::AlreadyEncoded) => Written::Refused,
    }
}

/// Asks whether application data may travel with the flight. Calls
/// `TransmitTlsData::may_encrypt_app_data`.
#[verifier::external_body]
pub(crate) fn may_encrypt<'a>(state: &'a mut TransmitTlsData<'_, ClientConnectionData>) -> (
    writer: Option<WriteTraffic<'a, ClientConnectionData>>) {
    state.may_encrypt_app_data()
}

/// Tells the engine that the flight has been transmitted. Calls `TransmitTlsData::done`.
#[verifier::external_body]
pub(crate) fn transmitted(state: TransmitTlsData<'_, ClientConnectionData>) {
    state.done()
}

/// Encrypts `data` into `outgoing[from..]`. Calls `WriteTraffic::encrypt`, which writes the
/// records where they fit, and else reports the room they need and leaves the region alone.
#[verifier::external_body]
pub(crate) fn encrypt(
    state: &mut WriteTraffic<'_, ClientConnectionData>,
    data: &[u8],
    outgoing: &mut Vec<u8>,
    from: usize,
) -> (written: Written)
    requires
        from <= old(outgoing).len(),
    ensures
        wrote_behind(old(outgoing)@, final(outgoing)@, from, written),
{
    match state.encrypt(data, &mut outgoing[from..]) {
        Ok(count) => Written::Bytes(count),
        Err(EncryptError::InsufficientSize(error)) => Written::TooSmall(error.required_size),
        Err(EncryptError::EncryptExhausted) => Written::Refused,
    }
}

/// Writes the close notification into `outgoing[from..]`. Calls
/// `WriteTraffic::queue_close_notify`, which writes the alert where it fits, and else reports
/// the room it needs and leaves the region alone.
#[verifier::external_body]
pub(crate) fn close_notify(
    state: &mut WriteTraffic<'_, ClientConnectionData>,
    outgoing: &mut Vec<u8>,
    from: usize,
) -> (written: Written)
    requires
        from <= old(outgoing).len(),
    ensures
        wrote_behind(old(outgoing)@, final(outgoing)@, from, written),
{
    match state.queue_close_notify(&mut outgoing[from..]) {
        Ok(count) => Written::Bytes(count),
        Err(EncryptError::InsufficientSize(error)) => Written::TooSmall(error.required_size),
        Err(EncryptError::EncryptExhausted) => Written::Refused,
    }
}

} // verus!
