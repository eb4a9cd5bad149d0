//! The wire-level data the engine consumes and produces, modelled as plain
//! values: requests arrive already parsed, responses leave as records that a
//! transport layer serializes and routes by their address.

use vstd::prelude::*;

verus! {

/// Network origin of a request: a 16-byte address (IPv6, or an IPv4 address
/// mapped into it) and a port. Responses carry it back verbatim so the
/// transport can route them without consulting the registry.
#[derive(Clone, Copy, Debug, PartialEq, Eq)]
pub struct Address {
    pub ip: [u8; 16],
    pub port: u16,
}

/// The kind of an incoming request: a connection-lifecycle request, or any
/// other (gameplay placeholder) request.
#[derive(Clone, Copy, Debug, PartialEq, Eq)]
pub enum RequestType {
    Connect,
    Disconnect,
    Other,
}

/// One parsed request from a remote client.
pub struct Request {
    pub req_type: RequestType,
    /// Raw payload bytes; on Connect they carry the UTF-8 user name.
    pub contents: Vec<u8>,
    /// Identifier of an already-connected client; meaningless for Connect.
    pub client_id: u128,
    pub addr: Address,
}

/// Mathematical value of a [`Request`].
#[verifier::ext_equal]
pub struct RequestView {
    pub req_type: RequestType,
    pub contents: Seq<u8>,
    pub client_id: u128,
    pub addr: Address,
}

impl View for Request {
    type V = RequestView;

    open spec fn view(&self) -> RequestView {
        RequestView {
            req_type: self.req_type,
            contents: self.contents@,
            client_id: self.client_id,
            addr: self.addr,
        }
    }
}

/// The outcome a response reports.
#[derive(Clone, Copy, Debug, PartialEq, Eq)]
pub enum ResponseCode {
    ConnectAccept,
    ConnectReject,
    DisconnectAck,
    TokenAcknowledge,
}

/// One response to be routed back to `addr`.
pub struct Response {
    pub code: ResponseCode,
    pub addr: Address,
    /// Reserved; always empty today.
    pub numerical_data: Vec<u64>,
    /// Human-readable message or session token.
    pub textual_data: String,
    /// Raw bytes; carries the newly assigned client identifier on accept.
    pub object_data: Vec<u8>,
}

/// Mathematical value of a [`Response`].
#[verifier::ext_equal]
pub struct ResponseView {
    pub code: ResponseCode,
    pub addr: Address,
    pub numerical_data: Seq<u64>,
    pub textual_data: Seq<char>,
    pub object_data: Seq<u8>,
}

impl View for Response {
    type V = ResponseView;

    open spec fn view(&self) -> ResponseView {
        ResponseView {
            code: self.code,
            addr: self.addr,
            numerical_data: self.numerical_data@,
            textual_data: self.textual_data@,
            object_data: self.object_data@,
        }
    }
}

} // verus!
