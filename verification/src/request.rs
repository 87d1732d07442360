//! What the router and the handlers read of an inbound HTTP request.

use crate::method::Method;
use vstd::prelude::*;

verus! {

/// The protocol version of a request.
#[derive(Debug, Clone, Copy, PartialEq, Eq, Structural)]
pub enum Version {
    Http09,
    Http10,
    Http11,
    Http2,
    Http3,
    /// A version that has no name here.
    Unknown,
}

/// One header line of a request: its name and the raw bytes of its value.
#[derive(Debug)]
pub struct Header {
    pub name: String,
    pub value: Vec<u8>,
}

/// An inbound request. The router reads its method and its path, and never
/// changes it.
#[derive(Debug)]
pub struct HttpRequest {
    /// The number of the connection that the request came in on.
    pub connection_id: u64,
    /// The number of the request on its connection.
    pub request_id: u64,
    pub method: Method,
    pub version: Version,
    /// The path of the request's URI, as it was sent.
    pub uri_path: String,
    /// The header lines in the order in which they are walked.
    pub headers: Vec<Header>,
}

} // verus!
