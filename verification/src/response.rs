//! Responses and their form on the wire.

use crate::decimal::{decimal, decimal_text};
use crate::text::{byte_len, wire_len};
use vstd::prelude::*;
use vstd::string::*;

verus! {

/// Status line of a request that was understood.
pub const OK: &'static str = "HTTP/1.1 200 OK";

/// Status line of a request that is malformed.
pub const BAD_REQUEST: &'static str = "HTTP/1.1 400 BAD REQUEST";

/// Status line of a request for anything but the root.
pub const NOT_FOUND: &'static str = "HTTP/1.1 404 NOT FOUND";

/// What separates the status line from the length of the body.
pub const LENGTH_HEADER: &'static str = "\r\nContent-Length: ";

/// What separates the header from the body.
pub const END_OF_HEADER: &'static str = "\r\n\r\n";

/// A status line and a body.
#[derive(Debug, PartialEq, Eq)]
pub struct Response {
    pub status: String,
    pub body: String,
}

/// The mathematical content of a `Response`.
pub ghost struct ResponseView {
    pub status: Seq<char>,
    pub body: Seq<char>,
}

impl View for Response {
    type V = ResponseView;

    open spec fn view(&self) -> ResponseView {
        ResponseView { status: self.status@, body: self.body@ }
    }
}

/// The text that carries `status` and `body` over the wire: the status line,
/// one header with the length of the body in bytes, an empty line, the body.
pub open spec fn wire_format(status: Seq<char>, body: Seq<char>) -> Seq<char> {
    status + LENGTH_HEADER@ + decimal(byte_len(body)) + END_OF_HEADER@ + body
}

impl Response {
    /// The response with the given status line and body.
    pub fn new(status: &str, body: &str) -> (response: Response)
        ensures
            response@ == (ResponseView { status: status@, body: body@ }),
    {
        Response { status: String::from_str(status), body: String::from_str(body) }
    }

    /// This response as it goes over the wire.
    pub fn to_wire(&self) -> (wire: String)
        ensures
            wire@ == wire_format(self@.status, self@.body),
    {
        format_response(self.status.as_str(), self.body.as_str())
    }
}

/// Renders a status line and a body as they go over the wire.
pub fn format_response(status: &str, body: &str) -> (wire: String)
    ensures
        wire@ == wire_format(status@, body@),
{
    let length: String = decimal_text(wire_len(body));
    let mut wire: String = String::from_str(status);
    wire.append(LENGTH_HEADER);
    wire.append(length.as_str());
    wire.append(END_OF_HEADER);
    wire.append(body);
    wire
}

} // verus!
