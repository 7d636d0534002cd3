//! A minimal HTTP response, as the local test servers send it.

use vstd::prelude::*;
use crate::text::{concat, decimal, owned, u64_to_string, utf8_len, utf8_len_of};

verus! {

/// One HTTP response: a status and a JSON body.
#[derive(Debug, Clone)]
pub struct HttpResponse {
    pub status: u16,
    pub body: String,
}

impl HttpResponse {
    /// A JSON response with the given status and body.
    pub fn json(status: u16, body: String) -> (r: HttpResponse)
        ensures
            r.status == status,
            r.body@ == body@,
    {
        HttpResponse { status, body }
    }
}

/// The reason phrase sent with a status (200 and 401 by name).
pub open spec fn reason(status: u16) -> Seq<char> {
    if status == 200 {
        "OK"@
    } else if status == 401 {
        "Unauthorized"@
    } else {
        "Error"@
    }
}

/// The bytes of a response on the wire, as text: status line, JSON content
/// type, content length in UTF-8 bytes, `Connection: close`, then the body.
pub open spec fn response_text(status: u16, body: Seq<char>) -> Seq<char> {
    "HTTP/1.1 "@ + decimal(status as nat) + " "@ + reason(status)
        + "\r\nContent-Type: application/json\r\nContent-Length: "@ + decimal(utf8_len(body))
        + "\r\nConnection: close\r\n\r\n"@ + body
}

/// The text of a response on the wire.
pub fn http_response_text(response: &HttpResponse) -> (r: String)
    ensures
        r@ == response_text(response.status, response.body@),
{
    let reason: &str = if response.status == 200 {
        "OK"
    } else if response.status == 401 {
        "Unauthorized"
    } else {
        "Error"
    };
    let len = utf8_len_of(response.body.as_str());
    let mut s = concat("HTTP/1.1 ", u64_to_string(response.status as u64).as_str());
    s = concat(concat(s.as_str(), " ").as_str(), reason);
    s = concat(s.as_str(), "\r\nContent-Type: application/json\r\nContent-Length: ");
    s = concat(s.as_str(), crate::text::u128_to_string(len).as_str());
    s = concat(s.as_str(), "\r\nConnection: close\r\n\r\n");
    s = concat(s.as_str(), response.body.as_str());
    s
}

} // verus!
