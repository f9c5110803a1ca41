//! Classifies what an HTTP exchange with an agent server gave back.

use vstd::prelude::*;
use crate::model::InvokeResponse;

verus! {

/// A response as the transport read it: whether the status is a success,
/// the status line, and the body text or why it could not be read.
pub struct HttpReply {
    pub status_ok: bool,
    pub status: String,
    pub body: Result<String, String>,
}

pub open spec fn body_or_empty(body: Result<String, String>) -> Seq<char> {
    match body {
        Ok(t) => t@,
        Err(_) => Seq::empty(),
    }
}

/// Why an exchange with an agent server gave no usable body.
pub enum TransportError {
    /// The request could not be sent.
    Unreachable(String),
    /// The server answered with a status that is not a success; the body
    /// text is kept for diagnostics.
    BadStatus { status: String, body: String },
    /// The response body could not be read.
    UnreadableBody(String),
}

/// Where a message send ends: its status is judged before its body.
pub open spec fn send_outcome_holds(r: Result<String, TransportError>, reply: Result<HttpReply, String>) -> bool {
    match reply {
        Err(e) => r matches Err(TransportError::Unreachable(d)) && d == e,
        Ok(h) => if !h.status_ok {
            r matches Err(TransportError::BadStatus { status, body }) && status == h.status && body@
                == body_or_empty(h.body)
        } else {
            match h.body {
                Ok(t) => r == Ok::<String, TransportError>(t),
                Err(e) => r matches Err(TransportError::UnreadableBody(d)) && d == e,
            }
        },
    }
}

/// Where an agent card fetch ends: its body is read before its status is
/// judged.
pub open spec fn fetch_outcome_holds(r: Result<String, TransportError>, reply: Result<HttpReply, String>) -> bool {
    match reply {
        Err(e) => r matches Err(TransportError::Unreachable(d)) && d == e,
        Ok(h) => match h.body {
            Err(e) => r matches Err(TransportError::UnreadableBody(d)) && d == e,
            Ok(t) => if h.status_ok {
                r == Ok::<String, TransportError>(t)
            } else {
                r matches Err(TransportError::BadStatus { status, body }) && status == h.status
                    && body == t
            },
        },
    }
}

/// The outcome of a message send.
pub fn send_outcome(reply: Result<HttpReply, String>) -> (r: Result<String, TransportError>)
    ensures
        send_outcome_holds(r, reply),
{
    match reply {
        Err(e) => Err(TransportError::Unreachable(e)),
        Ok(h) => {
            if !h.status_ok {
                let body = match h.body {
                    Ok(t) => t,
                    Err(_) => String::new(),
                };
                Err(TransportError::BadStatus { status: h.status, body })
            } else {
                match h.body {
                    Ok(t) => Ok(t),
                    Err(e) => Err(TransportError::UnreadableBody(e)),
                }
            }
        },
    }
}

/// The outcome of an agent card fetch.
pub fn fetch_outcome(reply: Result<HttpReply, String>) -> (r: Result<String, TransportError>)
    ensures
        fetch_outcome_holds(r, reply),
{
    match reply {
        Err(e) => Err(TransportError::Unreachable(e)),
        Ok(h) => match h.body {
            Err(e) => Err(TransportError::UnreadableBody(e)),
            Ok(t) => {
                if h.status_ok {
                    Ok(t)
                } else {
                    Err(TransportError::BadStatus { status: h.status, body: t })
                }
            },
        },
    }
}

/// The caller-facing text of a transport failure; `status_prefix` opens the
/// text of a bad status.
pub open spec fn transport_message(e: TransportError, status_prefix: Seq<char>) -> Seq<char> {
    match e {
        TransportError::Unreachable(d) => "Request failed: "@ + d@,
        TransportError::BadStatus { status, body } => status_prefix + status@ + ": "@ + body@,
        TransportError::UnreadableBody(d) => "Failed to read response body: "@ + d@,
    }
}

fn describe_transport(e: TransportError, status_prefix: &str) -> (r: String)
    ensures
        r@ == transport_message(e, status_prefix@),
{
    match e {
        TransportError::Unreachable(d) => String::from_str("Request failed: ").concat(d.as_str()),
        TransportError::BadStatus { status, body } => String::from_str(status_prefix).concat(
            status.as_str(),
        ).concat(": ").concat(body.as_str()),
        TransportError::UnreadableBody(d) => String::from_str("Failed to read response body: ").concat(
            d.as_str(),
        ),
    }
}

/// Turns the transport's account of a message send into the caller's
/// result: the body on success, else a failure naming what went wrong.
pub fn a2a_response(reply: Result<HttpReply, String>) -> (r: InvokeResponse<String>)
    ensures
        exists|o: Result<String, TransportError>|
            send_outcome_holds(o, reply) && match o {
                Ok(t) => r.code == 0 && r.message@ == "ok"@ && r.data == Some(t),
                Err(e) => r.code == 1 && r.message@ == transport_message(
                    e,
                    "A2A request failed with status "@,
                ) && r.data is None,
            },
{
    let outcome = send_outcome(reply);
    match outcome {
        Ok(t) => InvokeResponse::success(t),
        Err(e) => InvokeResponse::fail(describe_transport(e, "A2A request failed with status ")),
    }
}

/// The body of an agent card fetch, ready to parse, or why there is none.
pub fn agent_card_body(reply: Result<HttpReply, String>) -> (r: Result<String, String>)
    ensures
        exists|o: Result<String, TransportError>|
            fetch_outcome_holds(o, reply) && match o {
                Ok(t) => r == Ok::<String, String>(t),
                Err(e) => r matches Err(m) && m@ == transport_message(
                    e,
                    "Request failed with status "@,
                ),
            },
{
    match fetch_outcome(reply) {
        Ok(t) => Ok(t),
        Err(e) => Err(describe_transport(e, "Request failed with status ")),
    }
}

} // verus!
