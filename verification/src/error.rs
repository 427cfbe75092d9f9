//! The API's error type and what each error answers to the client.
use vstd::prelude::*;

verus! {

broadcast use vstd::string::group_string_axioms;

/// HTTP status of a request the client got wrong.
pub const STATUS_BAD_REQUEST: u16 = 400;

/// HTTP status of a failure on our side.
pub const STATUS_INTERNAL_SERVER_ERROR: u16 = 500;

/// An error the API reports to its client.
#[derive(Debug)]
pub enum ApiError {
    /// The request itself is wrong; the message says how.
    BadRequest(String),
    /// Something failed on our side; the message is for the log only.
    Internal(String),
}

/// The body every internal error answers with.
pub open spec fn internal_body() -> Seq<char> {
    seq!['i', 'n', 't', 'e', 'r', 'n', 'a', 'l', ' ', 'e', 'r', 'r', 'o', 'r']
}

/// The HTTP status an error answers with.
pub open spec fn status_of(e: ApiError) -> u16 {
    match e {
        ApiError::BadRequest(_) => STATUS_BAD_REQUEST,
        ApiError::Internal(_) => STATUS_INTERNAL_SERVER_ERROR,
    }
}

/// The response body an error answers with: a bad request's own message, and
/// for an internal error a fixed text, never its message (which can carry
/// database error text).
pub open spec fn body_of(e: ApiError) -> Seq<char> {
    match e {
        ApiError::BadRequest(msg) => msg@,
        ApiError::Internal(_) => internal_body(),
    }
}

/// The text of an error as the log shows it.
pub open spec fn message_of(e: ApiError) -> Seq<char> {
    match e {
        ApiError::BadRequest(msg) => "Bad request: "@ + msg@,
        ApiError::Internal(msg) => "Internal error: "@ + msg@,
    }
}

impl ApiError {
    /// The status and body this error answers the client with.
    pub fn response_parts(&self) -> (parts: (u16, String))
        ensures
            parts.0 == status_of(*self),
            parts.1@ == body_of(*self),
    {
        match self {
            ApiError::BadRequest(msg) => (STATUS_BAD_REQUEST, msg.clone()),
            ApiError::Internal(_) => {
                let body = "internal error";
                proof {
                    reveal_strlit("internal error");
                }
                assert(body@ =~= internal_body());
                (STATUS_INTERNAL_SERVER_ERROR, body.to_string())
            },
        }
    }

    /// The text of this error for the log: its kind, then its message.
    pub fn message(&self) -> (text: String)
        ensures
            text@ == message_of(*self),
    {
        match self {
            ApiError::BadRequest(msg) => {
                let mut text = "Bad request: ".to_string();
                text.append(msg.as_str());
                text
            },
            ApiError::Internal(msg) => {
                let mut text = "Internal error: ".to_string();
                text.append(msg.as_str());
                text
            },
        }
    }
}

/// What an internal error answers does not depend on its message: two internal
/// errors, whatever they carry, answer alike.
pub proof fn internal_response_ignores_the_message(a: String, b: String)
    ensures
        status_of(ApiError::Internal(a)) == status_of(ApiError::Internal(b)),
        body_of(ApiError::Internal(a)) == body_of(ApiError::Internal(b)),
{
}

} // verus!
