//! The answer of the metrics endpoint.

use vstd::prelude::*;
use vstd::string::*;

verus! {

/// An HTTP answer: status, content type where one is set, and body.
#[derive(Clone, Debug, PartialEq, Eq)]
pub struct HttpReply {
    pub status: u16,
    pub content_type: Option<String>,
    pub body: Vec<u8>,
}

/// The answer of the metrics endpoint. `encoded` is missing where the
/// service collects no metrics; else it holds the encoded metrics with their
/// content type, or the reason why they could not be encoded.
///
/// Metrics that were encoded are sent as they are, with status 200 and their
/// content type. A failure to encode gives status 500 and the body `Error`.
/// A service without metrics answers 404, `Metrics collection disabled.`
pub fn metrics(encoded: Option<Result<(Vec<u8>, String), String>>) -> (reply: HttpReply)
    ensures
        match encoded {
            Some(Ok((body, content_type))) => {
                &&& reply.status == 200
                &&& reply.body@ == body@
                &&& reply.content_type matches Some(set)
                &&& set@ == content_type@
            },
            Some(Err(_)) => reply.status == 500 && reply.body@ == "Error".spec_bytes()
                && reply.content_type is None,
            None => reply.status == 404 && reply.body@
                == "Metrics collection disabled.".spec_bytes() && reply.content_type is None,
        },
{
    match encoded {
        Some(Ok((body, content_type))) => HttpReply {
            status: 200,
            content_type: Some(content_type),
            body,
        },
        Some(Err(_)) => HttpReply {
            status: 500,
            content_type: None,
            body: "Error".as_bytes_vec(),
        },
        None => HttpReply {
            status: 404,
            content_type: None,
            body: "Metrics collection disabled.".as_bytes_vec(),
        },
    }
}

} // verus!
