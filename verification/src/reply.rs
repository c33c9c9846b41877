//! The wire form of a call's outcome: a status and a body that the caller
//! can read back into the same success or the same error.

use crate::server_fn::{
    dispatched, outcome_view, Outcome, Registry, ServerCallError, ServerCallErrorView, ServerFn,
};
use crate::text::same_text;
use vstd::prelude::*;

verus! {

/// Status of a structured success response.
pub const STATUS_OK: u16 = 200;

/// Status of a redirect-style success response.
pub const STATUS_SEE_OTHER: u16 = 303;

/// Status of a response to malformed arguments or a malformed payload.
pub const STATUS_BAD_REQUEST: u16 = 400;

/// Status of a response to an unknown key.
pub const STATUS_NOT_FOUND: u16 = 404;

/// Status of a response to a failure of the function itself.
pub const STATUS_SERVER_ERROR: u16 = 500;

/// The reply to a call of a server function.
#[derive(Clone, Debug, PartialEq, Eq)]
pub struct HttpReply {
    /// The status code.
    pub status: u16,
    /// Where a redirect-style reply sends the caller.
    pub location: Option<String>,
    /// The serialized result, or the detail of the error.
    pub body: String,
}

/// What an [`HttpReply`] holds, as plain values.
pub struct HttpReplyView {
    pub status: u16,
    pub location: Option<Seq<char>>,
    pub body: Seq<char>,
}

impl View for HttpReply {
    type V = HttpReplyView;

    open spec fn view(&self) -> HttpReplyView {
        HttpReplyView {
            status: self.status,
            location: match self.location {
                Some(location) => Some(location@),
                None => None,
            },
            body: self.body@,
        }
    }
}

/// Whether the caller declared that it accepts a structured response.
pub open spec fn wants_structured(accept: Option<&str>) -> bool {
    accept matches Some(format) && format@ == "application/json"@
}

/// The body of the reply to an unknown key.
pub open spec fn not_found_body() -> Seq<char> {
    "Could not find a server function at that route."@
}

/// The reply that carries `outcome`. A success goes out raw under status 200
/// when the caller accepts a structured response, and otherwise as a redirect
/// to the root under status 303, as suits a plain form submission. Each kind
/// of error has a status of its own, with the detail as the body.
pub open spec fn encoded(outcome: Outcome, structured: bool) -> HttpReplyView {
    match outcome {
        Ok(payload) => if structured {
            HttpReplyView { status: STATUS_OK, location: None, body: payload }
        } else {
            HttpReplyView { status: STATUS_SEE_OTHER, location: Some("/"@), body: payload }
        },
        Err(ServerCallErrorView::NotFound) => HttpReplyView {
            status: STATUS_NOT_FOUND,
            location: None,
            body: not_found_body(),
        },
        Err(ServerCallErrorView::Deserialization(detail)) => HttpReplyView {
            status: STATUS_BAD_REQUEST,
            location: None,
            body: detail,
        },
        Err(ServerCallErrorView::Application(detail)) => HttpReplyView {
            status: STATUS_SERVER_ERROR,
            location: None,
            body: detail,
        },
    }
}

/// The outcome that a reply stands for. Statuses 200 and 303 carry a result,
/// 404 an unknown key, 400 a deserialization failure; any other status is a
/// failure of the function, with the body as its detail.
pub open spec fn decoded(reply: HttpReplyView) -> Outcome {
    if reply.status == STATUS_OK || reply.status == STATUS_SEE_OTHER {
        Ok(reply.body)
    } else if reply.status == STATUS_NOT_FOUND {
        Err(ServerCallErrorView::NotFound)
    } else if reply.status == STATUS_BAD_REQUEST {
        Err(ServerCallErrorView::Deserialization(reply.body))
    } else {
        Err(ServerCallErrorView::Application(reply.body))
    }
}

/// What a call of `key` with `args` may come to when it travels: some outcome
/// of the dispatch on the other side, encoded there and decoded here.
pub open spec fn dispatched_remotely<H: ServerFn>(
    registry: Registry<H>,
    key: Seq<char>,
    args: Seq<u8>,
    outcome: Outcome,
) -> bool {
    exists|there: Outcome, structured: bool|
        dispatched(registry, key, args, there) && outcome == decoded(
            #[trigger] encoded(there, structured),
        )
}

/// The caller reads back exactly the outcome that was sent, success or error,
/// in either response style.
pub proof fn lemma_reply_round_trip(outcome: Outcome, structured: bool)
    ensures
        decoded(encoded(outcome, structured)) == outcome,
{
}

/// Call symmetry: a call that travels can come to exactly what the same call
/// with the same serialized arguments can come to in process.
pub proof fn lemma_remote_call_mirrors_local<H: ServerFn>(
    registry: Registry<H>,
    key: Seq<char>,
    args: Seq<u8>,
    outcome: Outcome,
)
    ensures
        dispatched_remotely(registry, key, args, outcome) <==> dispatched(
            registry,
            key,
            args,
            outcome,
        ),
{
    if dispatched(registry, key, args, outcome) {
        lemma_reply_round_trip(outcome, true);
        assert(outcome == decoded(encoded(outcome, true)));
    }
    if dispatched_remotely(registry, key, args, outcome) {
        let (there, structured) = choose|there: Outcome, structured: bool|
            dispatched(registry, key, args, there) && outcome == decoded(
                #[trigger] encoded(there, structured),
            );
        lemma_reply_round_trip(there, structured);
    }
}

impl HttpReply {
    /// The reply that carries `outcome` to a caller that sent `accept` as the
    /// response format it accepts.
    pub fn from_outcome(outcome: Result<String, ServerCallError>, accept: Option<&str>) -> (reply:
        HttpReply)
        ensures
            reply@ == encoded(outcome_view(outcome), wants_structured(accept)),
    {
        let structured = match accept {
            Some(format) => same_text(format, "application/json"),
            None => false,
        };
        match outcome {
            Ok(payload) => if structured {
                HttpReply { status: STATUS_OK, location: None, body: payload }
            } else {
                HttpReply {
                    status: STATUS_SEE_OTHER,
                    location: Some("/".to_owned()),
                    body: payload,
                }
            },
            Err(ServerCallError::NotFound) => HttpReply {
                status: STATUS_NOT_FOUND,
                location: None,
                body: "Could not find a server function at that route.".to_owned(),
            },
            Err(ServerCallError::Deserialization(detail)) => HttpReply {
                status: STATUS_BAD_REQUEST,
                location: None,
                body: detail,
            },
            Err(ServerCallError::Application(detail)) => HttpReply {
                status: STATUS_SERVER_ERROR,
                location: None,
                body: detail,
            },
        }
    }

    /// Reads the reply back into the outcome it stands for.
    pub fn into_outcome(self) -> (outcome: Result<String, ServerCallError>)
        ensures
            outcome_view(outcome) == decoded(self@),
    {
        if self.status == STATUS_OK || self.status == STATUS_SEE_OTHER {
            Ok(self.body)
        } else if self.status == STATUS_NOT_FOUND {
            Err(ServerCallError::NotFound)
        } else if self.status == STATUS_BAD_REQUEST {
            Err(ServerCallError::Deserialization(self.body))
        } else {
            Err(ServerCallError::Application(self.body))
        }
    }
}

/// Serves one request to the endpoint of server function `key`: dispatches
/// in process and encodes what came of it for a caller that sent `accept`.
pub fn handle_request<H: ServerFn>(
    registry: &Registry<H>,
    key: &str,
    accept: Option<&str>,
    body: &[u8],
) -> (reply: HttpReply)
    requires
        registry.wf(),
    ensures
        dispatched(*registry, key@, body@, decoded(reply@)),
        reply@ == encoded(decoded(reply@), wants_structured(accept)),
        !registry.is_registered(key@) ==> reply@.status == STATUS_NOT_FOUND,
{
    let outcome = registry.dispatch(key, body);
    proof {
        lemma_reply_round_trip(outcome_view(outcome), wants_structured(accept));
    }
    HttpReply::from_outcome(outcome, accept)
}

} // verus!
