//! The transport dispatcher: one inbound connection event is decided once,
//! finally, as either a duplex-session hand-off or a normal call.
use vstd::prelude::*;

use crate::interfaces::{AppError, QueryParams};
use crate::normalize::{normalize_text, normalized};
use crate::query_string::{parse_query_string, qs_normalized};

verus! {

/// What one inbound GET becomes: a duplex-session hand-off, or a normal
/// call carrying its normalized request or its rejection.
#[derive(Debug, PartialEq, Eq)]
pub enum GetDecision {
    Upgrade,
    Call(Result<QueryParams, AppError>),
}

/// Decides one inbound GET, exactly once per connection: a well-formed
/// upgrade handshake becomes a session hand-off — and nothing else ever
/// does — while any other GET is a normal call whose request is normalized
/// from the query string. A normal call can never become an upgrade
/// mid-flight, nor the reverse.
pub fn dispatch_get(upgrade_requested: bool, raw_query: &str) -> (d: GetDecision)
    ensures
        upgrade_requested <==> d is Upgrade,
        (match d {
            GetDecision::Upgrade => upgrade_requested,
            GetDecision::Call(r) => match r {
                Ok(q) => qs_normalized(raw_query.view()) == Some(q.view()),
                Err(e) => qs_normalized(raw_query.view()) is None && e == AppError::BadRequest,
            },
        }),
{
    if upgrade_requested {
        GetDecision::Upgrade
    } else {
        GetDecision::Call(parse_query_string(raw_query))
    }
}

/// Decides one inbound POST: always a normal call, its request normalized
/// from the structured body.
pub fn dispatch_post(body: &str) -> (r: Result<QueryParams, AppError>)
    ensures
        (match r {
            Ok(q) => normalized(body.view()) == Some(q.view()),
            Err(e) => normalized(body.view()) is None && e == AppError::BadRequest,
        }),
{
    normalize_text(body)
}

} // verus!
