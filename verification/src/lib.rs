//! A sidecar lifecycle manager and streaming bridge for a local LLM engine:
//! it plans the engine subprocess's spawn, reclamation and termination, and
//! turns the engine's newline-delimited JSON streams into ordered,
//! cancellable event sequences.
pub mod events;
pub mod framing;
pub mod records;
pub mod chat;
pub mod pull;
pub mod supervisor;
pub mod prober;
pub mod watch;
pub mod files;
pub mod encode;

use vstd::prelude::*;
use crate::events::BridgeError;

verus! {

/// Reports whether an HTTP status code counts as a success, the rule the
/// engine's liveness probe and single-shot calls go by.
pub fn status_is_success(status: u16) -> (r: bool)
    ensures
        r <==> 200 <= status < 300,
{
    200 <= status && status < 300
}

/// Decides whether a streaming request may begin from the response the
/// engine gave: a non-success status fails the whole operation — carrying
/// the status and the response body — and no events are emitted.
pub fn stream_init_outcome(status: u16, body: String) -> (r: Result<(), BridgeError>)
    ensures
        r is Ok <==> 200 <= status < 300,
        !(200 <= status < 300) ==> (r matches Err(e) && e matches BridgeError::EngineStatus {
            status: s,
            body: b,
        } && s == status && b@ == body@),
{
    if 200 <= status && status < 300 {
        Ok(())
    } else {
        Err(BridgeError::EngineStatus { status, body })
    }
}

/// Decides a model deletion's outcome from the engine's response: success
/// by status code, else the failure carrying the response body.
pub fn delete_outcome(status: u16, body: String) -> (r: Result<(), BridgeError>)
    ensures
        r is Ok <==> 200 <= status < 300,
        !(200 <= status < 300) ==> (r matches Err(e) && e matches BridgeError::DeleteFailed {
            detail: d,
        } && d@ == body@),
{
    if 200 <= status && status < 300 {
        Ok(())
    } else {
        Err(BridgeError::DeleteFailed { detail: body })
    }
}

} // verus!
