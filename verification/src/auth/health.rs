//! Liveness probe.

use crate::common::http::{json_reply, Reply};
use vstd::prelude::*;

verus! {

/// `GET /health` — unauthenticated on purpose: an orchestrator probing liveness
/// holds no credentials, and a probe that can fail for auth reasons reports the
/// wrong thing.
pub fn health() -> (r: Reply)
    ensures
        r@ == json_reply(200, None, "{\"status\":\"ok\"}"@),
{
    Reply::json(200, "{\"status\":\"ok\"}".to_owned())
}

} // verus!
