//! System routes: liveness.
use vstd::prelude::*;

verus! {

/// Liveness response for `GET /health`.
pub struct HealthResponse {
    /// Always `"ok"` when the server is reachable.
    pub status: String,
}

/// The liveness answer.
pub fn health() -> (r: HealthResponse)
    ensures
        r.status@ == "ok"@,
{
    HealthResponse { status: String::from_str("ok") }
}

} // verus!
