use vstd::prelude::*;

verus! {

/// Actual token usage reported by the service for a completed call.
#[derive(Debug, Clone, Copy, PartialEq, Eq, Structural)]
pub struct Usage {
    pub total_tokens: u32,
}

/// Heuristic token usage computed before a call is sent. Used only for the
/// admission decision, never recorded as ground truth.
#[derive(Debug, Clone, Copy, PartialEq, Eq, Structural)]
pub struct EstimatedUsage {
    pub total_tokens: u32,
}

} // verus!
