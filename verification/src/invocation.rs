//! What the harness reports about one invocation: failure class and token usage.

use vstd::prelude::*;

use crate::health::FailureCategory;

verus! {

/// Failure reported by the harness for one invocation.
#[derive(Debug, Clone, Copy, PartialEq, Eq, Structural)]
pub enum InvocationFailure {
    /// Rate limited, with the delay the harness asked for when it gave one.
    RateLimited {
        /// Delay in milliseconds.
        retry_after_ms: Option<u64>,
    },
    /// Quota exhausted.
    Quota,
    /// Authentication rejected.
    Authentication,
    /// No balance left.
    Balance,
    /// Transient failure.
    Transient,
    /// The attempt timed out.
    Timeout,
    /// Permanent failure.
    Permanent,
}

/// Tokens observed for one invocation.
#[derive(Debug, Clone, Copy, PartialEq, Eq, Default, Structural)]
pub struct TokenUsage {
    /// Input tokens.
    pub input_tokens: u64,
    /// Output tokens.
    pub output_tokens: u64,
}

/// What the harness reports of one finished invocation.
#[derive(Debug, Clone, PartialEq, Eq)]
pub struct NormalizedInvocationResult {
    /// Bounded output.
    pub output: String,
    /// Observed usage.
    pub usage: TokenUsage,
    /// Observed latency.
    pub latency_ms: u64,
    /// Provenance reported by the harness.
    pub provenance: Option<String>,
    /// Provider manifest actually materialised.
    pub manifest_hash: Option<String>,
    /// Observed failure, if any.
    pub failure: Option<InvocationFailure>,
}

/// Seconds, rounded up, of a delay in milliseconds.
pub open spec fn ceil_seconds(ms: u64) -> u64 {
    if ms % 1000 == 0 {
        (ms / 1000) as u64
    } else {
        (ms / 1000 + 1) as u64
    }
}

/// The health category of a harness failure.
pub open spec fn category_of(f: InvocationFailure) -> FailureCategory {
    match f {
        InvocationFailure::RateLimited { retry_after_ms: Some(ms) } => FailureCategory::RateLimited { retry_after_seconds: ceil_seconds(ms) },
        InvocationFailure::RateLimited { retry_after_ms: None } => FailureCategory::RateLimitedUnknown,
        InvocationFailure::Quota => FailureCategory::QuotaExhausted,
        InvocationFailure::Authentication => FailureCategory::Authentication,
        InvocationFailure::Balance => FailureCategory::Balance,
        InvocationFailure::Transient => FailureCategory::Transient,
        InvocationFailure::Timeout => FailureCategory::Timeout,
        InvocationFailure::Permanent => FailureCategory::Permanent,
    }
}

/// Classifies a harness failure for the health window and the handoff.
pub fn failure_category(f: InvocationFailure) -> (c: FailureCategory)
    ensures
        c == category_of(f),
{
    match f {
        InvocationFailure::RateLimited { retry_after_ms: Some(ms) } => {
            let s = if ms % 1000 == 0 { ms / 1000 } else { ms / 1000 + 1 };
            FailureCategory::RateLimited { retry_after_seconds: s }
        },
        InvocationFailure::RateLimited { retry_after_ms: None } => FailureCategory::RateLimitedUnknown,
        InvocationFailure::Quota => FailureCategory::QuotaExhausted,
        InvocationFailure::Authentication => FailureCategory::Authentication,
        InvocationFailure::Balance => FailureCategory::Balance,
        InvocationFailure::Transient => FailureCategory::Transient,
        InvocationFailure::Timeout => FailureCategory::Timeout,
        InvocationFailure::Permanent => FailureCategory::Permanent,
    }
}

} // verus!
