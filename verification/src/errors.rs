use vstd::prelude::*;

verus! {

/// Everything a boundary operation can fail with.
#[derive(Debug)]
pub enum PipelineError {
    /// A query or statement failed inside the engine; carries the engine's
    /// own words, surfaced verbatim and never retried here.
    Engine { message: String },
    /// A critical section's holder failed, poisoning it; fatal for later
    /// operations on that resource.
    Lock,
    /// A scalar cache was read before any precompute stored a buffer;
    /// recoverable by running the precompute first.
    NotInitialized,
    /// A buffer's byte length is smaller than its header implies;
    /// recoverable by skipping the record.
    MalformedBuffer,
    /// The operation is not wired for this tier.
    Unsupported,
}

} // verus!
