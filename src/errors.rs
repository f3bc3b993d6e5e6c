use vstd::prelude::*;
use crate::status::ProverStatus;

verus! {

/// Errors of the job store, the decoder of persisted statuses and the
/// pipeline's own decisions.
#[derive(Debug, Clone, Copy, PartialEq, Eq, Structural)]
pub enum Error {
    /// No job is stored under this block number.
    BlockNotFound(u32),
    /// A job is already stored under this block number.
    DuplicateBlock(u32),
    /// The job exists but the requested proof has not been stored.
    ProofNotFound(u32),
    /// The state machine has no edge between the two statuses.
    InvalidTransition { block: u32, from: ProverStatus, to: ProverStatus },
    /// A persisted status text names no status.
    UnknownStatus,
    /// The proving service failed its liveness probe.
    ServerNotAliveError,
    /// Stage 1 is at its in-flight limit.
    Backpressure,
    /// The block number space is used up.
    BlockRangeExhausted,
    /// Settlement was asked out of the gapless block order.
    OutOfOrderSettlement(u32),
    /// A proof's output segment does not fit in its main page.
    MalformedProof,
}

} // verus!
