//! Reply: the typed response shape for a frame-layer exchange.
//!
//! Pre-execution rejection and in-execution abort are different
//! categories: one has no per-operation results because no operation
//! ran; the other has per-operation results because some did. The
//! per-operation reply at index `i` answers the request's operation at
//! index `i`.

use vstd::prelude::*;

use crate::non_empty::NonEmpty;

verus! {

/// The reply to one request.
#[derive(Debug, Clone, PartialEq, Eq)]
pub enum Reply<ReplyPayload> {
    /// The request was accepted for execution; per-operation results
    /// follow, and `outcome` tells a full commit from an abort.
    Accepted { outcome: AcceptedOutcome, per_operation: NonEmpty<SubReply<ReplyPayload>> },
    /// The request was rejected before any operation began.
    Rejected { reason: RequestRejectionReason },
}

impl<ReplyPayload> Reply<ReplyPayload> {
    /// A fully committed reply.
    pub fn committed(per_operation: NonEmpty<SubReply<ReplyPayload>>) -> (reply: Self)
        ensures
            reply == (Reply::Accepted { outcome: AcceptedOutcome::Committed, per_operation }),
    {
        Reply::Accepted { outcome: AcceptedOutcome::Committed, per_operation }
    }

    /// A reply aborted by the operation at `failed_at`.
    pub fn aborted(
        failed_at: usize,
        reason: OperationFailureReason,
        per_operation: NonEmpty<SubReply<ReplyPayload>>,
    ) -> (reply: Self)
        ensures
            reply == (Reply::Accepted {
                outcome: AcceptedOutcome::OperationAborted { failed_at, reason },
                per_operation,
            }),
    {
        Reply::Accepted {
            outcome: AcceptedOutcome::OperationAborted { failed_at, reason },
            per_operation,
        }
    }

    /// A reply aborted by the operation at `failed_at`; the same reply
    /// that [`Reply::aborted`] builds.
    pub fn operation_aborted(
        failed_at: usize,
        reason: OperationFailureReason,
        per_operation: NonEmpty<SubReply<ReplyPayload>>,
    ) -> (reply: Self)
        ensures
            reply == (Reply::Accepted {
                outcome: AcceptedOutcome::OperationAborted { failed_at, reason },
                per_operation,
            }),
    {
        Self::aborted(failed_at, reason, per_operation)
    }

    /// A reply aborted as a whole by the execution engine.
    pub fn batch_aborted(
        reason: BatchFailureReason,
        retry: RetryClassification,
        commit: CommitStatus,
        per_operation: NonEmpty<SubReply<ReplyPayload>>,
    ) -> (reply: Self)
        ensures
            reply == (Reply::Accepted {
                outcome: AcceptedOutcome::BatchAborted { reason, retry, commit },
                per_operation,
            }),
    {
        Reply::Accepted {
            outcome: AcceptedOutcome::BatchAborted { reason, retry, commit },
            per_operation,
        }
    }

    /// A rejection before any operation ran.
    pub fn rejected(reason: RequestRejectionReason) -> (reply: Self)
        ensures
            reply == (Reply::Rejected::<ReplyPayload> { reason }),
    {
        Reply::Rejected { reason }
    }
}

/// Tells a fully committed reply from an aborted one.
#[derive(Debug, Clone, PartialEq, Eq, Structural)]
pub enum AcceptedOutcome {
    /// Every operation in the request committed.
    Committed,
    /// The operation at `failed_at` failed and the request aborted.
    OperationAborted { failed_at: usize, reason: OperationFailureReason },
    /// The execution engine aborted the request as a whole.
    BatchAborted { reason: BatchFailureReason, retry: RetryClassification, commit: CommitStatus },
}

/// Why a request was rejected before any operation ran.
#[derive(Debug, Clone, Copy, PartialEq, Eq, Structural)]
pub enum RequestRejectionReason {
    /// Receiver-internal failure before any operation ran, engine-level
    /// infrastructure failure included.
    Internal,
}

impl RequestRejectionReason {
    /// The human-readable description of the reason.
    pub fn message(&self) -> (text: String)
        ensures
            text@ == "receiver-internal pre-execution or infrastructure failure"@,
    {
        String::from_str("receiver-internal pre-execution or infrastructure failure")
    }
}

/// Why an operation failed during execution.
#[derive(Debug, Clone, Copy, PartialEq, Eq, Structural)]
pub enum OperationFailureReason {
    /// The contract's domain rejected the operation; the typed contract
    /// reply rides in the failed sub-reply's detail.
    DomainRejection,
}

/// Why the execution engine aborted a whole request.
#[derive(Debug, Clone, Copy, PartialEq, Eq, Structural)]
pub enum BatchFailureReason {
    EngineUnavailable,
    EngineRejected,
}

/// Whether retrying an aborted request may succeed.
#[derive(Debug, Clone, Copy, PartialEq, Eq, Structural)]
pub enum RetryClassification {
    Retryable,
    Unknown,
}

/// What is known of the commit of an aborted request.
#[derive(Debug, Clone, Copy, PartialEq, Eq, Structural)]
pub enum CommitStatus {
    NotCommitted,
    Unknown,
}

/// Projection of an engine failure into wire-safe batch abort metadata.
pub trait BatchErrorClassification {
    fn batch_failure_reason(&self) -> BatchFailureReason;

    fn retry_classification(&self) -> RetryClassification;

    fn commit_status(&self) -> CommitStatus;
}

/// Per-operation reply.
#[derive(Debug, Clone, PartialEq, Eq)]
pub enum SubReply<ReplyPayload> {
    /// The operation ran and committed.
    Completed(ReplyPayload),
    /// The operation was admitted but contributed nothing durable because
    /// the request as a whole aborted.
    Invalidated,
    /// The operation was attempted and failed; the cause of the abort.
    Failed { reason: OperationFailureReason, detail: Option<ReplyPayload> },
    /// The operation never ran because an earlier one failed.
    Skipped,
}

} // verus!
