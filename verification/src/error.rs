//! The reasons for which an operation is refused.

use vstd::prelude::*;

verus! {

/// Why an operation was refused. A refused operation changes nothing.
#[derive(Clone, Copy, Debug, PartialEq, Eq, Structural)]
pub enum TaskError {
    /// The instruction bytes are not in the wire format.
    DecodeError,
    /// Fewer collaborator handles were given than the operation takes.
    NotEnoughAccounts,
    /// The handle in the clock's position does not report a time.
    ClockUnavailable,
    /// The record's storage slot does not hold a task record.
    RecordUnavailable,
    /// The record's storage slot is not controlled by this protocol.
    OwnershipError,
    /// The party that must sign the operation has not signed it.
    Unauthorized,
    /// The task is not in the phase that the operation needs.
    PhaseMismatch,
    /// The deadline of the current phase has been reached.
    DeadlineExpired,
    /// The voting deadline does not pass the guard against the current time.
    NotFutureDeadline,
    /// The stake pot that was handed in is not the one of the task.
    StakePotMismatch,
    /// The voter or the candidate has made no submission.
    UnknownParticipant,
    /// The voter has voted before.
    DuplicateVote,
    /// The stake collected would no longer fit in 64 bits.
    StakeOverflow,
    /// The storage slot for a new record could not be allocated.
    AllocationFailure,
    /// The transfer of the stake was rejected.
    TransferFailure,
    /// The operation is declared but has no handler.
    UnsupportedOperation,
}

} // verus!
