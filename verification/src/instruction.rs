//! The operations of the protocol and their wire format.

use crate::error::TaskError;
use crate::identity::Identity;
use crate::wire::{
    framed_text, identity_of, le_i64, le_u32, le_u64, read_i64, read_identity, read_text, read_u32,
    read_u64,
};
use vstd::prelude::*;

verus! {

/// An operation on a task.
#[derive(Clone, Debug, PartialEq, Eq)]
pub enum TaskInstruction {
    /// Creates a task; the caller becomes its manager.
    CreateTask {
        task_audit_program: String,
        stake_amount: u64,
        deadline: i64,
        stake_pot_account: Identity,
    },
    /// Submits a candidate solution and stakes the task's stake amount.
    SubmitTask(String),
    /// Withdraws a submission. Declared, without a handler.
    WithdrawSubmission,
    /// Closes submissions and opens voting until the given deadline.
    SetTaskToVoting(i64),
    /// Votes for a submission.
    Vote,
    /// Pays the pot out to the winning submission. Declared, without a
    /// handler.
    Payout,
}

/// The mathematical model of an operation.
pub enum Operation {
    CreateTask { audit_program: Seq<char>, stake_amount: u64, deadline: i64, stake_pot: Identity },
    SubmitTask(Seq<char>),
    WithdrawSubmission,
    SetTaskToVoting(i64),
    Vote,
    Payout,
}

impl View for TaskInstruction {
    type V = Operation;

    open spec fn view(&self) -> Operation {
        match *self {
            TaskInstruction::CreateTask {
                task_audit_program,
                stake_amount,
                deadline,
                stake_pot_account,
            } => Operation::CreateTask {
                audit_program: task_audit_program@,
                stake_amount,
                deadline,
                stake_pot: stake_pot_account,
            },
            TaskInstruction::SubmitTask(submission) => Operation::SubmitTask(submission@),
            TaskInstruction::WithdrawSubmission => Operation::WithdrawSubmission,
            TaskInstruction::SetTaskToVoting(deadline) => Operation::SetTaskToVoting(deadline),
            TaskInstruction::Vote => Operation::Vote,
            TaskInstruction::Payout => Operation::Payout,
        }
    }
}

/// The number of bytes that follow the text of a `CreateTask` payload: the
/// stake amount, the deadline and the stake pot.
pub const CREATE_TAIL: usize = 48;

/// The operation that a payload encodes, or `None` where it encodes none. A
/// payload is one byte that tells the operation, then the operation's fields in
/// order and nothing more: text as a frame, integers in eight bytes
/// little-endian, an identity as its 32 bytes.
pub open spec fn parsed(input: Seq<u8>) -> Option<Operation> {
    if input.len() == 0 {
        None
    } else if input[0] == 0 {
        let body = input.len() - CREATE_TAIL;
        if input.len() >= 5 + CREATE_TAIL && le_u32(input.subrange(1, 5)) == body - 5 {
            match framed_text(input.subrange(1, body)) {
                Some(audit_program) => Some(
                    Operation::CreateTask {
                        audit_program,
                        stake_amount: le_u64(input.subrange(body, body + 8)) as u64,
                        deadline: le_i64(input.subrange(body + 8, body + 16)) as i64,
                        stake_pot: identity_of(input.subrange(body + 16, body + 48)),
                    },
                ),
                None => None,
            }
        } else {
            None
        }
    } else if input[0] == 1 {
        match framed_text(input.skip(1)) {
            Some(submission) => Some(Operation::SubmitTask(submission)),
            None => None,
        }
    } else if input[0] == 2 {
        if input.len() == 1 {
            Some(Operation::WithdrawSubmission)
        } else {
            None
        }
    } else if input[0] == 3 {
        if input.len() == 9 {
            Some(Operation::SetTaskToVoting(le_i64(input.subrange(1, 9)) as i64))
        } else {
            None
        }
    } else if input[0] == 4 {
        if input.len() == 1 {
            Some(Operation::Vote)
        } else {
            None
        }
    } else if input[0] == 5 {
        if input.len() == 1 {
            Some(Operation::Payout)
        } else {
            None
        }
    } else {
        None
    }
}

impl TaskInstruction {
    /// Decodes a payload. It yields the operation that the payload encodes,
    /// and `DecodeError` where it encodes none.
    pub fn try_from_slice(input: &[u8]) -> (r: Result<TaskInstruction, TaskError>)
        ensures
            match r {
                Ok(instruction) => parsed(input@) == Some(instruction@),
                Err(e) => e == TaskError::DecodeError && parsed(input@).is_none(),
            },
    {
        let n = input.len();
        if n == 0 {
            return Err(TaskError::DecodeError);
        }
        let tag = input[0];
        if tag == 0 {
            if n < 5 + CREATE_TAIL {
                return Err(TaskError::DecodeError);
            }
            let body = n - CREATE_TAIL;
            let text_len = read_u32(input, 1);
            if text_len as usize != body - 5 {
                return Err(TaskError::DecodeError);
            }
            match read_text(input, 1, body) {
                Some(task_audit_program) => Ok(
                    TaskInstruction::CreateTask {
                        task_audit_program,
                        stake_amount: read_u64(input, body),
                        deadline: read_i64(input, body + 8),
                        stake_pot_account: read_identity(input, body + 16),
                    },
                ),
                None => Err(TaskError::DecodeError),
            }
        } else if tag == 1 {
            proof {
                assert(input@.skip(1) =~= input@.subrange(1, n as int));
            }
            match read_text(input, 1, n) {
                Some(submission) => Ok(TaskInstruction::SubmitTask(submission)),
                None => Err(TaskError::DecodeError),
            }
        } else if tag == 2 {
            if n == 1 {
                Ok(TaskInstruction::WithdrawSubmission)
            } else {
                Err(TaskError::DecodeError)
            }
        } else if tag == 3 {
            if n == 9 {
                Ok(TaskInstruction::SetTaskToVoting(read_i64(input, 1)))
            } else {
                Err(TaskError::DecodeError)
            }
        } else if tag == 4 {
            if n == 1 {
                Ok(TaskInstruction::Vote)
            } else {
                Err(TaskError::DecodeError)
            }
        } else if tag == 5 {
            if n == 1 {
                Ok(TaskInstruction::Payout)
            } else {
                Err(TaskError::DecodeError)
            }
        } else {
            Err(TaskError::DecodeError)
        }
    }
}

} // verus!
