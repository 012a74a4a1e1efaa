//! The handlers of the operations: which collaborator handles each one takes,
//! what it checks before it touches the record, and what it asks of the
//! outside world.

use crate::error::TaskError;
use crate::identity::Identity;
use crate::instruction::{parsed, Operation, TaskInstruction};
use crate::state::{created, submitted, voted, TaskRecord, TaskState, TaskStatus};
use vstd::prelude::*;

verus! {

/// What a handler reads of a collaborator handle.
#[derive(Clone, Copy, Debug, PartialEq, Eq)]
pub struct AccountView {
    /// The identity of the account.
    pub key: Identity,
    /// The program that controls the account.
    pub owner: Identity,
    /// Whether the account has signed the operation.
    pub is_signer: bool,
    /// The current time, where the account is the clock.
    pub clock: Option<i64>,
}

/// What the outside world must do before the new record may be stored.
#[derive(Clone, Copy, Debug, PartialEq, Eq)]
pub enum Effect {
    /// Nothing.
    Nothing,
    /// Allocate the storage slot `slot` for a record, paid by `payer` and
    /// controlled by `owner`.
    Allocate { payer: Identity, slot: Identity, owner: Identity },
    /// Move `amount` from `from` to `to`.
    Transfer { from: Identity, to: Identity, amount: u64 },
}

/// The result of an operation that passed all checks: the record as it is to
/// be stored, the position of the handle under which to store it, and the
/// effect that must succeed first.
#[derive(Debug, PartialEq, Eq)]
pub struct Transition {
    pub record: TaskState,
    pub slot: usize,
    pub effect: Effect,
}

/// The mathematical model of a transition.
pub struct Step {
    pub record: TaskRecord,
    pub slot: usize,
    pub effect: Effect,
}

impl View for Transition {
    type V = Step;

    open spec fn view(&self) -> Step {
        Step { record: self.record@, slot: self.slot, effect: self.effect }
    }
}

/// The model of the record that a storage slot holds, if it holds one.
pub open spec fn held(record: Option<TaskState>) -> Option<TaskRecord> {
    match record {
        Some(task) => Some(task@),
        None => None,
    }
}

/// What `CreateTask` yields. Its handles are the manager, the fresh storage
/// slot and the allocator.
pub open spec fn create_task_step(
    program_id: Identity,
    accounts: Seq<AccountView>,
    audit_program: Seq<char>,
    stake_amount: u64,
    deadline: i64,
    stake_pot: Identity,
) -> Result<Step, TaskError> {
    if accounts.len() < 3 {
        Err(TaskError::NotEnoughAccounts)
    } else {
        Ok(
            Step {
                record: created(accounts[0].key, audit_program, stake_amount, deadline, stake_pot),
                slot: 1,
                effect: Effect::Allocate {
                    payer: accounts[0].key,
                    slot: accounts[1].key,
                    owner: program_id,
                },
            },
        )
    }
}

/// What `SubmitTask` yields. Its handles are the storage slot, the submitter,
/// the stake pot and the clock.
pub open spec fn submit_task_step(
    program_id: Identity,
    accounts: Seq<AccountView>,
    record: Option<TaskRecord>,
    submission: Seq<char>,
) -> Result<Step, TaskError> {
    if accounts.len() < 4 {
        Err(TaskError::NotEnoughAccounts)
    } else if accounts[3].clock.is_none() {
        Err(TaskError::ClockUnavailable)
    } else if accounts[0].owner != program_id {
        Err(TaskError::OwnershipError)
    } else if record.is_none() {
        Err(TaskError::RecordUnavailable)
    } else {
        match submitted(
            record.unwrap(),
            accounts[1].key,
            accounts[2].key,
            accounts[3].clock.unwrap(),
            submission,
        ) {
            Ok(next) => Ok(
                Step {
                    record: next,
                    slot: 0,
                    effect: Effect::Transfer {
                        from: accounts[1].key,
                        to: accounts[2].key,
                        amount: record.unwrap().stake_amount,
                    },
                },
            ),
            Err(e) => Err(e),
        }
    }
}

/// What `SetTaskToVoting` yields. Its handles are the storage slot, the
/// signing manager and the clock. The deadline passes the guard only where
/// the current time is greater than it; the phase that the task is in and the
/// identity of the signer are not looked at.
pub open spec fn start_voting_step(
    program_id: Identity,
    accounts: Seq<AccountView>,
    record: Option<TaskRecord>,
    deadline: i64,
) -> Result<Step, TaskError> {
    if accounts.len() < 3 {
        Err(TaskError::NotEnoughAccounts)
    } else if accounts[2].clock.is_none() {
        Err(TaskError::ClockUnavailable)
    } else if accounts[2].clock.unwrap() <= deadline {
        Err(TaskError::NotFutureDeadline)
    } else if accounts[0].owner != program_id {
        Err(TaskError::OwnershipError)
    } else if record.is_none() {
        Err(TaskError::RecordUnavailable)
    } else if !accounts[1].is_signer {
        Err(TaskError::Unauthorized)
    } else {
        Ok(
            Step {
                record: TaskRecord { status: TaskStatus::Voting(deadline), ..record.unwrap() },
                slot: 0,
                effect: Effect::Nothing,
            },
        )
    }
}

/// What `Vote` yields. Its handles are the storage slot, the voter, the
/// candidate and the clock.
pub open spec fn vote_step(
    program_id: Identity,
    accounts: Seq<AccountView>,
    record: Option<TaskRecord>,
) -> Result<Step, TaskError> {
    if accounts.len() < 4 {
        Err(TaskError::NotEnoughAccounts)
    } else if accounts[3].clock.is_none() {
        Err(TaskError::ClockUnavailable)
    } else if accounts[0].owner != program_id {
        Err(TaskError::OwnershipError)
    } else if record.is_none() {
        Err(TaskError::RecordUnavailable)
    } else {
        match voted(record.unwrap(), accounts[1].key, accounts[2].key, accounts[3].clock.unwrap()) {
            Ok(next) => Ok(Step { record: next, slot: 0, effect: Effect::Nothing }),
            Err(e) => Err(e),
        }
    }
}

/// What an operation yields.
pub open spec fn operation_step(
    program_id: Identity,
    accounts: Seq<AccountView>,
    record: Option<TaskRecord>,
    operation: Operation,
) -> Result<Step, TaskError> {
    match operation {
        Operation::CreateTask { audit_program, stake_amount, deadline, stake_pot } => create_task_step(
            program_id,
            accounts,
            audit_program,
            stake_amount,
            deadline,
            stake_pot,
        ),
        Operation::SubmitTask(submission) => submit_task_step(program_id, accounts, record, submission),
        Operation::SetTaskToVoting(deadline) => start_voting_step(program_id, accounts, record, deadline),
        Operation::Vote => vote_step(program_id, accounts, record),
        Operation::WithdrawSubmission => Err(TaskError::UnsupportedOperation),
        Operation::Payout => Err(TaskError::UnsupportedOperation),
    }
}

/// What a payload yields: `DecodeError` where it encodes no operation, else
/// what the operation yields.
pub open spec fn instruction_step(
    program_id: Identity,
    accounts: Seq<AccountView>,
    record: Option<TaskRecord>,
    input: Seq<u8>,
) -> Result<Step, TaskError> {
    match parsed(input) {
        Some(operation) => operation_step(program_id, accounts, record, operation),
        None => Err(TaskError::DecodeError),
    }
}

/// What becomes of a step once the outside world has tried its effect: the
/// record to store where the effect succeeded or there was none, else the
/// failure of the effect.
pub open spec fn settled(step: Step, performed: bool) -> Result<TaskRecord, TaskError> {
    match step.effect {
        Effect::Nothing => Ok(step.record),
        Effect::Allocate { .. } => if performed {
            Ok(step.record)
        } else {
            Err(TaskError::AllocationFailure)
        },
        Effect::Transfer { .. } => if performed {
            Ok(step.record)
        } else {
            Err(TaskError::TransferFailure)
        },
    }
}

impl Transition {
    /// Ends the operation once the effect has been tried. It hands out the
    /// record to store only where the effect succeeded.
    pub fn commit(self, performed: bool) -> (r: Result<TaskState, TaskError>)
        ensures
            match r {
                Ok(record) => settled(self@, performed) == Ok::<TaskRecord, TaskError>(record@)
                    && record == self.record,
                Err(e) => settled(self@, performed) == Err::<TaskRecord, TaskError>(e),
            },
    {
        match self.effect {
            Effect::Nothing => Ok(self.record),
            Effect::Allocate { .. } => if performed {
                Ok(self.record)
            } else {
                Err(TaskError::AllocationFailure)
            },
            Effect::Transfer { .. } => if performed {
                Ok(self.record)
            } else {
                Err(TaskError::TransferFailure)
            },
        }
    }
}

/// The handlers of the protocol.
pub struct Processor {}

impl Processor {
    /// Decodes a payload and handles the operation that it encodes.
    /// `accounts` are the collaborator handles in the order that the operation
    /// takes them, and `record` is what the storage slot, the first handle of
    /// every operation but `CreateTask`, holds.
    pub fn process_instruction(
        program_id: &Identity,
        accounts: &[AccountView],
        record: Option<TaskState>,
        input: &[u8],
    ) -> (r: Result<Transition, TaskError>)
        ensures
            match r {
                Ok(transition) => instruction_step(*program_id, accounts@, held(record), input@) == Ok::<
                    Step,
                    TaskError,
                >(transition@),
                Err(e) => instruction_step(*program_id, accounts@, held(record), input@) == Err::<
                    Step,
                    TaskError,
                >(e),
            },
    {
        let instruction = match TaskInstruction::try_from_slice(input) {
            Ok(instruction) => instruction,
            Err(e) => {
                return Err(e);
            },
        };
        match instruction {
            TaskInstruction::CreateTask {
                task_audit_program,
                stake_amount,
                deadline,
                stake_pot_account,
            } => Self::process_create_task(
                program_id,
                accounts,
                task_audit_program,
                stake_amount,
                deadline,
                stake_pot_account,
            ),
            TaskInstruction::SubmitTask(submission) => Self::process_submit_task(
                program_id,
                accounts,
                record,
                submission,
            ),
            TaskInstruction::SetTaskToVoting(deadline) => Self::process_start_voting(
                program_id,
                accounts,
                record,
                deadline,
            ),
            TaskInstruction::Vote => Self::process_vote(program_id, accounts, record),
            TaskInstruction::Payout => Self::process_payout(program_id, accounts),
            TaskInstruction::WithdrawSubmission => Err(TaskError::UnsupportedOperation),
        }
    }

    /// Creates a task in the phase of accepting submissions, managed by the
    /// first handle, and asks for the storage slot to be allocated.
    pub fn process_create_task(
        program_id: &Identity,
        accounts: &[AccountView],
        task_audit_program: String,
        stake_amount: u64,
        deadline: i64,
        stake_pot_account: Identity,
    ) -> (r: Result<Transition, TaskError>)
        ensures
            match r {
                Ok(transition) => create_task_step(
                    *program_id,
                    accounts@,
                    task_audit_program@,
                    stake_amount,
                    deadline,
                    stake_pot_account,
                ) == Ok::<Step, TaskError>(transition@),
                Err(e) => create_task_step(
                    *program_id,
                    accounts@,
                    task_audit_program@,
                    stake_amount,
                    deadline,
                    stake_pot_account,
                ) == Err::<Step, TaskError>(e),
            },
    {
        if accounts.len() < 3 {
            return Err(TaskError::NotEnoughAccounts);
        }
        let manager = accounts[0].key;
        let slot = accounts[1].key;
        let record = TaskState::new(
            manager,
            task_audit_program,
            stake_amount,
            deadline,
            stake_pot_account,
        );
        Ok(
            Transition {
                record,
                slot: 1,
                effect: Effect::Allocate { payer: manager, slot, owner: *program_id },
            },
        )
    }

    /// Adds a submission to a task that accepts submissions, and asks for the
    /// stake to be moved from the submitter to the stake pot.
    pub fn process_submit_task(
        program_id: &Identity,
        accounts: &[AccountView],
        record: Option<TaskState>,
        submission: String,
    ) -> (r: Result<Transition, TaskError>)
        ensures
            match r {
                Ok(transition) => submit_task_step(*program_id, accounts@, held(record), submission@)
                    == Ok::<Step, TaskError>(transition@),
                Err(e) => submit_task_step(*program_id, accounts@, held(record), submission@) == Err::<
                    Step,
                    TaskError,
                >(e),
            },
    {
        if accounts.len() < 4 {
            return Err(TaskError::NotEnoughAccounts);
        }
        let submitter = accounts[1].key;
        let stake_pot = accounts[2].key;
        let now = match accounts[3].clock {
            Some(now) => now,
            None => {
                return Err(TaskError::ClockUnavailable);
            },
        };
        match Self::check_account_owner(&accounts[0], program_id) {
            Ok(()) => {},
            Err(e) => {
                return Err(e);
            },
        }
        let mut task = match record {
            Some(task) => task,
            None => {
                return Err(TaskError::RecordUnavailable);
            },
        };
        let amount = task.stake_amount;
        match task.submit(submitter, &stake_pot, now, submission) {
            Ok(()) => Ok(
                Transition {
                    record: task,
                    slot: 0,
                    effect: Effect::Transfer { from: submitter, to: stake_pot, amount },
                },
            ),
            Err(e) => Err(e),
        }
    }

    /// Puts a task into the voting phase with the given deadline.
    pub fn process_start_voting(
        program_id: &Identity,
        accounts: &[AccountView],
        record: Option<TaskState>,
        deadline: i64,
    ) -> (r: Result<Transition, TaskError>)
        ensures
            match r {
                Ok(transition) => start_voting_step(*program_id, accounts@, held(record), deadline)
                    == Ok::<Step, TaskError>(transition@),
                Err(e) => start_voting_step(*program_id, accounts@, held(record), deadline) == Err::<
                    Step,
                    TaskError,
                >(e),
            },
    {
        if accounts.len() < 3 {
            return Err(TaskError::NotEnoughAccounts);
        }
        let now = match accounts[2].clock {
            Some(now) => now,
            None => {
                return Err(TaskError::ClockUnavailable);
            },
        };
        if now <= deadline {
            return Err(TaskError::NotFutureDeadline);
        }
        match Self::check_account_owner(&accounts[0], program_id) {
            Ok(()) => {},
            Err(e) => {
                return Err(e);
            },
        }
        let mut task = match record {
            Some(task) => task,
            None => {
                return Err(TaskError::RecordUnavailable);
            },
        };
        if !accounts[1].is_signer {
            return Err(TaskError::Unauthorized);
        }
        task.status = TaskStatus::Voting(deadline);
        Ok(Transition { record: task, slot: 0, effect: Effect::Nothing })
    }

    /// Adds the vote of the second handle for the third to a task in the
    /// voting phase.
    pub fn process_vote(program_id: &Identity, accounts: &[AccountView], record: Option<TaskState>) -> (r:
        Result<Transition, TaskError>)
        ensures
            match r {
                Ok(transition) => vote_step(*program_id, accounts@, held(record)) == Ok::<
                    Step,
                    TaskError,
                >(transition@),
                Err(e) => vote_step(*program_id, accounts@, held(record)) == Err::<Step, TaskError>(e),
            },
    {
        if accounts.len() < 4 {
            return Err(TaskError::NotEnoughAccounts);
        }
        let voter = accounts[1].key;
        let candidate = accounts[2].key;
        let now = match accounts[3].clock {
            Some(now) => now,
            None => {
                return Err(TaskError::ClockUnavailable);
            },
        };
        match Self::check_account_owner(&accounts[0], program_id) {
            Ok(()) => {},
            Err(e) => {
                return Err(e);
            },
        }
        let mut task = match record {
            Some(task) => task,
            None => {
                return Err(TaskError::RecordUnavailable);
            },
        };
        match task.vote(voter, candidate, now) {
            Ok(()) => Ok(Transition { record: task, slot: 0, effect: Effect::Nothing }),
            Err(e) => Err(e),
        }
    }

    /// Refuses the payout: how the winner is chosen and the pot shared out is
    /// not defined.
    pub fn process_payout(_program_id: &Identity, _accounts: &[AccountView]) -> (r: Result<
        Transition,
        TaskError,
    >)
        ensures
            r == Err::<Transition, TaskError>(TaskError::UnsupportedOperation),
    {
        Err(TaskError::UnsupportedOperation)
    }

    /// Checks that the account is controlled by the given program.
    pub fn check_account_owner(account_info: &AccountView, program_id: &Identity) -> (r: Result<
        (),
        TaskError,
    >)
        ensures
            r == if account_info.owner == *program_id {
                Ok::<(), TaskError>(())
            } else {
                Err::<(), TaskError>(TaskError::OwnershipError)
            },
    {
        if program_id.same(&account_info.owner) {
            Ok(())
        } else {
            Err(TaskError::OwnershipError)
        }
    }
}

} // verus!
