//! The task record, its mathematical model, and the transitions that act on
//! the record alone.

use crate::error::TaskError;
use crate::identity::Identity;
use crate::registry::IdentityMap;
use vstd::prelude::*;

verus! {

/// The phase of a task, with the deadline of the phase where it has one.
#[derive(Clone, Copy, Debug, PartialEq, Eq, Structural)]
pub enum TaskStatus {
    /// Submissions are accepted until the deadline.
    AcceptingSubmissions(i64),
    /// Submitters may vote until the deadline.
    Voting(i64),
    /// The bounty has been paid out.
    Completed,
    /// The task has been cancelled.
    Cancelled,
}

/// The state of one task.
#[derive(Clone, Debug, PartialEq, Eq)]
pub struct TaskState {
    /// The party that created the task.
    pub task_manager: Identity,
    /// A reference to the audit program, which is stored elsewhere.
    pub task_audit_program: String,
    /// The account that holds the stakes.
    pub stake_pot_account: Identity,
    /// The submission of each submitter.
    pub submissions: IdentityMap<String>,
    /// The candidate that each voter voted for.
    pub votes: IdentityMap<Identity>,
    /// The stake that each submission costs.
    pub stake_amount: u64,
    /// The stake collected so far.
    pub total_stake_amount: u64,
    /// The phase of the task.
    pub status: TaskStatus,
}

/// The mathematical model of a task record.
pub struct TaskRecord {
    pub manager: Identity,
    pub audit_program: Seq<char>,
    pub stake_pot: Identity,
    pub submissions: Map<Identity, Seq<char>>,
    pub votes: Map<Identity, Identity>,
    pub stake_amount: u64,
    pub total_stake_amount: u64,
    pub status: TaskStatus,
}

impl View for TaskState {
    type V = TaskRecord;

    open spec fn view(&self) -> TaskRecord {
        TaskRecord {
            manager: self.task_manager,
            audit_program: self.task_audit_program@,
            stake_pot: self.stake_pot_account,
            submissions: self.submissions@.map_values(|s: String| s@),
            votes: self.votes@,
            stake_amount: self.stake_amount,
            total_stake_amount: self.total_stake_amount,
            status: self.status,
        }
    }
}

/// The record of a task that has just been created.
pub open spec fn created(
    manager: Identity,
    audit_program: Seq<char>,
    stake_amount: u64,
    deadline: i64,
    stake_pot: Identity,
) -> TaskRecord {
    TaskRecord {
        manager,
        audit_program,
        stake_pot,
        submissions: Map::empty(),
        votes: Map::empty(),
        stake_amount,
        total_stake_amount: 0,
        status: TaskStatus::AcceptingSubmissions(deadline),
    }
}

/// What a submission by `submitter` at the time `now` does to a record: the
/// record with the submission and the stake added, or the reason for which it
/// is refused.
pub open spec fn submitted(
    record: TaskRecord,
    submitter: Identity,
    stake_pot: Identity,
    now: i64,
    submission: Seq<char>,
) -> Result<TaskRecord, TaskError> {
    match record.status {
        TaskStatus::AcceptingSubmissions(deadline) => {
            if now >= deadline {
                Err(TaskError::DeadlineExpired)
            } else if stake_pot != record.stake_pot {
                Err(TaskError::StakePotMismatch)
            } else if record.total_stake_amount + record.stake_amount > u64::MAX {
                Err(TaskError::StakeOverflow)
            } else {
                Ok(
                    TaskRecord {
                        submissions: record.submissions.insert(submitter, submission),
                        total_stake_amount: (record.total_stake_amount + record.stake_amount) as u64,
                        ..record
                    },
                )
            }
        },
        _ => Err(TaskError::PhaseMismatch),
    }
}

/// What a vote by `voter` for `candidate` at the time `now` does to a record:
/// the record with the vote added, or the reason for which it is refused.
pub open spec fn voted(record: TaskRecord, voter: Identity, candidate: Identity, now: i64) -> Result<
    TaskRecord,
    TaskError,
> {
    match record.status {
        TaskStatus::Voting(deadline) => {
            if now >= deadline {
                Err(TaskError::DeadlineExpired)
            } else if !record.submissions.contains_key(voter) {
                Err(TaskError::UnknownParticipant)
            } else if !record.submissions.contains_key(candidate) {
                Err(TaskError::UnknownParticipant)
            } else if record.votes.contains_key(voter) {
                Err(TaskError::DuplicateVote)
            } else {
                Ok(TaskRecord { votes: record.votes.insert(voter, candidate), ..record })
            }
        },
        _ => Err(TaskError::PhaseMismatch),
    }
}

impl TaskState {
    /// A new task in the phase of accepting submissions, with no submission,
    /// no vote and no stake collected.
    pub fn new(
        task_manager: Identity,
        task_audit_program: String,
        stake_amount: u64,
        deadline: i64,
        stake_pot_account: Identity,
    ) -> (task: TaskState)
        ensures
            task@ == created(
                task_manager,
                task_audit_program@,
                stake_amount,
                deadline,
                stake_pot_account,
            ),
    {
        let task = TaskState {
            task_manager,
            task_audit_program,
            stake_pot_account,
            submissions: IdentityMap::new(),
            votes: IdentityMap::new(),
            stake_amount,
            total_stake_amount: 0,
            status: TaskStatus::AcceptingSubmissions(deadline),
        };
        assert(task@.submissions =~= Map::empty());
        task
    }

    /// Records the submission of `submitter` and the stake paid for it. The
    /// task must be accepting submissions, the time before the deadline, and
    /// the stake pot the one of the task. A refused submission leaves the
    /// record as it was.
    pub fn submit(&mut self, submitter: Identity, stake_pot: &Identity, now: i64, submission: String) -> (r:
        Result<(), TaskError>)
        ensures
            match r {
                Ok(()) => submitted(old(self)@, submitter, *stake_pot, now, submission@) == Ok::<
                    TaskRecord,
                    TaskError,
                >(final(self)@),
                Err(e) => submitted(old(self)@, submitter, *stake_pot, now, submission@) == Err::<
                    TaskRecord,
                    TaskError,
                >(e) && *final(self) == *old(self),
            },
    {
        match self.status {
            TaskStatus::AcceptingSubmissions(deadline) => {
                if now >= deadline {
                    return Err(TaskError::DeadlineExpired);
                }
            },
            _ => {
                return Err(TaskError::PhaseMismatch);
            },
        }
        if !stake_pot.same(&self.stake_pot_account) {
            return Err(TaskError::StakePotMismatch);
        }
        if self.stake_amount > u64::MAX - self.total_stake_amount {
            return Err(TaskError::StakeOverflow);
        }
        self.total_stake_amount = self.total_stake_amount + self.stake_amount;
        self.submissions.insert(submitter, submission);
        proof {
            assert(final(self)@.submissions =~= old(self)@.submissions.insert(submitter, submission@));
        }
        Ok(())
    }

    /// Records the vote of `voter` for `candidate`. The task must be in the
    /// voting phase, the time before the deadline, both parties submitters,
    /// and the voter without a vote so far. A refused vote leaves the record
    /// as it was.
    pub fn vote(&mut self, voter: Identity, candidate: Identity, now: i64) -> (r: Result<(), TaskError>)
        ensures
            match r {
                Ok(()) => voted(old(self)@, voter, candidate, now) == Ok::<TaskRecord, TaskError>(
                    final(self)@,
                ),
                Err(e) => voted(old(self)@, voter, candidate, now) == Err::<TaskRecord, TaskError>(e)
                    && *final(self) == *old(self),
            },
    {
        match self.status {
            TaskStatus::Voting(deadline) => {
                if now >= deadline {
                    return Err(TaskError::DeadlineExpired);
                }
            },
            _ => {
                return Err(TaskError::PhaseMismatch);
            },
        }
        if !self.submissions.contains_key(&voter) {
            return Err(TaskError::UnknownParticipant);
        }
        if !self.submissions.contains_key(&candidate) {
            return Err(TaskError::UnknownParticipant);
        }
        if self.votes.contains_key(&voter) {
            return Err(TaskError::DuplicateVote);
        }
        self.votes.insert(voter, candidate);
        Ok(())
    }
}

} // verus!
