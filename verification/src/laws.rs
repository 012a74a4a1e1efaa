//! What holds of the transitions of a task record, whatever the inputs.

use crate::error::TaskError;
use crate::identity::Identity;
use crate::instruction::Operation;
use crate::processor::{operation_step, submit_task_step, vote_step, AccountView, Effect, Step};
use crate::state::{created, submitted, voted, TaskRecord, TaskStatus};
use vstd::prelude::*;

verus! {

/// The stake collected is the stake of one submission times the number of
/// submitters.
pub open spec fn balanced(record: TaskRecord) -> bool {
    &&& record.submissions.dom().finite()
    &&& record.total_stake_amount == record.stake_amount * record.submissions.len()
}

/// One call of the submit operation.
pub struct Submission {
    pub submitter: Identity,
    pub stake_pot: Identity,
    pub now: i64,
    pub payload: Seq<char>,
}

/// What a run of submissions, one after the other, does to a record: the last
/// record, or the reason for which the first refused submission was refused.
pub open spec fn submitted_all(record: TaskRecord, calls: Seq<Submission>) -> Result<TaskRecord, TaskError>
    decreases calls.len(),
{
    if calls.len() == 0 {
        Ok(record)
    } else {
        match submitted_all(record, calls.drop_last()) {
            Ok(before) => submitted(
                before,
                calls.last().submitter,
                calls.last().stake_pot,
                calls.last().now,
                calls.last().payload,
            ),
            Err(e) => Err(e),
        }
    }
}

/// No two calls of a run are made by the same submitter, and none by a
/// submitter of `record`.
pub open spec fn first_submissions(record: TaskRecord, calls: Seq<Submission>) -> bool {
    &&& forall|i: int| 0 <= i < calls.len() ==> !record.submissions.contains_key((#[trigger] calls[i]).submitter)
    &&& forall|i: int, j: int|
        0 <= i < j < calls.len() ==> (#[trigger] calls[i]).submitter != (#[trigger] calls[j]).submitter
}

/// A task that has just been created accepts submissions until its deadline,
/// has no submission and no vote, has collected no stake, and is balanced.
pub proof fn lemma_created_is_empty(
    manager: Identity,
    audit_program: Seq<char>,
    stake_amount: u64,
    deadline: i64,
    stake_pot: Identity,
)
    ensures
        ({
            let record = created(manager, audit_program, stake_amount, deadline, stake_pot);
            &&& record.status == TaskStatus::AcceptingSubmissions(deadline)
            &&& record.submissions == Map::<Identity, Seq<char>>::empty()
            &&& record.votes == Map::<Identity, Identity>::empty()
            &&& record.submissions.len() == 0
            &&& record.votes.len() == 0
            &&& record.total_stake_amount == 0
            &&& record.stake_amount == stake_amount
            &&& record.manager == manager
            &&& record.stake_pot == stake_pot
            &&& balanced(record)
        }),
{
    let record = created(manager, audit_program, stake_amount, deadline, stake_pot);
    assert(record.submissions.dom() =~= Set::<Identity>::empty());
    assert(record.votes.dom() =~= Set::<Identity>::empty());
    assert(record.stake_amount * 0 == 0) by (nonlinear_arith);
}

/// An accepted submission keeps the phase, the stake amount, the manager,
/// the stake pot and the votes, keeps every earlier submitter, maps the
/// submitter to the payload, and adds the stake of one submission to the
/// stake collected.
pub proof fn lemma_submission_effect(
    record: TaskRecord,
    submitter: Identity,
    stake_pot: Identity,
    now: i64,
    payload: Seq<char>,
)
    requires
        submitted(record, submitter, stake_pot, now, payload) is Ok,
    ensures
        ({
            let next = submitted(record, submitter, stake_pot, now, payload)->Ok_0;
            &&& next.status == record.status
            &&& next.stake_amount == record.stake_amount
            &&& next.manager == record.manager
            &&& next.stake_pot == record.stake_pot
            &&& next.audit_program == record.audit_program
            &&& next.votes == record.votes
            &&& next.submissions[submitter] == payload
            &&& forall|p: Identity| #[trigger]
                next.submissions.contains_key(p) <==> p == submitter || record.submissions.contains_key(p)
            &&& forall|p: Identity|
                p != submitter && record.submissions.contains_key(p) ==> #[trigger] next.submissions[p]
                    == record.submissions[p]
            &&& next.total_stake_amount == record.total_stake_amount + record.stake_amount
        }),
{
}

/// An accepted submission by a party that had none keeps a balanced record
/// balanced.
pub proof fn lemma_first_submission_keeps_balance(
    record: TaskRecord,
    submitter: Identity,
    stake_pot: Identity,
    now: i64,
    payload: Seq<char>,
)
    requires
        balanced(record),
        !record.submissions.contains_key(submitter),
        submitted(record, submitter, stake_pot, now, payload) is Ok,
    ensures
        balanced(submitted(record, submitter, stake_pot, now, payload)->Ok_0),
        submitted(record, submitter, stake_pot, now, payload)->Ok_0.submissions.len()
            == record.submissions.len() + 1,
{
    let next = submitted(record, submitter, stake_pot, now, payload)->Ok_0;
    assert(next.submissions.dom() =~= record.submissions.dom().insert(submitter));
    assert(record.stake_amount * (record.submissions.len() + 1) == record.stake_amount
        * record.submissions.len() + record.stake_amount) by (nonlinear_arith);
}

/// An accepted submission by a party that has one already replaces the
/// payload and counts the stake once more: the number of submitters stays,
/// the stake collected grows, and a balanced record with a stake amount above
/// zero is no longer balanced.
pub proof fn lemma_resubmission_counts_again(
    record: TaskRecord,
    submitter: Identity,
    stake_pot: Identity,
    now: i64,
    payload: Seq<char>,
)
    requires
        balanced(record),
        record.submissions.contains_key(submitter),
        submitted(record, submitter, stake_pot, now, payload) is Ok,
    ensures
        ({
            let next = submitted(record, submitter, stake_pot, now, payload)->Ok_0;
            &&& next.submissions.len() == record.submissions.len()
            &&& next.submissions[submitter] == payload
            &&& next.total_stake_amount == record.stake_amount * (next.submissions.len() + 1)
            &&& record.stake_amount > 0 ==> !balanced(next)
        }),
{
    let next = submitted(record, submitter, stake_pot, now, payload)->Ok_0;
    assert(next.submissions.dom() =~= record.submissions.dom());
    assert(record.stake_amount * (record.submissions.len() + 1) == record.stake_amount
        * record.submissions.len() + record.stake_amount) by (nonlinear_arith);
}

/// After every run of accepted submissions, each by a party that had none
/// before, a record that was balanced is balanced, and it has one submitter
/// more for each call.
pub proof fn lemma_submissions_keep_balance(record: TaskRecord, calls: Seq<Submission>)
    requires
        balanced(record),
        first_submissions(record, calls),
        submitted_all(record, calls) is Ok,
    ensures
        balanced(submitted_all(record, calls)->Ok_0),
        submitted_all(record, calls)->Ok_0.submissions.len() == record.submissions.len() + calls.len(),
        submitted_all(record, calls)->Ok_0.stake_amount == record.stake_amount,
        forall|p: Identity| #[trigger]
            submitted_all(record, calls)->Ok_0.submissions.contains_key(p) <==> (
            record.submissions.contains_key(p) || exists|i: int|
                0 <= i < calls.len() && (#[trigger] calls[i]).submitter == p),
    decreases calls.len(),
{
    if calls.len() > 0 {
        let front = calls.drop_last();
        let last = calls.last();
        assert(submitted_all(record, front) is Ok);
        assert forall|i: int| 0 <= i < front.len() implies !record.submissions.contains_key(
            (#[trigger] front[i]).submitter,
        ) by {
            assert(front[i] == calls[i]);
        }
        assert forall|i: int, j: int| 0 <= i < j < front.len() implies (#[trigger] front[i]).submitter != (
        #[trigger] front[j]).submitter by {
            assert(front[i] == calls[i]);
            assert(front[j] == calls[j]);
        }
        lemma_submissions_keep_balance(record, front);
        let before = submitted_all(record, front)->Ok_0;
        if before.submissions.contains_key(last.submitter) {
            assert(calls[calls.len() - 1] == last);
            if !record.submissions.contains_key(last.submitter) {
                let i = choose|i: int| 0 <= i < front.len() && (#[trigger] front[i]).submitter == last.submitter;
                assert(front[i] == calls[i]);
            }
        }
        lemma_first_submission_keeps_balance(before, last.submitter, last.stake_pot, last.now, last.payload);
        let after = submitted_all(record, calls)->Ok_0;
        assert forall|p: Identity| #[trigger]
            after.submissions.contains_key(p) <==> (record.submissions.contains_key(p) || exists|i: int|
                0 <= i < calls.len() && (#[trigger] calls[i]).submitter == p) by {
            if exists|i: int| 0 <= i < front.len() && (#[trigger] front[i]).submitter == p {
                let i = choose|i: int| 0 <= i < front.len() && (#[trigger] front[i]).submitter == p;
                assert(calls[i] == front[i]);
            }
            if exists|i: int| 0 <= i < calls.len() && (#[trigger] calls[i]).submitter == p {
                let i = choose|i: int| 0 <= i < calls.len() && (#[trigger] calls[i]).submitter == p;
                if i < front.len() {
                    assert(front[i] == calls[i]);
                }
            }
            if p == last.submitter {
                assert(calls[calls.len() - 1].submitter == p);
            }
        }
    }
}

/// Every accepted submission is charged, a repeated one too: after a run of
/// accepted submissions the stake collected has grown by the stake of one
/// submission for each call.
pub proof fn lemma_every_submission_is_charged(record: TaskRecord, calls: Seq<Submission>)
    requires
        submitted_all(record, calls) is Ok,
    ensures
        submitted_all(record, calls)->Ok_0.stake_amount == record.stake_amount,
        submitted_all(record, calls)->Ok_0.total_stake_amount == record.total_stake_amount
            + record.stake_amount * calls.len(),
    decreases calls.len(),
{
    if calls.len() > 0 {
        let front = calls.drop_last();
        lemma_every_submission_is_charged(record, front);
        assert(record.stake_amount * (front.len() + 1) == record.stake_amount * front.len()
            + record.stake_amount) by (nonlinear_arith);
    } else {
        assert(record.stake_amount * 0 == 0) by (nonlinear_arith);
    }
}

/// A submission made when the deadline of a task that accepts submissions has
/// been reached is refused as expired.
pub proof fn lemma_late_submission_refused(
    record: TaskRecord,
    submitter: Identity,
    stake_pot: Identity,
    now: i64,
    payload: Seq<char>,
)
    requires
        record.status matches TaskStatus::AcceptingSubmissions(deadline) && now >= deadline,
    ensures
        submitted(record, submitter, stake_pot, now, payload) == Err::<TaskRecord, TaskError>(
            TaskError::DeadlineExpired,
        ),
{
}

/// A vote is accepted exactly where the task is in the voting phase, the time
/// is before its deadline, the voter and the candidate are submitters, and the
/// voter has no vote yet. Each condition that fails first gives its own
/// error.
pub proof fn lemma_vote_accepted_iff(record: TaskRecord, voter: Identity, candidate: Identity, now: i64)
    ensures
        voted(record, voter, candidate, now) is Ok <==> {
            &&& record.status matches TaskStatus::Voting(deadline) && now < deadline
            &&& record.submissions.contains_key(voter)
            &&& record.submissions.contains_key(candidate)
            &&& !record.votes.contains_key(voter)
        },
        voted(record, voter, candidate, now) is Ok ==> voted(record, voter, candidate, now)->Ok_0
            == (TaskRecord { votes: record.votes.insert(voter, candidate), ..record }),
        !(record.status is Voting) ==> voted(record, voter, candidate, now) == Err::<
            TaskRecord,
            TaskError,
        >(TaskError::PhaseMismatch),
        record.status matches TaskStatus::Voting(deadline) && now >= deadline ==> voted(
            record,
            voter,
            candidate,
            now,
        ) == Err::<TaskRecord, TaskError>(TaskError::DeadlineExpired),
        record.status matches TaskStatus::Voting(deadline) && now < deadline && !(
        record.submissions.contains_key(voter) && record.submissions.contains_key(candidate)) ==> voted(
            record,
            voter,
            candidate,
            now,
        ) == Err::<TaskRecord, TaskError>(TaskError::UnknownParticipant),
        record.status matches TaskStatus::Voting(deadline) && now < deadline
            && record.submissions.contains_key(voter) && record.submissions.contains_key(candidate)
            && record.votes.contains_key(voter) ==> voted(record, voter, candidate, now) == Err::<
            TaskRecord,
            TaskError,
        >(TaskError::DuplicateVote),
{
}

/// Once a vote of a voter has been accepted, no further vote of that voter is
/// accepted, for whichever candidate and at whatever time; where the time is
/// still before the deadline and the candidate is a submitter, it is refused
/// as a duplicate.
pub proof fn lemma_second_vote_refused(
    record: TaskRecord,
    voter: Identity,
    candidate: Identity,
    now: i64,
    other: Identity,
    later: i64,
)
    requires
        voted(record, voter, candidate, now) is Ok,
    ensures
        ({
            let next = voted(record, voter, candidate, now)->Ok_0;
            &&& next.votes[voter] == candidate
            &&& voted(next, voter, other, later) is Err
            &&& (next.status matches TaskStatus::Voting(deadline) && later < deadline
                && next.submissions.contains_key(other)) ==> voted(next, voter, other, later) == Err::<
                TaskRecord,
                TaskError,
            >(TaskError::DuplicateVote)
        }),
{
}

/// A party that has a vote in a record is refused every further vote.
pub proof fn lemma_voter_votes_once(record: TaskRecord, voter: Identity, candidate: Identity, now: i64)
    requires
        record.votes.contains_key(voter),
    ensures
        voted(record, voter, candidate, now) is Err,
{
}

/// No accepted submission and no accepted vote removes a submitter or a
/// voter, changes a vote that was cast, or changes the phase.
pub proof fn lemma_nothing_is_removed(
    record: TaskRecord,
    party: Identity,
    other: Identity,
    now: i64,
    payload: Seq<char>,
)
    ensures
        submitted(record, party, other, now, payload) matches Ok(next) ==> {
            &&& record.submissions.dom().subset_of(next.submissions.dom())
            &&& next.votes == record.votes
            &&& next.status == record.status
        },
        voted(record, party, other, now) matches Ok(next) ==> {
            &&& next.submissions == record.submissions
            &&& record.votes.dom().subset_of(next.votes.dom())
            &&& forall|v: Identity| #[trigger]
                record.votes.contains_key(v) ==> next.votes[v] == record.votes[v]
            &&& next.status == record.status
        },
{
}

/// No operation on a stored record changes its manager, its audit program,
/// its stake pot or its stake amount, removes a submitter or a voter, or
/// changes a vote that was cast.
pub proof fn lemma_operation_keeps_what_is_fixed(
    program_id: Identity,
    accounts: Seq<AccountView>,
    record: TaskRecord,
    operation: Operation,
)
    requires
        !(operation is CreateTask),
        operation_step(program_id, accounts, Some(record), operation) is Ok,
    ensures
        ({
            let next = operation_step(program_id, accounts, Some(record), operation)->Ok_0.record;
            &&& next.manager == record.manager
            &&& next.audit_program == record.audit_program
            &&& next.stake_pot == record.stake_pot
            &&& next.stake_amount == record.stake_amount
            &&& record.submissions.dom().subset_of(next.submissions.dom())
            &&& record.votes.dom().subset_of(next.votes.dom())
            &&& forall|v: Identity| #[trigger]
                record.votes.contains_key(v) ==> next.votes[v] == record.votes[v]
        }),
{
}

/// The two operations without a handler are refused whatever the handles and
/// the record.
pub proof fn lemma_unsupported_operations(
    program_id: Identity,
    accounts: Seq<AccountView>,
    record: Option<TaskRecord>,
)
    ensures
        operation_step(program_id, accounts, record, Operation::WithdrawSubmission) == Err::<Step, TaskError>(TaskError::UnsupportedOperation),
        operation_step(program_id, accounts, record, Operation::Payout) == Err::<Step, TaskError>(TaskError::UnsupportedOperation),
{
}

/// The handles of a submission or of a vote are in order: there are four of
/// them, the last reports a time, and the first is controlled by the program.
pub open spec fn handles_in_order(program_id: Identity, accounts: Seq<AccountView>) -> bool {
    &&& accounts.len() >= 4
    &&& accounts[3].clock.is_some()
    &&& accounts[0].owner == program_id
}

/// A submission to a task that accepts submissions is never accepted once the
/// clock has reached the deadline, whatever the handles; with the handles in
/// order it is refused as expired.
pub proof fn lemma_late_submit_task_refused(
    program_id: Identity,
    accounts: Seq<AccountView>,
    record: TaskRecord,
    submission: Seq<char>,
)
    requires
        record.status is AcceptingSubmissions,
        accounts.len() >= 4 && accounts[3].clock.is_some() ==> accounts[3].clock.unwrap()
            >= record.status->AcceptingSubmissions_0,
    ensures
        submit_task_step(program_id, accounts, Some(record), submission) is Err,
        handles_in_order(program_id, accounts) ==> submit_task_step(
            program_id,
            accounts,
            Some(record),
            submission,
        ) == Err::<Step, TaskError>(TaskError::DeadlineExpired),
{
}

/// An accepted submission asks for the stake amount of the task, and nothing
/// else, to be moved from the submitter to the stake pot of the task.
pub proof fn lemma_submit_task_moves_the_stake(
    program_id: Identity,
    accounts: Seq<AccountView>,
    record: TaskRecord,
    submission: Seq<char>,
)
    requires
        submit_task_step(program_id, accounts, Some(record), submission) is Ok,
    ensures
        ({
            let step = submit_task_step(program_id, accounts, Some(record), submission)->Ok_0;
            &&& handles_in_order(program_id, accounts)
            &&& step.effect == (Effect::Transfer {
                from: accounts[1].key,
                to: record.stake_pot,
                amount: record.stake_amount,
            })
            &&& step.slot == 0
            &&& step.record.submissions[accounts[1].key] == submission
            &&& step.record.total_stake_amount == record.total_stake_amount + record.stake_amount
        }),
{
}

/// The vote of the second handle for the third is accepted exactly where the
/// handles are in order, the task is in the voting phase, the clock is before
/// its deadline, both parties are submitters, and the voter has no vote yet.
/// It then adds that vote and asks for no effect.
pub proof fn lemma_vote_step_accepted_iff(program_id: Identity, accounts: Seq<AccountView>, record: TaskRecord)
    ensures
        vote_step(program_id, accounts, Some(record)) is Ok <==> {
            &&& handles_in_order(program_id, accounts)
            &&& record.status matches TaskStatus::Voting(deadline) && accounts[3].clock.unwrap() < deadline
            &&& record.submissions.contains_key(accounts[1].key)
            &&& record.submissions.contains_key(accounts[2].key)
            &&& !record.votes.contains_key(accounts[1].key)
        },
        vote_step(program_id, accounts, Some(record)) is Ok ==> vote_step(
            program_id,
            accounts,
            Some(record),
        )->Ok_0 == (Step {
            record: TaskRecord { votes: record.votes.insert(accounts[1].key, accounts[2].key), ..record },
            slot: 0,
            effect: Effect::Nothing,
        }),
{
}

} // verus!
