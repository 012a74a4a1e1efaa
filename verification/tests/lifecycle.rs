use task_stake_pool::error::TaskError;
use task_stake_pool::identity::Identity;
use task_stake_pool::processor::{AccountView, Effect, Processor, Transition};
use task_stake_pool::registry::IdentityMap;
use task_stake_pool::state::{TaskState, TaskStatus};

const T1: i64 = 1_000;
const T2: i64 = 2_000;

fn id(last: u8) -> Identity {
    let mut bytes = [0u8; 32];
    bytes[31] = last;
    Identity::new(bytes)
}

fn program() -> Identity {
    id(100)
}

fn manager() -> Identity {
    id(1)
}

fn pot() -> Identity {
    id(2)
}

fn slot() -> Identity {
    id(3)
}

fn party_a() -> Identity {
    id(10)
}

fn party_b() -> Identity {
    id(11)
}

fn party_c() -> Identity {
    id(12)
}

fn plain(key: Identity) -> AccountView {
    AccountView { key, owner: id(0), is_signer: false, clock: None }
}

fn signer(key: Identity) -> AccountView {
    AccountView { key, owner: id(0), is_signer: true, clock: None }
}

fn record_slot() -> AccountView {
    AccountView { key: slot(), owner: program(), is_signer: false, clock: None }
}

fn clock(now: i64) -> AccountView {
    AccountView { key: id(200), owner: id(201), is_signer: false, clock: Some(now) }
}

fn fresh(stake: u64, deadline: i64) -> TaskState {
    TaskState::new(manager(), "audit".to_string(), stake, deadline, pot())
}

fn submit_payload(text: &str) -> Vec<u8> {
    let mut bytes = vec![1u8];
    bytes.extend(borsh::to_vec(&text.to_string()).unwrap());
    bytes
}

fn create_payload(text: &str, stake: u64, deadline: i64, pot: &Identity) -> Vec<u8> {
    let mut bytes = vec![0u8];
    bytes.extend(borsh::to_vec(&text.to_string()).unwrap());
    bytes.extend(borsh::to_vec(&stake).unwrap());
    bytes.extend(borsh::to_vec(&deadline).unwrap());
    bytes.extend(pot.bytes);
    bytes
}

fn voting_payload(deadline: i64) -> Vec<u8> {
    let mut bytes = vec![3u8];
    bytes.extend(borsh::to_vec(&deadline).unwrap());
    bytes
}

fn submit_accounts(submitter: Identity, now: i64) -> Vec<AccountView> {
    vec![record_slot(), plain(submitter), plain(pot()), clock(now)]
}

fn vote_accounts(voter: Identity, candidate: Identity, now: i64) -> Vec<AccountView> {
    vec![record_slot(), plain(voter), plain(candidate), clock(now)]
}

fn in_voting(deadline: i64) -> TaskState {
    let mut task = fresh(10, T1);
    task.submit(party_a(), &pot(), 1, "a".to_string()).unwrap();
    task.submit(party_b(), &pot(), 2, "b".to_string()).unwrap();
    task.status = TaskStatus::Voting(deadline);
    task
}

#[test]
fn new_task_accepts_submissions_and_is_empty() {
    let task = TaskState::new(manager(), "audit".to_string(), 10, T1, pot());
    assert_eq!(task.status, TaskStatus::AcceptingSubmissions(T1));
    assert_eq!(task.submissions.len(), 0);
    assert_eq!(task.votes.len(), 0);
    assert_eq!(task.total_stake_amount, 0);
    assert_eq!(task.stake_amount, 10);
    assert_eq!(task.task_manager, manager());
    assert_eq!(task.stake_pot_account, pot());
    assert_eq!(task.task_audit_program, "audit");
}

#[test]
fn create_task_yields_the_new_record_and_asks_for_its_slot() {
    let accounts = vec![signer(manager()), plain(slot()), plain(id(0))];
    let got = Processor::process_instruction(
        &program(),
        &accounts,
        None,
        &create_payload("audit", 10, T1, &pot()),
    );
    assert_eq!(
        got,
        Ok(Transition {
            record: fresh(10, T1),
            slot: 1,
            effect: Effect::Allocate { payer: manager(), slot: slot(), owner: program() },
        })
    );
}

#[test]
fn create_task_ignores_what_the_first_handle_holds() {
    let accounts = vec![signer(manager()), plain(slot()), plain(id(0))];
    let got = Processor::process_create_task(&program(), &accounts, String::new(), 0, -1, pot()).unwrap();
    assert_eq!(got.record.status, TaskStatus::AcceptingSubmissions(-1));
    assert_eq!(got.record.total_stake_amount, 0);
    assert_eq!(got.record.stake_amount, 0);
    assert_eq!(got.record.submissions, IdentityMap::new());
    assert_eq!(got.record.votes, IdentityMap::new());
}

#[test]
fn create_task_needs_three_handles() {
    let accounts = vec![signer(manager()), plain(slot())];
    assert_eq!(
        Processor::process_create_task(&program(), &accounts, String::new(), 1, 1, pot()),
        Err(TaskError::NotEnoughAccounts)
    );
}

#[test]
fn stake_collected_is_stake_times_submitters() {
    let mut task = fresh(7, T1);
    for (n, party) in [party_a(), party_b(), party_c()].iter().enumerate() {
        assert_eq!(task.submit(*party, &pot(), n as i64, "s".to_string()), Ok(()));
        assert_eq!(task.submissions.len(), n + 1);
        assert_eq!(task.total_stake_amount, 7 * (n as u64 + 1));
    }
    assert_eq!(task.status, TaskStatus::AcceptingSubmissions(T1));
}

#[test]
fn resubmission_replaces_the_payload_and_counts_the_stake_again() {
    let created = Processor::process_instruction(
        &program(),
        &[signer(manager()), plain(slot()), plain(id(0))],
        None,
        &create_payload("audit", 10, T1, &pot()),
    )
    .unwrap();
    let task = created.commit(true).unwrap();

    let first = Processor::process_instruction(
        &program(),
        &submit_accounts(party_a(), T1 - 1),
        Some(task),
        &submit_payload("x"),
    )
    .unwrap();
    assert_eq!(first.effect, Effect::Transfer { from: party_a(), to: pot(), amount: 10 });
    assert_eq!(first.slot, 0);
    let task = first.commit(true).unwrap();
    assert_eq!(task.submissions.len(), 1);
    assert_eq!(task.submissions.get(&party_a()), Some(&"x".to_string()));
    assert_eq!(task.total_stake_amount, 10);

    let second = Processor::process_instruction(
        &program(),
        &submit_accounts(party_a(), T1 - 1),
        Some(task),
        &submit_payload("y"),
    )
    .unwrap();
    assert_eq!(second.effect, Effect::Transfer { from: party_a(), to: pot(), amount: 10 });
    let task = second.commit(true).unwrap();
    assert_eq!(task.submissions.len(), 1);
    assert_eq!(task.submissions.get(&party_a()), Some(&"y".to_string()));
    assert_eq!(task.total_stake_amount, 20);
}

#[test]
fn submission_at_or_after_the_deadline_is_expired_and_changes_nothing() {
    for now in [T1, T1 + 1, i64::MAX] {
        let mut task = fresh(10, T1);
        task.submit(party_a(), &pot(), 1, "a".to_string()).unwrap();
        let before = task.clone();
        assert_eq!(task.submit(party_b(), &pot(), now, "b".to_string()), Err(TaskError::DeadlineExpired));
        assert_eq!(task, before);
        assert_eq!(
            Processor::process_submit_task(&program(), &submit_accounts(party_b(), now), Some(task), "b".to_string()),
            Err(TaskError::DeadlineExpired)
        );
    }
}

#[test]
fn submission_just_before_the_deadline_is_accepted() {
    let mut task = fresh(10, T1);
    assert_eq!(task.submit(party_a(), &pot(), T1 - 1, "a".to_string()), Ok(()));
    assert_eq!(task.total_stake_amount, 10);
}

#[test]
fn submission_outside_the_accepting_phase_is_a_phase_mismatch() {
    for status in [TaskStatus::Voting(T2), TaskStatus::Completed, TaskStatus::Cancelled] {
        let mut task = fresh(10, T1);
        task.status = status;
        let before = task.clone();
        assert_eq!(task.submit(party_a(), &pot(), 1, "a".to_string()), Err(TaskError::PhaseMismatch));
        assert_eq!(task, before);
    }
}

#[test]
fn submission_to_another_pot_is_a_mismatch() {
    let mut task = fresh(10, T1);
    let before = task.clone();
    assert_eq!(task.submit(party_a(), &id(99), 1, "a".to_string()), Err(TaskError::StakePotMismatch));
    assert_eq!(task, before);
    let accounts = vec![record_slot(), plain(party_a()), plain(id(99)), clock(1)];
    assert_eq!(
        Processor::process_submit_task(&program(), &accounts, Some(task), "a".to_string()),
        Err(TaskError::StakePotMismatch)
    );
}

#[test]
fn submission_that_would_overflow_the_stake_is_refused() {
    let mut task = fresh(10, T1);
    task.total_stake_amount = u64::MAX - 9;
    let before = task.clone();
    assert_eq!(task.submit(party_a(), &pot(), 1, "a".to_string()), Err(TaskError::StakeOverflow));
    assert_eq!(task, before);
    task.total_stake_amount = u64::MAX - 10;
    assert_eq!(task.submit(party_a(), &pot(), 1, "a".to_string()), Ok(()));
    assert_eq!(task.total_stake_amount, u64::MAX);
}

#[test]
fn expiry_is_reported_before_the_pot_is_compared() {
    let mut task = fresh(10, T1);
    assert_eq!(task.submit(party_a(), &id(99), T1, "a".to_string()), Err(TaskError::DeadlineExpired));
}

#[test]
fn submit_needs_four_handles_a_clock_an_owned_slot_and_a_record() {
    let short = vec![record_slot(), plain(party_a()), plain(pot())];
    assert_eq!(
        Processor::process_submit_task(&program(), &short, Some(fresh(10, T1)), "a".to_string()),
        Err(TaskError::NotEnoughAccounts)
    );
    let no_clock = vec![record_slot(), plain(party_a()), plain(pot()), plain(id(200))];
    assert_eq!(
        Processor::process_submit_task(&program(), &no_clock, Some(fresh(10, T1)), "a".to_string()),
        Err(TaskError::ClockUnavailable)
    );
    let foreign = vec![plain(slot()), plain(party_a()), plain(pot()), clock(1)];
    assert_eq!(
        Processor::process_submit_task(&program(), &foreign, Some(fresh(10, T1)), "a".to_string()),
        Err(TaskError::OwnershipError)
    );
    assert_eq!(
        Processor::process_submit_task(&program(), &submit_accounts(party_a(), 1), None, "a".to_string()),
        Err(TaskError::RecordUnavailable)
    );
}

#[test]
fn check_account_owner_compares_the_owner_with_the_program() {
    assert_eq!(Processor::check_account_owner(&record_slot(), &program()), Ok(()));
    assert_eq!(Processor::check_account_owner(&record_slot(), &id(101)), Err(TaskError::OwnershipError));
    assert_eq!(Processor::check_account_owner(&plain(program()), &program()), Err(TaskError::OwnershipError));
}

#[test]
fn voting_is_opened_by_any_signer_whatever_the_phase() {
    // The signer is not the manager of the task.
    let accounts = vec![record_slot(), signer(party_c()), clock(T2 + 1)];
    let got = Processor::process_instruction(&program(), &accounts, Some(fresh(10, T1)), &voting_payload(T2)).unwrap();
    let mut expected = fresh(10, T1);
    expected.status = TaskStatus::Voting(T2);
    assert_eq!(got, Transition { record: expected, slot: 0, effect: Effect::Nothing });

    for status in [TaskStatus::Voting(5), TaskStatus::Completed, TaskStatus::Cancelled] {
        let mut task = fresh(10, T1);
        task.status = status;
        let got = Processor::process_start_voting(&program(), &accounts, Some(task), T2).unwrap();
        assert_eq!(got.record.status, TaskStatus::Voting(T2));
    }
}

#[test]
fn voting_deadline_must_lie_before_the_current_time() {
    for now in [T2, T2 - 1, i64::MIN] {
        let accounts = vec![record_slot(), signer(manager()), clock(now)];
        assert_eq!(
            Processor::process_start_voting(&program(), &accounts, Some(fresh(10, T1)), T2),
            Err(TaskError::NotFutureDeadline)
        );
    }
    let accounts = vec![record_slot(), signer(manager()), clock(T2 + 1)];
    assert!(Processor::process_start_voting(&program(), &accounts, Some(fresh(10, T1)), T2).is_ok());
}

#[test]
fn voting_is_not_opened_without_a_signature() {
    let accounts = vec![record_slot(), plain(manager()), clock(T2 + 1)];
    assert_eq!(
        Processor::process_start_voting(&program(), &accounts, Some(fresh(10, T1)), T2),
        Err(TaskError::Unauthorized)
    );
}

#[test]
fn start_voting_checks_in_order() {
    let short = vec![record_slot(), signer(manager())];
    assert_eq!(
        Processor::process_start_voting(&program(), &short, Some(fresh(10, T1)), T2),
        Err(TaskError::NotEnoughAccounts)
    );
    let no_clock = vec![plain(slot()), plain(manager()), plain(id(200))];
    assert_eq!(
        Processor::process_start_voting(&program(), &no_clock, None, T2),
        Err(TaskError::ClockUnavailable)
    );
    // The deadline is judged before the slot, the record and the signature.
    let early = vec![plain(slot()), plain(manager()), clock(T2)];
    assert_eq!(Processor::process_start_voting(&program(), &early, None, T2), Err(TaskError::NotFutureDeadline));
    let foreign = vec![plain(slot()), plain(manager()), clock(T2 + 1)];
    assert_eq!(Processor::process_start_voting(&program(), &foreign, None, T2), Err(TaskError::OwnershipError));
    let unsigned = vec![record_slot(), plain(manager()), clock(T2 + 1)];
    assert_eq!(Processor::process_start_voting(&program(), &unsigned, None, T2), Err(TaskError::RecordUnavailable));
}

#[test]
fn vote_is_recorded() {
    let mut task = in_voting(T2);
    assert_eq!(task.vote(party_b(), party_a(), T2 - 1), Ok(()));
    assert_eq!(task.votes.len(), 1);
    assert_eq!(task.votes.get(&party_b()), Some(&party_a()));
    assert_eq!(task.status, TaskStatus::Voting(T2));
    assert_eq!(task.total_stake_amount, 20);
    assert_eq!(task.submissions.len(), 2);
    // A party may vote for itself.
    assert_eq!(task.vote(party_a(), party_a(), 0), Ok(()));
    assert_eq!(task.votes.len(), 2);
}

#[test]
fn vote_through_the_processor() {
    let got = Processor::process_instruction(
        &program(),
        &vote_accounts(party_b(), party_a(), T2 - 1),
        Some(in_voting(T2)),
        &[4],
    )
    .unwrap();
    let mut expected = in_voting(T2);
    expected.votes.insert(party_b(), party_a());
    assert_eq!(got, Transition { record: expected, slot: 0, effect: Effect::Nothing });
}

#[test]
fn second_vote_of_a_voter_is_a_duplicate() {
    let mut task = in_voting(T2);
    task.vote(party_b(), party_a(), 1).unwrap();
    let before = task.clone();
    assert_eq!(task.vote(party_b(), party_a(), 2), Err(TaskError::DuplicateVote));
    assert_eq!(task.vote(party_b(), party_b(), 3), Err(TaskError::DuplicateVote));
    assert_eq!(task, before);
    assert_eq!(task.votes.len(), 1);
    assert_eq!(task.votes.get(&party_b()), Some(&party_a()));
    // After the deadline the second vote is still refused, as expired.
    assert_eq!(task.vote(party_b(), party_a(), T2), Err(TaskError::DeadlineExpired));
}

#[test]
fn vote_by_a_party_that_never_submitted_is_refused() {
    let mut task = fresh(10, T1);
    task.submit(party_a(), &pot(), 1, "a".to_string()).unwrap();
    task.status = TaskStatus::Voting(T2);
    let before = task.clone();
    assert_eq!(task.vote(party_b(), party_a(), 1), Err(TaskError::UnknownParticipant));
    assert_eq!(task, before);
    assert_eq!(
        Processor::process_vote(&program(), &vote_accounts(party_b(), party_a(), 1), Some(task)),
        Err(TaskError::UnknownParticipant)
    );
}

#[test]
fn vote_for_a_party_that_never_submitted_is_refused() {
    let mut task = in_voting(T2);
    let before = task.clone();
    assert_eq!(task.vote(party_a(), party_c(), 1), Err(TaskError::UnknownParticipant));
    assert_eq!(task, before);
}

#[test]
fn vote_outside_the_voting_phase_is_a_phase_mismatch() {
    for status in [TaskStatus::AcceptingSubmissions(T2), TaskStatus::Completed, TaskStatus::Cancelled] {
        let mut task = in_voting(T2);
        task.status = status;
        let before = task.clone();
        assert_eq!(task.vote(party_b(), party_a(), 1), Err(TaskError::PhaseMismatch));
        assert_eq!(task, before);
    }
}

#[test]
fn vote_at_or_after_the_deadline_is_expired() {
    for now in [T2, T2 + 1] {
        let mut task = in_voting(T2);
        let before = task.clone();
        assert_eq!(task.vote(party_b(), party_a(), now), Err(TaskError::DeadlineExpired));
        assert_eq!(task, before);
    }
}

#[test]
fn vote_needs_four_handles_a_clock_an_owned_slot_and_a_record() {
    let short = vec![record_slot(), plain(party_b()), plain(party_a())];
    assert_eq!(Processor::process_vote(&program(), &short, Some(in_voting(T2))), Err(TaskError::NotEnoughAccounts));
    let no_clock = vec![record_slot(), plain(party_b()), plain(party_a()), plain(id(200))];
    assert_eq!(Processor::process_vote(&program(), &no_clock, Some(in_voting(T2))), Err(TaskError::ClockUnavailable));
    let foreign = vec![plain(slot()), plain(party_b()), plain(party_a()), clock(1)];
    assert_eq!(Processor::process_vote(&program(), &foreign, Some(in_voting(T2))), Err(TaskError::OwnershipError));
    assert_eq!(
        Processor::process_vote(&program(), &vote_accounts(party_b(), party_a(), 1), None),
        Err(TaskError::RecordUnavailable)
    );
}

#[test]
fn withdraw_and_payout_are_unsupported() {
    let accounts = submit_accounts(party_a(), 1);
    assert_eq!(
        Processor::process_instruction(&program(), &accounts, Some(fresh(10, T1)), &[2]),
        Err(TaskError::UnsupportedOperation)
    );
    assert_eq!(
        Processor::process_instruction(&program(), &accounts, Some(fresh(10, T1)), &[5]),
        Err(TaskError::UnsupportedOperation)
    );
    assert_eq!(Processor::process_payout(&program(), &accounts), Err(TaskError::UnsupportedOperation));
}

#[test]
fn malformed_payload_is_refused_before_anything_else() {
    assert_eq!(Processor::process_instruction(&program(), &[], None, &[]), Err(TaskError::DecodeError));
    assert_eq!(Processor::process_instruction(&program(), &[], None, &[9]), Err(TaskError::DecodeError));
    assert_eq!(Processor::process_instruction(&program(), &[], None, &[4, 4]), Err(TaskError::DecodeError));
    // A payload that decodes is then refused for its handles.
    assert_eq!(Processor::process_instruction(&program(), &[], None, &[4]), Err(TaskError::NotEnoughAccounts));
}

#[test]
fn commit_hands_out_the_record_only_where_the_effect_succeeded() {
    let transfer = || Transition {
        record: fresh(10, T1),
        slot: 0,
        effect: Effect::Transfer { from: party_a(), to: pot(), amount: 10 },
    };
    assert_eq!(transfer().commit(true), Ok(fresh(10, T1)));
    assert_eq!(transfer().commit(false), Err(TaskError::TransferFailure));
    let allocate = || Transition {
        record: fresh(10, T1),
        slot: 1,
        effect: Effect::Allocate { payer: manager(), slot: slot(), owner: program() },
    };
    assert_eq!(allocate().commit(true), Ok(fresh(10, T1)));
    assert_eq!(allocate().commit(false), Err(TaskError::AllocationFailure));
    let nothing = || Transition { record: fresh(10, T1), slot: 0, effect: Effect::Nothing };
    assert_eq!(nothing().commit(true), Ok(fresh(10, T1)));
    assert_eq!(nothing().commit(false), Ok(fresh(10, T1)));
}

#[test]
fn basic_flow() {
    let created = Processor::process_instruction(
        &program(),
        &[signer(manager()), plain(slot()), plain(id(0))],
        None,
        &create_payload("", 1, T1, &pot()),
    )
    .unwrap();
    let task = created.commit(true).unwrap();

    let submitted = Processor::process_instruction(
        &program(),
        &submit_accounts(party_a(), 1),
        Some(task),
        &submit_payload(""),
    )
    .unwrap();
    assert_eq!(submitted.effect, Effect::Transfer { from: party_a(), to: pot(), amount: 1 });
    let task = submitted.commit(true).unwrap();

    let opened = Processor::process_instruction(
        &program(),
        &[record_slot(), signer(manager()), clock(T1 + 500)],
        Some(task),
        &voting_payload(T1 + 100),
    )
    .unwrap();
    let task = opened.commit(true).unwrap();
    assert_eq!(task.status, TaskStatus::Voting(T1 + 100));

    // The clock is past the voting deadline by then, so no vote is accepted.
    assert_eq!(
        Processor::process_instruction(
            &program(),
            &vote_accounts(party_a(), party_a(), T1 + 500),
            Some(task.clone()),
            &[4],
        ),
        Err(TaskError::DeadlineExpired)
    );
    // A clock before the deadline lets the vote through.
    let voted = Processor::process_instruction(
        &program(),
        &vote_accounts(party_a(), party_a(), T1 + 99),
        Some(task),
        &[4],
    )
    .unwrap();
    let task = voted.commit(true).unwrap();
    assert_eq!(task.votes.get(&party_a()), Some(&party_a()));
    assert_eq!(task.total_stake_amount, 1);
}
