use task_stake_pool::error::TaskError;
use task_stake_pool::identity::Identity;
use task_stake_pool::instruction::TaskInstruction;
use task_stake_pool::wire::{read_i64, read_identity, read_text, read_u32, read_u64};

fn pot() -> Identity {
    let mut bytes = [0u8; 32];
    for (i, b) in bytes.iter_mut().enumerate() {
        *b = i as u8 + 1;
    }
    Identity::new(bytes)
}

fn frame(text: &str) -> Vec<u8> {
    borsh::to_vec(&text.to_string()).unwrap()
}

fn create_payload(text: &str, stake: u64, deadline: i64, pot: &Identity) -> Vec<u8> {
    let mut bytes = vec![0u8];
    bytes.extend(frame(text));
    bytes.extend(borsh::to_vec(&stake).unwrap());
    bytes.extend(borsh::to_vec(&deadline).unwrap());
    bytes.extend(pot.bytes);
    bytes
}

#[test]
fn read_u32_is_little_endian() {
    assert_eq!(read_u32(&[0x78, 0x56, 0x34, 0x12], 0), 0x1234_5678);
    assert_eq!(read_u32(&[9, 1, 0, 0, 0], 1), 1);
    assert_eq!(read_u32(&[0xff, 0xff, 0xff, 0xff], 0), u32::MAX);
}

#[test]
fn read_u64_is_little_endian() {
    assert_eq!(read_u64(&[8, 7, 6, 5, 4, 3, 2, 1], 0), 0x0102_0304_0506_0708);
    assert_eq!(read_u64(&[0xff; 8], 0), u64::MAX);
    assert_eq!(read_u64(&[0, 0, 10, 0, 0, 0, 0, 0, 0, 0], 2), 10);
    assert_eq!(read_u64(&borsh::to_vec(&0xdead_beef_0bad_f00du64).unwrap(), 0), 0xdead_beef_0bad_f00d);
}

#[test]
fn read_i64_is_twos_complement() {
    assert_eq!(read_i64(&[0xff; 8], 0), -1);
    assert_eq!(read_i64(&[0, 0, 0, 0, 0, 0, 0, 0x80], 0), i64::MIN);
    assert_eq!(read_i64(&[0xff, 0xff, 0xff, 0xff, 0xff, 0xff, 0xff, 0x7f], 0), i64::MAX);
    assert_eq!(read_i64(&[1, 0, 0, 0, 0, 0, 0, 0], 0), 1);
    assert_eq!(read_i64(&borsh::to_vec(&-1_600_000_000i64).unwrap(), 0), -1_600_000_000);
}

#[test]
fn read_identity_takes_32_bytes() {
    let mut bytes = vec![0xaau8];
    bytes.extend(pot().bytes);
    bytes.push(0xbb);
    assert_eq!(read_identity(&bytes, 1), pot());
}

#[test]
fn read_text_decodes_a_frame() {
    assert_eq!(read_text(&[2, 0, 0, 0, b'h', b'i'], 0, 6), Some("hi".to_string()));
    assert_eq!(read_text(&[0, 0, 0, 0], 0, 4), Some(String::new()));
    let bytes = frame("Grüße, 世界");
    assert_eq!(read_text(&bytes, 0, bytes.len()), Some("Grüße, 世界".to_string()));
    // Only the bytes between the bounds are read.
    assert_eq!(read_text(&[9, 1, 0, 0, 0, b'x', 9], 1, 6), Some("x".to_string()));
}

#[test]
fn read_text_refuses_what_is_no_frame() {
    // Too short for a length.
    assert_eq!(read_text(&[1, 0, 0], 0, 3), None);
    // Fewer bytes than the length says.
    assert_eq!(read_text(&[2, 0, 0, 0, b'h'], 0, 5), None);
    // More bytes than the length says.
    assert_eq!(read_text(&[1, 0, 0, 0, b'h', b'i'], 0, 6), None);
    // Not UTF-8.
    assert_eq!(read_text(&[1, 0, 0, 0, 0xff], 0, 5), None);
    assert_eq!(read_text(&[2, 0, 0, 0, 0xc3, 0x28], 0, 6), None);
}

#[test]
fn decodes_create_task() {
    let bytes = create_payload("audit", 10, 1_700_000_000, &pot());
    assert_eq!(
        TaskInstruction::try_from_slice(&bytes),
        Ok(TaskInstruction::CreateTask {
            task_audit_program: "audit".to_string(),
            stake_amount: 10,
            deadline: 1_700_000_000,
            stake_pot_account: pot(),
        })
    );
}

#[test]
fn decodes_create_task_with_empty_text_and_negative_deadline() {
    let bytes = create_payload("", u64::MAX, -5, &pot());
    assert_eq!(bytes.len(), 53);
    assert_eq!(
        TaskInstruction::try_from_slice(&bytes),
        Ok(TaskInstruction::CreateTask {
            task_audit_program: String::new(),
            stake_amount: u64::MAX,
            deadline: -5,
            stake_pot_account: pot(),
        })
    );
}

#[test]
fn decodes_submit_task() {
    let mut bytes = vec![1u8];
    bytes.extend(frame("x"));
    assert_eq!(bytes, vec![1, 1, 0, 0, 0, b'x']);
    assert_eq!(TaskInstruction::try_from_slice(&bytes), Ok(TaskInstruction::SubmitTask("x".to_string())));
}

#[test]
fn decodes_the_operations_without_fields() {
    assert_eq!(TaskInstruction::try_from_slice(&[2]), Ok(TaskInstruction::WithdrawSubmission));
    assert_eq!(TaskInstruction::try_from_slice(&[4]), Ok(TaskInstruction::Vote));
    assert_eq!(TaskInstruction::try_from_slice(&[5]), Ok(TaskInstruction::Payout));
}

#[test]
fn decodes_set_task_to_voting() {
    assert_eq!(
        TaskInstruction::try_from_slice(&[3, 0x10, 0x27, 0, 0, 0, 0, 0, 0]),
        Ok(TaskInstruction::SetTaskToVoting(10_000))
    );
    assert_eq!(TaskInstruction::try_from_slice(&[3, 0xff, 0xff, 0xff, 0xff, 0xff, 0xff, 0xff, 0xff]), Ok(TaskInstruction::SetTaskToVoting(-1)));
}

#[test]
fn refuses_an_empty_payload() {
    assert_eq!(TaskInstruction::try_from_slice(&[]), Err(TaskError::DecodeError));
}

#[test]
fn refuses_an_unknown_operation() {
    assert_eq!(TaskInstruction::try_from_slice(&[6]), Err(TaskError::DecodeError));
    assert_eq!(TaskInstruction::try_from_slice(&[255]), Err(TaskError::DecodeError));
}

#[test]
fn refuses_bytes_after_the_operation() {
    assert_eq!(TaskInstruction::try_from_slice(&[2, 0]), Err(TaskError::DecodeError));
    assert_eq!(TaskInstruction::try_from_slice(&[4, 0]), Err(TaskError::DecodeError));
    assert_eq!(TaskInstruction::try_from_slice(&[5, 0]), Err(TaskError::DecodeError));
    assert_eq!(TaskInstruction::try_from_slice(&[3, 1, 0, 0, 0, 0, 0, 0, 0, 0]), Err(TaskError::DecodeError));
    assert_eq!(TaskInstruction::try_from_slice(&[1, 1, 0, 0, 0, b'x', b'y']), Err(TaskError::DecodeError));
    let mut bytes = create_payload("audit", 10, 20, &pot());
    bytes.push(0);
    assert_eq!(TaskInstruction::try_from_slice(&bytes), Err(TaskError::DecodeError));
}

#[test]
fn refuses_a_payload_that_ends_early() {
    assert_eq!(TaskInstruction::try_from_slice(&[0]), Err(TaskError::DecodeError));
    assert_eq!(TaskInstruction::try_from_slice(&[1]), Err(TaskError::DecodeError));
    assert_eq!(TaskInstruction::try_from_slice(&[1, 2, 0, 0, 0, b'x']), Err(TaskError::DecodeError));
    assert_eq!(TaskInstruction::try_from_slice(&[3, 1, 0, 0, 0, 0, 0, 0]), Err(TaskError::DecodeError));
    let mut bytes = create_payload("audit", 10, 20, &pot());
    bytes.pop();
    assert_eq!(TaskInstruction::try_from_slice(&bytes), Err(TaskError::DecodeError));
}

#[test]
fn refuses_text_that_is_not_utf8() {
    assert_eq!(TaskInstruction::try_from_slice(&[1, 1, 0, 0, 0, 0x80]), Err(TaskError::DecodeError));
    let mut bytes = create_payload("a", 10, 20, &pot());
    bytes[5] = 0xff;
    assert_eq!(TaskInstruction::try_from_slice(&bytes), Err(TaskError::DecodeError));
}

#[test]
fn refuses_a_text_length_that_disagrees_with_the_payload() {
    let mut bytes = create_payload("audit", 10, 20, &pot());
    bytes[1] = 4;
    assert_eq!(TaskInstruction::try_from_slice(&bytes), Err(TaskError::DecodeError));
    bytes[1] = 6;
    assert_eq!(TaskInstruction::try_from_slice(&bytes), Err(TaskError::DecodeError));
}
