use crowdfund::account::{AccountContext, Pubkey};
use crowdfund::codec::{decode_record, encode_record, encode_request, CampaignDetails, WithdrawRequest};
use crowdfund::dispatch::process_instruction;
use crowdfund::error::CampaignError;
use crowdfund::lifecycle::donate;

fn key(b: u8) -> Pubkey {
    Pubkey { bytes: vec![b; 32] }
}

fn program_id() -> Pubkey {
    key(9)
}

fn target_account(lamports: u64, data: Vec<u8>) -> AccountContext {
    AccountContext { key: key(1), is_signer: false, owner: program_id(), lamports, data }
}

fn caller_account(id: u8, is_signer: bool) -> AccountContext {
    AccountContext { key: key(id), is_signer, owner: key(0), lamports: 10_000, data: Vec::new() }
}

fn record(admin: &Pubkey, amount_donated: u64) -> CampaignDetails {
    CampaignDetails {
        admin: admin.clone(),
        name: b"x".to_vec(),
        description: b"y".to_vec(),
        image_link: b"z".to_vec(),
        amount_donated,
    }
}

fn create_instruction(details: &CampaignDetails) -> Vec<u8> {
    let mut data = vec![0u8];
    data.extend_from_slice(&encode_record(details));
    data
}

fn withdraw_instruction(amount: u64) -> Vec<u8> {
    let mut data = vec![1u8];
    data.extend_from_slice(&encode_request(&WithdrawRequest { amount }));
    data
}

#[test]
fn create_success_forces_zero_donations() {
    // Scenario: the creator supplies amount_donated = 999; the stored record
    // still starts at zero.
    let creator = caller_account(2, true);
    let mut target = target_account(1_000, vec![0; 128]);
    let mut second = creator.clone();
    let data = create_instruction(&record(&second.key, 999));
    let r = process_instruction(&program_id(), &mut target, &mut second, &data, 50);
    assert_eq!(r, Ok(()));
    let stored = decode_record(&target.data, 0).expect("stored record must decode");
    assert_eq!(stored.admin, key(2));
    assert_eq!(stored.name, b"x".to_vec());
    assert_eq!(stored.description, b"y".to_vec());
    assert_eq!(stored.image_link, b"z".to_vec());
    assert_eq!(stored.amount_donated, 0);
    assert_eq!(target.lamports, 1_000);
}

#[test]
fn create_rejects_admin_mismatch() {
    // Scenario: creator B signs, but the supplied details name A as admin.
    let admin_a = key(2);
    let mut creator_b = caller_account(3, true);
    let mut target = target_account(1_000, vec![0; 128]);
    let before = target.data.clone();
    let data = create_instruction(&record(&admin_a, 999));
    let r = process_instruction(&program_id(), &mut target, &mut creator_b, &data, 50);
    assert_eq!(r, Err(CampaignError::InvalidInstructionData));
    assert_eq!(target.data, before);
}

#[test]
fn create_rejects_non_signer_creator() {
    let mut creator = caller_account(2, false);
    let mut target = target_account(1_000, vec![0; 128]);
    let data = create_instruction(&record(&creator.key, 0));
    let r = process_instruction(&program_id(), &mut target, &mut creator, &data, 50);
    assert_eq!(r, Err(CampaignError::AuthorizationError));
}

#[test]
fn create_rejects_foreign_target() {
    let mut creator = caller_account(2, true);
    let mut target = target_account(1_000, vec![0; 128]);
    target.owner = key(8);
    let data = create_instruction(&record(&creator.key, 0));
    let r = process_instruction(&program_id(), &mut target, &mut creator, &data, 50);
    assert_eq!(r, Err(CampaignError::OwnershipError));
}

#[test]
fn create_rejects_balance_under_rent_floor() {
    let mut creator = caller_account(2, true);
    let mut target = target_account(49, vec![0; 128]);
    let before = target.data.clone();
    let data = create_instruction(&record(&creator.key, 0));
    let r = process_instruction(&program_id(), &mut target, &mut creator, &data, 50);
    assert_eq!(r, Err(CampaignError::InsufficientFundsError));
    assert_eq!(target.data, before);
}

#[test]
fn create_rejects_malformed_payload() {
    let mut creator = caller_account(2, true);
    let mut target = target_account(1_000, vec![0; 128]);
    let r = process_instruction(&program_id(), &mut target, &mut creator, &vec![0u8, 1, 2, 3], 50);
    assert_eq!(r, Err(CampaignError::InvalidInstructionData));
}

#[test]
fn withdraw_rejects_non_admin_caller() {
    // Scenario: the stored record's admin is A; B signs the call.
    let admin_a = key(2);
    let mut caller_b = caller_account(3, true);
    let mut target = target_account(1_000, encode_record(&record(&admin_a, 500)));
    let before = target.data.clone();
    let r = process_instruction(&program_id(), &mut target, &mut caller_b, &withdraw_instruction(10), 50);
    assert_eq!(r, Err(CampaignError::AuthorizationError));
    assert_eq!(target.lamports, 1_000);
    assert_eq!(caller_b.lamports, 10_000);
    assert_eq!(target.data, before);
}

#[test]
fn withdraw_rejects_non_signer_admin() {
    // Scenario: the caller is the stored admin A, but did not sign.
    let mut admin_a = caller_account(2, false);
    let mut target = target_account(1_000, encode_record(&record(&admin_a.key, 500)));
    let r = process_instruction(&program_id(), &mut target, &mut admin_a, &withdraw_instruction(10), 50);
    assert_eq!(r, Err(CampaignError::AuthorizationError));
    assert_eq!(target.lamports, 1_000);
    assert_eq!(admin_a.lamports, 10_000);
}

#[test]
fn withdraw_rejects_foreign_target() {
    let mut admin = caller_account(2, true);
    let mut target = target_account(1_000, encode_record(&record(&admin.key, 500)));
    target.owner = key(8);
    let r = process_instruction(&program_id(), &mut target, &mut admin, &withdraw_instruction(10), 50);
    assert_eq!(r, Err(CampaignError::OwnershipError));
}

#[test]
fn withdraw_rejects_undecodable_record() {
    let mut admin = caller_account(2, true);
    let mut target = target_account(1_000, vec![1, 2, 3]);
    let r = process_instruction(&program_id(), &mut target, &mut admin, &withdraw_instruction(10), 50);
    assert_eq!(r, Err(CampaignError::DecodeError));
}

#[test]
fn withdraw_rejects_malformed_request() {
    let mut admin = caller_account(2, true);
    let mut target = target_account(1_000, encode_record(&record(&admin.key, 500)));
    let r = process_instruction(&program_id(), &mut target, &mut admin, &vec![1u8, 2, 3], 50);
    assert_eq!(r, Err(CampaignError::InvalidInstructionData));
    assert_eq!(target.lamports, 1_000);
}

#[test]
fn withdraw_rejects_amount_over_withdrawable_balance() {
    // 950 would leave less than the rent floor of 100 behind.
    let mut admin = caller_account(2, true);
    let mut target = target_account(1_000, encode_record(&record(&admin.key, 500)));
    let r = process_instruction(&program_id(), &mut target, &mut admin, &withdraw_instruction(950), 100);
    assert_eq!(r, Err(CampaignError::InsufficientFundsError));
    assert_eq!(target.lamports, 1_000);
    assert_eq!(admin.lamports, 10_000);
}

#[test]
fn withdraw_success_moves_funds_and_reconciles_record() {
    let mut admin = caller_account(2, true);
    let mut target = target_account(1_000, encode_record(&record(&admin.key, 500)));
    let r = process_instruction(&program_id(), &mut target, &mut admin, &withdraw_instruction(300), 100);
    assert_eq!(r, Ok(()));
    assert_eq!(target.lamports, 700);
    assert_eq!(admin.lamports, 10_300);
    let stored = decode_record(&target.data, 0).expect("stored record must decode");
    assert_eq!(stored.amount_donated, 200);
    assert_eq!(stored.admin, admin.key);
}

#[test]
fn withdraw_beyond_donations_stops_accumulator_at_zero() {
    // The balance also holds the account's initial funding, so a withdrawal
    // may exceed what was donated; the accumulator stops at zero.
    let mut admin = caller_account(2, true);
    let mut target = target_account(1_000, encode_record(&record(&admin.key, 100)));
    let r = process_instruction(&program_id(), &mut target, &mut admin, &withdraw_instruction(400), 100);
    assert_eq!(r, Ok(()));
    assert_eq!(target.lamports, 600);
    let stored = decode_record(&target.data, 0).expect("stored record must decode");
    assert_eq!(stored.amount_donated, 0);
}

#[test]
fn dispatch_rejects_empty_buffer() {
    let mut a = target_account(1_000, vec![0; 16]);
    let mut b = caller_account(2, true);
    let r = process_instruction(&program_id(), &mut a, &mut b, &Vec::new(), 50);
    assert_eq!(r, Err(CampaignError::InvalidInstructionData));
}

#[test]
fn dispatch_rejects_unknown_opcodes() {
    for opcode in [2u8, 3, 7, 254, 255] {
        let mut a = target_account(1_000, vec![0; 16]);
        let mut b = caller_account(2, true);
        let mut data = vec![opcode];
        data.extend_from_slice(&encode_request(&WithdrawRequest { amount: 1 }));
        let r = process_instruction(&program_id(), &mut a, &mut b, &data, 50);
        assert_eq!(r, Err(CampaignError::InvalidInstructionData));
        assert_eq!(a.lamports, 1_000);
    }
}

#[test]
fn dispatch_routes_by_opcode_alone() {
    // The same malformed payload lands in different operations depending on
    // the opcode byte, and nowhere else.
    let garbage = vec![1u8, 2, 3];
    let mut a = target_account(1_000, vec![9; 3]);
    let mut b = caller_account(2, true);
    let mut data = vec![0u8];
    data.extend_from_slice(&garbage);
    let r = process_instruction(&program_id(), &mut a, &mut b, &data, 50);
    // Creation reports its payload as instruction data.
    assert_eq!(r, Err(CampaignError::InvalidInstructionData));
    let mut data = vec![1u8];
    data.extend_from_slice(&garbage);
    let r = process_instruction(&program_id(), &mut a, &mut b, &data, 50);
    // Withdrawal reaches its own account checks first: the stored record
    // here is undecodable.
    assert_eq!(r, Err(CampaignError::DecodeError));
}

#[test]
fn donate_accumulates() {
    let admin = key(2);
    let donor = caller_account(4, true);
    let mut target = target_account(1_000, encode_record(&record(&admin, 500)));
    let r = donate(&program_id(), &mut target, &donor, 100);
    assert_eq!(r, Ok(()));
    let stored = decode_record(&target.data, 0).expect("stored record must decode");
    assert_eq!(stored.amount_donated, 600);
    let r = donate(&program_id(), &mut target, &donor, 1);
    assert_eq!(r, Ok(()));
    let stored = decode_record(&target.data, 0).expect("stored record must decode");
    assert_eq!(stored.amount_donated, 601);
}

#[test]
fn donate_saturates_at_maximum() {
    let admin = key(2);
    let donor = caller_account(4, true);
    let mut target = target_account(1_000, encode_record(&record(&admin, u64::MAX - 50)));
    let r = donate(&program_id(), &mut target, &donor, 100);
    assert_eq!(r, Ok(()));
    let stored = decode_record(&target.data, 0).expect("stored record must decode");
    assert_eq!(stored.amount_donated, u64::MAX);
}

#[test]
fn donate_rejects_foreign_target() {
    let admin = key(2);
    let donor = caller_account(4, true);
    let mut target = target_account(1_000, encode_record(&record(&admin, 500)));
    target.owner = key(8);
    let before = target.data.clone();
    let r = donate(&program_id(), &mut target, &donor, 100);
    assert_eq!(r, Err(CampaignError::OwnershipError));
    assert_eq!(target.data, before);
}

#[test]
fn donate_rejects_undecodable_record() {
    let donor = caller_account(4, true);
    let mut target = target_account(1_000, vec![0; 5]);
    let r = donate(&program_id(), &mut target, &donor, 100);
    assert_eq!(r, Err(CampaignError::DecodeError));
}

#[test]
fn error_messages_are_distinct() {
    let errors = [
        CampaignError::InvalidInstructionData,
        CampaignError::AuthorizationError,
        CampaignError::OwnershipError,
        CampaignError::InsufficientFundsError,
        CampaignError::DecodeError,
    ];
    for (i, a) in errors.iter().enumerate() {
        for (j, b) in errors.iter().enumerate() {
            assert_eq!(i == j, a.message() == b.message());
        }
    }
}
