use crate::account::{AccountContext, AccountModel, Pubkey};
use crate::codec::{read_bytes, spec_encode_record};
use crate::error::CampaignError;
use crate::lifecycle::{create_campaign, create_outcome, withdraw, withdraw_outcome};
use vstd::prelude::*;

verus! {

/// The opcode that routes to creation.
pub const OPCODE_CREATE: u8 = 0;

/// The opcode that routes to withdrawal.
pub const OPCODE_WITHDRAW: u8 = 1;

/// One invocation of the program: reads the opcode at the head of the
/// instruction buffer, slices the remainder off as the operation's payload,
/// and delegates. An empty buffer or an unrecognized opcode is rejected and
/// reported, never silently ignored. Routing depends on the opcode alone,
/// independent of the payload's contents.
///
/// The accounts arrive in the order the operation expects: the target
/// first, then the creator (creation) or the admin (withdrawal). The
/// caller must guarantee that the two balances together fit the balance
/// type; the host enforces this bound on all accounts it funds.
pub fn process_instruction(
    program_id: &Pubkey,
    target: &mut AccountContext,
    second: &mut AccountContext,
    instruction_data: &Vec<u8>,
    rent_minimum: u64,
) -> (r: Result<(), CampaignError>)
    requires
        old(target).lamports + old(second).lamports <= u64::MAX,
    ensures
        (instruction_data@.len() == 0 || (instruction_data@[0] != OPCODE_CREATE
            && instruction_data@[0] != OPCODE_WITHDRAW)) ==> r == Err::<(), CampaignError>(
            CampaignError::InvalidInstructionData,
        ) && final(target)@ == old(target)@ && final(second)@ == old(second)@,
        instruction_data@.len() > 0 && instruction_data@[0] == OPCODE_CREATE ==> (match create_outcome(
            old(target)@,
            old(second)@,
            program_id@,
            instruction_data@.skip(1),
            rent_minimum,
        ) {
            Ok(m) => r == Ok::<(), CampaignError>(()) && final(target)@ == (AccountModel {
                data: spec_encode_record(m),
                ..old(target)@
            }) && final(second)@ == old(second)@,
            Err(e) => r == Err::<(), CampaignError>(e) && final(target)@ == old(target)@
                && final(second)@ == old(second)@,
        }),
        instruction_data@.len() > 0 && instruction_data@[0] == OPCODE_WITHDRAW ==> (match withdraw_outcome(
            old(target)@,
            old(second)@,
            program_id@,
            instruction_data@.skip(1),
            rent_minimum,
        ) {
            Ok((amount, m)) => r == Ok::<(), CampaignError>(()) && final(target)@ == (AccountModel {
                lamports: (old(target).lamports - amount) as u64,
                data: spec_encode_record(m),
                ..old(target)@
            }) && final(second)@ == (AccountModel {
                lamports: (old(second).lamports + amount) as u64,
                ..old(second)@
            }),
            Err(e) => r == Err::<(), CampaignError>(e) && final(target)@ == old(target)@
                && final(second)@ == old(second)@,
        }),
{
    let n = instruction_data.len();
    if n == 0 {
        return Err(CampaignError::InvalidInstructionData);
    }
    let opcode = instruction_data[0];
    let payload = read_bytes(instruction_data, 1, n - 1);
    proof {
        assert(payload@ =~= instruction_data@.skip(1));
    }
    if opcode == OPCODE_CREATE {
        create_campaign(program_id, target, &*second, &payload, rent_minimum)
    } else if opcode == OPCODE_WITHDRAW {
        withdraw(program_id, target, second, &payload, rent_minimum)
    } else {
        Err(CampaignError::InvalidInstructionData)
    }
}

} // verus!
