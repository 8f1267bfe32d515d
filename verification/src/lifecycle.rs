use crate::account::{key_eq, AccountContext, AccountModel, Pubkey};
use crate::codec::{
    decode_record, decode_request, encode_record, lemma_record_reencode,
    lemma_record_round_trip, record_wf, spec_decode_record, spec_decode_request,
    spec_encode_record, CampaignDetails, RecordModel,
};
use crate::error::CampaignError;
use crate::validate::{require_owned_by_program, require_rent_exempt, require_signer};
use vstd::prelude::*;

verus! {

// ===========================================================================
// Campaign lifecycle: creation, donation, withdrawal.
//
// Each operation is atomic from the caller's perspective: it either fully
// succeeds, or returns an error having mutated nothing. The outcome of each
// operation is a pure function of the account snapshots and the payload;
// the `*_outcome` spec functions below are that function, checks in the
// order the operation performs them, and the executable operations are
// proved to return and apply exactly what they say.
// ===========================================================================

/// What creation decides, given the target and creator account snapshots,
/// the invoking program, the instruction payload and the rent floor: the
/// record to persist, or the error to report.
pub open spec fn create_outcome(
    target: AccountModel,
    creator: AccountModel,
    program_id: Seq<u8>,
    payload: Seq<u8>,
    rent_minimum: u64,
) -> Result<RecordModel, CampaignError> {
    if !creator.is_signer {
        Err(CampaignError::AuthorizationError)
    } else if target.owner != program_id {
        Err(CampaignError::OwnershipError)
    } else {
        match spec_decode_record(payload) {
            None => Err(CampaignError::InvalidInstructionData),
            Some(m) => if m.admin != creator.key {
                Err(CampaignError::InvalidInstructionData)
            } else if target.lamports < rent_minimum {
                Err(CampaignError::InsufficientFundsError)
            } else {
                Ok(RecordModel { amount_donated: 0, ..m })
            },
        }
    }
}

/// Creation rejects a non-signer creator, a target account the program
/// does not own, a creator-supplied admin identity that differs from the
/// creator, and a target balance under the rent-exemption floor, each with
/// its own error; and whenever it succeeds, the record it persists carries
/// `amount_donated == 0` and the creator as admin, whatever the caller
/// supplied.
pub proof fn lemma_create_guards(
    target: AccountModel,
    creator: AccountModel,
    program_id: Seq<u8>,
    payload: Seq<u8>,
    rent_minimum: u64,
)
    ensures
        !creator.is_signer ==> create_outcome(target, creator, program_id, payload, rent_minimum)
            == Err::<RecordModel, CampaignError>(CampaignError::AuthorizationError),
        creator.is_signer && target.owner != program_id ==> create_outcome(
            target,
            creator,
            program_id,
            payload,
            rent_minimum,
        ) == Err::<RecordModel, CampaignError>(CampaignError::OwnershipError),
        creator.is_signer && target.owner == program_id && (spec_decode_record(payload) matches Some(m)
            && m.admin != creator.key) ==> create_outcome(
            target,
            creator,
            program_id,
            payload,
            rent_minimum,
        ) == Err::<RecordModel, CampaignError>(CampaignError::InvalidInstructionData),
        creator.is_signer && target.owner == program_id && spec_decode_record(payload) is None
            ==> create_outcome(target, creator, program_id, payload, rent_minimum) == Err::<
            RecordModel,
            CampaignError,
        >(CampaignError::InvalidInstructionData),
        creator.is_signer && target.owner == program_id && (spec_decode_record(payload) matches Some(m)
            && m.admin == creator.key) && target.lamports < rent_minimum ==> create_outcome(
            target,
            creator,
            program_id,
            payload,
            rent_minimum,
        ) == Err::<RecordModel, CampaignError>(CampaignError::InsufficientFundsError),
        create_outcome(target, creator, program_id, payload, rent_minimum) matches Ok(m) ==> (
        m.amount_donated == 0 && m.admin == creator.key && creator.is_signer && target.owner
            == program_id && target.lamports >= rent_minimum),
{
}

/// Whatever creation persists can be read back: the record of a successful
/// creation is valid, and the bytes written for it decode to it again.
pub proof fn lemma_create_persists(
    target: AccountModel,
    creator: AccountModel,
    program_id: Seq<u8>,
    payload: Seq<u8>,
    rent_minimum: u64,
)
    ensures
        create_outcome(target, creator, program_id, payload, rent_minimum) matches Ok(m)
            ==> record_wf(m) && spec_decode_record(spec_encode_record(m)) == Some(m),
{
    if create_outcome(target, creator, program_id, payload, rent_minimum) is Ok {
        lemma_record_reencode(payload);
        let m = create_outcome(target, creator, program_id, payload, rent_minimum)->Ok_0;
        lemma_record_round_trip(m);
    }
}

/// Withdrawal rejects a target account the program does not own, a
/// non-signer admin, and a caller whose identity differs from the stored
/// record's admin — the last regardless of the amount requested, since the
/// payload is arbitrary here; and whenever it succeeds, the caller was the
/// stored admin and the amount never exceeds the withdrawable balance:
/// what the target holds above the rent-exemption floor.
pub proof fn lemma_withdraw_guards(
    target: AccountModel,
    admin: AccountModel,
    program_id: Seq<u8>,
    payload: Seq<u8>,
    rent_minimum: u64,
)
    ensures
        target.owner != program_id ==> withdraw_outcome(
            target,
            admin,
            program_id,
            payload,
            rent_minimum,
        ) == Err::<(u64, RecordModel), CampaignError>(CampaignError::OwnershipError),
        target.owner == program_id && !admin.is_signer ==> withdraw_outcome(
            target,
            admin,
            program_id,
            payload,
            rent_minimum,
        ) == Err::<(u64, RecordModel), CampaignError>(CampaignError::AuthorizationError),
        target.owner == program_id && admin.is_signer && (spec_decode_record(target.data) matches Some(
            m,
        ) && m.admin != admin.key) ==> withdraw_outcome(
            target,
            admin,
            program_id,
            payload,
            rent_minimum,
        ) == Err::<(u64, RecordModel), CampaignError>(CampaignError::AuthorizationError),
        withdraw_outcome(target, admin, program_id, payload, rent_minimum) matches Ok((amount, m))
            ==> (admin.is_signer && target.owner == program_id && (spec_decode_record(target.data)
            matches Some(m0) && m0.admin == admin.key) && amount <= target.lamports
            && target.lamports - amount >= rent_minimum),
{
}

/// Creates a campaign: validates the creator's signature, the target's
/// ownership, the payload, the creator-supplied admin identity and the rent
/// floor, then persists the supplied record with `amount_donated` forced to
/// zero — creation never starts with pre-existing donations. On any failure
/// the target account is left unchanged.
pub fn create_campaign(
    program_id: &Pubkey,
    target: &mut AccountContext,
    creator: &AccountContext,
    payload: &Vec<u8>,
    rent_minimum: u64,
) -> (r: Result<(), CampaignError>)
    ensures
        match create_outcome(old(target)@, creator@, program_id@, payload@, rent_minimum) {
            Ok(m) => r == Ok::<(), CampaignError>(()) && final(target)@ == (AccountModel {
                data: spec_encode_record(m),
                ..old(target)@
            }),
            Err(e) => r == Err::<(), CampaignError>(e) && final(target)@ == old(target)@,
        },
{
    if let Err(e) = require_signer(creator) {
        return Err(e);
    }
    if let Err(e) = require_owned_by_program(target, program_id) {
        return Err(e);
    }
    proof {
        assert(payload@.skip(0) =~= payload@);
    }
    let rec = match decode_record(payload, 0) {
        None => {
            return Err(CampaignError::InvalidInstructionData);
        },
        Some(rec) => rec,
    };
    if !key_eq(&rec.admin, &creator.key) {
        return Err(CampaignError::InvalidInstructionData);
    }
    if let Err(e) = require_rent_exempt(target, rent_minimum) {
        return Err(e);
    }
    let rec = CampaignDetails { amount_donated: 0, ..rec };
    let ghost m = create_outcome(old(target)@, creator@, program_id@, payload@, rent_minimum)
        ->Ok_0;
    proof {
        assert(rec@ =~= m);
    }
    let bytes = encode_record(&rec);
    target.data = bytes;
    proof {
        assert(target@ =~= (AccountModel { data: spec_encode_record(m), ..old(target)@ }));
    }
    Ok(())
}

/// What withdrawal decides: the amount to move and the record to persist,
/// or the error to report.
///
/// The request is granted only when it never exceeds the withdrawable
/// balance: the amount must be covered by the target's balance and must
/// leave the rent-exemption floor behind. The persisted accumulator is
/// reconciled by subtracting the amount, stopping at zero: the accumulator
/// counts donations, while the balance also holds the funding the account
/// was opened with, so a legitimate withdrawal can exceed what was donated.
pub open spec fn withdraw_outcome(
    target: AccountModel,
    admin: AccountModel,
    program_id: Seq<u8>,
    payload: Seq<u8>,
    rent_minimum: u64,
) -> Result<(u64, RecordModel), CampaignError> {
    if target.owner != program_id {
        Err(CampaignError::OwnershipError)
    } else if !admin.is_signer {
        Err(CampaignError::AuthorizationError)
    } else {
        match spec_decode_record(target.data) {
            None => Err(CampaignError::DecodeError),
            Some(m) => if m.admin != admin.key {
                Err(CampaignError::AuthorizationError)
            } else {
                match spec_decode_request(payload) {
                    None => Err(CampaignError::InvalidInstructionData),
                    Some(amount) => if amount > target.lamports || target.lamports - amount
                        < rent_minimum {
                        Err(CampaignError::InsufficientFundsError)
                    } else {
                        Ok(
                            (
                                amount,
                                RecordModel {
                                    amount_donated: if amount <= m.amount_donated {
                                        (m.amount_donated - amount) as u64
                                    } else {
                                        0
                                    },
                                    ..m
                                },
                            ),
                        )
                    },
                }
            },
        }
    }
}

/// Withdraws funds from a campaign: validates the target's ownership and
/// the admin's signature, decodes the stored record, admits only the
/// record's admin, decodes the requested amount, and — when the amount is
/// within the withdrawable balance — moves it from the target to the admin
/// and persists the reconciled record, as one atomic step. On any failure
/// both accounts are left unchanged.
///
/// The caller must guarantee that the two balances together fit the
/// balance type; the host enforces this bound on all accounts it funds.
pub fn withdraw(
    program_id: &Pubkey,
    target: &mut AccountContext,
    admin: &mut AccountContext,
    payload: &Vec<u8>,
    rent_minimum: u64,
) -> (r: Result<(), CampaignError>)
    requires
        old(target).lamports + old(admin).lamports <= u64::MAX,
    ensures
        match withdraw_outcome(old(target)@, old(admin)@, program_id@, payload@, rent_minimum) {
            Ok((amount, m)) => r == Ok::<(), CampaignError>(()) && final(target)@ == (AccountModel {
                lamports: (old(target).lamports - amount) as u64,
                data: spec_encode_record(m),
                ..old(target)@
            }) && final(admin)@ == (AccountModel {
                lamports: (old(admin).lamports + amount) as u64,
                ..old(admin)@
            }),
            Err(e) => r == Err::<(), CampaignError>(e) && final(target)@ == old(target)@
                && final(admin)@ == old(admin)@,
        },
{
    if let Err(e) = require_owned_by_program(target, program_id) {
        return Err(e);
    }
    if let Err(e) = require_signer(admin) {
        return Err(e);
    }
    proof {
        assert(target.data@.skip(0) =~= target.data@);
    }
    let rec = match decode_record(&target.data, 0) {
        None => {
            return Err(CampaignError::DecodeError);
        },
        Some(rec) => rec,
    };
    if !key_eq(&rec.admin, &admin.key) {
        return Err(CampaignError::AuthorizationError);
    }
    proof {
        assert(payload@.skip(0) =~= payload@);
    }
    let request = match decode_request(payload, 0) {
        None => {
            return Err(CampaignError::InvalidInstructionData);
        },
        Some(request) => request,
    };
    if request.amount > target.lamports || target.lamports - request.amount < rent_minimum {
        return Err(CampaignError::InsufficientFundsError);
    }
    let new_donated = if request.amount <= rec.amount_donated {
        rec.amount_donated - request.amount
    } else {
        0
    };
    let rec = CampaignDetails { amount_donated: new_donated, ..rec };
    let ghost pair = withdraw_outcome(
        old(target)@,
        old(admin)@,
        program_id@,
        payload@,
        rent_minimum,
    )->Ok_0;
    proof {
        assert(rec@ =~= pair.1);
    }
    let bytes = encode_record(&rec);
    target.data = bytes;
    target.lamports = target.lamports - request.amount;
    admin.lamports = admin.lamports + request.amount;
    proof {
        assert(target@ =~= (AccountModel {
            lamports: (old(target).lamports - pair.0) as u64,
            data: spec_encode_record(pair.1),
            ..old(target)@
        }));
        assert(admin@ =~= (AccountModel {
            lamports: (old(admin).lamports + pair.0) as u64,
            ..old(admin)@
        }));
    }
    Ok(())
}

/// What a donation decides: the record to persist, or the error to report.
///
/// The accumulator saturates at its maximum rather than wrap; the host's
/// bound on circulating funds keeps real donations far below it.
pub open spec fn donate_outcome(target: AccountModel, program_id: Seq<u8>, amount: u64) -> Result<
    RecordModel,
    CampaignError,
> {
    if target.owner != program_id {
        Err(CampaignError::OwnershipError)
    } else {
        match spec_decode_record(target.data) {
            None => Err(CampaignError::DecodeError),
            Some(m) => Ok(
                RecordModel {
                    amount_donated: if amount <= u64::MAX - m.amount_donated {
                        (m.amount_donated + amount) as u64
                    } else {
                        u64::MAX
                    },
                    ..m
                },
            ),
        }
    }
}

/// Records a donation of `amount` in the campaign's ledger: decodes the
/// stored record, raises `amount_donated` by the amount, and persists the
/// result. On any failure the target account is left unchanged.
///
/// Moving the donated value itself from the donor to the target belongs to
/// the host's native transfer primitive, which also authorizes the donor;
/// the host performs that transfer first and then invokes this ledger
/// update, so the two form one invocation but two steps, and a failure
/// here leaves the ledger behind the balance, never ahead of it. The donor
/// account is carried for the operation's account order; no capability of
/// it is read here.
pub fn donate(
    program_id: &Pubkey,
    target: &mut AccountContext,
    _donor: &AccountContext,
    amount: u64,
) -> (r: Result<(), CampaignError>)
    ensures
        match donate_outcome(old(target)@, program_id@, amount) {
            Ok(m) => r == Ok::<(), CampaignError>(()) && final(target)@ == (AccountModel {
                data: spec_encode_record(m),
                ..old(target)@
            }),
            Err(e) => r == Err::<(), CampaignError>(e) && final(target)@ == old(target)@,
        },
{
    if let Err(e) = require_owned_by_program(target, program_id) {
        return Err(e);
    }
    proof {
        assert(target.data@.skip(0) =~= target.data@);
    }
    let rec = match decode_record(&target.data, 0) {
        None => {
            return Err(CampaignError::DecodeError);
        },
        Some(rec) => rec,
    };
    let new_donated = if amount <= u64::MAX - rec.amount_donated {
        rec.amount_donated + amount
    } else {
        u64::MAX
    };
    let rec = CampaignDetails { amount_donated: new_donated, ..rec };
    let ghost m = donate_outcome(old(target)@, program_id@, amount)->Ok_0;
    proof {
        assert(rec@ =~= m);
    }
    let bytes = encode_record(&rec);
    target.data = bytes;
    proof {
        assert(target@ =~= (AccountModel { data: spec_encode_record(m), ..old(target)@ }));
    }
    Ok(())
}

} // verus!
