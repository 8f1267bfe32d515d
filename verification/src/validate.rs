use crate::account::{key_eq, AccountContext, Pubkey};
use crate::error::CampaignError;
use vstd::prelude::*;

verus! {

// The three account checks every mutation is guarded by. Each one is a pure
// classification of the execution context: it never mutates anything.

/// Fails unless the account cryptographically co-authorized the invocation.
pub fn require_signer(account: &AccountContext) -> (r: Result<(), CampaignError>)
    ensures
        r == (if account.is_signer {
            Ok::<(), CampaignError>(())
        } else {
            Err::<(), CampaignError>(CampaignError::AuthorizationError)
        }),
{
    if account.is_signer {
        Ok(())
    } else {
        Err(CampaignError::AuthorizationError)
    }
}

/// Fails unless the account's owner is the invoking program. This prevents a
/// caller from pointing the program at arbitrary foreign storage.
pub fn require_owned_by_program(account: &AccountContext, program_id: &Pubkey) -> (r: Result<
    (),
    CampaignError,
>)
    ensures
        r == (if account@.owner == program_id@ {
            Ok::<(), CampaignError>(())
        } else {
            Err::<(), CampaignError>(CampaignError::OwnershipError)
        }),
{
    if key_eq(&account.owner, program_id) {
        Ok(())
    } else {
        Err(CampaignError::OwnershipError)
    }
}

/// Fails unless the account's balance reaches the rent-exemption floor.
/// The floor is a host-provided function of the account's data size; the
/// host computes it per call and hands it in as `rent_minimum`.
pub fn require_rent_exempt(account: &AccountContext, rent_minimum: u64) -> (r: Result<
    (),
    CampaignError,
>)
    ensures
        r == (if account.lamports >= rent_minimum {
            Ok::<(), CampaignError>(())
        } else {
            Err::<(), CampaignError>(CampaignError::InsufficientFundsError)
        }),
{
    if account.lamports >= rent_minimum {
        Ok(())
    } else {
        Err(CampaignError::InsufficientFundsError)
    }
}

} // verus!
