use vstd::prelude::*;

verus! {

/// Every way an invocation can fail. Each precondition failure aborts the
/// operation immediately with no partial state mutation, and each failure is
/// reported to the caller, never swallowed.
#[derive(Clone, Copy, Debug, PartialEq, Eq, Structural)]
pub enum CampaignError {
    /// The instruction buffer is malformed or carries an unrecognized
    /// opcode, or the creator-supplied admin identity does not match the
    /// creator at creation.
    InvalidInstructionData,
    /// A required signer is absent, or a withdrawal was attempted by a
    /// non-admin identity.
    AuthorizationError,
    /// A state account is not owned by this program.
    OwnershipError,
    /// The account balance is below the rent-exemption floor, or below what
    /// the requested withdrawal would leave it needing.
    InsufficientFundsError,
    /// The account buffer cannot be parsed as the expected record shape.
    DecodeError,
}

impl CampaignError {
    /// A human-readable diagnostic for the host's error-reporting channel.
    pub fn message(&self) -> &'static str {
        match self {
            CampaignError::InvalidInstructionData => "invalid instruction data",
            CampaignError::AuthorizationError => "required signer absent or caller is not the admin",
            CampaignError::OwnershipError => "account is not owned by this program",
            CampaignError::InsufficientFundsError => "account balance is insufficient",
            CampaignError::DecodeError => "account data cannot be decoded as a campaign record",
        }
    }
}

} // verus!
