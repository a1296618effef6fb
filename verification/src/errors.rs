//! The typed failure outcomes of every ledger operation.

use vstd::prelude::*;

verus! {

/// Why a ledger operation refused to run.
///
/// No operation partially commits: a call that returns one of these leaves
/// the ledger exactly as it was.  The last three variants are reserved for
/// the host's token-transfer collaborator; the ledger itself never returns
/// them.  `Overflow` reports arithmetic that would exceed the machine
/// integer range (including a division by a zero denominator), which is
/// fatal to the call but never silently wraps.
#[derive(Clone, Copy, Debug, PartialEq, Eq, Structural)]
pub enum Error {
    NotJudger,
    NotOfficial,
    InsufficientCoverage,
    ExistingUnderwriter,
    NotUnderwriter,
    NotValidUnderwriter,
    ProviderLeavingInProgress,
    NotHistoricalUnderwriter,
    HistoricalProviderLeavingInProgress,
    InsufficientSToken,
    NotExistedPolicy,
    AlreadyCancelledPolicy,
    NotExpiredPolicy,
    ClaimingInProgress,
    OnlyPolicyHolderCanCancel,
    PreviousPolicyNotCancelled,
    NotBeneficiary,
    AlreadyClaimedPolicy,
    InClaimingProgress,
    NotEffectivePolicy,
    NotInClaimingProgress,
    NotValidMiningProxy,
    InsufficientBalance,
    InsufficientAllowance,
    TransferError,
    Overflow,
}

} // verus!
