//! The discriminated results of the pool's entry points.

use crate::fixed::MathError;
use vstd::prelude::*;

verus! {

/// Failures of the role check that gates administrative mutators.
#[derive(Clone, Copy, Debug, PartialEq, Eq, Structural)]
pub enum AccessControlError {
    InvalidCaller,
    MissingRole,
    RoleRedundant,
}

/// Failures of the pause switch.
#[derive(Clone, Copy, Debug, PartialEq, Eq, Structural)]
pub enum PausableError {
    Paused,
    NotPaused,
}

/// Failures reported by the receiver of a flash loan.
#[derive(Clone, Copy, Debug, PartialEq, Eq, Structural)]
pub enum FlashLoanReceiverError {
    ExecuteOperationFailed,
    CantApprove,
}

/// Why an operation on the pool was refused. A refused operation leaves the
/// pool as it was.
#[derive(Clone, Copy, Debug, PartialEq, Eq, Structural)]
pub enum LendingPoolError {
    FlashLoanReceiverError(FlashLoanReceiverError),
    AccessControlError(AccessControlError),
    PausableError(PausableError),
    MathError(MathError),
    Inactive,
    AlreadySet,
    Freezed,
    AlreadyRegistered,
    AssetNotRegistered,
    AssetIsProtocolStablecoin,
    RuleBorrowDisable,
    RuleCollateralDisable,
    InsufficientCollateral,
    MinimalCollateralDeposit,
    MinimalDebt,
    InsufficientDebt,
    Collaterized,
    InsufficientDeposit,
    MinimumRecieved,
    AmountNotGreaterThanZero,
    AmountExceedsUserDeposit,
    AmountExceedsUserDebt,
    AssetPriceNotInitialized,
    NothingToRedeem,
    NothingToRepay,
    NothingToCompensateWith,
    RepayingWithACollateral,
    TakingNotACollateral,
    FlashLoanAmountsAssetsInconsistentLengths,
    MaxSupplyReached,
    MaxDebtReached,
    MarketRuleInvalidAssetId,
    MarketRuleInvalidId,
    MarketRulePenaltyNotSet,
    PriceMissing,
    AccumulatedAlready,
    InsufficientUserFreeCollateral,
    UnspecifiedAction,
    PSP22Error,
}

/// Why the debt-token collaborator's transfer of a debt position was refused.
#[derive(Clone, Copy, Debug, PartialEq, Eq, Structural)]
pub enum LendingPoolTokenInterfaceError {
    MathError(MathError),
    InsufficientBalance,
    WrongCaller,
    InsufficientCollateral,
    TransfersDisabled,
    MinimalDebt,
    AssetNotRegistered,
}

impl From<MathError> for LendingPoolError {
    fn from(error: MathError) -> (e: LendingPoolError) {
        LendingPoolError::MathError(error)
    }
}

impl vstd::std_specs::convert::FromSpecImpl<MathError> for LendingPoolError {
    open spec fn obeys_from_spec() -> bool {
        true
    }

    open spec fn from_spec(error: MathError) -> LendingPoolError {
        LendingPoolError::MathError(error)
    }
}

impl From<AccessControlError> for LendingPoolError {
    fn from(error: AccessControlError) -> (e: LendingPoolError) {
        LendingPoolError::AccessControlError(error)
    }
}

impl vstd::std_specs::convert::FromSpecImpl<AccessControlError> for LendingPoolError {
    open spec fn obeys_from_spec() -> bool {
        true
    }

    open spec fn from_spec(error: AccessControlError) -> LendingPoolError {
        LendingPoolError::AccessControlError(error)
    }
}

impl From<PausableError> for LendingPoolError {
    fn from(error: PausableError) -> (e: LendingPoolError) {
        LendingPoolError::PausableError(error)
    }
}

impl vstd::std_specs::convert::FromSpecImpl<PausableError> for LendingPoolError {
    open spec fn obeys_from_spec() -> bool {
        true
    }

    open spec fn from_spec(error: PausableError) -> LendingPoolError {
        LendingPoolError::PausableError(error)
    }
}

impl From<FlashLoanReceiverError> for LendingPoolError {
    fn from(flash_error: FlashLoanReceiverError) -> (e: LendingPoolError) {
        LendingPoolError::FlashLoanReceiverError(flash_error)
    }
}

impl vstd::std_specs::convert::FromSpecImpl<FlashLoanReceiverError> for LendingPoolError {
    open spec fn obeys_from_spec() -> bool {
        true
    }

    open spec fn from_spec(flash_error: FlashLoanReceiverError) -> LendingPoolError {
        LendingPoolError::FlashLoanReceiverError(flash_error)
    }
}

/// The failures of a fungible-asset token.
#[derive(Clone, Debug, PartialEq, Eq)]
pub enum PSP22Error {
    /// A failure that the token describes in words.
    Custom(String),
    InsufficientBalance,
    InsufficientAllowance,
    ZeroRecipientAddress,
    ZeroSenderAddress,
    SafeTransferCheckFailed(String),
}

impl From<PSP22Error> for LendingPoolError {
    fn from(_error: PSP22Error) -> (e: LendingPoolError) {
        LendingPoolError::PSP22Error
    }
}

impl vstd::std_specs::convert::FromSpecImpl<PSP22Error> for LendingPoolError {
    open spec fn obeys_from_spec() -> bool {
        true
    }

    open spec fn from_spec(_error: PSP22Error) -> LendingPoolError {
        LendingPoolError::PSP22Error
    }
}

/// The text by which debug formatting shows an error of the pool.
pub uninterp spec fn debug_text_of(error: LendingPoolError) -> Seq<char>;

/// Formats an error of the pool with `format!` and the debug placeholder.
/// The text is taken to depend on the error alone; nothing is claimed of
/// what it says.
#[verifier::external_body]
fn debug_text(error: &LendingPoolError) -> (text: String)
    ensures
        text@ == debug_text_of(*error),
{
    format!("{:?}", error)
}

impl PSP22Error {
    /// The failure that a wrapped-balance token reports when the pool refused
    /// an operation: an underflow is an insufficient balance, and every other
    /// error is reported by its debug text.
    pub fn from(error: LendingPoolError) -> (e: PSP22Error)
        ensures
            match error {
                LendingPoolError::MathError(MathError::Underflow) => e
                    == PSP22Error::InsufficientBalance,
                _ => e matches PSP22Error::Custom(text) && text@ == debug_text_of(error),
            },
    {
        match error {
            LendingPoolError::MathError(MathError::Underflow) => PSP22Error::InsufficientBalance,
            e => PSP22Error::Custom(debug_text(&e)),
        }
    }
}

/// Lifts the result of a fixed-point computation into the pool's errors.
pub open spec fn lift<T>(r: Result<T, MathError>) -> Result<T, LendingPoolError> {
    match r {
        Ok(v) => Ok(v),
        Err(e) => Err(LendingPoolError::MathError(e)),
    }
}

} // verus!
