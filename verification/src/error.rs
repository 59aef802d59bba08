//! Failure kinds of the three ledgers.

use vstd::prelude::*;

verus! {

/// Why an operation of the credit ledger was rejected.
#[derive(Clone, Copy, Debug, PartialEq, Eq, Structural)]
pub enum Error {
    AlreadyInitialized,
    NotInitialized,
    NotAdmin,
    AdminAlreadySet,
    CannotRemoveItself,
    BillNotFound,
    BillNotPayable,
    BillNotPaid,
    BillExpired,
    LiquidationNotPossible,
    InvalidAmount,
    InvalidInstallmentNumber,
    InsufficientCollateralForLiquidation,
    GracePeriodNotExpired,
    NonLpTokenHolder,
    InvalidInput,
    InternalError,
    MerchantAlreadyEnrolled,
    MerchantNotFound,
    MerchantNotApproved,
}

impl Error {
    /// The stable numeric code under which the failure is reported.
    pub open spec fn spec_code(self) -> u32 {
        match self {
            Error::AlreadyInitialized => 1,
            Error::NotInitialized => 2,
            Error::NotAdmin => 11,
            Error::AdminAlreadySet => 12,
            Error::CannotRemoveItself => 13,
            Error::BillNotFound => 20,
            Error::BillNotPayable => 21,
            Error::BillNotPaid => 22,
            Error::BillExpired => 23,
            Error::LiquidationNotPossible => 24,
            Error::InvalidAmount => 25,
            Error::InvalidInstallmentNumber => 41,
            Error::InsufficientCollateralForLiquidation => 42,
            Error::GracePeriodNotExpired => 43,
            Error::NonLpTokenHolder => 44,
            Error::InvalidInput => 100,
            Error::InternalError => 101,
            Error::MerchantAlreadyEnrolled => 110,
            Error::MerchantNotFound => 111,
            Error::MerchantNotApproved => 112,
        }
    }

    /// The stable numeric code under which the failure is reported.
    #[verifier::when_used_as_spec(spec_code)]
    pub fn code(self) -> (c: u32)
        ensures
            c == self.spec_code(),
    {
        match self {
            Error::AlreadyInitialized => 1,
            Error::NotInitialized => 2,
            Error::NotAdmin => 11,
            Error::AdminAlreadySet => 12,
            Error::CannotRemoveItself => 13,
            Error::BillNotFound => 20,
            Error::BillNotPayable => 21,
            Error::BillNotPaid => 22,
            Error::BillExpired => 23,
            Error::LiquidationNotPossible => 24,
            Error::InvalidAmount => 25,
            Error::InvalidInstallmentNumber => 41,
            Error::InsufficientCollateralForLiquidation => 42,
            Error::GracePeriodNotExpired => 43,
            Error::NonLpTokenHolder => 44,
            Error::InvalidInput => 100,
            Error::InternalError => 101,
            Error::MerchantAlreadyEnrolled => 110,
            Error::MerchantNotFound => 111,
            Error::MerchantNotApproved => 112,
        }
    }
}

/// Why an operation of the settlement-asset ledger was rejected.
#[derive(Clone, Copy, Debug, PartialEq, Eq, Structural)]
pub enum TokenError {
    /// The ledger was initialized before.
    AlreadyInitialized,
    /// The ledger was not initialized yet.
    NotInitialized,
    /// The amount is zero or negative.
    AmountNotPositive,
    /// The mint would exceed what one account may mint per day.
    DailyMintLimitExceeded,
    /// The owner holds less than the amount.
    InsufficientBalance,
    /// The spender may move less than the amount.
    InsufficientAllowance,
    /// The total supply would leave the representable range.
    Overflow,
}

/// Why an operation of the pool ledger was rejected.
#[derive(Clone, Copy, Debug, PartialEq, Eq, Structural)]
pub enum PoolError {
    /// The pool was initialized before.
    AlreadyInitialized,
    /// The pool was not initialized yet.
    NotInitialized,
    /// No credit ledger is configured.
    CreditLedgerNotSet,
    /// The amount is negative, or zero where a positive amount is needed.
    InvalidAmount,
    /// The amount exceeds the balance that is not locked as collateral.
    InsufficientAvailableBalance,
    /// The account holds fewer shares than a liquidation has to burn.
    InsufficientCollateralForLiquidation,
    /// The spender may move less than the amount.
    AllowanceExceeded,
    /// A share or index computation left the representable range.
    Overflow,
    /// The settlement-asset ledger rejected a transfer.
    Asset(TokenError),
    /// The credit ledger could not report the collateral it requires.
    CreditLedger(Error),
}

} // verus!
