//! Records of the credit ledger.

use crate::ledger::Address;
use vstd::prelude::*;

verus! {

/// Where a merchant stands in the enrollment process.
#[derive(Clone, Copy, Debug, PartialEq, Eq, Structural)]
pub enum MerchantStatus {
    /// Not enrolled.
    NotEnrolled,
    /// Enrolled, waiting for a decision.
    Pending,
    /// Approved and active.
    Approved,
    /// Application rejected.
    Rejected,
    /// Temporarily suspended.
    Suspended,
    /// Permanently cancelled.
    Cancelled,
}

/// Where a bill stands in its life cycle.
#[derive(Clone, Copy, Debug, PartialEq, Eq, Structural)]
pub enum BillStatus {
    /// Not created.
    NotCreated,
    /// Created, not yet paid.
    Created,
    /// Not paid within the issuance window.
    Expired,
    /// Paid to the merchant with capital of the pool.
    Paid,
    /// Repaid by the user.
    Repaid,
    /// Late fee applies.
    Overdue,
    /// Settled by burning the user's collateral.
    Liquidated,
}

impl BillStatus {
    /// A status that no transition leaves.
    pub open spec fn is_terminal(self) -> bool {
        self == BillStatus::Repaid || self == BillStatus::Liquidated || self == BillStatus::Expired
    }
}

/// The identities the credit ledger works with, fixed at initialization.
#[derive(Clone, Copy, Debug, PartialEq, Eq, Structural)]
pub struct Config {
    pub admin: Address,
    pub liquidity_pool: Address,
    pub usdc_token: Address,
    pub treasury: Address,
    pub insurance_fund: Address,
}

/// Name, symbol and number of decimals of a token.
#[derive(Clone, Debug)]
pub struct TokenMetadata {
    pub decimal: u32,
    pub name: soroban_sdk::String,
    pub symbol: soroban_sdk::String,
}

impl TokenMetadata {
    /// A copy with the same name, symbol and decimals.
    pub fn duplicate(&self) -> (m: TokenMetadata)
        ensures
            m == *self,
    {
        TokenMetadata {
            decimal: self.decimal,
            name: self.name.clone(),
            symbol: self.symbol.clone(),
        }
    }
}

/// What the ledger records of an enrolled merchant.
#[derive(Clone, Debug)]
pub struct MerchantData {
    /// Reference to the merchant's profile, kept outside the ledger.
    pub merchant_info_id: soroban_sdk::String,
    pub status: MerchantStatus,
}

/// One extension of credit from the pool to a user on behalf of a merchant.
#[derive(Clone, Debug)]
pub struct Bill {
    pub id: u64,
    pub merchant: Address,
    pub user: Address,
    pub principal: i128,
    pub status: BillStatus,
    /// Reference to the order, kept outside the ledger.
    pub order_id: soroban_sdk::String,
    pub created_at: u64,
    pub paid_at: u64,
}

/// What a user may still borrow, derived from pool balance and open debt.
#[derive(Clone, Copy, Debug, PartialEq, Eq, Structural)]
pub struct BorrowingPower {
    pub lp_balance: i128,
    pub max_borrowing: i128,
    pub current_borrowed: i128,
    pub current_debt: i128,
    pub available_borrowing: i128,
    pub required_collateral: i128,
    pub overall_health_factor: i128,
}

} // verus!
