//! Credit issuance and collateral accounting on fixed-point integers.
//!
//! Three ledgers work together. The settlement asset ([`UsdcToken`]) holds
//! what every account owns. The pool ([`LpToken`]) holds the capital of the
//! liquidity providers as rebasing shares and lends it out. The credit ledger
//! ([`UnifiedBNPLContract`]) issues bills, pays them with capital borrowed
//! from the pool against the user's own pool balance, takes repayments with
//! interest and liquidates what is not repaid.
//!
//! Every operation either takes the step that the ledger's mathematical
//! model describes, or reports a failure and leaves all ledgers as they
//! were. [`laws`] states what holds of the ledgers whatever is done.
//!
//! The pool keeps its books, and the credit ledger the open bills of each
//! user, in collections of the Soroban host; [`host`] lists what is taken on
//! trust about them. [`collateral`] ties the pool to the credit ledger: what
//! an account may take out of the pool is what the credit ledger does not
//! require as collateral.
//!
//! Accounts are identified by numbers. Who may call an operation is for the
//! caller to establish; the time is passed in.

pub mod bill_ids;
pub mod bnpl_core;
pub mod collateral;
pub mod error;
pub mod fees;
pub mod host;
pub mod host_books;
pub mod laws;
pub mod ledger;
pub mod lp_token;
pub mod step;
pub mod types;
pub mod usdc_token;

pub use crate::bnpl_core::{CoreState, ProtocolConstants, UnifiedBNPLContract};
pub use crate::error::{Error, PoolError, TokenError};
pub use crate::host_books::{AllowanceBook, ShareBook};
pub use crate::ledger::{Address, Allowances, Ledger};
pub use crate::lp_token::{LpToken, PoolState};
pub use crate::types::{
    Bill, BillStatus, BorrowingPower, Config, MerchantData, MerchantStatus, TokenMetadata,
};
pub use crate::usdc_token::{TokenState, UsdcToken};
