//! Per-client account balances driven by a stream of deposit, withdrawal, dispute,
//! resolve and chargeback records, with exact fixed-point decimal arithmetic.

pub mod account;
pub mod account_laws;
pub mod amount;
pub mod registry;

pub use crate::account::{Account, AccountView, DepositRecord, TransactionError, TransactionRecord, TransactionType};
pub use crate::amount::Amount;
pub use crate::registry::{apply_record, process_records};
