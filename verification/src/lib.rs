//! Verified storage layer of the QuickLendX invoice-financing protocol.

pub mod bid;
pub mod errors;
pub mod investment;
pub mod laws;
pub mod ledger;
pub mod protocol_limits;
pub mod source_scan;
pub mod storage;
pub mod symbol;
pub mod table;
pub mod types;
