//! Streaming transaction processing: per-client accounts, the dispute
//! lifecycle, and the block files that index past deposits.

pub mod error;
pub mod model;
pub mod text;
pub mod tx_block_store;
pub mod tx_error;
pub mod tx_processor;
pub mod tx_record;

pub use crate::error::Error;
pub use crate::model::{Account, Accounts, Amount, ClientId, Transaction, TxId};
pub use crate::tx_error::TxError;
pub use crate::tx_processor::TxProcessor;
pub use crate::tx_record::{TxRecord, TxType};
