//! Transactional core of a wallet for a distributed ledger: address discovery,
//! reconciliation of the local transaction history, input selection for
//! transfers, and the request/response protocol of the secure-vault actor.
//!
//! Everything here is pure: functions take the answers of the ledger, of the
//! storage and of the secure store as plain values and say what to do next.

pub mod account;
pub mod address;
pub mod error;
pub mod message;
pub mod stronghold;
pub mod ternary;

pub use crate::error::{ErrorKind, WalletError};
pub use crate::account::manager::AccountManager;
pub use crate::account::sync::{AccountSynchronizer, SyncedAccount};
pub use crate::account::{Account, AccountIdentifier};
pub use crate::address::{Address, AddressBuilder, IotaAddress};
pub use crate::message::{IotaMessage, Message, MessageId, Payload, Transfer};
