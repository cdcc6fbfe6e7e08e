//! Errors of the wallet core and their classification.

use vstd::prelude::*;

verus! {

/// The broad class of a failure, which decides how a caller may react to it.
#[derive(Clone, Copy, Debug, PartialEq, Eq, Structural)]
pub enum ErrorKind {
    /// The caller passed something that can be corrected and passed again.
    Validation,
    /// An account, a record or a message is absent.
    NotFound,
    /// The available funds do not cover the requested amount.
    InsufficientFunds,
    /// The secure vault did not answer within its bounded wait.
    VaultTimeout,
    /// The secure store failed underneath the vault protocol.
    VaultProtocol,
    /// The ledger could not be reached, or what it answered does not fit
    /// what the wallet knows. The whole operation may be tried again.
    Network,
}

/// What can go wrong while syncing an account or preparing a transfer.
#[derive(Clone, Copy, Debug, PartialEq, Eq, Structural)]
pub enum WalletError {
    /// An address was built without its address value.
    AddressRequired,
    /// An address was built without its balance.
    BalanceRequired,
    /// An address was built without its key index.
    KeyIndexRequired,
    /// A transfer of nothing was requested.
    AmountMustBePositive,
    /// A gap limit of zero was configured.
    InvalidGapLimit,
    /// The parts of an account do not fit together.
    InvalidAccount,
    /// A discovery result was applied to an account it was not made for.
    StaleDiscovery,
    /// An account was handed in that is not the one of the handle.
    AccountMismatch,
    /// The balances of the candidate addresses do not cover the threshold.
    InsufficientFunds,
    /// A spendable output of the ledger carries no value.
    InvalidAmount,
    /// A sum of amounts does not fit into 64 bits.
    AmountOverflow,
    /// The spendable outputs hold more than the inputs were selected for,
    /// and no remainder address was chosen for the surplus.
    RemainderAddressUndefined,
    /// The address scan ran into its cap on rounds or indices.
    AddressSpaceExhausted,
    /// The ledger answered a batch query with the wrong addresses.
    UnexpectedBatch,
    /// No message with the given identifier is known to the account.
    MessageNotFound,
}

impl WalletError {
    /// The class of this error.
    pub open spec fn spec_kind(self) -> ErrorKind {
        match self {
            WalletError::AddressRequired => ErrorKind::Validation,
            WalletError::BalanceRequired => ErrorKind::Validation,
            WalletError::KeyIndexRequired => ErrorKind::Validation,
            WalletError::AmountMustBePositive => ErrorKind::Validation,
            WalletError::InvalidGapLimit => ErrorKind::Validation,
            WalletError::InvalidAccount => ErrorKind::Validation,
            WalletError::StaleDiscovery => ErrorKind::Validation,
            WalletError::AccountMismatch => ErrorKind::Validation,
            WalletError::InsufficientFunds => ErrorKind::InsufficientFunds,
            WalletError::InvalidAmount => ErrorKind::Network,
            WalletError::AmountOverflow => ErrorKind::Network,
            WalletError::RemainderAddressUndefined => ErrorKind::Network,
            WalletError::AddressSpaceExhausted => ErrorKind::Network,
            WalletError::UnexpectedBatch => ErrorKind::Network,
            WalletError::MessageNotFound => ErrorKind::NotFound,
        }
    }

    /// The class of this error.
    #[verifier::when_used_as_spec(spec_kind)]
    pub fn kind(self) -> (k: ErrorKind)
        ensures
            k == self.spec_kind(),
    {
        match self {
            WalletError::AddressRequired => ErrorKind::Validation,
            WalletError::BalanceRequired => ErrorKind::Validation,
            WalletError::KeyIndexRequired => ErrorKind::Validation,
            WalletError::AmountMustBePositive => ErrorKind::Validation,
            WalletError::InvalidGapLimit => ErrorKind::Validation,
            WalletError::InvalidAccount => ErrorKind::Validation,
            WalletError::StaleDiscovery => ErrorKind::Validation,
            WalletError::AccountMismatch => ErrorKind::Validation,
            WalletError::InsufficientFunds => ErrorKind::InsufficientFunds,
            WalletError::InvalidAmount => ErrorKind::Network,
            WalletError::AmountOverflow => ErrorKind::Network,
            WalletError::RemainderAddressUndefined => ErrorKind::Network,
            WalletError::AddressSpaceExhausted => ErrorKind::Network,
            WalletError::UnexpectedBatch => ErrorKind::Network,
            WalletError::MessageNotFound => ErrorKind::NotFound,
        }
    }
}

} // verus!
