//! The account manager.

use vstd::prelude::*;

verus! {

/// The account manager.
///
/// Used to manage multiple accounts. It holds nothing by itself: creating,
/// listing and deleting accounts is the business of the storage, and the
/// application does it there.
#[derive(Clone, Copy, Debug, PartialEq, Eq, Structural)]
pub struct AccountManager {}

impl AccountManager {
    /// Initialises a new instance of the account manager.
    pub fn new() -> (r: AccountManager)
        ensures
            r == (AccountManager {  }),
    {
        AccountManager {  }
    }
}

} // verus!
