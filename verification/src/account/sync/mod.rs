//! Syncing an account with the ledger and preparing transfers from it.
//!
//! Nothing here talks to the ledger, to the storage or to the vault. A sync
//! runs in three steps: the address scan of [`discovery`], one question to
//! the ledger about confirmations, and [`AccountSynchronizer::execute`],
//! which brings the account up to date. A transfer runs in three steps too:
//! [`SyncedAccount::transfer`] checks it and selects its inputs,
//! [`PreparedTransfer::allocate`] makes its transaction out of the
//! spendable outputs, and [`SyncedAccount::record_transfer`] records what
//! the ledger accepted. The account is to be stored after the last step of
//! each, and not before.

use crate::account::{
    below, contains_id, find_message, latest_index, lemma_below, lemma_interleaved_is_distinct,
    max_index, same_slot, Account,
};
use crate::address::{Address, IotaAddress};
use crate::error::WalletError;
use crate::message::{IotaMessage, Message, MessageId, Transfer};
use vstd::prelude::*;

pub mod discovery;
pub mod input_selection;
pub mod transactions;
pub mod transfer;

pub use self::discovery::{AddressDiscovery, Batch, Discovered, DiscoveryStep};
pub use self::transactions::sync_transactions;
pub use self::transfer::{PreparedTransfer, TransactionPlan};

use self::discovery::DiscoveryView;
use self::input_selection::{
    lemma_select_covers, lemma_select_from_available, lemma_total_nonnegative, select_input,
    spec_select, sum_balances, total_balance,
};
use self::transactions::spec_sync;
use self::transfer::{lemma_remainder_output, spec_allocate, total_amount, Utxo};

verus! {

broadcast use {Message::lemma_spec_new, Message::lemma_parts};

/// The gap limit of a sync for which none was chosen.
pub const DEFAULT_GAP_LIMIT: usize = 20;

/// Tells whether two account identifiers are the same.
pub fn same_id(a: &[u8; 32], b: &[u8; 32]) -> (r: bool)
    ensures
        r == (*a == *b),
{
    let mut i: usize = 0;
    while i < 32
        invariant
            i <= 32,
            forall|j: int| 0 <= j < i ==> a[j] == b[j],
        decreases 32 - i,
    {
        if a[i] != b[i] {
            return false;
        }
        i += 1;
    }
    assert(*a =~= *b);
    true
}

/// The identifiers of the messages, in their order.
pub open spec fn ids_of(found: Seq<IotaMessage>) -> Seq<MessageId> {
    found.map_values(|message: IotaMessage| message.id)
}

/// Lists the identifiers of the messages, in their order.
pub fn message_ids(found: &Vec<IotaMessage>) -> (r: Vec<MessageId>)
    ensures
        r@ == ids_of(found@),
{
    let mut ids: Vec<MessageId> = Vec::new();
    let mut i: usize = 0;
    while i < found.len()
        invariant
            i <= found.len(),
            ids.len() == i,
            forall|j: int| 0 <= j < i ==> ids[j] == (#[trigger] found[j]).id,
        decreases found.len() - i,
    {
        ids.push(found[i].id);
        i += 1;
    }
    assert(ids@ =~= ids_of(found@));
    ids
}

/// The identifiers of the messages that are not confirmed, in their order.
pub open spec fn unconfirmed_ids(messages: Seq<Message>) -> Seq<MessageId>
    decreases messages.len(),
{
    if messages.len() == 0 {
        Seq::empty()
    } else {
        let front = unconfirmed_ids(messages.drop_last());
        if messages.last().spec_confirmed() {
            front
        } else {
            front.push(messages.last().spec_message_id())
        }
    }
}

/// The identifiers of the found messages that are not among `messages`, in
/// their order.
pub open spec fn missing_ids(messages: Seq<Message>, found: Seq<IotaMessage>) -> Seq<MessageId>
    decreases found.len(),
{
    if found.len() == 0 {
        Seq::empty()
    } else {
        let front = missing_ids(messages, found.drop_last());
        if contains_id(messages, found.last().id) {
            front
        } else {
            front.push(found.last().id)
        }
    }
}

/// The addresses that may pay for a transfer to `destination`: all but the
/// destination itself.
pub open spec fn candidates(addresses: Seq<Address>, destination: IotaAddress) -> Seq<Address>
    decreases addresses.len(),
{
    if addresses.len() == 0 {
        Seq::empty()
    } else {
        let front = candidates(addresses.drop_last(), destination);
        if addresses.last().spec_address() != destination {
            front.push(addresses.last())
        } else {
            front
        }
    }
}

/// The inputs of a transfer and the address that takes what is left over,
/// or why there are none.
///
/// The inputs are selected among the candidates, largest balance first. The
/// selection fails when the candidates do not cover the threshold. A
/// remainder address is named exactly when the inputs hold more than the
/// threshold, and it is the latest address of the account.
pub open spec fn spec_select_inputs(
    threshold: u64,
    addresses: Seq<Address>,
    destination: IotaAddress,
) -> Result<(Seq<Address>, Option<Address>), WalletError> {
    let available = candidates(addresses, destination);
    if total_balance(available) < threshold {
        Err(WalletError::InsufficientFunds)
    } else {
        let selected = spec_select(threshold as int, available);
        Ok(
            (
                selected,
                if total_balance(selected) > threshold {
                    Some(addresses.last())
                } else {
                    None
                },
            ),
        )
    }
}

/// Every candidate is an address of the account and differs from the
/// destination.
pub proof fn lemma_candidates(addresses: Seq<Address>, destination: IotaAddress)
    ensures
        candidates(addresses, destination).len() <= addresses.len(),
        forall|k: int|
            0 <= k < candidates(addresses, destination).len() ==> {
                &&& (#[trigger] candidates(addresses, destination)[k]).spec_address()
                    != destination
                &&& addresses.contains(candidates(addresses, destination)[k])
            },
    decreases addresses.len(),
{
    if addresses.len() > 0 {
        let front = addresses.drop_last();
        lemma_candidates(front, destination);
        let before = candidates(front, destination);
        let after = candidates(addresses, destination);
        assert forall|k: int| 0 <= k < after.len() implies {
            &&& (#[trigger] after[k]).spec_address() != destination
            &&& addresses.contains(after[k])
        } by {
            if k < before.len() {
                assert(after[k] == before[k]);
                let i = choose|i: int| 0 <= i < front.len() && front[i] == before[k];
                assert(addresses[i] == after[k]);
            } else {
                assert(addresses[addresses.len() - 1] == after[k]);
            }
        }
    }
}

/// Input selection never returns the destination of the transfer: every
/// selected address is an address of the account that differs from the
/// destination. Together the selected addresses cover the threshold.
pub proof fn lemma_selection_excludes_destination(
    threshold: u64,
    addresses: Seq<Address>,
    destination: IotaAddress,
)
    requires
        spec_select_inputs(threshold, addresses, destination) is Ok,
    ensures
        ({
            let selected = spec_select_inputs(threshold, addresses, destination)->Ok_0.0;
            &&& total_balance(selected) >= threshold
            &&& forall|j: int|
                0 <= j < selected.len() ==> {
                    &&& (#[trigger] selected[j]).spec_address() != destination
                    &&& addresses.contains(selected[j])
                }
        }),
{
    let available = candidates(addresses, destination);
    let selected = spec_select(threshold as int, available);
    lemma_candidates(addresses, destination);
    lemma_select_covers(threshold as int, available);
    assert forall|j: int| 0 <= j < selected.len() implies {
        &&& (#[trigger] selected[j]).spec_address() != destination
        &&& addresses.contains(selected[j])
    } by {
        lemma_select_from_available(threshold as int, available, j);
        let k = choose|k: int| 0 <= k < available.len() && available[k] == selected[j];
        assert(available[k].spec_address() != destination);
    }
}

/// Inputs that hold exactly the threshold need no remainder address.
/// Inputs that hold more get one: the latest address of the account.
pub proof fn lemma_selection_remainder(
    threshold: u64,
    addresses: Seq<Address>,
    destination: IotaAddress,
)
    requires
        spec_select_inputs(threshold, addresses, destination) is Ok,
    ensures
        ({
            let (selected, remainder) = spec_select_inputs(threshold, addresses, destination)->Ok_0;
            &&& total_balance(selected) == threshold ==> remainder is None
            &&& total_balance(selected) > threshold ==> addresses.len() > 0 && remainder == Some(
                addresses.last(),
            )
        }),
{
    let available = candidates(addresses, destination);
    let selected = spec_select(threshold as int, available);
    lemma_candidates(addresses, destination);
    lemma_select_covers(threshold as int, available);
    if total_balance(selected) > threshold {
        lemma_total_nonnegative(spec_select(threshold as int, available));
        assert(selected.len() > 0);
    }
}

/// What is left over of a transfer returns to the latest address of the
/// account: whenever the inputs of a transfer were selected and its
/// transaction was made, spendable outputs that hold exactly the amount
/// leave every output with the recipient, and spendable outputs that hold
/// more yield exactly one further output, the last one, which goes to the
/// latest address of the account.
pub proof fn lemma_surplus_returns_to_latest_address(
    amount: u64,
    addresses: Seq<Address>,
    destination: IotaAddress,
    utxos: Seq<Utxo>,
)
    requires
        spec_select_inputs(amount, addresses, destination) is Ok,
        spec_allocate(
            utxos,
            amount,
            destination,
            match spec_select_inputs(amount, addresses, destination)->Ok_0.1 {
                Some(address) => Some(address.spec_address()),
                None => None,
            },
        ) is Ok,
    ensures
        ({
            let remainder = match spec_select_inputs(amount, addresses, destination)->Ok_0.1 {
                Some(address) => Some(address.spec_address()),
                None => None,
            };
            let outputs = spec_allocate(utxos, amount, destination, remainder)->Ok_0.outputs;
            let to_recipient = self::transfer::recipient_outputs(utxos, amount as int, destination);
            &&& total_amount(utxos) == amount ==> outputs == to_recipient
            &&& total_amount(utxos) > amount ==> {
                &&& addresses.len() > 0
                &&& outputs.len() == to_recipient.len() + 1
                &&& outputs.drop_last() == to_recipient
                &&& outputs.last().address == addresses.last().spec_address()
                &&& outputs.last().amount == total_amount(utxos) - amount
            }
            &&& forall|k: int|
                0 <= k < to_recipient.len() ==> (#[trigger] to_recipient[k]).address == destination
        }),
{
    let remainder = match spec_select_inputs(amount, addresses, destination)->Ok_0.1 {
        Some(address) => Some(address.spec_address()),
        None => None,
    };
    lemma_selection_remainder(amount, addresses, destination);
    lemma_selection_excludes_destination(amount, addresses, destination);
    lemma_remainder_output(utxos, amount, destination, remainder);
}

/// Picks the addresses that may pay for a transfer to `destination`.
pub fn available_addresses(addresses: &Vec<Address>, destination: &IotaAddress) -> (r: Vec<Address>)
    ensures
        r@ == candidates(addresses@, *destination),
{
    let mut available: Vec<Address> = Vec::new();
    let mut i: usize = 0;
    while i < addresses.len()
        invariant
            i <= addresses.len(),
            available@ == candidates(addresses@.take(i as int), *destination),
        decreases addresses.len() - i,
    {
        proof {
            assert(addresses@.take(i + 1).drop_last() =~= addresses@.take(i as int));
        }
        if *addresses[i].address() != *destination {
            available.push(addresses[i]);
        }
        i += 1;
    }
    proof {
        assert(addresses@.take(addresses.len() as int) =~= addresses@);
    }
    available
}

/// Account sync helper.
#[derive(Clone, Copy, Debug)]
pub struct AccountSynchronizer {
    address_index: usize,
    gap_limit: Option<usize>,
    skip_persistance: bool,
}

/// Data returned from account synchronization.
#[derive(Clone, Copy, Debug)]
pub struct SyncedAccount {
    account_id: [u8; 32],
    deposit_address: Address,
}

impl AccountSynchronizer {
    /// The derivation index that the scan starts from.
    pub closed spec fn spec_address_index(&self) -> usize {
        self.address_index
    }

    /// The gap limit that was chosen, if one was.
    pub closed spec fn spec_gap_limit(&self) -> Option<usize> {
        self.gap_limit
    }

    /// Whether the account is not to be stored after the sync.
    pub closed spec fn spec_skip_persistance(&self) -> bool {
        self.skip_persistance
    }

    /// The gap limit that the scan runs with.
    pub open spec fn effective_gap_limit(&self) -> usize {
        match self.spec_gap_limit() {
            Some(limit) => limit,
            None => DEFAULT_GAP_LIMIT,
        }
    }

    /// Initialises a new instance of the sync helper. The scan will start
    /// from the latest derivation index that the account knows, with the
    /// default gap limit, and the account will be stored afterwards.
    pub fn new(account: &Account) -> (r: AccountSynchronizer)
        ensures
            r.spec_address_index() == max_index(account.spec_addresses()),
            r.spec_gap_limit().is_none(),
            !r.spec_skip_persistance(),
    {
        let address_index = latest_index(account.addresses());
        AccountSynchronizer { address_index, gap_limit: None, skip_persistance: false }
    }

    /// Number of address indexes that are generated in each round.
    pub fn gap_limit(self, limit: usize) -> (r: AccountSynchronizer)
        ensures
            r.spec_gap_limit() == Some(limit),
            r.spec_address_index() == self.spec_address_index(),
            r.spec_skip_persistance() == self.spec_skip_persistance(),
    {
        AccountSynchronizer {
            address_index: self.address_index,
            gap_limit: Some(limit),
            skip_persistance: self.skip_persistance,
        }
    }

    /// Skip write to the database.
    pub fn skip_persistance(self) -> (r: AccountSynchronizer)
        ensures
            r.spec_skip_persistance(),
            r.spec_address_index() == self.spec_address_index(),
            r.spec_gap_limit() == self.spec_gap_limit(),
    {
        AccountSynchronizer {
            address_index: self.address_index,
            gap_limit: self.gap_limit,
            skip_persistance: true,
        }
    }

    /// The derivation index that the scan starts from.
    pub fn address_index(&self) -> (r: usize)
        ensures
            r == self.spec_address_index(),
    {
        self.address_index
    }

    /// Whether the account is to be stored after the sync.
    pub fn persists(&self) -> (r: bool)
        ensures
            r == !self.spec_skip_persistance(),
    {
        !self.skip_persistance
    }

    /// Starts the address scan of the sync.
    pub fn discover(&self) -> (r: Result<AddressDiscovery, WalletError>)
        ensures
            match AddressDiscovery::spec_new(self.spec_address_index(), self.effective_gap_limit()) {
                Ok(view) => r matches Ok(scan) && scan@ == view && view.can_scan(),
                Err(e) => r matches Err(f) && f == e,
            },
    {
        let gap_limit = match self.gap_limit {
            Some(limit) => limit,
            None => DEFAULT_GAP_LIMIT,
        };
        AddressDiscovery::new(self.address_index, gap_limit)
    }

    /// The messages whose confirmation the ledger is to be asked for: those
    /// of the account that are not confirmed, then those of the scan that
    /// the account does not hold.
    pub fn confirmation_query(&self, account: &Account, discovered: &Discovered) -> (r: Vec<
        MessageId,
    >)
        ensures
            r@ == unconfirmed_ids(account.spec_messages()) + missing_ids(
                account.spec_messages(),
                discovered@.messages,
            ),
    {
        let local = account.messages();
        let found = discovered.messages();
        let mut ids: Vec<MessageId> = Vec::new();
        let mut i: usize = 0;
        while i < local.len()
            invariant
                i <= local.len(),
                ids@ == unconfirmed_ids(local@.take(i as int)),
            decreases local.len() - i,
        {
            proof {
                assert(local@.take(i + 1).drop_last() =~= local@.take(i as int));
            }
            if !local[i].confirmed() {
                ids.push(*local[i].message_id());
            }
            i += 1;
        }
        proof {
            assert(local@.take(local.len() as int) =~= local@);
        }
        let ghost first = ids@;
        let mut k: usize = 0;
        while k < found.len()
            invariant
                k <= found.len(),
                ids@ == first + missing_ids(local@, found@.take(k as int)),
            decreases found.len() - k,
        {
            proof {
                assert(found@.take(k + 1).drop_last() =~= found@.take(k as int));
            }
            if find_message(local, &found[k].id).is_none() {
                ids.push(found[k].id);
                proof {
                    assert(ids@ =~= first + missing_ids(local@, found@.take(k + 1)));
                }
            }
            k += 1;
        }
        proof {
            assert(found@.take(found.len() as int) =~= found@);
        }
        ids
    }

    /// Whether a scan fits this sync of an account with the given
    /// addresses: the scan started where the sync was set up to start, and
    /// the account knows no later index than it did then.
    pub open spec fn fits(&self, addresses: Seq<Address>, discovered: DiscoveryView) -> bool {
        discovered.start_index == self.spec_address_index() && max_index(addresses)
            == self.spec_address_index()
    }

    /// Syncs account with the tangle.
    ///
    /// The addresses of the account below the first index of the scan stay;
    /// those from that index on give way to the ones that the scan found,
    /// which come behind them. The messages of the
    /// account are brought up to date: see [`spec_sync`]. Messages are told
    /// apart by their identifier, never by what they are attached to; the
    /// identifiers that the scan found are the ones that the sync goes by.
    /// A scan that was not started for this account is refused, and the
    /// account stays as it is.
    pub fn execute(
        self,
        account: &mut Account,
        discovered: Discovered,
        confirmed_states: &Vec<(MessageId, bool)>,
    ) -> (r: Result<SyncedAccount, WalletError>)
        ensures
            r is Ok <==> self.fits(old(account).spec_addresses(), discovered@),
            r matches Err(e) ==> e == WalletError::StaleDiscovery && *final(account) == *old(
                account,
            ),
            r matches Ok(synced) ==> {
                &&& final(account).spec_id() == old(account).spec_id()
                &&& final(account).spec_alias() == old(account).spec_alias()
                &&& final(account).spec_addresses() == below(
                    old(account).spec_addresses(),
                    self.spec_address_index() as int,
                ) + discovered@.addresses
                &&& final(account).spec_messages() == spec_sync(
                    old(account).spec_messages(),
                    ids_of(discovered@.messages),
                    confirmed_states@,
                    discovered@.messages,
                )
                &&& final(account).wf()
                &&& synced.spec_account_id() == old(account).spec_id()
                &&& synced.spec_deposit_address() == discovered@.addresses.last()
            },
    {
        let start = discovered.start_index();
        if start != self.address_index || latest_index(account.addresses()) != self.address_index {
            return Err(WalletError::StaleDiscovery);
        }
        let found_addresses = discovered.addresses();
        let found_messages = discovered.messages();
        let ids = message_ids(found_messages);
        let messages = sync_transactions(account, &ids, confirmed_states, found_messages);
        let known = account.addresses();
        let ghost before = account.spec_addresses();
        let mut addresses: Vec<Address> = Vec::new();
        let mut i: usize = 0;
        while i < known.len()
            invariant
                i <= known.len(),
                addresses@ == below(known@.take(i as int), start as int),
            decreases known.len() - i,
        {
            proof {
                assert(known@.take(i + 1).drop_last() =~= known@.take(i as int));
            }
            if *known[i].key_index() < start {
                addresses.push(known[i]);
            }
            i += 1;
        }
        proof {
            assert(known@.take(known.len() as int) =~= known@);
        }
        let ghost kept = below(before, start as int);
        let mut k: usize = 0;
        while k < found_addresses.len()
            invariant
                k <= found_addresses.len(),
                addresses@ == kept + found_addresses@.take(k as int),
            decreases found_addresses.len() - k,
        {
            addresses.push(found_addresses[k]);
            proof {
                assert(addresses@ =~= kept + found_addresses@.take(k + 1));
            }
            k += 1;
        }
        proof {
            assert(found_addresses@.take(found_addresses.len() as int) =~= found_addresses@);
            let found = discovered@.addresses;
            lemma_below(before, start as int);
            lemma_interleaved_is_distinct(found, start as int);
            assert forall|a: int, b: int| 0 <= a < b < addresses.len() implies !same_slot(
                #[trigger] addresses[a],
                #[trigger] addresses[b],
            ) by {
                if b < kept.len() {
                    assert(addresses[a] == kept[a] && addresses[b] == kept[b]);
                } else if a < kept.len() {
                    assert(addresses[a] == kept[a]);
                    assert(addresses[b] == found[b - kept.len()]);
                } else {
                    assert(addresses[a] == found[a - kept.len()]);
                    assert(addresses[b] == found[b - kept.len()]);
                }
            }
        }
        let deposit_address = found_addresses[found_addresses.len() - 1];
        let account_id = *account.id();
        account.replace(addresses, messages);
        Ok(SyncedAccount { account_id, deposit_address })
    }
}

impl SyncedAccount {
    /// The identifier of the account.
    pub closed spec fn spec_account_id(&self) -> [u8; 32] {
        self.account_id
    }

    /// The account's deposit address.
    pub closed spec fn spec_deposit_address(&self) -> Address {
        self.deposit_address
    }

    /// The identifier of the account.
    pub fn account_id(&self) -> (r: &[u8; 32])
        ensures
            *r == self.spec_account_id(),
    {
        &self.account_id
    }

    /// The account's deposit address.
    pub fn deposit_address(&self) -> (r: &Address)
        ensures
            *r == self.spec_deposit_address(),
    {
        &self.deposit_address
    }

    /// Selects input addresses for a value transaction.
    ///
    /// The recipient address is never among the selected inputs, and the
    /// selected inputs cover the threshold. Returns the selected input
    /// addresses and the remainder address if one is needed.
    pub fn select_inputs(&self, threshold: u64, account: &Account, address: &IotaAddress) -> (r:
        Result<(Vec<Address>, Option<Address>), WalletError>)
        ensures
            match spec_select_inputs(threshold, account.spec_addresses(), *address) {
                Ok((selected, remainder)) => r matches Ok(made) && made.0@ == selected && made.1
                    == remainder,
                Err(e) => r matches Err(f) && f == e,
            },
            r matches Ok(made) ==> {
                &&& total_balance(made.0@) >= threshold
                &&& made.0.len() > 0 ==> total_balance(made.0@.drop_last()) < threshold
                &&& forall|j: int|
                    0 <= j < made.0.len() ==> (#[trigger] made.0[j]).spec_address() != *address
                &&& made.1 is Some <==> total_balance(made.0@) > threshold
            },
    {
        let mut available = available_addresses(account.addresses(), address);
        let addresses = match select_input(threshold, &mut available) {
            Ok(addresses) => addresses,
            Err(e) => { return Err(e); },
        };
        proof {
            lemma_selection_excludes_destination(threshold, account.spec_addresses(), *address);
            lemma_selection_remainder(threshold, account.spec_addresses(), *address);
        }
        let remainder = if sum_balances(&addresses) > threshold as u128 {
            match account.latest_address() {
                Some(latest) => Some(*latest),
                None => None,
            }
        } else {
            None
        };
        Ok((addresses, remainder))
    }

    /// What `transfer` returns: the inputs of the transfer and its
    /// remainder address, or why it cannot be made.
    pub open spec fn spec_transfer(&self, account: &Account, transfer_obj: Transfer) -> Result<
        (Seq<Address>, Option<Address>),
        WalletError,
    > {
        if transfer_obj.spec_amount() == 0 {
            Err(WalletError::AmountMustBePositive)
        } else if account.spec_id() != self.spec_account_id() {
            Err(WalletError::AccountMismatch)
        } else {
            spec_select_inputs(
                transfer_obj.spec_amount(),
                account.spec_addresses(),
                transfer_obj.spec_address(),
            )
        }
    }

    /// Checks a transfer and selects its inputs.
    ///
    /// A transfer of nothing is refused before anything else is looked at.
    /// `account` is the state of the account as it was just loaded from the
    /// storage.
    pub fn transfer(&self, account: &Account, transfer_obj: Transfer) -> (r: Result<
        PreparedTransfer,
        WalletError,
    >)
        ensures
            transfer_obj.spec_amount() == 0 ==> r == Err::<PreparedTransfer, WalletError>(
                WalletError::AmountMustBePositive,
            ),
            match self.spec_transfer(account, transfer_obj) {
                Ok((selected, remainder)) => r matches Ok(prepared) && {
                    &&& prepared.spec_value() == transfer_obj.spec_amount()
                    &&& prepared.spec_recipient() == transfer_obj.spec_address()
                    &&& prepared.spec_input_addresses() == selected
                    &&& prepared.spec_remainder_address() == remainder
                },
                Err(e) => r matches Err(f) && f == e,
            },
    {
        if *transfer_obj.amount() == 0 {
            return Err(WalletError::AmountMustBePositive);
        }
        if !same_id(account.id(), &self.account_id) {
            return Err(WalletError::AccountMismatch);
        }
        let value = *transfer_obj.amount();
        let (input_addresses, remainder_address) = match self.select_inputs(
            value,
            account,
            transfer_obj.address(),
        ) {
            Ok(selected) => selected,
            Err(e) => { return Err(e); },
        };
        Ok(PreparedTransfer::new(value, *transfer_obj.address(), input_addresses, remainder_address))
    }

    /// Records the messages that the ledger accepted for a transfer, and
    /// returns the record of the first one. Each message is recorded once,
    /// as broadcasted and not yet confirmed, behind the messages that the
    /// account held; a message that the account held already counts as
    /// broadcasted from now on.
    pub fn record_transfer(&self, account: &mut Account, attached: &Vec<IotaMessage>) -> (r:
        Result<Message, WalletError>)
        ensures
            r is Ok <==> old(account).spec_id() == self.spec_account_id() && attached.len() > 0,
            r matches Err(e) ==> *final(account) == *old(account) && e == if old(
                account,
            ).spec_id() != self.spec_account_id() {
                WalletError::AccountMismatch
            } else {
                WalletError::MessageNotFound
            },
            r matches Ok(message) ==> {
                &&& message == Message::spec_new(attached[0].id, attached[0].payload, true, false)
                &&& final(account).spec_id() == old(account).spec_id()
                &&& final(account).spec_alias() == old(account).spec_alias()
                &&& final(account).spec_addresses() == old(account).spec_addresses()
                &&& final(account).spec_messages() == spec_sync(
                    old(account).spec_messages(),
                    ids_of(attached@),
                    Seq::empty(),
                    attached@,
                )
                &&& final(account).wf()
            },
    {
        if !same_id(account.id(), &self.account_id) {
            return Err(WalletError::AccountMismatch);
        }
        if attached.len() == 0 {
            return Err(WalletError::MessageNotFound);
        }
        let ids = message_ids(attached);
        let states: Vec<(MessageId, bool)> = Vec::new();
        let messages = sync_transactions(account, &ids, &states, attached);
        let addresses = account.addresses().clone();
        assert(addresses@ =~= account.spec_addresses());
        assert(states@ =~= Seq::<(MessageId, bool)>::empty());
        account.replace(addresses, messages);
        Ok(Message::from_iota_message(&attached[0]))
    }

    /// Locates the message of a transfer that is to be tried again. The
    /// message is handed back as it is recorded; it is sent again as it is.
    pub fn retry(&self, account: &Account, message_id: &MessageId) -> (r: Result<
        Message,
        WalletError,
    >)
        ensures
            r is Ok <==> account.spec_id() == self.spec_account_id() && contains_id(
                account.spec_messages(),
                *message_id,
            ),
            r matches Err(e) ==> e == if account.spec_id() != self.spec_account_id() {
                WalletError::AccountMismatch
            } else {
                WalletError::MessageNotFound
            },
            r matches Ok(message) ==> message.spec_message_id() == *message_id
                && account.spec_messages().contains(message),
    {
        if !same_id(account.id(), &self.account_id) {
            return Err(WalletError::AccountMismatch);
        }
        match account.get_message(message_id) {
            Some(message) => Ok(*message),
            None => Err(WalletError::MessageNotFound),
        }
    }
}

} // verus!
