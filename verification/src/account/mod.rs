//! An account of the wallet: its identity, its addresses and its messages.

use crate::address::Address;
use crate::error::WalletError;
use crate::message::{Message, MessageId};
use vstd::prelude::*;
use vstd::std_specs::convert::FromSpecImpl;

pub mod manager;
pub mod sync;

verus! {

/// How a caller names an account.
#[derive(Clone, Copy, Debug, PartialEq, Eq)]
pub enum AccountIdentifier {
    /// By the opaque 32-byte identifier of the account.
    Id([u8; 32]),
    /// By the position of the account in the wallet.
    Index(u64),
}

impl From<[u8; 32]> for AccountIdentifier {
    fn from(id: [u8; 32]) -> (r: AccountIdentifier) {
        AccountIdentifier::Id(id)
    }
}

impl FromSpecImpl<[u8; 32]> for AccountIdentifier {
    open spec fn obeys_from_spec() -> bool {
        true
    }

    open spec fn from_spec(id: [u8; 32]) -> AccountIdentifier {
        AccountIdentifier::Id(id)
    }
}

/// Whether two addresses have the same derivation index and the same kind.
pub open spec fn same_slot(a: Address, b: Address) -> bool {
    a.spec_key_index() == b.spec_key_index() && a.spec_internal() == b.spec_internal()
}

/// Whether no two of the addresses share a derivation index and a kind.
pub open spec fn distinct_slots(addresses: Seq<Address>) -> bool {
    forall|i: int, j: int|
        0 <= i < j < addresses.len() ==> !same_slot(#[trigger] addresses[i], #[trigger] addresses[j])
}

/// Whether the addresses come in pairs, one pair for each derivation index
/// from `start` on: the public address of an index, then its internal one.
/// This is the order in which a scan finds addresses.
pub open spec fn interleaved(addresses: Seq<Address>, start: int) -> bool {
    &&& addresses.len() % 2 == 0
    &&& forall|k: int|
        0 <= k < addresses.len() ==> {
            &&& (#[trigger] addresses[k]).spec_key_index() == start + k / 2
            &&& addresses[k].spec_internal() == (k % 2 == 1)
        }
}

/// Addresses that come in pairs by derivation index share no index and
/// kind.
pub proof fn lemma_interleaved_is_distinct(addresses: Seq<Address>, start: int)
    requires
        interleaved(addresses, start),
    ensures
        distinct_slots(addresses),
{
    assert forall|i: int, j: int| 0 <= i < j < addresses.len() implies !same_slot(
        #[trigger] addresses[i],
        #[trigger] addresses[j],
    ) by {
        if i / 2 == j / 2 {
            assert(i % 2 != j % 2);
        }
    }
}

/// The largest derivation index of the addresses, or zero where there is
/// no address.
pub open spec fn max_index(addresses: Seq<Address>) -> nat
    decreases addresses.len(),
{
    if addresses.len() == 0 {
        0
    } else {
        let front = max_index(addresses.drop_last());
        if addresses.last().spec_key_index() > front {
            addresses.last().spec_key_index() as nat
        } else {
            front
        }
    }
}

/// No address has a derivation index beyond the largest one.
pub proof fn lemma_max_index(addresses: Seq<Address>)
    ensures
        forall|k: int|
            0 <= k < addresses.len() ==> (#[trigger] addresses[k]).spec_key_index() <= max_index(
                addresses,
            ),
    decreases addresses.len(),
{
    if addresses.len() > 0 {
        let front = addresses.drop_last();
        lemma_max_index(front);
        assert forall|k: int| 0 <= k < addresses.len() implies (
        #[trigger] addresses[k]).spec_key_index() <= max_index(addresses) by {
            if k < front.len() {
                assert(front[k] == addresses[k]);
            }
        }
    }
}

/// Finds the largest derivation index of the addresses.
pub fn latest_index(addresses: &Vec<Address>) -> (r: usize)
    ensures
        r == max_index(addresses@),
{
    let mut best: usize = 0;
    let mut i: usize = 0;
    while i < addresses.len()
        invariant
            i <= addresses.len(),
            best == max_index(addresses@.take(i as int)),
        decreases addresses.len() - i,
    {
        proof {
            assert(addresses@.take(i + 1).drop_last() =~= addresses@.take(i as int));
        }
        if *addresses[i].key_index() > best {
            best = *addresses[i].key_index();
        }
        i += 1;
    }
    proof {
        assert(addresses@.take(addresses.len() as int) =~= addresses@);
    }
    best
}

/// The addresses with a derivation index below `start`, in their order.
pub open spec fn below(addresses: Seq<Address>, start: int) -> Seq<Address>
    decreases addresses.len(),
{
    if addresses.len() == 0 {
        Seq::empty()
    } else {
        let front = below(addresses.drop_last(), start);
        if addresses.last().spec_key_index() < start {
            front.push(addresses.last())
        } else {
            front
        }
    }
}

/// What is kept of addresses below an index: each of them is one of the
/// addresses and has an index below it, and they share no index and kind
/// if the addresses share none.
pub proof fn lemma_below(addresses: Seq<Address>, start: int)
    ensures
        below(addresses, start).len() <= addresses.len(),
        forall|k: int|
            0 <= k < below(addresses, start).len() ==> {
                &&& (#[trigger] below(addresses, start)[k]).spec_key_index() < start
                &&& addresses.contains(below(addresses, start)[k])
            },
        distinct_slots(addresses) ==> distinct_slots(below(addresses, start)),
        (forall|k: int| 0 <= k < addresses.len() ==> (#[trigger] addresses[k]).spec_key_index()
            < start) ==> below(addresses, start) == addresses,
    decreases addresses.len(),
{
    if addresses.len() > 0 {
        let front = addresses.drop_last();
        let last = addresses.last();
        lemma_below(front, start);
        let before = below(front, start);
        let after = below(addresses, start);
        assert forall|k: int| 0 <= k < after.len() implies {
            &&& (#[trigger] after[k]).spec_key_index() < start
            &&& addresses.contains(after[k])
        } by {
            if k < before.len() {
                assert(after[k] == before[k]);
                let i = choose|i: int| 0 <= i < front.len() && front[i] == before[k];
                assert(addresses[i] == after[k]);
            } else {
                assert(addresses[addresses.len() - 1] == after[k]);
            }
        }
        if distinct_slots(addresses) {
            assert forall|i: int, j: int| 0 <= i < j < front.len() implies !same_slot(
                #[trigger] front[i],
                #[trigger] front[j],
            ) by {
                assert(front[i] == addresses[i] && front[j] == addresses[j]);
            }
            assert forall|i: int, j: int| 0 <= i < j < after.len() implies !same_slot(
                #[trigger] after[i],
                #[trigger] after[j],
            ) by {
                assert(after[i] == before[i]);
                if j < before.len() {
                    assert(after[j] == before[j]);
                } else {
                    let at = choose|at: int| 0 <= at < front.len() && front[at] == before[i];
                    assert(addresses[at] == before[i]);
                    assert(addresses[addresses.len() - 1] == after[j]);
                }
            }
        }
        if forall|k: int| 0 <= k < addresses.len() ==> (#[trigger] addresses[k]).spec_key_index()
            < start {
            assert forall|k: int| 0 <= k < front.len() implies (#[trigger] front[k]).spec_key_index()
                < start by {
                assert(front[k] == addresses[k]);
            }
            assert(addresses[addresses.len() - 1].spec_key_index() < start);
            assert(after =~= addresses);
        }
    }
}

/// Whether no two of the messages share an identifier.
pub open spec fn distinct_ids(messages: Seq<Message>) -> bool {
    forall|i: int, j: int|
        0 <= i < j < messages.len() ==> (#[trigger] messages[i]).spec_message_id() != (
        #[trigger] messages[j]).spec_message_id()
}

/// Whether one of the messages has the identifier `id`.
pub open spec fn contains_id(messages: Seq<Message>, id: MessageId) -> bool {
    exists|i: int| 0 <= i < messages.len() && (#[trigger] messages[i]).spec_message_id() == id
}

/// Looks for the message with the identifier `id`.
pub fn find_message(messages: &Vec<Message>, id: &MessageId) -> (r: Option<usize>)
    ensures
        r.is_some() <==> contains_id(messages@, *id),
        r matches Some(i) ==> {
            &&& i < messages.len()
            &&& messages[i as int].spec_message_id() == *id
            &&& forall|j: int| 0 <= j < i ==> (#[trigger] messages[j]).spec_message_id() != *id
        },
{
    let mut i: usize = 0;
    while i < messages.len()
        invariant
            i <= messages.len(),
            forall|j: int| 0 <= j < i ==> (#[trigger] messages[j]).spec_message_id() != *id,
        decreases messages.len() - i,
    {
        if *messages[i].message_id() == *id {
            return Some(i);
        }
        i += 1;
    }
    None
}

/// One account of the wallet.
///
/// No two of its addresses share a derivation index and a kind, and no two
/// of its messages share an identifier.
#[derive(Debug)]
pub struct Account {
    id: [u8; 32],
    alias: String,
    addresses: Vec<Address>,
    messages: Vec<Message>,
}

impl Clone for Account {
    fn clone(&self) -> (r: Account)
        ensures
            r.spec_id() == self.spec_id(),
            r.spec_alias() == self.spec_alias(),
            r.spec_addresses() == self.spec_addresses(),
            r.spec_messages() == self.spec_messages(),
    {
        proof {
            use_type_invariant(self);
        }
        let addresses = self.addresses.clone();
        let messages = self.messages.clone();
        assert(addresses@ =~= self.addresses@);
        assert(messages@ =~= self.messages@);
        Account { id: self.id, alias: self.alias.clone(), addresses, messages }
    }
}

impl Account {
    #[verifier::type_invariant]
    closed spec fn well_formed(self) -> bool {
        distinct_slots(self.addresses@) && distinct_ids(self.messages@)
    }

    /// The identifier of the account.
    pub closed spec fn spec_id(&self) -> [u8; 32] {
        self.id
    }

    /// The name that the user gave to the account.
    pub closed spec fn spec_alias(&self) -> Seq<char> {
        self.alias@
    }

    /// The addresses of the account, in the order of their derivation.
    pub closed spec fn spec_addresses(&self) -> Seq<Address> {
        self.addresses@
    }

    /// The messages of the account, oldest first.
    pub closed spec fn spec_messages(&self) -> Seq<Message> {
        self.messages@
    }

    /// What holds of the addresses and messages of every account.
    pub open spec fn wf(&self) -> bool {
        distinct_slots(self.spec_addresses()) && distinct_ids(self.spec_messages())
    }

    /// A new account without addresses and messages.
    pub fn new(id: [u8; 32], alias: String) -> (r: Account)
        ensures
            r.spec_id() == id,
            r.spec_alias() == alias@,
            r.spec_addresses() == Seq::<Address>::empty(),
            r.spec_messages() == Seq::<Message>::empty(),
            r.wf(),
    {
        Account { id, alias, addresses: Vec::new(), messages: Vec::new() }
    }

    /// The account with the given parts, as after loading a stored
    /// snapshot. The parts are refused where two addresses share a
    /// derivation index and a kind, or two messages an identifier.
    pub fn from_parts(
        id: [u8; 32],
        alias: String,
        addresses: Vec<Address>,
        messages: Vec<Message>,
    ) -> (r: Result<Account, WalletError>)
        ensures
            r is Ok <==> distinct_slots(addresses@) && distinct_ids(messages@),
            r matches Err(e) ==> e == WalletError::InvalidAccount,
            r matches Ok(a) ==> {
                &&& a.spec_id() == id
                &&& a.spec_alias() == alias@
                &&& a.spec_addresses() == addresses@
                &&& a.spec_messages() == messages@
            },
    {
        if !have_distinct_slots(&addresses) || !have_distinct_ids(&messages) {
            return Err(WalletError::InvalidAccount);
        }
        Ok(Account { id, alias, addresses, messages })
    }

    /// The identifier of the account.
    pub fn id(&self) -> (r: &[u8; 32])
        ensures
            *r == self.spec_id(),
    {
        &self.id
    }

    /// The name that the user gave to the account.
    pub fn alias(&self) -> (r: &String)
        ensures
            r@ == self.spec_alias(),
    {
        &self.alias
    }

    /// The addresses of the account, in the order of their derivation.
    pub fn addresses(&self) -> (r: &Vec<Address>)
        ensures
            r@ == self.spec_addresses(),
            self.wf(),
    {
        proof {
            use_type_invariant(self);
        }
        &self.addresses
    }

    /// The messages of the account, oldest first.
    pub fn messages(&self) -> (r: &Vec<Message>)
        ensures
            r@ == self.spec_messages(),
            self.wf(),
    {
        proof {
            use_type_invariant(self);
        }
        &self.messages
    }

    /// The most recently derived address, if the account has any.
    pub fn latest_address(&self) -> (r: Option<&Address>)
        ensures
            r.is_some() <==> self.spec_addresses().len() > 0,
            r matches Some(a) ==> *a == self.spec_addresses().last(),
    {
        let n = self.addresses.len();
        if n == 0 {
            None
        } else {
            Some(&self.addresses[n - 1])
        }
    }

    /// The message with the given identifier, if the account has it.
    pub fn get_message(&self, message_id: &MessageId) -> (r: Option<&Message>)
        ensures
            r.is_some() <==> contains_id(self.spec_messages(), *message_id),
            r matches Some(m) ==> m.spec_message_id() == *message_id && self.spec_messages().contains(
                *m,
            ),
    {
        match find_message(&self.messages, message_id) {
            Some(i) => Some(&self.messages[i]),
            None => None,
        }
    }

    /// Replaces the addresses and the messages of the account.
    pub(crate) fn replace(&mut self, addresses: Vec<Address>, messages: Vec<Message>)
        requires
            distinct_slots(addresses@),
            distinct_ids(messages@),
        ensures
            final(self).spec_id() == old(self).spec_id(),
            final(self).spec_alias() == old(self).spec_alias(),
            final(self).spec_addresses() == addresses@,
            final(self).spec_messages() == messages@,
    {
        proof {
            use_type_invariant(&*self);
        }
        self.addresses = addresses;
        self.messages = messages;
    }
}

/// Tells whether no two of the addresses share a derivation index and a
/// kind.
pub fn have_distinct_slots(addresses: &Vec<Address>) -> (r: bool)
    ensures
        r == distinct_slots(addresses@),
{
    let mut j: usize = 0;
    while j < addresses.len()
        invariant
            j <= addresses.len(),
            forall|a: int, b: int|
                0 <= a < b < j ==> !same_slot(#[trigger] addresses[a], #[trigger] addresses[b]),
        decreases addresses.len() - j,
    {
        let mut i: usize = 0;
        while i < j
            invariant
                i <= j,
                j < addresses.len(),
                forall|a: int| 0 <= a < i ==> !same_slot(#[trigger] addresses[a], addresses[j as int]),
            decreases j - i,
        {
            if *addresses[i].key_index() == *addresses[j].key_index() && *addresses[i].internal()
                == *addresses[j].internal() {
                return false;
            }
            i += 1;
        }
        j += 1;
    }
    true
}

/// Tells whether no two of the messages share an identifier.
pub fn have_distinct_ids(messages: &Vec<Message>) -> (r: bool)
    ensures
        r == distinct_ids(messages@),
{
    let mut j: usize = 0;
    while j < messages.len()
        invariant
            j <= messages.len(),
            forall|a: int, b: int|
                0 <= a < b < j ==> (#[trigger] messages[a]).spec_message_id() != (
                #[trigger] messages[b]).spec_message_id(),
        decreases messages.len() - j,
    {
        let mut i: usize = 0;
        while i < j
            invariant
                i <= j,
                j < messages.len(),
                forall|a: int|
                    0 <= a < i ==> (#[trigger] messages[a]).spec_message_id()
                        != messages[j as int].spec_message_id(),
            decreases j - i,
        {
            if *messages[i].message_id() == *messages[j].message_id() {
                return false;
            }
            i += 1;
        }
        j += 1;
    }
    true
}

} // verus!
