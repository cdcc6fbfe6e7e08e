//! Ledger addresses and the wallet's records of them.

use crate::account::Account;
use crate::error::WalletError;
use crate::message::Message;
use crate::ternary::{is_tryte, kerl_digest, kerl_hash, tryte_trit, trytes_to_trits, valid_trits};
use vstd::prelude::*;
use vstd::std_specs::cmp::PartialEqSpecImpl;

verus! {

/// Number of trits in an address value.
pub const ADDRESS_TRIT_LEN: usize = 243;

/// Number of trits in an address checksum.
pub const CHECKSUM_TRIT_LEN: usize = 9;

/// The value of a ledger address: 243 balanced trits.
#[derive(Clone, Copy, Debug, Eq)]
pub struct IotaAddress {
    trits: [i8; 243],
}

impl PartialEq for IotaAddress {
    fn eq(&self, other: &IotaAddress) -> (r: bool) {
        let mut i: usize = 0;
        while i < 243
            invariant
                i <= 243,
                forall|j: int| 0 <= j < i ==> self.trits[j] == other.trits[j],
            decreases 243 - i,
        {
            if self.trits[i] != other.trits[i] {
                return false;
            }
            i += 1;
        }
        assert(self.trits =~= other.trits);
        true
    }
}

impl PartialEqSpecImpl for IotaAddress {
    open spec fn obeys_eq_spec() -> bool {
        true
    }

    open spec fn eq_spec(&self, other: &IotaAddress) -> bool {
        *self == *other
    }
}

impl View for IotaAddress {
    type V = Seq<i8>;

    /// The trits of the address, in order.
    closed spec fn view(&self) -> Seq<i8> {
        self.trits@
    }
}

impl IotaAddress {
    #[verifier::type_invariant]
    closed spec fn well_formed(self) -> bool {
        valid_trits(self.trits@)
    }

    /// Every address value has 243 trits.
    pub broadcast proof fn lemma_view_len(a: IotaAddress)
        ensures
            #[trigger] a@.len() == 243,
    {
    }

    /// The address value that consists of zeros.
    pub fn zeros() -> (r: Self)
        ensures
            r@ == Seq::new(243, |i: int| 0i8),
    {
        let r = IotaAddress { trits: [0i8; 243] };
        assert(r.trits@ =~= Seq::new(243, |i: int| 0i8));
        r
    }

    /// The address value with the given trits, if there are 243 of them and
    /// each is -1, 0 or 1.
    pub fn try_from_trits(trits: &Vec<i8>) -> (r: Option<Self>)
        ensures
            r.is_some() <==> trits.len() == 243 && valid_trits(trits@),
            r matches Some(a) ==> a@ == trits@,
    {
        if trits.len() != 243 {
            return None;
        }
        let mut out: [i8; 243] = [0i8; 243];
        let mut i: usize = 0;
        while i < 243
            invariant
                i <= 243,
                trits.len() == 243,
                forall|j: int| 0 <= j < i ==> out[j] == trits[j] && -1 <= #[trigger] trits[j] <= 1,
                forall|j: int| i <= j < 243 ==> out[j] == 0,
            decreases 243 - i,
        {
            let t = trits[i];
            if t < -1 || t > 1 {
                return None;
            }
            out[i] = t;
            i += 1;
        }
        assert(out@ =~= trits@);
        Some(IotaAddress { trits: out })
    }

    /// The address value that 81 tryte characters spell, if `trytes` is such
    /// a string.
    pub fn try_from_trytes(trytes: &str) -> (r: Option<Self>)
        ensures
            r.is_some() <==> trytes@.len() == 81 && forall|i: int|
                0 <= i < trytes@.len() ==> is_tryte(#[trigger] trytes@[i]),
            r matches Some(a) ==> forall|i: int, k: int|
                0 <= i < 81 && 0 <= k < 3 ==> #[trigger] a@[3 * i + k] == tryte_trit(trytes@[i], k),
    {
        match trytes_to_trits(trytes) {
            Some(trits) => Self::try_from_trits(&trits),
            None => None,
        }
    }

    /// The trits of the address, in order.
    pub fn to_inner(&self) -> (r: Vec<i8>)
        ensures
            r@ == self@,
            valid_trits(r@),
    {
        proof {
            use_type_invariant(self);
        }
        let mut out: Vec<i8> = Vec::new();
        let mut i: usize = 0;
        while i < 243
            invariant
                i <= 243,
                out.len() == i,
                forall|j: int| 0 <= j < i ==> out[j] == self.trits[j],
            decreases 243 - i,
        {
            out.push(self.trits[i]);
            i += 1;
        }
        assert(out@ =~= self.trits@);
        out
    }
}

/// The checksum that belongs to a hash: its last nine trits, the last one
/// first.
pub open spec fn checksum_of_hash(hash: Seq<i8>) -> Seq<i8> {
    Seq::new(9, |i: int| hash[hash.len() - 1 - i])
}

/// The checksum that belongs to an address value.
pub open spec fn address_checksum(address: Seq<i8>) -> Seq<i8> {
    checksum_of_hash(kerl_hash(address))
}

/// Takes the checksum out of a hash, if the hash has nine trits at least.
pub fn checksum_from_hash(hash: &Vec<i8>) -> (r: Option<[i8; 9]>)
    ensures
        r.is_some() <==> hash.len() >= 9,
        r matches Some(checksum) ==> checksum@ == checksum_of_hash(hash@),
{
    if hash.len() < 9 {
        return None;
    }
    let mut out: [i8; 9] = [0i8; 9];
    let n = hash.len();
    let mut i: usize = 0;
    while i < 9
        invariant
            i <= 9,
            n == hash.len(),
            n >= 9,
            forall|j: int| 0 <= j < i ==> out[j] == hash[n - 1 - j],
        decreases 9 - i,
    {
        out[i] = hash[n - 1 - i];
        i += 1;
    }
    assert(out@ =~= checksum_of_hash(hash@));
    Some(out)
}

/// Generates the checksum of an address value from its Kerl hash.
pub fn generate_checksum(address: &IotaAddress) -> (r: [i8; 9])
    ensures
        r@ == address_checksum(address@),
{
    let trits = address.to_inner();
    proof {
        IotaAddress::lemma_view_len(*address);
    }
    let hash = kerl_digest(&trits).unwrap();
    checksum_from_hash(&hash).unwrap()
}

/// An address of the wallet: its value, what is known of it, and its checksum.
///
/// Each derivation index has two addresses: a public one and an internal
/// one, which takes change.
#[derive(Clone, Copy, Debug, Eq)]
pub struct Address {
    address: IotaAddress,
    balance: u64,
    key_index: usize,
    internal: bool,
    checksum: [i8; 9],
}

impl PartialEq for Address {
    /// Addresses are the same when their address values are, whatever their
    /// balance and index.
    fn eq(&self, other: &Address) -> (r: bool) {
        self.address == other.address
    }
}

impl PartialEqSpecImpl for Address {
    open spec fn obeys_eq_spec() -> bool {
        true
    }

    open spec fn eq_spec(&self, other: &Address) -> bool {
        self.spec_address() == other.spec_address()
    }
}

impl Address {
    #[verifier::type_invariant]
    closed spec fn well_formed(self) -> bool {
        self.checksum@ == address_checksum(self.address@)
    }

    /// The address value.
    pub closed spec fn spec_address(self) -> IotaAddress {
        self.address
    }

    /// The balance.
    pub closed spec fn spec_balance(self) -> u64 {
        self.balance
    }

    /// The key index.
    pub closed spec fn spec_key_index(self) -> usize {
        self.key_index
    }

    /// Whether the address is the internal one of its index.
    pub closed spec fn spec_internal(self) -> bool {
        self.internal
    }

    /// The checksum.
    pub closed spec fn spec_checksum(self) -> Seq<i8> {
        self.checksum@
    }

    /// The address record with the given parts and the checksum of its
    /// address value.
    pub closed spec fn spec_new(
        address: IotaAddress,
        balance: u64,
        key_index: usize,
        internal: bool,
    ) -> Address {
        Address {
            address,
            balance,
            key_index,
            internal,
            checksum: choose|c: [i8; 9]| c@ == address_checksum(address@),
        }
    }

    /// The parts of the address record that `spec_new` makes.
    pub broadcast proof fn lemma_spec_new(
        address: IotaAddress,
        balance: u64,
        key_index: usize,
        internal: bool,
    )
        ensures
            (#[trigger] Address::spec_new(address, balance, key_index, internal)).spec_address()
                == address,
            Address::spec_new(address, balance, key_index, internal).spec_balance() == balance,
            Address::spec_new(address, balance, key_index, internal).spec_key_index() == key_index,
            Address::spec_new(address, balance, key_index, internal).spec_internal() == internal,
            Address::spec_new(address, balance, key_index, internal).checksum_matches(),
    {
        let s = address_checksum(address@);
        let c: [i8; 9] = [s[0], s[1], s[2], s[3], s[4], s[5], s[6], s[7], s[8]];
        assert(c@ =~= s);
    }

    /// Whether the checksum is the one that belongs to the address value.
    /// This holds of every address that the program can hold.
    pub open spec fn checksum_matches(self) -> bool {
        self.spec_checksum() == address_checksum(self.spec_address()@)
    }

    /// An address is known by its address value, its balance, its key
    /// index, its kind and its checksum.
    pub broadcast proof fn lemma_fields_determine(a: Address, b: Address)
        requires
            a.spec_address() == b.spec_address(),
            a.spec_balance() == b.spec_balance(),
            a.spec_key_index() == b.spec_key_index(),
            a.spec_internal() == b.spec_internal(),
            a.spec_checksum() == b.spec_checksum(),
        ensures
            #![trigger a.spec_address(), b.spec_address()]
            a == b,
    {
        assert(a.checksum =~= b.checksum);
    }

    /// The record of `address` with the given balance, key index and kind.
    /// Its checksum is computed from the address value.
    pub fn new(address: IotaAddress, balance: u64, key_index: usize, internal: bool) -> (r:
        Address)
        ensures
            r == Address::spec_new(address, balance, key_index, internal),
            r.spec_address() == address,
            r.spec_balance() == balance,
            r.spec_key_index() == key_index,
            r.spec_internal() == internal,
            r.checksum_matches(),
    {
        let checksum = generate_checksum(&address);
        let built = Address { address, balance, key_index, internal, checksum };
        proof {
            Address::lemma_spec_new(address, balance, key_index, internal);
            Address::lemma_fields_determine(
                built,
                Address::spec_new(address, balance, key_index, internal),
            );
        }
        built
    }

    /// The address value.
    pub fn address(&self) -> (r: &IotaAddress)
        ensures
            *r == self.spec_address(),
    {
        &self.address
    }

    /// The balance.
    pub fn balance(&self) -> (r: &u64)
        ensures
            *r == self.spec_balance(),
    {
        &self.balance
    }

    /// The key index.
    pub fn key_index(&self) -> (r: &usize)
        ensures
            *r == self.spec_key_index(),
    {
        &self.key_index
    }

    /// Whether the address is the internal one of its index.
    pub fn internal(&self) -> (r: &bool)
        ensures
            *r == self.spec_internal(),
    {
        &self.internal
    }

    /// The checksum, which is always the one of the address value.
    pub fn checksum(&self) -> (r: &[i8; 9])
        ensures
            r@ == self.spec_checksum(),
            self.checksum_matches(),
    {
        proof {
            use_type_invariant(self);
        }
        &self.checksum
    }
}

/// The address builder.
#[derive(Clone, Copy, Debug)]
pub struct AddressBuilder {
    address: Option<IotaAddress>,
    balance: Option<u64>,
    key_index: Option<usize>,
    internal: bool,
}

impl AddressBuilder {
    /// The address value set so far.
    pub closed spec fn spec_address(self) -> Option<IotaAddress> {
        self.address
    }

    /// The balance set so far.
    pub closed spec fn spec_balance(self) -> Option<u64> {
        self.balance
    }

    /// The key index set so far.
    pub closed spec fn spec_key_index(self) -> Option<usize> {
        self.key_index
    }

    /// The kind set so far: whether the address is an internal one.
    pub closed spec fn spec_internal(self) -> bool {
        self.internal
    }

    /// Initialises a new instance of the address builder, with nothing set.
    /// Unless it is told otherwise it builds a public address.
    pub fn new() -> (r: AddressBuilder)
        ensures
            r.spec_address().is_none(),
            r.spec_balance().is_none(),
            r.spec_key_index().is_none(),
            !r.spec_internal(),
    {
        AddressBuilder { address: None, balance: None, key_index: None, internal: false }
    }

    /// Defines the address.
    pub fn address(self, address: IotaAddress) -> (r: Self)
        ensures
            r.spec_address() == Some(address),
            r.spec_balance() == self.spec_balance(),
            r.spec_key_index() == self.spec_key_index(),
            r.spec_internal() == self.spec_internal(),
    {
        AddressBuilder {
            address: Some(address),
            balance: self.balance,
            key_index: self.key_index,
            internal: self.internal,
        }
    }

    /// Sets the address balance.
    pub fn balance(self, balance: u64) -> (r: Self)
        ensures
            r.spec_address() == self.spec_address(),
            r.spec_balance() == Some(balance),
            r.spec_key_index() == self.spec_key_index(),
            r.spec_internal() == self.spec_internal(),
    {
        AddressBuilder {
            address: self.address,
            balance: Some(balance),
            key_index: self.key_index,
            internal: self.internal,
        }
    }

    /// Sets the address key index.
    pub fn key_index(self, key_index: usize) -> (r: Self)
        ensures
            r.spec_address() == self.spec_address(),
            r.spec_balance() == self.spec_balance(),
            r.spec_key_index() == Some(key_index),
            r.spec_internal() == self.spec_internal(),
    {
        AddressBuilder {
            address: self.address,
            balance: self.balance,
            key_index: Some(key_index),
            internal: self.internal,
        }
    }

    /// Sets the kind of the address: internal, or public.
    pub fn internal(self, internal: bool) -> (r: Self)
        ensures
            r.spec_address() == self.spec_address(),
            r.spec_balance() == self.spec_balance(),
            r.spec_key_index() == self.spec_key_index(),
            r.spec_internal() == internal,
    {
        AddressBuilder {
            address: self.address,
            balance: self.balance,
            key_index: self.key_index,
            internal,
        }
    }

    /// What `build` returns.
    pub open spec fn spec_build(self) -> Result<(IotaAddress, u64, usize, bool), WalletError> {
        if self.spec_address().is_none() {
            Err(WalletError::AddressRequired)
        } else if self.spec_balance().is_none() {
            Err(WalletError::BalanceRequired)
        } else if self.spec_key_index().is_none() {
            Err(WalletError::KeyIndexRequired)
        } else {
            Ok(
                (
                    self.spec_address().unwrap(),
                    self.spec_balance().unwrap(),
                    self.spec_key_index().unwrap(),
                    self.spec_internal(),
                ),
            )
        }
    }

    /// Builds the address and computes its checksum. The first field that is
    /// missing, in the order address, balance, key index, is reported.
    pub fn build(self) -> (r: Result<Address, WalletError>)
        ensures
            r is Ok <==> self.spec_build() is Ok,
            r matches Err(e) ==> self.spec_build() == Err::<
                (IotaAddress, u64, usize, bool),
                WalletError,
            >(e),
            r matches Ok(a) ==> {
                &&& self.spec_build() == Ok::<(IotaAddress, u64, usize, bool), WalletError>(
                    (a.spec_address(), a.spec_balance(), a.spec_key_index(), a.spec_internal()),
                )
                &&& a.checksum_matches()
                &&& a == Address::spec_new(
                    a.spec_address(),
                    a.spec_balance(),
                    a.spec_key_index(),
                    a.spec_internal(),
                )
            },
    {
        let iota_address = match self.address {
            Some(a) => a,
            None => { return Err(WalletError::AddressRequired); },
        };
        let balance = match self.balance {
            Some(b) => b,
            None => { return Err(WalletError::BalanceRequired); },
        };
        let key_index = match self.key_index {
            Some(k) => k,
            None => { return Err(WalletError::KeyIndexRequired); },
        };
        Ok(Address::new(iota_address, balance, key_index, self.internal))
    }
}

/// Whether one of the messages spends from `address`: its value is
/// negative and it is booked on the address.
pub open spec fn spent_from(messages: Seq<Message>, address: IotaAddress) -> bool {
    exists|i: int|
        0 <= i < messages.len() && (#[trigger] messages[i]).spec_payload().value < 0
            && messages[i].spec_payload().address == address
}

/// Tells whether the account holds a message that spends from `address`.
pub fn is_unspent(account: &Account, address: &IotaAddress) -> (r: bool)
    ensures
        r == spent_from(account.spec_messages(), *address),
{
    let messages = account.messages();
    let mut i: usize = 0;
    while i < messages.len()
        invariant
            i <= messages.len(),
            messages@ == account.spec_messages(),
            forall|j: int|
                0 <= j < i ==> !((#[trigger] messages[j]).spec_payload().value < 0
                    && messages[j].spec_payload().address == *address),
        decreases messages.len() - i,
    {
        let payload = messages[i].payload();
        if payload.value < 0 && payload.address == *address {
            return true;
        }
        i += 1;
    }
    false
}

} // verus!
