//! Messages of the ledger as the wallet records them, and transfer requests.

use crate::address::IotaAddress;
use crate::error::WalletError;
use vstd::prelude::*;
use vstd::std_specs::cmp::PartialEqSpecImpl;

verus! {

/// The identifier of a message on the ledger: 32 opaque bytes.
#[derive(Clone, Copy, Debug, Eq)]
pub struct MessageId {
    pub bytes: [u8; 32],
}

impl PartialEq for MessageId {
    fn eq(&self, other: &MessageId) -> (r: bool) {
        let mut i: usize = 0;
        while i < 32
            invariant
                i <= 32,
                forall|j: int| 0 <= j < i ==> self.bytes[j] == other.bytes[j],
            decreases 32 - i,
        {
            if self.bytes[i] != other.bytes[i] {
                return false;
            }
            i += 1;
        }
        assert(self.bytes =~= other.bytes);
        true
    }
}

impl PartialEqSpecImpl for MessageId {
    open spec fn obeys_eq_spec() -> bool {
        true
    }

    open spec fn eq_spec(&self, other: &MessageId) -> bool {
        *self == *other
    }
}

impl MessageId {
    /// The identifier with the given bytes.
    pub fn new(bytes: [u8; 32]) -> (r: MessageId)
        ensures
            r.bytes == bytes,
    {
        MessageId { bytes }
    }
}

/// What a message moves: a signed value at an address. A negative value is
/// spent from the address, a positive one is received by it.
#[derive(Clone, Copy, Debug, PartialEq, Eq)]
pub struct Payload {
    pub address: IotaAddress,
    pub value: i64,
}

/// A message as the ledger hands it out.
#[derive(Clone, Copy, Debug, PartialEq, Eq)]
pub struct IotaMessage {
    pub id: MessageId,
    pub payload: Payload,
}

/// A message as the wallet records it.
#[derive(Clone, Copy, Debug, PartialEq, Eq)]
pub struct Message {
    message_id: MessageId,
    broadcasted: bool,
    confirmed: bool,
    payload: Payload,
}

impl Message {
    /// The identifier of the message.
    pub closed spec fn spec_message_id(&self) -> MessageId {
        self.message_id
    }

    /// Whether the ledger has acknowledged the message.
    pub closed spec fn spec_broadcasted(&self) -> bool {
        self.broadcasted
    }

    /// Whether the ledger has reported the message as final.
    pub closed spec fn spec_confirmed(&self) -> bool {
        self.confirmed
    }

    /// What the message moves.
    pub closed spec fn spec_payload(&self) -> Payload {
        self.payload
    }

    /// The message with the given parts.
    pub closed spec fn spec_new(
        message_id: MessageId,
        payload: Payload,
        broadcasted: bool,
        confirmed: bool,
    ) -> Message {
        Message { message_id, broadcasted, confirmed, payload }
    }

    /// A message is known by its four parts.
    pub broadcast proof fn lemma_spec_new(
        message_id: MessageId,
        payload: Payload,
        broadcasted: bool,
        confirmed: bool,
    )
        ensures
            (#[trigger] Message::spec_new(
                message_id,
                payload,
                broadcasted,
                confirmed,
            )).spec_message_id() == message_id,
            Message::spec_new(message_id, payload, broadcasted, confirmed).spec_payload()
                == payload,
            Message::spec_new(message_id, payload, broadcasted, confirmed).spec_broadcasted()
                == broadcasted,
            Message::spec_new(message_id, payload, broadcasted, confirmed).spec_confirmed()
                == confirmed,
    {
    }

    /// A message is the one made of its four parts.
    pub broadcast proof fn lemma_parts(m: Message)
        ensures
            #![trigger m.spec_message_id()]
            m == Message::spec_new(
                m.spec_message_id(),
                m.spec_payload(),
                m.spec_broadcasted(),
                m.spec_confirmed(),
            ),
    {
    }

    /// The record of a message that was just handed to the ledger and is not
    /// yet acknowledged.
    pub fn new(message_id: MessageId, payload: Payload) -> (r: Message)
        ensures
            r == Message::spec_new(message_id, payload, false, false),
    {
        Message { message_id, broadcasted: false, confirmed: false, payload }
    }

    /// The record of a message that was seen on the ledger: it counts as
    /// broadcasted, and not yet as confirmed.
    pub fn from_iota_message(message: &IotaMessage) -> (r: Message)
        ensures
            r == Message::spec_new(message.id, message.payload, true, false),
    {
        Message {
            message_id: message.id,
            broadcasted: true,
            confirmed: false,
            payload: message.payload,
        }
    }

    /// The identifier of the message.
    pub fn message_id(&self) -> (r: &MessageId)
        ensures
            *r == self.spec_message_id(),
    {
        &self.message_id
    }

    /// Whether the ledger has acknowledged the message.
    pub fn broadcasted(&self) -> (r: bool)
        ensures
            r == self.spec_broadcasted(),
    {
        self.broadcasted
    }

    /// Whether the ledger has reported the message as final.
    pub fn confirmed(&self) -> (r: bool)
        ensures
            r == self.spec_confirmed(),
    {
        self.confirmed
    }

    /// What the message moves.
    pub fn payload(&self) -> (r: &Payload)
        ensures
            *r == self.spec_payload(),
    {
        &self.payload
    }

    /// Records what the ledger says of the broadcast. The flag only rises:
    /// once set it stays set.
    pub fn set_broadcasted(&mut self, broadcasted: bool)
        ensures
            *final(self) == Message::spec_new(
                old(self).spec_message_id(),
                old(self).spec_payload(),
                old(self).spec_broadcasted() || broadcasted,
                old(self).spec_confirmed(),
            ),
    {
        if broadcasted {
            self.broadcasted = true;
        }
    }

    /// Records what the ledger says of the confirmation. The flag only
    /// rises: once set it stays set.
    pub fn set_confirmed(&mut self, confirmed: bool)
        ensures
            *final(self) == Message::spec_new(
                old(self).spec_message_id(),
                old(self).spec_payload(),
                old(self).spec_broadcasted(),
                old(self).spec_confirmed() || confirmed,
            ),
    {
        if confirmed {
            self.confirmed = true;
        }
    }
}

/// A request to send an amount to an address.
#[derive(Clone, Copy, Debug, PartialEq, Eq)]
pub struct Transfer {
    address: IotaAddress,
    amount: u64,
}

impl Transfer {
    /// The destination.
    pub closed spec fn spec_address(&self) -> IotaAddress {
        self.address
    }

    /// The amount to send.
    pub closed spec fn spec_amount(&self) -> u64 {
        self.amount
    }

    /// A request to send `amount` to `address`. Whether the amount is
    /// acceptable is decided when the transfer is prepared.
    pub fn new(address: IotaAddress, amount: u64) -> (r: Transfer)
        ensures
            r.spec_address() == address,
            r.spec_amount() == amount,
    {
        Transfer { address, amount }
    }

    /// Checks the request by itself, before anything is loaded or asked
    /// for it: a transfer of nothing is refused.
    pub fn validate(&self) -> (r: Result<(), WalletError>)
        ensures
            r is Ok <==> self.spec_amount() > 0,
            r matches Err(e) ==> e == WalletError::AmountMustBePositive,
    {
        if self.amount == 0 {
            Err(WalletError::AmountMustBePositive)
        } else {
            Ok(())
        }
    }

    /// The destination.
    pub fn address(&self) -> (r: &IotaAddress)
        ensures
            *r == self.spec_address(),
    {
        &self.address
    }

    /// The amount to send.
    pub fn amount(&self) -> (r: &u64)
        ensures
            *r == self.spec_amount(),
    {
        &self.amount
    }
}

} // verus!
