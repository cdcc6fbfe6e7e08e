//! Preparing a transfer: from the spendable outputs of the selected
//! addresses to the inputs and outputs of the transaction.

use crate::address::{Address, IotaAddress};
use crate::error::WalletError;
use crate::message::MessageId;
use slip10::path::BIP32Path;
use std::str::FromStr;
use vstd::prelude::*;

verus! {

/// A derivation path of the `slip10` crate. Verus sees nothing inside it.
#[verifier::external_type_specification]
#[verifier::external_body]
pub struct ExBIP32Path(BIP32Path);

/// The indices that a derivation path holds, from the root down.
pub uninterp spec fn path_indices(path: BIP32Path) -> Seq<u32>;

/// What `BIP32Path::from_str` makes of a string: the indices of the path
/// that it spells, or nothing where it spells none.
pub uninterp spec fn parsed_path(path: Seq<char>) -> Option<Seq<u32>>;

/// Calls `BIP32Path::from_str` of the `slip10` crate.
///
/// The contract claims that the outcome depends on the string alone, and
/// that the string without characters spells the path without indices.
#[verifier::external_body]
fn parse_path(path: &str) -> (parsed: Option<BIP32Path>)
    ensures
        parsed.is_some() <==> parsed_path(path@).is_some(),
        parsed matches Some(made) ==> parsed_path(path@) == Some(path_indices(made)),
        path@.len() == 0 ==> parsed.is_some(),
        parsed matches Some(made) ==> (path@.len() == 0 ==> path_indices(made).len() == 0),
{
    BIP32Path::from_str(path).ok()
}

/// A spendable output that the ledger holds for an address.
#[derive(Clone, Copy, Debug, PartialEq, Eq)]
pub struct Utxo {
    /// The message that produced the output.
    pub producer: MessageId,
    /// The position of the output in that message.
    pub output_index: u16,
    /// The amount of the output.
    pub amount: u64,
    /// The address that holds the output.
    pub address: IotaAddress,
}

/// An input of a transaction: the output that it spends.
#[derive(Clone, Copy, Debug, PartialEq, Eq)]
pub struct UtxoInput {
    pub producer: MessageId,
    pub output_index: u16,
}

/// An output of a transaction: an amount for an address.
#[derive(Clone, Copy, Debug, PartialEq, Eq)]
pub struct Output {
    pub address: IotaAddress,
    pub amount: u64,
}

/// The inputs and outputs of a transaction, ready to be signed by the
/// vault.
#[derive(Clone, Debug, PartialEq, Eq)]
pub struct TransactionPlan {
    /// The inputs, each with the derivation path of its key.
    pub inputs: Vec<(UtxoInput, BIP32Path)>,
    pub outputs: Vec<Output>,
}

/// What a [`TransactionPlan`] stands for.
pub struct PlanView {
    /// The inputs, each with the indices of the derivation path of its key.
    pub inputs: Seq<(UtxoInput, Seq<u32>)>,
    pub outputs: Seq<Output>,
}

/// What some inputs with their derivation paths stand for.
pub open spec fn inputs_view(inputs: Seq<(UtxoInput, BIP32Path)>) -> Seq<(UtxoInput, Seq<u32>)> {
    inputs.map_values(|input: (UtxoInput, BIP32Path)| (input.0, path_indices(input.1)))
}

impl View for TransactionPlan {
    type V = PlanView;

    open spec fn view(&self) -> PlanView {
        PlanView { inputs: inputs_view(self.inputs@), outputs: self.outputs@ }
    }
}

/// The sum of the amounts of the outputs.
pub open spec fn total_amount(utxos: Seq<Utxo>) -> int
    decreases utxos.len(),
{
    if utxos.len() == 0 {
        0
    } else {
        total_amount(utxos.drop_last()) + utxos.last().amount
    }
}

/// The sum of the amounts of the outputs of a transaction.
pub open spec fn total_sent(outputs: Seq<Output>) -> int
    decreases outputs.len(),
{
    if outputs.len() == 0 {
        0
    } else {
        total_sent(outputs.drop_last()) + outputs.last().amount
    }
}

/// Whether one of the outputs carries no value.
pub open spec fn has_empty(utxos: Seq<Utxo>) -> bool {
    exists|k: int| 0 <= k < utxos.len() && (#[trigger] utxos[k]).amount == 0
}

/// The inputs that spend the outputs, in their order. The key of each is
/// derived along the path without indices.
pub open spec fn inputs_of(utxos: Seq<Utxo>) -> Seq<(UtxoInput, Seq<u32>)> {
    utxos.map_values(
        |utxo: Utxo|
            (
                UtxoInput { producer: utxo.producer, output_index: utxo.output_index },
                Seq::<u32>::empty(),
            ),
    )
}

/// What of an output goes to the recipient when `sent` was allocated before
/// it: all of it, or what is still missing of `value`.
pub open spec fn allocated(amount: int, sent: int, value: int) -> int {
    if sent + amount > value {
        value - sent
    } else {
        amount
    }
}

/// The outputs of the transaction that go to the recipient: one for each
/// spendable output, in their order, until `value` is reached.
pub open spec fn recipient_outputs(utxos: Seq<Utxo>, value: int, recipient: IotaAddress) -> Seq<
    Output,
>
    decreases utxos.len(),
{
    if utxos.len() == 0 {
        Seq::empty()
    } else {
        let front = recipient_outputs(utxos.drop_last(), value, recipient);
        let sent = total_amount(utxos.drop_last());
        if sent < value {
            front.push(
                Output {
                    address: recipient,
                    amount: allocated(utxos.last().amount as int, sent, value) as u64,
                },
            )
        } else {
            front
        }
    }
}

/// The transaction that sends `value` to `recipient` out of the spendable
/// outputs, or why there is none.
///
/// Every spendable output becomes an input. The recipient gets one output
/// for each spendable output until `value` is reached, never more than
/// `value` in all. What the spendable outputs hold beyond `value` goes to
/// the remainder address in one last output.
pub open spec fn spec_allocate(
    utxos: Seq<Utxo>,
    value: u64,
    recipient: IotaAddress,
    remainder: Option<IotaAddress>,
) -> Result<PlanView, WalletError> {
    let total = total_amount(utxos);
    let to_recipient = recipient_outputs(utxos, value as int, recipient);
    if has_empty(utxos) {
        Err(WalletError::InvalidAmount)
    } else if total > u64::MAX {
        Err(WalletError::AmountOverflow)
    } else if total < value {
        Err(WalletError::InsufficientFunds)
    } else if total == value {
        Ok(PlanView { inputs: inputs_of(utxos), outputs: to_recipient })
    } else {
        match remainder {
            None => Err(WalletError::RemainderAddressUndefined),
            Some(address) => Ok(
                PlanView {
                    inputs: inputs_of(utxos),
                    outputs: to_recipient.push(
                        Output { address, amount: (total - value) as u64 },
                    ),
                },
            ),
        }
    }
}

/// The total is never negative.
pub proof fn lemma_total_amount_nonnegative(utxos: Seq<Utxo>)
    ensures
        total_amount(utxos) >= 0,
    decreases utxos.len(),
{
    if utxos.len() > 0 {
        lemma_total_amount_nonnegative(utxos.drop_last());
    }
}

/// What goes to the recipient: all that is there, up to `value`; every
/// output of it is for the recipient; and none of it is empty unless a
/// spendable output is.
pub proof fn lemma_recipient_outputs(utxos: Seq<Utxo>, value: int, recipient: IotaAddress)
    requires
        0 <= value <= u64::MAX,
    ensures
        total_sent(recipient_outputs(utxos, value, recipient)) == if total_amount(utxos) < value {
            total_amount(utxos)
        } else {
            value
        },
        recipient_outputs(utxos, value, recipient).len() <= utxos.len(),
        forall|k: int|
            0 <= k < recipient_outputs(utxos, value, recipient).len() ==> (
            #[trigger] recipient_outputs(utxos, value, recipient)[k]).address == recipient,
        !has_empty(utxos) ==> forall|k: int|
            0 <= k < recipient_outputs(utxos, value, recipient).len() ==> (
            #[trigger] recipient_outputs(utxos, value, recipient)[k]).amount > 0,
    decreases utxos.len(),
{
    if utxos.len() == 0 {
    } else {
        let front = utxos.drop_last();
        lemma_recipient_outputs(front, value, recipient);
        lemma_total_amount_nonnegative(front);
        let before = recipient_outputs(front, value, recipient);
        let after = recipient_outputs(utxos, value, recipient);
        let sent = total_amount(front);
        if sent < value {
            assert(after.drop_last() =~= before);
        }
        if !has_empty(utxos) {
            assert(utxos[utxos.len() - 1].amount != 0);
            assert forall|k: int| 0 <= k < front.len() implies (#[trigger] front[k]).amount
                != 0 by {
                assert(front[k] == utxos[k]);
            }
            assert(!has_empty(front));
            assert forall|k: int| 0 <= k < after.len() implies (#[trigger] after[k]).amount
                > 0 by {
                if k < before.len() {
                    assert(after[k] == before[k]);
                }
            }
        }
        assert forall|k: int| 0 <= k < after.len() implies (#[trigger] after[k]).address
            == recipient by {
            if k < before.len() {
                assert(after[k] == before[k]);
            }
        }
    }
}

/// A transaction conserves value: its outputs hold what its inputs spend.
/// The recipient gets the requested value, and no output is empty.
pub proof fn lemma_allocation_conserves(
    utxos: Seq<Utxo>,
    value: u64,
    recipient: IotaAddress,
    remainder: Option<IotaAddress>,
)
    requires
        spec_allocate(utxos, value, recipient, remainder) is Ok,
    ensures
        total_sent(spec_allocate(utxos, value, recipient, remainder)->Ok_0.outputs) == total_amount(
            utxos,
        ),
        total_sent(recipient_outputs(utxos, value as int, recipient)) == value,
        spec_allocate(utxos, value, recipient, remainder)->Ok_0.inputs.len() == utxos.len(),
        forall|k: int|
            0 <= k < utxos.len() ==> (#[trigger] spec_allocate(
                utxos,
                value,
                recipient,
                remainder,
            )->Ok_0.inputs[k]).0 == (UtxoInput {
                producer: utxos[k].producer,
                output_index: utxos[k].output_index,
            }),
        forall|k: int|
            0 <= k < spec_allocate(utxos, value, recipient, remainder)->Ok_0.outputs.len() ==> (
            #[trigger] spec_allocate(utxos, value, recipient, remainder)->Ok_0.outputs[k]).amount
                > 0,
{
    lemma_recipient_outputs(utxos, value as int, recipient);
    let plan = spec_allocate(utxos, value, recipient, remainder)->Ok_0;
    let to_recipient = recipient_outputs(utxos, value as int, recipient);
    if total_amount(utxos) > value {
        assert(plan.outputs.drop_last() =~= to_recipient);
        assert forall|k: int| 0 <= k < plan.outputs.len() implies (#[trigger] plan.outputs[k]).amount
            > 0 by {
            if k < to_recipient.len() {
                assert(plan.outputs[k] == to_recipient[k]);
            }
        }
    }
}

/// Spendable outputs that hold exactly the requested value leave nothing
/// for a remainder: every output of the transaction goes to the recipient.
/// Spendable outputs that hold more yield exactly one output beyond those of
/// the recipient, the last one, and it goes to the remainder address.
pub proof fn lemma_remainder_output(
    utxos: Seq<Utxo>,
    value: u64,
    recipient: IotaAddress,
    remainder: Option<IotaAddress>,
)
    requires
        spec_allocate(utxos, value, recipient, remainder) is Ok,
    ensures
        ({
            let outputs = spec_allocate(utxos, value, recipient, remainder)->Ok_0.outputs;
            let to_recipient = recipient_outputs(utxos, value as int, recipient);
            &&& total_amount(utxos) == value ==> outputs == to_recipient
            &&& total_amount(utxos) > value ==> {
                &&& remainder is Some
                &&& outputs.len() == to_recipient.len() + 1
                &&& outputs.drop_last() == to_recipient
                &&& outputs.last().address == remainder->Some_0
                &&& outputs.last().amount == total_amount(utxos) - value
            }
            &&& forall|k: int|
                0 <= k < to_recipient.len() ==> (#[trigger] to_recipient[k]).address == recipient
        }),
{
    lemma_recipient_outputs(utxos, value as int, recipient);
    let outputs = spec_allocate(utxos, value, recipient, remainder)->Ok_0.outputs;
    let to_recipient = recipient_outputs(utxos, value as int, recipient);
    if total_amount(utxos) > value {
        assert(outputs.drop_last() =~= to_recipient);
    }
}

/// Makes the transaction that sends `value` to `recipient` out of the
/// spendable outputs.
pub fn allocate(
    utxos: &Vec<Utxo>,
    value: u64,
    recipient: &IotaAddress,
    remainder: Option<IotaAddress>,
) -> (r: Result<TransactionPlan, WalletError>)
    ensures
        match spec_allocate(utxos@, value, *recipient, remainder) {
            Ok(plan) => r matches Ok(made) && made@ == plan,
            Err(e) => r matches Err(f) && f == e,
        },
{
    let mut inputs: Vec<(UtxoInput, BIP32Path)> = Vec::new();
    let mut outputs: Vec<Output> = Vec::new();
    let mut sent: u128 = 0;
    let mut i: usize = 0;
    while i < utxos.len()
        invariant
            i <= utxos.len(),
            sent == total_amount(utxos@.take(i as int)),
            sent <= i * 0xffff_ffff_ffff_ffff,
            inputs_view(inputs@) == inputs_of(utxos@.take(i as int)),
            outputs@ == recipient_outputs(utxos@.take(i as int), value as int, *recipient),
            forall|k: int| 0 <= k < i ==> (#[trigger] utxos[k]).amount != 0,
        decreases utxos.len() - i,
    {
        proof {
            assert(utxos@.take(i + 1).drop_last() =~= utxos@.take(i as int));
        }
        let utxo = utxos[i];
        if utxo.amount == 0 {
            return Err(WalletError::InvalidAmount);
        }
        proof {
            reveal_strlit("");
        }
        let path = parse_path("").unwrap();
        assert(path_indices(path) =~= Seq::<u32>::empty());
        let ghost before = inputs_view(inputs@);
        let input = UtxoInput { producer: utxo.producer, output_index: utxo.output_index };
        inputs.push((input, path));
        proof {
            assert(inputs_view(inputs@) =~= before.push((input, Seq::<u32>::empty())));
            assert(inputs_view(inputs@) =~= inputs_of(utxos@.take(i + 1)));
        }
        if sent < value as u128 {
            let amount = if sent + utxo.amount as u128 > value as u128 {
                value - sent as u64
            } else {
                utxo.amount
            };
            outputs.push(Output { address: *recipient, amount });
        }
        sent = sent + utxo.amount as u128;
        i += 1;
    }
    proof {
        assert(utxos@.take(utxos.len() as int) =~= utxos@);
        assert(!has_empty(utxos@));
    }
    if sent > u64::MAX as u128 {
        Err(WalletError::AmountOverflow)
    } else if sent < value as u128 {
        Err(WalletError::InsufficientFunds)
    } else if sent == value as u128 {
        Ok(TransactionPlan { inputs, outputs })
    } else {
        match remainder {
            None => Err(WalletError::RemainderAddressUndefined),
            Some(address) => {
                outputs.push(Output { address, amount: (sent - value as u128) as u64 });
                Ok(TransactionPlan { inputs, outputs })
            },
        }
    }
}

/// A transfer that passed its checks and has its inputs selected. What is
/// left to do needs the spendable outputs of the input addresses.
#[derive(Clone, Debug)]
pub struct PreparedTransfer {
    value: u64,
    recipient: IotaAddress,
    input_addresses: Vec<Address>,
    remainder_address: Option<Address>,
}

impl PreparedTransfer {
    /// The amount to send.
    pub closed spec fn spec_value(&self) -> u64 {
        self.value
    }

    /// The destination.
    pub closed spec fn spec_recipient(&self) -> IotaAddress {
        self.recipient
    }

    /// The addresses that pay.
    pub closed spec fn spec_input_addresses(&self) -> Seq<Address> {
        self.input_addresses@
    }

    /// The address that takes what is left over, if anything is.
    pub closed spec fn spec_remainder_address(&self) -> Option<Address> {
        self.remainder_address
    }

    /// The address value that takes what is left over, if anything is.
    pub open spec fn spec_remainder(&self) -> Option<IotaAddress> {
        match self.spec_remainder_address() {
            Some(address) => Some(address.spec_address()),
            None => None,
        }
    }

    /// A transfer of `value` to `recipient` that is paid by the given
    /// addresses.
    pub(crate) fn new(
        value: u64,
        recipient: IotaAddress,
        input_addresses: Vec<Address>,
        remainder_address: Option<Address>,
    ) -> (r: PreparedTransfer)
        ensures
            r.spec_value() == value,
            r.spec_recipient() == recipient,
            r.spec_input_addresses() == input_addresses@,
            r.spec_remainder_address() == remainder_address,
    {
        PreparedTransfer { value, recipient, input_addresses, remainder_address }
    }

    /// The amount to send.
    pub fn value(&self) -> (r: u64)
        ensures
            r == self.spec_value(),
    {
        self.value
    }

    /// The destination.
    pub fn recipient(&self) -> (r: &IotaAddress)
        ensures
            *r == self.spec_recipient(),
    {
        &self.recipient
    }

    /// The addresses that pay: the ledger is asked for their spendable
    /// outputs.
    pub fn input_addresses(&self) -> (r: &Vec<Address>)
        ensures
            r@ == self.spec_input_addresses(),
    {
        &self.input_addresses
    }

    /// The address that takes what is left over, if anything is.
    pub fn remainder_address(&self) -> (r: Option<&Address>)
        ensures
            match r {
                Some(address) => self.spec_remainder_address() == Some(*address),
                None => self.spec_remainder_address().is_none(),
            },
    {
        self.remainder_address.as_ref()
    }

    /// Makes the transaction of the transfer out of the spendable outputs
    /// that the ledger holds for the input addresses.
    pub fn allocate(&self, utxos: &Vec<Utxo>) -> (r: Result<TransactionPlan, WalletError>)
        ensures
            match spec_allocate(utxos@, self.spec_value(), self.spec_recipient(), self.spec_remainder()) {
                Ok(plan) => r matches Ok(made) && made@ == plan,
                Err(e) => r matches Err(f) && f == e,
            },
    {
        let remainder = match &self.remainder_address {
            Some(address) => Some(*address.address()),
            None => None,
        };
        allocate(utxos, self.value, &self.recipient, remainder)
    }
}

} // verus!
