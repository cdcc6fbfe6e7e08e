//! Address discovery: the gap-limit scan of the addresses of an account.
//!
//! The scan goes over the derivation indices in rounds of `gap_limit`
//! indices. For each round the caller derives the public and the internal
//! address of every index, asks the ledger for the messages and the balances
//! of these addresses, and hands the answers in as a [`Batch`]. The scan is
//! over after the first round in which the ledger knows no message and no
//! balance of the addresses.

use crate::account::interleaved;
use crate::address::{Address, IotaAddress};
use crate::error::WalletError;
use crate::message::IotaMessage;
use vstd::prelude::*;

verus! {

broadcast use Address::lemma_spec_new;

/// The number of rounds after which a scan that has not come to its end is
/// given up.
pub const MAX_ROUNDS: usize = 1000;

/// An amount that the ledger holds for an address.
#[derive(Clone, Copy, Debug, PartialEq, Eq)]
pub struct AddressOutput {
    pub address: IotaAddress,
    pub amount: u64,
}

/// The answers of the ledger for one round.
#[derive(Clone, Debug)]
pub struct Batch {
    /// The addresses of the round: for each index its public address, then
    /// its internal one.
    pub addresses: Vec<IotaAddress>,
    /// The messages that the ledger knows for these addresses.
    pub messages: Vec<IotaMessage>,
    /// The amounts that the ledger holds for these addresses.
    pub outputs: Vec<AddressOutput>,
}

/// What a [`Batch`] stands for.
pub struct BatchView {
    pub addresses: Seq<IotaAddress>,
    pub messages: Seq<IotaMessage>,
    pub outputs: Seq<AddressOutput>,
}

impl View for Batch {
    type V = BatchView;

    open spec fn view(&self) -> BatchView {
        BatchView { addresses: self.addresses@, messages: self.messages@, outputs: self.outputs@ }
    }
}

/// The balance of an address: the sum of the amounts that are held for it.
pub open spec fn balance_of(outputs: Seq<AddressOutput>, address: IotaAddress) -> int
    decreases outputs.len(),
{
    if outputs.len() == 0 {
        0
    } else {
        balance_of(outputs.drop_last(), address) + if outputs.last().address == address {
            outputs.last().amount as int
        } else {
            0
        }
    }
}

/// The address records of a round whose first index is `first_index`.
pub open spec fn built(
    addresses: Seq<IotaAddress>,
    outputs: Seq<AddressOutput>,
    first_index: int,
) -> Seq<Address> {
    Seq::new(
        addresses.len(),
        |k: int|
            Address::spec_new(
                addresses[k],
                balance_of(outputs, addresses[k]) as u64,
                (first_index + k / 2) as usize,
                k % 2 == 1,
            ),
    )
}

/// Whether a balance of the round is too large for 64 bits.
pub open spec fn overflows(batch: BatchView) -> bool {
    exists|k: int|
        0 <= k < batch.addresses.len() && balance_of(batch.outputs, #[trigger] batch.addresses[k])
            > u64::MAX
}

/// Whether the ledger knows nothing of the round: no message, and no
/// balance of any of its addresses.
pub open spec fn quiet(batch: BatchView) -> bool {
    &&& batch.messages.len() == 0
    &&& forall|k: int|
        0 <= k < batch.addresses.len() ==> balance_of(batch.outputs, #[trigger] batch.addresses[k])
            == 0
}

/// What a scan stands for.
pub struct DiscoveryView {
    /// The first index of the scan.
    pub start_index: nat,
    /// The number of indices in a round.
    pub gap_limit: nat,
    /// The number of rounds that are done.
    pub rounds: nat,
    /// The number of indices that are scanned.
    pub scanned: nat,
    /// The address records of the scanned indices, two for each index.
    pub addresses: Seq<Address>,
    /// The messages that the ledger knows for these addresses.
    pub messages: Seq<IotaMessage>,
}

impl DiscoveryView {
    /// The scan before its first round.
    pub open spec fn initial(start_index: nat, gap_limit: nat) -> DiscoveryView {
        DiscoveryView {
            start_index,
            gap_limit,
            rounds: 0,
            scanned: 0,
            addresses: Seq::empty(),
            messages: Seq::empty(),
        }
    }

    /// The first index of the next round.
    pub open spec fn next_index(self) -> nat {
        self.start_index + self.scanned
    }

    /// The scan after a round.
    pub open spec fn advanced(self, batch: BatchView) -> DiscoveryView {
        DiscoveryView {
            start_index: self.start_index,
            gap_limit: self.gap_limit,
            rounds: self.rounds + 1,
            scanned: self.scanned + self.gap_limit,
            addresses: self.addresses + built(
                batch.addresses,
                batch.outputs,
                self.next_index() as int,
            ),
            messages: self.messages + batch.messages,
        }
    }

    /// What holds of every scan, whether it goes on or is over.
    pub open spec fn wf(self) -> bool {
        &&& self.gap_limit >= 1
        &&& self.rounds <= MAX_ROUNDS
        &&& self.scanned == self.gap_limit * self.rounds
        &&& self.addresses.len() == 2 * self.scanned
        &&& interleaved(self.addresses, self.start_index as int)
        &&& self.next_index() <= usize::MAX
    }

    /// What holds of a scan that can take another round.
    pub open spec fn can_scan(self) -> bool {
        &&& self.wf()
        &&& self.rounds < MAX_ROUNDS
        &&& self.next_index() + self.gap_limit <= usize::MAX
    }

    /// What holds of a scan that is over: its last round was quiet.
    pub open spec fn finished(self) -> bool {
        &&& self.wf()
        &&& self.rounds >= 1
        &&& self.scanned >= self.gap_limit
        &&& forall|k: int|
            self.addresses.len() - 2 * self.gap_limit <= k < self.addresses.len() ==> (
            #[trigger] self.addresses[k]).spec_balance() == 0
    }
}

/// How a round ends.
pub enum StepView {
    /// The scan goes on with another round.
    Continue(DiscoveryView),
    /// The scan is over.
    Done(DiscoveryView),
}

/// What a round makes of a scan.
///
/// A batch that does not hold two addresses for each index of the round is
/// refused, and so is one with a balance that does not fit into 64 bits. A
/// quiet round ends the scan. After any other round the scan goes on, unless
/// it has used up its rounds or the indices.
pub open spec fn spec_absorb(pre: DiscoveryView, batch: BatchView) -> Result<
    StepView,
    WalletError,
> {
    if batch.addresses.len() != 2 * pre.gap_limit {
        Err(WalletError::UnexpectedBatch)
    } else if overflows(batch) {
        Err(WalletError::AmountOverflow)
    } else if quiet(batch) {
        Ok(StepView::Done(pre.advanced(batch)))
    } else if pre.rounds + 1 >= MAX_ROUNDS || pre.advanced(batch).next_index() + pre.gap_limit
        > usize::MAX {
        Err(WalletError::AddressSpaceExhausted)
    } else {
        Ok(StepView::Continue(pre.advanced(batch)))
    }
}

/// The scan against a ledger that answers the round with the first index
/// `i` by `ledger(i)`, for at most `fuel` rounds.
pub open spec fn run(pre: DiscoveryView, ledger: spec_fn(nat) -> BatchView, fuel: nat) -> Result<
    StepView,
    WalletError,
>
    decreases fuel,
{
    if fuel == 0 {
        Ok(StepView::Continue(pre))
    } else {
        match spec_absorb(pre, ledger(pre.next_index())) {
            Ok(StepView::Continue(next)) => run(next, ledger, (fuel - 1) as nat),
            other => other,
        }
    }
}

/// A round keeps a scan in order.
pub proof fn lemma_absorb_wf(pre: DiscoveryView, batch: BatchView)
    requires
        pre.can_scan(),
    ensures
        spec_absorb(pre, batch) matches Ok(StepView::Continue(next)) ==> next.can_scan(),
        spec_absorb(pre, batch) matches Ok(StepView::Done(last)) ==> last.finished(),
        spec_absorb(pre, batch) is Ok ==> pre.advanced(batch).rounds == pre.rounds + 1,
{
    if spec_absorb(pre, batch) is Ok {
        let next = pre.advanced(batch);
        let fresh = built(batch.addresses, batch.outputs, pre.next_index() as int);
        assert(next.scanned == next.gap_limit * next.rounds) by (nonlinear_arith)
            requires
                next.scanned == pre.scanned + pre.gap_limit,
                next.rounds == pre.rounds + 1,
                next.gap_limit == pre.gap_limit,
                pre.scanned == pre.gap_limit * pre.rounds,
        ;
        assert forall|k: int| 0 <= k < next.addresses.len() implies {
            &&& (#[trigger] next.addresses[k]).spec_key_index() == next.start_index + k / 2
            &&& next.addresses[k].spec_internal() == (k % 2 == 1)
        } by {
            if k >= pre.addresses.len() {
                let j = k - pre.addresses.len();
                assert(next.addresses[k] == fresh[j]);
                assert(0 <= j / 2 < pre.gap_limit);
            } else {
                assert(next.addresses[k] == pre.addresses[k]);
            }
        }
        if quiet(batch) {
            assert forall|k: int|
                next.addresses.len() - 2 * next.gap_limit <= k < next.addresses.len() implies (
            #[trigger] next.addresses[k]).spec_balance() == 0 by {
                let j = k - pre.addresses.len();
                assert(next.addresses[k] == fresh[j]);
                assert(balance_of(batch.outputs, batch.addresses[j]) == 0);
            }
        }
    }
}

/// What a scan that is over has found: two address records for each
/// scanned index, in the order of the indices, with no balance on the
/// records of its last round and no message from its last round.
pub proof fn lemma_absorb_done(pre: DiscoveryView, batch: BatchView)
    requires
        pre.can_scan(),
        spec_absorb(pre, batch) is Ok,
        spec_absorb(pre, batch)->Ok_0 is Done,
    ensures
        ({
            let last = spec_absorb(pre, batch)->Ok_0->Done_0;
            &&& last.addresses.len() == 2 * last.scanned
            &&& last.scanned == last.gap_limit * last.rounds
            &&& interleaved(last.addresses, last.start_index as int)
            &&& last.messages == pre.messages
            &&& forall|k: int|
                last.addresses.len() - 2 * last.gap_limit <= k < last.addresses.len() ==> (
                #[trigger] last.addresses[k]).spec_balance() == 0
        }),
{
    lemma_absorb_wf(pre, batch);
    let last = pre.advanced(batch);
    assert(last.messages =~= pre.messages);
}

/// Every scan comes to an end: whatever the ledger answers, a scan with a
/// gap limit of at least one is over, or has failed, after at most
/// [`MAX_ROUNDS`] rounds, and a scan that is over has found what
/// [`lemma_absorb_done`] says.
pub proof fn lemma_scan_terminates(pre: DiscoveryView, ledger: spec_fn(nat) -> BatchView)
    requires
        pre.can_scan(),
    ensures
        !(run(pre, ledger, (MAX_ROUNDS - pre.rounds) as nat) matches Ok(StepView::Continue(_))),
        run(pre, ledger, (MAX_ROUNDS - pre.rounds) as nat) matches Ok(StepView::Done(last))
            ==> last.finished(),
    decreases MAX_ROUNDS - pre.rounds,
{
    let batch = ledger(pre.next_index());
    lemma_absorb_wf(pre, batch);
    match spec_absorb(pre, batch) {
        Ok(StepView::Continue(next)) => {
            lemma_scan_terminates(next, ledger);
        },
        _ => {},
    }
}

/// A scan from any index with any gap limit of at least one comes to an
/// end, if its first round fits into the indices.
pub proof fn lemma_discovery_terminates(
    start_index: nat,
    gap_limit: nat,
    ledger: spec_fn(nat) -> BatchView,
)
    requires
        gap_limit >= 1,
        start_index + gap_limit <= usize::MAX,
    ensures
        !(run(DiscoveryView::initial(start_index, gap_limit), ledger, MAX_ROUNDS as nat) matches Ok(
            StepView::Continue(_),
        )),
        run(DiscoveryView::initial(start_index, gap_limit), ledger, MAX_ROUNDS as nat) matches Ok(
            StepView::Done(last),
        ) ==> last.finished() && last.start_index == start_index && last.gap_limit == gap_limit,
{
    let pre = DiscoveryView::initial(start_index, gap_limit);
    assert(pre.scanned == pre.gap_limit * pre.rounds) by (nonlinear_arith)
        requires
            pre.scanned == 0,
            pre.rounds == 0,
    ;
    lemma_scan_terminates(pre, ledger);
    lemma_run_keeps(pre, ledger, MAX_ROUNDS as nat);
}

/// A scan from index zero comes to an end with every gap limit of at least
/// one: it is over, or has failed, after at most [`MAX_ROUNDS`] rounds. A
/// scan that is over holds two address records for each scanned index, in
/// the order of the indices from zero on, and those of its last round hold
/// no balance.
pub proof fn lemma_full_scan_terminates(gap_limit: usize, ledger: spec_fn(nat) -> BatchView)
    requires
        gap_limit >= 1,
    ensures
        !(run(DiscoveryView::initial(0, gap_limit as nat), ledger, MAX_ROUNDS as nat) matches Ok(
            StepView::Continue(_),
        )),
        run(DiscoveryView::initial(0, gap_limit as nat), ledger, MAX_ROUNDS as nat) matches Ok(
            StepView::Done(last),
        ) ==> {
            &&& last.finished()
            &&& last.start_index == 0
            &&& last.gap_limit == gap_limit
            &&& last.addresses.len() == 2 * last.scanned
            &&& interleaved(last.addresses, 0)
        },
{
    lemma_discovery_terminates(0, gap_limit as nat, ledger);
}

/// A scan keeps its first index and its gap limit.
pub proof fn lemma_run_keeps(pre: DiscoveryView, ledger: spec_fn(nat) -> BatchView, fuel: nat)
    ensures
        run(pre, ledger, fuel) matches Ok(StepView::Done(last)) ==> last.start_index
            == pre.start_index && last.gap_limit == pre.gap_limit,
        run(pre, ledger, fuel) matches Ok(StepView::Continue(next)) ==> next.start_index
            == pre.start_index && next.gap_limit == pre.gap_limit,
    decreases fuel,
{
    if fuel > 0 {
        match spec_absorb(pre, ledger(pre.next_index())) {
            Ok(StepView::Continue(next)) => {
                lemma_run_keeps(next, ledger, (fuel - 1) as nat);
            },
            _ => {},
        }
    }
}

/// Adds up the amounts that are held for an address, if the sum fits into
/// 64 bits.
pub fn sum_outputs(outputs: &Vec<AddressOutput>, address: &IotaAddress) -> (r: Option<u64>)
    ensures
        r.is_some() <==> balance_of(outputs@, *address) <= u64::MAX,
        r matches Some(balance) ==> balance == balance_of(outputs@, *address),
{
    let mut total: u128 = 0;
    let mut i: usize = 0;
    while i < outputs.len()
        invariant
            i <= outputs.len(),
            total == balance_of(outputs@.take(i as int), *address),
            total <= i * 0xffff_ffff_ffff_ffff,
        decreases outputs.len() - i,
    {
        proof {
            assert(outputs@.take(i + 1).drop_last() =~= outputs@.take(i as int));
        }
        if outputs[i].address == *address {
            total = total + outputs[i].amount as u128;
        }
        i += 1;
    }
    proof {
        assert(outputs@.take(outputs.len() as int) =~= outputs@);
    }
    if total > u64::MAX as u128 {
        None
    } else {
        Some(total as u64)
    }
}

/// A scan that can take another round.
#[derive(Debug)]
pub struct AddressDiscovery {
    start_index: usize,
    gap_limit: usize,
    rounds: usize,
    next_index: usize,
    addresses: Vec<Address>,
    messages: Vec<IotaMessage>,
}

impl View for AddressDiscovery {
    type V = DiscoveryView;

    closed spec fn view(&self) -> DiscoveryView {
        DiscoveryView {
            start_index: self.start_index as nat,
            gap_limit: self.gap_limit as nat,
            rounds: self.rounds as nat,
            scanned: (self.next_index - self.start_index) as nat,
            addresses: self.addresses@,
            messages: self.messages@,
        }
    }
}

/// A scan that is over.
#[derive(Debug)]
pub struct Discovered {
    start_index: usize,
    gap_limit: usize,
    rounds: usize,
    next_index: usize,
    addresses: Vec<Address>,
    messages: Vec<IotaMessage>,
}

impl View for Discovered {
    type V = DiscoveryView;

    closed spec fn view(&self) -> DiscoveryView {
        DiscoveryView {
            start_index: self.start_index as nat,
            gap_limit: self.gap_limit as nat,
            rounds: self.rounds as nat,
            scanned: (self.next_index - self.start_index) as nat,
            addresses: self.addresses@,
            messages: self.messages@,
        }
    }
}

/// How a round ends.
#[derive(Debug)]
pub enum DiscoveryStep {
    /// The scan goes on: its next round is to be handed in.
    Continue(AddressDiscovery),
    /// The scan is over.
    Done(Discovered),
}

impl Discovered {
    #[verifier::type_invariant]
    closed spec fn well_formed(self) -> bool {
        self.start_index <= self.next_index && self@.finished()
    }

    /// The first index of the scan.
    pub fn start_index(&self) -> (r: usize)
        ensures
            r == self@.start_index,
            self@.finished(),
    {
        proof {
            use_type_invariant(self);
        }
        self.start_index
    }

    /// The number of indices in a round.
    pub fn gap_limit(&self) -> (r: usize)
        ensures
            r == self@.gap_limit,
    {
        self.gap_limit
    }

    /// The number of rounds that the scan took.
    pub fn rounds(&self) -> (r: usize)
        ensures
            r == self@.rounds,
    {
        self.rounds
    }

    /// The address records that were found: two for each scanned index, in
    /// the order of the indices, and none of those of the last round with a
    /// balance.
    pub fn addresses(&self) -> (r: &Vec<Address>)
        ensures
            r@ == self@.addresses,
            self@.finished(),
    {
        proof {
            use_type_invariant(self);
        }
        &self.addresses
    }

    /// The messages that the ledger knows for the addresses.
    pub fn messages(&self) -> (r: &Vec<IotaMessage>)
        ensures
            r@ == self@.messages,
    {
        &self.messages
    }
}

impl AddressDiscovery {
    #[verifier::type_invariant]
    closed spec fn well_formed(self) -> bool {
        self.start_index <= self.next_index && self@.can_scan()
    }

    /// What `new` returns.
    pub open spec fn spec_new(start_index: usize, gap_limit: usize) -> Result<
        DiscoveryView,
        WalletError,
    > {
        if gap_limit == 0 {
            Err(WalletError::InvalidGapLimit)
        } else if start_index + gap_limit > usize::MAX {
            Err(WalletError::AddressSpaceExhausted)
        } else {
            Ok(DiscoveryView::initial(start_index as nat, gap_limit as nat))
        }
    }

    /// A scan from `start_index` on in rounds of `gap_limit` indices. A gap
    /// limit of zero is refused, and so is a first round that does not fit
    /// into the indices.
    pub fn new(start_index: usize, gap_limit: usize) -> (r: Result<AddressDiscovery, WalletError>)
        ensures
            match Self::spec_new(start_index, gap_limit) {
                Ok(view) => r matches Ok(scan) && scan@ == view && view.can_scan(),
                Err(e) => r matches Err(f) && f == e,
            },
    {
        if gap_limit == 0 {
            return Err(WalletError::InvalidGapLimit);
        }
        if start_index > usize::MAX - gap_limit {
            return Err(WalletError::AddressSpaceExhausted);
        }
        let scan = AddressDiscovery {
            start_index,
            gap_limit,
            rounds: 0,
            next_index: start_index,
            addresses: Vec::new(),
            messages: Vec::new(),
        };
        proof {
            let view = DiscoveryView::initial(start_index as nat, gap_limit as nat);
            assert(scan@.addresses =~= view.addresses);
            assert(scan@.messages =~= view.messages);
            assert(view.scanned == view.gap_limit * view.rounds) by (nonlinear_arith)
                requires
                    view.scanned == 0,
                    view.rounds == 0,
            ;
        }
        Ok(scan)
    }

    /// The indices of the next round: the first one, and how many there
    /// are. The batch of the round holds the public and the internal address
    /// of each of them, in this order.
    pub fn window(&self) -> (r: (usize, usize))
        ensures
            r.0 == self@.next_index(),
            r.1 == self@.gap_limit,
            self@.can_scan(),
    {
        proof {
            use_type_invariant(self);
        }
        (self.next_index, self.gap_limit)
    }

    /// Takes the answers of the ledger for the next round.
    pub fn absorb(self, batch: Batch) -> (r: Result<DiscoveryStep, WalletError>)
        ensures
            match spec_absorb(self@, batch@) {
                Ok(StepView::Continue(next)) => r matches Ok(DiscoveryStep::Continue(scan))
                    && scan@ == next,
                Ok(StepView::Done(last)) => r matches Ok(DiscoveryStep::Done(found)) && found@
                    == last,
                Err(e) => r matches Err(f) && f == e,
            },
    {
        proof {
            use_type_invariant(&self);
            lemma_absorb_wf(self@, batch@);
        }
        let ghost pre = self@;
        let ghost told = batch@;
        let AddressDiscovery { start_index, gap_limit, rounds, next_index, addresses, messages } =
            self;
        let Batch { addresses: batch_addresses, messages: batch_messages, outputs } = batch;
        let n = batch_addresses.len();
        if n % 2 != 0 || n / 2 != gap_limit {
            return Err(WalletError::UnexpectedBatch);
        }
        let ghost fresh = built(batch_addresses@, outputs@, next_index as int);
        let mut addresses = addresses;
        let mut all_zero = true;
        let mut k: usize = 0;
        while k < n
            invariant
                k <= n,
                n == batch_addresses.len(),
                n == 2 * gap_limit,
                next_index + gap_limit <= usize::MAX,
                told == batch@,
                pre == self@,
                pre.gap_limit == gap_limit,
                told.addresses == batch_addresses@,
                told.outputs == outputs@,
                fresh == built(batch_addresses@, outputs@, next_index as int),
                addresses@ == pre.addresses + fresh.take(k as int),
                forall|j: int|
                    0 <= j < k ==> balance_of(outputs@, #[trigger] batch_addresses[j]) <= u64::MAX,
                all_zero <==> forall|j: int|
                    0 <= j < k ==> balance_of(outputs@, #[trigger] batch_addresses[j]) == 0,
            decreases n - k,
        {
            let address = batch_addresses[k];
            let balance = match sum_outputs(&outputs, &address) {
                Some(balance) => balance,
                None => {
                    assert(overflows(told));
                    return Err(WalletError::AmountOverflow);
                },
            };
            if balance != 0 {
                all_zero = false;
            }
            let record = Address::new(address, balance, next_index + k / 2, k % 2 == 1);
            addresses.push(record);
            proof {
                assert(fresh[k as int] == record);
                assert(fresh.take(k + 1) =~= fresh.take(k as int).push(record));
                assert(addresses@ =~= pre.addresses + fresh.take(k + 1));
            }
            k += 1;
        }
        proof {
            assert(fresh.take(n as int) =~= fresh);
            assert(!overflows(told));
        }
        let is_quiet = batch_messages.len() == 0 && all_zero;
        let mut messages = messages;
        let mut batch_messages = batch_messages;
        messages.append(&mut batch_messages);
        proof {
            assert(messages@ =~= pre.messages + told.messages);
            assert(is_quiet == quiet(told));
        }
        let rounds = rounds + 1;
        let next_index = next_index + gap_limit;
        if is_quiet {
            Ok(
                DiscoveryStep::Done(
                    Discovered { start_index, gap_limit, rounds, next_index, addresses, messages },
                ),
            )
        } else if rounds >= MAX_ROUNDS || next_index > usize::MAX - gap_limit {
            Err(WalletError::AddressSpaceExhausted)
        } else {
            Ok(
                DiscoveryStep::Continue(
                    AddressDiscovery {
                        start_index,
                        gap_limit,
                        rounds,
                        next_index,
                        addresses,
                        messages,
                    },
                ),
            )
        }
    }
}

} // verus!
