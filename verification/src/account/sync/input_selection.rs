//! Which addresses pay for a transfer.
//!
//! The policy is largest first: the address with the largest balance is
//! taken, then the largest of the rest, until the balances taken cover the
//! threshold. Of two addresses with the same balance the earlier one is
//! taken first.

use crate::address::Address;
use crate::error::WalletError;
use vstd::prelude::*;

verus! {

/// The sum of the balances of the addresses.
pub open spec fn total_balance(addresses: Seq<Address>) -> int
    decreases addresses.len(),
{
    if addresses.len() == 0 {
        0
    } else {
        total_balance(addresses.drop_last()) + addresses.last().spec_balance()
    }
}

/// The position of the first address with the largest balance.
pub open spec fn largest(addresses: Seq<Address>) -> int
    decreases addresses.len(),
{
    if addresses.len() <= 1 {
        0
    } else {
        let i = largest(addresses.drop_last());
        if addresses.last().spec_balance() > addresses[i].spec_balance() {
            addresses.len() - 1
        } else {
            i
        }
    }
}

/// What is left of a threshold once a balance is set against it.
pub open spec fn shortfall(threshold: int, balance: int) -> int {
    if balance >= threshold {
        0
    } else {
        threshold - balance
    }
}

/// The addresses that are selected for `threshold`, in the order in which
/// they are taken.
pub open spec fn spec_select(threshold: int, available: Seq<Address>) -> Seq<Address>
    decreases available.len(),
{
    if threshold <= 0 || available.len() == 0 {
        Seq::empty()
    } else {
        proof {
            lemma_largest(available);
        }
        let i = largest(available);
        seq![available[i]] + spec_select(
            shortfall(threshold, available[i].spec_balance() as int),
            available.remove(i),
        )
    }
}

/// The addresses that are not selected for `threshold`, in their order.
pub open spec fn spec_rest(threshold: int, available: Seq<Address>) -> Seq<Address>
    decreases available.len(),
{
    if threshold <= 0 || available.len() == 0 {
        available
    } else {
        proof {
            lemma_largest(available);
        }
        let i = largest(available);
        spec_rest(shortfall(threshold, available[i].spec_balance() as int), available.remove(i))
    }
}

/// Where `largest` points, and that no balance is larger than the one there.
pub proof fn lemma_largest(addresses: Seq<Address>)
    requires
        addresses.len() > 0,
    ensures
        0 <= largest(addresses) < addresses.len(),
        forall|j: int|
            0 <= j < addresses.len() ==> (#[trigger] addresses[j]).spec_balance()
                <= addresses[largest(addresses)].spec_balance(),
    decreases addresses.len(),
{
    if addresses.len() > 1 {
        let front = addresses.drop_last();
        lemma_largest(front);
        assert forall|j: int| 0 <= j < addresses.len() implies (#[trigger] addresses[j]).spec_balance()
            <= addresses[largest(addresses)].spec_balance() by {
            if j < front.len() {
                assert(front[j] == addresses[j]);
            }
        }
    }
}

/// The total is never negative.
pub proof fn lemma_total_nonnegative(addresses: Seq<Address>)
    ensures
        total_balance(addresses) >= 0,
    decreases addresses.len(),
{
    if addresses.len() > 0 {
        lemma_total_nonnegative(addresses.drop_last());
    }
}

/// Taking one address away lowers the total by its balance.
pub proof fn lemma_total_remove(addresses: Seq<Address>, i: int)
    requires
        0 <= i < addresses.len(),
    ensures
        total_balance(addresses.remove(i)) == total_balance(addresses)
            - addresses[i].spec_balance(),
    decreases addresses.len(),
{
    let front = addresses.drop_last();
    if i == addresses.len() - 1 {
        assert(addresses.remove(i) =~= front);
    } else {
        lemma_total_remove(front, i);
        assert(addresses.remove(i).drop_last() =~= front.remove(i));
        assert(addresses.remove(i).last() == addresses.last());
    }
}

/// Putting one address in front raises the total by its balance.
pub proof fn lemma_total_prepend(first: Address, addresses: Seq<Address>)
    ensures
        total_balance(seq![first] + addresses) == first.spec_balance() + total_balance(addresses),
    decreases addresses.len(),
{
    let all = seq![first] + addresses;
    if addresses.len() == 0 {
        assert(all.drop_last() =~= Seq::<Address>::empty());
        assert(total_balance(all.drop_last()) == 0);
    } else {
        lemma_total_prepend(first, addresses.drop_last());
        assert(all.drop_last() =~= seq![first] + addresses.drop_last());
    }
}

/// The selected addresses cover the threshold whenever the available ones
/// do.
pub proof fn lemma_select_covers(threshold: int, available: Seq<Address>)
    requires
        total_balance(available) >= threshold,
    ensures
        total_balance(spec_select(threshold, available)) >= threshold,
        spec_select(threshold, available).len() + spec_rest(threshold, available).len()
            == available.len(),
        total_balance(spec_select(threshold, available)) + total_balance(
            spec_rest(threshold, available),
        ) == total_balance(available),
    decreases available.len(),
{
    lemma_total_nonnegative(available);
    if threshold <= 0 || available.len() == 0 {
        assert(total_balance(Seq::<Address>::empty()) == 0);
    } else {
        lemma_largest(available);
        let i = largest(available);
        let next = shortfall(threshold, available[i].spec_balance() as int);
        let rest = available.remove(i);
        lemma_total_remove(available, i);
        lemma_total_nonnegative(rest);
        lemma_select_covers(next, rest);
        lemma_total_prepend(available[i], spec_select(next, rest));
    }
}

/// Every selected address is one of the available ones.
pub proof fn lemma_select_from_available(threshold: int, available: Seq<Address>, j: int)
    requires
        0 <= j < spec_select(threshold, available).len(),
    ensures
        available.contains(spec_select(threshold, available)[j]),
    decreases available.len(),
{
    if threshold <= 0 || available.len() == 0 {
    } else {
        lemma_largest(available);
        let i = largest(available);
        let next = shortfall(threshold, available[i].spec_balance() as int);
        let rest = available.remove(i);
        if j == 0 {
            assert(available[i] == spec_select(threshold, available)[0]);
        } else {
            lemma_select_from_available(next, rest, j - 1);
            let picked = spec_select(next, rest)[j - 1];
            assert(spec_select(threshold, available)[j] == picked);
            let k = choose|k: int| 0 <= k < rest.len() && rest[k] == picked;
            if k < i {
                assert(available[k] == picked);
            } else {
                assert(available[k + 1] == picked);
            }
        }
    }
}

/// No more is selected than needed: without the address that was taken
/// last, the selected addresses do not cover the threshold.
pub proof fn lemma_select_minimal(threshold: int, available: Seq<Address>)
    requires
        spec_select(threshold, available).len() > 0,
    ensures
        total_balance(spec_select(threshold, available).drop_last()) < threshold,
    decreases available.len(),
{
    lemma_largest(available);
    let i = largest(available);
    let next = shortfall(threshold, available[i].spec_balance() as int);
    let rest = available.remove(i);
    let tail = spec_select(next, rest);
    let selected = spec_select(threshold, available);
    if tail.len() == 0 {
        assert(selected.drop_last() =~= Seq::<Address>::empty());
    } else {
        lemma_select_minimal(next, rest);
        assert(selected.drop_last() =~= seq![available[i]] + tail.drop_last());
        lemma_total_prepend(available[i], tail.drop_last());
    }
}

/// Adds up the balances of the addresses.
pub fn sum_balances(addresses: &Vec<Address>) -> (total: u128)
    ensures
        total == total_balance(addresses@),
{
    let mut total: u128 = 0;
    let mut i: usize = 0;
    while i < addresses.len()
        invariant
            i <= addresses.len(),
            total == total_balance(addresses@.take(i as int)),
            total <= i * 0xffff_ffff_ffff_ffff,
        decreases addresses.len() - i,
    {
        proof {
            assert(addresses@.take(i + 1).drop_last() =~= addresses@.take(i as int));
        }
        total = total + *addresses[i].balance() as u128;
        i += 1;
    }
    proof {
        assert(addresses@.take(addresses.len() as int) =~= addresses@);
    }
    total
}

/// Finds the first address with the largest balance. Where there is no
/// address, the position is zero.
pub fn find_largest(addresses: &Vec<Address>) -> (r: usize)
    ensures
        r as int == largest(addresses@),
        addresses.len() > 0 ==> r < addresses.len(),
{
    if addresses.len() == 0 {
        return 0;
    }
    let mut best: usize = 0;
    let mut i: usize = 1;
    proof {
        assert(addresses@.take(1).len() == 1);
    }
    while i < addresses.len()
        invariant
            1 <= i <= addresses.len(),
            best < i,
            best as int == largest(addresses@.take(i as int)),
        decreases addresses.len() - i,
    {
        proof {
            assert(addresses@.take(i + 1).drop_last() =~= addresses@.take(i as int));
        }
        if *addresses[i].balance() > *addresses[best].balance() {
            best = i;
        }
        i += 1;
    }
    proof {
        assert(addresses@.take(addresses.len() as int) =~= addresses@);
    }
    best
}

/// Selects the addresses that pay for `threshold`, largest balance first,
/// and takes them out of `available`.
///
/// The selection fails, and leaves `available` as it is, exactly when the
/// balances of all available addresses together are less than `threshold`.
pub fn select_input(threshold: u64, available: &mut Vec<Address>) -> (r: Result<
    Vec<Address>,
    WalletError,
>)
    ensures
        r is Ok <==> total_balance(old(available)@) >= threshold,
        r matches Err(e) ==> e == WalletError::InsufficientFunds && final(available)@ == old(
            available,
        )@,
        r matches Ok(selected) ==> {
            &&& selected@ == spec_select(threshold as int, old(available)@)
            &&& final(available)@ == spec_rest(threshold as int, old(available)@)
            &&& total_balance(selected@) >= threshold
            &&& selected.len() > 0 ==> total_balance(selected@.drop_last()) < threshold
        },
{
    if sum_balances(available) < threshold as u128 {
        return Err(WalletError::InsufficientFunds);
    }
    let ghost all = available@;
    let mut selected: Vec<Address> = Vec::new();
    let mut remaining: u64 = threshold;
    while remaining > 0
        invariant
            total_balance(available@) >= remaining,
            selected@ + spec_select(remaining as int, available@) == spec_select(
                threshold as int,
                all,
            ),
            spec_rest(remaining as int, available@) == spec_rest(threshold as int, all),
        decreases available.len(),
    {
        proof {
            if available.len() == 0 {
                assert(total_balance(available@) == 0);
            }
        }
        let ghost before = available@;
        let i = find_largest(available);
        let taken = available.remove(i);
        proof {
            lemma_total_remove(before, i as int);
            lemma_total_nonnegative(available@);
            let next = shortfall(remaining as int, taken.spec_balance() as int);
            assert(selected@.push(taken) + spec_select(next, available@) =~= selected@ + (
            seq![taken] + spec_select(next, available@)));
        }
        remaining = if *taken.balance() >= remaining {
            0
        } else {
            remaining - *taken.balance()
        };
        selected.push(taken);
    }
    proof {
        assert(selected@ + Seq::<Address>::empty() =~= selected@);
        lemma_select_covers(threshold as int, all);
        if selected.len() > 0 {
            lemma_select_minimal(threshold as int, all);
        }
    }
    Ok(selected)
}

} // verus!
