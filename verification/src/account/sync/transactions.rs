//! Reconciling the messages of an account with what the ledger says.

use crate::account::{contains_id, distinct_ids, find_message, Account};
use crate::message::{IotaMessage, Message, MessageId};
use vstd::prelude::*;

verus! {

broadcast use {Message::lemma_spec_new, Message::lemma_parts};

/// Whether the ledger reports the message `id` as confirmed.
pub open spec fn reported(states: Seq<(MessageId, bool)>, id: MessageId) -> bool {
    exists|i: int| 0 <= i < states.len() && #[trigger] states[i] == (id, true)
}

/// A message of the account after the ledger was consulted: it is
/// broadcasted if it was, or if it was just discovered on the ledger, and
/// confirmed if it was, or if the ledger reports it so.
pub open spec fn reconciled(
    message: Message,
    ids: Seq<MessageId>,
    states: Seq<(MessageId, bool)>,
) -> Message {
    Message::spec_new(
        message.spec_message_id(),
        message.spec_payload(),
        message.spec_broadcasted() || ids.contains(message.spec_message_id()),
        message.spec_confirmed() || reported(states, message.spec_message_id()),
    )
}

/// The record of a message that was first seen on the ledger.
pub open spec fn observed(found: IotaMessage, states: Seq<(MessageId, bool)>) -> Message {
    Message::spec_new(found.id, found.payload, true, reported(states, found.id))
}

/// The messages of the account after the ledger was consulted.
pub open spec fn reconcile_all(
    local: Seq<Message>,
    ids: Seq<MessageId>,
    states: Seq<(MessageId, bool)>,
) -> Seq<Message> {
    local.map_values(|message: Message| reconciled(message, ids, states))
}

/// The messages with those of the ledger behind them that were discovered
/// and are not there yet, each of them once.
pub open spec fn append_found(
    messages: Seq<Message>,
    found: Seq<IotaMessage>,
    ids: Seq<MessageId>,
    states: Seq<(MessageId, bool)>,
) -> Seq<Message>
    decreases found.len(),
{
    if found.len() == 0 {
        messages
    } else {
        let front = append_found(messages, found.drop_last(), ids, states);
        let last = found.last();
        if ids.contains(last.id) && !contains_id(front, last.id) {
            front.push(observed(last, states))
        } else {
            front
        }
    }
}

/// The messages of an account after a sync.
///
/// `ids` are the identifiers that were just discovered on the ledger,
/// `states` is what the ledger reports of confirmations, and `found` are the
/// messages that the ledger handed out for the discovered identifiers.
pub open spec fn spec_sync(
    local: Seq<Message>,
    ids: Seq<MessageId>,
    states: Seq<(MessageId, bool)>,
    found: Seq<IotaMessage>,
) -> Seq<Message> {
    append_found(reconcile_all(local, ids, states), found, ids, states)
}

/// Whether every message is what a sync would make of it.
pub open spec fn settled(
    messages: Seq<Message>,
    ids: Seq<MessageId>,
    states: Seq<(MessageId, bool)>,
) -> bool {
    forall|i: int|
        0 <= i < messages.len() ==> reconciled(#[trigger] messages[i], ids, states) == messages[i]
}

/// Appending keeps what was there, in its place.
pub proof fn lemma_append_found_prefix(
    messages: Seq<Message>,
    found: Seq<IotaMessage>,
    ids: Seq<MessageId>,
    states: Seq<(MessageId, bool)>,
)
    ensures
        append_found(messages, found, ids, states).len() >= messages.len(),
        append_found(messages, found, ids, states).take(messages.len() as int) == messages,
        forall|id: MessageId|
            contains_id(messages, id) ==> contains_id(
                append_found(messages, found, ids, states),
                id,
            ),
    decreases found.len(),
{
    let after = append_found(messages, found, ids, states);
    if found.len() == 0 {
        assert(after.take(messages.len() as int) =~= messages);
    } else {
        let front = append_found(messages, found.drop_last(), ids, states);
        lemma_append_found_prefix(messages, found.drop_last(), ids, states);
        assert(after.take(messages.len() as int) =~= front.take(messages.len() as int));
        assert forall|id: MessageId| contains_id(messages, id) implies contains_id(after, id) by {
            let i = choose|i: int|
                0 <= i < front.len() && (#[trigger] front[i]).spec_message_id() == id;
            assert(after[i] == front[i]);
        }
    }
}

/// What is appended has distinct identifiers, all of them new.
pub proof fn lemma_append_found_distinct(
    messages: Seq<Message>,
    found: Seq<IotaMessage>,
    ids: Seq<MessageId>,
    states: Seq<(MessageId, bool)>,
)
    requires
        distinct_ids(messages),
    ensures
        distinct_ids(append_found(messages, found, ids, states)),
    decreases found.len(),
{
    if found.len() > 0 {
        let front = append_found(messages, found.drop_last(), ids, states);
        lemma_append_found_distinct(messages, found.drop_last(), ids, states);
        let after = append_found(messages, found, ids, states);
        assert forall|i: int, j: int| 0 <= i < j < after.len() implies (
        #[trigger] after[i]).spec_message_id() != (#[trigger] after[j]).spec_message_id() by {
            if j < front.len() {
                assert(after[i] == front[i] && after[j] == front[j]);
            } else {
                assert(after[i] == front[i]);
            }
        }
    }
}

/// What is appended is settled, if what was there is.
pub proof fn lemma_append_found_settled(
    messages: Seq<Message>,
    found: Seq<IotaMessage>,
    ids: Seq<MessageId>,
    states: Seq<(MessageId, bool)>,
)
    requires
        settled(messages, ids, states),
    ensures
        settled(append_found(messages, found, ids, states), ids, states),
    decreases found.len(),
{
    if found.len() > 0 {
        let front = append_found(messages, found.drop_last(), ids, states);
        lemma_append_found_settled(messages, found.drop_last(), ids, states);
        let after = append_found(messages, found, ids, states);
        assert forall|i: int| 0 <= i < after.len() implies reconciled(
            #[trigger] after[i],
            ids,
            states,
        ) == after[i] by {
            if i < front.len() {
                assert(after[i] == front[i]);
            }
        }
    }
}

/// After appending, every discovered message of the ledger is there.
pub proof fn lemma_append_found_complete(
    messages: Seq<Message>,
    found: Seq<IotaMessage>,
    ids: Seq<MessageId>,
    states: Seq<(MessageId, bool)>,
    k: int,
)
    requires
        0 <= k < found.len(),
        ids.contains(found[k].id),
    ensures
        contains_id(append_found(messages, found, ids, states), found[k].id),
    decreases found.len(),
{
    let front = append_found(messages, found.drop_last(), ids, states);
    let after = append_found(messages, found, ids, states);
    if k == found.len() - 1 {
        if contains_id(front, found[k].id) {
        } else {
            assert(after[front.len() as int].spec_message_id() == found[k].id);
        }
    } else {
        lemma_append_found_complete(messages, found.drop_last(), ids, states, k);
        let i = choose|i: int|
            0 <= i < front.len() && (#[trigger] front[i]).spec_message_id() == found[k].id;
        assert(after[i] == front[i]);
    }
}

/// Nothing is appended to messages that hold every discovered message
/// already.
pub proof fn lemma_append_found_nothing(
    messages: Seq<Message>,
    found: Seq<IotaMessage>,
    ids: Seq<MessageId>,
    states: Seq<(MessageId, bool)>,
)
    requires
        forall|k: int|
            0 <= k < found.len() && ids.contains(#[trigger] found[k].id) ==> contains_id(
                messages,
                found[k].id,
            ),
    ensures
        append_found(messages, found, ids, states) == messages,
    decreases found.len(),
{
    if found.len() > 0 {
        let front = found.drop_last();
        assert forall|k: int|
            0 <= k < front.len() && ids.contains(#[trigger] front[k].id) implies contains_id(
            messages,
            front[k].id,
        ) by {
            assert(front[k] == found[k]);
        }
        lemma_append_found_nothing(messages, front, ids, states);
        assert(found.last() == found[found.len() - 1]);
    }
}

/// A sync is idempotent: a second sync against the same state of the
/// ledger changes nothing.
pub proof fn lemma_sync_idempotent(
    local: Seq<Message>,
    ids: Seq<MessageId>,
    states: Seq<(MessageId, bool)>,
    found: Seq<IotaMessage>,
)
    ensures
        spec_sync(spec_sync(local, ids, states, found), ids, states, found) == spec_sync(
            local,
            ids,
            states,
            found,
        ),
{
    let base = reconcile_all(local, ids, states);
    let once = spec_sync(local, ids, states, found);
    assert(settled(base, ids, states));
    lemma_append_found_settled(base, found, ids, states);
    assert(reconcile_all(once, ids, states) =~= once);
    assert forall|k: int|
        0 <= k < found.len() && ids.contains(#[trigger] found[k].id) implies contains_id(
        once,
        found[k].id,
    ) by {
        lemma_append_found_complete(base, found, ids, states, k);
    }
    lemma_append_found_nothing(once, found, ids, states);
}

/// A sync keeps every message in its place and under its identifier, and
/// never takes back that a message is broadcasted or confirmed.
pub proof fn lemma_sync_monotonic(
    local: Seq<Message>,
    ids: Seq<MessageId>,
    states: Seq<(MessageId, bool)>,
    found: Seq<IotaMessage>,
    i: int,
)
    requires
        0 <= i < local.len(),
    ensures
        i < spec_sync(local, ids, states, found).len(),
        spec_sync(local, ids, states, found)[i].spec_message_id() == local[i].spec_message_id(),
        spec_sync(local, ids, states, found)[i].spec_payload() == local[i].spec_payload(),
        local[i].spec_broadcasted() ==> spec_sync(local, ids, states, found)[i].spec_broadcasted(),
        local[i].spec_confirmed() ==> spec_sync(local, ids, states, found)[i].spec_confirmed(),
{
    let base = reconcile_all(local, ids, states);
    lemma_append_found_prefix(base, found, ids, states);
    let after = spec_sync(local, ids, states, found);
    assert(after.take(base.len() as int)[i] == after[i]);
}

/// A sync keeps the identifiers of the messages distinct.
pub proof fn lemma_sync_distinct(
    local: Seq<Message>,
    ids: Seq<MessageId>,
    states: Seq<(MessageId, bool)>,
    found: Seq<IotaMessage>,
)
    requires
        distinct_ids(local),
    ensures
        distinct_ids(spec_sync(local, ids, states, found)),
{
    let base = reconcile_all(local, ids, states);
    assert(distinct_ids(base));
    lemma_append_found_distinct(base, found, ids, states);
}

/// Tells whether `id` is among the identifiers.
pub fn ids_contain(ids: &Vec<MessageId>, id: &MessageId) -> (r: bool)
    ensures
        r == ids@.contains(*id),
{
    let mut i: usize = 0;
    while i < ids.len()
        invariant
            i <= ids.len(),
            forall|j: int| 0 <= j < i ==> ids[j] != *id,
        decreases ids.len() - i,
    {
        if ids[i] == *id {
            return true;
        }
        i += 1;
    }
    false
}

/// Tells whether the ledger reports the message `id` as confirmed.
pub fn is_reported(states: &Vec<(MessageId, bool)>, id: &MessageId) -> (r: bool)
    ensures
        r == reported(states@, *id),
{
    let mut i: usize = 0;
    while i < states.len()
        invariant
            i <= states.len(),
            forall|j: int| 0 <= j < i ==> #[trigger] states[j] != (*id, true),
        decreases states.len() - i,
    {
        if states[i].1 && states[i].0 == *id {
            return true;
        }
        i += 1;
    }
    false
}

/// Syncs the messages of an account with the ledger.
///
/// Every local message whose identifier was just discovered counts as
/// broadcasted; every local message that the ledger reports as confirmed
/// counts as confirmed; and every discovered message of the ledger that the
/// account does not hold yet is put behind the local ones, once.
pub fn sync_transactions(
    account: &Account,
    new_message_ids: &Vec<MessageId>,
    confirmed_states: &Vec<(MessageId, bool)>,
    found_messages: &Vec<IotaMessage>,
) -> (messages: Vec<Message>)
    ensures
        messages@ == spec_sync(
            account.spec_messages(),
            new_message_ids@,
            confirmed_states@,
            found_messages@,
        ),
        distinct_ids(messages@),
{
    let local = account.messages();
    let mut messages: Vec<Message> = Vec::new();
    let mut i: usize = 0;
    while i < local.len()
        invariant
            i <= local.len(),
            messages.len() == i,
            forall|j: int|
                0 <= j < i ==> messages[j] == reconciled(
                    #[trigger] local[j],
                    new_message_ids@,
                    confirmed_states@,
                ),
        decreases local.len() - i,
    {
        let mut message = local[i];
        let ghost before = message;
        let discovered = ids_contain(new_message_ids, message.message_id());
        message.set_broadcasted(discovered);
        let confirmed = is_reported(confirmed_states, message.message_id());
        message.set_confirmed(confirmed);
        messages.push(message);
        i += 1;
    }
    assert(messages@ =~= reconcile_all(local@, new_message_ids@, confirmed_states@));
    let ghost base = messages@;
    let mut k: usize = 0;
    while k < found_messages.len()
        invariant
            k <= found_messages.len(),
            messages@ == append_found(
                base,
                found_messages@.take(k as int),
                new_message_ids@,
                confirmed_states@,
            ),
        decreases found_messages.len() - k,
    {
        proof {
            assert(found_messages@.take(k + 1).drop_last() =~= found_messages@.take(k as int));
        }
        let found = &found_messages[k];
        if ids_contain(new_message_ids, &found.id) && find_message(&messages, &found.id).is_none() {
            let mut message = Message::from_iota_message(found);
            message.set_confirmed(is_reported(confirmed_states, &found.id));
            messages.push(message);
        }
        k += 1;
    }
    proof {
        assert(found_messages@.take(found_messages.len() as int) =~= found_messages@);
        lemma_sync_distinct(
            account.spec_messages(),
            new_message_ids@,
            confirmed_states@,
            found_messages@,
        );
    }
    messages
}

} // verus!
