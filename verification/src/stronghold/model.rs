//! The actor against a secure store that keeps its word.
//!
//! The secure store is no part of this library. What is proved here holds
//! of a store that behaves as [`Store::respond`] says: it keeps at most one
//! record under each identifier of a vault, hands out what was written
//! last, and reports a failure for a record that is not there.

use crate::account::AccountIdentifier;
use crate::stronghold::actor::{
    answer, bootstrapping, has_hint, hinted_ids, spec_receive, spec_result, tag_seed_vault,
    VaultView,
};
use crate::stronghold::types::{
    lemma_hints_differ, spec_account_hint, spec_seed_hint, RecordHint, RecordId, VaultId,
};
use crate::stronghold::{
    record_id_of, ActionView, ErrorView, Request, StrongholdResponseView, StrongholdResultView,
    VaultCommandView,
};
use vstd::prelude::*;

verus! {

/// A record of a vault: its identifier, its hint and its data.
pub type Record = (RecordId, RecordHint, Seq<u8>);

/// A secure store: its vaults, each with its records in the order in which
/// they are listed.
pub struct Store {
    /// The vaults in the order in which a snapshot hands them out.
    pub order: Seq<VaultId>,
    /// The records of each vault.
    pub vaults: Map<VaultId, Seq<Record>>,
}

/// The position of the record `id` among the records, or -1 if it is not
/// there.
pub open spec fn position(records: Seq<Record>, id: RecordId) -> int
    decreases records.len(),
{
    if records.len() == 0 {
        -1
    } else if records.last().0 == id {
        records.len() - 1
    } else {
        position(records.drop_last(), id)
    }
}

/// The records after `record` was written: it takes the place of the record
/// with its identifier, or comes last where there is none.
pub open spec fn written(records: Seq<Record>, record: Record) -> Seq<Record> {
    let at = position(records, record.0);
    if at < 0 {
        records.push(record)
    } else {
        records.update(at, record)
    }
}

/// The records after the record `id` was deleted, if it was there.
pub open spec fn revoked(records: Seq<Record>, id: RecordId) -> Seq<Record> {
    let at = position(records, id);
    if at < 0 {
        records
    } else {
        records.remove(at)
    }
}

/// Whether no two of the records share an identifier.
pub open spec fn unique(records: Seq<Record>) -> bool {
    forall|i: int, j: int|
        0 <= i < j < records.len() ==> (#[trigger] records[i]).0 != (#[trigger] records[j]).0
}

/// What is listed of the records: their identifiers and hints.
pub open spec fn listed(records: Seq<Record>) -> Seq<(RecordId, RecordHint)> {
    records.map_values(|record: Record| (record.0, record.1))
}

impl Store {
    /// The store after a command, and the result that it sends back. A
    /// command on a vault that is not there changes nothing and is answered
    /// by a failure, or not at all where no answer is awaited.
    pub open spec fn respond(self, command: VaultCommandView) -> (
        Store,
        Option<StrongholdResultView>,
    ) {
        match command {
            VaultCommandView::ListIds(vault) => if self.vaults.contains_key(vault) {
                (self, Some(StrongholdResultView::ListIds(listed(self.vaults[vault]))))
            } else {
                (self, Some(StrongholdResultView::Error("no such vault"@)))
            },
            VaultCommandView::ReadData(vault, id) => if self.vaults.contains_key(vault) && position(
                self.vaults[vault],
                id,
            ) >= 0 {
                (
                    self,
                    Some(
                        StrongholdResultView::ReadRecord(
                            self.vaults[vault][position(self.vaults[vault], id)].2,
                        ),
                    ),
                )
            } else {
                (self, Some(StrongholdResultView::Error("no such record"@)))
            },
            VaultCommandView::WriteData(vault, id, data, hint) => if self.vaults.contains_key(
                vault,
            ) {
                (
                    Store {
                        order: self.order,
                        vaults: self.vaults.insert(
                            vault,
                            written(self.vaults[vault], (id, hint, data)),
                        ),
                    },
                    None,
                )
            } else {
                (self, None)
            },
            VaultCommandView::RevokeData(vault, id) => if self.vaults.contains_key(vault) {
                (
                    Store {
                        order: self.order,
                        vaults: self.vaults.insert(vault, revoked(self.vaults[vault], id)),
                    },
                    None,
                )
            } else {
                (self, None)
            },
            VaultCommandView::CreateNewVault => {
                let vault = choose|vault: VaultId| !self.vaults.contains_key(vault);
                (
                    Store {
                        order: self.order.push(vault),
                        vaults: self.vaults.insert(vault, Seq::empty()),
                    },
                    Some(StrongholdResultView::CreatedVault(vault)),
                )
            },
            VaultCommandView::ReadSnapshot(_, _) => (
                self,
                Some(StrongholdResultView::ReadSnapshot(self.order)),
            ),
        }
    }
}

/// Where `position` points.
pub proof fn lemma_position(records: Seq<Record>, id: RecordId)
    ensures
        -1 <= position(records, id) < records.len(),
        position(records, id) >= 0 ==> records[position(records, id)].0 == id,
        position(records, id) < 0 ==> forall|j: int|
            0 <= j < records.len() ==> (#[trigger] records[j]).0 != id,
    decreases records.len(),
{
    if records.len() > 0 && records.last().0 != id {
        let front = records.drop_last();
        lemma_position(front, id);
        if position(records, id) < 0 {
            assert forall|j: int| 0 <= j < records.len() implies (#[trigger] records[j]).0
                != id by {
                if j < front.len() {
                    assert(front[j] == records[j]);
                }
            }
        }
    }
}

/// The record that was written is the one that is read: among records with
/// distinct identifiers a record is found where it was put.
pub proof fn lemma_written_is_found(records: Seq<Record>, record: Record)
    requires
        unique(records),
    ensures
        unique(written(records, record)),
        position(written(records, record), record.0) >= 0,
        written(records, record)[position(written(records, record), record.0)] == record,
{
    let after = written(records, record);
    let at = position(records, record.0);
    lemma_position(records, record.0);
    lemma_position(after, record.0);
    if at < 0 {
        assert(after[records.len() as int] == record);
        assert forall|i: int, j: int| 0 <= i < j < after.len() implies (#[trigger] after[i]).0 != (
        #[trigger] after[j]).0 by {
            if j < records.len() {
                assert(after[i] == records[i] && after[j] == records[j]);
            } else {
                assert(after[i] == records[i]);
            }
        }
    } else {
        assert(after[at] == record);
        assert forall|i: int, j: int| 0 <= i < j < after.len() implies (#[trigger] after[i]).0 != (
        #[trigger] after[j]).0 by {
            assert(after[i].0 == records[i].0 && after[j].0 == records[j].0);
        }
    }
    let found = position(after, record.0);
    if after[found] != record {
        let put = if at < 0 {
            records.len() as int
        } else {
            at
        };
        assert(after[put].0 == after[found].0);
        if put < found {
            assert(after[put].0 != after[found].0);
        } else if found < put {
            assert(after[found].0 != after[put].0);
        }
    }
}

/// A secret that was stored is read back, whatever was stored for the
/// account before: when a ready actor is asked to store a secret for an
/// account and then to read the secret of that account, the store is told to
/// write once, is asked to read once, and the caller gets the bytes of the
/// text.
pub proof fn lemma_stored_account_is_read_back(
    actor: VaultView,
    store: Store,
    id: [u8; 32],
    secret: String,
)
    requires
        actor.settled().accounts_vault is Some,
        store.vaults.contains_key(actor.settled().accounts_vault->Some_0),
        unique(store.vaults[actor.settled().accounts_vault->Some_0]),
    ensures
        ({
            let account = AccountIdentifier::Id(id);
            let bytes = vstd::utf8::encode_utf8(secret@);
            let (stored, first) = spec_receive(actor, Request::StoreAccount(account, secret));
            &&& first matches ActionView::Done(Some(write), Ok(StrongholdResponseView::StoredAccount))
            &&& store.respond(first->Done_0->Some_0).1 is None
            &&& ({
                let kept = store.respond(first->Done_0->Some_0).0;
                let (reading, second) = spec_receive(stored, Request::GetAccount(account));
                &&& second matches ActionView::Ask(read)
                &&& kept.respond(second->Ask_0) == (
                    kept,
                    Some(StrongholdResultView::ReadRecord(bytes)),
                )
                &&& spec_result(reading, StrongholdResultView::ReadRecord(bytes)) == (
                    stored,
                    answer(Ok(StrongholdResponseView::Account(bytes))),
                )
            })
        }),
{
    let vault = actor.settled().accounts_vault->Some_0;
    let record = (record_id_of(id), spec_account_hint(), vstd::utf8::encode_utf8(secret@));
    lemma_written_is_found(store.vaults[vault], record);
}

/// An account that was never stored is not found: when a ready actor is
/// asked for the secret of an account whose record is not in the accounts
/// vault, the store reports a failure and the caller gets
/// `AccountNotFound`. The actor stays ready.
pub proof fn lemma_unknown_account_is_not_found(actor: VaultView, store: Store, id: [u8; 32])
    requires
        actor.settled().accounts_vault is Some,
        store.vaults.contains_key(actor.settled().accounts_vault->Some_0),
        position(store.vaults[actor.settled().accounts_vault->Some_0], record_id_of(id)) < 0,
    ensures
        ({
            let (reading, asked) = spec_receive(actor, Request::GetAccount(AccountIdentifier::Id(id)));
            &&& asked is Ask
            &&& store.respond(asked->Ask_0).0 == store
            &&& store.respond(asked->Ask_0).1 matches Some(reply)
            &&& spec_result(reading, store.respond(asked->Ask_0).1->Some_0) == (
                actor.settled(),
                answer(Err(ErrorView::AccountNotFound)),
            )
        }),
{
}

/// Deleting is idempotent: when a ready actor is asked to remove an account
/// whose record is not in the accounts vault, the caller gets
/// `RemovedAccount` and the store stays as it is; and after any removal the
/// record is gone, so that a second removal changes nothing more.
pub proof fn lemma_remove_is_idempotent(actor: VaultView, store: Store, id: [u8; 32])
    requires
        actor.settled().accounts_vault is Some,
        store.vaults.contains_key(actor.settled().accounts_vault->Some_0),
        unique(store.vaults[actor.settled().accounts_vault->Some_0]),
    ensures
        ({
            let msg = Request::RemoveAccount(AccountIdentifier::Id(id));
            let vault = actor.settled().accounts_vault->Some_0;
            let (after, action) = spec_receive(actor, msg);
            &&& action matches ActionView::Done(Some(revoke), Ok(StrongholdResponseView::RemovedAccount))
            &&& after == actor.settled()
            &&& ({
                let once = store.respond(action->Done_0->Some_0).0;
                &&& position(store.vaults[vault], record_id_of(id)) < 0 ==> once == store
                &&& position(once.vaults[vault], record_id_of(id)) < 0
                &&& spec_receive(after, msg) == (after, action)
                &&& once.respond(action->Done_0->Some_0).0 == once
            })
        }),
{
    let vault = actor.settled().accounts_vault->Some_0;
    let records = store.vaults[vault];
    let rid = record_id_of(id);
    lemma_position(records, rid);
    let left = revoked(records, rid);
    lemma_position(left, rid);
    if position(left, rid) >= 0 {
        let at = position(records, rid);
        let found = position(left, rid);
        if at >= 0 {
            if found < at {
                assert(left[found] == records[found]);
                assert(records[found].0 != records[at].0);
            } else {
                assert(left[found] == records[found + 1]);
                assert(records[at].0 != records[found + 1].0);
            }
        }
    }
    let once = store.respond(VaultCommandView::RevokeData(vault, rid)).0;
    assert(once.vaults[vault] == left);
    if position(records, rid) < 0 {
        assert(once.vaults =~= store.vaults);
    }
    let twice = once.respond(VaultCommandView::RevokeData(vault, rid)).0;
    assert(twice.vaults =~= once.vaults);
    assert(twice == once);
    if position(records, rid) < 0 {
        assert(once == store);
    }
    assert(once.order == store.order);
}

/// A fresh snapshot holds no accounts: when an actor is asked to create a
/// snapshot and the store creates a vault for it, the caller gets
/// `CreatedSnapshot`, the actor is ready, and the next request for all
/// accounts is answered by the empty collection after one listing.
pub proof fn lemma_fresh_snapshot_is_empty(
    actor: VaultView,
    store: Store,
    path: String,
    password: String,
)
    requires
        exists|vault: VaultId| !store.vaults.contains_key(vault),
    ensures
        ({
            let (creating, asked) = spec_receive(actor, Request::CreateSnapshot(path, password));
            &&& asked == ActionView::Ask(VaultCommandView::CreateNewVault)
            &&& store.respond(VaultCommandView::CreateNewVault).1 matches Some(created)
            &&& ({
                let (fresh, reply) = store.respond(VaultCommandView::CreateNewVault);
                let (ready, done) = spec_result(creating, reply->Some_0);
                &&& done == answer(Ok(StrongholdResponseView::CreatedSnapshot))
                &&& !bootstrapping(ready.pending)
                &&& ready.seed_vault is Some
                &&& ready.accounts_vault == ready.seed_vault
                &&& ({
                    let (listing, list) = spec_receive(ready, Request::GetAccounts);
                    &&& list matches ActionView::Ask(command)
                    &&& fresh.respond(list->Ask_0).1 matches Some(records)
                    &&& spec_result(listing, fresh.respond(list->Ask_0).1->Some_0) == (
                        ready,
                        answer(Ok(StrongholdResponseView::Accounts(Seq::empty()))),
                    )
                })
            })
        }),
{
    let vault = choose|vault: VaultId| !store.vaults.contains_key(vault);
    let fresh = store.respond(VaultCommandView::CreateNewVault).0;
    assert(fresh.vaults[vault] =~= Seq::<Record>::empty());
    assert(listed(Seq::<Record>::empty()) =~= Seq::<(RecordId, RecordHint)>::empty());
    assert(hinted_ids(Seq::<(RecordId, RecordHint)>::empty(), spec_account_hint()) =~= Seq::<
        RecordId,
    >::empty());
}

/// A snapshot without vaults is loaded into a ready actor that holds no
/// accounts: the store is asked for the vaults of the snapshot and for a new
/// vault, the new vault is tagged as the seed vault and holds the accounts
/// too, and the next request for all accounts is answered by the empty
/// collection.
pub proof fn lemma_empty_snapshot_is_loaded(
    actor: VaultView,
    store: Store,
    path: String,
    password: String,
)
    requires
        store.order.len() == 0,
        exists|vault: VaultId| !store.vaults.contains_key(vault),
    ensures
        ({
            let (reading, first) = spec_receive(actor, Request::LoadSnapshot(path, password));
            let (creating, second) = spec_result(reading, store.respond(first->Ask_0).1->Some_0);
            let (fresh, created) = store.respond(second->Ask_0);
            let (ready, done) = spec_result(creating, created->Some_0);
            let tagged = fresh.respond(done->Done_0->Some_0).0;
            let (listing, list) = spec_receive(ready, Request::GetAccounts);
            &&& first == ActionView::Ask(VaultCommandView::ReadSnapshot(password@, path@))
            &&& second == ActionView::Ask(VaultCommandView::CreateNewVault)
            &&& created matches Some(StrongholdResultView::CreatedVault(vault))
            &&& done == ActionView::Done(
                Some(tag_seed_vault(created->Some_0->CreatedVault_0)),
                Ok(StrongholdResponseView::LoadedSnapshot),
            )
            &&& !bootstrapping(ready.pending)
            &&& ready.seed_vault == Some(created->Some_0->CreatedVault_0)
            &&& ready.accounts_vault == ready.seed_vault
            &&& has_hint(listed(tagged.vaults[created->Some_0->CreatedVault_0]), spec_seed_hint())
            &&& list matches ActionView::Ask(command)
            &&& spec_result(listing, tagged.respond(list->Ask_0).1->Some_0) == (
                ready,
                answer(Ok(StrongholdResponseView::Accounts(Seq::empty()))),
            )
        }),
{
    lemma_hints_differ();
    let vault = choose|vault: VaultId| !store.vaults.contains_key(vault);
    let fresh = store.respond(VaultCommandView::CreateNewVault).0;
    assert(fresh.vaults[vault] =~= Seq::<Record>::empty());
    let tagged = fresh.respond(tag_seed_vault(vault)).0;
    let marker: Record = (
        RecordId { bytes: spec_seed_hint().bytes },
        spec_seed_hint(),
        Seq::<u8>::empty(),
    );
    assert(position(Seq::<Record>::empty(), marker.0) < 0);
    assert(tagged.vaults[vault] =~= seq![marker]);
    let records = listed(tagged.vaults[vault]);
    assert(records =~= seq![(marker.0, marker.1)]);
    assert(records[0].1 == spec_seed_hint());
    assert(records.drop_last() =~= Seq::<(RecordId, RecordHint)>::empty());
    assert(hinted_ids(records.drop_last(), spec_account_hint()) =~= Seq::<RecordId>::empty());
    assert(hinted_ids(records, spec_account_hint()) =~= Seq::<RecordId>::empty());
}

} // verus!
