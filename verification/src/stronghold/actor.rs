//! The vault actor as a state machine.

use crate::account::AccountIdentifier;
use crate::stronghold::passwords::{
    lemma_record_then_lookup, lookup, record, Entry, PasswordStore,
};
use crate::stronghold::types::{
    account_hint, seed_hint, spec_account_hint, spec_seed_hint, RecordHint, RecordId, VaultId,
};
use crate::stronghold::{
    account_id_to_record_id, record_id_of, records_view, spec_account_id_to_record_id, Action, ActionView, Error, ErrorView,
    RecvTimeoutError, Request, StrongholdResponse, StrongholdResponseView, StrongholdResult,
    StrongholdResultView, VaultCommand, VaultCommandView,
};
use vstd::prelude::*;
use vstd::string::*;

verus! {

/// Whether one of the records carries the hint.
pub open spec fn has_hint(records: Seq<(RecordId, RecordHint)>, hint: RecordHint) -> bool {
    exists|i: int| 0 <= i < records.len() && (#[trigger] records[i]).1 == hint
}

/// The records that carry the hint, in their order.
pub open spec fn hinted_ids(records: Seq<(RecordId, RecordHint)>, hint: RecordHint) -> Seq<
    RecordId,
>
    decreases records.len(),
{
    if records.len() == 0 {
        Seq::empty()
    } else {
        let front = hinted_ids(records.drop_last(), hint);
        if records.last().1 == hint {
            front.push(records.last().0)
        } else {
            front
        }
    }
}

/// Tells whether one of the records carries the hint.
pub fn any_with_hint(records: &Vec<(RecordId, RecordHint)>, hint: &RecordHint) -> (r: bool)
    ensures
        r == has_hint(records@, *hint),
{
    let mut i: usize = 0;
    while i < records.len()
        invariant
            i <= records.len(),
            forall|j: int| 0 <= j < i ==> (#[trigger] records[j]).1 != *hint,
        decreases records.len() - i,
    {
        if records[i].1 == *hint {
            return true;
        }
        i += 1;
    }
    false
}

/// Picks the records that carry the hint, in their order.
pub fn ids_with_hint(records: &Vec<(RecordId, RecordHint)>, hint: &RecordHint) -> (r: Vec<RecordId>)
    ensures
        r@ == hinted_ids(records@, *hint),
{
    let mut out: Vec<RecordId> = Vec::new();
    let mut i: usize = 0;
    while i < records.len()
        invariant
            i <= records.len(),
            out@ == hinted_ids(records@.take(i as int), *hint),
        decreases records.len() - i,
    {
        proof {
            assert(records@.take(i + 1).drop_last() =~= records@.take(i as int));
        }
        if records[i].1 == *hint {
            out.push(records[i].0);
        }
        i += 1;
    }
    proof {
        assert(records@.take(records.len() as int) =~= records@);
    }
    out
}

/// Where the actor stands in the life of its vaults.
#[derive(Clone, Copy, Debug, PartialEq, Eq, Structural)]
pub enum VaultState {
    /// No snapshot was loaded or created, or the last attempt failed.
    Uninitialized,
    /// A snapshot is being loaded or created.
    Bootstrapping,
    /// The seed vault and the accounts vault are resolved.
    Ready,
}

/// The exchange with the secure store that the actor is in the middle of.
#[derive(Debug)]
#[allow(inconsistent_fields)]
enum Pending {
    Idle,
    ReadingSnapshot,
    ListingVaults { current: VaultId, rest: Vec<VaultId> },
    CreatingSeedVault,
    CreatingSnapshot,
    ReadingAccount,
    ListingAccounts { vault: VaultId },
    ReadingAccounts { vault: VaultId, rest: Vec<RecordId>, accounts: Vec<Vec<u8>> },
}

/// What the actor waits for.
#[allow(inconsistent_fields)]
pub enum PendingView {
    /// Nothing: the actor is between two requests.
    Idle,
    /// Loading: the vaults of the snapshot.
    ReadingSnapshot,
    /// Loading: the records of the vault `current`; the vaults in `rest` are
    /// still to be listed.
    ListingVaults { current: VaultId, rest: Seq<VaultId> },
    /// Loading: the vault that was created for the seed.
    CreatingSeedVault,
    /// Creating: the vault that was created for seed and accounts.
    CreatingSnapshot,
    /// Reading one account: its record.
    ReadingAccount,
    /// Reading all accounts: the records of the accounts vault.
    ListingAccounts { vault: VaultId },
    /// Reading all accounts: the next record; the records in `rest` are
    /// still to be read, those in `accounts` are read.
    ReadingAccounts { vault: VaultId, rest: Seq<RecordId>, accounts: Seq<Seq<u8>> },
}

impl View for Pending {
    type V = PendingView;

    closed spec fn view(&self) -> PendingView {
        match *self {
            Pending::Idle => PendingView::Idle,
            Pending::ReadingSnapshot => PendingView::ReadingSnapshot,
            Pending::ListingVaults { current, rest } => PendingView::ListingVaults {
                current,
                rest: rest@,
            },
            Pending::CreatingSeedVault => PendingView::CreatingSeedVault,
            Pending::CreatingSnapshot => PendingView::CreatingSnapshot,
            Pending::ReadingAccount => PendingView::ReadingAccount,
            Pending::ListingAccounts { vault } => PendingView::ListingAccounts { vault },
            Pending::ReadingAccounts { vault, rest, accounts } => PendingView::ReadingAccounts {
                vault,
                rest: rest@,
                accounts: records_view(accounts@),
            },
        }
    }
}

/// What a [`WalletStronghold`] stands for.
pub struct VaultView {
    /// The vault that holds the seed, once resolved.
    pub seed_vault: Option<VaultId>,
    /// The vault that holds the account secrets, once resolved.
    pub accounts_vault: Option<VaultId>,
    /// The credential cache: snapshot paths and their passwords.
    pub passwords: Seq<Entry>,
    /// What the actor waits for.
    pub pending: PendingView,
}

/// Whether the actor is in the middle of loading or creating a snapshot.
pub open spec fn bootstrapping(pending: PendingView) -> bool {
    pending is ReadingSnapshot || pending is ListingVaults || pending is CreatingSeedVault
        || pending is CreatingSnapshot
}

impl VaultView {
    /// Where the actor stands in the life of its vaults.
    pub open spec fn state(self) -> VaultState {
        if bootstrapping(self.pending) {
            VaultState::Bootstrapping
        } else if self.seed_vault.is_some() && self.accounts_vault.is_some() {
            VaultState::Ready
        } else {
            VaultState::Uninitialized
        }
    }

    /// The actor with nothing pending. An unfinished bootstrap is given up
    /// and leaves no vault resolved; any other unfinished exchange is
    /// dropped.
    pub open spec fn settled(self) -> VaultView {
        if bootstrapping(self.pending) {
            VaultView {
                seed_vault: None,
                accounts_vault: None,
                passwords: self.passwords,
                pending: PendingView::Idle,
            }
        } else {
            VaultView {
                seed_vault: self.seed_vault,
                accounts_vault: self.accounts_vault,
                passwords: self.passwords,
                pending: PendingView::Idle,
            }
        }
    }

    /// The actor with other vaults and something else pending.
    pub open spec fn with(
        self,
        seed_vault: Option<VaultId>,
        accounts_vault: Option<VaultId>,
        pending: PendingView,
    ) -> VaultView {
        VaultView { seed_vault, accounts_vault, passwords: self.passwords, pending }
    }

    /// The actor with something else pending.
    pub open spec fn waiting(self, pending: PendingView) -> VaultView {
        self.with(self.seed_vault, self.accounts_vault, pending)
    }

    /// Neither vault is resolved unless both are, outside a bootstrap.
    pub open spec fn consistent(self) -> bool {
        !bootstrapping(self.pending) ==> (self.seed_vault.is_some()
            <==> self.accounts_vault.is_some())
    }
}

/// The end of a request with an answer and no last command.
pub open spec fn answer(outcome: Result<StrongholdResponseView, ErrorView>) -> ActionView {
    ActionView::Done(None, outcome)
}

/// What follows a request: the actor afterwards, and what it wants done.
///
/// Every request starts from the settled actor. Loading and creating forget
/// both vaults and record the password before anything is asked of the
/// secure store. The requests on accounts fail at once with `EmptySnapshot`
/// while no accounts vault is resolved, and only then look at the account
/// id.
pub open spec fn spec_receive(pre: VaultView, msg: Request) -> (VaultView, ActionView) {
    let base = pre.settled();
    match msg {
        Request::LoadSnapshot(path, password) => (
            VaultView {
                seed_vault: None,
                accounts_vault: None,
                passwords: record(pre.passwords, path@, password@),
                pending: PendingView::ReadingSnapshot,
            },
            ActionView::Ask(VaultCommandView::ReadSnapshot(password@, path@)),
        ),
        Request::CreateSnapshot(path, password) => (
            VaultView {
                seed_vault: None,
                accounts_vault: None,
                passwords: record(pre.passwords, path@, password@),
                pending: PendingView::CreatingSnapshot,
            },
            ActionView::Ask(VaultCommandView::CreateNewVault),
        ),
        Request::GetAccount(id) => match base.accounts_vault {
            None => (base, answer(Err(ErrorView::EmptySnapshot))),
            Some(vault) => match spec_account_id_to_record_id(id) {
                Err(e) => (base, answer(Err(e))),
                Ok(record) => (
                    base.waiting(PendingView::ReadingAccount),
                    ActionView::Ask(VaultCommandView::ReadData(vault, record)),
                ),
            },
        },
        Request::GetAccounts => match base.accounts_vault {
            None => (base, answer(Err(ErrorView::EmptySnapshot))),
            Some(vault) => (
                base.waiting(PendingView::ListingAccounts { vault }),
                ActionView::Ask(VaultCommandView::ListIds(vault)),
            ),
        },
        Request::StoreAccount(id, account) => match base.accounts_vault {
            None => (base, answer(Err(ErrorView::EmptySnapshot))),
            Some(vault) => match spec_account_id_to_record_id(id) {
                Err(e) => (base, answer(Err(e))),
                Ok(record) => (
                    base,
                    ActionView::Done(
                        Some(
                            VaultCommandView::WriteData(
                                vault,
                                record,
                                vstd::utf8::encode_utf8(account@),
                                spec_account_hint(),
                            ),
                        ),
                        Ok(StrongholdResponseView::StoredAccount),
                    ),
                ),
            },
        },
        Request::RemoveAccount(id) => match base.accounts_vault {
            None => (base, answer(Err(ErrorView::EmptySnapshot))),
            Some(vault) => match spec_account_id_to_record_id(id) {
                Err(e) => (base, answer(Err(e))),
                Ok(record) => (
                    base,
                    ActionView::Done(
                        Some(VaultCommandView::RevokeData(vault, record)),
                        Ok(StrongholdResponseView::RemovedAccount),
                    ),
                ),
            },
        },
    }
}

/// The record that marks a vault as the seed vault. It is named by the seed
/// hint itself, so that no record of an account gets in its way.
pub open spec fn spec_seed_marker() -> RecordId {
    RecordId { bytes: spec_seed_hint().bytes }
}

/// The command that tags a vault as the seed vault: it writes the marker
/// record, which is empty and carries the seed hint.
pub open spec fn tag_seed_vault(vault: VaultId) -> VaultCommandView {
    VaultCommandView::WriteData(vault, spec_seed_marker(), Seq::empty(), spec_seed_hint())
}

/// The end of loading with a seed vault that was just created: the vault is
/// tagged, and it holds the accounts too unless the snapshot has an accounts
/// vault.
pub open spec fn finish_load_tagged(pre: VaultView, seed: VaultId, accounts: Option<VaultId>) -> (
    VaultView,
    ActionView,
) {
    (
        finish_load(pre, seed, accounts).0,
        ActionView::Done(
            Some(tag_seed_vault(seed)),
            Ok(StrongholdResponseView::LoadedSnapshot),
        ),
    )
}

/// The end of loading: without an accounts vault of its own, the snapshot
/// keeps its accounts in the seed vault.
pub open spec fn finish_load(pre: VaultView, seed: VaultId, accounts: Option<VaultId>) -> (
    VaultView,
    ActionView,
) {
    (
        pre.with(
            Some(seed),
            match accounts {
                Some(vault) => Some(vault),
                None => Some(seed),
            },
            PendingView::Idle,
        ),
        answer(Ok(StrongholdResponseView::LoadedSnapshot)),
    )
}

/// Loading, once no vault is left to list: a snapshot without a seed vault
/// gets a new one, which is tagged once it is there.
pub open spec fn after_listing(pre: VaultView, seed: Option<VaultId>, accounts: Option<VaultId>) -> (
    VaultView,
    ActionView,
) {
    match seed {
        Some(vault) => finish_load(pre, vault, accounts),
        None => (
            pre.with(None, accounts, PendingView::CreatingSeedVault),
            ActionView::Ask(VaultCommandView::CreateNewVault),
        ),
    }
}

/// Loading, with the vaults that are still to be listed.
pub open spec fn list_next(
    pre: VaultView,
    seed: Option<VaultId>,
    accounts: Option<VaultId>,
    vaults: Seq<VaultId>,
) -> (VaultView, ActionView) {
    if vaults.len() == 0 || (seed.is_some() && accounts.is_some()) {
        after_listing(pre, seed, accounts)
    } else {
        (
            pre.with(
                seed,
                accounts,
                PendingView::ListingVaults { current: vaults[0], rest: vaults.drop_first() },
            ),
            ActionView::Ask(VaultCommandView::ListIds(vaults[0])),
        )
    }
}

/// Reading all accounts, with the records that are still to be read.
pub open spec fn read_next(
    pre: VaultView,
    vault: VaultId,
    ids: Seq<RecordId>,
    accounts: Seq<Seq<u8>>,
) -> (VaultView, ActionView) {
    if ids.len() == 0 {
        (pre.settled(), answer(Ok(StrongholdResponseView::Accounts(accounts))))
    } else {
        (
            pre.waiting(
                PendingView::ReadingAccounts { vault, rest: ids.drop_first(), accounts },
            ),
            ActionView::Ask(VaultCommandView::ReadData(vault, ids[0])),
        )
    }
}

/// The error for a result that is not the awaited one: a failure that the
/// secure store reports is passed on as such, any other result is
/// unexpected.
pub open spec fn misfit(result: StrongholdResultView) -> ErrorView {
    match result {
        StrongholdResultView::Error(message) => ErrorView::StrongholdError(message),
        _ => ErrorView::UnexpectedResult(result),
    }
}

/// The end of a request that failed: the settled actor and the error.
pub open spec fn fail(pre: VaultView, e: ErrorView) -> (VaultView, ActionView) {
    (pre.settled(), answer(Err(e)))
}

/// What follows a result of the secure store: the actor afterwards, and
/// what it wants done.
pub open spec fn spec_result(pre: VaultView, result: StrongholdResultView) -> (
    VaultView,
    ActionView,
) {
    match pre.pending {
        PendingView::Idle => fail(pre, misfit(result)),
        PendingView::ReadingSnapshot => match result {
            StrongholdResultView::ReadSnapshot(vaults) => list_next(pre, None, None, vaults),
            _ => fail(pre, misfit(result)),
        },
        PendingView::ListingVaults { current, rest } => match result {
            StrongholdResultView::ListIds(records) => list_next(
                pre,
                if has_hint(records, spec_seed_hint()) {
                    Some(current)
                } else {
                    pre.seed_vault
                },
                if has_hint(records, spec_account_hint()) {
                    Some(current)
                } else {
                    pre.accounts_vault
                },
                rest,
            ),
            _ => fail(pre, misfit(result)),
        },
        PendingView::CreatingSeedVault => match result {
            StrongholdResultView::CreatedVault(vault) => finish_load_tagged(
                pre,
                vault,
                pre.accounts_vault,
            ),
            _ => fail(pre, misfit(result)),
        },
        PendingView::CreatingSnapshot => match result {
            StrongholdResultView::CreatedVault(vault) => (
                pre.with(Some(vault), Some(vault), PendingView::Idle),
                answer(Ok(StrongholdResponseView::CreatedSnapshot)),
            ),
            _ => fail(pre, misfit(result)),
        },
        PendingView::ReadingAccount => match result {
            StrongholdResultView::ReadRecord(record) => (
                pre.settled(),
                answer(Ok(StrongholdResponseView::Account(record))),
            ),
            _ => fail(pre, ErrorView::AccountNotFound),
        },
        PendingView::ListingAccounts { vault } => match result {
            StrongholdResultView::ListIds(records) => read_next(
                pre,
                vault,
                hinted_ids(records, spec_account_hint()),
                Seq::empty(),
            ),
            _ => fail(pre, misfit(result)),
        },
        PendingView::ReadingAccounts { vault, rest, accounts } => match result {
            StrongholdResultView::ReadRecord(record) => read_next(
                pre,
                vault,
                rest,
                accounts.push(record),
            ),
            _ => fail(pre, ErrorView::AccountNotFound),
        },
    }
}

/// What follows the end of a wait: a result of the secure store is acted
/// on; a wait that ran out fails the request for good.
pub open spec fn spec_resume(pre: VaultView, reply: Result<StrongholdResult, RecvTimeoutError>) -> (
    VaultView,
    ActionView,
) {
    match reply {
        Ok(result) => spec_result(pre, result@),
        Err(e) => fail(pre, ErrorView::Timeout(e)),
    }
}

/// The vault actor. It owns the identifiers of the vaults and the credential
/// cache; neither ever appears in an answer to a caller.
pub struct WalletStronghold {
    seed_vault: Option<VaultId>,
    accounts_vault: Option<VaultId>,
    passwords: PasswordStore,
    pending: Pending,
}

impl View for WalletStronghold {
    type V = VaultView;

    closed spec fn view(&self) -> VaultView {
        VaultView {
            seed_vault: self.seed_vault,
            accounts_vault: self.accounts_vault,
            passwords: self.passwords@,
            pending: self.pending@,
        }
    }
}

impl WalletStronghold {
    /// An actor that has not seen a snapshot yet.
    pub fn new() -> (r: WalletStronghold)
        ensures
            r@ == (VaultView {
                seed_vault: None,
                accounts_vault: None,
                passwords: Seq::<Entry>::empty(),
                pending: PendingView::Idle,
            }),
    {
        WalletStronghold {
            seed_vault: None,
            accounts_vault: None,
            passwords: PasswordStore::new(),
            pending: Pending::Idle,
        }
    }

    /// Where the actor stands in the life of its vaults.
    pub fn state(&self) -> (r: VaultState)
        ensures
            r == self@.state(),
    {
        if self.is_bootstrapping() {
            VaultState::Bootstrapping
        } else if self.seed_vault.is_some() && self.accounts_vault.is_some() {
            VaultState::Ready
        } else {
            VaultState::Uninitialized
        }
    }

    /// Whether the actor waits for a result of the secure store.
    pub fn is_waiting(&self) -> (r: bool)
        ensures
            r == !(self@.pending is Idle),
    {
        match self.pending {
            Pending::Idle => false,
            _ => true,
        }
    }

    fn is_bootstrapping(&self) -> (r: bool)
        ensures
            r == bootstrapping(self@.pending),
    {
        match self.pending {
            Pending::ReadingSnapshot => true,
            Pending::ListingVaults { .. } => true,
            Pending::CreatingSeedVault => true,
            Pending::CreatingSnapshot => true,
            _ => false,
        }
    }

    /// Drops what is pending: see [`VaultView::settled`].
    fn settle(&mut self)
        ensures
            final(self)@ == old(self)@.settled(),
    {
        if self.is_bootstrapping() {
            self.seed_vault = None;
            self.accounts_vault = None;
        }
        self.pending = Pending::Idle;
    }

    /// Makes the error for a result that is not the awaited one.
    fn misfit(result: StrongholdResult) -> (e: Error)
        ensures
            e@ == misfit(result@),
    {
        match result {
            StrongholdResult::Error(message) => Error::StrongholdError(message),
            other => Error::UnexpectedResult(other),
        }
    }

    /// Ends a request that failed.
    fn fail(&mut self, e: Error) -> (action: Action)
        ensures
            (final(self)@, action@) == fail(old(self)@, e@),
    {
        self.settle();
        Action::Done(None, Err(e))
    }

    /// Ends a bootstrap that failed: no vault stays resolved.
    fn give_up(&mut self, e: Error) -> (action: Action)
        ensures
            final(self)@ == old(self)@.with(None, None, PendingView::Idle),
            action@ == answer(Err(e@)),
    {
        self.seed_vault = None;
        self.accounts_vault = None;
        self.pending = Pending::Idle;
        Action::Done(None, Err(e))
    }

    /// Resolves both vaults at the end of loading.
    fn resolve(&mut self, seed: VaultId, accounts: Option<VaultId>)
        ensures
            final(self)@ == finish_load(old(self)@, seed, accounts).0,
    {
        self.seed_vault = Some(seed);
        self.accounts_vault = match accounts {
            Some(vault) => Some(vault),
            None => Some(seed),
        };
        self.pending = Pending::Idle;
    }

    /// Ends the loading of a snapshot whose seed vault was found.
    fn finish_load(&mut self, seed: VaultId, accounts: Option<VaultId>) -> (action: Action)
        ensures
            (final(self)@, action@) == finish_load(old(self)@, seed, accounts),
    {
        self.resolve(seed, accounts);
        Action::Done(None, Ok(StrongholdResponse::LoadedSnapshot))
    }

    /// Ends the loading of a snapshot whose seed vault was just created:
    /// the vault is tagged on the way out.
    fn finish_load_tagged(&mut self, seed: VaultId, accounts: Option<VaultId>) -> (action: Action)
        ensures
            (final(self)@, action@) == finish_load_tagged(old(self)@, seed, accounts),
    {
        self.resolve(seed, accounts);
        let hint = seed_hint();
        let data: Vec<u8> = Vec::new();
        assert(data@ =~= Seq::<u8>::empty());
        Action::Done(
            Some(VaultCommand::WriteData(seed, RecordId { bytes: hint.bytes }, data, hint)),
            Ok(StrongholdResponse::LoadedSnapshot),
        )
    }

    /// Goes on with loading once no vault is left to list.
    fn after_listing(&mut self, seed: Option<VaultId>, accounts: Option<VaultId>) -> (action:
        Action)
        ensures
            (final(self)@, action@) == after_listing(old(self)@, seed, accounts),
    {
        match seed {
            Some(vault) => self.finish_load(vault, accounts),
            None => {
                self.seed_vault = None;
                self.accounts_vault = accounts;
                self.pending = Pending::CreatingSeedVault;
                Action::Ask(VaultCommand::CreateNewVault)
            },
        }
    }

    /// Goes on with loading: lists the next vault, if one has to be listed.
    fn list_next(
        &mut self,
        seed: Option<VaultId>,
        accounts: Option<VaultId>,
        vaults: Vec<VaultId>,
    ) -> (action: Action)
        ensures
            (final(self)@, action@) == list_next(old(self)@, seed, accounts, vaults@),
    {
        let mut vaults = vaults;
        if vaults.len() == 0 || (seed.is_some() && accounts.is_some()) {
            self.after_listing(seed, accounts)
        } else {
            let ghost all = vaults@;
            let current = vaults.remove(0);
            assert(vaults@ =~= all.drop_first());
            self.seed_vault = seed;
            self.accounts_vault = accounts;
            self.pending = Pending::ListingVaults { current, rest: vaults };
            Action::Ask(VaultCommand::ListIds(current))
        }
    }

    /// Goes on with reading all accounts: reads the next record, if one is
    /// left.
    fn read_next(&mut self, vault: VaultId, ids: Vec<RecordId>, accounts: Vec<Vec<u8>>) -> (action:
        Action)
        requires
            !bootstrapping(old(self)@.pending),
        ensures
            (final(self)@, action@) == read_next(old(self)@, vault, ids@, records_view(accounts@)),
    {
        let mut ids = ids;
        if ids.len() == 0 {
            self.settle();
            Action::Done(None, Ok(StrongholdResponse::Accounts(accounts)))
        } else {
            let ghost all = ids@;
            let next = ids.remove(0);
            assert(ids@ =~= all.drop_first());
            self.pending = Pending::ReadingAccounts { vault, rest: ids, accounts };
            Action::Ask(VaultCommand::ReadData(vault, next))
        }
    }

    /// Takes a request of a caller and says what to do next.
    ///
    /// A request that arrives while another one is unfinished takes its
    /// place: the caller of the other one has given up.
    pub fn receive_message(&mut self, msg: Request) -> (action: Action)
        ensures
            (final(self)@, action@) == spec_receive(old(self)@, msg),
    {
        self.settle();
        match msg {
            Request::LoadSnapshot(snapshot_path, password) => {
                self.seed_vault = None;
                self.accounts_vault = None;
                self.passwords.set_password(snapshot_path.clone(), password.clone());
                self.pending = Pending::ReadingSnapshot;
                Action::Ask(VaultCommand::ReadSnapshot(password, snapshot_path))
            },
            Request::CreateSnapshot(snapshot_path, password) => {
                self.seed_vault = None;
                self.accounts_vault = None;
                self.passwords.set_password(snapshot_path, password);
                self.pending = Pending::CreatingSnapshot;
                Action::Ask(VaultCommand::CreateNewVault)
            },
            Request::GetAccount(account_id) => {
                let vault = match self.accounts_vault {
                    Some(vault) => vault,
                    None => { return Action::Done(None, Err(Error::EmptySnapshot)); },
                };
                match account_id_to_record_id(account_id) {
                    Ok(record) => {
                        self.pending = Pending::ReadingAccount;
                        Action::Ask(VaultCommand::ReadData(vault, record))
                    },
                    Err(e) => Action::Done(None, Err(e)),
                }
            },
            Request::GetAccounts => {
                let vault = match self.accounts_vault {
                    Some(vault) => vault,
                    None => { return Action::Done(None, Err(Error::EmptySnapshot)); },
                };
                self.pending = Pending::ListingAccounts { vault };
                Action::Ask(VaultCommand::ListIds(vault))
            },
            Request::StoreAccount(account_id, account) => {
                let vault = match self.accounts_vault {
                    Some(vault) => vault,
                    None => { return Action::Done(None, Err(Error::EmptySnapshot)); },
                };
                match account_id_to_record_id(account_id) {
                    Ok(record) => Action::Done(
                        Some(
                            VaultCommand::WriteData(
                                vault,
                                record,
                                account.as_str().as_bytes_vec(),
                                account_hint(),
                            ),
                        ),
                        Ok(StrongholdResponse::StoredAccount),
                    ),
                    Err(e) => Action::Done(None, Err(e)),
                }
            },
            Request::RemoveAccount(account_id) => {
                let vault = match self.accounts_vault {
                    Some(vault) => vault,
                    None => { return Action::Done(None, Err(Error::EmptySnapshot)); },
                };
                match account_id_to_record_id(account_id) {
                    Ok(record) => Action::Done(
                        Some(VaultCommand::RevokeData(vault, record)),
                        Ok(StrongholdResponse::RemovedAccount),
                    ),
                    Err(e) => Action::Done(None, Err(e)),
                }
            },
        }
    }

    /// Takes the end of a wait for the secure store, a result or the reason
    /// why none came, and says what to do next.
    pub fn resume(&mut self, reply: Result<StrongholdResult, RecvTimeoutError>) -> (action: Action)
        ensures
            (final(self)@, action@) == spec_resume(old(self)@, reply),
    {
        let result = match reply {
            Ok(result) => result,
            Err(e) => { return self.fail(Error::Timeout(e)); },
        };
        let mut pending = Pending::Idle;
        core::mem::swap(&mut self.pending, &mut pending);
        match pending {
            Pending::Idle => {
                self.fail(Self::misfit(result))
            },
            Pending::ReadingSnapshot => match result {
                StrongholdResult::ReadSnapshot(vaults) => self.list_next(None, None, vaults),
                other => self.give_up(Self::misfit(other)),
            },
            Pending::ListingVaults { current, rest } => match result {
                StrongholdResult::ListIds(records) => {
                    let seed = if any_with_hint(&records, &seed_hint()) {
                        Some(current)
                    } else {
                        self.seed_vault
                    };
                    let accounts = if any_with_hint(&records, &account_hint()) {
                        Some(current)
                    } else {
                        self.accounts_vault
                    };
                    self.list_next(seed, accounts, rest)
                },
                other => self.give_up(Self::misfit(other)),
            },
            Pending::CreatingSeedVault => match result {
                StrongholdResult::CreatedVault(vault) => {
                    let accounts = self.accounts_vault;
                    self.finish_load_tagged(vault, accounts)
                },
                other => self.give_up(Self::misfit(other)),
            },
            Pending::CreatingSnapshot => match result {
                StrongholdResult::CreatedVault(vault) => {
                    self.seed_vault = Some(vault);
                    self.accounts_vault = Some(vault);
                    Action::Done(None, Ok(StrongholdResponse::CreatedSnapshot))
                },
                other => self.give_up(Self::misfit(other)),
            },
            Pending::ReadingAccount => match result {
                StrongholdResult::ReadRecord(record) => Action::Done(
                    None,
                    Ok(StrongholdResponse::Account(record)),
                ),
                _ => Action::Done(None, Err(Error::AccountNotFound)),
            },
            Pending::ListingAccounts { vault } => match result {
                StrongholdResult::ListIds(records) => {
                    let ids = ids_with_hint(&records, &account_hint());
                    let accounts: Vec<Vec<u8>> = Vec::new();
                    assert(records_view(accounts@) =~= Seq::<Seq<u8>>::empty());
                    self.read_next(vault, ids, accounts)
                },
                other => Action::Done(None, Err(Self::misfit(other))),
            },
            Pending::ReadingAccounts { vault, rest, accounts } => match result {
                StrongholdResult::ReadRecord(record) => {
                    let mut accounts = accounts;
                    let ghost before = records_view(accounts@);
                    let ghost data = record@;
                    accounts.push(record);
                    assert(records_view(accounts@) =~= before.push(data));
                    self.read_next(vault, rest, accounts)
                },
                _ => Action::Done(None, Err(Error::AccountNotFound)),
            },
        }
    }
}

/// Removing an account succeeds whether or not its record exists: the
/// actor asks nothing of the secure store before it answers, and it is left
/// as it was. Removing the account once more gives the same.
pub proof fn lemma_remove_account_succeeds(pre: VaultView, id: [u8; 32])
    requires
        pre.settled().accounts_vault is Some,
    ensures
        ({
            let msg = Request::RemoveAccount(AccountIdentifier::Id(id));
            let (post, action) = spec_receive(pre, msg);
            &&& action == ActionView::Done(
                Some(
                    VaultCommandView::RevokeData(
                        pre.settled().accounts_vault->Some_0,
                        record_id_of(id),
                    ),
                ),
                Ok(StrongholdResponseView::RemovedAccount),
            )
            &&& post == pre.settled()
            &&& spec_receive(post, msg) == (post, action)
        }),
{
}

/// No stale vault survives a reload: when a snapshot is loaded or created,
/// the actor forgets both vaults and records the password before anything
/// else happens.
pub proof fn lemma_bootstrap_forgets(pre: VaultView, msg: Request)
    requires
        msg is LoadSnapshot || msg is CreateSnapshot,
    ensures
        spec_receive(pre, msg).0.seed_vault is None,
        spec_receive(pre, msg).0.accounts_vault is None,
        spec_receive(pre, msg).0.state() == VaultState::Bootstrapping,
        spec_receive(pre, msg).1 is Ask,
        msg matches Request::LoadSnapshot(path, password) ==> lookup(
            spec_receive(pre, msg).0.passwords,
            path@,
        ) == Some(password@),
        msg matches Request::CreateSnapshot(path, password)
            ==> lookup(spec_receive(pre, msg).0.passwords, path@)
            == Some(password@),
{
    match msg {
        Request::LoadSnapshot(path, password) => {
            lemma_record_then_lookup(
                pre.passwords,
                path@,
                password@,
                path@,
            );
        },
        Request::CreateSnapshot(path, password) => {
            lemma_record_then_lookup(
                pre.passwords,
                path@,
                password@,
                path@,
            );
        },
        _ => {},
    }
}

/// A request on accounts fails at once with `EmptySnapshot` while no
/// accounts vault is resolved: nothing is asked of the secure store.
pub proof fn lemma_fails_fast(pre: VaultView, msg: Request)
    requires
        !(msg is LoadSnapshot || msg is CreateSnapshot),
        pre.settled().accounts_vault is None,
    ensures
        spec_receive(pre, msg) == (pre.settled(), answer(Err(ErrorView::EmptySnapshot))),
{
}

/// Outside a bootstrap the actor has resolved both vaults or none, whatever
/// requests and results it has seen.
pub proof fn lemma_stays_consistent(
    pre: VaultView,
    msg: Request,
    reply: Result<StrongholdResult, RecvTimeoutError>,
)
    requires
        pre.consistent(),
    ensures
        spec_receive(pre, msg).0.consistent(),
        spec_resume(pre, reply).0.consistent(),
        pre.settled().consistent(),
{
}

/// A wait that runs out fails the request for good: the caller gets the
/// timeout, nothing more is asked of the secure store, and an unfinished
/// bootstrap leaves no vault resolved.
pub proof fn lemma_timeout_fails(pre: VaultView, e: RecvTimeoutError)
    ensures
        spec_resume(pre, Err(e)) == (pre.settled(), answer(Err(ErrorView::Timeout(e)))),
        bootstrapping(pre.pending) ==> spec_resume(pre, Err(e)).0.state()
            == VaultState::Uninitialized,
{
}

/// The number of results of the secure store that the actor can still ask
/// for before it answers the caller, where that is known: it is not known
/// while the vaults of a snapshot or the records of the accounts vault are
/// awaited.
pub open spec fn asks_left(pending: PendingView) -> Option<nat> {
    match pending {
        PendingView::Idle => Some(0),
        PendingView::ReadingSnapshot => None,
        PendingView::ListingVaults { rest, .. } => Some(rest.len() + 2),
        PendingView::CreatingSeedVault => Some(1),
        PendingView::CreatingSnapshot => Some(1),
        PendingView::ReadingAccount => Some(1),
        PendingView::ListingAccounts { .. } => None,
        PendingView::ReadingAccounts { rest, .. } => Some(rest.len() + 1),
    }
}

/// Every request comes to its answer: the end of a wait leaves a known
/// number of further waits, and wherever that number was known before, it
/// has gone down. An actor that answers is left with nothing pending.
pub proof fn lemma_request_ends(pre: VaultView, reply: Result<StrongholdResult, RecvTimeoutError>)
    ensures
        asks_left(spec_resume(pre, reply).0.pending) is Some,
        spec_resume(pre, reply).1 is Done <==> spec_resume(pre, reply).0.pending is Idle,
        asks_left(pre.pending) matches Some(before) ==> spec_resume(pre, reply).1 is Ask
            ==> asks_left(spec_resume(pre, reply).0.pending)->Some_0 < before,
{
    match reply {
        Ok(result) => {
            match pre.pending {
                PendingView::ReadingSnapshot => {
                    if let StrongholdResultView::ReadSnapshot(vaults) = result@ {
                        if vaults.len() > 0 {
                            assert(vaults.drop_first().len() == vaults.len() - 1);
                        }
                    }
                },
                PendingView::ListingVaults { current, rest } => {
                    if rest.len() > 0 {
                        assert(rest.drop_first().len() == rest.len() - 1);
                    }
                },
                PendingView::ListingAccounts { vault } => {
                    if let StrongholdResultView::ListIds(records) = result@ {
                        let ids = hinted_ids(records, spec_account_hint());
                        if ids.len() > 0 {
                            assert(ids.drop_first().len() == ids.len() - 1);
                        }
                    }
                },
                PendingView::ReadingAccounts { vault, rest, accounts } => {
                    if rest.len() > 0 {
                        assert(rest.drop_first().len() == rest.len() - 1);
                    }
                },
                _ => {},
            }
        },
        Err(_) => {},
    }
}

} // verus!
