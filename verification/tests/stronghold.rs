use iota_wallet::account::{Account, AccountIdentifier};
use iota_wallet::error::ErrorKind;
use iota_wallet::stronghold::layout::{
    fresh_vault, has_vault, key_record, key_vault, listed_records, listed_vaults, pack,
    record_key, unpack, vault_key,
};
use iota_wallet::stronghold::passwords::PasswordStore;
use iota_wallet::stronghold::{
    account_hint, account_id_to_record_id, do_crypto, get_account, get_accounts,
    load_or_create, receive_response, remove_account, seed_hint, snapshot_request, store_account,
    Action, Error, RecordHint, RecordId, RecvTimeoutError, Request, StoreReply,
    StrongholdResponse, StrongholdResult, VaultCommand, VaultId, VaultState, WalletStronghold,
    ACCOUNT_HINT, SEED_HINT, TIMEOUT_MILLIS,
};

/// A secure store that lives in memory.
struct Store {
    vaults: Vec<(VaultId, Vec<(RecordId, RecordHint, Vec<u8>)>)>,
    commands: Vec<VaultCommand>,
    silent: bool,
}

impl Store {
    fn new() -> Store {
        Store { vaults: vec![], commands: vec![], silent: false }
    }

    fn vault(n: u8) -> VaultId {
        VaultId { bytes: [n; 24] }
    }

    fn records(&mut self, vault: &VaultId) -> Option<&mut Vec<(RecordId, RecordHint, Vec<u8>)>> {
        self.vaults.iter_mut().find(|(id, _)| id == vault).map(|(_, records)| records)
    }

    fn perform(&mut self, command: &VaultCommand) -> Option<StrongholdResult> {
        self.commands.push(command.clone());
        if self.silent {
            return None;
        }
        match command {
            VaultCommand::ReadSnapshot(_, _) => {
                Some(StrongholdResult::ReadSnapshot(self.vaults.iter().map(|(id, _)| *id).collect()))
            }
            VaultCommand::ListIds(vault) => {
                let records = self.records(vault)?;
                Some(StrongholdResult::ListIds(
                    records.iter().map(|(id, hint, _)| (*id, *hint)).collect(),
                ))
            }
            VaultCommand::CreateNewVault => {
                let vault = Store::vault(100 + self.vaults.len() as u8);
                self.vaults.push((vault, vec![]));
                Some(StrongholdResult::CreatedVault(vault))
            }
            VaultCommand::ReadData(vault, record) => {
                let records = self.records(vault)?;
                match records.iter().find(|(id, _, _)| id == record) {
                    Some((_, _, data)) => Some(StrongholdResult::ReadRecord(data.clone())),
                    None => Some(StrongholdResult::Error(String::from("no such record"))),
                }
            }
            VaultCommand::WriteData(vault, record, data, hint) => {
                let records = self.records(vault)?;
                records.retain(|(id, _, _)| id != record);
                records.push((*record, *hint, data.clone()));
                None
            }
            VaultCommand::RevokeData(vault, record) => {
                let records = self.records(vault)?;
                records.retain(|(id, _, _)| id != record);
                None
            }
        }
    }
}

/// Serves one request: sends what the actor asks to the store until the
/// actor is done.
fn serve(
    actor: &mut WalletStronghold,
    store: &mut Store,
    request: Request,
) -> Result<StrongholdResponse, Error> {
    let mut action = actor.receive_message(request);
    loop {
        match action {
            Action::Ask(command) => {
                assert!(actor.is_waiting());
                let reply = store.perform(&command).ok_or(RecvTimeoutError::Timeout);
                action = actor.resume(reply);
            }
            Action::Done(command, outcome) => {
                assert!(!actor.is_waiting());
                if let Some(command) = command {
                    store.perform(&command);
                }
                return outcome;
            }
        }
    }
}

fn id(n: u8) -> AccountIdentifier {
    AccountIdentifier::Id([n; 32])
}

fn ready() -> (WalletStronghold, Store) {
    let mut actor = WalletStronghold::new();
    let mut store = Store::new();
    let request = snapshot_request("./snapshot-test", "password", false);
    let reply = serve(&mut actor, &mut store, request);
    load_or_create(false, reply).unwrap();
    (actor, store)
}

#[test]
fn write_and_read() {
    let (mut actor, mut store) = ready();

    let id = AccountIdentifier::Id([0; 32]);
    let account = "account data".to_string();
    let reply = serve(&mut actor, &mut store, Request::StoreAccount(id, account.clone()));
    store_account(reply).unwrap();
    let reply = serve(&mut actor, &mut store, Request::GetAccount(id));
    let stored_account = get_account(reply).unwrap();
    assert_eq!(stored_account, account);
}

#[test]
fn a_fresh_snapshot_holds_no_accounts() {
    let mut actor = WalletStronghold::new();
    let mut store = Store::new();
    assert_eq!(actor.state(), VaultState::Uninitialized);
    let request = snapshot_request("./empty", "password", false);
    assert!(matches!(request, Request::CreateSnapshot(_, _)));
    let outcome = serve(&mut actor, &mut store, request);
    assert_eq!(outcome, Ok(StrongholdResponse::CreatedSnapshot));
    assert_eq!(actor.state(), VaultState::Ready);
    assert_eq!(store.commands, vec![VaultCommand::CreateNewVault]);

    let outcome = serve(&mut actor, &mut store, Request::GetAccounts);
    assert_eq!(outcome, Ok(StrongholdResponse::Accounts(vec![])));
    assert_eq!(get_accounts(outcome).unwrap(), Vec::<String>::new());
}

#[test]
fn an_empty_snapshot_can_be_loaded() {
    let mut actor = WalletStronghold::new();
    let mut store = Store::new();
    let request = snapshot_request("./empty", "password", true);
    assert!(matches!(request, Request::LoadSnapshot(_, _)));
    let outcome = serve(&mut actor, &mut store, request);
    assert_eq!(outcome, Ok(StrongholdResponse::LoadedSnapshot));
    assert_eq!(actor.state(), VaultState::Ready);
    assert_eq!(
        store.commands,
        vec![
            VaultCommand::ReadSnapshot(String::from("password"), String::from("./empty")),
            VaultCommand::CreateNewVault,
            VaultCommand::WriteData(
                Store::vault(100),
                RecordId { bytes: seed_hint().bytes },
                vec![],
                seed_hint()
            ),
        ]
    );
    assert_eq!(load_or_create(true, outcome), Ok(()));
    let outcome = serve(&mut actor, &mut store, Request::GetAccounts);
    assert_eq!(outcome, Ok(StrongholdResponse::Accounts(vec![])));
}

#[test]
fn a_stored_account_is_read_back_and_an_unknown_one_is_not_found() {
    let (mut actor, mut store) = ready();
    let outcome = serve(&mut actor, &mut store, Request::StoreAccount(id(b'A'), String::from("x")));
    assert_eq!(outcome, Ok(StrongholdResponse::StoredAccount));
    let outcome = serve(&mut actor, &mut store, Request::GetAccount(id(b'A')));
    assert_eq!(outcome, Ok(StrongholdResponse::Account(b"x".to_vec())));
    assert_eq!(get_account(outcome).unwrap(), "x");

    let outcome = serve(&mut actor, &mut store, Request::GetAccount(id(b'B')));
    assert_eq!(outcome, Err(Error::AccountNotFound));
    let failure = get_account(outcome).unwrap_err();
    assert_eq!(failure, Error::AccountNotFound);
    assert_eq!(failure.kind(), ErrorKind::NotFound);
    assert_eq!(actor.state(), VaultState::Ready);
}

#[test]
fn storing_again_overwrites() {
    let (mut actor, mut store) = ready();
    serve(&mut actor, &mut store, Request::StoreAccount(id(1), String::from("one"))).unwrap();
    serve(&mut actor, &mut store, Request::StoreAccount(id(2), String::from("two"))).unwrap();
    serve(&mut actor, &mut store, Request::StoreAccount(id(1), String::from("uno"))).unwrap();
    let outcome = serve(&mut actor, &mut store, Request::GetAccounts);
    let accounts = get_accounts(outcome).unwrap();
    assert_eq!(accounts, vec![String::from("two"), String::from("uno")]);
}

#[test]
fn removing_an_account_that_is_not_there_succeeds() {
    let (mut actor, mut store) = ready();
    let outcome = serve(&mut actor, &mut store, Request::RemoveAccount(id(5)));
    assert_eq!(outcome, Ok(StrongholdResponse::RemovedAccount));
    assert_eq!(remove_account(outcome), Ok(()));
    let outcome = serve(&mut actor, &mut store, Request::RemoveAccount(id(5)));
    assert_eq!(outcome, Ok(StrongholdResponse::RemovedAccount));
    assert_eq!(actor.state(), VaultState::Ready);
}

#[test]
fn a_removed_account_is_gone() {
    let (mut actor, mut store) = ready();
    serve(&mut actor, &mut store, Request::StoreAccount(id(1), String::from("one"))).unwrap();
    serve(&mut actor, &mut store, Request::StoreAccount(id(2), String::from("two"))).unwrap();
    serve(&mut actor, &mut store, Request::RemoveAccount(id(1))).unwrap();
    let outcome = serve(&mut actor, &mut store, Request::GetAccount(id(1)));
    assert_eq!(outcome, Err(Error::AccountNotFound));
    let outcome = serve(&mut actor, &mut store, Request::GetAccounts);
    assert_eq!(outcome, Ok(StrongholdResponse::Accounts(vec![b"two".to_vec()])));
}

#[test]
fn requests_on_accounts_need_a_snapshot() {
    let mut store = Store::new();
    for request in [
        Request::GetAccount(id(1)),
        Request::GetAccounts,
        Request::StoreAccount(id(1), String::from("one")),
        Request::RemoveAccount(id(1)),
        Request::GetAccount(AccountIdentifier::Index(1)),
    ] {
        let mut actor = WalletStronghold::new();
        let outcome = serve(&mut actor, &mut store, request);
        assert_eq!(outcome, Err(Error::EmptySnapshot));
        assert_eq!(actor.state(), VaultState::Uninitialized);
    }
    assert!(store.commands.is_empty());
}

#[test]
fn an_index_does_not_name_a_record() {
    let (mut actor, mut store) = ready();
    let before = store.commands.len();
    for request in [
        Request::GetAccount(AccountIdentifier::Index(0)),
        Request::StoreAccount(AccountIdentifier::Index(0), String::from("one")),
        Request::RemoveAccount(AccountIdentifier::Index(0)),
    ] {
        let outcome = serve(&mut actor, &mut store, request);
        assert_eq!(outcome, Err(Error::AccountIdMustBeString));
    }
    assert_eq!(store.commands.len(), before);
    assert_eq!(
        account_id_to_record_id(AccountIdentifier::Index(7)),
        Err(Error::AccountIdMustBeString)
    );
}

#[test]
fn a_record_is_named_by_the_first_24_bytes_of_the_id() {
    let mut bytes = [0u8; 32];
    for (i, byte) in bytes.iter_mut().enumerate() {
        *byte = i as u8 + 1;
    }
    let record = account_id_to_record_id(AccountIdentifier::Id(bytes)).unwrap();
    let mut expected = [0u8; 24];
    expected.copy_from_slice(&bytes[..24]);
    assert_eq!(record, RecordId { bytes: expected });
    assert_eq!(record.bytes[23], 24);
    let from: AccountIdentifier = bytes.into();
    assert_eq!(account_id_to_record_id(from).unwrap(), record);
}

#[test]
fn the_account_is_written_with_its_hint() {
    let (mut actor, mut store) = ready();
    serve(&mut actor, &mut store, Request::StoreAccount(id(1), String::from("héllo"))).unwrap();
    let vault = store.vaults[0].0;
    assert_eq!(
        store.commands.last().unwrap(),
        &VaultCommand::WriteData(
            vault,
            RecordId { bytes: [1; 24] },
            "héllo".as_bytes().to_vec(),
            account_hint()
        )
    );
    serve(&mut actor, &mut store, Request::RemoveAccount(id(1))).unwrap();
    assert_eq!(
        store.commands.last().unwrap(),
        &VaultCommand::RevokeData(vault, RecordId { bytes: [1; 24] })
    );
}

#[test]
fn loading_finds_the_vaults_by_their_hints() {
    let mut store = Store::new();
    let other = (RecordId { bytes: [1; 24] }, RecordHint::new(b"other").unwrap(), vec![]);
    let seed = (RecordId { bytes: [2; 24] }, seed_hint(), b"seed".to_vec());
    let account = (RecordId { bytes: [3; 24] }, account_hint(), b"account".to_vec());
    store.vaults.push((Store::vault(1), vec![other.clone()]));
    store.vaults.push((Store::vault(2), vec![other.clone(), account.clone()]));
    store.vaults.push((Store::vault(3), vec![seed.clone()]));
    store.vaults.push((Store::vault(4), vec![account.clone(), seed.clone()]));
    let mut actor = WalletStronghold::new();
    let outcome = serve(&mut actor, &mut store, snapshot_request("./path", "word", true));
    assert_eq!(outcome, Ok(StrongholdResponse::LoadedSnapshot));
    // the fourth vault is not listed: both vaults are resolved after the third
    assert_eq!(
        store.commands,
        vec![
            VaultCommand::ReadSnapshot(String::from("word"), String::from("./path")),
            VaultCommand::ListIds(Store::vault(1)),
            VaultCommand::ListIds(Store::vault(2)),
            VaultCommand::ListIds(Store::vault(3)),
        ]
    );
    let outcome = serve(&mut actor, &mut store, Request::GetAccounts);
    assert_eq!(outcome, Ok(StrongholdResponse::Accounts(vec![b"account".to_vec()])));
    assert_eq!(
        store.commands[4..],
        [
            VaultCommand::ListIds(Store::vault(2)),
            VaultCommand::ReadData(Store::vault(2), RecordId { bytes: [3; 24] }),
        ]
    );
}

#[test]
fn accounts_live_in_the_seed_vault_by_default() {
    let mut store = Store::new();
    let seed = (RecordId { bytes: [2; 24] }, seed_hint(), b"seed".to_vec());
    store.vaults.push((Store::vault(1), vec![]));
    store.vaults.push((Store::vault(2), vec![seed]));
    let mut actor = WalletStronghold::new();
    serve(&mut actor, &mut store, snapshot_request("./path", "word", true)).unwrap();
    serve(&mut actor, &mut store, Request::StoreAccount(id(9), String::from("nine"))).unwrap();
    assert_eq!(store.vaults[1].1.len(), 2);
    assert_eq!(store.vaults.len(), 2);
    let outcome = serve(&mut actor, &mut store, Request::GetAccounts);
    assert_eq!(outcome, Ok(StrongholdResponse::Accounts(vec![b"nine".to_vec()])));
}

#[test]
fn a_snapshot_without_seed_gets_a_seed_vault() {
    let mut store = Store::new();
    let account = (RecordId { bytes: [3; 24] }, account_hint(), b"account".to_vec());
    store.vaults.push((Store::vault(1), vec![account]));
    let mut actor = WalletStronghold::new();
    serve(&mut actor, &mut store, snapshot_request("./path", "word", true)).unwrap();
    assert_eq!(store.vaults.len(), 2);
    assert_eq!(store.commands[store.commands.len() - 2], VaultCommand::CreateNewVault);
    assert_eq!(store.vaults[1].1, vec![(RecordId { bytes: seed_hint().bytes }, seed_hint(), vec![])]);
    let outcome = serve(&mut actor, &mut store, Request::GetAccounts);
    assert_eq!(outcome, Ok(StrongholdResponse::Accounts(vec![b"account".to_vec()])));
}

#[test]
fn a_seed_vault_that_was_created_is_found_again() {
    let mut actor = WalletStronghold::new();
    let mut store = Store::new();
    serve(&mut actor, &mut store, snapshot_request("./path", "word", true)).unwrap();
    serve(&mut actor, &mut store, Request::StoreAccount(id(1), String::from("one"))).unwrap();
    assert_eq!(store.vaults.len(), 1);

    let outcome = serve(&mut actor, &mut store, snapshot_request("./path", "word", true));
    assert_eq!(outcome, Ok(StrongholdResponse::LoadedSnapshot));
    assert_eq!(store.vaults.len(), 1);
    let outcome = serve(&mut actor, &mut store, Request::GetAccount(id(1)));
    assert_eq!(get_account(outcome).unwrap(), "one");
}

#[test]
fn a_reload_forgets_the_vaults() {
    let (mut actor, mut store) = ready();
    serve(&mut actor, &mut store, Request::StoreAccount(id(1), String::from("one"))).unwrap();
    assert_eq!(actor.state(), VaultState::Ready);

    let action = actor.receive_message(snapshot_request("./other", "word", true));
    assert_eq!(
        action,
        Action::Ask(VaultCommand::ReadSnapshot(String::from("word"), String::from("./other")))
    );
    assert_eq!(actor.state(), VaultState::Bootstrapping);
    // the bootstrap is given up: a request on accounts finds no vault
    let outcome = serve(&mut actor, &mut store, Request::GetAccounts);
    assert_eq!(outcome, Err(Error::EmptySnapshot));
    assert_eq!(actor.state(), VaultState::Uninitialized);
}

#[test]
fn a_wait_that_runs_out_fails_the_request() {
    let (mut actor, mut store) = ready();
    store.silent = true;
    let outcome = serve(&mut actor, &mut store, Request::GetAccount(id(1)));
    assert_eq!(outcome, Err(Error::Timeout(RecvTimeoutError::Timeout)));
    assert_eq!(actor.state(), VaultState::Ready);
    assert!(!actor.is_waiting());

    let outcome = serve(&mut actor, &mut store, snapshot_request("./path", "word", true));
    assert_eq!(outcome, Err(Error::Timeout(RecvTimeoutError::Timeout)));
    assert_eq!(actor.state(), VaultState::Uninitialized);

    let action = actor.receive_message(snapshot_request("./path", "word", false));
    assert_eq!(action, Action::Ask(VaultCommand::CreateNewVault));
    let action = actor.resume(Err(RecvTimeoutError::Disconnected));
    assert_eq!(action, Action::Done(None, Err(Error::Timeout(RecvTimeoutError::Disconnected))));
    assert_eq!(TIMEOUT_MILLIS, 500);
}

#[test]
fn a_result_of_the_wrong_kind_fails_the_request() {
    let mut actor = WalletStronghold::new();
    let wrong = StrongholdResult::ReadRecord(vec![1]);
    assert_eq!(
        actor.resume(Ok(wrong.clone())),
        Action::Done(None, Err(Error::UnexpectedResult(wrong.clone())))
    );

    actor.receive_message(snapshot_request("./path", "word", false));
    assert_eq!(
        actor.resume(Ok(wrong.clone())),
        Action::Done(None, Err(Error::UnexpectedResult(wrong.clone())))
    );
    assert_eq!(actor.state(), VaultState::Uninitialized);

    actor.receive_message(snapshot_request("./path", "word", true));
    let vaults = StrongholdResult::ReadSnapshot(vec![Store::vault(1), Store::vault(2)]);
    assert_eq!(actor.resume(Ok(vaults)), Action::Ask(VaultCommand::ListIds(Store::vault(1))));
    let seed = StrongholdResult::ListIds(vec![(RecordId { bytes: [1; 24] }, seed_hint())]);
    assert_eq!(actor.resume(Ok(seed)), Action::Ask(VaultCommand::ListIds(Store::vault(2))));
    assert_eq!(actor.state(), VaultState::Bootstrapping);
    let failed = StrongholdResult::Error(String::from("corrupt"));
    assert_eq!(
        actor.resume(Ok(failed)),
        Action::Done(None, Err(Error::StrongholdError(String::from("corrupt"))))
    );
    assert_eq!(actor.state(), VaultState::Uninitialized);

    let (mut actor, _) = ready();
    assert_eq!(
        actor.receive_message(Request::GetAccounts),
        Action::Ask(VaultCommand::ListIds(Store::vault(100)))
    );
    assert_eq!(
        actor.resume(Ok(wrong.clone())),
        Action::Done(None, Err(Error::UnexpectedResult(wrong)))
    );
    assert_eq!(actor.state(), VaultState::Ready);

    actor.receive_message(Request::GetAccounts);
    let listed = StrongholdResult::ListIds(vec![(RecordId { bytes: [1; 24] }, account_hint())]);
    assert_eq!(
        actor.resume(Ok(listed.clone())),
        Action::Ask(VaultCommand::ReadData(Store::vault(100), RecordId { bytes: [1; 24] }))
    );
    assert_eq!(actor.resume(Ok(listed)), Action::Done(None, Err(Error::AccountNotFound)));
}

#[test]
fn replies_of_the_wrong_kind_are_failures() {
    let stored = || Ok(StrongholdResponse::StoredAccount);
    let refused = Error::FailedToPerformAction(String::from("StoredAccount"));
    assert_eq!(get_account(stored()), Err(refused.clone()));
    assert_eq!(get_accounts(stored()), Err(refused.clone()));
    assert_eq!(remove_account(stored()), Err(refused.clone()));
    assert_eq!(load_or_create(true, stored()), Err(refused.clone()));
    assert_eq!(load_or_create(false, stored()), Err(refused));
    assert_eq!(store_account(stored()), Ok(()));
    assert_eq!(
        store_account(Ok(StrongholdResponse::RemovedAccount)),
        Err(Error::FailedToPerformAction(String::from("RemovedAccount")))
    );
    assert_eq!(
        load_or_create(true, Ok(StrongholdResponse::CreatedSnapshot)),
        Err(Error::FailedToPerformAction(String::from("CreatedSnapshot")))
    );
    assert_eq!(
        load_or_create(false, Ok(StrongholdResponse::LoadedSnapshot)),
        Err(Error::FailedToPerformAction(String::from("LoadedSnapshot")))
    );
    assert_eq!(load_or_create(true, Ok(StrongholdResponse::LoadedSnapshot)), Ok(()));
    assert_eq!(load_or_create(false, Ok(StrongholdResponse::CreatedSnapshot)), Ok(()));
    assert_eq!(
        store_account(Err(Error::FailedToPerformAction(String::from("it broke")))),
        Err(Error::FailedToPerformAction(String::from("it broke")))
    );
    assert_eq!(
        get_account(Ok(StrongholdResponse::Accounts(vec![]))),
        Err(Error::FailedToPerformAction(String::from("Accounts")))
    );
    assert_eq!(
        get_accounts(Ok(StrongholdResponse::Account(vec![]))),
        Err(Error::FailedToPerformAction(String::from("Account")))
    );
}

#[test]
fn errors_of_the_actor_reach_the_caller_as_they_are() {
    let errors = [
        Error::Timeout(RecvTimeoutError::Timeout),
        Error::Timeout(RecvTimeoutError::Disconnected),
        Error::AccountIdMustBeString,
        Error::StrongholdError(String::from("corrupt")),
        Error::AccountNotFound,
        Error::EmptySnapshot,
        Error::UnexpectedResult(StrongholdResult::ReadRecord(vec![1])),
        Error::FailedToPerformAction(String::from("why")),
    ];
    for e in errors {
        assert_eq!(get_account(Err(e.clone())), Err(e.clone()));
        assert_eq!(get_accounts(Err(e.clone())), Err(e.clone()));
        assert_eq!(store_account(Err(e.clone())), Err(e.clone()));
        assert_eq!(remove_account(Err(e.clone())), Err(e.clone()));
        assert_eq!(load_or_create(true, Err(e.clone())), Err(e.clone()));
        assert_eq!(load_or_create(false, Err(e.clone())), Err(e.clone()));
        assert_eq!(get_account(Err(e.clone())).unwrap_err().kind(), e.kind());
    }
}

#[test]
fn a_timeout_and_a_missing_snapshot_keep_their_kind() {
    let (mut actor, mut store) = ready();
    store.silent = true;
    let outcome = serve(&mut actor, &mut store, Request::GetAccount(id(1)));
    let failure = get_account(outcome).unwrap_err();
    assert_eq!(failure, Error::Timeout(RecvTimeoutError::Timeout));
    assert_eq!(failure.kind(), ErrorKind::VaultTimeout);

    let mut actor = WalletStronghold::new();
    let outcome = serve(&mut actor, &mut store, Request::GetAccounts);
    let failure = get_accounts(outcome).unwrap_err();
    assert_eq!(failure, Error::EmptySnapshot);
    assert_eq!(failure.kind(), ErrorKind::NotFound);

    let (mut actor, mut store) = ready();
    let request = Request::StoreAccount(AccountIdentifier::Index(1), String::from("one"));
    let failure = store_account(serve(&mut actor, &mut store, request)).unwrap_err();
    assert_eq!(failure, Error::AccountIdMustBeString);
    assert_eq!(failure.kind(), ErrorKind::Validation);
}

#[test]
fn account_secrets_are_read_as_text() {
    let reply = Ok(StrongholdResponse::Account("grüße".as_bytes().to_vec()));
    assert_eq!(get_account(reply).unwrap(), "grüße");
    let reply = Ok(StrongholdResponse::Account(vec![b'a', 0xff, b'b']));
    assert_eq!(get_account(reply).unwrap(), "a\u{fffd}b");
    let reply = Ok(StrongholdResponse::Accounts(vec![b"one".to_vec(), vec![], vec![0xc3]]));
    assert_eq!(get_accounts(reply).unwrap(), vec!["one", "", "\u{fffd}"]);
}

#[test]
fn errors_have_their_words() {
    assert_eq!(
        Error::Timeout(RecvTimeoutError::Timeout).message(),
        "`timed out waiting on channel`"
    );
    assert_eq!(
        Error::Timeout(RecvTimeoutError::Disconnected).message(),
        "`channel is empty and sending half is closed`"
    );
    assert_eq!(
        Error::AccountIdMustBeString.message(),
        "must provide account id instead of string"
    );
    assert_eq!(Error::StrongholdError(String::from("bad")).message(), "`bad`");
    assert_eq!(Error::AccountNotFound.message(), "account not found");
    assert_eq!(Error::EmptySnapshot.message(), "snapshot doesn't have accounts");
    assert_eq!(
        Error::UnexpectedResult(StrongholdResult::CreatedVault(Store::vault(1))).message(),
        "unexpected stronghold response type: `CreatedVault`"
    );
    assert_eq!(
        Error::FailedToPerformAction(String::from("why")).message(),
        "failed to perform action: `why`"
    );
    assert_eq!(StrongholdResult::ListIds(vec![]).name(), "ListIds");
    assert_eq!(StrongholdResult::ReadSnapshot(vec![]).name(), "ReadSnapshot");
    assert_eq!(StrongholdResult::ReadRecord(vec![]).name(), "ReadRecord");
    assert_eq!(StrongholdResult::Error(String::new()).name(), "Error");
}

#[test]
fn vault_errors_have_their_kind() {
    assert_eq!(Error::Timeout(RecvTimeoutError::Timeout).kind(), ErrorKind::VaultTimeout);
    assert_eq!(Error::Timeout(RecvTimeoutError::Disconnected).kind(), ErrorKind::VaultTimeout);
    assert_eq!(Error::AccountIdMustBeString.kind(), ErrorKind::Validation);
    assert_eq!(Error::StrongholdError(String::from("bad")).kind(), ErrorKind::VaultProtocol);
    assert_eq!(Error::AccountNotFound.kind(), ErrorKind::NotFound);
    assert_eq!(Error::EmptySnapshot.kind(), ErrorKind::NotFound);
    assert_eq!(
        Error::UnexpectedResult(StrongholdResult::ReadRecord(vec![])).kind(),
        ErrorKind::VaultProtocol
    );
    assert_eq!(Error::FailedToPerformAction(String::new()).kind(), ErrorKind::VaultProtocol);
}

#[test]
fn a_failure_of_the_store_is_passed_on() {
    let (mut actor, _) = ready();
    actor.receive_message(Request::GetAccounts);
    let failed = StrongholdResult::Error(String::from("corrupt record"));
    assert_eq!(
        actor.resume(Ok(failed)),
        Action::Done(None, Err(Error::StrongholdError(String::from("corrupt record"))))
    );
    assert_eq!(actor.state(), VaultState::Ready);

    let mut actor = WalletStronghold::new();
    actor.receive_message(snapshot_request("./path", "word", true));
    let failed = StrongholdResult::Error(String::from("wrong password"));
    let outcome = match actor.resume(Ok(failed)) {
        Action::Done(None, outcome) => outcome,
        other => panic!("{:?}", other),
    };
    assert_eq!(outcome, Err(Error::StrongholdError(String::from("wrong password"))));
    assert_eq!(
        load_or_create(true, outcome),
        Err(Error::StrongholdError(String::from("wrong password")))
    );
}

#[test]
fn messages_of_the_store_become_results() {
    let vault = Store::vault(1);
    let record = RecordId { bytes: [2; 24] };
    assert_eq!(
        receive_response(StoreReply::ReturnRebuild(vec![vault], vec![vec![record]])),
        Some(StrongholdResult::ReadSnapshot(vec![vault]))
    );
    assert_eq!(
        receive_response(StoreReply::ReturnList(vec![(record, seed_hint())])),
        Some(StrongholdResult::ListIds(vec![(record, seed_hint())]))
    );
    assert_eq!(
        receive_response(StoreReply::ReturnCreate(vault, record)),
        Some(StrongholdResult::CreatedVault(vault))
    );
    assert_eq!(receive_response(StoreReply::ReturnInit(vault, record)), None);
    assert_eq!(
        receive_response(StoreReply::ReturnRead(vec![1, 2, 3])),
        Some(StrongholdResult::ReadRecord(vec![1, 2, 3]))
    );
    assert_eq!(
        receive_response(StoreReply::ReturnError(String::from("corrupt"))),
        Some(StrongholdResult::Error(String::from("corrupt")))
    );
}

#[test]
fn hints_are_labels_filled_up_with_zeros() {
    let hint = RecordHint::new(b"abc").unwrap();
    let mut expected = [0u8; 24];
    expected[..3].copy_from_slice(b"abc");
    assert_eq!(hint.bytes, expected);
    assert!(RecordHint::new(&[1u8; 24]).is_some());
    assert!(RecordHint::new(&[1u8; 25]).is_none());
    assert_eq!(RecordHint::new(b"").unwrap().bytes, [0u8; 24]);

    assert_eq!(seed_hint(), RecordHint::new(SEED_HINT.as_bytes()).unwrap());
    assert_eq!(account_hint(), RecordHint::new(ACCOUNT_HINT.as_bytes()).unwrap());
    assert_eq!(&seed_hint().bytes[..16], b"IOTA_WALLET_SEED");
    assert_eq!(&account_hint().bytes[..19], b"IOTA_WALLET_ACCOUNT");
    assert_ne!(seed_hint(), account_hint());
}

#[test]
fn the_last_password_of_a_path_is_kept() {
    let mut passwords = PasswordStore::new();
    assert_eq!(passwords.get_password(&String::from("a")), None);
    passwords.set_password(String::from("a"), String::from("one"));
    passwords.set_password(String::from("b"), String::from("two"));
    assert_eq!(passwords.get_password(&String::from("a")), Some(String::from("one")));
    passwords.set_password(String::from("a"), String::from("three"));
    assert_eq!(passwords.get_password(&String::from("a")), Some(String::from("three")));
    assert_eq!(passwords.get_password(&String::from("b")), Some(String::from("two")));
    assert_eq!(passwords.get_password(&String::from("c")), None);
    assert_eq!(passwords.get_password(&String::from("")), None);
}

#[test]
fn nothing_is_asked_of_the_vault_for_cryptography() {
    let account = Account::new([1u8; 32], String::from("alias"));
    assert_eq!(do_crypto(&account), Ok(()));
}

#[test]
fn keys_and_values_are_read_back() {
    let vault = VaultId { bytes: [7; 24] };
    let other = VaultId { bytes: [8; 24] };
    let record = RecordId { bytes: [9; 24] };
    assert_eq!(vault_key(&vault), vec![7u8; 24]);
    let key = record_key(&vault, &record);
    assert_eq!(key.len(), 48);
    assert_eq!(&key[..24], &[7u8; 24]);
    assert_eq!(&key[24..], &[9u8; 24]);
    assert_eq!(key_vault(&key), Some(vault));
    assert_eq!(key_vault(&vault_key(&vault)), Some(vault));
    assert_eq!(key_record(&key, &vault), Some(record));
    assert_eq!(key_record(&key, &other), None);
    assert_eq!(key_record(&vault_key(&vault), &vault), None);
    assert_eq!(key_vault(&vec![1u8; 23]), None);
    assert_eq!(key_vault(&vec![1u8; 25]), None);
    assert_eq!(key_vault(&vec![]), None);

    let value = pack(&seed_hint(), &vec![1, 2, 3]);
    assert_eq!(value.len(), 27);
    assert_eq!(&value[..24], &seed_hint().bytes);
    assert_eq!(unpack(&value), Some((seed_hint(), vec![1, 2, 3])));
    assert_eq!(unpack(&pack(&account_hint(), &vec![])), Some((account_hint(), vec![])));
    assert_eq!(unpack(&vec![0u8; 23]), None);
}

#[test]
fn vaults_and_records_are_listed_in_the_order_of_the_keys() {
    let first = VaultId { bytes: [1; 24] };
    let second = VaultId { bytes: [2; 24] };
    let a = RecordId { bytes: [10; 24] };
    let b = RecordId { bytes: [11; 24] };
    let entries = vec![
        (record_key(&second, &a), pack(&account_hint(), &vec![1])),
        (vault_key(&first), vec![]),
        (vec![5u8; 30], vec![0u8; 40]),
        (record_key(&first, &b), pack(&seed_hint(), &vec![])),
        (record_key(&second, &b), vec![0u8; 5]),
        (vault_key(&second), vec![]),
        (record_key(&first, &a), pack(&account_hint(), &vec![2])),
    ];
    let keys: Vec<Vec<u8>> = entries.iter().map(|(key, _)| key.clone()).collect();
    assert_eq!(listed_vaults(&keys), vec![second, first]);
    assert_eq!(listed_records(&entries, &first), vec![(b, seed_hint()), (a, account_hint())]);
    assert_eq!(listed_records(&entries, &second), vec![(a, account_hint())]);
    assert_eq!(listed_records(&entries, &VaultId { bytes: [3; 24] }), vec![]);
    assert!(has_vault(&vec![first, second], &second));
    assert!(!has_vault(&vec![first], &second));
}

#[test]
fn a_fresh_vault_is_none_of_the_taken_ones() {
    let mut one = [0u8; 24];
    one[1] = 1;
    assert_eq!(fresh_vault(&vec![]), Some(VaultId { bytes: one }));
    let mut high = [9u8; 24];
    high[0] = 1;
    high[1] = 255;
    let mut next = [0u8; 24];
    next[0] = 2;
    let taken = vec![VaultId { bytes: one }, VaultId { bytes: high }, VaultId { bytes: [0; 24] }];
    let fresh = fresh_vault(&taken).unwrap();
    assert_eq!(fresh, VaultId { bytes: next });
    assert!(!taken.contains(&fresh));
    assert_eq!(fresh_vault(&vec![VaultId { bytes: [255; 24] }]), None);
    let mut last = [0u8; 24];
    last[0] = 255;
    last[1] = 254;
    let mut end = [0u8; 24];
    end[0] = 255;
    end[1] = 255;
    assert_eq!(fresh_vault(&vec![VaultId { bytes: last }]), Some(VaultId { bytes: end }));
}
