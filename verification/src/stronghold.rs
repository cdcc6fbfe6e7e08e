//! The secure-vault actor: the protocol between callers, the actor and the
//! secure store.
//!
//! The actor owns the identifiers of the vaults and the credential cache. It
//! is written as a state machine: a request or a result of the secure store
//! goes in, and what to do next comes out. Whoever drives the machine sends
//! the commands to the secure store and waits for their results, for at
//! most [`TIMEOUT_MILLIS`] each.

use crate::account::{Account, AccountIdentifier};
use crate::error::ErrorKind;
use vstd::prelude::*;
use vstd::string::*;

pub mod actor;
pub mod layout;
pub mod model;
pub mod passwords;
pub mod types;

pub use self::actor::{VaultState, WalletStronghold};

pub use self::passwords::PasswordStore;
pub use self::types::{
    account_hint, seed_hint, RecordHint, RecordId, VaultId, ACCOUNT_HINT, SEED_HINT, TIMEOUT_MILLIS,
};

verus! {

/// Why no result of the secure store arrived.
#[derive(Clone, Copy, Debug, PartialEq, Eq, Structural)]
pub enum RecvTimeoutError {
    /// The bounded wait ran out.
    Timeout,
    /// The secure store has gone away.
    Disconnected,
}

/// A result that the secure store sends back to the actor.
#[derive(Clone, Debug, PartialEq, Eq)]
pub enum StrongholdResult {
    /// The data of the record that was read.
    ReadRecord(Vec<u8>),
    /// The records of the vault that was listed, each with its hint.
    ListIds(Vec<(RecordId, RecordHint)>),
    /// The vault that was created.
    CreatedVault(VaultId),
    /// The vaults of the snapshot that was read.
    ReadSnapshot(Vec<VaultId>),
    /// The store failed, for the reason given.
    Error(String),
}

/// What a [`StrongholdResult`] stands for.
pub enum StrongholdResultView {
    ReadRecord(Seq<u8>),
    ListIds(Seq<(RecordId, RecordHint)>),
    CreatedVault(VaultId),
    ReadSnapshot(Seq<VaultId>),
    Error(Seq<char>),
}

impl View for StrongholdResult {
    type V = StrongholdResultView;

    open spec fn view(&self) -> StrongholdResultView {
        match *self {
            StrongholdResult::ReadRecord(record) => StrongholdResultView::ReadRecord(record@),
            StrongholdResult::ListIds(records) => StrongholdResultView::ListIds(records@),
            StrongholdResult::CreatedVault(vault) => StrongholdResultView::CreatedVault(vault),
            StrongholdResult::ReadSnapshot(vaults) => StrongholdResultView::ReadSnapshot(vaults@),
            StrongholdResult::Error(message) => StrongholdResultView::Error(message@),
        }
    }
}

/// What can go wrong between a caller and the vault.
#[derive(Clone, Debug, PartialEq, Eq)]
pub enum Error {
    /// No result of the secure store arrived in time.
    Timeout(RecvTimeoutError),
    /// The account was named by its index where its id is needed.
    AccountIdMustBeString,
    /// The secure store reported a failure.
    StrongholdError(String),
    /// The record of the account is absent.
    AccountNotFound,
    /// No accounts vault is resolved.
    EmptySnapshot,
    /// The secure store answered with a result of the wrong kind.
    UnexpectedResult(StrongholdResult),
    /// The actor failed the request, or answered it with the wrong response.
    FailedToPerformAction(String),
}

/// What an [`Error`] stands for.
pub enum ErrorView {
    Timeout(RecvTimeoutError),
    AccountIdMustBeString,
    StrongholdError(Seq<char>),
    AccountNotFound,
    EmptySnapshot,
    UnexpectedResult(StrongholdResultView),
    FailedToPerformAction(Seq<char>),
}

impl View for Error {
    type V = ErrorView;

    open spec fn view(&self) -> ErrorView {
        match *self {
            Error::Timeout(e) => ErrorView::Timeout(e),
            Error::AccountIdMustBeString => ErrorView::AccountIdMustBeString,
            Error::StrongholdError(message) => ErrorView::StrongholdError(message@),
            Error::AccountNotFound => ErrorView::AccountNotFound,
            Error::EmptySnapshot => ErrorView::EmptySnapshot,
            Error::UnexpectedResult(result) => ErrorView::UnexpectedResult(result@),
            Error::FailedToPerformAction(message) => ErrorView::FailedToPerformAction(message@),
        }
    }
}

/// A request of a caller to the actor.
#[derive(Clone, Debug, PartialEq, Eq)]
pub enum Request {
    /// Open the secret store at a path with a password.
    LoadSnapshot(String, String),
    /// Create a fresh secret store for a path with a password.
    CreateSnapshot(String, String),
    /// Read the secret of an account.
    GetAccount(AccountIdentifier),
    /// Read the secrets of all accounts.
    GetAccounts,
    /// Write the secret of an account, over what is stored for it.
    StoreAccount(AccountIdentifier, String),
    /// Delete the secret of an account, if one is stored.
    RemoveAccount(AccountIdentifier),
}

/// The answer of the actor to a request that it could serve.
#[derive(Clone, Debug, PartialEq, Eq)]
pub enum StrongholdResponse {
    /// The secrets of all accounts.
    Accounts(Vec<Vec<u8>>),
    /// The secret of the account.
    Account(Vec<u8>),
    /// The secret was handed to the secure store.
    StoredAccount,
    /// The secure store was told to delete the secret.
    RemovedAccount,
    /// The snapshot is loaded and both vaults are resolved.
    LoadedSnapshot,
    /// The snapshot is created and both vaults are resolved.
    CreatedSnapshot,
}

/// The data of some records, one after the other.
pub open spec fn records_view(records: Seq<Vec<u8>>) -> Seq<Seq<u8>> {
    records.map_values(|record: Vec<u8>| record@)
}

/// What a [`StrongholdResponse`] stands for.
pub enum StrongholdResponseView {
    Accounts(Seq<Seq<u8>>),
    Account(Seq<u8>),
    StoredAccount,
    RemovedAccount,
    LoadedSnapshot,
    CreatedSnapshot,
}

impl View for StrongholdResponse {
    type V = StrongholdResponseView;

    open spec fn view(&self) -> StrongholdResponseView {
        match *self {
            StrongholdResponse::Accounts(accounts) => StrongholdResponseView::Accounts(
                records_view(accounts@),
            ),
            StrongholdResponse::Account(account) => StrongholdResponseView::Account(account@),
            StrongholdResponse::StoredAccount => StrongholdResponseView::StoredAccount,
            StrongholdResponse::RemovedAccount => StrongholdResponseView::RemovedAccount,
            StrongholdResponse::LoadedSnapshot => StrongholdResponseView::LoadedSnapshot,
            StrongholdResponse::CreatedSnapshot => StrongholdResponseView::CreatedSnapshot,
        }
    }
}

/// A command of the actor to the secure store.
#[derive(Clone, Debug, PartialEq, Eq)]
pub enum VaultCommand {
    /// Read the snapshot at a path (second) with a password (first). The
    /// store answers with the vaults of the snapshot.
    ReadSnapshot(String, String),
    /// List the records of a vault with their hints.
    ListIds(VaultId),
    /// Create a vault. The store answers with its identifier.
    CreateNewVault,
    /// Read a record.
    ReadData(VaultId, RecordId),
    /// Write a record with a hint, over what it held. No answer is awaited.
    WriteData(VaultId, RecordId, Vec<u8>, RecordHint),
    /// Delete a record, if it is there. No answer is awaited.
    RevokeData(VaultId, RecordId),
}

/// What a [`VaultCommand`] stands for.
pub enum VaultCommandView {
    ReadSnapshot(Seq<char>, Seq<char>),
    ListIds(VaultId),
    CreateNewVault,
    ReadData(VaultId, RecordId),
    WriteData(VaultId, RecordId, Seq<u8>, RecordHint),
    RevokeData(VaultId, RecordId),
}

impl View for VaultCommand {
    type V = VaultCommandView;

    open spec fn view(&self) -> VaultCommandView {
        match *self {
            VaultCommand::ReadSnapshot(password, path) => VaultCommandView::ReadSnapshot(
                password@,
                path@,
            ),
            VaultCommand::ListIds(vault) => VaultCommandView::ListIds(vault),
            VaultCommand::CreateNewVault => VaultCommandView::CreateNewVault,
            VaultCommand::ReadData(vault, record) => VaultCommandView::ReadData(vault, record),
            VaultCommand::WriteData(vault, record, data, hint) => VaultCommandView::WriteData(
                vault,
                record,
                data@,
                hint,
            ),
            VaultCommand::RevokeData(vault, record) => VaultCommandView::RevokeData(vault, record),
        }
    }
}

/// What the actor wants done next.
#[derive(Debug, PartialEq, Eq)]
pub enum Action {
    /// Send the command to the secure store, wait for its result and hand
    /// it to [`WalletStronghold::resume`].
    Ask(VaultCommand),
    /// The request is over. Send the command, if there is one, to the secure
    /// store without waiting, and answer the caller.
    Done(Option<VaultCommand>, Result<StrongholdResponse, Error>),
}

/// What an [`Action`] stands for.
pub enum ActionView {
    Ask(VaultCommandView),
    Done(Option<VaultCommandView>, Result<StrongholdResponseView, ErrorView>),
}

impl View for Action {
    type V = ActionView;

    open spec fn view(&self) -> ActionView {
        match *self {
            Action::Ask(command) => ActionView::Ask(command@),
            Action::Done(command, outcome) => ActionView::Done(
                match command {
                    Some(c) => Some(c@),
                    None => None,
                },
                match outcome {
                    Ok(response) => Ok(response@),
                    Err(e) => Err(e@),
                },
            ),
        }
    }
}

/// A message of the secure store, as it arrives from its channel.
#[derive(Clone, Debug)]
pub enum StoreReply {
    /// A snapshot was read: its vaults, and the records of each.
    ReturnRebuild(Vec<VaultId>, Vec<Vec<RecordId>>),
    /// The records of a vault.
    ReturnList(Vec<(RecordId, RecordHint)>),
    /// A vault was created, with a first record.
    ReturnCreate(VaultId, RecordId),
    /// A record was initialised.
    ReturnInit(VaultId, RecordId),
    /// The data of a record.
    ReturnRead(Vec<u8>),
    /// The store failed, for the reason given.
    ReturnError(String),
}

/// What the actor is told of a message of the secure store.
pub open spec fn spec_receive_response(msg: StoreReply) -> Option<StrongholdResultView> {
    match msg {
        StoreReply::ReturnRebuild(vaults, _) => Some(StrongholdResultView::ReadSnapshot(vaults@)),
        StoreReply::ReturnList(records) => Some(StrongholdResultView::ListIds(records@)),
        StoreReply::ReturnCreate(vault, _) => Some(StrongholdResultView::CreatedVault(vault)),
        StoreReply::ReturnInit(_, _) => None,
        StoreReply::ReturnRead(record) => Some(StrongholdResultView::ReadRecord(record@)),
        StoreReply::ReturnError(message) => Some(StrongholdResultView::Error(message@)),
    }
}

/// Turns a message of the secure store into the result that the actor
/// waits for. The initialisation of a record is no result: nothing is
/// passed on for it.
pub fn receive_response(msg: StoreReply) -> (r: Option<StrongholdResult>)
    ensures
        r.is_some() <==> spec_receive_response(msg).is_some(),
        r matches Some(result) ==> Some(result@) == spec_receive_response(msg),
{
    match msg {
        StoreReply::ReturnRebuild(vaults, _) => Some(StrongholdResult::ReadSnapshot(vaults)),
        StoreReply::ReturnList(records) => Some(StrongholdResult::ListIds(records)),
        StoreReply::ReturnCreate(vault, _) => Some(StrongholdResult::CreatedVault(vault)),
        StoreReply::ReturnInit(_, _) => None,
        StoreReply::ReturnRead(record) => Some(StrongholdResult::ReadRecord(record)),
        StoreReply::ReturnError(message) => Some(StrongholdResult::Error(message)),
    }
}

/// The record that holds the secret of the account with the identifier
/// `id`: it is named by the first 24 bytes of the identifier.
pub open spec fn record_id_of(id: [u8; 32]) -> RecordId {
    RecordId {
        bytes: [
            id[0], id[1], id[2], id[3], id[4], id[5], id[6], id[7],
            id[8], id[9], id[10], id[11], id[12], id[13], id[14], id[15],
            id[16], id[17], id[18], id[19], id[20], id[21], id[22], id[23],
        ],
    }
}

/// The record of an account, or why the account is not named well enough.
pub open spec fn spec_account_id_to_record_id(account_id: AccountIdentifier) -> Result<
    RecordId,
    ErrorView,
> {
    match account_id {
        AccountIdentifier::Id(id) => Ok(record_id_of(id)),
        AccountIdentifier::Index(_) => Err(ErrorView::AccountIdMustBeString),
    }
}

/// Names the record that holds the secret of an account. Only the opaque
/// identifier of an account names its record: an index is refused.
pub fn account_id_to_record_id(account_id: AccountIdentifier) -> (r: Result<RecordId, Error>)
    ensures
        r is Ok <==> account_id is Id,
        r matches Ok(record) ==> Ok::<RecordId, ErrorView>(record) == spec_account_id_to_record_id(
            account_id,
        ),
        r matches Err(e) ==> Err::<RecordId, ErrorView>(e@) == spec_account_id_to_record_id(
            account_id,
        ),
{
    match account_id {
        AccountIdentifier::Id(id) => {
            let mut bytes: [u8; 24] = [0u8; 24];
            let mut i: usize = 0;
            while i < 24
                invariant
                    i <= 24,
                    forall|j: int| 0 <= j < i ==> bytes[j] == id[j],
                decreases 24 - i,
            {
                bytes[i] = id[i];
                i += 1;
            }
            assert(bytes =~= record_id_of(id).bytes);
            Ok(RecordId { bytes })
        },
        AccountIdentifier::Index(_) => Err(Error::AccountIdMustBeString),
    }
}

impl RecvTimeoutError {
    /// The words for this failure.
    pub open spec fn spec_message(self) -> Seq<char> {
        match self {
            RecvTimeoutError::Timeout => "timed out waiting on channel"@,
            RecvTimeoutError::Disconnected => "channel is empty and sending half is closed"@,
        }
    }

    /// The words for this failure.
    pub fn message(&self) -> (r: String)
        ensures
            r@ == self.spec_message(),
    {
        match self {
            RecvTimeoutError::Timeout => String::from_str("timed out waiting on channel"),
            RecvTimeoutError::Disconnected => String::from_str(
                "channel is empty and sending half is closed",
            ),
        }
    }
}

impl StrongholdResultView {
    /// The name of the kind of this result.
    pub open spec fn name(self) -> Seq<char> {
        match self {
            StrongholdResultView::ReadRecord(_) => "ReadRecord"@,
            StrongholdResultView::ListIds(_) => "ListIds"@,
            StrongholdResultView::CreatedVault(_) => "CreatedVault"@,
            StrongholdResultView::ReadSnapshot(_) => "ReadSnapshot"@,
            StrongholdResultView::Error(_) => "Error"@,
        }
    }
}

impl StrongholdResult {
    /// The name of the kind of this result.
    pub fn name(&self) -> (r: String)
        ensures
            r@ == self@.name(),
    {
        match self {
            StrongholdResult::ReadRecord(_) => String::from_str("ReadRecord"),
            StrongholdResult::ListIds(_) => String::from_str("ListIds"),
            StrongholdResult::CreatedVault(_) => String::from_str("CreatedVault"),
            StrongholdResult::ReadSnapshot(_) => String::from_str("ReadSnapshot"),
            StrongholdResult::Error(_) => String::from_str("Error"),
        }
    }
}

impl StrongholdResponseView {
    /// The name of the kind of this response.
    pub open spec fn name(self) -> Seq<char> {
        match self {
            StrongholdResponseView::Accounts(_) => "Accounts"@,
            StrongholdResponseView::Account(_) => "Account"@,
            StrongholdResponseView::StoredAccount => "StoredAccount"@,
            StrongholdResponseView::RemovedAccount => "RemovedAccount"@,
            StrongholdResponseView::LoadedSnapshot => "LoadedSnapshot"@,
            StrongholdResponseView::CreatedSnapshot => "CreatedSnapshot"@,
        }
    }
}

impl StrongholdResponse {
    /// The name of the kind of this response.
    pub fn name(&self) -> (r: String)
        ensures
            r@ == self@.name(),
    {
        match self {
            StrongholdResponse::Accounts(_) => String::from_str("Accounts"),
            StrongholdResponse::Account(_) => String::from_str("Account"),
            StrongholdResponse::StoredAccount => String::from_str("StoredAccount"),
            StrongholdResponse::RemovedAccount => String::from_str("RemovedAccount"),
            StrongholdResponse::LoadedSnapshot => String::from_str("LoadedSnapshot"),
            StrongholdResponse::CreatedSnapshot => String::from_str("CreatedSnapshot"),
        }
    }
}

/// `text` between two backticks, behind `prefix`.
pub open spec fn quoted(prefix: Seq<char>, text: Seq<char>) -> Seq<char> {
    prefix + "`"@ + text + "`"@
}

/// Puts `text` between two backticks, behind `prefix`.
pub fn quote(prefix: &str, text: &str) -> (r: String)
    ensures
        r@ == quoted(prefix@, text@),
{
    let mut out = String::from_str(prefix);
    out.append("`");
    out.append(text);
    out.append("`");
    out
}

impl ErrorView {
    /// The words for this error.
    pub open spec fn message(self) -> Seq<char> {
        match self {
            ErrorView::Timeout(e) => quoted(""@, e.spec_message()),
            ErrorView::AccountIdMustBeString => "must provide account id instead of string"@,
            ErrorView::StrongholdError(message) => quoted(""@, message),
            ErrorView::AccountNotFound => "account not found"@,
            ErrorView::EmptySnapshot => "snapshot doesn't have accounts"@,
            ErrorView::UnexpectedResult(result) => quoted(
                "unexpected stronghold response type: "@,
                result.name(),
            ),
            ErrorView::FailedToPerformAction(message) => quoted(
                "failed to perform action: "@,
                message,
            ),
        }
    }
}

impl ErrorView {
    /// The class of this error.
    pub open spec fn kind(self) -> ErrorKind {
        match self {
            ErrorView::Timeout(_) => ErrorKind::VaultTimeout,
            ErrorView::AccountIdMustBeString => ErrorKind::Validation,
            ErrorView::StrongholdError(_) => ErrorKind::VaultProtocol,
            ErrorView::AccountNotFound => ErrorKind::NotFound,
            ErrorView::EmptySnapshot => ErrorKind::NotFound,
            ErrorView::UnexpectedResult(_) => ErrorKind::VaultProtocol,
            ErrorView::FailedToPerformAction(_) => ErrorKind::VaultProtocol,
        }
    }
}

impl Error {
    /// The class of this error. A wait that ran out is told apart from
    /// every other failure of the vault.
    pub fn kind(&self) -> (k: ErrorKind)
        ensures
            k == self@.kind(),
    {
        match self {
            Error::Timeout(_) => ErrorKind::VaultTimeout,
            Error::AccountIdMustBeString => ErrorKind::Validation,
            Error::StrongholdError(_) => ErrorKind::VaultProtocol,
            Error::AccountNotFound => ErrorKind::NotFound,
            Error::EmptySnapshot => ErrorKind::NotFound,
            Error::UnexpectedResult(_) => ErrorKind::VaultProtocol,
            Error::FailedToPerformAction(_) => ErrorKind::VaultProtocol,
        }
    }

    /// The words for this error.
    pub fn message(&self) -> (r: String)
        ensures
            r@ == self@.message(),
    {
        match self {
            Error::Timeout(e) => {
                let text = e.message();
                quote("", text.as_str())
            },
            Error::AccountIdMustBeString => String::from_str(
                "must provide account id instead of string",
            ),
            Error::StrongholdError(message) => quote("", message.as_str()),
            Error::AccountNotFound => String::from_str("account not found"),
            Error::EmptySnapshot => String::from_str("snapshot doesn't have accounts"),
            Error::UnexpectedResult(result) => {
                let name = result.name();
                quote("unexpected stronghold response type: ", name.as_str())
            },
            Error::FailedToPerformAction(message) => quote(
                "failed to perform action: ",
                message.as_str(),
            ),
        }
    }
}

/// The text that `String::from_utf8_lossy` makes of some bytes.
pub uninterp spec fn utf8_lossy(bytes: Seq<u8>) -> Seq<char>;

/// Calls `String::from_utf8_lossy` of std.
///
/// The contract claims that the text depends on the bytes alone, and that
/// bytes which are valid UTF-8 come back as the text they encode.
#[verifier::external_body]
fn string_from_utf8_lossy(bytes: &Vec<u8>) -> (text: String)
    ensures
        text@ == utf8_lossy(bytes@),
        vstd::utf8::valid_utf8(bytes@) ==> text@ == vstd::utf8::decode_utf8(bytes@),
{
    String::from_utf8_lossy(bytes).into_owned()
}

/// The request that opens the secret store at `snapshot_path`: a snapshot
/// that exists is loaded, one that does not is created.
pub fn snapshot_request(snapshot_path: &str, password: &str, exists: bool) -> (r: Request)
    ensures
        exists ==> (r matches Request::LoadSnapshot(path, word) && path@ == snapshot_path@
            && word@ == password@),
        !exists ==> (r matches Request::CreateSnapshot(path, word) && path@ == snapshot_path@
            && word@ == password@),
{
    if exists {
        Request::LoadSnapshot(String::from_str(snapshot_path), String::from_str(password))
    } else {
        Request::CreateSnapshot(String::from_str(snapshot_path), String::from_str(password))
    }
}

/// What a caller makes of a reply that is not the awaited response: the
/// error of the actor as it is, or, for a response of the wrong kind,
/// `FailedToPerformAction` with the name of that kind.
pub open spec fn refused(reply: Result<StrongholdResponse, Error>) -> ErrorView {
    match reply {
        Ok(response) => ErrorView::FailedToPerformAction(response@.name()),
        Err(e) => e@,
    }
}

/// Makes the error of a reply that is not the awaited response. An error
/// of the actor is handed on as it is.
fn refuse(reply: Result<StrongholdResponse, Error>) -> (e: Error)
    ensures
        e@ == refused(reply),
        reply matches Err(failure) ==> e == failure,
{
    match reply {
        Ok(response) => Error::FailedToPerformAction(response.name()),
        Err(e) => e,
    }
}

/// Reads the reply to the request of [`snapshot_request`]: loading is
/// answered by `LoadedSnapshot`, creating by `CreatedSnapshot`. An error of
/// the actor reaches the caller as it is; a response of another kind is a
/// failure of its own.
pub fn load_or_create(exists: bool, reply: Result<StrongholdResponse, Error>) -> (r: Result<
    (),
    Error,
>)
    ensures
        r is Ok <==> ((exists && reply matches Ok(StrongholdResponse::LoadedSnapshot)) || (!exists
            && reply matches Ok(StrongholdResponse::CreatedSnapshot))),
        r matches Err(e) ==> e@ == refused(reply),
        reply matches Err(failure) ==> r == Err::<(), Error>(failure),
{
    match reply {
        Ok(StrongholdResponse::LoadedSnapshot) if exists => Ok(()),
        Ok(StrongholdResponse::CreatedSnapshot) if !exists => Ok(()),
        other => Err(refuse(other)),
    }
}

/// Nothing is asked of the vault for cryptography yet: this succeeds.
pub fn do_crypto(account: &Account) -> (r: Result<(), Error>)
    ensures
        r is Ok,
{
    Ok(())
}

/// The texts of some records.
pub open spec fn texts_of(records: Seq<Seq<u8>>) -> Seq<Seq<char>> {
    records.map_values(|record: Seq<u8>| utf8_lossy(record))
}

/// What some strings stand for.
pub open spec fn texts_view(texts: Seq<String>) -> Seq<Seq<char>> {
    texts.map_values(|text: String| text@)
}

/// Reads the reply to `GetAccounts`: the text of each account secret, in
/// the order of the reply. An error of the actor reaches the caller as it
/// is; a response of another kind is a failure of its own.
pub fn get_accounts(reply: Result<StrongholdResponse, Error>) -> (r: Result<Vec<String>, Error>)
    ensures
        r is Ok <==> reply matches Ok(StrongholdResponse::Accounts(_)),
        r matches Ok(texts) ==> (reply matches Ok(StrongholdResponse::Accounts(records))
            && texts_view(texts@) == texts_of(records_view(records@))),
        r matches Err(e) ==> e@ == refused(reply),
        reply matches Err(failure) ==> r == Err::<Vec<String>, Error>(failure),
{
    match reply {
        Ok(StrongholdResponse::Accounts(accounts)) => {
            let mut texts: Vec<String> = Vec::new();
            let mut i: usize = 0;
            while i < accounts.len()
                invariant
                    i <= accounts.len(),
                    texts.len() == i,
                    forall|j: int| 0 <= j < i ==> (#[trigger] texts[j])@ == utf8_lossy(accounts[j]@),
                decreases accounts.len() - i,
            {
                texts.push(string_from_utf8_lossy(&accounts[i]));
                i += 1;
            }
            assert(texts_view(texts@) =~= texts_of(records_view(accounts@)));
            Ok(texts)
        },
        other => Err(refuse(other)),
    }
}

/// Reads the reply to `GetAccount`: the text of the account secret. A
/// secret that was stored as a text is read back as that text. An error of
/// the actor reaches the caller as it is, so that an account that is not
/// there is reported as `AccountNotFound`; a response of another kind is a
/// failure of its own.
pub fn get_account(reply: Result<StrongholdResponse, Error>) -> (r: Result<String, Error>)
    ensures
        r is Ok <==> reply matches Ok(StrongholdResponse::Account(_)),
        r matches Ok(text) ==> (reply matches Ok(StrongholdResponse::Account(record)) && text@
            == utf8_lossy(record@)),
        r matches Ok(text) ==> (reply matches Ok(StrongholdResponse::Account(record))
            && forall|secret: Seq<char>|
            record@ == #[trigger] vstd::utf8::encode_utf8(secret) ==> text@ == secret),
        r matches Err(e) ==> e@ == refused(reply),
        reply matches Err(failure) ==> r == Err::<String, Error>(failure),
{
    broadcast use {vstd::utf8::encode_utf8_valid_utf8, vstd::utf8::encode_utf8_decode_utf8};

    match reply {
        Ok(StrongholdResponse::Account(account)) => Ok(string_from_utf8_lossy(&account)),
        other => Err(refuse(other)),
    }
}

/// Reads the reply to `StoreAccount`. An error of the actor reaches the
/// caller as it is; a response of another kind is a failure of its own.
pub fn store_account(reply: Result<StrongholdResponse, Error>) -> (r: Result<(), Error>)
    ensures
        r is Ok <==> reply matches Ok(StrongholdResponse::StoredAccount),
        r matches Err(e) ==> e@ == refused(reply),
        reply matches Err(failure) ==> r == Err::<(), Error>(failure),
{
    match reply {
        Ok(StrongholdResponse::StoredAccount) => Ok(()),
        other => Err(refuse(other)),
    }
}

/// Reads the reply to `RemoveAccount`. An error of the actor reaches the
/// caller as it is; a response of another kind is a failure of its own.
pub fn remove_account(reply: Result<StrongholdResponse, Error>) -> (r: Result<(), Error>)
    ensures
        r is Ok <==> reply matches Ok(StrongholdResponse::RemovedAccount),
        r matches Err(e) ==> e@ == refused(reply),
        reply matches Err(failure) ==> r == Err::<(), Error>(failure),
{
    match reply {
        Ok(StrongholdResponse::RemovedAccount) => Ok(()),
        other => Err(refuse(other)),
    }
}

} // verus!
