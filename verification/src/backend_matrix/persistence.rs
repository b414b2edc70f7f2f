//! What the runtime keeps on this machine: the store passphrase, the session and the
//! device ID, and how all of it is wiped.
use matrix_sdk::authentication::matrix::MatrixSession;
use uuid::Uuid;
use vstd::prelude::*;

use super::errors;
use super::ids;
use super::local_files;
use crate::backend_core::error::{self, BackendError, BackendErrorCategory, BackendErrorView};
use crate::backend_platform::SecretStoreError;
use crate::paths;

verus! {

/// Whether text is a random UUID (of version 4) in its hyphenated form, in lower case.
pub open spec fn is_random_uuid(text: Seq<char>) -> bool {
    &&& text.len() == 36
    &&& forall|i: int|
        0 <= i < 36 ==> if i == 8 || i == 13 || i == 18 || i == 23 {
            #[trigger] text[i] == '-'
        } else {
            '0' <= text[i] <= '9' || 'a' <= text[i] <= 'f'
        }
    &&& text[14] == '4'
    &&& text[19] == '8' || text[19] == '9' || text[19] == 'a' || text[19] == 'b'
}

/// Calls `uuid::Uuid::new_v4` and renders the result: a random UUID in its hyphenated
/// form, in lower case. Which one it is rests on chance.
#[verifier::external_body]
fn random_uuid() -> (text: String)
    ensures
        is_random_uuid(text@),
{
    Uuid::new_v4().to_string()
}

/// The store passphrase made of a random UUID.
pub fn store_passphrase_from(uuid: &str) -> (passphrase: String)
    ensures
        passphrase@ == "pikachat-store-"@ + uuid@,
{
    let mut passphrase: String = "pikachat-store-".to_owned();
    passphrase.append(uuid);
    passphrase
}

/// A new random store passphrase.
pub fn generate_store_passphrase() -> (passphrase: String)
    ensures
        exists|uuid: Seq<char>|
            is_random_uuid(uuid) && passphrase@ == #[trigger] ("pikachat-store-"@ + uuid),
{
    let uuid = random_uuid();
    store_passphrase_from(uuid.as_str())
}

/// Where the store passphrase comes from.
#[derive(Debug)]
pub enum PassphraseSource {
    /// The passphrase file holds it.
    File(String),
    /// The secret store holds it; it is to be written to the file.
    SecretStore(String),
    /// There is none yet: one is generated, offered to the secret store and written to the
    /// file.
    Generated,
}

/// Where the store passphrase comes from, given what the file says; `None` means that the
/// secret store is to be asked.
pub fn passphrase_from_file(loaded: Result<Option<String>, BackendError>) -> (result: Result<
    Option<PassphraseSource>,
    BackendError,
>)
    ensures
        match loaded {
            Ok(Some(passphrase)) => result matches Ok(Some(PassphraseSource::File(p))) && p
                == passphrase,
            Ok(None) => result matches Ok(None),
            Err(failure) => result matches Err(e) && e == failure,
        },
{
    match loaded {
        Ok(Some(passphrase)) => Ok(Some(PassphraseSource::File(passphrase))),
        Ok(None) => Ok(None),
        Err(failure) => Err(failure),
    }
}

/// Where the store passphrase comes from, given the answer of the secret store: one is
/// generated only where the store says that it holds none, so that a store that fails is
/// never passed over.
pub fn passphrase_from_secret_store(account: &str, answer: Result<String, SecretStoreError>) -> (
    result: Result<PassphraseSource, BackendError>)
    ensures
        match answer {
            Ok(passphrase) => result == Ok::<PassphraseSource, BackendError>(
                PassphraseSource::SecretStore(passphrase),
            ),
            Err(SecretStoreError::NotFound) => result == Ok::<PassphraseSource, BackendError>(
                PassphraseSource::Generated,
            ),
            Err(failure) => result matches Err(e) && e@ == errors::secret_error(
                "get_store_passphrase"@,
                account@,
                failure,
            ),
        },
{
    match answer {
        Ok(passphrase) => Ok(PassphraseSource::SecretStore(passphrase)),
        Err(SecretStoreError::NotFound) => Ok(PassphraseSource::Generated),
        Err(failure) => Err(
            errors::map_secret_store_error("get_store_passphrase", account, failure),
        ),
    }
}

/// The answer to a request to keep a generated store passphrase in the secret store: a store
/// that fails is never passed over.
pub fn passphrase_set_answer(account: &str, answer: Result<(), SecretStoreError>) -> (result:
    Result<(), BackendError>)
    ensures
        local_files::answer_view(result) == match answer {
            Ok(_) => Ok(()),
            Err(failure) => Err(
                errors::secret_error("set_store_passphrase"@, account@, failure),
            ),
        },
{
    match answer {
        Ok(_) => Ok(()),
        Err(failure) => Err(
            errors::map_secret_store_error("set_store_passphrase", account, failure),
        ),
    }
}

/// The error of a login that left no session behind.
pub fn session_unavailable() -> (failure: BackendError)
    ensures
        failure@ == error::plain_error(
            BackendErrorCategory::Auth,
            "session_unavailable"@,
            "matrix session is unavailable after login"@,
        ),
{
    BackendError::new(
        BackendErrorCategory::Auth,
        "session_unavailable",
        "matrix session is unavailable after login",
    )
}

/// The answer to a request to persist the session.
pub fn session_set_answer(account: &str, answer: Result<(), SecretStoreError>) -> (result: Result<
    (),
    BackendError,
>)
    ensures
        local_files::answer_view(result) == match answer {
            Ok(_) => Ok(()),
            Err(failure) => Err(errors::secret_error("set_session"@, account@, failure)),
        },
{
    match answer {
        Ok(_) => Ok(()),
        Err(failure) => Err(errors::map_secret_store_error("set_session", account, failure)),
    }
}

/// What deleting a secret returns: one that is not there counts as deleted.
pub open spec fn delete_answer(
    operation: Seq<char>,
    account: Seq<char>,
    answer: Result<(), SecretStoreError>,
) -> Result<(), BackendErrorView> {
    match answer {
        Ok(_) => Ok(()),
        Err(SecretStoreError::NotFound) => Ok(()),
        Err(failure) => Err(errors::secret_error(operation, account, failure)),
    }
}

fn answer_delete(operation: &str, account: &str, answer: Result<(), SecretStoreError>) -> (result:
    Result<(), BackendError>)
    ensures
        local_files::answer_view(result) == delete_answer(operation@, account@, answer),
{
    match answer {
        Ok(_) => Ok(()),
        Err(SecretStoreError::NotFound) => Ok(()),
        Err(failure) => Err(errors::map_secret_store_error(operation, account, failure)),
    }
}

/// The answer to a request to forget the session.
pub fn clear_persisted_session(account: &str, answer: Result<(), SecretStoreError>) -> (result:
    Result<(), BackendError>)
    ensures
        local_files::answer_view(result) == delete_answer("delete_session"@, account@, answer),
{
    answer_delete("delete_session", account, answer)
}

/// The device ID of the session that `raw` encodes, or the reason why it encodes none.
pub uninterp spec fn session_outcome(raw: Seq<char>) -> Result<Seq<char>, Seq<char>>;

/// Calls `serde_json::from_str` for a `matrix_sdk::authentication::matrix::MatrixSession`. The
/// result is the device ID of that session; the reason is the text of the error.
#[verifier::external_body]
fn read_session(raw: &str) -> (result: Result<String, String>)
    ensures
        ids::parse_outcome(result) == session_outcome(raw@),
{
    match serde_json::from_str::<MatrixSession>(raw) {
        Ok(session) => Ok(session.meta.device_id.to_string()),
        Err(err) => Err(err.to_string()),
    }
}

/// A session as the secret store keeps it.
#[derive(Debug, Clone, PartialEq, Eq)]
pub struct StoredSession {
    /// The encoded session.
    pub raw: String,
    /// Device ID of the session.
    pub device_id: String,
}

/// What a [`StoredSession`] says.
#[verifier::ext_equal]
pub struct StoredSessionView {
    pub raw: Seq<char>,
    pub device_id: Seq<char>,
}

impl View for StoredSession {
    type V = StoredSessionView;

    open spec fn view(&self) -> StoredSessionView {
        StoredSessionView { raw: self.raw@, device_id: self.device_id@ }
    }
}

/// What loading a session says.
pub open spec fn session_view(result: Result<StoredSession, BackendError>) -> Result<
    StoredSessionView,
    BackendErrorView,
> {
    match result {
        Ok(session) => Ok(session@),
        Err(failure) => Err(failure@),
    }
}

/// The session that was read from `raw`, given the outcome of reading it.
pub open spec fn decoded_session(raw: Seq<char>, outcome: Result<Seq<char>, Seq<char>>) -> Result<
    StoredSessionView,
    BackendErrorView,
> {
    match outcome {
        Ok(device_id) => Ok(StoredSessionView { raw, device_id }),
        Err(reason) => Err(
            error::plain_error(
                BackendErrorCategory::Serialization,
                "session_deserialize_error"@,
                reason,
            ),
        ),
    }
}

/// The session that was read from `raw`, given the outcome of reading it.
pub fn session_from(raw: String, outcome: Result<String, String>) -> (result: Result<
    StoredSession,
    BackendError,
>)
    ensures
        session_view(result) == decoded_session(raw@, ids::parse_outcome(outcome)),
{
    match outcome {
        Ok(device_id) => Ok(StoredSession { raw, device_id }),
        Err(reason) => Err(session_deserialize_error(reason.as_str())),
    }
}

/// The persisted session, given the answer of the secret store.
pub fn load_session(account: &str, answer: Result<String, SecretStoreError>) -> (result: Result<
    StoredSession,
    BackendError,
>)
    ensures
        session_view(result) == match answer {
            Ok(raw) => decoded_session(raw@, session_outcome(raw@)),
            Err(SecretStoreError::NotFound) => Err(
                error::plain_error(
                    BackendErrorCategory::Auth,
                    "session_not_found"@,
                    "no persisted session was found for restore"@,
                ),
            ),
            Err(other) => Err(errors::secret_error("get_session"@, account@, other)),
        },
{
    match answer {
        Ok(raw) => {
            let outcome = read_session(raw.as_str());
            session_from(raw, outcome)
        },
        Err(SecretStoreError::NotFound) => Err(
            BackendError::new(
                BackendErrorCategory::Auth,
                "session_not_found",
                "no persisted session was found for restore",
            ),
        ),
        Err(other) => Err(errors::map_secret_store_error("get_session", account, other)),
    }
}

/// The error of a session that cannot be encoded.
pub fn session_serialize_error(reason: &str) -> (failure: BackendError)
    ensures
        failure@ == error::plain_error(
            BackendErrorCategory::Serialization,
            "session_serialize_error"@,
            reason@,
        ),
{
    BackendError::new(BackendErrorCategory::Serialization, "session_serialize_error", reason)
}

/// The error of a persisted session that cannot be decoded.
pub fn session_deserialize_error(reason: &str) -> (failure: BackendError)
    ensures
        failure@ == error::plain_error(
            BackendErrorCategory::Serialization,
            "session_deserialize_error"@,
            reason@,
        ),
{
    BackendError::new(BackendErrorCategory::Serialization, "session_deserialize_error", reason)
}

/// One thing to remove from this machine.
#[derive(Debug, Clone, PartialEq, Eq)]
pub enum WipeStep {
    /// The secret that holds the session.
    Session { account: String },
    /// The secret that holds the store passphrase.
    StorePassphrase { account: String },
    /// The device ID file.
    DeviceIdHint { path: String },
    /// The device ID file of former releases.
    LegacyDeviceIdHint { path: String },
    /// The data directory.
    DataDir { path: String },
    /// Nothing is left.
    Done,
}

/// What a [`WipeStep`] says.
#[verifier::ext_equal]
pub enum WipeStepView {
    Session { account: Seq<char> },
    StorePassphrase { account: Seq<char> },
    DeviceIdHint { path: Seq<char> },
    LegacyDeviceIdHint { path: Seq<char> },
    DataDir { path: Seq<char> },
    Done,
}

impl View for WipeStep {
    type V = WipeStepView;

    open spec fn view(&self) -> WipeStepView {
        match self {
            WipeStep::Session { account } => WipeStepView::Session { account: account@ },
            WipeStep::StorePassphrase { account } => WipeStepView::StorePassphrase {
                account: account@,
            },
            WipeStep::DeviceIdHint { path } => WipeStepView::DeviceIdHint { path: path@ },
            WipeStep::LegacyDeviceIdHint { path } => WipeStepView::LegacyDeviceIdHint {
                path: path@,
            },
            WipeStep::DataDir { path } => WipeStepView::DataDir { path: path@ },
            WipeStep::Done => WipeStepView::Done,
        }
    }
}

/// How a removal went.
#[derive(Debug, Clone, PartialEq, Eq)]
pub enum Removal {
    /// It is gone.
    Done,
    /// It was not there.
    Missing,
    /// The secret store failed.
    SecretFailed(SecretStoreError),
    /// The file system failed, for this reason.
    FileFailed(String),
}

/// What there is to remove, in order.
pub open spec fn wipe_steps(homeserver: Seq<char>, data_dir: Seq<char>) -> Seq<WipeStepView> {
    seq![
        WipeStepView::Session { account: local_files::session_account(homeserver) },
        WipeStepView::StorePassphrase {
            account: local_files::store_passphrase_account(homeserver),
        },
        WipeStepView::DeviceIdHint { path: local_files::device_id_hint_path(data_dir) },
        WipeStepView::LegacyDeviceIdHint {
            path: paths::joined(data_dir, ".pikachat-device-id"@),
        },
        WipeStepView::DataDir { path: data_dir },
        WipeStepView::Done,
    ]
}

/// A wipe reaches everything that the runtime keeps: both secrets of the homeserver, the
/// device ID file, and the data directory with the store passphrase and the former device ID
/// file in it.
pub proof fn lemma_wipe_reaches_everything(homeserver: Seq<char>, data_dir: Seq<char>)
    ensures
        ({
            let steps = wipe_steps(homeserver, data_dir);
            &&& steps.contains(
                WipeStepView::Session { account: local_files::session_account(homeserver) },
            )
            &&& steps.contains(
                WipeStepView::StorePassphrase {
                    account: local_files::store_passphrase_account(homeserver),
                },
            )
            &&& steps.contains(
                WipeStepView::DeviceIdHint { path: local_files::device_id_hint_path(data_dir) },
            )
            &&& steps.contains(WipeStepView::DataDir { path: data_dir })
            &&& steps.last() is Done
            &&& forall|i: int| 0 <= i < steps.len() ==> wipe_position(#[trigger] steps[i]) == i
            &&& paths::lies_below(
                paths::joined(data_dir, ".pikachat-store-passphrase"@),
                data_dir,
            )
            &&& paths::lies_below(paths::joined(data_dir, ".pikachat-device-id"@), data_dir)
        }),
{
    let steps = wipe_steps(homeserver, data_dir);
    reveal_strlit(".pikachat-store-passphrase");
    reveal_strlit(".pikachat-device-id");
    assert(steps[0] is Session && steps[1] is StorePassphrase && steps[2] is DeviceIdHint);
    assert(steps[4] is DataDir);
}

/// The first thing to remove.
pub fn first_wipe_step(homeserver: &str) -> (step: WipeStep)
    ensures
        step@ == (WipeStepView::Session { account: local_files::session_account(homeserver@) }),
{
    WipeStep::Session { account: local_files::session_account_for_homeserver(homeserver) }
}

/// The error of a removal, nothing where it is gone or was not there.
pub open spec fn removal_error(step: WipeStepView, removal: Removal) -> Option<BackendErrorView> {
    match removal {
        Removal::Done | Removal::Missing => None,
        Removal::SecretFailed(SecretStoreError::NotFound) => None,
        Removal::SecretFailed(failure) => match step {
            WipeStepView::Session { account } => Some(
                errors::secret_error("delete_session"@, account, failure),
            ),
            WipeStepView::StorePassphrase { account } => Some(
                errors::secret_error("delete_store_passphrase"@, account, failure),
            ),
            _ => None,
        },
        Removal::FileFailed(reason) => match step {
            WipeStepView::DeviceIdHint { path } => Some(
                local_files::file_error(
                    "device_id_hint_file_delete_error"@,
                    "failed deleting device-id hint file"@,
                    path,
                    reason@,
                ),
            ),
            WipeStepView::LegacyDeviceIdHint { path } => Some(
                local_files::file_error(
                    "device_id_hint_file_delete_error"@,
                    "failed deleting legacy device-id hint file"@,
                    path,
                    reason@,
                ),
            ),
            WipeStepView::DataDir { path } => Some(
                local_files::file_error(
                    "store_reset_failed"@,
                    "failed clearing matrix data dir"@,
                    path,
                    reason@,
                ),
            ),
            _ => None,
        },
    }
}

fn removal_failure(step: &WipeStep, removal: Removal) -> (failure: Option<BackendError>)
    ensures
        match failure {
            Some(failure) => removal_error(step@, removal) == Some(failure@),
            None => removal_error(step@, removal) is None,
        },
{
    match removal {
        Removal::Done | Removal::Missing => None,
        Removal::SecretFailed(SecretStoreError::NotFound) => None,
        Removal::SecretFailed(failure) => match step {
            WipeStep::Session { account } => Some(
                errors::map_secret_store_error("delete_session", account.as_str(), failure),
            ),
            WipeStep::StorePassphrase { account } => Some(
                errors::map_secret_store_error(
                    "delete_store_passphrase",
                    account.as_str(),
                    failure,
                ),
            ),
            _ => None,
        },
        Removal::FileFailed(reason) => match step {
            WipeStep::DeviceIdHint { path } => Some(
                local_files::file_failure(
                    "device_id_hint_file_delete_error",
                    "failed deleting device-id hint file",
                    path.as_str(),
                    reason.as_str(),
                ),
            ),
            WipeStep::LegacyDeviceIdHint { path } => Some(
                local_files::file_failure(
                    "device_id_hint_file_delete_error",
                    "failed deleting legacy device-id hint file",
                    path.as_str(),
                    reason.as_str(),
                ),
            ),
            WipeStep::DataDir { path } => Some(
                local_files::file_failure(
                    "store_reset_failed",
                    "failed clearing matrix data dir",
                    path.as_str(),
                    reason.as_str(),
                ),
            ),
            _ => None,
        },
    }
}

/// Position of a step among [`wipe_steps`].
pub open spec fn wipe_position(step: WipeStepView) -> int {
    match step {
        WipeStepView::Session { .. } => 0,
        WipeStepView::StorePassphrase { .. } => 1,
        WipeStepView::DeviceIdHint { .. } => 2,
        WipeStepView::LegacyDeviceIdHint { .. } => 3,
        WipeStepView::DataDir { .. } => 4,
        WipeStepView::Done => 5,
    }
}

/// The thing to remove after `step`, given how its removal went: a failure ends the wipe.
pub fn next_wipe_step(step: &WipeStep, removal: Removal, homeserver: &str, data_dir: &str) -> (
    result: Result<WipeStep, BackendError>)
    ensures
        match removal_error(step@, removal) {
            Some(failure) => result matches Err(e) && e@ == failure,
            None => result matches Ok(next) && next@ == wipe_steps(homeserver@, data_dir@)[if step
                is Done {
                5int
            } else {
                wipe_position(step@) + 1
            }],
        },
{
    match removal_failure(step, removal) {
        Some(failure) => return Err(failure),
        None => {},
    }
    let next = match step {
        WipeStep::Session { .. } => WipeStep::StorePassphrase {
            account: local_files::store_passphrase_account_for_homeserver(homeserver),
        },
        WipeStep::StorePassphrase { .. } => WipeStep::DeviceIdHint {
            path: local_files::device_id_hint_file_path(data_dir),
        },
        WipeStep::DeviceIdHint { .. } => WipeStep::LegacyDeviceIdHint {
            path: local_files::legacy_device_id_hint_file_path(data_dir),
        },
        WipeStep::LegacyDeviceIdHint { .. } => WipeStep::DataDir { path: data_dir.to_owned() },
        WipeStep::DataDir { .. } => WipeStep::Done,
        WipeStep::Done => WipeStep::Done,
    };
    Ok(next)
}

} // verus!
