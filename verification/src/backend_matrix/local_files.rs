//! Names of the secrets and files that the runtime keeps, and what their contents say.
use vstd::prelude::*;

use crate::backend_core::error::{self, BackendError, BackendErrorCategory, BackendErrorView};
use crate::paths;
use crate::text;

verus! {

/// Account of a homeserver's store passphrase in the secret store.
pub open spec fn store_passphrase_account(homeserver: Seq<char>) -> Seq<char> {
    "store-passphrase:"@ + homeserver
}

/// Account of a homeserver's store passphrase in the secret store.
pub fn store_passphrase_account_for_homeserver(homeserver: &str) -> (account: String)
    ensures
        account@ == store_passphrase_account(homeserver@),
{
    let mut account: String = "store-passphrase:".to_owned();
    account.append(homeserver);
    account
}

/// Account of a homeserver's session in the secret store.
pub open spec fn session_account(homeserver: Seq<char>) -> Seq<char> {
    "matrix-session:"@ + homeserver
}

/// Account of a homeserver's session in the secret store.
pub fn session_account_for_homeserver(homeserver: &str) -> (account: String)
    ensures
        account@ == session_account(homeserver@),
{
    let mut account: String = "matrix-session:".to_owned();
    account.append(homeserver);
    account
}

/// The two accounts of a homeserver never coincide, whatever the homeservers are.
pub proof fn lemma_accounts_never_coincide(left: Seq<char>, right: Seq<char>)
    ensures
        store_passphrase_account(left) != session_account(right),
{
    reveal_strlit("store-passphrase:");
    reveal_strlit("matrix-session:");
    assert(store_passphrase_account(left)[0] == 's');
    assert(session_account(right)[0] == 'm');
}

/// File that keeps the store passphrase; where it holds one, the secret store is not asked.
pub fn store_passphrase_file_path(data_dir: &str) -> (path: String)
    ensures
        path@ == paths::joined(data_dir@, ".pikachat-store-passphrase"@),
{
    paths::join(data_dir, ".pikachat-store-passphrase")
}

/// Name of the file that keeps the device ID beside the data directory.
pub open spec fn device_id_hint_file_name(data_dir: Seq<char>) -> Seq<char> {
    let name = match paths::file_name(data_dir) {
        Some(name) => name,
        None => "pikachat-store"@,
    };
    "."@ + name + ".device-id-hint"@
}

/// File that keeps the device ID: beside the data directory, so that it outlives it.
pub open spec fn device_id_hint_path(data_dir: Seq<char>) -> Seq<char> {
    match paths::parent(data_dir) {
        Some(parent) => paths::joined(parent, device_id_hint_file_name(data_dir)),
        None => device_id_hint_file_name(data_dir),
    }
}

/// File that keeps the device ID: beside the data directory, so that it outlives it.
pub fn device_id_hint_file_path(data_dir: &str) -> (path: String)
    ensures
        path@ == device_id_hint_path(data_dir@),
{
    let mut file_name: String = ".".to_owned();
    match paths::name_of(data_dir) {
        Some(name) => file_name.append(name.as_str()),
        None => file_name.append("pikachat-store"),
    }
    file_name.append(".device-id-hint");
    match paths::parent_of(data_dir) {
        Some(parent) => paths::join(parent.as_str(), file_name.as_str()),
        None => file_name,
    }
}

/// File that kept the device ID in the data directory in former releases.
pub fn legacy_device_id_hint_file_path(data_dir: &str) -> (path: String)
    ensures
        path@ == paths::joined(data_dir@, ".pikachat-device-id"@),
{
    paths::join(data_dir, ".pikachat-device-id")
}

/// The device ID file does not lie below the data directory, so that removing the
/// directory leaves it.
pub proof fn lemma_device_id_hint_outlives_data_dir(data_dir: Seq<char>)
    requires
        paths::file_name(data_dir) is Some,
    ensures
        !paths::lies_below(device_id_hint_path(data_dir), data_dir),
{
    let name = paths::file_name(data_dir)->0;
    let hint = device_id_hint_file_name(data_dir);
    reveal_strlit(".");
    reveal_strlit(".device-id-hint");
    text::lemma_after_last_is_clear(paths::stripped(data_dir), '/');
    assert(!hint.contains('/')) by {
        if hint.contains('/') {
            let i = hint.index_of('/');
            assert(hint[i] == '/');
            if 1 <= i < 1 + name.len() {
                assert(name[i - 1] == '/');
            }
        }
    }
    paths::lemma_beside_is_not_below(data_dir, hint);
}

/// Outcome of reading a text file.
#[derive(Debug, Clone, PartialEq, Eq)]
pub enum FileRead {
    /// The file holds this text.
    Text(String),
    /// There is no such file.
    Missing,
    /// The file could not be read, for this reason.
    Failed(String),
}

/// The error of a file operation, with the path and the reason in its message.
pub open spec fn file_error(
    code: Seq<char>,
    action: Seq<char>,
    path: Seq<char>,
    reason: Seq<char>,
) -> BackendErrorView {
    error::plain_error(
        BackendErrorCategory::Storage,
        code,
        action + " "@ + path + ": "@ + reason,
    )
}

pub(crate) fn file_failure(code: &str, action: &str, path: &str, reason: &str) -> (failure: BackendError)
    ensures
        failure@ == file_error(code@, action@, path@, reason@),
{
    let mut message: String = action.to_owned();
    message.append(" ");
    message.append(path);
    message.append(": ");
    message.append(reason);
    BackendError::new(BackendErrorCategory::Storage, code, message.as_str())
}

/// The store passphrase that the file at `path` keeps: its text without the white space
/// around it, which must not be empty. Without a file there is none.
pub fn load_store_passphrase_from_file(path: &str, read: FileRead) -> (result: Result<
    Option<String>,
    BackendError,
>)
    ensures
        match read {
            FileRead::Text(raw) => if text::trimmed(raw@).len() == 0 {
                result matches Err(failure) && failure@ == error::plain_error(
                    BackendErrorCategory::Storage,
                    "store_passphrase_file_empty"@,
                    "store passphrase file is empty: "@ + path@,
                )
            } else {
                result matches Ok(Some(passphrase)) && passphrase@ == text::trimmed(raw@)
            },
            FileRead::Missing => result matches Ok(None),
            FileRead::Failed(reason) => result matches Err(failure) && failure@ == file_error(
                "store_passphrase_file_read_error"@,
                "failed reading store passphrase file"@,
                path@,
                reason@,
            ),
        },
{
    match read {
        FileRead::Text(raw) => {
            let trimmed = text::trim(raw.as_str());
            if trimmed.as_str().is_empty() {
                let mut message: String = "store passphrase file is empty: ".to_owned();
                message.append(path);
                return Err(
                    BackendError::new(
                        BackendErrorCategory::Storage,
                        "store_passphrase_file_empty",
                        message.as_str(),
                    ),
                );
            }
            Ok(Some(trimmed))
        },
        FileRead::Missing => Ok(None),
        FileRead::Failed(reason) => Err(
            file_failure(
                "store_passphrase_file_read_error",
                "failed reading store passphrase file",
                path,
                reason.as_str(),
            ),
        ),
    }
}

/// The device ID that the file at `path` keeps: its text without the white space around
/// it. An empty file keeps none, as no file does.
pub fn load_device_id_hint_from_file(path: &str, read: FileRead) -> (result: Result<
    Option<String>,
    BackendError,
>)
    ensures
        match read {
            FileRead::Text(raw) => if text::trimmed(raw@).len() == 0 {
                result matches Ok(None)
            } else {
                result matches Ok(Some(device_id)) && device_id@ == text::trimmed(raw@)
            },
            FileRead::Missing => result matches Ok(None),
            FileRead::Failed(reason) => result matches Err(failure) && failure@ == file_error(
                "device_id_hint_file_read_error"@,
                "failed reading device-id hint file"@,
                path@,
                reason@,
            ),
        },
{
    match read {
        FileRead::Text(raw) => {
            let trimmed = text::trim(raw.as_str());
            if trimmed.as_str().is_empty() {
                Ok(None)
            } else {
                Ok(Some(trimmed))
            }
        },
        FileRead::Missing => Ok(None),
        FileRead::Failed(reason) => Err(
            file_failure(
                "device_id_hint_file_read_error",
                "failed reading device-id hint file",
                path,
                reason.as_str(),
            ),
        ),
    }
}

/// Outcome of writing a text file, whose directory is created first.
#[derive(Debug, Clone, PartialEq, Eq)]
pub enum FileWrite {
    /// The file was written.
    Done,
    /// The directory could not be created, for this reason.
    DirectoryFailed { dir: String, reason: String },
    /// The file could not be written, for this reason.
    Failed { reason: String },
}

/// What writing a file returns, given its outcome.
pub open spec fn write_answer(
    code: Seq<char>,
    noun: Seq<char>,
    path: Seq<char>,
    write: FileWrite,
) -> Result<(), BackendErrorView> {
    match write {
        FileWrite::Done => Ok(()),
        FileWrite::DirectoryFailed { dir, reason } => Err(
            file_error(code, "failed creating data dir"@, dir@, reason@),
        ),
        FileWrite::Failed { reason } => Err(
            file_error(code, "failed writing "@ + noun + " file"@, path, reason@),
        ),
    }
}

/// What an answer without a value says.
pub open spec fn answer_view(result: Result<(), BackendError>) -> Result<(), BackendErrorView> {
    match result {
        Ok(_) => Ok(()),
        Err(failure) => Err(failure@),
    }
}

fn answer_write(code: &str, noun: &str, path: &str, write: FileWrite) -> (result: Result<
    (),
    BackendError,
>)
    ensures
        answer_view(result) == write_answer(code@, noun@, path@, write),
{
    match write {
        FileWrite::Done => Ok(()),
        FileWrite::DirectoryFailed { dir, reason } => Err(
            file_failure(code, "failed creating data dir", dir.as_str(), reason.as_str()),
        ),
        FileWrite::Failed { reason } => {
            let mut action: String = "failed writing ".to_owned();
            action.append(noun);
            action.append(" file");
            Err(file_failure(code, action.as_str(), path, reason.as_str()))
        },
    }
}

/// The answer to a request to keep the store passphrase at `path`, given how the write
/// went.
pub fn persist_store_passphrase_to_file(path: &str, write: FileWrite) -> (result: Result<
    (),
    BackendError,
>)
    ensures
        answer_view(result) == write_answer(
            "store_passphrase_file_write_error"@,
            "store passphrase"@,
            path@,
            write,
        ),
{
    answer_write("store_passphrase_file_write_error", "store passphrase", path, write)
}

/// The answer to a request to keep the device ID at `path`, given how the write went.
pub fn persist_device_id_hint_to_file(path: &str, write: FileWrite) -> (result: Result<
    (),
    BackendError,
>)
    ensures
        answer_view(result) == write_answer(
            "device_id_hint_file_write_error"@,
            "device-id hint"@,
            path@,
            write,
        ),
{
    answer_write("device_id_hint_file_write_error", "device-id hint", path, write)
}

} // verus!
