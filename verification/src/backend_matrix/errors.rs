//! Backend errors for failures of the SDK, the homeserver and the secret store.
use vstd::prelude::*;

use crate::backend_core::error::{self, BackendError, BackendErrorCategory, BackendErrorView};
use crate::backend_platform::SecretStoreError;
use crate::text;

verus! {

/// A failed HTTP request.
#[derive(Debug, Clone, PartialEq, Eq)]
pub enum HttpFailure {
    /// The homeserver answered with an error.
    Api {
        /// HTTP status.
        status: u16,
        /// Human-readable message.
        message: String,
        /// Delay in milliseconds that the homeserver asked for, where it limits the rate.
        retry_after_ms: Option<u128>,
    },
    /// There was no such answer.
    Transport {
        /// Human-readable message.
        message: String,
    },
}

/// The backend error of a failed HTTP request.
pub open spec fn http_error(failure: HttpFailure) -> BackendErrorView {
    match failure {
        HttpFailure::Api { status, message, retry_after_ms } => BackendErrorView {
            category: error::http_status_category(status),
            code: "matrix_http_error"@,
            message: message@,
            retry_after_ms: match retry_after_ms {
                Some(ms) => Some((ms % 0x1_0000_0000_0000_0000) as u64),
                None => None,
            },
        },
        HttpFailure::Transport { message } => error::plain_error(
            BackendErrorCategory::Network,
            "matrix_http_error"@,
            message@,
        ),
    }
}

/// The backend error of a failed HTTP request.
pub fn map_matrix_http_error(failure: HttpFailure) -> (mapped: BackendError)
    ensures
        mapped@ == http_error(failure),
{
    match failure {
        HttpFailure::Api { status, message, retry_after_ms } => {
            let mapped = BackendError::new(
                error::classify_http_status(status),
                "matrix_http_error",
                message.as_str(),
            );
            match retry_after_ms {
                Some(ms) => mapped.with_retry_after(ms),
                None => mapped,
            }
        },
        HttpFailure::Transport { message } => BackendError::new(
            BackendErrorCategory::Network,
            "matrix_http_error",
            message.as_str(),
        ),
    }
}

/// A failure of the SDK. All but the first carry the SDK's message.
#[derive(Debug, Clone, PartialEq, Eq)]
pub enum SdkFailure {
    /// An HTTP request failed.
    Http(HttpFailure),
    /// A request needs a session.
    AuthenticationRequired { message: String },
    /// There is no local encryption machine.
    NoOlmMachine { message: String },
    /// The local encryption store does not fit the session.
    BadCryptoStoreState { message: String },
    /// The encryption store failed.
    CryptoStore { message: String },
    /// The state store failed.
    StateStore { message: String },
    /// The store of cached events failed.
    EventCacheStore { message: String },
    /// The store of media failed.
    MediaStore { message: String },
    /// A file failed.
    Io { message: String },
    /// The lock of a store that processes share failed.
    CrossProcessLock { message: String },
    /// JSON could not be encoded or decoded.
    SerdeJson { message: String },
    /// Anything else.
    Other { message: String },
}

/// Whether a message says that the local store belongs to another account.
pub open spec fn says_account_mismatch(message: Seq<char>) -> bool {
    let lower = text::lowered(message);
    ||| text::contains(lower, "account in the store doesn't match"@)
    ||| text::contains(lower, "account in the store does not match"@)
    ||| text::contains(lower, "belongs to a different account"@)
}

/// Whether a message says that the local store belongs to another account.
pub fn is_store_account_mismatch_message(message: &str) -> (yes: bool)
    ensures
        yes == says_account_mismatch(message@),
{
    let lower = text::lower_chars(message);
    text::has(&lower, "account in the store doesn't match") || text::has(
        &lower,
        "account in the store does not match",
    ) || text::has(&lower, "belongs to a different account")
}

/// The backend error of a failure of the SDK.
pub open spec fn sdk_error(failure: SdkFailure) -> BackendErrorView {
    match failure {
        SdkFailure::Http(http) => http_error(http),
        SdkFailure::AuthenticationRequired { message } => error::plain_error(
            BackendErrorCategory::Auth,
            "auth_required"@,
            message@,
        ),
        SdkFailure::NoOlmMachine { message } => error::plain_error(
            BackendErrorCategory::Crypto,
            "crypto_machine_unavailable"@,
            message@
                + ". Local crypto state is unavailable; reset the data dir for this account."@,
        ),
        SdkFailure::BadCryptoStoreState { message } => error::plain_error(
            BackendErrorCategory::Crypto,
            "crypto_store_state_error"@,
            message@ + ". Local crypto store state is invalid for the current session."@,
        ),
        SdkFailure::CryptoStore { message }
        | SdkFailure::StateStore { message }
        | SdkFailure::EventCacheStore { message }
        | SdkFailure::MediaStore { message }
        | SdkFailure::Io { message }
        | SdkFailure::CrossProcessLock { message } => if says_account_mismatch(message@) {
            error::plain_error(
                BackendErrorCategory::Storage,
                "crypto_store_account_mismatch"@,
                message@
                    + ". The configured data dir appears to belong to a different Matrix account."@,
            )
        } else {
            error::plain_error(BackendErrorCategory::Storage, "storage_error"@, message@)
        },
        SdkFailure::SerdeJson { message } => error::plain_error(
            BackendErrorCategory::Serialization,
            "serde_json_error"@,
            message@,
        ),
        SdkFailure::Other { message } => error::plain_error(
            BackendErrorCategory::Internal,
            "matrix_error"@,
            message@,
        ),
    }
}

/// The backend error of a failure of the SDK.
pub fn map_matrix_error(failure: SdkFailure) -> (mapped: BackendError)
    ensures
        mapped@ == sdk_error(failure),
{
    match failure {
        SdkFailure::Http(http) => map_matrix_http_error(http),
        SdkFailure::AuthenticationRequired { message } => BackendError::new(
            BackendErrorCategory::Auth,
            "auth_required",
            message.as_str(),
        ),
        SdkFailure::NoOlmMachine { message } => {
            let explained = message.concat(
                ". Local crypto state is unavailable; reset the data dir for this account.",
            );
            BackendError::new(
                BackendErrorCategory::Crypto,
                "crypto_machine_unavailable",
                explained.as_str(),
            )
        },
        SdkFailure::BadCryptoStoreState { message } => {
            let explained = message.concat(
                ". Local crypto store state is invalid for the current session.",
            );
            BackendError::new(
                BackendErrorCategory::Crypto,
                "crypto_store_state_error",
                explained.as_str(),
            )
        },
        SdkFailure::CryptoStore { message }
        | SdkFailure::StateStore { message }
        | SdkFailure::EventCacheStore { message }
        | SdkFailure::MediaStore { message }
        | SdkFailure::Io { message }
        | SdkFailure::CrossProcessLock { message } => {
            if is_store_account_mismatch_message(message.as_str()) {
                let explained = message.concat(
                    ". The configured data dir appears to belong to a different Matrix account.",
                );
                BackendError::new(
                    BackendErrorCategory::Storage,
                    "crypto_store_account_mismatch",
                    explained.as_str(),
                )
            } else {
                BackendError::new(
                    BackendErrorCategory::Storage,
                    "storage_error",
                    message.as_str(),
                )
            }
        },
        SdkFailure::SerdeJson { message } => BackendError::new(
            BackendErrorCategory::Serialization,
            "serde_json_error",
            message.as_str(),
        ),
        SdkFailure::Other { message } => BackendError::new(
            BackendErrorCategory::Internal,
            "matrix_error",
            message.as_str(),
        ),
    }
}

/// A failure to edit a message.
#[derive(Debug, Clone, PartialEq, Eq)]
pub enum EditFailure {
    /// The event is a state event.
    StateEvent { message: String },
    /// The event is someone else's.
    NotAuthor { message: String },
    /// The event is of another type than the new content.
    IncompatibleEditType { message: String },
    /// The event could not be decoded.
    Deserialize { message: String },
    /// The event could not be fetched.
    Fetch { message: String },
}

/// The backend error of a failure to edit a message.
pub fn map_edit_error(failure: EditFailure) -> (mapped: BackendError)
    ensures
        mapped@ == match failure {
            EditFailure::StateEvent { message }
            | EditFailure::NotAuthor { message }
            | EditFailure::IncompatibleEditType { message } => error::plain_error(
                BackendErrorCategory::Config,
                "edit_invalid"@,
                message@,
            ),
            EditFailure::Deserialize { message } => error::plain_error(
                BackendErrorCategory::Serialization,
                "edit_deserialize_error"@,
                message@,
            ),
            EditFailure::Fetch { message } => error::plain_error(
                BackendErrorCategory::Network,
                "edit_fetch_error"@,
                message@,
            ),
        },
{
    match failure {
        EditFailure::StateEvent { message }
        | EditFailure::NotAuthor { message }
        | EditFailure::IncompatibleEditType { message } => BackendError::new(
            BackendErrorCategory::Config,
            "edit_invalid",
            message.as_str(),
        ),
        EditFailure::Deserialize { message } => BackendError::new(
            BackendErrorCategory::Serialization,
            "edit_deserialize_error",
            message.as_str(),
        ),
        EditFailure::Fetch { message } => BackendError::new(
            BackendErrorCategory::Network,
            "edit_fetch_error",
            message.as_str(),
        ),
    }
}

/// A failure of the recovery of encryption secrets.
#[derive(Debug, Clone, PartialEq, Eq)]
pub enum RecoveryFailure {
    /// A backup exists on the homeserver already.
    BackupExistsOnServer,
    /// The SDK failed.
    Sdk(SdkFailure),
    /// The secret storage failed.
    SecretStorage { message: String },
}

/// The backend error of a failure of the recovery of encryption secrets.
pub fn map_recovery_error(failure: RecoveryFailure) -> (mapped: BackendError)
    ensures
        mapped@ == match failure {
            RecoveryFailure::BackupExistsOnServer => error::plain_error(
                BackendErrorCategory::Config,
                "recovery_backup_exists"@,
                "a backup already exists on the homeserver"@,
            ),
            RecoveryFailure::Sdk(sdk) => sdk_error(sdk),
            RecoveryFailure::SecretStorage { message } => error::plain_error(
                BackendErrorCategory::Crypto,
                "secret_storage_error"@,
                message@,
            ),
        },
{
    match failure {
        RecoveryFailure::BackupExistsOnServer => BackendError::new(
            BackendErrorCategory::Config,
            "recovery_backup_exists",
            "a backup already exists on the homeserver",
        ),
        RecoveryFailure::Sdk(sdk) => map_matrix_error(sdk),
        RecoveryFailure::SecretStorage { message } => BackendError::new(
            BackendErrorCategory::Crypto,
            "secret_storage_error",
            message.as_str(),
        ),
    }
}

/// The backend error of a failure to set up the SDK client.
pub fn map_client_build_error(message: &str) -> (mapped: BackendError)
    ensures
        mapped@ == error::plain_error(
            BackendErrorCategory::Config,
            "client_build_error"@,
            message@,
        ),
{
    BackendError::new(BackendErrorCategory::Config, "client_build_error", message)
}

/// The backend error of a failure of the secret store.
pub open spec fn secret_error(
    operation: Seq<char>,
    account: Seq<char>,
    failure: SecretStoreError,
) -> BackendErrorView {
    match failure {
        SecretStoreError::NotFound => error::plain_error(
            BackendErrorCategory::Config,
            "secret_not_found"@,
            "secret missing for '"@ + account + "' during "@ + operation,
        ),
        SecretStoreError::Unavailable(message) => error::plain_error(
            BackendErrorCategory::Storage,
            "secret_store_unavailable"@,
            "secret store unavailable during "@ + operation + ": "@ + message@,
        ),
        SecretStoreError::Backend(message) => error::plain_error(
            BackendErrorCategory::Storage,
            "secret_store_error"@,
            "secret store backend error during "@ + operation + ": "@ + message@,
        ),
    }
}

/// The backend error of a failure of the secret store during an operation on an account.
pub fn map_secret_store_error(operation: &str, account: &str, failure: SecretStoreError) -> (
    mapped: BackendError)
    ensures
        mapped@ == secret_error(operation@, account@, failure),
{
    match failure {
        SecretStoreError::NotFound => {
            let mut message: String = "secret missing for '".to_owned();
            message.append(account);
            message.append("' during ");
            message.append(operation);
            BackendError::new(BackendErrorCategory::Config, "secret_not_found", message.as_str())
        },
        SecretStoreError::Unavailable(reason) => {
            let mut message: String = "secret store unavailable during ".to_owned();
            message.append(operation);
            message.append(": ");
            message.append(reason.as_str());
            BackendError::new(
                BackendErrorCategory::Storage,
                "secret_store_unavailable",
                message.as_str(),
            )
        },
        SecretStoreError::Backend(reason) => {
            let mut message: String = "secret store backend error during ".to_owned();
            message.append(operation);
            message.append(": ");
            message.append(reason.as_str());
            BackendError::new(
                BackendErrorCategory::Storage,
                "secret_store_error",
                message.as_str(),
            )
        },
    }
}

/// Whether a retry may help: the network or the homeserver's rate limit is at fault.
pub open spec fn is_recoverable(failure: BackendErrorView) -> bool {
    failure.category is Network || failure.category is RateLimited
}

/// Whether the sync loop goes on after an error.
pub fn is_recoverable_sync_error(failure: &BackendError) -> (yes: bool)
    ensures
        yes == is_recoverable(failure@),
{
    match failure.category {
        BackendErrorCategory::Network | BackendErrorCategory::RateLimited => true,
        _ => false,
    }
}

/// Whether a failed login may fall back to a session that is there already: the
/// homeserver limits the rate, the login timed out, or the SDK says that there is one.
pub open spec fn allows_session_fallback(failure: BackendErrorView) -> bool {
    let lower = text::lowered(failure.message);
    ||| failure.category is RateLimited
    ||| failure.code == "auth_login_timeout"@
    ||| text::contains(lower, "already logged in"@)
    ||| text::contains(lower, "session already"@)
    ||| text::contains(lower, "an existing session"@)
}

/// Whether a failed login may fall back to a session that is there already.
pub fn is_session_login_fallback_error(failure: &BackendError) -> (yes: bool)
    ensures
        yes == allows_session_fallback(failure@),
{
    let lower = text::lower_chars(failure.message.as_str());
    let limited = match failure.category {
        BackendErrorCategory::RateLimited => true,
        _ => false,
    };
    limited || *failure.code.as_str() == *"auth_login_timeout" || text::has(
        &lower,
        "already logged in",
    ) || text::has(&lower, "session already") || text::has(&lower, "an existing session")
}

/// The device ID that a store belongs to, as a mismatch message tells it: the text
/// between the first `expected ` and `, got`, from its last colon on.
pub open spec fn expected_device_id(message: Seq<char>) -> Option<Seq<char>> {
    match text::after_first(message, "expected "@) {
        Some(rest) => {
            let segment = text::before_first(
                text::before_first(rest, "expected "@),
                ", got"@,
            );
            let device_id = text::trimmed(text::after_last(text::trimmed(segment), ':'));
            if device_id.len() == 0 { None } else { Some(device_id) }
        },
        None => None,
    }
}

/// The device ID that a store belongs to, as a mismatch message tells it.
pub fn expected_device_id_from_store_mismatch_message(message: &str) -> (device_id: Option<String>)
    ensures
        match device_id {
            Some(device_id) => expected_device_id(message@) == Some(device_id@),
            None => expected_device_id(message@) is None,
        },
{
    match text::rest_after(message, "expected ") {
        Some(rest) => {
            let upto_next = text::part_before(rest.as_str(), "expected ");
            let segment = text::part_before(upto_next.as_str(), ", got");
            let account = text::trim(segment.as_str());
            let last = text::rest_after_last(account.as_str(), ':');
            let device_id = text::trim(last.as_str());
            if device_id.as_str().is_empty() {
                None
            } else {
                Some(device_id)
            }
        },
        None => None,
    }
}

/// Whether a failure is one of a local store, its lock or a file.
pub open spec fn is_store_failure(failure: SdkFailure) -> bool {
    ||| failure is CryptoStore
    ||| failure is StateStore
    ||| failure is EventCacheStore
    ||| failure is MediaStore
    ||| failure is Io
    ||| failure is CrossProcessLock
}

/// A failure of the local store is never one that the sync loop retries.
pub proof fn lemma_store_failure_is_not_recoverable(failure: SdkFailure)
    requires
        is_store_failure(failure),
    ensures
        !is_recoverable(sdk_error(failure)),
{
}

} // verus!
