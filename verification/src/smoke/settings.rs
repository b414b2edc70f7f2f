//! What the smoke harness is asked to do, by environment variables.
use vstd::prelude::*;

use crate::backend_core::types::{self, BackendInitConfig};
use crate::desktop::config;
use crate::text;
use crate::text_map::TextMap;

verus! {

/// How long sync is observed, unless told otherwise.
pub const DEFAULT_SYNC_OBSERVE_SECS: u64 = 8;

/// Value of an environment variable.
#[derive(Debug, Clone, PartialEq, Eq)]
pub enum EnvValue {
    /// This text.
    Text(String),
    /// Something that is no text.
    NotUnicode,
}

/// Text of a variable, where it is set to one.
pub open spec fn text_value(vars: Map<Seq<char>, EnvValue>, key: Seq<char>) -> Option<Seq<char>> {
    if vars.dom().contains(key) {
        match vars[key] {
            EnvValue::Text(value) => Some(value@),
            EnvValue::NotUnicode => None,
        }
    } else {
        None
    }
}

/// Text of a variable, or another.
pub open spec fn text_or(
    vars: Map<Seq<char>, EnvValue>,
    key: Seq<char>,
    default: Seq<char>,
) -> Seq<char> {
    match text_value(vars, key) {
        Some(value) => value,
        None => default,
    }
}

/// Whether a text says yes.
pub open spec fn says_yes(value: Seq<char>) -> bool {
    value == "1"@ || value == "true"@ || value == "TRUE"@ || value == "yes"@ || value == "on"@
}

/// Whether a variable says yes.
pub open spec fn is_truthy(vars: Map<Seq<char>, EnvValue>, key: Seq<char>) -> bool {
    text_value(vars, key) matches Some(value) && says_yes(value)
}

/// The number, at most `largest`, that a variable holds, or what is wrong with it.
pub open spec fn number_or_error(
    vars: Map<Seq<char>, EnvValue>,
    key: Seq<char>,
    largest: nat,
) -> Result<Option<nat>, Seq<char>> {
    if !vars.dom().contains(key) {
        Ok(None)
    } else {
        match vars[key] {
            EnvValue::NotUnicode => Err(key + " contains non-unicode data"@),
            EnvValue::Text(value) => match text::read_number(value@, largest) {
                Ok(number) => Ok(Some(number)),
                Err(error) => Err(
                    "invalid "@ + key + "='"@ + value@ + "': "@ + error.spec_reason(),
                ),
            },
        }
    }
}

/// The tuning that the variables ask for, or the first thing that is wrong.
pub open spec fn tuning_or_error(vars: Map<Seq<char>, EnvValue>) -> Result<
    Option<BackendInitConfig>,
    Seq<char>,
> {
    let timeout = number_or_error(vars, "PIKACHAT_SYNC_REQUEST_TIMEOUT_MS"@, u64::MAX as nat);
    let open_limit = number_or_error(vars, "PIKACHAT_OPEN_ROOM_LIMIT"@, u16::MAX as nat);
    let page_cap = number_or_error(vars, "PIKACHAT_PAGINATION_LIMIT_CAP"@, u16::MAX as nat);
    match (timeout, open_limit, page_cap) {
        (Err(message), _, _) => Err(message),
        (_, Err(message), _) => Err(message),
        (_, _, Err(message)) => Err(message),
        (Ok(timeout), Ok(open_limit), Ok(page_cap)) => Ok(
            config::init_config_of(timeout, open_limit, page_cap),
        ),
    }
}

fn env_text(vars: &TextMap<EnvValue>, key: &str) -> (value: Option<String>)
    ensures
        types::opt_chars(value) == text_value(vars@, key@),
{
    match vars.get(key) {
        Some(EnvValue::Text(value)) => Some(value.clone()),
        _ => None,
    }
}

fn env_text_or(vars: &TextMap<EnvValue>, key: &str, default: &str) -> (value: String)
    ensures
        value@ == text_or(vars@, key@, default@),
{
    match env_text(vars, key) {
        Some(value) => value,
        None => default.to_owned(),
    }
}

/// Whether a variable says yes.
pub fn env_truthy(vars: &TextMap<EnvValue>, key: &str) -> (yes: bool)
    ensures
        yes == is_truthy(vars@, key@),
{
    match vars.get(key) {
        Some(EnvValue::Text(value)) => {
            let value: &str = value.as_str();
            *value == *"1" || *value == *"true" || *value == *"TRUE" || *value == *"yes" || *value
                == *"on"
        },
        _ => false,
    }
}

fn parse_optional_env(vars: &TextMap<EnvValue>, key: &str, largest: u64) -> (result: Result<
    Option<u64>,
    String,
>)
    ensures
        match number_or_error(vars@, key@, largest as nat) {
            Ok(Some(number)) => result matches Ok(Some(n)) && n == number && n <= largest,
            Ok(None) => result matches Ok(None),
            Err(text) => result matches Err(message) && message@ == text,
        },
{
    match vars.get(key) {
        Some(EnvValue::Text(value)) => match text::parse_number(value.as_str(), largest) {
            Ok(number) => {
                proof {
                    text::lemma_number_is_bounded(value@, largest as nat);
                }
                Ok(Some(number))
            },
            Err(error) => {
                let mut message: String = "invalid ".to_owned();
                message.append(key);
                message.append("='");
                message.append(value.as_str());
                message.append("': ");
                message.append(error.reason());
                Err(message)
            },
        },
        Some(EnvValue::NotUnicode) => {
            let mut message: String = key.to_owned();
            message.append(" contains non-unicode data");
            Err(message)
        },
        None => Ok(None),
    }
}

/// The 64-bit number that a variable holds.
pub fn parse_optional_u64_env(vars: &TextMap<EnvValue>, key: &str) -> (result: Result<
    Option<u64>,
    String,
>)
    ensures
        match number_or_error(vars@, key@, u64::MAX as nat) {
            Ok(Some(number)) => result matches Ok(Some(n)) && n == number,
            Ok(None) => result matches Ok(None),
            Err(text) => result matches Err(message) && message@ == text,
        },
{
    parse_optional_env(vars, key, u64::MAX)
}

/// The 16-bit number that a variable holds.
pub fn parse_optional_u16_env(vars: &TextMap<EnvValue>, key: &str) -> (result: Result<
    Option<u16>,
    String,
>)
    ensures
        match number_or_error(vars@, key@, u16::MAX as nat) {
            Ok(Some(number)) => result matches Ok(Some(n)) && n == number,
            Ok(None) => result matches Ok(None),
            Err(text) => result matches Err(message) && message@ == text,
        },
{
    match parse_optional_env(vars, key, 65_535) {
        Ok(Some(number)) => Ok(Some(number as u16)),
        Ok(None) => Ok(None),
        Err(message) => Err(message),
    }
}

/// Tuning for the backend, where any of its variables is set.
pub fn init_config_from_env(vars: &TextMap<EnvValue>) -> (result: Result<
    Option<BackendInitConfig>,
    String,
>)
    ensures
        match tuning_or_error(vars@) {
            Ok(tuning) => result == Ok::<_, String>(tuning),
            Err(text) => result matches Err(message) && message@ == text,
        },
{
    let sync_request_timeout_ms = match parse_optional_u64_env(
        vars,
        "PIKACHAT_SYNC_REQUEST_TIMEOUT_MS",
    ) {
        Ok(number) => number,
        Err(message) => return Err(message),
    };
    let default_open_room_limit = match parse_optional_u16_env(vars, "PIKACHAT_OPEN_ROOM_LIMIT") {
        Ok(number) => number,
        Err(message) => return Err(message),
    };
    let pagination_limit_cap = match parse_optional_u16_env(
        vars,
        "PIKACHAT_PAGINATION_LIMIT_CAP",
    ) {
        Ok(number) => number,
        Err(message) => return Err(message),
    };
    if sync_request_timeout_ms.is_none() && default_open_room_limit.is_none()
        && pagination_limit_cap.is_none() {
        return Ok(None);
    }
    Ok(
        Some(
            BackendInitConfig {
                sync_request_timeout_ms,
                default_open_room_limit,
                pagination_limit_cap,
            },
        ),
    )
}

/// What the harness is asked to do.
#[derive(Debug, PartialEq, Eq)]
pub struct SmokeSettings {
    /// Homeserver base URL.
    pub homeserver: String,
    /// Path of the local data directory.
    pub data_dir: String,
    /// Optional backend runtime tuning.
    pub init_config: Option<BackendInitConfig>,
    /// Whether a persisted session is restored.
    pub restore_session: bool,
    /// Matrix user ID or localpart.
    pub user: Option<String>,
    /// Password for the user account.
    pub password: Option<String>,
    /// Whether the recovery status is shown.
    pub get_recovery_status: bool,
    /// Whether recovery is enabled.
    pub enable_recovery: bool,
    /// Whether recovery is reset.
    pub reset_recovery: bool,
    /// Passphrase for recovery.
    pub recovery_passphrase: Option<String>,
    /// Whether to wait for backups to upload.
    pub wait_recovery_upload: bool,
    /// Recovery key to restore secrets with.
    pub recovery_key: Option<String>,
    /// Whether sync is started and stopped.
    pub start_sync: bool,
    /// Whether each change is shown.
    pub sync_verbose: bool,
    /// The only room whose changes count.
    pub watch_room_id: Option<String>,
    /// How long sync is observed.
    pub observe_secs: u64,
    /// User that a DM is sent to.
    pub dm_target: Option<String>,
    /// Body of the DM.
    pub dm_body: String,
    /// File that is uploaded.
    pub media_upload_file: Option<String>,
    /// Content type of the file.
    pub media_content_type: String,
    /// Media that is downloaded.
    pub media_download_mxc: Option<String>,
}

/// Whether settings are those that the variables ask for, with this tuning.
pub open spec fn asks_for(
    vars: Map<Seq<char>, EnvValue>,
    tuning: Option<BackendInitConfig>,
    settings: SmokeSettings,
) -> bool {
    &&& settings.homeserver@ == text_or(
        vars,
        "PIKACHAT_HOMESERVER"@,
        "https://matrix.example.org"@,
    )
    &&& settings.data_dir@ == text_or(vars, "PIKACHAT_DATA_DIR"@, "./.pikachat-smoke-store"@)
    &&& settings.init_config == tuning
    &&& settings.restore_session == is_truthy(vars, "PIKACHAT_RESTORE_SESSION"@)
    &&& types::opt_chars(settings.user) == text_value(vars, "PIKACHAT_USER"@)
    &&& types::opt_chars(settings.password) == text_value(vars, "PIKACHAT_PASSWORD"@)
    &&& settings.get_recovery_status == is_truthy(vars, "PIKACHAT_GET_RECOVERY_STATUS"@)
    &&& settings.enable_recovery == is_truthy(vars, "PIKACHAT_ENABLE_RECOVERY"@)
    &&& settings.reset_recovery == is_truthy(vars, "PIKACHAT_RESET_RECOVERY"@)
    &&& types::opt_chars(settings.recovery_passphrase) == text_value(
        vars,
        "PIKACHAT_RECOVERY_PASSPHRASE"@,
    )
    &&& settings.wait_recovery_upload == is_truthy(vars, "PIKACHAT_WAIT_RECOVERY_UPLOAD"@)
    &&& types::opt_chars(settings.recovery_key) == text_value(vars, "PIKACHAT_RECOVERY_KEY"@)
    &&& settings.start_sync == is_truthy(vars, "PIKACHAT_START_SYNC"@)
    &&& settings.sync_verbose == is_truthy(vars, "PIKACHAT_SYNC_VERBOSE"@)
    &&& types::opt_chars(settings.watch_room_id) == text_value(vars, "PIKACHAT_WATCH_ROOM_ID"@)
    &&& settings.observe_secs == match number_or_error(
        vars,
        "PIKACHAT_SYNC_OBSERVE_SECS"@,
        u64::MAX as nat,
    ) {
        Ok(Some(secs)) => secs,
        _ => DEFAULT_SYNC_OBSERVE_SECS as nat,
    }
    &&& types::opt_chars(settings.dm_target) == text_value(vars, "PIKACHAT_DM_TARGET"@)
    &&& settings.dm_body@ == text_or(vars, "PIKACHAT_DM_BODY"@, "PikaChat backend smoke test"@)
    &&& types::opt_chars(settings.media_upload_file) == text_value(
        vars,
        "PIKACHAT_MEDIA_UPLOAD_FILE"@,
    )
    &&& settings.media_content_type@ == text_or(
        vars,
        "PIKACHAT_MEDIA_CONTENT_TYPE"@,
        "application/octet-stream"@,
    )
    &&& types::opt_chars(settings.media_download_mxc) == text_value(
        vars,
        "PIKACHAT_MEDIA_DOWNLOAD_MXC"@,
    )
}

impl SmokeSettings {
    /// What the variables ask for.
    pub fn from_vars(vars: &TextMap<EnvValue>) -> (result: Result<Self, String>)
        ensures
            match tuning_or_error(vars@) {
                Ok(tuning) => result matches Ok(settings) && asks_for(vars@, tuning, settings),
                Err(text) => result matches Err(message) && message@ == text,
            },
    {
        let init_config = match init_config_from_env(vars) {
            Ok(config) => config,
            Err(message) => return Err(message),
        };
        let observe_secs: u64 = match parse_optional_u64_env(vars, "PIKACHAT_SYNC_OBSERVE_SECS") {
            Ok(Some(secs)) => secs,
            _ => DEFAULT_SYNC_OBSERVE_SECS,
        };
        Ok(
            SmokeSettings {
                homeserver: env_text_or(vars, "PIKACHAT_HOMESERVER", "https://matrix.example.org"),
                data_dir: env_text_or(vars, "PIKACHAT_DATA_DIR", "./.pikachat-smoke-store"),
                init_config,
                restore_session: env_truthy(vars, "PIKACHAT_RESTORE_SESSION"),
                user: env_text(vars, "PIKACHAT_USER"),
                password: env_text(vars, "PIKACHAT_PASSWORD"),
                get_recovery_status: env_truthy(vars, "PIKACHAT_GET_RECOVERY_STATUS"),
                enable_recovery: env_truthy(vars, "PIKACHAT_ENABLE_RECOVERY"),
                reset_recovery: env_truthy(vars, "PIKACHAT_RESET_RECOVERY"),
                recovery_passphrase: env_text(vars, "PIKACHAT_RECOVERY_PASSPHRASE"),
                wait_recovery_upload: env_truthy(vars, "PIKACHAT_WAIT_RECOVERY_UPLOAD"),
                recovery_key: env_text(vars, "PIKACHAT_RECOVERY_KEY"),
                start_sync: env_truthy(vars, "PIKACHAT_START_SYNC"),
                sync_verbose: env_truthy(vars, "PIKACHAT_SYNC_VERBOSE"),
                watch_room_id: env_text(vars, "PIKACHAT_WATCH_ROOM_ID"),
                observe_secs,
                dm_target: env_text(vars, "PIKACHAT_DM_TARGET"),
                dm_body: env_text_or(vars, "PIKACHAT_DM_BODY", "PikaChat backend smoke test"),
                media_upload_file: env_text(vars, "PIKACHAT_MEDIA_UPLOAD_FILE"),
                media_content_type: env_text_or(
                    vars,
                    "PIKACHAT_MEDIA_CONTENT_TYPE",
                    "application/octet-stream",
                ),
                media_download_mxc: env_text(vars, "PIKACHAT_MEDIA_DOWNLOAD_MXC"),
            },
        )
    }
}

} // verus!
