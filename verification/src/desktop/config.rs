//! Environment-backed runtime configuration of the desktop client.
use vstd::prelude::*;

use crate::backend_core::types::{self, BackendInitConfig};
use crate::paths;
use crate::text;
use crate::text_map::TextMap;

verus! {

/// Directory below which data directories are made.
pub const DEFAULT_DATA_DIR_ROOT: &'static str = "./.pikachat-desktop-store";

/// Name of the file that keeps the login profile.
pub const LOGIN_PROFILE_FILENAME: &'static str = ".pikachat-login-profile.json";

/// Number of items that a timeline retains, unless configured.
pub const DEFAULT_TIMELINE_MAX_ITEMS: usize = 1_200;

/// Number of events asked for at a time, unless configured.
pub const DEFAULT_PAGINATE_LIMIT: u16 = 30;

/// Distance from the top of the timeline at which older events are asked for, unless configured:
/// the bits of 80 as a single-precision number.
pub const DEFAULT_PAGINATION_TOP_THRESHOLD_BITS: u32 = 0x42A0_0000;

/// Time between two requests for older events, unless configured.
pub const DEFAULT_PAGINATION_COOLDOWN_MS: u64 = 750;

/// Longest part of a data directory's name that is made from a homeserver or a user ID.
pub const SLUG_MAX_LEN: usize = 64;

/// Errors produced while parsing runtime configuration.
#[derive(Debug, Clone, PartialEq, Eq)]
pub enum ConfigError {
    /// An environment variable could not be parsed.
    InvalidValue {
        /// Name of the variable.
        key: &'static str,
        /// Its value.
        value: String,
        /// Why the value does not do.
        reason: String,
    },
}

/// What a [`ConfigError`] says.
#[verifier::ext_equal]
pub struct InvalidValueView {
    pub key: Seq<char>,
    pub value: Seq<char>,
    pub reason: Seq<char>,
}

impl View for ConfigError {
    type V = InvalidValueView;

    open spec fn view(&self) -> InvalidValueView {
        match self {
            ConfigError::InvalidValue { key, value, reason } => InvalidValueView {
                key: key@,
                value: value@,
                reason: reason@,
            },
        }
    }
}

impl ConfigError {
    /// Human-readable description.
    pub fn to_text(&self) -> (text: String)
        ensures
            text@ == "invalid "@ + self@.key + "='"@ + self@.value + "': "@ + self@.reason,
    {
        match self {
            ConfigError::InvalidValue { key, value, reason } => {
                let mut text: String = "invalid ".to_owned();
                text.append(key);
                text.append("='");
                text.append(value.as_str());
                text.append("': ");
                text.append(reason.as_str());
                text
            },
        }
    }
}

/// Value of a variable.
pub open spec fn lookup(vars: Map<Seq<char>, String>, key: Seq<char>) -> Option<Seq<char>> {
    if vars.dom().contains(key) { Some(vars[key]@) } else { None }
}

/// Value of a variable without the white space around it; nothing where that is empty.
pub open spec fn trimmed_value(vars: Map<Seq<char>, String>, key: Seq<char>) -> Option<Seq<char>> {
    match lookup(vars, key) {
        Some(value) => if text::trimmed(value).len() > 0 {
            Some(text::trimmed(value))
        } else {
            None
        },
        None => None,
    }
}

/// The number, at most `largest`, that a variable holds.
pub open spec fn number_value(
    vars: Map<Seq<char>, String>,
    key: Seq<char>,
    largest: nat,
) -> Result<Option<nat>, InvalidValueView> {
    match lookup(vars, key) {
        Some(value) => match text::read_number(value, largest) {
            Ok(number) => Ok(Some(number)),
            Err(error) => Err(InvalidValueView { key, value, reason: error.spec_reason() }),
        },
        None => Ok(None),
    }
}

/// Value of a variable without the white space around it; nothing where that is empty.
pub fn optional_trimmed_env(key: &str, vars: &TextMap<String>) -> (value: Option<String>)
    ensures
        types::opt_chars(value) == trimmed_value(vars@, key@),
{
    match vars.get(key) {
        Some(value) => {
            let trimmed = text::trim(value.as_str());
            if trimmed.as_str().is_empty() {
                None
            } else {
                Some(trimmed)
            }
        },
        None => None,
    }
}

fn parse_optional(key: &'static str, largest: u64, vars: &TextMap<String>) -> (result: Result<
    Option<u64>,
    ConfigError,
>)
    ensures
        match number_value(vars@, key@, largest as nat) {
            Ok(Some(number)) => result matches Ok(Some(n)) && n == number && n <= largest,
            Ok(None) => result matches Ok(None),
            Err(invalid) => result matches Err(error) && error@ == invalid,
        },
{
    match vars.get(key) {
        Some(value) => match text::parse_number(value.as_str(), largest) {
            Ok(number) => {
                proof {
                    text::lemma_number_is_bounded(value@, largest as nat);
                }
                Ok(Some(number))
            },
            Err(error) => Err(
                ConfigError::InvalidValue {
                    key,
                    value: value.clone(),
                    reason: error.reason().to_owned(),
                },
            ),
        },
        None => Ok(None),
    }
}

/// The 16-bit number that a variable holds.
pub fn parse_optional_u16(key: &'static str, vars: &TextMap<String>) -> (result: Result<
    Option<u16>,
    ConfigError,
>)
    ensures
        match number_value(vars@, key@, u16::MAX as nat) {
            Ok(Some(number)) => result matches Ok(Some(n)) && n == number,
            Ok(None) => result matches Ok(None),
            Err(invalid) => result matches Err(error) && error@ == invalid,
        },
{
    match parse_optional(key, 65_535, vars) {
        Ok(Some(number)) => Ok(Some(number as u16)),
        Ok(None) => Ok(None),
        Err(error) => Err(error),
    }
}

/// The 64-bit number that a variable holds.
pub fn parse_optional_u64(key: &'static str, vars: &TextMap<String>) -> (result: Result<
    Option<u64>,
    ConfigError,
>)
    ensures
        match number_value(vars@, key@, u64::MAX as nat) {
            Ok(Some(number)) => result matches Ok(Some(n)) && n == number,
            Ok(None) => result matches Ok(None),
            Err(invalid) => result matches Err(error) && error@ == invalid,
        },
{
    parse_optional(key, u64::MAX, vars)
}

/// The size that a variable holds, or the default.
pub fn parse_optional_usize(key: &'static str, default: usize, vars: &TextMap<String>) -> (result:
    Result<usize, ConfigError>)
    ensures
        match number_value(vars@, key@, usize::MAX as nat) {
            Ok(Some(number)) => result matches Ok(n) && n == number,
            Ok(None) => result matches Ok(n) && n == default,
            Err(invalid) => result matches Err(error) && error@ == invalid,
        },
{
    match parse_optional(key, usize::MAX as u64, vars) {
        Ok(Some(number)) => Ok(number as usize),
        Ok(None) => Ok(default),
        Err(error) => Err(error),
    }
}

/// The 16-bit number that a variable holds, or the default.
pub fn parse_optional_u16_with_default(
    key: &'static str,
    default: u16,
    vars: &TextMap<String>,
) -> (result: Result<u16, ConfigError>)
    ensures
        match number_value(vars@, key@, u16::MAX as nat) {
            Ok(Some(number)) => result matches Ok(n) && n == number,
            Ok(None) => result matches Ok(n) && n == default,
            Err(invalid) => result matches Err(error) && error@ == invalid,
        },
{
    match parse_optional_u16(key, vars) {
        Ok(Some(number)) => Ok(number),
        Ok(None) => Ok(default),
        Err(error) => Err(error),
    }
}

/// The 64-bit number that a variable holds, or the default.
pub fn parse_optional_u64_with_default(
    key: &'static str,
    default: u64,
    vars: &TextMap<String>,
) -> (result: Result<u64, ConfigError>)
    ensures
        match number_value(vars@, key@, u64::MAX as nat) {
            Ok(Some(number)) => result matches Ok(n) && n == number,
            Ok(None) => result matches Ok(n) && n == default,
            Err(invalid) => result matches Err(error) && error@ == invalid,
        },
{
    match parse_optional_u64(key, vars) {
        Ok(Some(number)) => Ok(number),
        Ok(None) => Ok(default),
        Err(error) => Err(error),
    }
}

/// How the host read the scroll threshold, which is a fraction of pixels.
#[derive(Debug, Clone, PartialEq, Eq)]
pub enum ThresholdReading {
    /// The variable is not set.
    Unset,
    /// The threshold is not zero or below; these are the bits of the number.
    Positive { bits: u32 },
    /// The threshold is zero or below; this is the number as text.
    NotPositive { value: String },
    /// The variable holds no number, for this reason.
    Invalid { value: String, reason: String },
}

/// Runtime configuration used by the desktop app.
#[derive(Debug, Clone, PartialEq, Eq)]
pub struct DesktopConfig {
    /// Optional homeserver prefill value for the login form.
    pub prefill_homeserver: Option<String>,
    /// Optional user-ID prefill value for the login form.
    pub prefill_user_id: Option<String>,
    /// Optional password prefill value for the login form.
    pub prefill_password: Option<String>,
    /// Optional fixed data dir override. When set, every login uses this directory.
    pub data_dir_override: Option<String>,
    /// Optional backend runtime tuning forwarded to `BackendCommand::Init`.
    pub init_config: Option<BackendInitConfig>,
    /// Timeline cap used by frontend in-memory message retention.
    pub timeline_max_items: usize,
    /// Pagination request size sent with `BackendCommand::PaginateBack`.
    pub paginate_limit: u16,
    /// Distance from the top, in pixels, at which older events are asked for: the bits of a
    /// single-precision number.
    pub pagination_top_threshold_bits: u32,
    /// Cooldown used to suppress repeated pagination requests.
    pub pagination_cooldown_ms: u64,
}

/// What a [`DesktopConfig`] says.
#[verifier::ext_equal]
pub struct DesktopConfigView {
    pub prefill_homeserver: Option<Seq<char>>,
    pub prefill_user_id: Option<Seq<char>>,
    pub prefill_password: Option<Seq<char>>,
    pub data_dir_override: Option<Seq<char>>,
    pub init_config: Option<BackendInitConfig>,
    pub timeline_max_items: nat,
    pub paginate_limit: nat,
    pub pagination_top_threshold_bits: u32,
    pub pagination_cooldown_ms: nat,
}

impl View for DesktopConfig {
    type V = DesktopConfigView;

    open spec fn view(&self) -> DesktopConfigView {
        DesktopConfigView {
            prefill_homeserver: types::opt_chars(self.prefill_homeserver),
            prefill_user_id: types::opt_chars(self.prefill_user_id),
            prefill_password: types::opt_chars(self.prefill_password),
            data_dir_override: types::opt_chars(self.data_dir_override),
            init_config: self.init_config,
            timeline_max_items: self.timeline_max_items as nat,
            paginate_limit: self.paginate_limit as nat,
            pagination_top_threshold_bits: self.pagination_top_threshold_bits,
            pagination_cooldown_ms: self.pagination_cooldown_ms as nat,
        }
    }
}

/// The number or the default.
pub open spec fn or_default(number: Option<nat>, default: nat) -> nat {
    match number {
        Some(number) => number,
        None => default,
    }
}

/// Tuning for the backend, where any of its variables is set.
pub open spec fn init_config_of(
    timeout: Option<nat>,
    open_limit: Option<nat>,
    page_cap: Option<nat>,
) -> Option<BackendInitConfig> {
    if timeout is None && open_limit is None && page_cap is None {
        None
    } else {
        Some(
            BackendInitConfig {
                sync_request_timeout_ms: match timeout {
                    Some(number) => Some(number as u64),
                    None => None,
                },
                default_open_room_limit: match open_limit {
                    Some(number) => Some(number as u16),
                    None => None,
                },
                pagination_limit_cap: match page_cap {
                    Some(number) => Some(number as u16),
                    None => None,
                },
            },
        )
    }
}

/// The first variable that cannot be read, if any: they are read in a fixed order, the
/// threshold in between.
pub open spec fn first_unreadable(
    vars: Map<Seq<char>, String>,
    threshold: ThresholdReading,
) -> Option<InvalidValueView> {
    if let Err(e) = number_value(vars, "PIKACHAT_SYNC_REQUEST_TIMEOUT_MS"@, u64::MAX as nat) {
        Some(e)
    } else if let Err(e) = number_value(vars, "PIKACHAT_OPEN_ROOM_LIMIT"@, u16::MAX as nat) {
        Some(e)
    } else if let Err(e) = number_value(vars, "PIKACHAT_PAGINATION_LIMIT_CAP"@, u16::MAX as nat) {
        Some(e)
    } else if let Err(e) = number_value(
        vars,
        "PIKACHAT_DESKTOP_TIMELINE_MAX_ITEMS"@,
        usize::MAX as nat,
    ) {
        Some(e)
    } else if let Err(e) = number_value(
        vars,
        "PIKACHAT_DESKTOP_PAGINATE_LIMIT"@,
        u16::MAX as nat,
    ) {
        Some(e)
    } else if let ThresholdReading::Invalid { value, reason } = threshold {
        Some(
            InvalidValueView {
                key: "PIKACHAT_DESKTOP_PAGINATION_TOP_THRESHOLD_PX"@,
                value: value@,
                reason: reason@,
            },
        )
    } else if let Err(e) = number_value(
        vars,
        "PIKACHAT_DESKTOP_PAGINATION_COOLDOWN_MS"@,
        u64::MAX as nat,
    ) {
        Some(e)
    } else {
        None
    }
}

/// The number that a variable holds, or the default.
pub open spec fn number_or(
    vars: Map<Seq<char>, String>,
    key: Seq<char>,
    largest: nat,
    default: nat,
) -> nat {
    match number_value(vars, key, largest) {
        Ok(number) => or_default(number, default),
        Err(_) => default,
    }
}

/// The number that a variable holds, where it holds one.
pub open spec fn number_of(vars: Map<Seq<char>, String>, key: Seq<char>, largest: nat) -> Option<
    nat,
> {
    match number_value(vars, key, largest) {
        Ok(number) => number,
        Err(_) => None,
    }
}

/// The first value that is out of range, if any.
pub open spec fn first_out_of_range(
    vars: Map<Seq<char>, String>,
    threshold: ThresholdReading,
) -> Option<InvalidValueView> {
    if number_or(
        vars,
        "PIKACHAT_DESKTOP_PAGINATE_LIMIT"@,
        u16::MAX as nat,
        DEFAULT_PAGINATE_LIMIT as nat,
    ) == 0 {
        Some(
            InvalidValueView {
                key: "PIKACHAT_DESKTOP_PAGINATE_LIMIT"@,
                value: "0"@,
                reason: "must be at least 1"@,
            },
        )
    } else if number_or(
        vars,
        "PIKACHAT_DESKTOP_TIMELINE_MAX_ITEMS"@,
        usize::MAX as nat,
        DEFAULT_TIMELINE_MAX_ITEMS as nat,
    ) == 0 {
        Some(
            InvalidValueView {
                key: "PIKACHAT_DESKTOP_TIMELINE_MAX_ITEMS"@,
                value: "0"@,
                reason: "must be at least 1"@,
            },
        )
    } else if let ThresholdReading::NotPositive { value } = threshold {
        Some(
            InvalidValueView {
                key: "PIKACHAT_DESKTOP_PAGINATION_TOP_THRESHOLD_PX"@,
                value: value@,
                reason: "must be greater than 0"@,
            },
        )
    } else {
        None
    }
}

/// The configuration that the variables ask for, where all of them do.
pub open spec fn config_of(
    vars: Map<Seq<char>, String>,
    threshold: ThresholdReading,
) -> DesktopConfigView {
    DesktopConfigView {
        prefill_homeserver: trimmed_value(vars, "PIKACHAT_HOMESERVER"@),
        prefill_user_id: trimmed_value(vars, "PIKACHAT_USER"@),
        prefill_password: trimmed_value(vars, "PIKACHAT_PASSWORD"@),
        data_dir_override: trimmed_value(vars, "PIKACHAT_DATA_DIR"@),
        init_config: init_config_of(
            number_of(vars, "PIKACHAT_SYNC_REQUEST_TIMEOUT_MS"@, u64::MAX as nat),
            number_of(vars, "PIKACHAT_OPEN_ROOM_LIMIT"@, u16::MAX as nat),
            number_of(vars, "PIKACHAT_PAGINATION_LIMIT_CAP"@, u16::MAX as nat),
        ),
        timeline_max_items: number_or(
            vars,
            "PIKACHAT_DESKTOP_TIMELINE_MAX_ITEMS"@,
            usize::MAX as nat,
            DEFAULT_TIMELINE_MAX_ITEMS as nat,
        ),
        paginate_limit: number_or(
            vars,
            "PIKACHAT_DESKTOP_PAGINATE_LIMIT"@,
            u16::MAX as nat,
            DEFAULT_PAGINATE_LIMIT as nat,
        ),
        pagination_top_threshold_bits: match threshold {
            ThresholdReading::Positive { bits } => bits,
            _ => DEFAULT_PAGINATION_TOP_THRESHOLD_BITS,
        },
        pagination_cooldown_ms: number_or(
            vars,
            "PIKACHAT_DESKTOP_PAGINATION_COOLDOWN_MS"@,
            u64::MAX as nat,
            DEFAULT_PAGINATION_COOLDOWN_MS as nat,
        ),
    }
}

fn invalid(key: &'static str, value: &str, reason: &str) -> (error: ConfigError)
    ensures
        error@ == (InvalidValueView { key: key@, value: value@, reason: reason@ }),
{
    ConfigError::InvalidValue { key, value: value.to_owned(), reason: reason.to_owned() }
}

impl DesktopConfig {
    /// Parse configuration from environment variables, given as a map; the host reads the
    /// scroll threshold.
    pub fn from_lookup(vars: &TextMap<String>, threshold: &ThresholdReading) -> (result: Result<
        Self,
        ConfigError,
    >)
        ensures
            match first_unreadable(vars@, *threshold) {
                Some(invalid) => result matches Err(error) && error@ == invalid,
                None => match first_out_of_range(vars@, *threshold) {
                    Some(invalid) => result matches Err(error) && error@ == invalid,
                    None => result matches Ok(config) && config@ == config_of(vars@, *threshold),
                },
            },
    {
        let prefill_homeserver = optional_trimmed_env("PIKACHAT_HOMESERVER", vars);
        let prefill_user_id = optional_trimmed_env("PIKACHAT_USER", vars);
        let prefill_password = optional_trimmed_env("PIKACHAT_PASSWORD", vars);
        let data_dir_override = optional_trimmed_env("PIKACHAT_DATA_DIR", vars);
        let timeout = match parse_optional_u64("PIKACHAT_SYNC_REQUEST_TIMEOUT_MS", vars) {
            Ok(number) => number,
            Err(error) => return Err(error),
        };
        let open_limit = match parse_optional_u16("PIKACHAT_OPEN_ROOM_LIMIT", vars) {
            Ok(number) => number,
            Err(error) => return Err(error),
        };
        let page_cap = match parse_optional_u16("PIKACHAT_PAGINATION_LIMIT_CAP", vars) {
            Ok(number) => number,
            Err(error) => return Err(error),
        };
        let init_config = if timeout.is_none() && open_limit.is_none() && page_cap.is_none() {
            None
        } else {
            Some(
                BackendInitConfig {
                    sync_request_timeout_ms: timeout,
                    default_open_room_limit: open_limit,
                    pagination_limit_cap: page_cap,
                },
            )
        };
        let timeline_max_items: usize = match parse_optional_usize(
            "PIKACHAT_DESKTOP_TIMELINE_MAX_ITEMS",
            DEFAULT_TIMELINE_MAX_ITEMS,
            vars,
        ) {
            Ok(number) => number,
            Err(error) => return Err(error),
        };
        let paginate_limit: u16 = match parse_optional_u16_with_default(
            "PIKACHAT_DESKTOP_PAGINATE_LIMIT",
            DEFAULT_PAGINATE_LIMIT,
            vars,
        ) {
            Ok(number) => number,
            Err(error) => return Err(error),
        };
        match threshold {
            ThresholdReading::Invalid { value, reason } => {
                return Err(
                    invalid(
                        "PIKACHAT_DESKTOP_PAGINATION_TOP_THRESHOLD_PX",
                        value.as_str(),
                        reason.as_str(),
                    ),
                );
            },
            _ => {},
        }
        let pagination_cooldown_ms: u64 = match parse_optional_u64_with_default(
            "PIKACHAT_DESKTOP_PAGINATION_COOLDOWN_MS",
            DEFAULT_PAGINATION_COOLDOWN_MS,
            vars,
        ) {
            Ok(number) => number,
            Err(error) => return Err(error),
        };
        if paginate_limit == 0 {
            return Err(invalid("PIKACHAT_DESKTOP_PAGINATE_LIMIT", "0", "must be at least 1"));
        }
        if timeline_max_items == 0 {
            return Err(invalid("PIKACHAT_DESKTOP_TIMELINE_MAX_ITEMS", "0", "must be at least 1"));
        }
        let pagination_top_threshold_bits: u32 = match threshold {
            ThresholdReading::NotPositive { value } => {
                return Err(
                    invalid(
                        "PIKACHAT_DESKTOP_PAGINATION_TOP_THRESHOLD_PX",
                        value.as_str(),
                        "must be greater than 0",
                    ),
                );
            },
            ThresholdReading::Positive { bits } => *bits,
            _ => DEFAULT_PAGINATION_TOP_THRESHOLD_BITS,
        };
        Ok(
            DesktopConfig {
                prefill_homeserver,
                prefill_user_id,
                prefill_password,
                data_dir_override,
                init_config,
                timeline_max_items,
                paginate_limit,
                pagination_top_threshold_bits,
                pagination_cooldown_ms,
            },
        )
    }

    /// Resolve the data dir of the SDK store for a login attempt.
    pub fn data_dir_for_account(&self, homeserver: &str, user_id: &str) -> (path: String)
        ensures
            path@ == match self@.data_dir_override {
                Some(data_dir) => data_dir,
                None => account_dir(DEFAULT_DATA_DIR_ROOT@, homeserver@, user_id@),
            },
    {
        match &self.data_dir_override {
            Some(data_dir) => data_dir.clone(),
            None => default_data_dir(homeserver, user_id),
        }
    }

    /// Location of the desktop login profile metadata file.
    pub fn auth_profile_path(&self) -> (path: String)
        ensures
            path@ == paths::joined(
                match self@.data_dir_override {
                    Some(data_dir) => data_dir,
                    None => DEFAULT_DATA_DIR_ROOT@,
                },
                LOGIN_PROFILE_FILENAME@,
            ),
    {
        match &self.data_dir_override {
            Some(data_dir) => paths::join(data_dir.as_str(), LOGIN_PROFILE_FILENAME),
            None => paths::join(DEFAULT_DATA_DIR_ROOT, LOGIN_PROFILE_FILENAME),
        }
    }

    /// Local paths that should be removed for destructive logout.
    pub fn logout_wipe_targets(&self) -> (targets: Vec<String>)
        ensures
            targets@.len() == 1,
            targets@[0]@ == match self@.data_dir_override {
                Some(data_dir) => data_dir,
                None => DEFAULT_DATA_DIR_ROOT@,
            },
    {
        let mut targets: Vec<String> = Vec::new();
        match &self.data_dir_override {
            Some(data_dir) => targets.push(data_dir.clone()),
            None => targets.push(DEFAULT_DATA_DIR_ROOT.to_owned()),
        }
        targets
    }
}

/// Data directory of an account below `root`.
pub open spec fn account_dir(root: Seq<char>, homeserver: Seq<char>, user_id: Seq<char>) -> Seq<char> {
    paths::joined(
        paths::joined(root, "hs-"@ + slug(homeserver, SLUG_MAX_LEN as nat)),
        "user-"@ + slug(user_id, SLUG_MAX_LEN as nat),
    )
}

/// Data directory of an account below the default root.
pub fn default_data_dir(homeserver: &str, user_id: &str) -> (path: String)
    ensures
        path@ == account_dir(DEFAULT_DATA_DIR_ROOT@, homeserver@, user_id@),
{
    default_data_dir_under(DEFAULT_DATA_DIR_ROOT, homeserver, user_id)
}

/// Data directory of an account below `data_dir_root`.
pub fn default_data_dir_under(data_dir_root: &str, homeserver: &str, user_id: &str) -> (path: String)
    ensures
        path@ == account_dir(data_dir_root@, homeserver@, user_id@),
{
    let mut homeserver_dir: String = "hs-".to_owned();
    homeserver_dir.append(slugify_component(homeserver, SLUG_MAX_LEN).as_str());
    let mut user_dir: String = "user-".to_owned();
    user_dir.append(slugify_component(user_id, SLUG_MAX_LEN).as_str());
    let server_path = paths::join(data_dir_root, homeserver_dir.as_str());
    paths::join(server_path.as_str(), user_dir.as_str())
}

/// Whether a character stands for itself in a slug, up to its case.
pub open spec fn is_slug_letter(c: char) -> bool {
    'a' <= c <= 'z' || 'A' <= c <= 'Z' || '0' <= c <= '9'
}

/// The character of a slug for a character: letters and digits of ASCII in lower case, and
/// an underscore for anything else.
pub open spec fn slug_char(c: char) -> char {
    if is_slug_letter(c) { text::lower(c) } else { '_' }
}

/// The slug characters of a text, where runs of underscores are one.
pub open spec fn slug_chars(input: Seq<char>) -> Seq<char>
    decreases input.len(),
{
    if input.len() == 0 {
        Seq::empty()
    } else {
        let before = slug_chars(input.drop_last());
        let next = slug_char(input.last());
        if next == '_' && before.len() > 0 && before.last() == '_' {
            before
        } else {
            before.push(next)
        }
    }
}

/// A text without leading underscores.
pub open spec fn no_leading_underscores(input: Seq<char>) -> Seq<char>
    decreases input.len(),
{
    if input.len() > 0 && input[0] == '_' {
        no_leading_underscores(input.skip(1))
    } else {
        input
    }
}

/// A text without trailing underscores.
pub open spec fn no_trailing_underscores(input: Seq<char>) -> Seq<char>
    decreases input.len(),
{
    if input.len() > 0 && input.last() == '_' {
        no_trailing_underscores(input.drop_last())
    } else {
        input
    }
}

/// Part of a directory name made from a text: at most `max_len` of its slug characters,
/// without underscores around them, or `default` where nothing is left.
pub open spec fn slug(input: Seq<char>, max_len: nat) -> Seq<char> {
    let kept = no_trailing_underscores(
        no_leading_underscores(
            text::at_most(slug_chars(input), if max_len == 0 { 1 } else { max_len }),
        ),
    );
    if kept.len() == 0 { "default"@ } else { kept }
}

proof fn lemma_slug_chars_prefix(input: Seq<char>, at: int)
    requires
        0 <= at <= input.len(),
    ensures
        slug_chars(input.take(at)).len() <= slug_chars(input).len(),
        slug_chars(input).take(slug_chars(input.take(at)).len() as int) == slug_chars(
            input.take(at),
        ),
    decreases input.len(),
{
    let part = slug_chars(input.take(at));
    if at == input.len() {
        assert(input.take(at) =~= input);
        assert(part.take(part.len() as int) =~= part);
    } else {
        lemma_slug_chars_prefix(input.drop_last(), at);
        assert(input.drop_last().take(at) =~= input.take(at));
        assert(slug_chars(input).take(part.len() as int) =~= slug_chars(input.drop_last()).take(
            part.len() as int,
        ));
    }
}

/// Part of a directory name made from a text.
pub fn slugify_component(input: &str, max_len: usize) -> (result: String)
    ensures
        result@ == slug(input@, max_len as nat),
{
    let chars = text::chars_of(input);
    let limit: usize = if max_len == 0 { 1 } else { max_len };
    let mut out: Vec<char> = Vec::new();
    let mut at: usize = 0;
    proof {
        assert(input@.take(0) =~= Seq::<char>::empty());
        assert(out@ =~= slug_chars(input@.take(0)));
    }
    while at < chars.len() && out.len() < limit
        invariant
            at <= chars@.len(),
            chars@ == input@,
            out@.len() <= limit,
            1 <= limit,
            out@ == slug_chars(input@.take(at as int)),
        decreases chars@.len() - at,
    {
        proof {
            assert(input@.take(at + 1).drop_last() =~= input@.take(at as int));
        }
        let c: char = chars[at];
        let letter = ('a' <= c && c <= 'z') || ('A' <= c && c <= 'Z') || ('0' <= c && c <= '9');
        let next: char = if letter {
            text::lower_char(c)
        } else {
            '_'
        };
        let repeated = next == '_' && out.len() > 0 && out[out.len() - 1] == '_';
        if !repeated {
            out.push(next);
        }
        at += 1;
    }
    let ghost kept = text::at_most(slug_chars(input@), limit as nat);
    proof {
        lemma_slug_chars_prefix(input@, at as int);
        assert(input@.take(input@.len() as int) =~= input@);
        assert(out@ =~= kept);
    }
    let mut from: usize = 0;
    proof {
        assert(kept.skip(0) =~= kept);
    }
    while from < out.len() && out[from] == '_'
        invariant
            from <= out@.len(),
            out@ == kept,
            no_leading_underscores(kept) == no_leading_underscores(kept.skip(from as int)),
        decreases out@.len() - from,
    {
        proof {
            assert(kept.skip(from as int).skip(1) =~= kept.skip(from + 1));
        }
        from += 1;
    }
    let ghost start = kept.skip(from as int);
    let mut to: usize = out.len();
    proof {
        assert(start.take(to - from) =~= start);
    }
    while to > from && out[to - 1] == '_'
        invariant
            from <= to <= out@.len(),
            out@ == kept,
            start == kept.skip(from as int),
            no_trailing_underscores(start) == no_trailing_underscores(start.take(to - from)),
        decreases to,
    {
        proof {
            assert(start.take(to - from).drop_last() =~= start.take(to - from - 1));
        }
        to -= 1;
    }
    proof {
        assert(out@.subrange(from as int, to as int) =~= start.take(to - from));
    }
    if from == to {
        "default".to_owned()
    } else {
        text::string_from(&out, from, to)
    }
}

/// Whether a character may stand in a slug.
pub open spec fn is_slug_char(c: char) -> bool {
    'a' <= c <= 'z' || '0' <= c <= '9' || c == '_'
}

/// A slug is never empty, never longer than the limit (or than `default`), and made of
/// lower-case letters, digits and underscores: it names one directory, whatever the text is.
pub proof fn lemma_slug_is_a_directory_name(input: Seq<char>, max_len: nat)
    ensures
        slug(input, max_len).len() > 0,
        slug(input, max_len).len() <= max_len || slug(input, max_len).len() <= 7,
        forall|i: int|
            0 <= i < slug(input, max_len).len() ==> is_slug_char(
                #[trigger] slug(input, max_len)[i],
            ),
        !slug(input, max_len).contains('/'),
{
    reveal_strlit("default");
    let chars = slug_chars(input);
    let few = text::at_most(chars, if max_len == 0 { 1 } else { max_len });
    lemma_slug_chars_are_slug_chars(input);
    assert forall|i: int| 0 <= i < few.len() implies is_slug_char(#[trigger] few[i]) by {
        assert(few[i] == chars[i]);
    }
    let start = no_leading_underscores(few);
    lemma_no_leading_keeps(few);
    lemma_no_trailing_keeps(start);
}

/// Whether no two underscores stand side by side.
pub open spec fn has_single_underscores(input: Seq<char>) -> bool {
    forall|i: int, j: int|
        #![trigger input[i], input[j]]
        0 <= i < input.len() && j == i + 1 && j < input.len() ==> !(input[i] == '_' && input[j]
            == '_')
}

/// A slug has no two underscores side by side and none at its edges.
pub proof fn lemma_slug_underscores_stand_apart(input: Seq<char>, max_len: nat)
    ensures
        has_single_underscores(slug(input, max_len)),
        slug(input, max_len)[0] != '_',
        slug(input, max_len).last() != '_',
{
    reveal_strlit("default");
    let few = text::at_most(slug_chars(input), if max_len == 0 { 1 } else { max_len });
    lemma_slug_chars_stand_apart(input);
    let start = no_leading_underscores(few);
    lemma_no_leading_starts_clear(few);
    lemma_no_trailing_ends_clear(start);
}

/// Slugging a slug again changes nothing, where it fits into the limit; only `default` may not.
pub proof fn lemma_slug_is_idempotent(input: Seq<char>, max_len: nat)
    requires
        slug(input, max_len).len() <= if max_len == 0 { 1 } else { max_len },
    ensures
        slug(slug(input, max_len), max_len) == slug(input, max_len),
{
    let once = slug(input, max_len);
    lemma_slug_is_a_directory_name(input, max_len);
    lemma_slug_underscores_stand_apart(input, max_len);
    lemma_slug_chars_of_slug(once);
    assert(text::at_most(once, if max_len == 0 { 1 } else { max_len }) =~= once);
}

proof fn lemma_slug_chars_of_slug(input: Seq<char>)
    requires
        forall|i: int| 0 <= i < input.len() ==> is_slug_char(#[trigger] input[i]),
        has_single_underscores(input),
    ensures
        slug_chars(input) == input,
    decreases input.len(),
{
    if input.len() > 0 {
        let before = input.drop_last();
        assert forall|i: int, j: int|
            #![trigger before[i], before[j]]
            0 <= i < before.len() && j == i + 1 && j < before.len() implies !(before[i] == '_'
            && before[j] == '_') by {
            assert(before[i] == input[i] && before[j] == input[j]);
        }
        lemma_slug_chars_of_slug(before);
        assert(is_slug_char(input[input.len() - 1]));
        assert(slug_char(input.last()) == input.last());
        if before.len() > 0 {
            assert(before.last() == input[input.len() - 2]);
            assert(!(input[input.len() - 2] == '_' && input[input.len() - 1] == '_'));
        }
        assert(before.push(input.last()) =~= input);
    }
}

proof fn lemma_slug_chars_stand_apart(input: Seq<char>)
    ensures
        has_single_underscores(slug_chars(input)),
    decreases input.len(),
{
    if input.len() > 0 {
        let before = slug_chars(input.drop_last());
        let all = slug_chars(input);
        lemma_slug_chars_stand_apart(input.drop_last());
        assert forall|i: int, j: int|
            #![trigger all[i], all[j]]
            0 <= i < all.len() && j == i + 1 && j < all.len() implies !(all[i] == '_' && all[j]
            == '_') by {
            if j < before.len() {
                assert(all[i] == before[i] && all[j] == before[j]);
            } else {
                assert(all[i] == before.last());
            }
        }
    }
}

proof fn lemma_no_leading_starts_clear(input: Seq<char>)
    requires
        has_single_underscores(input),
    ensures
        has_single_underscores(no_leading_underscores(input)),
        no_leading_underscores(input).len() > 0 ==> no_leading_underscores(input)[0] != '_',
    decreases input.len(),
{
    if input.len() > 0 && input[0] == '_' {
        let rest = input.skip(1);
        assert forall|i: int, j: int|
            #![trigger rest[i], rest[j]]
            0 <= i < rest.len() && j == i + 1 && j < rest.len() implies !(rest[i] == '_' && rest[j]
            == '_') by {
            assert(rest[i] == input[i + 1] && rest[j] == input[j + 1]);
        }
        lemma_no_leading_starts_clear(rest);
    }
}

proof fn lemma_no_trailing_ends_clear(input: Seq<char>)
    requires
        has_single_underscores(input),
        input.len() > 0 ==> input[0] != '_',
    ensures
        has_single_underscores(no_trailing_underscores(input)),
        no_trailing_underscores(input).len() > 0 ==> no_trailing_underscores(input)[0] != '_',
        no_trailing_underscores(input).len() > 0 ==> no_trailing_underscores(input).last() != '_',
    decreases input.len(),
{
    if input.len() > 0 && input.last() == '_' {
        let rest = input.drop_last();
        assert forall|i: int, j: int|
            #![trigger rest[i], rest[j]]
            0 <= i < rest.len() && j == i + 1 && j < rest.len() implies !(rest[i] == '_' && rest[j]
            == '_') by {
            assert(rest[i] == input[i] && rest[j] == input[j]);
        }
        lemma_no_trailing_ends_clear(rest);
    }
}

proof fn lemma_slug_chars_are_slug_chars(input: Seq<char>)
    ensures
        forall|i: int| 0 <= i < slug_chars(input).len() ==> is_slug_char(#[trigger] slug_chars(input)[i]),
    decreases input.len(),
{
    if input.len() > 0 {
        let before = slug_chars(input.drop_last());
        lemma_slug_chars_are_slug_chars(input.drop_last());
        assert(is_slug_char(slug_char(input.last())));
        assert forall|i: int| 0 <= i < slug_chars(input).len() implies is_slug_char(
            #[trigger] slug_chars(input)[i],
        ) by {
            if i < before.len() {
                assert(slug_chars(input)[i] == before[i]);
            }
        }
    }
}

proof fn lemma_no_leading_keeps(input: Seq<char>)
    requires
        forall|i: int| 0 <= i < input.len() ==> is_slug_char(#[trigger] input[i]),
    ensures
        no_leading_underscores(input).len() <= input.len(),
        forall|i: int|
            0 <= i < no_leading_underscores(input).len() ==> is_slug_char(
                #[trigger] no_leading_underscores(input)[i],
            ),
    decreases input.len(),
{
    if input.len() > 0 && input[0] == '_' {
        lemma_no_leading_keeps(input.skip(1));
    }
}

proof fn lemma_no_trailing_keeps(input: Seq<char>)
    requires
        forall|i: int| 0 <= i < input.len() ==> is_slug_char(#[trigger] input[i]),
    ensures
        no_trailing_underscores(input).len() <= input.len(),
        forall|i: int|
            0 <= i < no_trailing_underscores(input).len() ==> is_slug_char(
                #[trigger] no_trailing_underscores(input)[i],
            ),
    decreases input.len(),
{
    if input.len() > 0 && input.last() == '_' {
        lemma_no_trailing_keeps(input.drop_last());
    }
}

} // verus!
