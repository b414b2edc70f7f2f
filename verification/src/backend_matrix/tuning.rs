//! Runtime tuning derived from the values that come with `Init`.
use vstd::prelude::*;

use crate::backend_core::error::{self, BackendError, BackendErrorCategory, BackendErrorView};
use crate::backend_core::types::BackendInitConfig;

verus! {

/// Number of events loaded when a room is opened, unless configured.
pub const DEFAULT_OPEN_ROOM_LIMIT: u16 = 30;

/// Cap on the number of events per page, unless configured.
pub const DEFAULT_PAGINATION_LIMIT_CAP: u16 = 100;

/// Tuning values that the runtime works with.
#[derive(Debug, Clone, Copy, PartialEq, Eq, Structural)]
pub struct RuntimeTuning {
    /// Timeout of a sync request in milliseconds, where one is set.
    pub sync_request_timeout_ms: Option<u64>,
    /// Number of events loaded when a room is opened.
    pub open_room_limit: u16,
    /// Cap on the number of events per page.
    pub pagination_limit_cap: u16,
}

impl RuntimeTuning {
    /// No value is zero.
    pub open spec fn is_usable(self) -> bool {
        &&& self.sync_request_timeout_ms != Some(0u64)
        &&& self.open_room_limit > 0
        &&& self.pagination_limit_cap > 0
    }
}

impl Default for RuntimeTuning {
    fn default() -> (tuning: Self)
        ensures
            tuning == default_tuning(),
            tuning.is_usable(),
    {
        RuntimeTuning {
            sync_request_timeout_ms: None,
            open_room_limit: DEFAULT_OPEN_ROOM_LIMIT,
            pagination_limit_cap: DEFAULT_PAGINATION_LIMIT_CAP,
        }
    }
}

/// The tuning without configured values.
pub open spec fn default_tuning() -> RuntimeTuning {
    RuntimeTuning {
        sync_request_timeout_ms: None,
        open_room_limit: DEFAULT_OPEN_ROOM_LIMIT,
        pagination_limit_cap: DEFAULT_PAGINATION_LIMIT_CAP,
    }
}

/// The error for a configured value that is zero.
pub open spec fn zero_value_error(name: Seq<char>) -> BackendErrorView {
    error::plain_error(
        BackendErrorCategory::Config,
        "invalid_init_config"@,
        name + " must be greater than zero when provided"@,
    )
}

/// The tuning that a configuration asks for, or the error of the first value that is zero.
pub open spec fn tuning_of(config: Option<BackendInitConfig>) -> Result<
    RuntimeTuning,
    BackendErrorView,
> {
    match config {
        None => Ok(default_tuning()),
        Some(config) => if config.sync_request_timeout_ms == Some(0u64) {
            Err(zero_value_error("sync_request_timeout_ms"@))
        } else if config.default_open_room_limit == Some(0u16) {
            Err(zero_value_error("default_open_room_limit"@))
        } else if config.pagination_limit_cap == Some(0u16) {
            Err(zero_value_error("pagination_limit_cap"@))
        } else {
            Ok(
                RuntimeTuning {
                    sync_request_timeout_ms: config.sync_request_timeout_ms,
                    open_room_limit: match config.default_open_room_limit {
                        Some(limit) => limit,
                        None => DEFAULT_OPEN_ROOM_LIMIT,
                    },
                    pagination_limit_cap: match config.pagination_limit_cap {
                        Some(cap) => cap,
                        None => DEFAULT_PAGINATION_LIMIT_CAP,
                    },
                },
            )
        },
    }
}

fn zero_value(name: &str) -> (failure: BackendError)
    ensures
        failure@ == zero_value_error(name@),
{
    let mut message: String = name.to_owned();
    message.append(" must be greater than zero when provided");
    BackendError::new(BackendErrorCategory::Config, "invalid_init_config", message.as_str())
}

/// The tuning that a configuration asks for; values that are zero are refused.
pub fn runtime_tuning_from_init_config(config: Option<BackendInitConfig>) -> (result: Result<
    RuntimeTuning,
    BackendError,
>)
    ensures
        match result {
            Ok(tuning) => tuning_of(config) == Ok::<RuntimeTuning, BackendErrorView>(tuning)
                && tuning.is_usable(),
            Err(failure) => tuning_of(config) == Err::<RuntimeTuning, BackendErrorView>(failure@),
        },
{
    let config: BackendInitConfig = match config {
        Some(config) => config,
        None => return Ok(RuntimeTuning::default()),
    };
    match config.sync_request_timeout_ms {
        Some(0) => return Err(zero_value("sync_request_timeout_ms")),
        _ => {},
    }
    let open_room_limit: u16 = match config.default_open_room_limit {
        Some(limit) => limit,
        None => DEFAULT_OPEN_ROOM_LIMIT,
    };
    if open_room_limit == 0 {
        return Err(zero_value("default_open_room_limit"));
    }
    let pagination_limit_cap: u16 = match config.pagination_limit_cap {
        Some(cap) => cap,
        None => DEFAULT_PAGINATION_LIMIT_CAP,
    };
    if pagination_limit_cap == 0 {
        return Err(zero_value("pagination_limit_cap"));
    }
    Ok(
        RuntimeTuning {
            sync_request_timeout_ms: config.sync_request_timeout_ms,
            open_room_limit,
            pagination_limit_cap,
        },
    )
}

} // verus!
