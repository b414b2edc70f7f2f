//! Stable backend error types and HTTP classification helpers.
use vstd::prelude::*;

use super::types::BackendLifecycleState;

verus! {

/// Coarse classification of a backend error.
#[derive(Debug, Clone, Copy, PartialEq, Eq, Structural)]
pub enum BackendErrorCategory {
    /// The request or the configuration is at fault.
    Config,
    /// Credentials or session are at fault.
    Auth,
    /// The homeserver could not be reached or failed.
    Network,
    /// The homeserver asked to slow down.
    RateLimited,
    /// An end-to-end encryption operation failed.
    Crypto,
    /// Local persistence failed.
    Storage,
    /// Data could not be encoded or decoded.
    Serialization,
    /// Anything else.
    Internal,
}

impl BackendErrorCategory {
    /// Name of the category, as it appears in error messages.
    pub open spec fn spec_name(self) -> Seq<char> {
        match self {
            BackendErrorCategory::Config => "Config"@,
            BackendErrorCategory::Auth => "Auth"@,
            BackendErrorCategory::Network => "Network"@,
            BackendErrorCategory::RateLimited => "RateLimited"@,
            BackendErrorCategory::Crypto => "Crypto"@,
            BackendErrorCategory::Storage => "Storage"@,
            BackendErrorCategory::Serialization => "Serialization"@,
            BackendErrorCategory::Internal => "Internal"@,
        }
    }

    /// Name of the category, as it appears in error messages.
    pub fn name(self) -> (name: &'static str)
        ensures
            name@ == self.spec_name(),
    {
        match self {
            BackendErrorCategory::Config => "Config",
            BackendErrorCategory::Auth => "Auth",
            BackendErrorCategory::Network => "Network",
            BackendErrorCategory::RateLimited => "RateLimited",
            BackendErrorCategory::Crypto => "Crypto",
            BackendErrorCategory::Storage => "Storage",
            BackendErrorCategory::Serialization => "Serialization",
            BackendErrorCategory::Internal => "Internal",
        }
    }
}

/// Error with a stable code, reported to the frontend.
#[derive(Debug, PartialEq, Eq)]
pub struct BackendError {
    /// Coarse classification.
    pub category: BackendErrorCategory,
    /// Stable machine-readable code.
    pub code: String,
    /// Human-readable message.
    pub message: String,
    /// Delay that the homeserver asked for before the next attempt.
    pub retry_after_ms: Option<u64>,
}

/// What a [`BackendError`] says.
#[verifier::ext_equal]
pub struct BackendErrorView {
    pub category: BackendErrorCategory,
    pub code: Seq<char>,
    pub message: Seq<char>,
    pub retry_after_ms: Option<u64>,
}

impl View for BackendError {
    type V = BackendErrorView;

    open spec fn view(&self) -> BackendErrorView {
        BackendErrorView {
            category: self.category,
            code: self.code@,
            message: self.message@,
            retry_after_ms: self.retry_after_ms,
        }
    }
}

impl Clone for BackendError {
    fn clone(&self) -> (copy: Self)
        ensures
            copy@ == self@,
    {
        BackendError {
            category: self.category,
            code: self.code.clone(),
            message: self.message.clone(),
            retry_after_ms: self.retry_after_ms,
        }
    }
}

/// An error without a retry delay.
pub open spec fn plain_error(
    category: BackendErrorCategory,
    code: Seq<char>,
    message: Seq<char>,
) -> BackendErrorView {
    BackendErrorView { category, code, message, retry_after_ms: None }
}

/// The error of an action that the current lifecycle state does not allow.
pub open spec fn invalid_state_error(
    current: BackendLifecycleState,
    action: Seq<char>,
) -> BackendErrorView {
    plain_error(
        BackendErrorCategory::Internal,
        "invalid_state_transition"@,
        "cannot run '"@ + action + "' while backend is in state "@ + current.spec_name(),
    )
}

impl BackendError {
    /// An error without a retry delay.
    pub fn new(category: BackendErrorCategory, code: &str, message: &str) -> (error: Self)
        ensures
            error@ == plain_error(category, code@, message@),
    {
        BackendError {
            category,
            code: code.to_owned(),
            message: message.to_owned(),
            retry_after_ms: None,
        }
    }

    /// The same error with a retry delay of `retry_after_ms` milliseconds,
    /// of which the low 64 bits are kept.
    pub fn with_retry_after(self, retry_after_ms: u128) -> (error: Self)
        ensures
            error@ == (BackendErrorView {
                retry_after_ms: Some((retry_after_ms % 0x1_0000_0000_0000_0000) as u64),
                ..self@
            }),
    {
        BackendError {
            category: self.category,
            code: self.code,
            message: self.message,
            retry_after_ms: Some((retry_after_ms % 0x1_0000_0000_0000_0000) as u64),
        }
    }

    /// The error of an action that the current lifecycle state does not allow.
    pub fn invalid_state(current: BackendLifecycleState, action: &str) -> (error: Self)
        ensures
            error@ == invalid_state_error(current, action@),
    {
        let mut message: String = "cannot run '".to_owned();
        message.append(action);
        message.append("' while backend is in state ");
        message.append(current.name());
        BackendError {
            category: BackendErrorCategory::Internal,
            code: "invalid_state_transition".to_owned(),
            message,
            retry_after_ms: None,
        }
    }

    /// One-line rendering: category, code and message.
    pub fn to_text(&self) -> (text: String)
        ensures
            text@ == self.category.spec_name() + ":"@ + self.code@ + ": "@ + self.message@,
    {
        let mut text: String = self.category.name().to_owned();
        text.append(":");
        text.append(self.code.as_str());
        text.append(": ");
        text.append(self.message.as_str());
        text
    }
}

/// Category of a failed HTTP request, by its status.
pub open spec fn http_status_category(status: u16) -> BackendErrorCategory {
    if status == 401 || status == 403 {
        BackendErrorCategory::Auth
    } else if status == 408 || status == 429 {
        BackendErrorCategory::RateLimited
    } else if 400 <= status <= 499 {
        BackendErrorCategory::Config
    } else if 500 <= status <= 599 {
        BackendErrorCategory::Network
    } else {
        BackendErrorCategory::Internal
    }
}

/// Category of a failed HTTP request, by its status.
pub fn classify_http_status(status: u16) -> (category: BackendErrorCategory)
    ensures
        category == http_status_category(status),
{
    match status {
        401 | 403 => BackendErrorCategory::Auth,
        408 | 429 => BackendErrorCategory::RateLimited,
        400..=499 => BackendErrorCategory::Config,
        500..=599 => BackendErrorCategory::Network,
        _ => BackendErrorCategory::Internal,
    }
}

} // verus!
