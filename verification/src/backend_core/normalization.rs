//! Event normalization helpers (for example send acknowledgements).
use vstd::prelude::*;

use super::error::{self, BackendError, BackendErrorCategory};
use super::types::{BackendEvent, BackendEventView, SendAck};

verus! {

/// Internal helper describing send command success/failure before normalization.
#[derive(Debug, Clone, PartialEq, Eq)]
pub enum SendOutcome {
    /// Send succeeded and produced an event ID.
    Success { event_id: String },
    /// Send failed with backend error details.
    Failure { error: BackendError },
}

/// The acknowledgement that reports a send outcome.
pub open spec fn send_ack_of(client_txn_id: Seq<char>, outcome: SendOutcome) -> BackendEventView {
    match outcome {
        SendOutcome::Success { event_id } => BackendEventView::SendAck {
            client_txn_id,
            event_id: Some(event_id@),
            error_code: None,
        },
        SendOutcome::Failure { error } => BackendEventView::SendAck {
            client_txn_id,
            event_id: None,
            error_code: Some(error.code@),
        },
    }
}

/// Convert a send command outcome to a stable `BackendEvent::SendAck`.
pub fn normalize_send_outcome(client_txn_id: &str, outcome: SendOutcome) -> (event: BackendEvent)
    ensures
        event@ == send_ack_of(client_txn_id@, outcome),
{
    match outcome {
        SendOutcome::Success { event_id } => BackendEvent::SendAck(
            SendAck {
                client_txn_id: client_txn_id.to_owned(),
                event_id: Some(event_id),
                error_code: None,
            },
        ),
        SendOutcome::Failure { error } => BackendEvent::SendAck(
            SendAck {
                client_txn_id: client_txn_id.to_owned(),
                event_id: None,
                error_code: Some(error.code),
            },
        ),
    }
}

/// Convert an error into a `FatalError` backend event.
pub fn normalize_fatal_error(error: BackendError, recoverable: bool) -> (event: BackendEvent)
    ensures
        event@ == (BackendEventView::FatalError {
            code: error.code@,
            message: error.message@,
            recoverable,
        }),
{
    BackendEvent::FatalError { code: error.code, message: error.message, recoverable }
}

/// Convert a generic send failure message to a default network-classified error.
pub fn classify_send_error_message(message: &str) -> (error: BackendError)
    ensures
        error@ == error::plain_error(BackendErrorCategory::Network, "send_failed"@, message@),
{
    BackendError::new(BackendErrorCategory::Network, "send_failed", message)
}

} // verus!
