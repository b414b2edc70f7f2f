//! What errors and acknowledgements carry, and how they are told.
use vstd::prelude::*;

use super::channel;
use super::error::{self, BackendError, BackendErrorCategory};
use super::normalization::{self, SendOutcome};
use super::types::{BackendEvent, BackendEventView, BackendLifecycleState};
use crate::text;
use crate::text_laws;

verus! {

/// Each category and each lifecycle state has a name of its own.
pub proof fn lemma_names_differ(
    left: BackendErrorCategory,
    right: BackendErrorCategory,
    state: BackendLifecycleState,
    other: BackendLifecycleState,
)
    ensures
        left.spec_name() == right.spec_name() <==> left == right,
        state.spec_name() == other.spec_name() <==> state == other,
{
    reveal_strlit("Config");
    reveal_strlit("Auth");
    reveal_strlit("Network");
    reveal_strlit("RateLimited");
    reveal_strlit("Crypto");
    reveal_strlit("Storage");
    reveal_strlit("Serialization");
    reveal_strlit("Internal");
    assert("Config"@.len() == 6 && "Auth"@.len() == 4 && "Network"@.len() == 7
        && "RateLimited"@.len() == 11 && "Crypto"@.len() == 6 && "Storage"@.len() == 7
        && "Serialization"@.len() == 13 && "Internal"@.len() == 8);
    assert("Config"@[1] != "Crypto"@[1]);
    assert("Network"@[0] != "Storage"@[0]);
    reveal_strlit("Cold");
    reveal_strlit("Configured");
    reveal_strlit("Authenticating");
    reveal_strlit("Authenticated");
    reveal_strlit("Syncing");
    reveal_strlit("LoggedOut");
    reveal_strlit("Fatal");
    assert("Cold"@.len() == 4 && "Configured"@.len() == 10 && "Authenticating"@.len() == 14
        && "Authenticated"@.len() == 13 && "Syncing"@.len() == 7 && "LoggedOut"@.len() == 9
        && "Fatal"@.len() == 5);
}

/// An error carries what it was made with, and no delay; a delay that is added changes nothing
/// else.
pub proof fn lemma_errors_carry_what_they_were_given(
    category: BackendErrorCategory,
    code: &str,
    message: &str,
    failure: BackendError,
    retry_after_ms: u128,
    delayed: BackendError,
)
    requires
        call_ensures(BackendError::new, (category, code, message), failure),
        call_ensures(BackendError::with_retry_after, (failure, retry_after_ms), delayed),
    ensures
        failure.category == category,
        failure.code@ == code@,
        failure.message@ == message@,
        failure.retry_after_ms is None,
        delayed.category == category,
        delayed.code@ == code@,
        delayed.message@ == message@,
        retry_after_ms <= u64::MAX ==> delayed.retry_after_ms == Some(retry_after_ms as u64),
{
    assert(failure@.code == code@ && failure@.message == message@);
    assert(delayed@.code == code@ && delayed@.message == message@);
    if retry_after_ms <= u64::MAX {
        assert(retry_after_ms % 0x1_0000_0000_0000_0000 == retry_after_ms);
    }
}

/// The refusal of an action names the action and the state.
pub proof fn lemma_refusals_name_action_and_state(
    current: BackendLifecycleState,
    action: Seq<char>,
)
    ensures
        ({
            let refusal = error::invalid_state_error(current, action);
            &&& refusal.code == "invalid_state_transition"@
            &&& refusal.category is Internal
            &&& refusal.retry_after_ms is None
            &&& text::contains(refusal.message, action)
            &&& text::contains(refusal.message, current.spec_name())
        }),
{
    let first = "cannot run '"@;
    let second = "' while backend is in state "@;
    let name = current.spec_name();
    let message = first + action + second + name;
    assert(message =~= first + action + (second + name));
    assert(message =~= (first + action + second) + name + Seq::<char>::empty());
    text_laws::lemma_pattern_within_is_found(first, action, second + name);
    text_laws::lemma_pattern_within_is_found(first + action + second, name, Seq::empty());
}

/// An error is told by its category, its code and its message.
pub proof fn lemma_errors_are_told_in_full(failure: BackendError, line: String)
    requires
        call_ensures(BackendError::to_text, (&failure,), line),
    ensures
        line@ == failure.category.spec_name() + ":"@ + failure.code@ + ": "@ + failure.message@,
        text::contains(line@, failure.code@),
        text::contains(line@, failure.message@),
{
    let head = failure.category.spec_name() + ":"@;
    let code = failure.code@;
    let message = failure.message@;
    assert(line@ =~= head + code + (": "@ + message));
    assert(line@ =~= (head + code + ": "@) + message + Seq::<char>::empty());
    text_laws::lemma_pattern_within_is_found(head, code, ": "@ + message);
    text_laws::lemma_pattern_within_is_found(head + code + ": "@, message, Seq::empty());
}

/// A send that succeeded is acknowledged with its event ID, one that failed with its code; the
/// transaction is that of the send.
pub proof fn lemma_sends_are_acknowledged(
    client_txn_id: &str,
    outcome: SendOutcome,
    event: BackendEvent,
)
    requires
        call_ensures(normalization::normalize_send_outcome, (client_txn_id, outcome), event),
    ensures
        event@ is SendAck,
        event@->SendAck_client_txn_id == client_txn_id@,
        outcome matches SendOutcome::Success { event_id } ==> event@->SendAck_event_id == Some(
            event_id@,
        ) && event@->SendAck_error_code is None,
        outcome matches SendOutcome::Failure { error } ==> event@->SendAck_event_id is None
            && event@->SendAck_error_code == Some(error.code@),
{
}

/// A fatal error is reported with its code and its message, and whether it can be recovered
/// from; a message of a failed send is one of the network.
pub proof fn lemma_fatal_errors_are_reported(
    failure: BackendError,
    recoverable: bool,
    event: BackendEvent,
    message: &str,
    classified: BackendError,
)
    requires
        call_ensures(normalization::normalize_fatal_error, (failure, recoverable), event),
        call_ensures(normalization::classify_send_error_message, (message,), classified),
    ensures
        event@ == (BackendEventView::FatalError {
            code: failure.code@,
            message: failure.message@,
            recoverable,
        }),
        classified@.category is Network,
        classified@.code == "send_failed"@,
        classified@.message == message@,
{
}

/// A channel holds what it is asked to hold, and one message at least.
pub proof fn lemma_channels_hold_a_message(buffer: usize, capacity: usize)
    requires
        call_ensures(channel::channel_capacity, (buffer,), capacity),
    ensures
        capacity >= 1,
        buffer >= 1 ==> capacity == buffer,
{
}

} // verus!
