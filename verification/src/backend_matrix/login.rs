//! Password login: retries, fallback to a session that is there already, and recovery
//! from a local store that belongs to another account.
use vstd::prelude::*;

use super::errors;
use super::persistence::StoredSession;
use crate::backend_core::error::{self, BackendError, BackendErrorCategory, BackendErrorView};
use crate::backend_core::types;
use crate::text;

verus! {

/// Number of retries while the homeserver limits the rate of logins.
pub const MAX_LOGIN_RETRIES: u8 = 3;

/// Delay before a retry where the homeserver names none.
pub const DEFAULT_LOGIN_RETRY_MS: u64 = 2_000;

/// Shortest delay before a retry.
pub const MIN_LOGIN_RETRY_MS: u64 = 250;

/// Time that one login attempt may take, unless configured.
pub const DEFAULT_LOGIN_TIMEOUT_MS: u64 = 12_000;

/// Name under which the device appears to other users.
pub const DEFAULT_DEVICE_DISPLAY_NAME: &'static str = "PikaChat Desktop";

/// The error of a login attempt that took too long.
pub fn login_timeout_error(timeout_ms: u64) -> (failure: BackendError)
    ensures
        failure@ == error::plain_error(
            BackendErrorCategory::Network,
            "auth_login_timeout"@,
            "password login timed out after "@ + text::decimal(timeout_ms as nat) + " ms"@,
        ),
{
    let mut message: String = "password login timed out after ".to_owned();
    message.append(text::decimal_string(timeout_ms).as_str());
    message.append(" ms");
    BackendError::new(BackendErrorCategory::Network, "auth_login_timeout", message.as_str())
}

/// What a login flow does next.
#[derive(Debug)]
pub enum LoginStep {
    /// Attempt a login, with this device ID where there is one.
    Attempt { device_id: Option<String> },
    /// Wait, then attempt a login.
    WaitAndAttempt { delay_ms: u64, device_id: Option<String> },
    /// Keep the device ID where there is one, close the client, wipe the local store and
    /// open it anew.
    ResetStore { device_id: Option<String> },
    /// The homeserver accepted the login: persist the session, and keep the device ID.
    PersistSession,
    /// The homeserver accepted the login: forget the session that was persisted, where there
    /// is one, and keep the device ID.
    ForgetSession,
    /// The flow ends with the user signed in.
    Succeed,
    /// The flow ends with an error.
    Fail { failure: BackendError },
}

/// What a [`LoginStep`] says.
#[verifier::ext_equal]
pub enum LoginStepView {
    Attempt { device_id: Option<Seq<char>> },
    WaitAndAttempt { delay_ms: u64, device_id: Option<Seq<char>> },
    ResetStore { device_id: Option<Seq<char>> },
    PersistSession,
    ForgetSession,
    Succeed,
    Fail { failure: BackendErrorView },
}

impl View for LoginStep {
    type V = LoginStepView;

    open spec fn view(&self) -> LoginStepView {
        match self {
            LoginStep::Attempt { device_id } => LoginStepView::Attempt {
                device_id: types::opt_chars(*device_id),
            },
            LoginStep::WaitAndAttempt { delay_ms, device_id } => LoginStepView::WaitAndAttempt {
                delay_ms: *delay_ms,
                device_id: types::opt_chars(*device_id),
            },
            LoginStep::ResetStore { device_id } => LoginStepView::ResetStore {
                device_id: types::opt_chars(*device_id),
            },
            LoginStep::PersistSession => LoginStepView::PersistSession,
            LoginStep::ForgetSession => LoginStepView::ForgetSession,
            LoginStep::Succeed => LoginStepView::Succeed,
            LoginStep::Fail { failure } => LoginStepView::Fail { failure: failure@ },
        }
    }
}

/// A password login on its way.
#[derive(Debug)]
pub struct LoginFlow {
    owns_store: bool,
    persist_session: bool,
    device_id: Option<String>,
    retries: u8,
    store_was_reset: bool,
}

/// What a [`LoginFlow`] remembers.
#[verifier::ext_equal]
pub struct LoginFlowView {
    /// Whether the runtime may wipe the local store.
    pub owns_store: bool,
    /// Whether the session is to be persisted.
    pub persist_session: bool,
    /// Device ID that the next attempt asks for.
    pub device_id: Option<Seq<char>>,
    /// Retries since the store was opened.
    pub retries: nat,
    /// Whether the store was wiped in this flow.
    pub store_was_reset: bool,
}

impl View for LoginFlow {
    type V = LoginFlowView;

    closed spec fn view(&self) -> LoginFlowView {
        LoginFlowView {
            owns_store: self.owns_store,
            persist_session: self.persist_session,
            device_id: types::opt_chars(self.device_id),
            retries: self.retries as nat,
            store_was_reset: self.store_was_reset,
        }
    }
}

/// A flow and what it does next.
#[verifier::ext_equal]
pub struct LoginTurn {
    pub flow: LoginFlowView,
    pub step: LoginStepView,
}

/// What an answer of the homeserver or the SDK says.
pub open spec fn outcome_view(outcome: Result<(), BackendError>) -> Result<(), BackendErrorView> {
    match outcome {
        Ok(_) => Ok(()),
        Err(failure) => Err(failure@),
    }
}

/// Delay before the next attempt while the homeserver limits the rate.
pub open spec fn retry_delay(failure: BackendErrorView) -> u64 {
    let wanted: u64 = match failure.retry_after_ms {
        Some(ms) => ms,
        None => DEFAULT_LOGIN_RETRY_MS,
    };
    if wanted >= MIN_LOGIN_RETRY_MS { wanted } else { MIN_LOGIN_RETRY_MS }
}

/// Device ID of the store that an error tells of, or the one asked for so far.
pub open spec fn device_id_after_mismatch(
    failure: BackendErrorView,
    device_id: Option<Seq<char>>,
) -> Option<Seq<char>> {
    match errors::expected_device_id(failure.message) {
        Some(expected) => Some(expected),
        None => device_id,
    }
}

/// How a flow goes on after an attempt; `has_session` says whether the client has a
/// session all the same.
pub open spec fn after_attempt(
    flow: LoginFlowView,
    outcome: Result<(), BackendErrorView>,
    has_session: bool,
) -> LoginTurn {
    match outcome {
        Ok(_) => LoginTurn {
            flow,
            step: if flow.persist_session {
                LoginStepView::PersistSession
            } else {
                LoginStepView::ForgetSession
            },
        },
        Err(failure) => if failure.category is RateLimited && flow.retries < MAX_LOGIN_RETRIES {
            LoginTurn {
                flow: LoginFlowView { retries: flow.retries + 1, ..flow },
                step: LoginStepView::WaitAndAttempt {
                    delay_ms: retry_delay(failure),
                    device_id: flow.device_id,
                },
            }
        } else if !flow.store_was_reset && flow.owns_store && errors::says_account_mismatch(
            failure.message,
        ) {
            let device_id = device_id_after_mismatch(failure, flow.device_id);
            LoginTurn {
                flow: LoginFlowView { device_id, retries: 0, store_was_reset: true, ..flow },
                step: LoginStepView::ResetStore { device_id },
            }
        } else if !flow.store_was_reset && has_session && errors::allows_session_fallback(
            failure,
        ) {
            LoginTurn { flow, step: LoginStepView::Succeed }
        } else {
            LoginTurn { flow, step: LoginStepView::Fail { failure } }
        },
    }
}

/// How a flow goes on after the store was to be wiped and opened anew.
pub open spec fn after_reset(flow: LoginFlowView, outcome: Result<(), BackendErrorView>) -> LoginStepView {
    match outcome {
        Ok(_) => LoginStepView::Attempt { device_id: flow.device_id },
        Err(failure) => LoginStepView::Fail { failure },
    }
}

impl LoginFlow {
    #[verifier::type_invariant]
    spec fn is_well_formed(self) -> bool {
        self.retries <= MAX_LOGIN_RETRIES
    }

    /// A login that asks for the device ID, where there is one. `owns_store` says whether
    /// the runtime may wipe the local store, `persist_session` whether a later start is to
    /// find the session.
    pub fn new(device_id: Option<String>, owns_store: bool, persist_session: bool) -> (flow: Self)
        ensures
            flow@ == (LoginFlowView {
                owns_store,
                persist_session,
                device_id: types::opt_chars(device_id),
                retries: 0,
                store_was_reset: false,
            }),
    {
        LoginFlow { owns_store, persist_session, device_id, retries: 0, store_was_reset: false }
    }

    /// The first step.
    pub fn first_step(&self) -> (step: LoginStep)
        ensures
            step@ == (LoginStepView::Attempt { device_id: self@.device_id }),
    {
        LoginStep::Attempt { device_id: types::clone_opt_string(&self.device_id) }
    }

    /// The step after an attempt; `has_session` says whether the client has a session all
    /// the same.
    pub fn on_attempt(&mut self, outcome: Result<(), BackendError>, has_session: bool) -> (step:
        LoginStep)
        ensures
            (LoginTurn { flow: final(self)@, step: step@ }) == after_attempt(
                old(self)@,
                outcome_view(outcome),
                has_session,
            ),
    {
        proof {
            use_type_invariant(&*self);
        }
        let failure = match outcome {
            Ok(_) => if self.persist_session {
                return LoginStep::PersistSession;
            } else {
                return LoginStep::ForgetSession;
            },
            Err(failure) => failure,
        };
        let limited = match failure.category {
            BackendErrorCategory::RateLimited => true,
            _ => false,
        };
        if limited && self.retries < MAX_LOGIN_RETRIES {
            let wanted: u64 = match failure.retry_after_ms {
                Some(ms) => ms,
                None => DEFAULT_LOGIN_RETRY_MS,
            };
            let delay_ms: u64 = if wanted >= MIN_LOGIN_RETRY_MS {
                wanted
            } else {
                MIN_LOGIN_RETRY_MS
            };
            self.retries = self.retries + 1;
            return LoginStep::WaitAndAttempt {
                delay_ms,
                device_id: types::clone_opt_string(&self.device_id),
            };
        }
        if !self.store_was_reset && self.owns_store && errors::is_store_account_mismatch_message(
            failure.message.as_str(),
        ) {
            let expected = errors::expected_device_id_from_store_mismatch_message(
                failure.message.as_str(),
            );
            let device_id = match expected {
                Some(expected) => Some(expected),
                None => types::clone_opt_string(&self.device_id),
            };
            *self = LoginFlow {
                owns_store: self.owns_store,
                persist_session: self.persist_session,
                device_id: types::clone_opt_string(&device_id),
                retries: 0,
                store_was_reset: true,
            };
            return LoginStep::ResetStore { device_id };
        }
        if !self.store_was_reset && has_session && errors::is_session_login_fallback_error(
            &failure,
        ) {
            return LoginStep::Succeed;
        }
        LoginStep::Fail { failure }
    }

    /// The step after the store was to be wiped and opened anew.
    pub fn on_store_reset(&self, outcome: Result<(), BackendError>) -> (step: LoginStep)
        ensures
            step@ == after_reset(self@, outcome_view(outcome)),
    {
        match outcome {
            Ok(_) => LoginStep::Attempt { device_id: types::clone_opt_string(&self.device_id) },
            Err(failure) => LoginStep::Fail { failure },
        }
    }

    /// The step after the session was to be persisted or forgotten.
    pub fn on_persisted(&self, outcome: Result<(), BackendError>) -> (step: LoginStep)
        ensures
            step@ == match outcome {
                Ok(_) => LoginStepView::Succeed,
                Err(failure) => LoginStepView::Fail { failure: failure@ },
            },
    {
        match outcome {
            Ok(_) => LoginStep::Succeed,
            Err(failure) => LoginStep::Fail { failure },
        }
    }
}

/// Number of attempts that may still follow.
pub open spec fn attempts_left(flow: LoginFlowView) -> int {
    (if flow.store_was_reset { 0int } else { MAX_LOGIN_RETRIES + 1 }) + (MAX_LOGIN_RETRIES
        - flow.retries)
}

/// A login ends: every step that leads to another attempt uses up one of a fixed number
/// of attempts.
pub proof fn lemma_login_ends(
    flow: LoginFlowView,
    outcome: Result<(), BackendErrorView>,
    has_session: bool,
)
    requires
        flow.retries <= MAX_LOGIN_RETRIES,
    ensures
        ({
            let turn = after_attempt(flow, outcome, has_session);
            &&& turn.flow.retries <= MAX_LOGIN_RETRIES
            &&& turn.step is WaitAndAttempt || turn.step is ResetStore ==> 0 <= attempts_left(
                turn.flow,
            ) < attempts_left(flow)
        }),
{
}

/// The store is wiped at most once in a flow, and only where the runtime owns it and the
/// error says that it belongs to another account.
pub proof fn lemma_store_is_reset_at_most_once(
    flow: LoginFlowView,
    outcome: Result<(), BackendErrorView>,
    has_session: bool,
)
    ensures
        ({
            let turn = after_attempt(flow, outcome, has_session);
            turn.step is ResetStore ==> {
                &&& !flow.store_was_reset
                &&& turn.flow.store_was_reset
                &&& flow.owns_store
                &&& outcome matches Err(failure)
                &&& errors::says_account_mismatch(failure.message)
            }
        }),
{
}

/// A login never succeeds after a failed attempt unless the client has a session.
pub proof fn lemma_failed_attempt_needs_session(
    flow: LoginFlowView,
    failure: BackendErrorView,
)
    ensures
        !(after_attempt(flow, Err(failure), false).step is Succeed),
{
}

/// Whether the session is persisted is settled when the login starts: an accepted attempt
/// persists it where that was asked for and forgets it where it was not, after whatever
/// failures, and a failed attempt does neither.
pub proof fn lemma_persistence_is_as_asked(
    flow: LoginFlowView,
    outcome: Result<(), BackendErrorView>,
    has_session: bool,
)
    ensures
        ({
            let turn = after_attempt(flow, outcome, has_session);
            &&& turn.flow.persist_session == flow.persist_session
            &&& turn.step is PersistSession <==> outcome is Ok && flow.persist_session
            &&& turn.step is ForgetSession <==> outcome is Ok && !flow.persist_session
        }),
{
}

/// Where the device ID to ask for comes from.
#[derive(Debug)]
pub struct PreferredDevice {
    /// Device ID to ask for.
    pub device_id: Option<String>,
    /// Whether it comes from the former file and is to be written to the current one.
    pub migrate: bool,
}

/// What reading a device ID file says: its device ID, where the file could be read.
pub open spec fn hint_of(read: Result<Option<String>, BackendError>) -> Option<Seq<char>> {
    match read {
        Ok(hint) => types::opt_chars(hint),
        Err(_) => None,
    }
}

/// The device ID of a persisted session, where it could be loaded.
pub open spec fn device_of(session: Result<StoredSession, BackendError>) -> Option<Seq<char>> {
    match session {
        Ok(session) => Some(session.device_id@),
        Err(_) => None,
    }
}

/// The device ID to ask for: that of the persisted session, else that of the device ID
/// file, else that of the former file; a file that cannot be read ends the search.
pub fn preferred_login_device_id(
    session: Result<StoredSession, BackendError>,
    hint: Result<Option<String>, BackendError>,
    legacy_hint: Result<Option<String>, BackendError>,
) -> (preferred: PreferredDevice)
    ensures
        preferred.migrate == (session is Err && (hint matches Ok(None)) && hint_of(
            legacy_hint,
        ) is Some),
        types::opt_chars(preferred.device_id) == if session is Ok {
            device_of(session)
        } else if (hint matches Ok(None)) {
            hint_of(legacy_hint)
        } else {
            hint_of(hint)
        },
{
    match session {
        Ok(session) => {
            return PreferredDevice { device_id: Some(session.device_id), migrate: false };
        },
        Err(_) => {},
    }
    match hint {
        Ok(Some(device_id)) => PreferredDevice { device_id: Some(device_id), migrate: false },
        Ok(None) => match legacy_hint {
            Ok(Some(device_id)) => PreferredDevice { device_id: Some(device_id), migrate: true },
            _ => PreferredDevice { device_id: None, migrate: false },
        },
        Err(_) => PreferredDevice { device_id: None, migrate: false },
    }
}

} // verus!
