//! How failures are classified and reported, and what a login and the sync loop make of them.
use vstd::prelude::*;

use super::errors::{self, EditFailure, HttpFailure, RecoveryFailure, SdkFailure};
use super::login::{self, LoginFlow, LoginFlowView, LoginStep, PreferredDevice};
use super::persistence::StoredSession;
use super::sync_loop::{self, SyncFailureTurn, SyncLoop};
use crate::backend_core::error::{self, BackendError, BackendErrorView};
use crate::backend_core::retry;
use crate::backend_core::types::{self, BackendEvent};
use crate::backend_platform::SecretStoreError;
use crate::text;
use crate::text_laws;

verus! {

/// Credentials that are refused are an authentication matter, a request that is too often or too
/// slow one of the rate, other faults of the request one of the configuration, and faults of the
/// homeserver one of the network.
pub proof fn lemma_http_statuses_are_classified(status: u16)
    ensures
        error::http_status_category(status) is Auth <==> status == 401 || status == 403,
        error::http_status_category(status) is RateLimited <==> status == 408 || status == 429,
        error::http_status_category(status) is Network <==> 500 <= status < 600,
        error::http_status_category(status) is Config <==> 400 <= status < 500 && status != 401
            && status != 403 && status != 408 && status != 429,
        error::http_status_category(status) is Internal <==> status < 400 || status >= 600,
{
}

/// A failed request keeps the homeserver's message, and the delay that it asked for where that
/// fits; without an answer the network is at fault.
pub proof fn lemma_http_failures_keep_what_was_said(
    status: u16,
    message: String,
    retry_after_ms: Option<u128>,
)
    ensures
        ({
            let api = errors::http_error(HttpFailure::Api { status, message, retry_after_ms });
            let transport = errors::http_error(HttpFailure::Transport { message });
            &&& api.message == message@
            &&& api.category == error::http_status_category(status)
            &&& retry_after_ms is None ==> api.retry_after_ms is None
            &&& retry_after_ms matches Some(ms) ==> ms <= u64::MAX ==> api.retry_after_ms == Some(
                ms as u64,
            )
            &&& transport.message == message@
            &&& transport.category is Network
            &&& transport.retry_after_ms is None
            &&& api.code == transport.code
        }),
{
}

/// A failure of the SDK keeps its message at the front and is classified by where it arose; a
/// store that belongs to another account is told apart by its code.
pub proof fn lemma_sdk_failures_are_classified(failure: SdkFailure, message: String)
    requires
        match failure {
            SdkFailure::Http(_) => false,
            SdkFailure::AuthenticationRequired { message: m } => m == message,
            SdkFailure::NoOlmMachine { message: m } => m == message,
            SdkFailure::BadCryptoStoreState { message: m } => m == message,
            SdkFailure::CryptoStore { message: m } => m == message,
            SdkFailure::StateStore { message: m } => m == message,
            SdkFailure::EventCacheStore { message: m } => m == message,
            SdkFailure::MediaStore { message: m } => m == message,
            SdkFailure::Io { message: m } => m == message,
            SdkFailure::CrossProcessLock { message: m } => m == message,
            SdkFailure::SerdeJson { message: m } => m == message,
            SdkFailure::Other { message: m } => m == message,
        },
    ensures
        ({
            let mapped = errors::sdk_error(failure);
            &&& mapped.message.len() >= message@.len()
            &&& mapped.message.take(message@.len() as int) == message@
            &&& mapped.retry_after_ms is None
            &&& mapped.category is Storage <==> errors::is_store_failure(failure)
            &&& mapped.category is Auth <==> failure is AuthenticationRequired
            &&& mapped.category is Crypto <==> failure is NoOlmMachine || failure
                is BadCryptoStoreState
            &&& mapped.category is Serialization <==> failure is SerdeJson
            &&& mapped.category is Internal <==> failure is Other
            &&& errors::is_store_failure(failure) ==> (mapped.code
                == "crypto_store_account_mismatch"@ <==> errors::says_account_mismatch(message@))
        }),
{
    let mapped = errors::sdk_error(failure);
    assert(mapped.message.take(message@.len() as int) =~= message@);
    reveal_strlit("crypto_store_account_mismatch");
    reveal_strlit("storage_error");
    assert("crypto_store_account_mismatch"@.len() != "storage_error"@.len());
}

/// A phrase is found wherever it stands in a message.
pub proof fn lemma_mismatch_is_recognized_anywhere(
    before: Seq<char>,
    message: Seq<char>,
    after: Seq<char>,
)
    requires
        errors::says_account_mismatch(message),
    ensures
        errors::says_account_mismatch(before + message + after),
{
    let whole = before + message + after;
    assert(text::lowered(whole) =~= text::lowered(before) + text::lowered(message)
        + text::lowered(after));
    lemma_contains_in_context(
        text::lowered(before),
        text::lowered(message),
        text::lowered(after),
        "account in the store doesn't match"@,
    );
    lemma_contains_in_context(
        text::lowered(before),
        text::lowered(message),
        text::lowered(after),
        "account in the store does not match"@,
    );
    lemma_contains_in_context(
        text::lowered(before),
        text::lowered(message),
        text::lowered(after),
        "belongs to a different account"@,
    );
}

proof fn lemma_contains_in_context(
    before: Seq<char>,
    middle: Seq<char>,
    after: Seq<char>,
    pattern: Seq<char>,
)
    ensures
        text::contains(middle, pattern) ==> text::contains(before + middle + after, pattern),
{
    if text::contains(middle, pattern) {
        let at = choose|at: int| text::occurs_at(middle, pattern, at);
        let whole = before + middle + after;
        let there = before.len() + at;
        assert(whole.subrange(there, there + pattern.len()) =~= middle.subrange(
            at,
            at + pattern.len(),
        ));
        assert(text::occurs_at(whole, pattern, there));
    }
}

/// A failed edit is a fault of the request, of its encoding or of the network, by its cause, and
/// keeps its message.
pub proof fn lemma_edit_failures_are_classified(failure: EditFailure, mapped: BackendError)
    requires
        call_ensures(errors::map_edit_error, (failure,), mapped),
    ensures
        mapped.category is Config <==> failure is StateEvent || failure is NotAuthor || failure
            is IncompatibleEditType,
        mapped.category is Serialization <==> failure is Deserialize,
        mapped.category is Network <==> failure is Fetch,
        failure matches EditFailure::StateEvent { message } ==> mapped.message@ == message@,
        failure matches EditFailure::NotAuthor { message } ==> mapped.message@ == message@,
        failure matches EditFailure::IncompatibleEditType { message } ==> mapped.message@
            == message@,
        failure matches EditFailure::Deserialize { message } ==> mapped.message@ == message@,
        failure matches EditFailure::Fetch { message } ==> mapped.message@ == message@,
{
}

/// A backup that exists already is told apart from other failures of recovery, and a failure of
/// the SDK in recovery is reported like any other of it.
pub proof fn lemma_recovery_failures_are_told_apart(
    failure: RecoveryFailure,
    mapped: BackendError,
    sdk: SdkFailure,
    of_sdk: BackendError,
)
    requires
        call_ensures(errors::map_recovery_error, (failure,), mapped),
        call_ensures(errors::map_matrix_error, (sdk,), of_sdk),
    ensures
        failure is BackupExistsOnServer ==> mapped.code@ == "recovery_backup_exists"@
            && mapped.category is Config,
        failure matches RecoveryFailure::SecretStorage { message } ==> mapped.category is Crypto
            && mapped.message@ == message@,
        failure == RecoveryFailure::Sdk(sdk) ==> mapped@ == of_sdk@,
{
}

/// A missing secret, a store that is away and one that fails are told apart; the message names
/// the operation, and the reason or the account.
pub proof fn lemma_secret_failures_are_told_apart(
    operation: Seq<char>,
    account: Seq<char>,
    failure: SecretStoreError,
)
    ensures
        ({
            let mapped = errors::secret_error(operation, account, failure);
            &&& failure is NotFound <==> mapped.category is Config
            &&& failure is NotFound <==> mapped.code == "secret_not_found"@
            &&& failure is Unavailable <==> mapped.code == "secret_store_unavailable"@
            &&& failure is Backend <==> mapped.code == "secret_store_error"@
            &&& mapped.category is Config || mapped.category is Storage
            &&& failure is NotFound ==> text::contains(mapped.message, account)
            &&& failure matches SecretStoreError::Unavailable(reason) ==> text::contains(
                mapped.message,
                reason@,
            )
            &&& failure matches SecretStoreError::Backend(reason) ==> text::contains(
                mapped.message,
                reason@,
            )
            &&& text::contains(mapped.message, operation)
        }),
{
    let mapped = errors::secret_error(operation, account, failure);
    reveal_strlit("secret_not_found");
    reveal_strlit("secret_store_unavailable");
    reveal_strlit("secret_store_error");
    assert("secret_not_found"@.len() == 16 && "secret_store_unavailable"@.len() == 24
        && "secret_store_error"@.len() == 18);
    match failure {
        SecretStoreError::NotFound => {
            let head = "secret missing for '"@;
            let middle = "' during "@;
            assert(mapped.message =~= head + account + (middle + operation));
            assert(mapped.message =~= (head + account + middle) + operation + Seq::empty());
            lemma_part_is_contained(head, account, middle + operation);
            lemma_part_is_contained(head + account + middle, operation, Seq::empty());
        },
        SecretStoreError::Unavailable(reason) => {
            let head = "secret store unavailable during "@;
            assert(mapped.message =~= head + operation + (": "@ + reason@));
            assert(mapped.message =~= (head + operation + ": "@) + reason@ + Seq::empty());
            lemma_part_is_contained(head, operation, ": "@ + reason@);
            lemma_part_is_contained(head + operation + ": "@, reason@, Seq::empty());
        },
        SecretStoreError::Backend(reason) => {
            let head = "secret store backend error during "@;
            assert(mapped.message =~= head + operation + (": "@ + reason@));
            assert(mapped.message =~= (head + operation + ": "@) + reason@ + Seq::empty());
            lemma_part_is_contained(head, operation, ": "@ + reason@);
            lemma_part_is_contained(head + operation + ": "@, reason@, Seq::empty());
        },
    }
}

proof fn lemma_part_is_contained(before: Seq<char>, part: Seq<char>, after: Seq<char>)
    ensures
        text::contains(before + part + after, part),
{
    assert(part.subrange(0, part.len() as int) =~= part);
    assert(text::occurs_at(part, part, 0));
    lemma_contains_in_context(before, part, after, part);
}

/// The network and the homeserver's rate limit are worth a retry, and nothing else is.
pub proof fn lemma_retries_are_for_network_and_rate(failure: BackendErrorView)
    ensures
        failure.category is Network ==> errors::is_recoverable(failure),
        failure.category is RateLimited ==> errors::is_recoverable(failure),
        failure.category is Auth ==> !errors::is_recoverable(failure),
        failure.category is Config ==> !errors::is_recoverable(failure),
        failure.category is Storage ==> !errors::is_recoverable(failure),
        failure.category is Crypto ==> !errors::is_recoverable(failure),
        failure.category is Serialization ==> !errors::is_recoverable(failure),
        failure.category is Internal ==> !errors::is_recoverable(failure),
{
}

/// The sync loop waits half a second after the first failure and twice as long after each
/// further one, up to half a minute; a longer delay that the homeserver asks for is kept, within
/// that bound.
pub proof fn lemma_sync_backs_off(failures: nat, hint: u64)
    ensures
        sync_loop::sync_delay(0, None) == 500,
        failures < 20 ==> ({
            let doubled = 2 * sync_loop::sync_delay(failures, None);
            sync_loop::sync_delay(failures + 1, None) == if doubled <= 30_000 {
                doubled
            } else {
                30_000
            }
        }),
        sync_loop::sync_delay(failures, Some(hint)) <= 30_000,
        sync_loop::sync_delay(failures, Some(hint)) >= sync_loop::sync_delay(failures, None),
        hint <= 30_000 ==> sync_loop::sync_delay(failures, Some(hint)) >= hint,
        hint <= sync_loop::sync_delay(failures, None) ==> sync_loop::sync_delay(
            failures,
            Some(hint),
        ) == sync_loop::sync_delay(failures, None),
{
    retry::lemma_delay_doubles_up_to_max(500, 30_000, 0);
    retry::lemma_delay_doubles_up_to_max(500, 30_000, failures);
    retry::lemma_hint_only_prolongs(500, 30_000, failures, hint as nat);
}

/// A login that is limited is tried again after the delay that the homeserver asked for, but
/// after a quarter of a second at least and after two seconds where it named none, with the same
/// device, up to three times.
pub proof fn lemma_limited_login_waits(
    flow: LoginFlowView,
    failure: BackendErrorView,
    has_session: bool,
)
    requires
        failure.category is RateLimited,
        flow.retries < 3,
    ensures
        ({
            let turn = login::after_attempt(flow, Err(failure), has_session);
            &&& turn.step is WaitAndAttempt
            &&& turn.step->WaitAndAttempt_device_id == flow.device_id
            &&& turn.step->delay_ms >= 250
            &&& failure.retry_after_ms is None ==> turn.step->delay_ms == 2_000
            &&& failure.retry_after_ms matches Some(ms) ==> ms >= 250 ==> turn.step->delay_ms == ms
            &&& turn.flow.retries == flow.retries + 1
            &&& turn.flow.device_id == flow.device_id
            &&& turn.flow.store_was_reset == flow.store_was_reset
        }),
{
}

/// A login waits only for a rate limit, and no more than three times.
pub proof fn lemma_login_waits_for_nothing_else(
    flow: LoginFlowView,
    outcome: Result<(), BackendErrorView>,
    has_session: bool,
)
    requires
        flow.retries >= 3 || outcome is Ok || !(outcome->Err_0.category is RateLimited),
    ensures
        !(login::after_attempt(flow, outcome, has_session).step is WaitAndAttempt),
{
}

/// A store of another account is reset once, where the runtime owns it, and the next attempt
/// asks for the device that the store belonged to, where the error names it, else for the same
/// device as before; retries are counted anew.
pub proof fn lemma_foreign_store_is_reset(
    flow: LoginFlowView,
    failure: BackendErrorView,
    has_session: bool,
)
    requires
        errors::says_account_mismatch(failure.message),
        !(failure.category is RateLimited) || flow.retries >= 3,
        flow.owns_store,
        !flow.store_was_reset,
    ensures
        ({
            let turn = login::after_attempt(flow, Err(failure), has_session);
            let named = errors::expected_device_id(failure.message);
            &&& turn.step is ResetStore
            &&& turn.step->ResetStore_device_id == turn.flow.device_id
            &&& named is Some ==> turn.flow.device_id == named
            &&& named is None ==> turn.flow.device_id == flow.device_id
            &&& turn.flow.store_was_reset
            &&& turn.flow.retries == 0
            &&& login::after_reset(turn.flow, Ok(())) is Attempt
            &&& login::after_reset(turn.flow, Ok(()))->Attempt_device_id == turn.flow.device_id
            &&& login::after_reset(turn.flow, Err(failure)) is Fail
            &&& login::after_reset(turn.flow, Err(failure))->failure == failure
        }),
{
}

/// Any other failed login ends: with the user signed in where the client has a session and the
/// failure says no more than that the login was not needed, late or limited; else with the
/// failure itself.
pub proof fn lemma_other_failures_end_the_login(
    flow: LoginFlowView,
    failure: BackendErrorView,
    has_session: bool,
)
    requires
        !(failure.category is RateLimited) || flow.retries >= 3,
        !errors::says_account_mismatch(failure.message) || !flow.owns_store
            || flow.store_was_reset,
    ensures
        ({
            let step = login::after_attempt(flow, Err(failure), has_session).step;
            &&& step is Succeed || step is Fail
            &&& step is Fail ==> step->failure == failure
            &&& has_session && !flow.store_was_reset && errors::allows_session_fallback(failure)
                <==> step is Succeed
        }),
{
}

/// A session stands in for a login that was limited, that took too long, or of which the SDK
/// says that there is one already.
pub proof fn lemma_session_stands_in(
    failure: BackendErrorView,
    before: Seq<char>,
    after: Seq<char>,
)
    ensures
        failure.category is RateLimited ==> errors::allows_session_fallback(failure),
        failure.code == "auth_login_timeout"@ ==> errors::allows_session_fallback(failure),
        text::lowered(failure.message) == before + "already logged in"@ + after
            ==> errors::allows_session_fallback(failure),
        text::lowered(failure.message) == before + "session already"@ + after
            ==> errors::allows_session_fallback(failure),
        text::lowered(failure.message) == before + "an existing session"@ + after
            ==> errors::allows_session_fallback(failure),
{
    lemma_part_is_contained(before, "already logged in"@, after);
    lemma_part_is_contained(before, "session already"@, after);
    lemma_part_is_contained(before, "an existing session"@, after);
}

/// A login starts with an attempt for the preferred device, and ends by whether the session
/// could be persisted or forgotten.
pub proof fn lemma_login_starts_and_ends(
    flow: LoginFlow,
    outcome: Result<(), BackendError>,
    first: LoginStep,
    last: LoginStep,
)
    requires
        call_ensures(LoginFlow::first_step, (&flow,), first),
        call_ensures(LoginFlow::on_persisted, (&flow, outcome), last),
    ensures
        first@ is Attempt,
        first@->Attempt_device_id == flow@.device_id,
        outcome is Ok ==> last@ is Succeed,
        outcome matches Err(failure) ==> last@ is Fail && last@->failure == failure@,
{
}

/// The device of a persisted session goes before that of a file, that of the current file before
/// that of the former one; only what comes from the former file is to be written anew.
pub proof fn lemma_device_is_chosen_by_rank(
    session: Result<StoredSession, BackendError>,
    hint: Result<Option<String>, BackendError>,
    legacy_hint: Result<Option<String>, BackendError>,
    preferred: PreferredDevice,
)
    requires
        call_ensures(
            login::preferred_login_device_id,
            (session, hint, legacy_hint),
            preferred,
        ),
    ensures
        session matches Ok(stored) ==> preferred.device_id matches Some(device_id) && device_id@
            == stored.device_id@ && !preferred.migrate,
        session is Err ==> (hint matches Ok(Some(known)) ==> preferred.device_id is Some
            && preferred.device_id->0@ == known@ && !preferred.migrate),
        session is Err ==> (hint matches Ok(None) ==> (legacy_hint matches Ok(Some(former))
            ==> preferred.device_id is Some && preferred.device_id->0@ == former@
            && preferred.migrate)),
        session is Err && hint is Err ==> preferred.device_id is None && !preferred.migrate,
        session is Err && hint is Ok && hint->Ok_0 is None && (legacy_hint is Err
            || legacy_hint->Ok_0 is None) ==> preferred.device_id is None && !preferred.migrate,
{
}

/// A login is tried as its flow has it, from a fresh flow that was given its device and its
/// wishes.
pub proof fn lemma_login_follows_its_flow()
    ensures
        forall|device_id: Option<String>, owns_store: bool, persist: bool, flow: LoginFlow|
            #[trigger] call_ensures(LoginFlow::new, (device_id, owns_store, persist), flow) ==> {
                &&& flow@.device_id == types::opt_chars(device_id)
                &&& flow@.owns_store == owns_store
                &&& flow@.persist_session == persist
                &&& flow@.retries == 0
                &&& !flow@.store_was_reset
            },
        forall|
            flow: &mut LoginFlow,
            outcome: Result<(), BackendError>,
            has_session: bool,
            step: LoginStep,
        |
            #[trigger] call_ensures(LoginFlow::on_attempt, (flow, outcome, has_session), step)
                ==> {
                let told = match outcome {
                    Ok(_) => Ok::<(), BackendErrorView>(()),
                    Err(failure) => Err::<(), BackendErrorView>(failure@),
                };
                let turn = login::after_attempt((*flow)@, told, has_session);
                &&& step@ == turn.step
                &&& final(flow)@ == turn.flow
                &&& outcome is Ok && (*flow)@.persist_session ==> step@ is PersistSession
                &&& outcome is Ok && !(*flow)@.persist_session ==> step@ is ForgetSession
            },
        forall|flow: &LoginFlow, outcome: Result<(), BackendError>, step: LoginStep|
            #[trigger] call_ensures(LoginFlow::on_store_reset, (flow, outcome), step) ==> {
                &&& outcome is Ok ==> step@ is Attempt && step@->Attempt_device_id
                    == flow@.device_id
                &&& outcome is Err ==> step@ is Fail && step@->failure == outcome->Err_0@
            },
{
}

/// The sync loop starts with nothing seen, reports every failure, goes on after those that a
/// retry may help and ends with the others; what it has seen stays.
pub proof fn lemma_sync_loop_goes_on_after_failures()
    ensures
        forall|started: (SyncLoop, BackendEvent)|
            #[trigger] call_ensures(SyncLoop::start, (), started) ==> {
                &&& started.0.failures() == 0
                &&& forall|room_id: Seq<char>| !started.0.seen().dom().contains(room_id)
                &&& started.1@ is SyncStatus
                &&& started.1@->SyncStatus_0.running
            },
        forall|state: SyncLoop, event: BackendEvent|
            #[trigger] call_ensures(SyncLoop::stop, (state,), event) ==> event@ is SyncStatus
                && !event@->SyncStatus_0.running,
        forall|state: &SyncLoop, event: BackendEvent|
            #[trigger] call_ensures(SyncLoop::on_settled, (state,), event) ==> event@ is SyncStatus
                && event@->SyncStatus_0.running && event@->SyncStatus_0.lag_hint_ms is None,
        forall|state: &mut SyncLoop, failure: BackendError, turn: SyncFailureTurn|
            #[trigger] call_ensures(SyncLoop::on_error, (state, failure), turn) ==> {
                let sent = types::event_views(turn.events@);
                let helps = failure.category is Network || failure.category is RateLimited;
                &&& final(state).seen() == (*state).seen()
                &&& sent.len() >= 1
                &&& sent[0] is FatalError
                &&& sent[0]->code == failure.code@
                &&& sent[0]->message == failure.message@
                &&& turn.retry_after_ms is Some <==> helps
                &&& helps ==> {
                    &&& sent.len() == 2
                    &&& sent[1] is SyncStatus
                    &&& sent[1]->SyncStatus_0.running
                    &&& sent[1]->SyncStatus_0.lag_hint_ms == turn.retry_after_ms
                    &&& turn.retry_after_ms->0 <= 30_000
                    &&& turn.retry_after_ms->0 == sync_loop::sync_delay(
                        (*state).failures(),
                        failure.retry_after_ms,
                    )
                    &&& (*state).failures() < u32::MAX ==> final(state).failures()
                        == (*state).failures() + 1
                }
            },
{
}

/// A loop is started only while none runs, and stopped only while one does.
pub proof fn lemma_one_sync_loop_runs(
    running: bool,
    start: Result<(), BackendError>,
    stop: Result<(), BackendError>,
)
    requires
        call_ensures(sync_loop::check_can_start, (running,), start),
        call_ensures(sync_loop::check_can_stop, (running,), stop),
    ensures
        start is Ok <==> !running,
        stop is Ok <==> running,
        start is Err ==> start->Err_0@.code == "sync_already_running"@,
        stop is Err ==> stop->Err_0@.code == "sync_not_running"@,
{
}

/// A login that took too long says for how long.
pub proof fn lemma_late_login_says_how_late(timeout_ms: u64, failure: BackendError)
    requires
        call_ensures(login::login_timeout_error, (timeout_ms,), failure),
    ensures
        failure@.code == "auth_login_timeout"@,
        failure@.category is Network,
        text::contains(failure@.message, text::decimal(timeout_ms as nat)),
{
    lemma_part_is_contained(
        "password login timed out after "@,
        text::decimal(timeout_ms as nat),
        " ms"@,
    );
}

/// A mismatch message that says which account was expected names its device: what stands behind
/// the last colon, between `expected ` and `, got`.
pub proof fn lemma_expected_device_is_named(
    head: Seq<char>,
    account: Seq<char>,
    device_id: Seq<char>,
    tail: Seq<char>,
)
    requires
        ({
            let segment = account + seq![':'] + device_id;
            let rest = segment + ", got"@ + tail;
            &&& text::first_at(head + "expected "@ + rest, "expected "@, head.len() as int)
            &&& !text::contains(rest, "expected "@)
            &&& text::first_at(rest, ", got"@, segment.len() as int)
            &&& text::trimmed(segment) == segment
        }),
        text::trimmed(device_id) == device_id,
        device_id.len() > 0,
        !device_id.contains(':'),
    ensures
        errors::expected_device_id(
            head + "expected "@ + (account + seq![':'] + device_id + ", got"@ + tail),
        ) == Some(device_id),
{
    let segment = account + seq![':'] + device_id;
    let rest = segment + ", got"@ + tail;
    let message = head + "expected "@ + rest;
    text::lemma_first_index(message, "expected "@, head.len() as int);
    assert(message.skip((head.len() + "expected "@.len()) as int) =~= rest);
    text::lemma_first_index(rest, ", got"@, segment.len() as int);
    assert(rest.take(segment.len() as int) =~= segment);
    text_laws::lemma_text_is_cut_behind_last(account, ':', device_id);
    assert(account.push(':') + device_id =~= segment);
}

/// A message that expects no account, or one without a device, names no device.
pub proof fn lemma_other_messages_name_no_device(message: Seq<char>, head: Seq<char>)
    ensures
        !text::contains(message, "expected "@) ==> errors::expected_device_id(message) is None,
        text::first_at(head + "expected "@, "expected "@, head.len() as int)
            ==> errors::expected_device_id(head + "expected "@) is None,
{
    let whole = head + "expected "@;
    if text::first_at(whole, "expected "@, head.len() as int) {
        text::lemma_first_index(whole, "expected "@, head.len() as int);
        let rest = whole.skip((head.len() + "expected "@.len()) as int);
        assert(rest =~= Seq::<char>::empty());
        reveal_strlit("expected ");
        reveal_strlit(", got");
        assert(!text::contains(rest, "expected "@));
        assert(!text::contains(rest, ", got"@));
    }
}

/// Each failure of the SDK has the code of its kind.
pub proof fn lemma_sdk_failures_have_their_codes(failure: SdkFailure)
    ensures
        failure is AuthenticationRequired ==> errors::sdk_error(failure).code == "auth_required"@,
        failure is NoOlmMachine ==> errors::sdk_error(failure).code
            == "crypto_machine_unavailable"@,
        failure is BadCryptoStoreState ==> errors::sdk_error(failure).code
            == "crypto_store_state_error"@,
        failure is SerdeJson ==> errors::sdk_error(failure).code == "serde_json_error"@,
        failure is Other ==> errors::sdk_error(failure).code == "matrix_error"@,
        errors::is_store_failure(failure) ==> errors::sdk_error(failure).code == "storage_error"@
            || errors::sdk_error(failure).code == "crypto_store_account_mismatch"@,
{
}

} // verus!
