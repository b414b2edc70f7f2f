//! What counts as the answer to a task of the smoke harness, and what the harness says of it.
use vstd::prelude::*;

use super::plan::SmokeTask;
use crate::backend_core::types::{
    self, BackendEvent, BackendEventView, BackendLifecycleState, RecoveryStatus,
};
use crate::desktop::state;
use crate::text;

verus! {

/// How long the harness waits for an answer.
pub const EVENT_WAIT_TIMEOUT_SECS: u64 = 30;

/// What a task was answered with.
#[derive(Debug, PartialEq, Eq)]
pub enum TaskAnswer {
    /// Nothing but success.
    Plain,
    /// A number of rooms.
    Rooms(usize),
    /// The recovery status.
    Status(RecoveryStatus),
    /// An event ID, a media URI or a recovery key.
    Text(String),
    /// Downloaded bytes.
    Bytes(Vec<u8>),
}

/// What a [`TaskAnswer`] says.
#[verifier::ext_equal]
pub enum AnswerView {
    Plain,
    Rooms(nat),
    Status(RecoveryStatus),
    Text(Seq<char>),
    Bytes(Seq<u8>),
}

impl View for TaskAnswer {
    type V = AnswerView;

    open spec fn view(&self) -> AnswerView {
        match self {
            TaskAnswer::Plain => AnswerView::Plain,
            TaskAnswer::Rooms(count) => AnswerView::Rooms(*count as nat),
            TaskAnswer::Status(status) => AnswerView::Status(*status),
            TaskAnswer::Text(text) => AnswerView::Text(text@),
            TaskAnswer::Bytes(bytes) => AnswerView::Bytes(bytes@),
        }
    }
}

/// Message about a fatal error.
pub open spec fn fatal_text(code: Seq<char>, message: Seq<char>) -> Seq<char> {
    "fatal backend error ("@ + code + "): "@ + message
}

/// Message about a failure with an error code.
pub open spec fn failure_text(what: Seq<char>, error_code: Option<Seq<char>>) -> Seq<char> {
    what + " failed with error code: "@ + match error_code {
        Some(code) => code,
        None => "unknown"@,
    }
}

/// The text of an acknowledgement, or its failure.
pub open spec fn text_or_failure(
    what: Seq<char>,
    text: Option<Seq<char>>,
    error_code: Option<Seq<char>>,
) -> Result<AnswerView, Seq<char>> {
    match text {
        Some(text) => Ok(AnswerView::Text(text)),
        None => Err(failure_text(what, error_code)),
    }
}

/// The answer that an event is to a task, where it is one: success, or a message about what went
/// wrong.
pub open spec fn answer_of(task: SmokeTask, txn_id: Seq<char>, event: BackendEventView) -> Option<
    Result<AnswerView, Seq<char>>,
> {
    match (task, event) {
        (_, BackendEventView::FatalError { code, message, .. }) => Some(
            Err(fatal_text(code, message)),
        ),
        (SmokeTask::Init, BackendEventView::StateChanged { state }) => if state
            is Configured {
            Some(Ok(AnswerView::Plain))
        } else {
            None
        },
        (SmokeTask::StartSync, BackendEventView::StateChanged { state }) => if state
            is Syncing {
            Some(Ok(AnswerView::Plain))
        } else {
            None
        },
        (SmokeTask::StopSync, BackendEventView::StateChanged { state }) => if state
            is Authenticated {
            Some(Ok(AnswerView::Plain))
        } else {
            None
        },
        (
            SmokeTask::RestoreSession | SmokeTask::Login,
            BackendEventView::AuthResult { success, error_code },
        ) => Some(
            if success {
                Ok(AnswerView::Plain)
            } else {
                Err(failure_text("auth"@, error_code))
            },
        ),
        (SmokeTask::ListRooms, BackendEventView::RoomListUpdated { rooms }) => Some(
            Ok(AnswerView::Rooms(rooms.len())),
        ),
        (SmokeTask::GetRecoveryStatus, BackendEventView::RecoveryStatus(status)) => Some(
            Ok(AnswerView::Status(status)),
        ),
        (
            SmokeTask::EnableRecovery | SmokeTask::ResetRecovery,
            BackendEventView::RecoveryEnableAck { client_txn_id, recovery_key, error_code },
        ) => if client_txn_id == txn_id {
            Some(text_or_failure("recovery enable"@, recovery_key, error_code))
        } else {
            None
        },
        (
            SmokeTask::RecoverSecrets,
            BackendEventView::RecoveryRestoreAck { client_txn_id, error_code },
        ) => if client_txn_id == txn_id {
            Some(
                match error_code {
                    Some(code) => Err(failure_text("recovery restore"@, Some(code))),
                    None => Ok(AnswerView::Plain),
                },
            )
        } else {
            None
        },
        (
            SmokeTask::SendDm,
            BackendEventView::SendAck { client_txn_id, event_id, error_code },
        ) => if client_txn_id == txn_id {
            Some(text_or_failure("send"@, event_id, error_code))
        } else {
            None
        },
        (
            SmokeTask::UploadMedia,
            BackendEventView::MediaUploadAck { client_txn_id, content_uri, error_code },
        ) => if client_txn_id == txn_id {
            Some(text_or_failure("media upload"@, content_uri, error_code))
        } else {
            None
        },
        (
            SmokeTask::DownloadMedia,
            BackendEventView::MediaDownloadAck { client_txn_id, data, error_code, .. },
        ) => if client_txn_id == txn_id {
            Some(
                match data {
                    Some(data) => Ok(AnswerView::Bytes(data)),
                    None => Err(failure_text("media download"@, error_code)),
                },
            )
        } else {
            None
        },
        _ => None,
    }
}

/// Whether an answer is the one that is told.
pub open spec fn is_answer(
    answer: Option<Result<TaskAnswer, String>>,
    told: Option<Result<AnswerView, Seq<char>>>,
) -> bool {
    match told {
        Some(Ok(view)) => answer matches Some(Ok(answer)) && answer@ == view,
        Some(Err(text)) => answer matches Some(Err(message)) && message@ == text,
        None => answer is None,
    }
}

fn fatal_message(code: &str, message: &str) -> (text: String)
    ensures
        text@ == fatal_text(code@, message@),
{
    let mut text: String = "fatal backend error (".to_owned();
    text.append(code);
    text.append("): ");
    text.append(message);
    text
}

fn failure_message(what: &str, error_code: Option<String>) -> (text: String)
    ensures
        text@ == failure_text(what@, types::opt_chars(error_code)),
{
    let mut text: String = what.to_owned();
    text.append(" failed with error code: ");
    match error_code {
        Some(code) => text.append(code.as_str()),
        None => text.append("unknown"),
    }
    text
}

fn text_answer(what: &str, text: Option<String>, error_code: Option<String>) -> (answer: Option<
    Result<TaskAnswer, String>,
>)
    ensures
        is_answer(
            answer,
            Some(text_or_failure(what@, types::opt_chars(text), types::opt_chars(error_code))),
        ),
{
    match text {
        Some(text) => Some(Ok(TaskAnswer::Text(text))),
        None => Some(Err(failure_message(what, error_code))),
    }
}

fn plain_when(reached: bool) -> (answer: Option<Result<TaskAnswer, String>>)
    ensures
        is_answer(
            answer,
            if reached {
                Some(Ok(AnswerView::Plain))
            } else {
                None
            },
        ),
{
    if reached {
        Some(Ok(TaskAnswer::Plain))
    } else {
        None
    }
}

/// The answer that an event is to a task, where it is one: success, or a message about what went
/// wrong. An acknowledgement counts only where it has the transaction ID of the task.
pub fn task_answer(task: SmokeTask, txn_id: &str, event: BackendEvent) -> (answer: Option<
    Result<TaskAnswer, String>,
>)
    ensures
        is_answer(answer, answer_of(task, txn_id@, event@)),
{
    match event {
        BackendEvent::FatalError { code, message, .. } => Some(
            Err(fatal_message(code.as_str(), message.as_str())),
        ),
        BackendEvent::StateChanged { state } => match task {
            SmokeTask::Init => plain_when(state == BackendLifecycleState::Configured),
            SmokeTask::StartSync => plain_when(state == BackendLifecycleState::Syncing),
            SmokeTask::StopSync => plain_when(state == BackendLifecycleState::Authenticated),
            _ => None,
        },
        BackendEvent::AuthResult { success, error_code } => match task {
            SmokeTask::RestoreSession | SmokeTask::Login => if success {
                Some(Ok(TaskAnswer::Plain))
            } else {
                Some(Err(failure_message("auth", error_code)))
            },
            _ => None,
        },
        BackendEvent::RoomListUpdated { rooms } => match task {
            SmokeTask::ListRooms => Some(Ok(TaskAnswer::Rooms(rooms.len()))),
            _ => None,
        },
        BackendEvent::RecoveryStatus(status) => match task {
            SmokeTask::GetRecoveryStatus => Some(Ok(TaskAnswer::Status(status))),
            _ => None,
        },
        BackendEvent::RecoveryEnableAck(ack) => match task {
            SmokeTask::EnableRecovery | SmokeTask::ResetRecovery => if *ack.client_txn_id.as_str()
                == *txn_id {
                text_answer("recovery enable", ack.recovery_key, ack.error_code)
            } else {
                None
            },
            _ => None,
        },
        BackendEvent::RecoveryRestoreAck(ack) => match task {
            SmokeTask::RecoverSecrets => if *ack.client_txn_id.as_str() == *txn_id {
                match ack.error_code {
                    Some(code) => Some(Err(failure_message("recovery restore", Some(code)))),
                    None => Some(Ok(TaskAnswer::Plain)),
                }
            } else {
                None
            },
            _ => None,
        },
        BackendEvent::SendAck(ack) => match task {
            SmokeTask::SendDm => if *ack.client_txn_id.as_str() == *txn_id {
                text_answer("send", ack.event_id, ack.error_code)
            } else {
                None
            },
            _ => None,
        },
        BackendEvent::MediaUploadAck(ack) => match task {
            SmokeTask::UploadMedia => if *ack.client_txn_id.as_str() == *txn_id {
                text_answer("media upload", ack.content_uri, ack.error_code)
            } else {
                None
            },
            _ => None,
        },
        BackendEvent::MediaDownloadAck(ack) => match task {
            SmokeTask::DownloadMedia => if *ack.client_txn_id.as_str() == *txn_id {
                match ack.data {
                    Some(data) => Some(Ok(TaskAnswer::Bytes(data))),
                    None => Some(Err(failure_message("media download", ack.error_code))),
                }
            } else {
                None
            },
            _ => None,
        },
        _ => None,
    }
}

/// What the harness waits for.
pub open spec fn wait_label(task: SmokeTask) -> Seq<char> {
    match task {
        SmokeTask::Init => "configured"@,
        SmokeTask::RestoreSession => "restore session"@,
        SmokeTask::Login => "password login"@,
        SmokeTask::GetRecoveryStatus => "recovery status"@,
        SmokeTask::EnableRecovery | SmokeTask::ResetRecovery => "recovery enable ack"@,
        SmokeTask::RecoverSecrets => "recovery restore ack"@,
        SmokeTask::ListRooms => "room list"@,
        SmokeTask::StartSync => "syncing"@,
        SmokeTask::StopSync => "authenticated after stop sync"@,
        SmokeTask::SendDm => "send ack"@,
        SmokeTask::UploadMedia => "media upload ack"@,
        SmokeTask::DownloadMedia => "media download ack"@,
        SmokeTask::ShowUsage | SmokeTask::ObserveSync => ""@,
    }
}

/// Message about an answer that did not come in time.
pub fn timeout_message(task: SmokeTask) -> (message: String)
    ensures
        message@ == "timed out waiting for "@ + wait_label(task),
{
    let mut message: String = "timed out waiting for ".to_owned();
    message.append(
        match task {
            SmokeTask::Init => "configured",
            SmokeTask::RestoreSession => "restore session",
            SmokeTask::Login => "password login",
            SmokeTask::GetRecoveryStatus => "recovery status",
            SmokeTask::EnableRecovery | SmokeTask::ResetRecovery => "recovery enable ack",
            SmokeTask::RecoverSecrets => "recovery restore ack",
            SmokeTask::ListRooms => "room list",
            SmokeTask::StartSync => "syncing",
            SmokeTask::StopSync => "authenticated after stop sync",
            SmokeTask::SendDm => "send ack",
            SmokeTask::UploadMedia => "media upload ack",
            SmokeTask::DownloadMedia => "media download ack",
            SmokeTask::ShowUsage | SmokeTask::ObserveSync => "",
        },
    );
    message
}

/// Message about a command that could not be handed to the backend.
pub fn flush_message(label: &str, command_id: u64, reason: &str) -> (message: String)
    ensures
        message@ == "failed to flush "@ + label@ + " (id="@ + text::decimal(command_id as nat)
            + "): "@ + reason@,
{
    let mut message: String = "failed to flush ".to_owned();
    message.append(label);
    message.append(" (id=");
    message.append(text::decimal_string(command_id).as_str());
    message.append("): ");
    message.append(reason);
    message
}

/// Whether a text is `true` or `false`.
pub open spec fn bool_text(yes: bool) -> Seq<char> {
    if yes { "true"@ } else { "false"@ }
}

/// What the harness says of a recovery status.
pub open spec fn status_line_text(status: RecoveryStatus) -> Seq<char> {
    "Recovery status: backup_state="@ + state::backup_state_name(status.backup_state)
        + ", backup_enabled="@ + bool_text(status.backup_enabled)
        + ", backup_exists_on_server="@ + bool_text(status.backup_exists_on_server)
        + ", recovery_state="@ + state::recovery_state_name(status.recovery_state)
}

/// What the harness says of a recovery status.
pub fn recovery_status_line(status: &RecoveryStatus) -> (line: String)
    ensures
        line@ == status_line_text(*status),
{
    let mut line: String = "Recovery status: backup_state=".to_owned();
    line.append(state::format_key_backup_state(status.backup_state));
    line.append(", backup_enabled=");
    line.append(if status.backup_enabled { "true" } else { "false" });
    line.append(", backup_exists_on_server=");
    line.append(if status.backup_exists_on_server { "true" } else { "false" });
    line.append(", recovery_state=");
    line.append(state::format_recovery_state(status.recovery_state));
    line
}

/// What the harness says of a media round trip, where the media that was downloaded is that
/// which was uploaded.
pub fn round_trip_line(
    uploaded_uri: &str,
    uploaded: &[u8],
    download_uri: &str,
    downloaded: &[u8],
) -> (line: Option<&'static str>)
    ensures
        match line {
            Some(line) => uploaded_uri@ == download_uri@ && line@ == if uploaded@
                == downloaded@ {
                "Media roundtrip verified: upload and download bytes match."@
            } else {
                "Media roundtrip mismatch: uploaded and downloaded bytes differ."@
            },
            None => uploaded_uri@ != download_uri@,
        },
{
    if *uploaded_uri != *download_uri {
        return None;
    }
    if same_bytes(uploaded, downloaded) {
        Some("Media roundtrip verified: upload and download bytes match.")
    } else {
        Some("Media roundtrip mismatch: uploaded and downloaded bytes differ.")
    }
}

fn same_bytes(left: &[u8], right: &[u8]) -> (same: bool)
    ensures
        same == (left@ == right@),
{
    if left.len() != right.len() {
        return false;
    }
    let mut at: usize = 0;
    while at < left.len()
        invariant
            at <= left@.len(),
            left@.len() == right@.len(),
            left@.take(at as int) == right@.take(at as int),
        decreases left@.len() - at,
    {
        if left[at] != right[at] {
            return false;
        }
        at += 1;
        proof {
            assert(left@.take(at as int) =~= left@.take(at - 1).push(left@[at - 1]));
            assert(right@.take(at as int) =~= right@.take(at - 1).push(right@[at - 1]));
        }
    }
    proof {
        assert(left@.take(at as int) =~= left@);
        assert(right@.take(at as int) =~= right@);
    }
    true
}

} // verus!
