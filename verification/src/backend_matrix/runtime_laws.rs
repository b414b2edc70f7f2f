//! What the runtime asks of the SDK and how it answers, command by command.
use vstd::prelude::*;

use super::runtime::{self, Begin, MatrixRuntime, Request, RuntimeView};
use super::tuning::{self, RuntimeTuning};
use crate::backend_core::error::{BackendError, BackendErrorView};
use crate::backend_core::state_machine::{self, BackendStateMachine};
use crate::backend_core::types::{
    self, BackendCommand, BackendEvent, BackendEventView, BackendInitConfig,
    BackendLifecycleState, InviteAction, RecoveryStatus, RoomSummary, TimelineOp, TimelineOpView,
};

verus! {

/// The request of a command in a runtime with an open client and a signed-in user.
pub open spec fn is_request_of(runtime: RuntimeView, command: BackendCommand, request: Request) -> bool {
    runtime::begin_view(runtime, command).request == Some(request)
}

/// Messages are sent as they were given: to the same room or user, with the same body, type and
/// transaction ID.
pub proof fn lemma_sends_are_passed_on(
    runtime: RuntimeView,
    command: BackendCommand,
    request: Request,
)
    requires
        is_request_of(runtime, command, request),
    ensures
        command is SendMessage ==> {
            &&& request is SendMessage
            &&& request->SendMessage_room_id == command->SendMessage_room_id
            &&& request->SendMessage_client_txn_id == command->SendMessage_client_txn_id
            &&& request->SendMessage_body == command->SendMessage_body
            &&& request->msgtype == command->msgtype
        },
        command is SendDmText ==> {
            &&& request is SendDmText
            &&& request->user_id == command->user_id
            &&& request->SendDmText_client_txn_id == command->SendDmText_client_txn_id
            &&& request->SendDmText_body == command->SendDmText_body
        },
{
}

/// Edits and redactions reach the event that they name, in its room; an edit with its new body
/// and its transaction ID, a redaction with its reason.
pub proof fn lemma_edits_and_redactions_are_passed_on(
    runtime: RuntimeView,
    command: BackendCommand,
    request: Request,
)
    requires
        is_request_of(runtime, command, request),
    ensures
        command is EditMessage ==> {
            &&& request is EditMessage
            &&& request->EditMessage_room_id == command->EditMessage_room_id
            &&& request->EditMessage_target_event_id == command->EditMessage_target_event_id
            &&& request->new_body == command->new_body
            &&& request->EditMessage_client_txn_id == command->EditMessage_client_txn_id
        },
        command is RedactMessage ==> {
            &&& request is RedactMessage
            &&& request->RedactMessage_room_id == command->RedactMessage_room_id
            &&& request->RedactMessage_target_event_id == command->RedactMessage_target_event_id
            &&& request->reason == command->reason
        },
{
}

/// Invites are answered as asked, in their room and under their transaction ID.
pub proof fn lemma_invite_answers_are_passed_on(
    runtime: RuntimeView,
    command: BackendCommand,
    request: Request,
)
    requires
        is_request_of(runtime, command, request),
    ensures
        command is AcceptRoomInvite ==> {
            &&& request is AnswerInvite
            &&& request->action is Accept
            &&& request->AnswerInvite_room_id == command->AcceptRoomInvite_room_id
            &&& request->AnswerInvite_client_txn_id == command->AcceptRoomInvite_client_txn_id
        },
        command is RejectRoomInvite ==> {
            &&& request is AnswerInvite
            &&& request->action is Reject
            &&& request->AnswerInvite_room_id == command->RejectRoomInvite_room_id
            &&& request->AnswerInvite_client_txn_id == command->RejectRoomInvite_client_txn_id
        },
{
}

/// Media is uploaded and downloaded as given, under its transaction ID.
pub proof fn lemma_media_transfers_are_passed_on(
    runtime: RuntimeView,
    command: BackendCommand,
    request: Request,
)
    requires
        is_request_of(runtime, command, request),
    ensures
        command is UploadMedia ==> {
            &&& request is UploadMedia
            &&& request->UploadMedia_client_txn_id == command->UploadMedia_client_txn_id
            &&& request->content_type == command->content_type
            &&& request->data == command->data
        },
        command is DownloadMedia ==> {
            &&& request is DownloadMedia
            &&& request->DownloadMedia_client_txn_id == command->DownloadMedia_client_txn_id
            &&& request->source == command->source
        },
{
}

/// Recovery is enabled, reset and used as asked, under its transaction ID.
pub proof fn lemma_recovery_requests_are_passed_on(
    runtime: RuntimeView,
    command: BackendCommand,
    request: Request,
)
    requires
        is_request_of(runtime, command, request),
    ensures
        command is GetRecoveryStatus ==> request is GetRecoveryStatus,
        command is EnableRecovery ==> {
            &&& request is EnableRecovery
            &&& request->EnableRecovery_client_txn_id == command->EnableRecovery_client_txn_id
            &&& request->EnableRecovery_passphrase == command->EnableRecovery_passphrase
            &&& request->EnableRecovery_wait_for_backups_to_upload
                == command->EnableRecovery_wait_for_backups_to_upload
        },
        command is ResetRecovery ==> {
            &&& request is ResetRecovery
            &&& request->ResetRecovery_client_txn_id == command->ResetRecovery_client_txn_id
            &&& request->ResetRecovery_passphrase == command->ResetRecovery_passphrase
            &&& request->ResetRecovery_wait_for_backups_to_upload
                == command->ResetRecovery_wait_for_backups_to_upload
        },
        command is RecoverSecrets ==> {
            &&& request is RecoverSecrets
            &&& request->RecoverSecrets_client_txn_id == command->RecoverSecrets_client_txn_id
            &&& request->recovery_key == command->recovery_key
        },
{
}

/// Logins, session, sync and room-list commands ask for what they are named after, with the
/// credentials given and the timeout configured; a logout stops the sync loop where it runs.
pub proof fn lemma_session_requests_are_passed_on(
    runtime: RuntimeView,
    command: BackendCommand,
    request: Request,
)
    requires
        is_request_of(runtime, command, request),
    ensures
        command is LoginPassword ==> {
            &&& request is Login
            &&& request->user_id_or_localpart == command->user_id_or_localpart
            &&& request->password == command->password
            &&& request->persist_session == command->persist_session
        },
        command is RestoreSession ==> request is RestoreSession,
        command is StartSync ==> {
            &&& request is StartSync
            &&& request->request_timeout_ms == runtime.tuning.sync_request_timeout_ms
        },
        command is StopSync ==> request is StopSync,
        command is ListRooms ==> request is ListRooms,
        command is Logout ==> {
            &&& request is Logout
            &&& request->stop_sync <==> runtime.state is Syncing
        },
        command is Init ==> {
            &&& request is OpenBackend
            &&& request->homeserver == command->homeserver
            &&& request->data_dir == command->data_dir
        },
        command is OpenRoom ==> {
            &&& request is OpenRoom
            &&& request->OpenRoom_room_id == command->OpenRoom_room_id
            &&& request->OpenRoom_limit == runtime.tuning.open_room_limit
        },
        command is PaginateBack ==> {
            &&& request is PaginateBack
            &&& request->PaginateBack_room_id == command->PaginateBack_room_id
        },
{
}

/// A request arises only from the command of its kind.
pub proof fn lemma_requests_arise_from_their_command(
    runtime: RuntimeView,
    command: BackendCommand,
    request: Request,
)
    requires
        is_request_of(runtime, command, request),
    ensures
        request is OpenBackend <==> command is Init,
        request is Login <==> command is LoginPassword,
        request is RestoreSession <==> command is RestoreSession,
        request is StartSync <==> command is StartSync,
        request is StopSync <==> command is StopSync,
        request is ListRooms <==> command is ListRooms,
        request is AnswerInvite <==> command is AcceptRoomInvite || command is RejectRoomInvite,
        request is OpenRoom <==> command is OpenRoom,
        request is PaginateBack <==> command is PaginateBack,
        request is SendDmText <==> command is SendDmText,
        request is SendMessage <==> command is SendMessage,
        request is EditMessage <==> command is EditMessage,
        request is RedactMessage <==> command is RedactMessage,
        request is UploadMedia <==> command is UploadMedia,
        request is DownloadMedia <==> command is DownloadMedia,
        request is GetRecoveryStatus <==> command is GetRecoveryStatus,
        request is EnableRecovery <==> command is EnableRecovery,
        request is ResetRecovery <==> command is ResetRecovery,
        request is RecoverSecrets <==> command is RecoverSecrets,
        request is Logout <==> command is Logout,
{
}

/// Whether a command is about rooms, messages, media or recovery.
pub open spec fn needs_sign_in(command: BackendCommand) -> bool {
    !(command is Init || command is LoginPassword || command is RestoreSession || command
        is StartSync || command is StopSync || command is Logout)
}

/// While the user is signed in and the client is open, every command about rooms, messages,
/// media or recovery goes to the SDK, at once and silently.
pub proof fn lemma_signed_in_user_is_served(runtime: RuntimeView, command: BackendCommand)
    requires
        runtime.state is Authenticated || runtime.state is Syncing,
        runtime.has_backend,
        needs_sign_in(command),
    ensures
        runtime::begin_view(runtime, command).request is Some,
        runtime::begin_view(runtime, command).events.len() == 0,
        runtime::begin_view(runtime, command).state == runtime.state,
{
}

/// Without a signed-in user no such command reaches the SDK.
pub proof fn lemma_others_are_not_served(runtime: RuntimeView, command: BackendCommand)
    requires
        !(runtime.state is Authenticated || runtime.state is Syncing),
        needs_sign_in(command),
    ensures
        runtime::begin_view(runtime, command).request is None,
        runtime::begin_view(runtime, command).events.len() == 1,
        runtime::begin_view(runtime, command).state == runtime.state,
{
}

/// The way through a session: `Init` configures, a login authenticates, sync starts and stops,
/// and logout ends it; every step is accepted where it is due.
pub proof fn lemma_session_goes_its_way(
    init: BackendCommand,
    login: BackendCommand,
)
    requires
        init is Init,
        login is LoginPassword || login is RestoreSession,
    ensures
        state_machine::state_after(BackendLifecycleState::Cold, init) is Configured,
        state_machine::state_after(BackendLifecycleState::Configured, login) is Authenticating,
        runtime::state_after_auth(BackendLifecycleState::Authenticating, true) is Authenticated,
        runtime::state_after_auth(BackendLifecycleState::Authenticating, false) is Configured,
        state_machine::state_after(
            BackendLifecycleState::Authenticated,
            BackendCommand::StartSync,
        ) is Syncing,
        state_machine::state_after(
            BackendLifecycleState::Syncing,
            BackendCommand::StopSync,
        ) is Authenticated,
        state_machine::state_after(
            BackendLifecycleState::Syncing,
            BackendCommand::Logout,
        ) is LoggedOut,
        state_machine::state_after(
            BackendLifecycleState::Authenticated,
            BackendCommand::Logout,
        ) is LoggedOut,
        state_machine::state_after(BackendLifecycleState::LoggedOut, init) is Configured,
        state_machine::state_after(BackendLifecycleState::LoggedOut, login) is Authenticating,
{
}

/// A command that the lifecycle does not allow is refused and leaves the state as it is; which
/// these are.
pub proof fn lemma_lifecycle_refusals(state: BackendLifecycleState, command: BackendCommand)
    ensures
        ({
            let refused = state_machine::transition(state, command) is Refused;
            &&& refused ==> state_machine::state_after(state, command) == state
            &&& command is Init ==> (refused <==> state is Authenticating || state is Authenticated
                || state is Syncing || state is Fatal)
            &&& command is LoginPassword || command is RestoreSession ==> (refused <==> !(state
                is Configured || state is LoggedOut))
            &&& command is StartSync ==> (refused <==> !(state is Authenticated))
            &&& command is StopSync ==> (refused <==> !(state is Syncing))
            &&& command is Logout ==> (refused <==> state is Cold || state is LoggedOut || state
                is Fatal)
            &&& needs_sign_in(command) ==> (refused <==> !(state is Authenticated || state
                is Syncing))
        }),
{
}

/// The transaction ID of a command that is acknowledged.
pub open spec fn txn_of_command(command: BackendCommand) -> Option<Seq<char>> {
    match command {
        BackendCommand::AcceptRoomInvite { client_txn_id, .. } => Some(client_txn_id@),
        BackendCommand::RejectRoomInvite { client_txn_id, .. } => Some(client_txn_id@),
        BackendCommand::SendDmText { client_txn_id, .. } => Some(client_txn_id@),
        BackendCommand::SendMessage { client_txn_id, .. } => Some(client_txn_id@),
        BackendCommand::EditMessage { client_txn_id, .. } => Some(client_txn_id@),
        BackendCommand::UploadMedia { client_txn_id, .. } => Some(client_txn_id@),
        BackendCommand::DownloadMedia { client_txn_id, .. } => Some(client_txn_id@),
        BackendCommand::EnableRecovery { client_txn_id, .. } => Some(client_txn_id@),
        BackendCommand::ResetRecovery { client_txn_id, .. } => Some(client_txn_id@),
        BackendCommand::RecoverSecrets { client_txn_id, .. } => Some(client_txn_id@),
        _ => None,
    }
}

/// The transaction ID and the error code of an acknowledgement.
pub open spec fn ack_of_event(event: BackendEventView) -> Option<(Seq<char>, Option<Seq<char>>)> {
    match event {
        BackendEventView::SendAck { client_txn_id, error_code, .. } => Some(
            (client_txn_id, error_code),
        ),
        BackendEventView::MediaUploadAck { client_txn_id, error_code, .. } => Some(
            (client_txn_id, error_code),
        ),
        BackendEventView::MediaDownloadAck { client_txn_id, error_code, .. } => Some(
            (client_txn_id, error_code),
        ),
        BackendEventView::InviteActionAck { client_txn_id, error_code, .. } => Some(
            (client_txn_id, error_code),
        ),
        BackendEventView::RecoveryEnableAck { client_txn_id, error_code, .. } => Some(
            (client_txn_id, error_code),
        ),
        BackendEventView::RecoveryRestoreAck { client_txn_id, error_code } => Some(
            (client_txn_id, error_code),
        ),
        _ => None,
    }
}

/// A refused command with a transaction ID is acknowledged under that ID with the error's code,
/// and with no result; a refused login is answered with a failed authentication and the code;
/// any other one with an error event of that code and message.
pub proof fn lemma_refusals_are_acknowledged(command: BackendCommand, failure: BackendErrorView)
    ensures
        ({
            let event = runtime::refusal_event(command, failure);
            &&& match txn_of_command(command) {
                Some(txn_id) => ack_of_event(event) == Some((txn_id, Some(failure.code))),
                None => ack_of_event(event) is None,
            }
            &&& command is SendMessage || command is SendDmText || command is EditMessage
                <==> event is SendAck
            &&& command is UploadMedia <==> event is MediaUploadAck
            &&& command is DownloadMedia <==> event is MediaDownloadAck
            &&& command is AcceptRoomInvite || command is RejectRoomInvite <==> event
                is InviteActionAck
            &&& command is EnableRecovery || command is ResetRecovery <==> event
                is RecoveryEnableAck
            &&& command is RecoverSecrets <==> event is RecoveryRestoreAck
            &&& event is SendAck ==> event->event_id is None
            &&& event is MediaUploadAck ==> event->content_uri is None
            &&& event is MediaDownloadAck ==> event->data is None && event->source
                == command->source@
            &&& event is RecoveryEnableAck ==> event->recovery_key is None
            &&& command is AcceptRoomInvite ==> event->action is Accept
                && event->InviteActionAck_room_id == command->AcceptRoomInvite_room_id@
            &&& command is RejectRoomInvite ==> event->action is Reject
                && event->InviteActionAck_room_id == command->RejectRoomInvite_room_id@
            &&& command is LoginPassword || command is RestoreSession ==> event
                == (BackendEventView::AuthResult { success: false, error_code: Some(failure.code) })
            &&& txn_of_command(command) is None && !(command is LoginPassword || command
                is RestoreSession) ==> {
                &&& event is FatalError
                &&& event->code == failure.code
                &&& event->message == failure.message
                &&& event->recoverable <==> failure.category is Network || failure.category
                    is RateLimited
            }
        }),
{
}

/// A command that needs the client is refused by the code `backend_not_initialized` while none
/// is open, whatever the user's state.
pub proof fn lemma_missing_client_is_reported(runtime: RuntimeView, command: BackendCommand)
    requires
        runtime.state is Authenticated || runtime.state is Syncing,
        !runtime.has_backend,
        needs_sign_in(command),
    ensures
        ({
            let begin = runtime::begin_view(runtime, command);
            &&& begin.request is None
            &&& begin.events.len() == 1
            &&& txn_of_command(command) matches Some(txn_id) ==> ack_of_event(begin.events[0])
                == Some((txn_id, Some("backend_not_initialized"@)))
            &&& txn_of_command(command) is None ==> begin.events[0] is FatalError
                && begin.events[0]->code == "backend_not_initialized"@
        }),
{
}

/// An authentication ends with its result, as the last event; where one was on its way the new
/// state is announced before it.
pub proof fn lemma_authentication_ends_with_its_result(
    state: BackendLifecycleState,
    success: bool,
    error_code: Option<Seq<char>>,
)
    ensures
        ({
            let events = runtime::auth_events(state, success, error_code);
            &&& events.len() > 0
            &&& events[events.len() - 1] == (BackendEventView::AuthResult { success, error_code })
            &&& state is Authenticating ==> {
                &&& events.len() == 2
                &&& success ==> events[0] == (BackendEventView::StateChanged {
                    state: BackendLifecycleState::Authenticated,
                })
                &&& !success ==> events[0] == (BackendEventView::StateChanged {
                    state: BackendLifecycleState::Configured,
                })
            }
            &&& !(state is Authenticating) ==> events.len() == 1 && runtime::state_after_auth(
                state,
                success,
            ) == state
        }),
{
}

/// A command that is complete announces the state that it leads to, and nothing where it keeps
/// the state.
pub proof fn lemma_completion_announces_the_state(
    state: BackendLifecycleState,
    command: BackendCommand,
)
    requires
        !(state_machine::transition(state, command) is Refused),
        command is StartSync || command is StopSync || command is Logout || command is Init,
    ensures
        runtime::commit_events(state, command) == seq![
            BackendEventView::StateChanged { state: state_machine::state_after(state, command) },
        ],
{
}

/// A page starts where the last one of the same room ended: what was remembered for a room is
/// asked for from there, what is remembered for another room does not matter, and a room of
/// which nothing is remembered is asked for from its newest event.
pub proof fn lemma_pages_follow_each_other(
    runtime: RuntimeView,
    room_id: String,
    limit: u16,
    other: Seq<char>,
    token: Option<String>,
)
    requires
        other != room_id@,
    ensures
        ({
            let command = BackendCommand::PaginateBack { room_id, limit };
            let loaded = RuntimeView {
                tokens: runtime.tokens.insert(room_id@, token),
                ..runtime
            };
            let elsewhere = RuntimeView {
                tokens: runtime.tokens.insert(other, token),
                ..runtime
            };
            let nothing = RuntimeView { tokens: Map::empty(), ..runtime };
            &&& runtime::request_for(loaded, command)->from_token == token
            &&& runtime::request_for(elsewhere, command)->from_token == runtime::request_for(
                runtime,
                command,
            )->from_token
            &&& runtime::request_for(nothing, command)->from_token is None
        }),
{
}

/// Configured tuning values are used as they are, and the defaults where none are given; a
/// value of zero is refused with a message that names it.
pub proof fn lemma_tuning_is_as_configured(config: BackendInitConfig)
    ensures
        match tuning::tuning_of(Some(config)) {
            Ok(tuning) => {
                &&& tuning.sync_request_timeout_ms == config.sync_request_timeout_ms
                &&& config.default_open_room_limit is Some ==> config.default_open_room_limit
                    == Some(tuning.open_room_limit)
                &&& config.default_open_room_limit is None ==> tuning.open_room_limit == 30
                &&& config.pagination_limit_cap is Some ==> config.pagination_limit_cap == Some(
                    tuning.pagination_limit_cap,
                )
                &&& config.pagination_limit_cap is None ==> tuning.pagination_limit_cap == 100
                &&& config.sync_request_timeout_ms != Some(0u64)
                &&& config.default_open_room_limit != Some(0u16)
                &&& config.pagination_limit_cap != Some(0u16)
            },
            Err(failure) => {
                &&& failure.code == "invalid_init_config"@
                &&& failure.category is Config
                &&& config.sync_request_timeout_ms == Some(0u64) || config.default_open_room_limit
                    == Some(0u16) || config.pagination_limit_cap == Some(0u16)
            },
        },
        tuning::tuning_of(None) is Ok,
        tuning::tuning_of(None)->Ok_0.sync_request_timeout_ms is None,
        tuning::tuning_of(None)->Ok_0.open_room_limit == 30,
        tuning::tuning_of(None)->Ok_0.pagination_limit_cap == 100,
{
}

/// A sent message is acknowledged once, under its own transaction ID: with the event's ID where
/// it was sent, else with the error's code.
pub proof fn lemma_sent_message_is_acknowledged(
    client_txn_id: &str,
    sent: Result<String, BackendError>,
    events: Vec<BackendEvent>,
)
    requires
        call_ensures(runtime::complete_send, (client_txn_id, sent), events),
    ensures
        events@.len() == 1,
        events@[0]@ is SendAck,
        events@[0]@->SendAck_client_txn_id == client_txn_id@,
        sent matches Ok(event_id) ==> events@[0]@->event_id == Some(event_id@)
            && events@[0]@->SendAck_error_code is None,
        sent matches Err(failure) ==> events@[0]@->event_id is None
            && events@[0]@->SendAck_error_code == Some(failure.code@),
{
    lemma_views_of_events(events@);
}

proof fn lemma_views_of_events(events: Seq<BackendEvent>)
    ensures
        types::event_views(events).len() == events.len(),
        forall|i: int|
            0 <= i < events.len() ==> types::event_views(events)[i] == (#[trigger] events[i])@,
{
}

/// An edit is acknowledged like a sent message, and only where it was sent the message shows
/// its new body: that of the event that was edited, in its room.
pub proof fn lemma_edit_shows_once_sent(
    room_id: String,
    target_event_id: String,
    new_body: String,
    client_txn_id: &str,
    sent: Result<String, BackendError>,
    events: Vec<BackendEvent>,
)
    requires
        call_ensures(
            runtime::complete_edit,
            (room_id, target_event_id, new_body, client_txn_id, sent),
            events,
        ),
    ensures
        events@.len() == if sent is Ok { 2int } else { 1 },
        events@[0]@ is SendAck,
        events@[0]@->SendAck_client_txn_id == client_txn_id@,
        sent matches Ok(event_id) ==> {
            &&& events@[0]@->event_id == Some(event_id@)
            &&& events@[0]@->SendAck_error_code is None
            &&& events@[1]@ is RoomTimelineDelta
            &&& events@[1]@->RoomTimelineDelta_room_id == room_id@
            &&& events@[1]@->ops.len() == 1
            &&& events@[1]@->ops[0] == (TimelineOpView::UpdateBody {
                event_id: target_event_id@,
                new_body: new_body@,
            })
        },
        sent matches Err(failure) ==> events@[0]@->event_id is None
            && events@[0]@->SendAck_error_code == Some(failure.code@),
{
    lemma_views_of_events(events@);
}

/// A redaction takes the event out of its room's timeline once the homeserver agreed; else the
/// error is reported.
pub proof fn lemma_redaction_shows_once_done(
    room_id: String,
    target_event_id: String,
    redacted: Result<(), BackendError>,
    events: Vec<BackendEvent>,
)
    requires
        call_ensures(runtime::complete_redact, (room_id, target_event_id, redacted), events),
    ensures
        events@.len() == 1,
        redacted is Ok ==> {
            &&& events@[0]@ is RoomTimelineDelta
            &&& events@[0]@->RoomTimelineDelta_room_id == room_id@
            &&& events@[0]@->ops.len() == 1
            &&& events@[0]@->ops[0] == (TimelineOpView::Remove { event_id: target_event_id@ })
        },
        redacted matches Err(failure) ==> events@[0]@ is FatalError && events@[0]@->code
            == failure.code@,
{
    lemma_views_of_events(events@);
}

/// An answered invite is acknowledged under its own transaction ID, room and action; the new
/// room list follows where the homeserver agreed.
pub proof fn lemma_invite_answer_is_acknowledged(
    room_id: String,
    client_txn_id: String,
    action: InviteAction,
    answered: Result<Vec<RoomSummary>, BackendError>,
    events: Vec<BackendEvent>,
)
    requires
        call_ensures(
            runtime::complete_invite,
            (room_id, client_txn_id, action, answered),
            events,
        ),
    ensures
        events@.len() == if answered is Ok { 2int } else { 1 },
        events@[0]@ is InviteActionAck,
        events@[0]@->InviteActionAck_client_txn_id == client_txn_id@,
        events@[0]@->InviteActionAck_room_id == room_id@,
        events@[0]@->action == action,
        answered matches Ok(rooms) ==> {
            &&& events@[0]@->InviteActionAck_error_code is None
            &&& events@[1]@ is RoomListUpdated
            &&& events@[1]@->rooms.len() == rooms@.len()
            &&& forall|i: int|
                0 <= i < rooms@.len() ==> events@[1]@->rooms[i] == (#[trigger] rooms@[i])@
        },
        answered matches Err(failure) ==> events@[0]@->InviteActionAck_error_code == Some(
            failure.code@,
        ),
{
    lemma_views_of_events(events@);
}

/// A media transfer is acknowledged once, under its own transaction ID: an upload with the
/// content's URI, a download with its source and the bytes, or either with the error's code.
pub proof fn lemma_media_transfer_is_acknowledged(
    client_txn_id: String,
    source: String,
    uploaded: Result<String, BackendError>,
    downloaded: Result<Vec<u8>, BackendError>,
    upload_events: Vec<BackendEvent>,
    download_events: Vec<BackendEvent>,
)
    requires
        call_ensures(runtime::complete_upload, (client_txn_id, uploaded), upload_events),
        call_ensures(
            runtime::complete_download,
            (client_txn_id, source, downloaded),
            download_events,
        ),
    ensures
        upload_events@.len() == 1,
        upload_events@[0]@ is MediaUploadAck,
        upload_events@[0]@->MediaUploadAck_client_txn_id == client_txn_id@,
        uploaded matches Ok(uri) ==> upload_events@[0]@->content_uri == Some(uri@)
            && upload_events@[0]@->MediaUploadAck_error_code is None,
        uploaded matches Err(failure) ==> upload_events@[0]@->content_uri is None
            && upload_events@[0]@->MediaUploadAck_error_code == Some(failure.code@),
        download_events@.len() == 1,
        download_events@[0]@ is MediaDownloadAck,
        download_events@[0]@->MediaDownloadAck_client_txn_id == client_txn_id@,
        download_events@[0]@->source == source@,
        downloaded matches Ok(data) ==> download_events@[0]@->data == Some(data@)
            && download_events@[0]@->MediaDownloadAck_error_code is None,
        downloaded matches Err(failure) ==> download_events@[0]@->data is None
            && download_events@[0]@->MediaDownloadAck_error_code == Some(failure.code@),
{
    lemma_views_of_events(upload_events@);
    lemma_views_of_events(download_events@);
}

/// Enabling and using recovery are acknowledged first, under their own transaction ID, with the
/// new key or the error's code; the status follows only after success.
pub proof fn lemma_recovery_is_acknowledged(
    client_txn_id: String,
    enabled: Result<String, BackendError>,
    recovered: Result<(), BackendError>,
    status: Option<RecoveryStatus>,
    enable_events: Vec<BackendEvent>,
    recover_events: Vec<BackendEvent>,
)
    requires
        call_ensures(
            runtime::complete_enable_recovery,
            (client_txn_id, enabled, status),
            enable_events,
        ),
        call_ensures(
            runtime::complete_recover_secrets,
            (client_txn_id, recovered, status),
            recover_events,
        ),
    ensures
        enable_events@.len() == if enabled is Ok && status is Some { 2int } else { 1 },
        enable_events@[0]@ is RecoveryEnableAck,
        enable_events@[0]@->RecoveryEnableAck_client_txn_id == client_txn_id@,
        enabled matches Ok(key) ==> enable_events@[0]@->recovery_key == Some(key@)
            && enable_events@[0]@->RecoveryEnableAck_error_code is None,
        enabled matches Err(failure) ==> enable_events@[0]@->recovery_key is None
            && enable_events@[0]@->RecoveryEnableAck_error_code == Some(failure.code@),
        enabled is Ok && status is Some ==> enable_events@[1]@
            == BackendEventView::RecoveryStatus(status->0),
        recover_events@.len() == if recovered is Ok && status is Some { 2int } else { 1 },
        recover_events@[0]@ is RecoveryRestoreAck,
        recover_events@[0]@->RecoveryRestoreAck_client_txn_id == client_txn_id@,
        recovered is Ok ==> recover_events@[0]@->RecoveryRestoreAck_error_code is None,
        recovered matches Err(failure) ==> recover_events@[0]@->RecoveryRestoreAck_error_code
            == Some(failure.code@),
        recovered is Ok && status is Some ==> recover_events@[1]@
            == BackendEventView::RecoveryStatus(status->0),
{
    lemma_views_of_events(enable_events@);
    lemma_views_of_events(recover_events@);
}

/// A listed room list holds every room, in its order; a status that was read is reported as it
/// is, and an error as an error.
pub proof fn lemma_lists_and_status_are_reported(
    rooms: Vec<RoomSummary>,
    read: Result<RecoveryStatus, BackendError>,
    list_events: Vec<BackendEvent>,
    status_events: Vec<BackendEvent>,
)
    requires
        call_ensures(runtime::complete_list_rooms, (rooms,), list_events),
        call_ensures(runtime::complete_recovery_status, (read,), status_events),
    ensures
        list_events@.len() == 1,
        list_events@[0]@ is RoomListUpdated,
        list_events@[0]@->rooms.len() == rooms@.len(),
        forall|i: int|
            0 <= i < rooms@.len() ==> list_events@[0]@->rooms[i] == (#[trigger] rooms@[i])@,
        status_events@.len() == 1,
        read matches Ok(status) ==> status_events@[0]@ == BackendEventView::RecoveryStatus(status),
        read matches Err(failure) ==> status_events@[0]@ is FatalError && status_events@[0]@->code
            == failure.code@,
{
    lemma_views_of_events(list_events@);
    lemma_views_of_events(status_events@);
}

/// Recovery that is fully or partly set up, with a backup in use and on the homeserver, is not
/// enabled again; where any of these is missing it can be.
pub proof fn lemma_recovery_is_enabled_once(
    status: RecoveryStatus,
    result: Result<(), BackendError>,
)
    requires
        call_ensures(runtime::check_recovery_not_set_up, (&status,), result),
    ensures
        !status.backup_enabled ==> result is Ok,
        !status.backup_exists_on_server ==> result is Ok,
        status.recovery_state is Disabled || status.recovery_state is Unknown ==> result is Ok,
        status.backup_enabled && status.backup_exists_on_server && (status.recovery_state
            is Enabled || status.recovery_state is Incomplete) ==> result is Err
            && result->Err_0.code@ == "recovery_already_enabled"@,
{
}

/// A command is begun as the lifecycle has it: what it asks for, what it announces and the state
/// that it leads to; nothing else of the runtime changes.
pub proof fn lemma_commands_are_begun()
    ensures
        forall|runtime: &mut MatrixRuntime, command: BackendCommand, begin: Begin|
            #[trigger] call_ensures(MatrixRuntime::begin, (runtime, command), begin) ==> {
                let expected = runtime::begin_view((*runtime)@, command);
                &&& begin.request == expected.request
                &&& types::event_views(begin.events@) == expected.events
                &&& final(runtime)@.state == expected.state
                &&& final(runtime)@.has_backend == (*runtime)@.has_backend
                &&& final(runtime)@.init == (*runtime)@.init
                &&& final(runtime)@.tuning == (*runtime)@.tuning
                &&& final(runtime)@.tokens == (*runtime)@.tokens
            },
        forall|runtime: MatrixRuntime|
            #[trigger] call_ensures(MatrixRuntime::new, (), runtime) ==> {
                &&& runtime@.state is Cold
                &&& !runtime@.has_backend
                &&& runtime@.init is None
                &&& runtime@.tokens == Map::<Seq<char>, Option<String>>::empty()
            },
{
}

/// A client that was opened makes the runtime configured, for its account and without pages of
/// an earlier one; one that could not be opened is reported and changes nothing.
pub proof fn lemma_opened_client_is_used()
    ensures
        forall|
            runtime: &mut MatrixRuntime,
            homeserver: String,
            data_dir: String,
            tuning: RuntimeTuning,
            opened: Result<(), BackendError>,
            events: Vec<BackendEvent>,
        |
            #[trigger] call_ensures(
                MatrixRuntime::complete_init,
                (runtime, homeserver, data_dir, tuning, opened),
                events,
            ) ==> {
                let sent = types::event_views(events@);
                let state = (*runtime)@.state;
                let after = final(runtime)@;
                &&& sent.len() == 1
                &&& opened is Err ==> after == (*runtime)@ && sent[0] is FatalError
                    && sent[0]->code == opened->Err_0.code@
                &&& opened is Ok && (state is Cold || state is Configured || state is LoggedOut)
                    ==> {
                    &&& after.state is Configured
                    &&& after.has_backend
                    &&& after.init is Some
                    &&& after.init->0.homeserver == homeserver@
                    &&& after.init->0.data_dir == data_dir@
                    &&& after.tuning == tuning
                    &&& forall|room_id: Seq<char>| !after.tokens.dom().contains(room_id)
                    &&& sent[0] == (BackendEventView::StateChanged {
                        state: BackendLifecycleState::Configured,
                    })
                }
            },
{
}

/// An authentication that ended is reported with its result, and its state with it.
pub proof fn lemma_authentication_is_finished()
    ensures
        forall|
            runtime: &mut MatrixRuntime,
            outcome: Result<(), BackendError>,
            events: Vec<BackendEvent>,
        |
            #[trigger] call_ensures(MatrixRuntime::finish_auth, (runtime, outcome), events) && (
            *runtime)@.state is Authenticating ==> {
                let sent = types::event_views(events@);
                &&& sent.len() == 2
                &&& sent[1] is AuthResult
                &&& sent[1]->success == (outcome is Ok)
                &&& outcome is Err ==> sent[1]->AuthResult_error_code == Some(
                    outcome->Err_0.code@,
                )
                &&& outcome is Ok ==> sent[1]->AuthResult_error_code is None
                &&& outcome is Ok ==> final(runtime)@.state is Authenticated
                &&& outcome is Err ==> final(runtime)@.state is Configured
            },
{
}

/// Sync that started or stopped is announced; a failure is reported and leaves the state.
pub proof fn lemma_sync_is_announced()
    ensures
        forall|
            runtime: &mut MatrixRuntime,
            started: Result<(), BackendError>,
            events: Vec<BackendEvent>,
        |
            #[trigger] call_ensures(MatrixRuntime::complete_start_sync, (runtime, started), events)
                && (*runtime)@.state is Authenticated ==> {
                let sent = types::event_views(events@);
                &&& sent.len() == 1
                &&& started is Ok ==> final(runtime)@.state is Syncing && sent[0] == (
                BackendEventView::StateChanged { state: BackendLifecycleState::Syncing })
                &&& started is Err ==> final(runtime)@ == (*runtime)@ && sent[0] is FatalError
            },
        forall|
            runtime: &mut MatrixRuntime,
            stopped: Result<(), BackendError>,
            events: Vec<BackendEvent>,
        |
            #[trigger] call_ensures(MatrixRuntime::complete_stop_sync, (runtime, stopped), events)
                && (*runtime)@.state is Syncing ==> {
                let sent = types::event_views(events@);
                &&& sent.len() == 1
                &&& stopped is Ok ==> final(runtime)@.state is Authenticated && sent[0] == (
                BackendEventView::StateChanged { state: BackendLifecycleState::Authenticated })
                &&& stopped is Err ==> final(runtime)@ == (*runtime)@ && sent[0] is FatalError
            },
{
}

/// A logout whose data is wiped forgets everything, whatever the server said; where it is not
/// wiped that is reported, and the client is closed all the same.
pub proof fn lemma_logout_forgets_everything()
    ensures
        forall|
            runtime: &mut MatrixRuntime,
            answer: Result<(), BackendError>,
            wiped: Result<(), BackendError>,
            events: Vec<BackendEvent>,
        |
            #[trigger] call_ensures(
                MatrixRuntime::complete_logout,
                (runtime, answer, wiped),
                events,
            ) && ((*runtime)@.state is Authenticated || (*runtime)@.state is Syncing) ==> {
                let sent = types::event_views(events@);
                let after = final(runtime)@;
                &&& sent.len() == 1
                &&& !after.has_backend
                &&& wiped is Ok ==> {
                    &&& after.state is LoggedOut
                    &&& after.init is None
                    &&& forall|room_id: Seq<char>| !after.tokens.dom().contains(room_id)
                    &&& sent[0] == (BackendEventView::StateChanged {
                        state: BackendLifecycleState::LoggedOut,
                    })
                }
                &&& wiped is Err ==> sent[0] is FatalError && after.state == (*runtime)@.state
            },
{
}

/// A page that was loaded is handed on for its room, and where it ended is remembered for that
/// room alone.
pub proof fn lemma_loaded_page_is_handed_on()
    ensures
        forall|
            runtime: &mut MatrixRuntime,
            room_id: String,
            loaded: Result<(Vec<TimelineOp>, Option<String>), BackendError>,
            events: Vec<BackendEvent>,
        |
            #[trigger] call_ensures(
                MatrixRuntime::complete_timeline,
                (runtime, room_id, loaded),
                events,
            ) ==> {
                let sent = types::event_views(events@);
                let after = final(runtime)@;
                &&& sent.len() == 1
                &&& loaded matches Ok((ops, token)) ==> {
                    &&& sent[0] is RoomTimelineDelta
                    &&& sent[0]->RoomTimelineDelta_room_id == room_id@
                    &&& sent[0]->RoomTimelineDelta_ops == types::op_views(ops@)
                    &&& after.tokens.dom().contains(room_id@)
                    &&& after.tokens[room_id@] == token
                    &&& forall|other: Seq<char>|
                        other != room_id@ ==> (#[trigger] after.tokens.dom().contains(other))
                            == (*runtime)@.tokens.dom().contains(other)
                    &&& after.state == (*runtime)@.state
                }
                &&& loaded is Err ==> sent[0] is FatalError && after == (*runtime)@
            },
{
}

/// The lifecycle guard answers as the lifecycle has it; an authentication result counts only
/// while one is on its way, and a fatal error ends everything.
pub proof fn lemma_lifecycle_guard_follows_the_rules()
    ensures
        forall|
            machine: &mut BackendStateMachine,
            command: &BackendCommand,
            result: Result<Vec<BackendEvent>, BackendError>,
        |
            #[trigger] call_ensures(BackendStateMachine::apply, (machine, command), result) ==> {
                let refused = state_machine::transition((*machine).current(), *command) is Refused;
                &&& result is Err <==> refused
                &&& final(machine).current() == state_machine::state_after(
                    (*machine).current(),
                    *command,
                )
                &&& refused ==> result->Err_0@.category is Internal
                &&& refused ==> result->Err_0@.code == "invalid_state_transition"@
                &&& refused ==> result->Err_0@.retry_after_ms is None
            },
        forall|
            machine: &mut BackendStateMachine,
            success: bool,
            result: Result<BackendEvent, BackendError>,
        |
            #[trigger] call_ensures(
                BackendStateMachine::on_auth_result,
                (machine, success),
                result,
            ) ==> {
                let authenticating = (*machine).current() is Authenticating;
                &&& result is Ok <==> authenticating
                &&& authenticating && success ==> final(machine).current() is Authenticated
                &&& authenticating && !success ==> final(machine).current() is Configured
                &&& !authenticating ==> final(machine).current() == (*machine).current()
            },
        forall|machine: &mut BackendStateMachine, event: BackendEvent|
            #[trigger] call_ensures(BackendStateMachine::on_fatal, (machine,), event) ==> {
                &&& final(machine).current() is Fatal
                &&& event@ == (BackendEventView::StateChanged {
                    state: BackendLifecycleState::Fatal,
                })
            },
{
}

/// A command is named by its kind in the log, whatever it holds.
pub proof fn lemma_commands_are_named_by_kind(command: BackendCommand)
    ensures
        command is Init ==> runtime::command_name(command) == "Init"@,
        command is LoginPassword ==> runtime::command_name(command) == "LoginPassword"@,
        command is RestoreSession ==> runtime::command_name(command) == "RestoreSession"@,
        command is StartSync ==> runtime::command_name(command) == "StartSync"@,
        command is StopSync ==> runtime::command_name(command) == "StopSync"@,
        command is ListRooms ==> runtime::command_name(command) == "ListRooms"@,
        command is AcceptRoomInvite ==> runtime::command_name(command) == "AcceptRoomInvite"@,
        command is RejectRoomInvite ==> runtime::command_name(command) == "RejectRoomInvite"@,
        command is OpenRoom ==> runtime::command_name(command) == "OpenRoom"@,
        command is PaginateBack ==> runtime::command_name(command) == "PaginateBack"@,
        command is SendDmText ==> runtime::command_name(command) == "SendDmText"@,
        command is SendMessage ==> runtime::command_name(command) == "SendMessage"@,
        command is EditMessage ==> runtime::command_name(command) == "EditMessage"@,
        command is RedactMessage ==> runtime::command_name(command) == "RedactMessage"@,
        command is UploadMedia ==> runtime::command_name(command) == "UploadMedia"@,
        command is DownloadMedia ==> runtime::command_name(command) == "DownloadMedia"@,
        command is GetRecoveryStatus ==> runtime::command_name(command) == "GetRecoveryStatus"@,
        command is EnableRecovery ==> runtime::command_name(command) == "EnableRecovery"@,
        command is ResetRecovery ==> runtime::command_name(command) == "ResetRecovery"@,
        command is RecoverSecrets ==> runtime::command_name(command) == "RecoverSecrets"@,
        command is Logout ==> runtime::command_name(command) == "Logout"@,
{
}

/// A room that is not there is reported with its ID.
pub proof fn lemma_missing_room_is_named(room_id: &str, failure: BackendError)
    requires
        call_ensures(runtime::room_not_found, (room_id,), failure),
    ensures
        failure@.code == "room_not_found"@,
        failure@.category is Config,
        failure@.message == "room not found: "@ + room_id@,
{
}

/// A tuning value of zero is refused by its name, and only then; what is accepted is usable.
pub proof fn lemma_zero_tuning_is_refused_by_name(config: BackendInitConfig)
    ensures
        config.sync_request_timeout_ms == Some(0u64) ==> tuning::tuning_of(Some(config)) is Err
            && tuning::tuning_of(Some(config))->Err_0.message
            == "sync_request_timeout_ms"@ + " must be greater than zero when provided"@,
        config.sync_request_timeout_ms != Some(0u64) && config.default_open_room_limit == Some(
            0u16,
        ) ==> tuning::tuning_of(Some(config)) is Err && tuning::tuning_of(
            Some(config),
        )->Err_0.message == "default_open_room_limit"@
            + " must be greater than zero when provided"@,
        config.sync_request_timeout_ms != Some(0u64) && config.default_open_room_limit != Some(
            0u16,
        ) && config.pagination_limit_cap == Some(0u16) ==> tuning::tuning_of(Some(config)) is Err
            && tuning::tuning_of(Some(config))->Err_0.message == "pagination_limit_cap"@
            + " must be greater than zero when provided"@,
        tuning::tuning_of(Some(config)) matches Ok(tuned) ==> tuned.is_usable(),
        tuning::tuning_of(Some(config)) matches Ok(tuned) ==> tuned.open_room_limit > 0
            && tuned.pagination_limit_cap > 0,
{
}

/// Tuning is usable where no value of it is zero.
pub proof fn lemma_usable_tuning_has_no_zero(tuned: RuntimeTuning)
    ensures
        tuned.is_usable() <==> tuned.open_room_limit != 0 && tuned.pagination_limit_cap != 0
            && tuned.sync_request_timeout_ms != Some(0u64),
{
}

/// A login or restore that is due is announced; with an open client it goes to the SDK, and
/// without one it fails at once, so that the user can try again.
pub proof fn lemma_login_needs_an_open_client(runtime: RuntimeView, command: BackendCommand)
    requires
        command is LoginPassword || command is RestoreSession,
        runtime.state is Configured || runtime.state is LoggedOut,
    ensures
        ({
            let begin = runtime::begin_view(runtime, command);
            &&& begin.events.len() >= 1
            &&& begin.events[0] == (BackendEventView::StateChanged {
                state: BackendLifecycleState::Authenticating,
            })
            &&& runtime.has_backend ==> {
                &&& begin.request is Some
                &&& begin.events.len() == 1
                &&& begin.state is Authenticating
            }
            &&& !runtime.has_backend ==> {
                &&& begin.request is None
                &&& begin.events.len() == 3
                &&& begin.events[2] is AuthResult
                &&& !begin.events[2]->success
                &&& begin.events[2]->AuthResult_error_code == Some("backend_not_initialized"@)
                &&& begin.state is Configured
            }
        }),
{
}

} // verus!
