//! The command runtime: which requests go to the SDK, and which events answer a command.
//!
//! [`MatrixRuntime::begin`] takes a command and says what to ask of the SDK; the host
//! performs the request and hands the outcome to the matching `complete_*` function.
use vstd::prelude::*;

use super::errors;
use super::tuning::{self, RuntimeTuning};
use crate::backend_core::error::{self, BackendError, BackendErrorCategory, BackendErrorView};
use crate::backend_core::normalization::{self, SendOutcome};
use crate::backend_core::state_machine::{self, BackendStateMachine};
use crate::backend_core::timeline::{self, TimelineBuffer};
use crate::backend_core::types::{
    self, BackendCommand, BackendEvent, BackendEventView, BackendLifecycleState, InviteAction,
    InviteActionAck, MediaDownloadAck, MediaUploadAck, MessageType, RecoveryEnableAck,
    RecoveryRestoreAck, RecoveryState, RecoveryStatus, RoomSummary, TimelineOp, TimelineOpView,
};
use crate::text_map::TextMap;

verus! {

/// Service under which the runtime keeps its secrets.
pub const KEYRING_SERVICE: &'static str = "dev.thesamecat.pikachat";

/// Name of a command, for log messages.
pub open spec fn command_name(command: BackendCommand) -> Seq<char> {
    match command {
        BackendCommand::Init { .. } => "Init"@,
        BackendCommand::LoginPassword { .. } => "LoginPassword"@,
        BackendCommand::RestoreSession => "RestoreSession"@,
        BackendCommand::StartSync => "StartSync"@,
        BackendCommand::StopSync => "StopSync"@,
        BackendCommand::ListRooms => "ListRooms"@,
        BackendCommand::AcceptRoomInvite { .. } => "AcceptRoomInvite"@,
        BackendCommand::RejectRoomInvite { .. } => "RejectRoomInvite"@,
        BackendCommand::OpenRoom { .. } => "OpenRoom"@,
        BackendCommand::PaginateBack { .. } => "PaginateBack"@,
        BackendCommand::SendDmText { .. } => "SendDmText"@,
        BackendCommand::SendMessage { .. } => "SendMessage"@,
        BackendCommand::EditMessage { .. } => "EditMessage"@,
        BackendCommand::RedactMessage { .. } => "RedactMessage"@,
        BackendCommand::UploadMedia { .. } => "UploadMedia"@,
        BackendCommand::DownloadMedia { .. } => "DownloadMedia"@,
        BackendCommand::GetRecoveryStatus => "GetRecoveryStatus"@,
        BackendCommand::EnableRecovery { .. } => "EnableRecovery"@,
        BackendCommand::ResetRecovery { .. } => "ResetRecovery"@,
        BackendCommand::RecoverSecrets { .. } => "RecoverSecrets"@,
        BackendCommand::Logout => "Logout"@,
    }
}

/// Name of a command, for log messages.
pub fn command_kind(command: &BackendCommand) -> (name: &'static str)
    ensures
        name@ == command_name(*command),
{
    match command {
        BackendCommand::Init { .. } => "Init",
        BackendCommand::LoginPassword { .. } => "LoginPassword",
        BackendCommand::RestoreSession => "RestoreSession",
        BackendCommand::StartSync => "StartSync",
        BackendCommand::StopSync => "StopSync",
        BackendCommand::ListRooms => "ListRooms",
        BackendCommand::AcceptRoomInvite { .. } => "AcceptRoomInvite",
        BackendCommand::RejectRoomInvite { .. } => "RejectRoomInvite",
        BackendCommand::OpenRoom { .. } => "OpenRoom",
        BackendCommand::PaginateBack { .. } => "PaginateBack",
        BackendCommand::SendDmText { .. } => "SendDmText",
        BackendCommand::SendMessage { .. } => "SendMessage",
        BackendCommand::EditMessage { .. } => "EditMessage",
        BackendCommand::RedactMessage { .. } => "RedactMessage",
        BackendCommand::UploadMedia { .. } => "UploadMedia",
        BackendCommand::DownloadMedia { .. } => "DownloadMedia",
        BackendCommand::GetRecoveryStatus => "GetRecoveryStatus",
        BackendCommand::EnableRecovery { .. } => "EnableRecovery",
        BackendCommand::ResetRecovery { .. } => "ResetRecovery",
        BackendCommand::RecoverSecrets { .. } => "RecoverSecrets",
        BackendCommand::Logout => "Logout",
    }
}

/// Configuration for opening the SDK client.
#[derive(Debug, Clone, PartialEq, Eq)]
pub struct MatrixBackendConfig {
    /// Homeserver base URL (for example `https://matrix.example.org`).
    pub homeserver: String,
    /// Path of the local data directory for the SDK's store.
    pub data_dir: String,
    /// Optional store passphrase.
    pub store_passphrase: Option<String>,
}

impl MatrixBackendConfig {
    /// Build a new backend config.
    pub fn new(homeserver: &str, data_dir: &str, store_passphrase: Option<String>) -> (config: Self)
        ensures
            config.homeserver@ == homeserver@,
            config.data_dir@ == data_dir@,
            config.store_passphrase == store_passphrase,
    {
        MatrixBackendConfig {
            homeserver: homeserver.to_owned(),
            data_dir: data_dir.to_owned(),
            store_passphrase,
        }
    }
}

/// What the host is to ask of the SDK.
#[derive(Debug, PartialEq, Eq)]
pub enum Request {
    /// Open the client for a homeserver with its local store.
    OpenBackend { homeserver: String, data_dir: String, tuning: RuntimeTuning },
    /// Run a password login.
    Login { user_id_or_localpart: String, password: String, persist_session: bool },
    /// Restore the persisted session.
    RestoreSession,
    /// Start the sync loop.
    StartSync { request_timeout_ms: Option<u64> },
    /// Stop the sync loop.
    StopSync,
    /// List the rooms.
    ListRooms,
    /// Accept or reject an invite.
    AnswerInvite { room_id: String, client_txn_id: String, action: InviteAction },
    /// Load the latest events of a room.
    OpenRoom { room_id: String, limit: u16 },
    /// Load older events of a room.
    PaginateBack { room_id: String, from_token: Option<String>, limit: u16 },
    /// Send a direct message.
    SendDmText { user_id: String, client_txn_id: String, body: String },
    /// Send a room message.
    SendMessage { room_id: String, client_txn_id: String, body: String, msgtype: MessageType },
    /// Edit a message.
    EditMessage {
        room_id: String,
        target_event_id: String,
        new_body: String,
        client_txn_id: String,
    },
    /// Redact a message.
    RedactMessage { room_id: String, target_event_id: String, reason: Option<String> },
    /// Upload media.
    UploadMedia { client_txn_id: String, content_type: String, data: Vec<u8> },
    /// Download media.
    DownloadMedia { client_txn_id: String, source: String },
    /// Read the recovery status.
    GetRecoveryStatus,
    /// Enable recovery.
    EnableRecovery {
        client_txn_id: String,
        passphrase: Option<String>,
        wait_for_backups_to_upload: bool,
    },
    /// Delete the backup and enable recovery anew.
    ResetRecovery {
        client_txn_id: String,
        passphrase: Option<String>,
        wait_for_backups_to_upload: bool,
    },
    /// Recover secrets.
    RecoverSecrets { client_txn_id: String, recovery_key: String },
    /// Log out, after stopping the sync loop where it runs, and wipe this machine.
    Logout { stop_sync: bool },
}

/// The homeserver and the data directory that `Init` named.
#[verifier::ext_equal]
pub struct InitView {
    pub homeserver: Seq<char>,
    pub data_dir: Seq<char>,
}

/// What a [`MatrixRuntime`] remembers.
#[verifier::ext_equal]
pub struct RuntimeView {
    /// Lifecycle state.
    pub state: BackendLifecycleState,
    /// Whether a client is open.
    pub has_backend: bool,
    /// What `Init` named.
    pub init: Option<InitView>,
    /// Tuning values.
    pub tuning: RuntimeTuning,
    /// Where the next page of a room starts.
    pub tokens: Map<Seq<char>, Option<String>>,
}

/// The first part of the answer to a command.
#[derive(Debug)]
pub struct Begin {
    /// Events to emit.
    pub events: Vec<BackendEvent>,
    /// What to ask of the SDK, where the command goes on.
    pub request: Option<Request>,
}

/// The error of a command that needs an open client.
pub open spec fn not_initialized() -> BackendErrorView {
    error::plain_error(
        BackendErrorCategory::Config,
        "backend_not_initialized"@,
        "backend is not initialized; send Init first"@,
    )
}

/// The event that reports an error of the runtime itself.
pub open spec fn fatal_event(failure: BackendErrorView) -> BackendEventView {
    BackendEventView::FatalError {
        code: failure.code,
        message: failure.message,
        recoverable: errors::is_recoverable(failure),
    }
}

/// The event that reports that a command was refused: commands that are acknowledged are
/// acknowledged with the error's code.
pub open spec fn refusal_event(command: BackendCommand, failure: BackendErrorView) -> BackendEventView {
    let error_code = Some(failure.code);
    match command {
        BackendCommand::LoginPassword { .. } | BackendCommand::RestoreSession => {
            BackendEventView::AuthResult { success: false, error_code }
        },
        BackendCommand::AcceptRoomInvite { room_id, client_txn_id } => {
            BackendEventView::InviteActionAck {
                client_txn_id: client_txn_id@,
                room_id: room_id@,
                action: InviteAction::Accept,
                error_code,
            }
        },
        BackendCommand::RejectRoomInvite { room_id, client_txn_id } => {
            BackendEventView::InviteActionAck {
                client_txn_id: client_txn_id@,
                room_id: room_id@,
                action: InviteAction::Reject,
                error_code,
            }
        },
        BackendCommand::SendDmText { client_txn_id, .. }
        | BackendCommand::SendMessage { client_txn_id, .. }
        | BackendCommand::EditMessage { client_txn_id, .. } => BackendEventView::SendAck {
            client_txn_id: client_txn_id@,
            event_id: None,
            error_code,
        },
        BackendCommand::UploadMedia { client_txn_id, .. } => BackendEventView::MediaUploadAck {
            client_txn_id: client_txn_id@,
            content_uri: None,
            error_code,
        },
        BackendCommand::DownloadMedia { client_txn_id, source } => {
            BackendEventView::MediaDownloadAck {
                client_txn_id: client_txn_id@,
                source: source@,
                data: None,
                content_type: None,
                error_code,
            }
        },
        BackendCommand::EnableRecovery { client_txn_id, .. }
        | BackendCommand::ResetRecovery { client_txn_id, .. } => {
            BackendEventView::RecoveryEnableAck {
                client_txn_id: client_txn_id@,
                recovery_key: None,
                error_code,
            }
        },
        BackendCommand::RecoverSecrets { client_txn_id, .. } => {
            BackendEventView::RecoveryRestoreAck { client_txn_id: client_txn_id@, error_code }
        },
        _ => fatal_event(failure),
    }
}

fn fatal(failure: BackendError) -> (event: BackendEvent)
    ensures
        event@ == fatal_event(failure@),
{
    let recoverable = errors::is_recoverable_sync_error(&failure);
    normalization::normalize_fatal_error(failure, recoverable)
}

fn refusal(command: &BackendCommand, failure: BackendError) -> (event: BackendEvent)
    ensures
        event@ == refusal_event(*command, failure@),
{
    match command {
        BackendCommand::LoginPassword { .. } | BackendCommand::RestoreSession => {
            BackendEvent::AuthResult { success: false, error_code: Some(failure.code) }
        },
        BackendCommand::AcceptRoomInvite { room_id, client_txn_id } => {
            BackendEvent::InviteActionAck(
                InviteActionAck {
                    client_txn_id: client_txn_id.clone(),
                    room_id: room_id.clone(),
                    action: InviteAction::Accept,
                    error_code: Some(failure.code),
                },
            )
        },
        BackendCommand::RejectRoomInvite { room_id, client_txn_id } => {
            BackendEvent::InviteActionAck(
                InviteActionAck {
                    client_txn_id: client_txn_id.clone(),
                    room_id: room_id.clone(),
                    action: InviteAction::Reject,
                    error_code: Some(failure.code),
                },
            )
        },
        BackendCommand::SendDmText { client_txn_id, .. }
        | BackendCommand::SendMessage { client_txn_id, .. }
        | BackendCommand::EditMessage { client_txn_id, .. } => {
            normalization::normalize_send_outcome(
                client_txn_id.as_str(),
                SendOutcome::Failure { error: failure },
            )
        },
        BackendCommand::UploadMedia { client_txn_id, .. } => BackendEvent::MediaUploadAck(
            MediaUploadAck {
                client_txn_id: client_txn_id.clone(),
                content_uri: None,
                error_code: Some(failure.code),
            },
        ),
        BackendCommand::DownloadMedia { client_txn_id, source } => {
            BackendEvent::MediaDownloadAck(
                MediaDownloadAck {
                    client_txn_id: client_txn_id.clone(),
                    source: source.clone(),
                    data: None,
                    content_type: None,
                    error_code: Some(failure.code),
                },
            )
        },
        BackendCommand::EnableRecovery { client_txn_id, .. }
        | BackendCommand::ResetRecovery { client_txn_id, .. } => {
            BackendEvent::RecoveryEnableAck(
                RecoveryEnableAck {
                    client_txn_id: client_txn_id.clone(),
                    recovery_key: None,
                    error_code: Some(failure.code),
                },
            )
        },
        BackendCommand::RecoverSecrets { client_txn_id, .. } => BackendEvent::RecoveryRestoreAck(
            RecoveryRestoreAck {
                client_txn_id: client_txn_id.clone(),
                error_code: Some(failure.code),
            },
        ),
        _ => fatal(failure),
    }
}

/// The start of the next page of a room, where it is known.
pub open spec fn page_token(tokens: Map<Seq<char>, Option<String>>, room_id: Seq<char>) -> Option<
    String,
> {
    if tokens.dom().contains(room_id) {
        tokens[room_id]
    } else {
        None
    }
}

/// What is asked of the SDK for a command that was accepted and needs an open client.
pub open spec fn request_for(runtime: RuntimeView, command: BackendCommand) -> Request {
    match command {
        BackendCommand::Init { homeserver, data_dir, .. } => Request::OpenBackend {
            homeserver,
            data_dir,
            tuning: runtime.tuning,
        },
        BackendCommand::LoginPassword { user_id_or_localpart, password, persist_session } => {
            Request::Login { user_id_or_localpart, password, persist_session }
        },
        BackendCommand::RestoreSession => Request::RestoreSession,
        BackendCommand::StartSync => Request::StartSync {
            request_timeout_ms: runtime.tuning.sync_request_timeout_ms,
        },
        BackendCommand::StopSync => Request::StopSync,
        BackendCommand::ListRooms => Request::ListRooms,
        BackendCommand::AcceptRoomInvite { room_id, client_txn_id } => Request::AnswerInvite {
            room_id,
            client_txn_id,
            action: InviteAction::Accept,
        },
        BackendCommand::RejectRoomInvite { room_id, client_txn_id } => Request::AnswerInvite {
            room_id,
            client_txn_id,
            action: InviteAction::Reject,
        },
        BackendCommand::OpenRoom { room_id } => Request::OpenRoom {
            room_id,
            limit: runtime.tuning.open_room_limit,
        },
        BackendCommand::PaginateBack { room_id, limit } => Request::PaginateBack {
            room_id,
            from_token: page_token(runtime.tokens, room_id@),
            limit: timeline::paginate_limit(limit, runtime.tuning.pagination_limit_cap) as u16,
        },
        BackendCommand::SendDmText { user_id, client_txn_id, body } => Request::SendDmText {
            user_id,
            client_txn_id,
            body,
        },
        BackendCommand::SendMessage { room_id, client_txn_id, body, msgtype } => {
            Request::SendMessage { room_id, client_txn_id, body, msgtype }
        },
        BackendCommand::EditMessage { room_id, target_event_id, new_body, client_txn_id } => {
            Request::EditMessage { room_id, target_event_id, new_body, client_txn_id }
        },
        BackendCommand::RedactMessage { room_id, target_event_id, reason } => {
            Request::RedactMessage { room_id, target_event_id, reason }
        },
        BackendCommand::UploadMedia { client_txn_id, content_type, data } => {
            Request::UploadMedia { client_txn_id, content_type, data }
        },
        BackendCommand::DownloadMedia { client_txn_id, source } => Request::DownloadMedia {
            client_txn_id,
            source,
        },
        BackendCommand::GetRecoveryStatus => Request::GetRecoveryStatus,
        BackendCommand::EnableRecovery {
            client_txn_id,
            passphrase,
            wait_for_backups_to_upload,
        } => Request::EnableRecovery { client_txn_id, passphrase, wait_for_backups_to_upload },
        BackendCommand::ResetRecovery {
            client_txn_id,
            passphrase,
            wait_for_backups_to_upload,
        } => Request::ResetRecovery { client_txn_id, passphrase, wait_for_backups_to_upload },
        BackendCommand::RecoverSecrets { client_txn_id, recovery_key } => {
            Request::RecoverSecrets { client_txn_id, recovery_key }
        },
        BackendCommand::Logout => Request::Logout { stop_sync: runtime.state is Syncing },
    }
}

/// The first part of the answer to a command, and the lifecycle state behind it.
#[verifier::ext_equal]
pub struct BeginView {
    pub state: BackendLifecycleState,
    pub events: Seq<BackendEventView>,
    pub request: Option<Request>,
}

/// The events that end an authentication.
pub open spec fn auth_events(
    state: BackendLifecycleState,
    success: bool,
    error_code: Option<Seq<char>>,
) -> Seq<BackendEventView> {
    let result = BackendEventView::AuthResult { success, error_code };
    if state is Authenticating {
        seq![BackendEventView::StateChanged { state: state_after_auth(state, success) }, result]
    } else {
        seq![result]
    }
}

/// The lifecycle state behind the end of an authentication.
pub open spec fn state_after_auth(state: BackendLifecycleState, success: bool) -> BackendLifecycleState {
    if state is Authenticating {
        if success {
            BackendLifecycleState::Authenticated
        } else {
            BackendLifecycleState::Configured
        }
    } else {
        state
    }
}

/// The first part of the answer to a command. A command that the lifecycle state or a
/// missing client forbids is refused with one event; a login moves to `Authenticating`
/// at once, other commands keep the state until they are complete.
pub open spec fn begin_view(runtime: RuntimeView, command: BackendCommand) -> BeginView {
    let state = runtime.state;
    match state_machine::transition(state, command) {
        state_machine::Transition::Refused { action } => BeginView {
            state,
            events: seq![refusal_event(command, error::invalid_state_error(state, action))],
            request: None,
        },
        _ => match command {
            BackendCommand::Init { config, .. } => match tuning::tuning_of(config) {
                Ok(tuning) => BeginView {
                    state,
                    events: Seq::empty(),
                    request: Some(request_for(RuntimeView { tuning, ..runtime }, command)),
                },
                Err(failure) => BeginView {
                    state,
                    events: seq![fatal_event(failure)],
                    request: None,
                },
            },
            BackendCommand::LoginPassword { .. } | BackendCommand::RestoreSession => {
                let authenticating = BackendLifecycleState::Authenticating;
                let moved = seq![BackendEventView::StateChanged { state: authenticating }];
                if runtime.has_backend {
                    BeginView {
                        state: authenticating,
                        events: moved,
                        request: Some(request_for(runtime, command)),
                    }
                } else {
                    BeginView {
                        state: state_after_auth(authenticating, false),
                        events: moved + auth_events(
                            authenticating,
                            false,
                            Some(not_initialized().code),
                        ),
                        request: None,
                    }
                }
            },
            _ => if runtime.has_backend {
                BeginView {
                    state,
                    events: Seq::empty(),
                    request: Some(request_for(runtime, command)),
                }
            } else {
                BeginView {
                    state,
                    events: seq![refusal_event(command, not_initialized())],
                    request: None,
                }
            },
        },
    }
}

fn one(event: BackendEvent) -> (events: Vec<BackendEvent>)
    ensures
        types::event_views(events@) == seq![event@],
{
    let mut events: Vec<BackendEvent> = Vec::new();
    events.push(event);
    proof {
        assert(types::event_views(events@) =~= seq![event@]);
    }
    events
}

fn none() -> (events: Vec<BackendEvent>)
    ensures
        types::event_views(events@) == Seq::<BackendEventView>::empty(),
{
    let events: Vec<BackendEvent> = Vec::new();
    proof {
        assert(types::event_views(events@) =~= Seq::<BackendEventView>::empty());
    }
    events
}

fn two(first: BackendEvent, second: BackendEvent) -> (events: Vec<BackendEvent>)
    ensures
        types::event_views(events@) == seq![first@, second@],
{
    let mut events: Vec<BackendEvent> = Vec::new();
    events.push(first);
    events.push(second);
    proof {
        assert(types::event_views(events@) =~= seq![first@, second@]);
    }
    events
}

#[derive(Debug)]
struct InitState {
    homeserver: String,
    data_dir: String,
}

/// The command runtime.
pub struct MatrixRuntime {
    machine: BackendStateMachine,
    has_backend: bool,
    init: Option<InitState>,
    tuning: RuntimeTuning,
    tokens: TextMap<Option<String>>,
}

impl View for MatrixRuntime {
    type V = RuntimeView;

    closed spec fn view(&self) -> RuntimeView {
        RuntimeView {
            state: self.machine.current(),
            has_backend: self.has_backend,
            init: match self.init {
                Some(init) => Some(
                    InitView { homeserver: init.homeserver@, data_dir: init.data_dir@ },
                ),
                None => None,
            },
            tuning: self.tuning,
            tokens: self.tokens@,
        }
    }
}

/// A runtime that has seen no command.
pub open spec fn fresh_runtime() -> RuntimeView {
    RuntimeView {
        state: BackendLifecycleState::Cold,
        has_backend: false,
        init: None,
        tuning: tuning::default_tuning(),
        tokens: Map::empty(),
    }
}

impl MatrixRuntime {
    #[verifier::type_invariant]
    spec fn is_well_formed(self) -> bool {
        &&& self.has_backend ==> self.init is Some
        &&& self.tuning.is_usable()
    }

    /// A runtime that has seen no command.
    pub fn new() -> (runtime: Self)
        ensures
            runtime@ == fresh_runtime(),
    {
        let runtime = MatrixRuntime {
            machine: BackendStateMachine::default(),
            has_backend: false,
            init: None,
            tuning: RuntimeTuning::default(),
            tokens: TextMap::new(),
        };
        proof {
            assert(runtime@ =~= fresh_runtime());
        }
        runtime
    }

    /// Lifecycle state.
    pub fn state(&self) -> (state: BackendLifecycleState)
        ensures
            state == self@.state,
    {
        self.machine.state()
    }

    /// Homeserver that `Init` named.
    pub fn homeserver(&self) -> (homeserver: Option<&String>)
        ensures
            match homeserver {
                Some(homeserver) => self@.init matches Some(init) && init.homeserver
                    == homeserver@,
                None => self@.init is None,
            },
    {
        match &self.init {
            Some(init) => Some(&init.homeserver),
            None => None,
        }
    }

    /// Data directory that `Init` named.
    pub fn data_dir(&self) -> (data_dir: Option<&String>)
        ensures
            match data_dir {
                Some(data_dir) => self@.init matches Some(init) && init.data_dir == data_dir@,
                None => self@.init is None,
            },
    {
        match &self.init {
            Some(init) => Some(&init.data_dir),
            None => None,
        }
    }

    /// The error of a request that needs an open client.
    pub fn require_backend(&self) -> (result: Result<(), BackendError>)
        ensures
            match result {
                Ok(_) => self@.has_backend && self@.init is Some,
                Err(failure) => !self@.has_backend && failure@ == not_initialized(),
            },
    {
        proof {
            use_type_invariant(self);
        }
        if self.has_backend {
            Ok(())
        } else {
            Err(
                BackendError::new(
                    BackendErrorCategory::Config,
                    "backend_not_initialized",
                    "backend is not initialized; send Init first",
                ),
            )
        }
    }

    /// Takes a command: the events to emit at once, and what to ask of the SDK.
    #[verifier::rlimit(60)]
    pub fn begin(&mut self, command: BackendCommand) -> (begin: Begin)
        ensures
            ({
                let expected = begin_view(old(self)@, command);
                &&& types::event_views(begin.events@) == expected.events
                &&& begin.request == expected.request
                &&& final(self)@ == (RuntimeView { state: expected.state, ..old(self)@ })
            }),
    {
        let ghost before = self@;
        let mut candidate = self.machine;
        let moved = match candidate.apply(&command) {
            Ok(events) => events,
            Err(failure) => {
                return Begin { events: one(refusal(&command, failure)), request: None };
            },
        };
        match command {
            BackendCommand::Init { homeserver, data_dir, config } => {
                match tuning::runtime_tuning_from_init_config(config) {
                    Ok(tuning) => Begin {
                        events: none(),
                        request: Some(Request::OpenBackend { homeserver, data_dir, tuning }),
                    },
                    Err(failure) => Begin { events: one(fatal(failure)), request: None },
                }
            },
            BackendCommand::LoginPassword { user_id_or_localpart, password, persist_session } => {
                self.begin_auth(
                    candidate,
                    moved,
                    Request::Login { user_id_or_localpart, password, persist_session },
                )
            },
            BackendCommand::RestoreSession => {
                self.begin_auth(candidate, moved, Request::RestoreSession)
            },
            other => {
                match self.require_backend() {
                    Ok(_) => {},
                    Err(failure) => {
                        return Begin { events: one(refusal(&other, failure)), request: None };
                    },
                }
                Begin { events: none(), request: Some(self.room_request(other)) }
            },
        }
    }

    fn begin_auth(
        &mut self,
        candidate: BackendStateMachine,
        moved: Vec<BackendEvent>,
        request: Request,
    ) -> (begin: Begin)
        requires
            candidate.current() is Authenticating,
            types::event_views(moved@) == seq![
                BackendEventView::StateChanged { state: BackendLifecycleState::Authenticating },
            ],
        ensures
            ({
                let authenticating = BackendLifecycleState::Authenticating;
                let first = seq![BackendEventView::StateChanged { state: authenticating }];
                if old(self)@.has_backend {
                    &&& types::event_views(begin.events@) == first
                    &&& begin.request == Some(request)
                    &&& final(self)@ == (RuntimeView { state: authenticating, ..old(self)@ })
                } else {
                    &&& types::event_views(begin.events@) == first + auth_events(
                        authenticating,
                        false,
                        Some(not_initialized().code),
                    )
                    &&& begin.request is None
                    &&& final(self)@ == (RuntimeView {
                        state: state_after_auth(authenticating, false),
                        ..old(self)@
                    })
                }
            }),
    {
        proof {
            use_type_invariant(&*self);
        }
        self.machine = candidate;
        match self.require_backend() {
            Ok(_) => Begin { events: moved, request: Some(request) },
            Err(failure) => {
                let mut events = moved;
                let mut ended = self.finish_auth(Err(failure));
                let ghost first = events@;
                let ghost second = ended@;
                events.append(&mut ended);
                proof {
                    assert(types::event_views(events@) =~= types::event_views(first)
                        + types::event_views(second));
                }
                Begin { events, request: None }
            },
        }
    }

    fn room_request(&self, command: BackendCommand) -> (request: Request)
        requires
            !(command is Init || command is LoginPassword || command is RestoreSession),
        ensures
            request == request_for(self@, command),
    {
        match command {
            BackendCommand::StartSync => Request::StartSync {
                request_timeout_ms: self.tuning.sync_request_timeout_ms,
            },
            BackendCommand::StopSync => Request::StopSync,
            BackendCommand::ListRooms => Request::ListRooms,
            BackendCommand::AcceptRoomInvite { room_id, client_txn_id } => Request::AnswerInvite {
                room_id,
                client_txn_id,
                action: InviteAction::Accept,
            },
            BackendCommand::RejectRoomInvite { room_id, client_txn_id } => Request::AnswerInvite {
                room_id,
                client_txn_id,
                action: InviteAction::Reject,
            },
            BackendCommand::OpenRoom { room_id } => Request::OpenRoom {
                room_id,
                limit: self.tuning.open_room_limit,
            },
            BackendCommand::PaginateBack { room_id, limit } => {
                let from_token = match self.tokens.get(room_id.as_str()) {
                    Some(token) => types::clone_opt_string(token),
                    None => None,
                };
                let limit: u16 = TimelineBuffer::bounded_paginate_limit(
                    limit,
                    self.tuning.pagination_limit_cap,
                );
                Request::PaginateBack { room_id, from_token, limit }
            },
            BackendCommand::SendDmText { user_id, client_txn_id, body } => Request::SendDmText {
                user_id,
                client_txn_id,
                body,
            },
            BackendCommand::SendMessage { room_id, client_txn_id, body, msgtype } => {
                Request::SendMessage { room_id, client_txn_id, body, msgtype }
            },
            BackendCommand::EditMessage { room_id, target_event_id, new_body, client_txn_id } => {
                Request::EditMessage { room_id, target_event_id, new_body, client_txn_id }
            },
            BackendCommand::RedactMessage { room_id, target_event_id, reason } => {
                Request::RedactMessage { room_id, target_event_id, reason }
            },
            BackendCommand::UploadMedia { client_txn_id, content_type, data } => {
                Request::UploadMedia { client_txn_id, content_type, data }
            },
            BackendCommand::DownloadMedia { client_txn_id, source } => Request::DownloadMedia {
                client_txn_id,
                source,
            },
            BackendCommand::GetRecoveryStatus => Request::GetRecoveryStatus,
            BackendCommand::EnableRecovery {
                client_txn_id,
                passphrase,
                wait_for_backups_to_upload,
            } => Request::EnableRecovery {
                client_txn_id,
                passphrase,
                wait_for_backups_to_upload,
            },
            BackendCommand::ResetRecovery {
                client_txn_id,
                passphrase,
                wait_for_backups_to_upload,
            } => Request::ResetRecovery { client_txn_id, passphrase, wait_for_backups_to_upload },
            BackendCommand::RecoverSecrets { client_txn_id, recovery_key } => {
                Request::RecoverSecrets { client_txn_id, recovery_key }
            },
            BackendCommand::Logout => {
                let stop_sync = self.machine.state() == BackendLifecycleState::Syncing;
                Request::Logout { stop_sync }
            },
            BackendCommand::Init { .. }
            | BackendCommand::LoginPassword { .. }
            | BackendCommand::RestoreSession => Request::RestoreSession,
        }
    }

    /// Ends a login or a session restore: the events to emit.
    pub fn finish_auth(&mut self, outcome: Result<(), BackendError>) -> (events: Vec<BackendEvent>)
        ensures
            ({
                let state = old(self)@.state;
                let error_code = match outcome {
                    Ok(_) => None,
                    Err(failure) => Some(failure.code@),
                };
                &&& types::event_views(events@) == auth_events(state, outcome is Ok, error_code)
                &&& final(self)@ == (RuntimeView {
                    state: state_after_auth(state, outcome is Ok),
                    ..old(self)@
                })
            }),
    {
        proof {
            use_type_invariant(&*self);
        }
        let (success, error_code) = match outcome {
            Ok(_) => (true, None),
            Err(failure) => (false, Some(failure.code)),
        };
        let result = BackendEvent::AuthResult { success, error_code };
        let mut machine = self.machine;
        let moved = machine.on_auth_result(success);
        self.machine = machine;
        match moved {
            Ok(event) => two(event, result),
            Err(_) => one(result),
        }
    }

    /// Completes `Init`: the client is open, or opening it failed.
    pub fn complete_init(
        &mut self,
        homeserver: String,
        data_dir: String,
        tuning: RuntimeTuning,
        opened: Result<(), BackendError>,
    ) -> (events: Vec<BackendEvent>)
        requires
            tuning.is_usable(),
        ensures
            match opened {
                Ok(_) => if old(self)@.state is Cold || old(self)@.state is Configured || old(
                    self,
                )@.state is LoggedOut {
                    &&& final(self)@ == (RuntimeView {
                        state: BackendLifecycleState::Configured,
                        has_backend: true,
                        init: Some(InitView { homeserver: homeserver@, data_dir: data_dir@ }),
                        tuning,
                        tokens: Map::empty(),
                    })
                    &&& types::event_views(events@) == seq![
                        BackendEventView::StateChanged {
                            state: BackendLifecycleState::Configured,
                        },
                    ]
                } else {
                    &&& final(self)@ == old(self)@
                    &&& types::event_views(events@) == seq![
                        fatal_event(error::invalid_state_error(old(self)@.state, "init"@)),
                    ]
                },
                Err(failure) => {
                    &&& final(self)@ == old(self)@
                    &&& types::event_views(events@) == seq![fatal_event(failure@)]
                },
            },
    {
        match opened {
            Ok(_) => {},
            Err(failure) => return one(fatal(failure)),
        }
        let mut machine = self.machine;
        let command = BackendCommand::Init {
            homeserver: String::new(),
            data_dir: String::new(),
            config: None,
        };
        match machine.apply(&command) {
            Ok(events) => {
                *self = MatrixRuntime {
                    machine,
                    has_backend: true,
                    init: Some(InitState { homeserver, data_dir }),
                    tuning,
                    tokens: TextMap::new(),
                };
                events
            },
            Err(failure) => one(fatal(failure)),
        }
    }

    /// The client was closed, to reset its store during a login.
    pub fn backend_closed(&mut self)
        ensures
            final(self)@ == (RuntimeView { has_backend: false, ..old(self)@ }),
    {
        proof {
            use_type_invariant(&*self);
        }
        self.has_backend = false;
    }

    /// The client was opened again after its store was reset during a login.
    pub fn backend_reopened(&mut self)
        requires
            old(self)@.init is Some,
        ensures
            final(self)@ == (RuntimeView { has_backend: true, ..old(self)@ }),
    {
        proof {
            use_type_invariant(&*self);
        }
        self.has_backend = true;
    }

    fn commit(&mut self, command: &BackendCommand, done: Result<(), BackendError>) -> (events: Vec<
        BackendEvent,
    >)
        ensures
            match done {
                Ok(_) => {
                    &&& final(self)@ == (RuntimeView {
                        state: state_machine::state_after(old(self)@.state, *command),
                        ..old(self)@
                    })
                    &&& types::event_views(events@) == commit_events(old(self)@.state, *command)
                },
                Err(failure) => {
                    &&& final(self)@ == old(self)@
                    &&& types::event_views(events@) == seq![fatal_event(failure@)]
                },
            },
    {
        proof {
            use_type_invariant(&*self);
        }
        match done {
            Ok(_) => {},
            Err(failure) => return one(fatal(failure)),
        }
        let mut machine = self.machine;
        let moved = machine.apply(command);
        self.machine = machine;
        match moved {
            Ok(events) => {
                proof {
                    assert(types::event_views(events@) =~= commit_events(
                        old(self)@.state,
                        *command,
                    ));
                }
                events
            },
            Err(failure) => one(fatal(failure)),
        }
    }

    /// Completes `StartSync`.
    pub fn complete_start_sync(&mut self, started: Result<(), BackendError>) -> (events: Vec<
        BackendEvent,
    >)
        ensures
            match started {
                Ok(_) => {
                    &&& final(self)@ == (RuntimeView {
                        state: state_machine::state_after(
                            old(self)@.state,
                            BackendCommand::StartSync,
                        ),
                        ..old(self)@
                    })
                    &&& types::event_views(events@) == commit_events(
                        old(self)@.state,
                        BackendCommand::StartSync,
                    )
                },
                Err(failure) => {
                    &&& final(self)@ == old(self)@
                    &&& types::event_views(events@) == seq![fatal_event(failure@)]
                },
            },
    {
        self.commit(&BackendCommand::StartSync, started)
    }

    /// Completes `StopSync`.
    pub fn complete_stop_sync(&mut self, stopped: Result<(), BackendError>) -> (events: Vec<
        BackendEvent,
    >)
        ensures
            match stopped {
                Ok(_) => {
                    &&& final(self)@ == (RuntimeView {
                        state: state_machine::state_after(
                            old(self)@.state,
                            BackendCommand::StopSync,
                        ),
                        ..old(self)@
                    })
                    &&& types::event_views(events@) == commit_events(
                        old(self)@.state,
                        BackendCommand::StopSync,
                    )
                },
                Err(failure) => {
                    &&& final(self)@ == old(self)@
                    &&& types::event_views(events@) == seq![fatal_event(failure@)]
                },
            },
    {
        self.commit(&BackendCommand::StopSync, stopped)
    }

    /// Completes `Logout`: the client is closed and the user signed out whatever the homeserver
    /// answered, unless this machine could not be wiped.
    pub fn complete_logout(
        &mut self,
        _answer: Result<(), BackendError>,
        wiped: Result<(), BackendError>,
    ) -> (events: Vec<BackendEvent>)
        ensures
            match wiped {
                Ok(_) => {
                    &&& final(self)@ == (RuntimeView {
                        state: state_machine::state_after(
                            old(self)@.state,
                            BackendCommand::Logout,
                        ),
                        ..fresh_runtime()
                    })
                    &&& types::event_views(events@) == commit_events(
                        old(self)@.state,
                        BackendCommand::Logout,
                    )
                },
                Err(failure) => {
                    &&& final(self)@ == (RuntimeView { has_backend: false, ..old(self)@ })
                    &&& types::event_views(events@) == seq![fatal_event(failure@)]
                },
            },
    {
        proof {
            use_type_invariant(&*self);
        }
        self.has_backend = false;
        match wiped {
            Ok(_) => {},
            Err(failure) => return one(fatal(failure)),
        }
        let machine = self.machine;
        *self = MatrixRuntime {
            machine,
            has_backend: false,
            init: None,
            tuning: RuntimeTuning::default(),
            tokens: TextMap::new(),
        };
        proof {
            assert(self@.tokens =~= Map::<Seq<char>, Option<String>>::empty());
        }
        self.commit(&BackendCommand::Logout, Ok(()))
    }

    /// Completes `OpenRoom` and `PaginateBack`: remembers where the next page starts and
    /// emits the operations.
    pub fn complete_timeline(
        &mut self,
        room_id: String,
        loaded: Result<(Vec<TimelineOp>, Option<String>), BackendError>,
    ) -> (events: Vec<BackendEvent>)
        ensures
            match loaded {
                Ok((ops, next_token)) => {
                    &&& final(self)@ == (RuntimeView {
                        tokens: old(self)@.tokens.insert(room_id@, next_token),
                        ..old(self)@
                    })
                    &&& types::event_views(events@) == seq![
                        BackendEventView::RoomTimelineDelta {
                            room_id: room_id@,
                            ops: types::op_views(ops@),
                        },
                    ]
                },
                Err(failure) => {
                    &&& final(self)@ == old(self)@
                    &&& types::event_views(events@) == seq![fatal_event(failure@)]
                },
            },
    {
        proof {
            use_type_invariant(&*self);
        }
        match loaded {
            Ok((ops, next_token)) => {
                let mut tokens: TextMap<Option<String>> = TextMap::new();
                std::mem::swap(&mut tokens, &mut self.tokens);
                tokens.insert(room_id.clone(), next_token);
                self.tokens = tokens;
                one(BackendEvent::RoomTimelineDelta { room_id, ops })
            },
            Err(failure) => one(fatal(failure)),
        }
    }
}

/// The events that announce that a command moved the lifecycle state.
pub open spec fn commit_events(state: BackendLifecycleState, command: BackendCommand) -> Seq<
    BackendEventView,
> {
    match state_machine::transition(state, command) {
        state_machine::Transition::Moves { next } => seq![
            BackendEventView::StateChanged { state: next },
        ],
        state_machine::Transition::Stays => Seq::empty(),
        state_machine::Transition::Refused { action } => seq![
            fatal_event(error::invalid_state_error(state, action)),
        ],
    }
}

/// Completes `ListRooms`.
pub fn complete_list_rooms(rooms: Vec<RoomSummary>) -> (events: Vec<BackendEvent>)
    ensures
        types::event_views(events@) == seq![
            BackendEventView::RoomListUpdated { rooms: types::room_views(rooms@) },
        ],
{
    one(BackendEvent::RoomListUpdated { rooms })
}

/// Completes an accepted or rejected invite: an acknowledgement, and the new room list
/// after success.
pub fn complete_invite(
    room_id: String,
    client_txn_id: String,
    action: InviteAction,
    answered: Result<Vec<RoomSummary>, BackendError>,
) -> (events: Vec<BackendEvent>)
    ensures
        types::event_views(events@) == match answered {
            Ok(rooms) => seq![
                BackendEventView::InviteActionAck {
                    client_txn_id: client_txn_id@,
                    room_id: room_id@,
                    action,
                    error_code: None,
                },
                BackendEventView::RoomListUpdated { rooms: types::room_views(rooms@) },
            ],
            Err(failure) => seq![
                BackendEventView::InviteActionAck {
                    client_txn_id: client_txn_id@,
                    room_id: room_id@,
                    action,
                    error_code: Some(failure.code@),
                },
            ],
        },
{
    match answered {
        Ok(rooms) => two(
            BackendEvent::InviteActionAck(
                InviteActionAck { client_txn_id, room_id, action, error_code: None },
            ),
            BackendEvent::RoomListUpdated { rooms },
        ),
        Err(failure) => one(
            BackendEvent::InviteActionAck(
                InviteActionAck {
                    client_txn_id,
                    room_id,
                    action,
                    error_code: Some(failure.code),
                },
            ),
        ),
    }
}

/// The acknowledgement of a sent message.
pub open spec fn send_ack(client_txn_id: Seq<char>, sent: Result<String, BackendError>) -> BackendEventView {
    BackendEventView::SendAck {
        client_txn_id,
        event_id: match sent {
            Ok(event_id) => Some(event_id@),
            Err(_) => None,
        },
        error_code: match sent {
            Ok(_) => None,
            Err(failure) => Some(failure.code@),
        },
    }
}

/// Completes `SendDmText` and `SendMessage`.
pub fn complete_send(client_txn_id: &str, sent: Result<String, BackendError>) -> (events: Vec<
    BackendEvent,
>)
    ensures
        types::event_views(events@) == seq![send_ack(client_txn_id@, sent)],
{
    let outcome = match sent {
        Ok(event_id) => SendOutcome::Success { event_id },
        Err(error) => SendOutcome::Failure { error },
    };
    one(normalization::normalize_send_outcome(client_txn_id, outcome))
}

/// Completes `EditMessage`: an acknowledgement, and the new body after success.
pub fn complete_edit(
    room_id: String,
    target_event_id: String,
    new_body: String,
    client_txn_id: &str,
    sent: Result<String, BackendError>,
) -> (events: Vec<BackendEvent>)
    ensures
        types::event_views(events@) == if sent is Ok {
            seq![
                send_ack(client_txn_id@, sent),
                BackendEventView::RoomTimelineDelta {
                    room_id: room_id@,
                    ops: seq![
                        TimelineOpView::UpdateBody {
                            event_id: target_event_id@,
                            new_body: new_body@,
                        },
                    ],
                },
            ]
        } else {
            seq![send_ack(client_txn_id@, sent)]
        },
{
    match sent {
        Ok(event_id) => {
            let mut ops: Vec<TimelineOp> = Vec::new();
            ops.push(TimelineOp::UpdateBody { event_id: target_event_id, new_body });
            proof {
                assert(types::op_views(ops@) =~= seq![
                    TimelineOpView::UpdateBody {
                        event_id: target_event_id@,
                        new_body: new_body@,
                    },
                ]);
            }
            two(
                normalization::normalize_send_outcome(
                    client_txn_id,
                    SendOutcome::Success { event_id },
                ),
                BackendEvent::RoomTimelineDelta { room_id, ops },
            )
        },
        Err(error) => one(
            normalization::normalize_send_outcome(client_txn_id, SendOutcome::Failure { error }),
        ),
    }
}

/// Completes `RedactMessage`: the event goes from the timeline after success.
pub fn complete_redact(
    room_id: String,
    target_event_id: String,
    redacted: Result<(), BackendError>,
) -> (events: Vec<BackendEvent>)
    ensures
        types::event_views(events@) == match redacted {
            Ok(_) => seq![
                BackendEventView::RoomTimelineDelta {
                    room_id: room_id@,
                    ops: seq![TimelineOpView::Remove { event_id: target_event_id@ }],
                },
            ],
            Err(failure) => seq![fatal_event(failure@)],
        },
{
    match redacted {
        Ok(_) => {
            let mut ops: Vec<TimelineOp> = Vec::new();
            ops.push(TimelineOp::Remove { event_id: target_event_id });
            proof {
                assert(types::op_views(ops@) =~= seq![
                    TimelineOpView::Remove { event_id: target_event_id@ },
                ]);
            }
            one(BackendEvent::RoomTimelineDelta { room_id, ops })
        },
        Err(failure) => one(fatal(failure)),
    }
}

/// Completes `UploadMedia`.
pub fn complete_upload(client_txn_id: String, uploaded: Result<String, BackendError>) -> (events:
    Vec<BackendEvent>)
    ensures
        types::event_views(events@) == seq![
            BackendEventView::MediaUploadAck {
                client_txn_id: client_txn_id@,
                content_uri: match uploaded {
                    Ok(content_uri) => Some(content_uri@),
                    Err(_) => None,
                },
                error_code: match uploaded {
                    Ok(_) => None,
                    Err(failure) => Some(failure.code@),
                },
            },
        ],
{
    let (content_uri, error_code) = match uploaded {
        Ok(content_uri) => (Some(content_uri), None),
        Err(failure) => (None, Some(failure.code)),
    };
    one(BackendEvent::MediaUploadAck(MediaUploadAck { client_txn_id, content_uri, error_code }))
}

/// Completes `DownloadMedia`.
pub fn complete_download(
    client_txn_id: String,
    source: String,
    downloaded: Result<Vec<u8>, BackendError>,
) -> (events: Vec<BackendEvent>)
    ensures
        types::event_views(events@) == seq![
            BackendEventView::MediaDownloadAck {
                client_txn_id: client_txn_id@,
                source: source@,
                data: match downloaded {
                    Ok(data) => Some(data@),
                    Err(_) => None,
                },
                content_type: None,
                error_code: match downloaded {
                    Ok(_) => None,
                    Err(failure) => Some(failure.code@),
                },
            },
        ],
{
    let (data, error_code) = match downloaded {
        Ok(data) => (Some(data), None),
        Err(failure) => (None, Some(failure.code)),
    };
    one(
        BackendEvent::MediaDownloadAck(
            MediaDownloadAck { client_txn_id, source, data, content_type: None, error_code },
        ),
    )
}

/// Completes `GetRecoveryStatus`.
pub fn complete_recovery_status(read: Result<RecoveryStatus, BackendError>) -> (events: Vec<
    BackendEvent,
>)
    ensures
        types::event_views(events@) == match read {
            Ok(status) => seq![BackendEventView::RecoveryStatus(status)],
            Err(failure) => seq![fatal_event(failure@)],
        },
{
    match read {
        Ok(status) => one(BackendEvent::RecoveryStatus(status)),
        Err(failure) => one(fatal(failure)),
    }
}

/// Completes `EnableRecovery` and `ResetRecovery`: an acknowledgement, and after success
/// the new status where it could be read.
pub fn complete_enable_recovery(
    client_txn_id: String,
    enabled: Result<String, BackendError>,
    status: Option<RecoveryStatus>,
) -> (events: Vec<BackendEvent>)
    ensures
        ({
            let ack = BackendEventView::RecoveryEnableAck {
                client_txn_id: client_txn_id@,
                recovery_key: match enabled {
                    Ok(recovery_key) => Some(recovery_key@),
                    Err(_) => None,
                },
                error_code: match enabled {
                    Ok(_) => None,
                    Err(failure) => Some(failure.code@),
                },
            };
            types::event_views(events@) == match (enabled, status) {
                (Ok(_), Some(status)) => seq![ack, BackendEventView::RecoveryStatus(status)],
                _ => seq![ack],
            }
        }),
{
    match enabled {
        Ok(recovery_key) => {
            let ack = BackendEvent::RecoveryEnableAck(
                RecoveryEnableAck {
                    client_txn_id,
                    recovery_key: Some(recovery_key),
                    error_code: None,
                },
            );
            match status {
                Some(status) => two(ack, BackendEvent::RecoveryStatus(status)),
                None => one(ack),
            }
        },
        Err(failure) => one(
            BackendEvent::RecoveryEnableAck(
                RecoveryEnableAck {
                    client_txn_id,
                    recovery_key: None,
                    error_code: Some(failure.code),
                },
            ),
        ),
    }
}

/// Completes `RecoverSecrets`: an acknowledgement, and after success the new status where
/// it could be read.
pub fn complete_recover_secrets(
    client_txn_id: String,
    recovered: Result<(), BackendError>,
    status: Option<RecoveryStatus>,
) -> (events: Vec<BackendEvent>)
    ensures
        ({
            let ack = BackendEventView::RecoveryRestoreAck {
                client_txn_id: client_txn_id@,
                error_code: match recovered {
                    Ok(_) => None,
                    Err(failure) => Some(failure.code@),
                },
            };
            types::event_views(events@) == match (recovered, status) {
                (Ok(_), Some(status)) => seq![ack, BackendEventView::RecoveryStatus(status)],
                _ => seq![ack],
            }
        }),
{
    match recovered {
        Ok(_) => {
            let ack = BackendEvent::RecoveryRestoreAck(
                RecoveryRestoreAck { client_txn_id, error_code: None },
            );
            match status {
                Some(status) => two(ack, BackendEvent::RecoveryStatus(status)),
                None => one(ack),
            }
        },
        Err(failure) => one(
            BackendEvent::RecoveryRestoreAck(
                RecoveryRestoreAck { client_txn_id, error_code: Some(failure.code) },
            ),
        ),
    }
}

/// Whether recovery is set up already: backups are enabled and on the homeserver, and
/// recovery is enabled at least in part.
pub open spec fn is_recovery_set_up(status: RecoveryStatus) -> bool {
    &&& status.backup_enabled
    &&& status.backup_exists_on_server
    &&& status.recovery_state is Enabled || status.recovery_state is Incomplete
}

/// Refuses to enable recovery where it is set up already.
pub fn check_recovery_not_set_up(status: &RecoveryStatus) -> (result: Result<(), BackendError>)
    ensures
        match result {
            Ok(_) => !is_recovery_set_up(*status),
            Err(failure) => is_recovery_set_up(*status) && failure@ == error::plain_error(
                BackendErrorCategory::Config,
                "recovery_already_enabled"@,
                "identity backup is already enabled; use status view to inspect current backup"@,
            ),
        },
{
    let in_use = match status.recovery_state {
        RecoveryState::Enabled | RecoveryState::Incomplete => true,
        _ => false,
    };
    if status.backup_enabled && status.backup_exists_on_server && in_use {
        Err(
            BackendError::new(
                BackendErrorCategory::Config,
                "recovery_already_enabled",
                "identity backup is already enabled; use status view to inspect current backup",
            ),
        )
    } else {
        Ok(())
    }
}

/// The error of a room that the client does not know.
pub fn room_not_found(room_id: &str) -> (failure: BackendError)
    ensures
        failure@ == error::plain_error(
            BackendErrorCategory::Config,
            "room_not_found"@,
            "room not found: "@ + room_id@,
        ),
{
    let mut message: String = "room not found: ".to_owned();
    message.append(room_id);
    BackendError::new(BackendErrorCategory::Config, "room_not_found", message.as_str())
}

/// A refused command is answered with exactly one event, asks nothing of the SDK and
/// leaves the runtime as it was.
pub proof fn lemma_refused_command_has_one_answer(runtime: RuntimeView, command: BackendCommand)
    requires
        state_machine::transition(runtime.state, command) is Refused,
    ensures
        begin_view(runtime, command).events.len() == 1,
        begin_view(runtime, command).request is None,
        begin_view(runtime, command).state == runtime.state,
{
}

/// A command either goes on to the SDK or is answered at once, never neither.
pub proof fn lemma_every_command_is_answered(runtime: RuntimeView, command: BackendCommand)
    ensures
        begin_view(runtime, command).request is Some || begin_view(runtime, command).events.len()
            > 0,
{
}

/// Before `Init` no command but `Init` reaches the SDK.
pub proof fn lemma_nothing_reaches_the_sdk_before_init(command: BackendCommand)
    ensures
        begin_view(fresh_runtime(), command).request is Some ==> command is Init,
{
}

/// The limit of a page that is asked of the SDK is never above the cap and always positive.
pub proof fn lemma_page_limit_is_bounded(runtime: RuntimeView, room_id: String, limit: u16)
    requires
        runtime.tuning.is_usable(),
    ensures
        ({
            let request = request_for(runtime, BackendCommand::PaginateBack { room_id, limit });
            &&& request matches Request::PaginateBack { limit: asked, .. }
            &&& 1 <= asked <= 100
            &&& asked <= runtime.tuning.pagination_limit_cap
        }),
{
}

} // verus!
