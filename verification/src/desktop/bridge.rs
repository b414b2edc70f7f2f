//! Bridge between the user's actions, the backend's events and the desktop state.
//!
//! The host performs what a [`BridgeTurn`] asks for: after an action of the user it publishes
//! the snapshot and then sends the commands to the backend, after an event of the backend it
//! sends the commands first.
use vstd::prelude::*;

use super::pagination;
use super::security_dialog::{self, DialogView, SecurityDialogMode};
use super::state::{self, DesktopSnapshot, DesktopState, DesktopView};
use crate::backend_core::types::{
    self, BackendCommand, BackendEvent, BackendInitConfig, MessageType,
};
use crate::text;

verus! {

/// Account and limits that a desktop session runs with.
#[derive(Debug, PartialEq, Eq)]
pub struct SessionConfig {
    /// Homeserver base URL.
    pub homeserver: String,
    /// Matrix user ID.
    pub user_id: String,
    /// Password for the user account.
    pub password: String,
    /// Whether the session should be persisted for restore.
    pub remember_password: bool,
    /// Path of the local data directory.
    pub data_dir: String,
    /// Optional backend runtime tuning.
    pub init_config: Option<BackendInitConfig>,
    /// Number of items that a timeline retains.
    pub timeline_max_items: usize,
    /// Number of events asked for at a time.
    pub paginate_limit: u16,
    /// Time between two requests for older events.
    pub pagination_cooldown_ms: u64,
}

/// Build startup command sequence for initialization and session restore.
pub fn startup_command_sequence(config: &SessionConfig) -> (commands: Vec<BackendCommand>)
    ensures
        commands@.len() == 2,
        commands@[0] matches BackendCommand::Init { homeserver, data_dir, config: tuning }
            && homeserver@ == config.homeserver@ && data_dir@ == config.data_dir@ && tuning
            == config.init_config,
        commands@[1] is RestoreSession,
{
    let mut commands: Vec<BackendCommand> = Vec::new();
    commands.push(
        BackendCommand::Init {
            homeserver: config.homeserver.clone(),
            data_dir: config.data_dir.clone(),
            config: config.init_config,
        },
    );
    commands.push(BackendCommand::RestoreSession);
    commands
}

/// Whether a command is the password login of a session.
pub open spec fn is_login(command: BackendCommand, login: LoginView) -> bool {
    command matches BackendCommand::LoginPassword { user_id_or_localpart, password, persist_session }
        && user_id_or_localpart@ == login.user_id && password@ == login.password && persist_session
        == login.persist
}

/// Credentials of a session.
#[verifier::ext_equal]
pub struct LoginView {
    pub user_id: Seq<char>,
    pub password: Seq<char>,
    pub persist: bool,
}

/// Build the password login of a session.
pub fn login_password_command(config: &SessionConfig) -> (command: BackendCommand)
    ensures
        is_login(
            command,
            LoginView {
                user_id: config.user_id@,
                password: config.password@,
                persist: config.remember_password,
            },
        ),
{
    BackendCommand::LoginPassword {
        user_id_or_localpart: config.user_id.clone(),
        password: config.password.clone(),
        persist_session: config.remember_password,
    }
}

/// Whether commands are those that follow a successful authentication.
pub open spec fn is_post_auth(commands: Seq<BackendCommand>) -> bool {
    commands.len() == 2 && commands[0] is StartSync && commands[1] is ListRooms
}

/// Build the commands that follow a successful authentication.
pub fn post_auth_command_sequence() -> (commands: Vec<BackendCommand>)
    ensures
        is_post_auth(commands@),
{
    let mut commands: Vec<BackendCommand> = Vec::new();
    commands.push(BackendCommand::StartSync);
    commands.push(BackendCommand::ListRooms);
    commands
}

/// Build the command that opens a room.
pub fn room_open_command(room_id: String) -> (command: BackendCommand)
    ensures
        command == (BackendCommand::OpenRoom { room_id }),
{
    BackendCommand::OpenRoom { room_id }
}

/// Build the command that sends a text message.
pub fn send_message_command(room_id: String, client_txn_id: String, body: String) -> (command:
    BackendCommand)
    ensures
        command == (BackendCommand::SendMessage {
            room_id,
            client_txn_id,
            body,
            msgtype: MessageType::Text,
        }),
{
    BackendCommand::SendMessage { room_id, client_txn_id, body, msgtype: MessageType::Text }
}

/// Build the command that asks for older events, at least one.
pub fn paginate_back_command(room_id: String, limit: u16) -> (command: BackendCommand)
    ensures
        command == (BackendCommand::PaginateBack {
            room_id,
            limit: if limit == 0 { 1 } else { limit },
        }),
{
    BackendCommand::PaginateBack { room_id, limit: if limit == 0 { 1 } else { limit } }
}

/// Name of an event's kind.
pub open spec fn event_name(event: BackendEvent) -> Seq<char> {
    match event {
        BackendEvent::StateChanged { .. } => "StateChanged"@,
        BackendEvent::AuthResult { .. } => "AuthResult"@,
        BackendEvent::SyncStatus(_) => "SyncStatus"@,
        BackendEvent::RoomListUpdated { .. } => "RoomListUpdated"@,
        BackendEvent::RoomTimelineDelta { .. } => "RoomTimelineDelta"@,
        BackendEvent::RoomTimelineSnapshot { .. } => "RoomTimelineSnapshot"@,
        BackendEvent::SendAck(_) => "SendAck"@,
        BackendEvent::InviteActionAck(_) => "InviteActionAck"@,
        BackendEvent::MediaUploadAck(_) => "MediaUploadAck"@,
        BackendEvent::MediaDownloadAck(_) => "MediaDownloadAck"@,
        BackendEvent::RecoveryStatus(_) => "RecoveryStatus"@,
        BackendEvent::RecoveryEnableAck(_) => "RecoveryEnableAck"@,
        BackendEvent::RecoveryRestoreAck(_) => "RecoveryRestoreAck"@,
        BackendEvent::CryptoStatus(_) => "CryptoStatus"@,
        BackendEvent::FatalError { .. } => "FatalError"@,
    }
}

/// Name of an event's kind, for log messages.
pub fn event_kind(event: &BackendEvent) -> (name: &'static str)
    ensures
        name@ == event_name(*event),
{
    match event {
        BackendEvent::StateChanged { .. } => "StateChanged",
        BackendEvent::AuthResult { .. } => "AuthResult",
        BackendEvent::SyncStatus(_) => "SyncStatus",
        BackendEvent::RoomListUpdated { .. } => "RoomListUpdated",
        BackendEvent::RoomTimelineDelta { .. } => "RoomTimelineDelta",
        BackendEvent::RoomTimelineSnapshot { .. } => "RoomTimelineSnapshot",
        BackendEvent::SendAck(_) => "SendAck",
        BackendEvent::InviteActionAck(_) => "InviteActionAck",
        BackendEvent::MediaUploadAck(_) => "MediaUploadAck",
        BackendEvent::MediaDownloadAck(_) => "MediaDownloadAck",
        BackendEvent::RecoveryStatus(_) => "RecoveryStatus",
        BackendEvent::RecoveryEnableAck(_) => "RecoveryEnableAck",
        BackendEvent::RecoveryRestoreAck(_) => "RecoveryRestoreAck",
        BackendEvent::CryptoStatus(_) => "CryptoStatus",
        BackendEvent::FatalError { .. } => "FatalError",
    }
}

/// Step of the startup authentication.
#[derive(Debug, Clone, Copy, PartialEq, Eq, Structural)]
pub enum AuthPhase {
    /// A restore of the session was asked for.
    RestoringSession,
    /// A password login was asked for.
    LoggingIn,
    /// Nothing more is asked for.
    Done,
}

/// Progress of the startup authentication.
#[derive(Debug, Clone, Copy, PartialEq, Eq, Structural)]
pub struct AuthFlow {
    /// Current step.
    pub phase: AuthPhase,
    /// Whether the commands after authentication were asked for.
    pub post_auth_enqueued: bool,
}

/// What follows an authentication result.
#[derive(Debug, Clone, Copy, PartialEq, Eq, Structural)]
pub enum AuthReaction {
    /// No command.
    Nothing,
    /// The password login.
    Login,
    /// Sync and room list.
    PostAuth,
}

/// Authentication at startup.
pub open spec fn first_flow() -> AuthFlow {
    AuthFlow { phase: AuthPhase::RestoringSession, post_auth_enqueued: false }
}

/// What follows an authentication result.
pub open spec fn auth_reaction(flow: AuthFlow, success: bool) -> AuthReaction {
    if success && !flow.post_auth_enqueued {
        AuthReaction::PostAuth
    } else if !success && flow.phase is RestoringSession {
        AuthReaction::Login
    } else {
        AuthReaction::Nothing
    }
}

/// Progress after an authentication result.
pub open spec fn auth_next(flow: AuthFlow, success: bool) -> AuthFlow {
    if success && !flow.post_auth_enqueued {
        AuthFlow { phase: AuthPhase::Done, post_auth_enqueued: true }
    } else if !success {
        AuthFlow {
            phase: match flow.phase {
                AuthPhase::RestoringSession => AuthPhase::LoggingIn,
                AuthPhase::LoggingIn => AuthPhase::Done,
                AuthPhase::Done => AuthPhase::Done,
            },
            ..flow
        }
    } else {
        flow
    }
}

impl AuthFlow {
    /// Authentication at startup.
    pub fn new() -> (flow: Self)
        ensures
            flow == first_flow(),
    {
        AuthFlow { phase: AuthPhase::RestoringSession, post_auth_enqueued: false }
    }

    /// Take an authentication result; says what follows.
    pub fn on_result(&mut self, success: bool) -> (reaction: AuthReaction)
        ensures
            reaction == auth_reaction(*old(self), success),
            *final(self) == auth_next(*old(self), success),
    {
        if success {
            if self.post_auth_enqueued {
                return AuthReaction::Nothing;
            }
            self.post_auth_enqueued = true;
            self.phase = AuthPhase::Done;
            return AuthReaction::PostAuth;
        }
        match self.phase {
            AuthPhase::RestoringSession => {
                self.phase = AuthPhase::LoggingIn;
                AuthReaction::Login
            },
            AuthPhase::LoggingIn => {
                self.phase = AuthPhase::Done;
                AuthReaction::Nothing
            },
            AuthPhase::Done => AuthReaction::Nothing,
        }
    }
}

/// Progress after a series of authentication results.
pub open spec fn auth_after(flow: AuthFlow, results: Seq<bool>) -> AuthFlow
    decreases results.len(),
{
    if results.len() == 0 {
        flow
    } else {
        auth_next(auth_after(flow, results.drop_last()), results.last())
    }
}

/// What follows the result at an index of a series.
pub open spec fn reaction_at(results: Seq<bool>, at: int) -> AuthReaction {
    auth_reaction(auth_after(first_flow(), results.take(at)), results[at])
}

/// However many authentication results come, a password login is asked for at most once,
/// and so are the commands after authentication.
pub proof fn lemma_startup_commands_are_sent_once(results: Seq<bool>, a: int, b: int)
    requires
        0 <= a < b < results.len(),
        reaction_at(results, a) !is Nothing,
    ensures
        reaction_at(results, a) != reaction_at(results, b),
{
    let before = results.take(a);
    let upto = results.take(a + 1);
    assert(upto.drop_last() =~= before);
    assert(upto.last() == results[a]);
    lemma_flow_only_moves_on(results, a + 1, b);
}

/// A password login never follows the commands after authentication.
pub proof fn lemma_no_login_after_success(results: Seq<bool>, a: int, b: int)
    requires
        0 <= a < b < results.len(),
        reaction_at(results, a) is PostAuth,
    ensures
        reaction_at(results, b) is Nothing,
{
    let upto = results.take(a + 1);
    assert(upto.drop_last() =~= results.take(a));
    assert(upto.last() == results[a]);
    lemma_flow_only_moves_on(results, a + 1, b);
    lemma_done_stays_done(results, a + 1, b);
}

proof fn lemma_flow_only_moves_on(results: Seq<bool>, from: int, to: int)
    requires
        0 <= from <= to <= results.len(),
    ensures
        auth_after(first_flow(), results.take(from)).post_auth_enqueued ==> auth_after(
            first_flow(),
            results.take(to),
        ).post_auth_enqueued,
        auth_after(first_flow(), results.take(from)).phase !is RestoringSession ==> auth_after(
            first_flow(),
            results.take(to),
        ).phase !is RestoringSession,
    decreases to - from,
{
    if from < to {
        lemma_flow_only_moves_on(results, from, to - 1);
        assert(results.take(to).drop_last() =~= results.take(to - 1));
    }
}

proof fn lemma_done_stays_done(results: Seq<bool>, from: int, to: int)
    requires
        0 <= from <= to <= results.len(),
        auth_after(first_flow(), results.take(from)).phase is Done,
    ensures
        auth_after(first_flow(), results.take(to)).phase is Done,
    decreases to - from,
{
    if from < to {
        lemma_done_stays_done(results, from, to - 1);
        assert(results.take(to).drop_last() =~= results.take(to - 1));
    }
}

/// Transaction ID of a send.
pub open spec fn send_txn_id(number: nat) -> Seq<char> {
    "desktop-send-"@ + text::decimal(number)
}

/// Two sends with different numbers have different transaction IDs.
pub proof fn lemma_send_txn_ids_differ(a: nat, b: nat)
    requires
        a != b,
    ensures
        send_txn_id(a) != send_txn_id(b),
{
    let prefix = "desktop-send-"@;
    text::lemma_decimals_differ(a, b);
    if send_txn_id(a) == send_txn_id(b) {
        assert(send_txn_id(a).skip(prefix.len() as int) =~= text::decimal(a));
        assert(send_txn_id(b).skip(prefix.len() as int) =~= text::decimal(b));
    }
}

/// What the host is to do after an action or an event.
pub struct BridgeTurn {
    /// Snapshot to publish, where there is one.
    pub snapshot: Option<DesktopSnapshot>,
    /// Commands to send to the backend, in this order.
    pub commands: Vec<BackendCommand>,
}

/// Bridges UI actions and backend events.
pub struct DesktopBridge {
    config: SessionConfig,
    state: DesktopState,
    auth: AuthFlow,
    next_txn_id: u64,
}

/// What a [`DesktopBridge`] holds.
#[verifier::ext_equal]
pub struct BridgeView {
    /// State shown to the user.
    pub state: DesktopView,
    /// Progress of the startup authentication.
    pub auth: AuthFlow,
    /// Number of the next request that has one.
    pub next_txn_id: u64,
    /// Credentials of the session.
    pub login: LoginView,
    /// Number of events asked for at a time.
    pub paginate_limit: u16,
    /// Time between two requests for older events.
    pub cooldown_ms: u64,
}

/// A bridge with another security dialog.
pub open spec fn with_dialog(bridge: BridgeView, dialog: DialogView) -> BridgeView {
    BridgeView { state: DesktopView { dialog, ..bridge.state }, ..bridge }
}

/// The dialog while a backup is being created.
pub open spec fn creating_dialog() -> DialogView {
    security_dialog::text_dialog(
        SecurityDialogMode::Creating,
        "Creating Identity Backup"@,
        "Creating identity backup..."@,
    )
}

/// Whether a turn publishes a state.
pub open spec fn publishes(turn: BridgeTurn, shown: DesktopView) -> bool {
    turn.snapshot matches Some(snapshot) && state::shows(snapshot, shown)
}

/// Whether commands are those of a reaction.
pub open spec fn carries_out(
    commands: Seq<BackendCommand>,
    reaction: AuthReaction,
    login: LoginView,
) -> bool {
    match reaction {
        AuthReaction::Nothing => commands.len() == 0,
        AuthReaction::Login => commands.len() == 1 && is_login(commands[0], login),
        AuthReaction::PostAuth => is_post_auth(commands),
    }
}

impl View for DesktopBridge {
    type V = BridgeView;

    closed spec fn view(&self) -> BridgeView {
        BridgeView {
            state: self.state@,
            auth: self.auth,
            next_txn_id: self.next_txn_id,
            login: LoginView {
                user_id: self.config.user_id@,
                password: self.config.password@,
                persist: self.config.remember_password,
            },
            paginate_limit: if self.config.paginate_limit == 0 {
                1
            } else {
                self.config.paginate_limit
            },
            cooldown_ms: self.config.pagination_cooldown_ms,
        }
    }
}

impl DesktopBridge {
    /// Bridge of a session that starts, with its first turn.
    pub fn start(config: SessionConfig) -> (started: (Self, BridgeTurn))
        ensures
            started.0@ == (BridgeView {
                state: state::fresh_state(config.user_id@, config.timeline_max_items as nat),
                auth: first_flow(),
                next_txn_id: 1,
                login: LoginView {
                    user_id: config.user_id@,
                    password: config.password@,
                    persist: config.remember_password,
                },
                paginate_limit: if config.paginate_limit == 0 { 1 } else { config.paginate_limit },
                cooldown_ms: config.pagination_cooldown_ms,
            }),
            publishes(started.1, started.0@.state),
            started.1.commands@.len() == 2,
            started.1.commands@[0] matches BackendCommand::Init {
                homeserver,
                data_dir,
                config: tuning,
            } && homeserver@ == config.homeserver@ && data_dir@ == config.data_dir@ && tuning
                == config.init_config,
            started.1.commands@[1] is RestoreSession,
    {
        let state = DesktopState::new(config.user_id.as_str(), config.timeline_max_items);
        let turn = BridgeTurn {
            snapshot: Some(state.snapshot()),
            commands: startup_command_sequence(&config),
        };
        (DesktopBridge { config, state, auth: AuthFlow::new(), next_txn_id: 1 }, turn)
    }

    /// Take an event of the backend. Its commands go out before its snapshot is published.
    pub fn on_event(&mut self, event: BackendEvent) -> (turn: BridgeTurn)
        ensures
            publishes(turn, final(self)@.state),
            match event {
                BackendEvent::AuthResult { success, .. } => {
                    &&& carries_out(
                        turn.commands@,
                        auth_reaction(old(self)@.auth, success),
                        old(self)@.login,
                    )
                    &&& final(self)@ == (BridgeView {
                        state: state::reduce(old(self)@.state, event@),
                        auth: auth_next(old(self)@.auth, success),
                        ..old(self)@
                    })
                },
                _ => {
                    &&& turn.commands@.len() == 0
                    &&& final(self)@ == (BridgeView {
                        state: state::reduce(old(self)@.state, event@),
                        ..old(self)@
                    })
                },
            },
    {
        let mut commands: Vec<BackendCommand> = Vec::new();
        match &event {
            BackendEvent::AuthResult { success, .. } => {
                match self.auth.on_result(*success) {
                    AuthReaction::Nothing => {},
                    AuthReaction::Login => commands.push(login_password_command(&self.config)),
                    AuthReaction::PostAuth => commands = post_auth_command_sequence(),
                }
            },
            _ => {},
        }
        self.state.handle_backend_event(event);
        BridgeTurn { snapshot: Some(self.state.snapshot()), commands }
    }

    /// Select a room by sidebar index and load timeline history for it; an index that no room
    /// has selects nothing.
    pub fn select_room_by_index(&mut self, index: i32) -> (turn: BridgeTurn)
        ensures
            if index < 0 {
                &&& turn.snapshot is None
                &&& turn.commands@.len() == 0
                &&& final(self)@ == old(self)@
            } else if index < old(self)@.state.rooms.len() {
                let chosen = old(self)@.state.rooms[index as int].room_id;
                &&& publishes(turn, final(self)@.state)
                &&& turn.commands@.len() == 1
                &&& turn.commands@[0] matches BackendCommand::OpenRoom { room_id }
                &&& room_id@ == chosen
                &&& final(self)@ == (BridgeView {
                    state: state::after_select(old(self)@.state, chosen),
                    ..old(self)@
                })
            } else {
                &&& publishes(turn, final(self)@.state)
                &&& turn.commands@.len() == 0
                &&& final(self)@ == old(self)@
            },
    {
        let mut commands: Vec<BackendCommand> = Vec::new();
        if index < 0 {
            return BridgeTurn { snapshot: None, commands };
        }
        let chosen = self.state.select_room_by_index(index as usize);
        let snapshot = self.state.snapshot();
        match chosen {
            Some(room_id) => commands.push(room_open_command(room_id)),
            None => {},
        }
        BridgeTurn { snapshot: Some(snapshot), commands }
    }

    /// Attempt to send message text to the currently selected room: a command is among the
    /// turn's when the message was queued.
    pub fn send_message(&mut self, body: &str) -> (turn: BridgeTurn)
        ensures
            if text::trimmed(body@).len() == 0 {
                &&& turn.snapshot is None
                &&& turn.commands@.len() == 0
                &&& final(self)@ == old(self)@
            } else {
                match old(self)@.state.selected {
                    None => {
                        &&& publishes(turn, final(self)@.state)
                        &&& turn.commands@.len() == 0
                        &&& final(self)@ == (BridgeView {
                            state: DesktopView {
                                error: Some("Select a room before sending messages."@),
                                ..old(self)@.state
                            },
                            ..old(self)@
                        })
                    },
                    Some(selected) => {
                        let txn_id = send_txn_id(old(self)@.next_txn_id as nat);
                        &&& publishes(turn, final(self)@.state)
                        &&& turn.commands@.len() == 1
                        &&& turn.commands@[0] matches BackendCommand::SendMessage {
                            room_id,
                            client_txn_id,
                            body: sent,
                            msgtype,
                        }
                        &&& room_id@ == selected
                        &&& client_txn_id@ == txn_id
                        &&& sent@ == text::trimmed(body@)
                        &&& msgtype is Text
                        &&& final(self)@ == (BridgeView {
                            state: DesktopView {
                                pending_sends: old(self)@.state.pending_sends.insert(txn_id),
                                error: None,
                                ..old(self)@.state
                            },
                            next_txn_id: old(self)@.next_txn_id.wrapping_add(1),
                            ..old(self)@
                        })
                    },
                }
            },
    {
        let mut commands: Vec<BackendCommand> = Vec::new();
        let body = text::trim(body);
        if body.as_str().is_empty() {
            return BridgeTurn { snapshot: None, commands };
        }
        let room_id = match self.state.selected_room_id() {
            Some(room_id) => room_id.to_owned(),
            None => {
                self.state.set_error_text("Select a room before sending messages.");
                return BridgeTurn { snapshot: Some(self.state.snapshot()), commands };
            },
        };
        let client_txn_id = self.take_txn_id("desktop-send-");
        self.state.mark_send_requested(client_txn_id.clone());
        self.state.clear_error();
        let snapshot = self.state.snapshot();
        commands.push(send_message_command(room_id, client_txn_id, body));
        BridgeTurn { snapshot: Some(snapshot), commands }
    }

    /// Take a scroll of the timeline; `near_top` says whether the view is now near its top.
    pub fn on_timeline_scrolled(&mut self, near_top: bool, now_ms: u64) -> (turn: BridgeTurn)
        ensures
            turn.snapshot is None,
            match old(self)@.state.selected {
                Some(selected) => if pagination::wants_page(
                    old(self)@.state.pagination,
                    selected,
                    near_top,
                    now_ms,
                    old(self)@.cooldown_ms,
                ) {
                    &&& turn.commands@.len() == 1
                    &&& turn.commands@[0] matches BackendCommand::PaginateBack { room_id, limit }
                    &&& room_id@ == selected
                    &&& limit == old(self)@.paginate_limit
                    &&& final(self)@ == (BridgeView {
                        state: DesktopView {
                            pagination: pagination::after_request(
                                old(self)@.state.pagination,
                                selected,
                                now_ms,
                            ),
                            ..old(self)@.state
                        },
                        ..old(self)@
                    })
                } else {
                    turn.commands@.len() == 0 && final(self)@ == old(self)@
                },
                None => turn.commands@.len() == 0 && final(self)@ == old(self)@,
            },
    {
        let mut commands: Vec<BackendCommand> = Vec::new();
        let request = self.state.request_pagination_if_needed(
            near_top,
            now_ms,
            self.config.pagination_cooldown_ms,
            self.config.paginate_limit,
        );
        match request {
            Some((room_id, limit)) => commands.push(paginate_back_command(room_id, limit)),
            None => {},
        }
        BridgeTurn { snapshot: None, commands }
    }

    /// The next transaction ID, of a kind.
    fn take_txn_id(&mut self, kind: &str) -> (txn_id: String)
        ensures
            txn_id@ == kind@ + text::decimal(old(self)@.next_txn_id as nat),
            final(self)@ == (BridgeView {
                next_txn_id: old(self)@.next_txn_id.wrapping_add(1),
                ..old(self)@
            }),
    {
        let mut txn_id: String = kind.to_owned();
        txn_id.append(text::decimal_string(self.next_txn_id).as_str());
        self.next_txn_id = self.next_txn_id.wrapping_add(1);
        txn_id
    }

    /// Ask for the backup status, with a dialog that waits for it.
    pub fn request_recovery_status(&mut self) -> (turn: BridgeTurn)
        ensures
            publishes(turn, final(self)@.state),
            turn.commands@ == seq![BackendCommand::GetRecoveryStatus],
            final(self)@ == with_dialog(
                old(self)@,
                security_dialog::text_dialog(
                    SecurityDialogMode::Status,
                    "Identity Backup Status"@,
                    "Checking backup status..."@,
                ),
            ),
    {
        self.state.show_security_status_dialog("Checking backup status...");
        let mut commands: Vec<BackendCommand> = Vec::new();
        commands.push(BackendCommand::GetRecoveryStatus);
        BridgeTurn { snapshot: Some(self.state.snapshot()), commands }
    }

    /// Back up the identity, with a dialog that waits for the recovery key.
    pub fn backup_identity(&mut self) -> (turn: BridgeTurn)
        ensures
            publishes(turn, final(self)@.state),
            turn.commands@.len() == 1,
            turn.commands@[0] matches BackendCommand::EnableRecovery {
                client_txn_id,
                passphrase,
                wait_for_backups_to_upload,
            } && client_txn_id@ == "desktop-backup-"@ + text::decimal(
                old(self)@.next_txn_id as nat,
            ) && passphrase is None && !wait_for_backups_to_upload,
            final(self)@ == (BridgeView {
                next_txn_id: old(self)@.next_txn_id.wrapping_add(1),
                ..with_dialog(old(self)@, creating_dialog())
            }),
    {
        let client_txn_id = self.take_txn_id("desktop-backup-");
        self.state.show_security_creating_dialog("Creating identity backup...");
        let mut commands: Vec<BackendCommand> = Vec::new();
        commands.push(
            BackendCommand::EnableRecovery {
                client_txn_id,
                passphrase: None,
                wait_for_backups_to_upload: false,
            },
        );
        BridgeTurn { snapshot: Some(self.state.snapshot()), commands }
    }

    /// Replace the identity backup by a new one, with a dialog that waits for the recovery key.
    pub fn reset_identity_backup(&mut self) -> (turn: BridgeTurn)
        ensures
            publishes(turn, final(self)@.state),
            turn.commands@.len() == 1,
            turn.commands@[0] matches BackendCommand::ResetRecovery {
                client_txn_id,
                passphrase,
                wait_for_backups_to_upload,
            } && client_txn_id@ == "desktop-reset-"@ + text::decimal(
                old(self)@.next_txn_id as nat,
            ) && passphrase is None && !wait_for_backups_to_upload,
            final(self)@ == (BridgeView {
                next_txn_id: old(self)@.next_txn_id.wrapping_add(1),
                ..with_dialog(old(self)@, creating_dialog())
            }),
    {
        let client_txn_id = self.take_txn_id("desktop-reset-");
        self.state.show_security_creating_dialog("Creating identity backup...");
        let mut commands: Vec<BackendCommand> = Vec::new();
        commands.push(
            BackendCommand::ResetRecovery {
                client_txn_id,
                passphrase: None,
                wait_for_backups_to_upload: false,
            },
        );
        BridgeTurn { snapshot: Some(self.state.snapshot()), commands }
    }

    /// Ask the user for a recovery key.
    pub fn prompt_restore_identity(&mut self) -> (turn: BridgeTurn)
        ensures
            publishes(turn, final(self)@.state),
            turn.commands@.len() == 0,
            final(self)@ == with_dialog(
                old(self)@,
                security_dialog::restore_dialog(
                    "Identity Restore"@,
                    "Enter your recovery key or passphrase."@,
                ),
            ),
    {
        self.state.show_security_restore_prompt_dialog(
            "Identity Restore",
            "Enter your recovery key or passphrase.",
        );
        BridgeTurn { snapshot: Some(self.state.snapshot()), commands: Vec::new() }
    }

    /// Restore the identity with a recovery key or passphrase, unless a restore is running: a
    /// command is among the turn's when the restore was queued.
    pub fn restore_identity(&mut self, recovery_key: String) -> (turn: BridgeTurn)
        ensures
            if old(self)@.state.dialog.restore_in_flight {
                &&& turn.snapshot is None
                &&& turn.commands@.len() == 0
                &&& final(self)@ == old(self)@
            } else {
                &&& publishes(turn, final(self)@.state)
                &&& turn.commands@.len() == 1
                &&& turn.commands@[0] matches BackendCommand::RecoverSecrets {
                    client_txn_id,
                    recovery_key: sent,
                }
                &&& client_txn_id@ == "desktop-restore-"@ + text::decimal(
                    old(self)@.next_txn_id as nat,
                )
                &&& sent@ == recovery_key@
                &&& final(self)@ == (BridgeView {
                    next_txn_id: old(self)@.next_txn_id.wrapping_add(1),
                    ..with_dialog(
                        old(self)@,
                        security_dialog::restoring(old(self)@.state.dialog),
                    )
                })
            },
    {
        let mut commands: Vec<BackendCommand> = Vec::new();
        if !self.state.begin_restore_request() {
            return BridgeTurn { snapshot: None, commands };
        }
        let client_txn_id = self.take_txn_id("desktop-restore-");
        commands.push(BackendCommand::RecoverSecrets { client_txn_id, recovery_key });
        BridgeTurn { snapshot: Some(self.state.snapshot()), commands }
    }

    /// Hide the security dialog.
    pub fn dismiss_security_dialog(&mut self) -> (turn: BridgeTurn)
        ensures
            publishes(turn, final(self)@.state),
            turn.commands@.len() == 0,
            final(self)@ == with_dialog(
                old(self)@,
                security_dialog::dismissed(old(self)@.state.dialog),
            ),
    {
        self.state.dismiss_security_dialog();
        BridgeTurn { snapshot: Some(self.state.snapshot()), commands: Vec::new() }
    }

    /// The recovery key that the dialog shows, for the clipboard, and the turn that marks it as
    /// copied; nothing where it shows none.
    pub fn copy_recovery_key(&mut self) -> (copied: Option<(String, BridgeTurn)>)
        ensures
            match copied {
                Some((recovery_key, turn)) => {
                    &&& old(self)@.state.dialog.recovery_key == Some(recovery_key@)
                    &&& publishes(turn, final(self)@.state)
                    &&& turn.commands@.len() == 0
                    &&& final(self)@ == with_dialog(
                        old(self)@,
                        security_dialog::copied(old(self)@.state.dialog),
                    )
                },
                None => old(self)@.state.dialog.recovery_key is None && final(self)@ == old(self)@,
            },
    {
        match self.state.recovery_key_for_copy() {
            Some(recovery_key) => {
                self.state.mark_recovery_key_copied();
                let turn = BridgeTurn {
                    snapshot: Some(self.state.snapshot()),
                    commands: Vec::new(),
                };
                Some((recovery_key, turn))
            },
            None => None,
        }
    }

    /// Note that a command could not be sent to the backend.
    pub fn on_command_channel_closed(&mut self) -> (turn: BridgeTurn)
        ensures
            publishes(turn, final(self)@.state),
            turn.commands@.len() == 0,
            final(self)@ == (BridgeView {
                state: DesktopView {
                    error: Some("Backend command channel closed."@),
                    ..old(self)@.state
                },
                ..old(self)@
            }),
    {
        self.state.set_error_text("Backend command channel closed.");
        BridgeTurn { snapshot: Some(self.state.snapshot()), commands: Vec::new() }
    }
}

/// Text of a room's badge: nothing for zero.
pub open spec fn badge(count: nat) -> Seq<char> {
    if count == 0 { Seq::empty() } else { text::decimal(count) }
}

/// Text of a room's badge: nothing for zero.
pub fn badge_text(count: u64) -> (label: String)
    ensures
        label@ == badge(count as nat),
{
    if count == 0 {
        String::new()
    } else {
        text::decimal_string(count)
    }
}

} // verus!
