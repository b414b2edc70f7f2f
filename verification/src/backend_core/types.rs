//! Frontend-facing protocol types: commands, events and their payloads.
//!
//! Every type that carries text has a view in which each `String` is the
//! sequence of its characters. Contracts across the crate speak of those views.
use vstd::prelude::*;

verus! {

/// The characters of an optional string.
pub open spec fn opt_chars(text: Option<String>) -> Option<Seq<char>> {
    match text {
        Some(s) => Some(s@),
        None => None,
    }
}

/// Clones an optional string.
pub fn clone_opt_string(text: &Option<String>) -> (copy: Option<String>)
    ensures
        opt_chars(copy) == opt_chars(*text),
        copy == *text,
{
    match text {
        Some(s) => Some(s.clone()),
        None => None,
    }
}

/// High-level backend lifecycle state reported to the frontend.
#[derive(Debug, Clone, Copy, PartialEq, Eq, Structural)]
pub enum BackendLifecycleState {
    /// Backend has not been initialized yet.
    Cold,
    /// Backend has accepted `Init` and basic configuration is loaded.
    Configured,
    /// A login or session restore flow is currently running.
    Authenticating,
    /// Backend is authenticated and ready for room/media commands.
    Authenticated,
    /// Backend sync loop is running.
    Syncing,
    /// Backend logged out and cleared authenticated session state.
    LoggedOut,
    /// Backend entered unrecoverable fatal state.
    Fatal,
}

impl BackendLifecycleState {
    /// Name of the state, as it appears in error messages.
    pub open spec fn spec_name(self) -> Seq<char> {
        match self {
            BackendLifecycleState::Cold => "Cold"@,
            BackendLifecycleState::Configured => "Configured"@,
            BackendLifecycleState::Authenticating => "Authenticating"@,
            BackendLifecycleState::Authenticated => "Authenticated"@,
            BackendLifecycleState::Syncing => "Syncing"@,
            BackendLifecycleState::LoggedOut => "LoggedOut"@,
            BackendLifecycleState::Fatal => "Fatal"@,
        }
    }

    /// Name of the state, as it appears in error messages.
    pub fn name(self) -> (name: &'static str)
        ensures
            name@ == self.spec_name(),
    {
        match self {
            BackendLifecycleState::Cold => "Cold",
            BackendLifecycleState::Configured => "Configured",
            BackendLifecycleState::Authenticating => "Authenticating",
            BackendLifecycleState::Authenticated => "Authenticated",
            BackendLifecycleState::Syncing => "Syncing",
            BackendLifecycleState::LoggedOut => "LoggedOut",
            BackendLifecycleState::Fatal => "Fatal",
        }
    }

    /// Whether room, timeline, media and recovery commands are accepted.
    pub open spec fn is_signed_in(self) -> bool {
        self is Authenticated || self is Syncing
    }
}

/// Matrix message type used when sending room messages.
#[derive(Debug, Clone, Copy, PartialEq, Eq, Structural)]
pub enum MessageType {
    /// Standard text message (`m.text`).
    Text,
    /// Notice message (`m.notice`), usually non-intrusive/system-like.
    Notice,
    /// Emote message (`m.emote`).
    Emote,
}

/// Membership classification for room-list entries.
#[derive(Debug, Clone, Copy, PartialEq, Eq, Structural)]
pub enum RoomMembership {
    /// The user has joined the room.
    Joined,
    /// The user has a pending invite for the room.
    Invited,
}

/// Invite action requested by the frontend.
#[derive(Debug, Clone, Copy, PartialEq, Eq, Structural)]
pub enum InviteAction {
    /// Accept a pending room invite.
    Accept,
    /// Reject a pending room invite.
    Reject,
}

/// Optional runtime tuning values supplied with `BackendCommand::Init`.
#[derive(Debug, Clone, Copy, PartialEq, Eq, Structural)]
pub struct BackendInitConfig {
    /// Optional `/sync` request timeout in milliseconds.
    ///
    /// When `None`, backend default behavior is used.
    pub sync_request_timeout_ms: Option<u64>,
    /// Optional default room-history limit for `OpenRoom`.
    pub default_open_room_limit: Option<u16>,
    /// Optional hard cap used when paginating backward.
    pub pagination_limit_cap: Option<u16>,
}

impl Default for BackendInitConfig {
    fn default() -> (config: Self)
        ensures
            config.sync_request_timeout_ms is None,
            config.default_open_room_limit is None,
            config.pagination_limit_cap is None,
    {
        BackendInitConfig {
            sync_request_timeout_ms: None,
            default_open_room_limit: None,
            pagination_limit_cap: None,
        }
    }
}

/// Command channel input accepted by the backend runtime.
#[derive(Debug, Clone, PartialEq, Eq)]
pub enum BackendCommand {
    /// Initialize backend with homeserver and local data directory.
    Init {
        /// Homeserver base URL, for example `https://matrix.example.org`.
        homeserver: String,
        /// Path of the local data directory used by the SDK store.
        data_dir: String,
        /// Optional runtime tuning overrides.
        config: Option<BackendInitConfig>,
    },
    /// Login with Matrix user ID/localpart and password.
    LoginPassword {
        /// Matrix user ID (or localpart depending on homeserver behavior).
        user_id_or_localpart: String,
        /// Password for the user account.
        password: String,
        /// Whether the authenticated session should be persisted for restore.
        persist_session: bool,
    },
    /// Attempt session restore from persisted session data.
    RestoreSession,
    /// Start continuous sync loop.
    StartSync,
    /// Stop continuous sync loop.
    StopSync,
    /// Emit latest room list snapshot.
    ListRooms,
    /// Accept a pending room invite.
    AcceptRoomInvite {
        /// Target room ID.
        room_id: String,
        /// Frontend-provided transaction ID echoed in `InviteActionAck`.
        client_txn_id: String,
    },
    /// Reject a pending room invite.
    RejectRoomInvite {
        /// Target room ID.
        room_id: String,
        /// Frontend-provided transaction ID echoed in `InviteActionAck`.
        client_txn_id: String,
    },
    /// Load initial room timeline chunk.
    OpenRoom {
        /// Target room ID.
        room_id: String,
    },
    /// Paginate backward in a room timeline.
    PaginateBack {
        /// Target room ID.
        room_id: String,
        /// Requested pagination limit (subject to backend caps).
        limit: u16,
    },
    /// Send a text DM to a user.
    SendDmText {
        /// DM target user ID.
        user_id: String,
        /// Frontend-provided transaction ID echoed in `SendAck`.
        client_txn_id: String,
        /// Message body.
        body: String,
    },
    /// Send a room message.
    SendMessage {
        /// Target room ID.
        room_id: String,
        /// Frontend-provided transaction ID echoed in `SendAck`.
        client_txn_id: String,
        /// Message body.
        body: String,
        /// Message kind (`m.text`/`m.notice`/`m.emote`).
        msgtype: MessageType,
    },
    /// Edit an existing room message.
    EditMessage {
        /// Target room ID.
        room_id: String,
        /// Event ID of the message being edited.
        target_event_id: String,
        /// Replacement message body.
        new_body: String,
        /// Frontend-provided transaction ID echoed in `SendAck`.
        client_txn_id: String,
    },
    /// Redact (remove) an existing room event.
    RedactMessage {
        /// Target room ID.
        room_id: String,
        /// Event ID to redact.
        target_event_id: String,
        /// Optional redaction reason.
        reason: Option<String>,
    },
    /// Upload media bytes to the homeserver.
    UploadMedia {
        /// Frontend-provided transaction ID echoed in `MediaUploadAck`.
        client_txn_id: String,
        /// MIME content type, for example `image/png`.
        content_type: String,
        /// Raw media bytes.
        data: Vec<u8>,
    },
    /// Download media content from an `mxc://` source.
    DownloadMedia {
        /// Frontend-provided transaction ID echoed in `MediaDownloadAck`.
        client_txn_id: String,
        /// `mxc://` URI source.
        source: String,
    },
    /// Fetch latest local/server key-backup and recovery status summary.
    GetRecoveryStatus,
    /// Enable recovery and server-side room-key backups.
    ///
    /// On success emits `BackendEvent::RecoveryEnableAck` with a generated
    /// recovery key that should be shown to the user and stored safely.
    EnableRecovery {
        /// Frontend-provided transaction ID echoed in `RecoveryEnableAck`.
        client_txn_id: String,
        /// Optional passphrase to derive secret-storage/recovery material.
        passphrase: Option<String>,
        /// Whether to wait for initial room-key upload to settle before acking.
        wait_for_backups_to_upload: bool,
    },
    /// Reset identity backup/recovery and create a new recovery key.
    ///
    /// This flow deletes the active server-side backup and creates a fresh
    /// backup/recovery setup. Old encrypted history that depended on the prior
    /// backup key may become unrecoverable if that key was lost.
    ///
    /// On success emits `BackendEvent::RecoveryEnableAck` with the new
    /// generated recovery key.
    ResetRecovery {
        /// Frontend-provided transaction ID echoed in `RecoveryEnableAck`.
        client_txn_id: String,
        /// Optional passphrase to derive secret-storage/recovery material.
        passphrase: Option<String>,
        /// Whether to wait for initial room-key upload to settle before acking.
        wait_for_backups_to_upload: bool,
    },
    /// Recover E2EE secrets from secret storage using a recovery key/passphrase.
    RecoverSecrets {
        /// Frontend-provided transaction ID echoed in `RecoveryRestoreAck`.
        client_txn_id: String,
        /// Recovery key or passphrase used to unlock secret storage.
        recovery_key: String,
    },
    /// Logout and clear persisted session state.
    Logout,
}

/// Lightweight room metadata for frontend room lists.
#[derive(Debug, PartialEq, Eq)]
pub struct RoomSummary {
    /// Matrix room ID.
    pub room_id: String,
    /// Best-effort display name for the room.
    pub name: Option<String>,
    /// Notification count reported by sync.
    pub unread_notifications: u64,
    /// Highlight/mention count reported by sync.
    pub highlight_count: u64,
    /// Whether the room is considered a direct message room.
    pub is_direct: bool,
    /// Current membership classification for this room.
    pub membership: RoomMembership,
}

/// What a [`RoomSummary`] says.
#[verifier::ext_equal]
pub struct RoomSummaryView {
    pub room_id: Seq<char>,
    pub name: Option<Seq<char>>,
    pub unread_notifications: u64,
    pub highlight_count: u64,
    pub is_direct: bool,
    pub membership: RoomMembership,
}

impl View for RoomSummary {
    type V = RoomSummaryView;

    open spec fn view(&self) -> RoomSummaryView {
        RoomSummaryView {
            room_id: self.room_id@,
            name: opt_chars(self.name),
            unread_notifications: self.unread_notifications,
            highlight_count: self.highlight_count,
            is_direct: self.is_direct,
            membership: self.membership,
        }
    }
}

impl Clone for RoomSummary {
    fn clone(&self) -> (copy: Self)
        ensures
            copy@ == self@,
    {
        RoomSummary {
            room_id: self.room_id.clone(),
            name: clone_opt_string(&self.name),
            unread_notifications: self.unread_notifications,
            highlight_count: self.highlight_count,
            is_direct: self.is_direct,
            membership: self.membership,
        }
    }
}

/// What a list of room summaries says.
pub open spec fn room_views(rooms: Seq<RoomSummary>) -> Seq<RoomSummaryView> {
    rooms.map_values(|room: RoomSummary| room@)
}

/// Kind of content that a timeline item displays.
#[derive(Debug, Clone, Copy, PartialEq, Eq, Structural)]
pub enum TimelineContent {
    /// Plain text held in the item's body.
    Text,
}

/// Canonical timeline item payload used by timeline snapshots/deltas.
#[derive(Debug, PartialEq, Eq)]
pub struct TimelineItem {
    /// Event ID when available.
    pub event_id: Option<String>,
    /// Sender user ID.
    pub sender: String,
    /// Display-ready text body.
    pub body: String,
    /// Kind of content that the item displays.
    pub content: TimelineContent,
    /// Event timestamp in milliseconds since Unix epoch.
    pub timestamp_ms: u64,
}

/// What a [`TimelineItem`] says.
#[verifier::ext_equal]
pub struct TimelineItemView {
    pub event_id: Option<Seq<char>>,
    pub sender: Seq<char>,
    pub body: Seq<char>,
    pub content: TimelineContent,
    pub timestamp_ms: u64,
}

impl View for TimelineItem {
    type V = TimelineItemView;

    open spec fn view(&self) -> TimelineItemView {
        TimelineItemView {
            event_id: opt_chars(self.event_id),
            sender: self.sender@,
            body: self.body@,
            content: self.content,
            timestamp_ms: self.timestamp_ms,
        }
    }
}

impl Clone for TimelineItem {
    fn clone(&self) -> (copy: Self)
        ensures
            copy@ == self@,
    {
        TimelineItem {
            event_id: clone_opt_string(&self.event_id),
            sender: self.sender.clone(),
            body: self.body.clone(),
            content: self.content,
            timestamp_ms: self.timestamp_ms,
        }
    }
}

/// What a list of timeline items says.
pub open spec fn item_views(items: Seq<TimelineItem>) -> Seq<TimelineItemView> {
    items.map_values(|item: TimelineItem| item@)
}

/// Clones a list of timeline items.
pub fn clone_items(items: &[TimelineItem]) -> (copy: Vec<TimelineItem>)
    ensures
        item_views(copy@) == item_views(items@),
{
    let mut copy: Vec<TimelineItem> = Vec::new();
    let mut at: usize = 0;
    while at < items.len()
        invariant
            at <= items.len(),
            item_views(copy@) == item_views(items@.take(at as int)),
        decreases items.len() - at,
    {
        copy.push(items[at].clone());
        proof {
            assert(items@.take(at + 1) =~= items@.take(at as int).push(items@[at as int]));
            lemma_item_views_push(items@.take(at as int), items@[at as int]);
        }
        at += 1;
    }
    proof {
        assert(items@.take(at as int) =~= items@);
    }
    copy
}

proof fn lemma_item_views_push(items: Seq<TimelineItem>, item: TimelineItem)
    ensures
        item_views(items.push(item)) == item_views(items).push(item@),
{
    assert(item_views(items.push(item)) =~= item_views(items).push(item@));
}

/// Incremental timeline operation applied by frontend timeline stores.
#[derive(Debug, PartialEq, Eq)]
pub enum TimelineOp {
    /// Append item at the end of the timeline.
    Append(TimelineItem),
    /// Prepend item at the beginning of the timeline.
    Prepend(TimelineItem),
    /// Update body of an existing event.
    UpdateBody { event_id: String, new_body: String },
    /// Replace an existing event by another item.
    Replace { event_id: String, item: TimelineItem },
    /// Remove an existing event.
    Remove { event_id: String },
    /// Clear all timeline items.
    Clear,
}

/// What a [`TimelineOp`] says.
#[verifier::ext_equal]
pub enum TimelineOpView {
    Append(TimelineItemView),
    Prepend(TimelineItemView),
    UpdateBody { event_id: Seq<char>, new_body: Seq<char> },
    Replace { event_id: Seq<char>, item: TimelineItemView },
    Remove { event_id: Seq<char> },
    Clear,
}

impl View for TimelineOp {
    type V = TimelineOpView;

    open spec fn view(&self) -> TimelineOpView {
        match self {
            TimelineOp::Append(item) => TimelineOpView::Append(item@),
            TimelineOp::Prepend(item) => TimelineOpView::Prepend(item@),
            TimelineOp::UpdateBody { event_id, new_body } => TimelineOpView::UpdateBody {
                event_id: event_id@,
                new_body: new_body@,
            },
            TimelineOp::Replace { event_id, item } => TimelineOpView::Replace {
                event_id: event_id@,
                item: item@,
            },
            TimelineOp::Remove { event_id } => TimelineOpView::Remove { event_id: event_id@ },
            TimelineOp::Clear => TimelineOpView::Clear,
        }
    }
}

impl Clone for TimelineOp {
    fn clone(&self) -> (copy: Self)
        ensures
            copy@ == self@,
    {
        match self {
            TimelineOp::Append(item) => TimelineOp::Append(item.clone()),
            TimelineOp::Prepend(item) => TimelineOp::Prepend(item.clone()),
            TimelineOp::UpdateBody { event_id, new_body } => TimelineOp::UpdateBody {
                event_id: event_id.clone(),
                new_body: new_body.clone(),
            },
            TimelineOp::Replace { event_id, item } => TimelineOp::Replace {
                event_id: event_id.clone(),
                item: item.clone(),
            },
            TimelineOp::Remove { event_id } => TimelineOp::Remove { event_id: event_id.clone() },
            TimelineOp::Clear => TimelineOp::Clear,
        }
    }
}

/// What a list of timeline operations says.
pub open spec fn op_views(ops: Seq<TimelineOp>) -> Seq<TimelineOpView> {
    ops.map_values(|op: TimelineOp| op@)
}

/// Sync loop status updates.
#[derive(Debug, Clone, Copy, PartialEq, Eq, Structural)]
pub struct SyncStatus {
    /// Whether sync is currently running.
    pub running: bool,
    /// Optional hint about next retry delay.
    pub lag_hint_ms: Option<u64>,
}

/// Acknowledgement for message/DM send commands.
#[derive(Debug, Clone, PartialEq, Eq)]
pub struct SendAck {
    /// Transaction ID that the frontend gave.
    pub client_txn_id: String,
    /// Event ID on success.
    pub event_id: Option<String>,
    /// Stable backend error code on failure.
    pub error_code: Option<String>,
}

/// Acknowledgement for media upload requests.
#[derive(Debug, Clone, PartialEq, Eq)]
pub struct MediaUploadAck {
    /// Transaction ID that the frontend gave.
    pub client_txn_id: String,
    /// Uploaded media URI (`mxc://...`) on success.
    pub content_uri: Option<String>,
    /// Stable backend error code on failure.
    pub error_code: Option<String>,
}

/// Acknowledgement for media download requests.
#[derive(Debug, Clone, PartialEq, Eq)]
pub struct MediaDownloadAck {
    /// Transaction ID that the frontend gave.
    pub client_txn_id: String,
    /// Requested source URI.
    pub source: String,
    /// Downloaded bytes on success.
    pub data: Option<Vec<u8>>,
    /// Optional MIME content type when known.
    pub content_type: Option<String>,
    /// Stable backend error code on failure.
    pub error_code: Option<String>,
}

/// Acknowledgement for invite accept/reject requests.
#[derive(Debug, Clone, PartialEq, Eq)]
pub struct InviteActionAck {
    /// Transaction ID that the frontend gave.
    pub client_txn_id: String,
    /// Target room ID.
    pub room_id: String,
    /// Invite action requested.
    pub action: InviteAction,
    /// Stable backend error code on failure.
    pub error_code: Option<String>,
}

/// Coarse-grained key-backup state projected from Matrix SDK internals.
#[derive(Debug, Clone, Copy, PartialEq, Eq, Structural)]
pub enum KeyBackupState {
    /// Backup state has not been determined yet.
    Unknown,
    /// Client is creating a new backup on the homeserver.
    Creating,
    /// Client is enabling an existing backup.
    Enabling,
    /// Client is resuming backup from existing local state.
    Resuming,
    /// Backup is enabled and usable.
    Enabled,
    /// Client is downloading keys from backup.
    Downloading,
    /// Client is disabling/deleting backup.
    Disabling,
}

/// Coarse-grained secret-storage recovery state.
#[derive(Debug, Clone, Copy, PartialEq, Eq, Structural)]
pub enum RecoveryState {
    /// Recovery state has not been determined yet.
    Unknown,
    /// Recovery is fully configured and usable.
    Enabled,
    /// Recovery/secret-storage is disabled.
    Disabled,
    /// Recovery is partially configured but missing some secrets.
    Incomplete,
}

/// Consolidated backup/recovery readiness summary.
#[derive(Debug, Clone, Copy, PartialEq, Eq, Structural)]
pub struct RecoveryStatus {
    /// Current local key-backup state.
    pub backup_state: KeyBackupState,
    /// Whether this client currently has backups enabled locally.
    pub backup_enabled: bool,
    /// Whether a backup currently exists on the homeserver.
    pub backup_exists_on_server: bool,
    /// Current recovery/secret-storage state.
    pub recovery_state: RecoveryState,
}

/// Acknowledgement for recovery enable requests.
#[derive(Debug, Clone, PartialEq, Eq)]
pub struct RecoveryEnableAck {
    /// Transaction ID that the frontend gave.
    pub client_txn_id: String,
    /// Generated recovery key/passphrase on success.
    pub recovery_key: Option<String>,
    /// Stable backend error code on failure.
    pub error_code: Option<String>,
}

/// Acknowledgement for recovery restore requests.
#[derive(Debug, Clone, PartialEq, Eq)]
pub struct RecoveryRestoreAck {
    /// Transaction ID that the frontend gave.
    pub client_txn_id: String,
    /// Stable backend error code on failure.
    pub error_code: Option<String>,
}

/// E2EE/trust status summary intended for future frontend consumption.
#[derive(Debug, Clone, Copy, PartialEq, Eq, Structural)]
pub struct CryptoStatus {
    /// Whether cross-signing is configured/ready.
    pub cross_signing_ready: bool,
    /// Number of trusted devices.
    pub trusted_devices: u64,
    /// Number of untrusted devices.
    pub untrusted_devices: u64,
}

/// Event channel output emitted by backend runtime and adapter layers.
#[derive(Debug, Clone, PartialEq, Eq)]
pub enum BackendEvent {
    /// Backend lifecycle transition.
    StateChanged {
        /// New lifecycle state.
        state: BackendLifecycleState,
    },
    /// Result of login/session-restore flow.
    AuthResult {
        /// `true` when auth flow completed successfully.
        success: bool,
        /// Stable backend error code when `success == false`.
        error_code: Option<String>,
    },
    /// Sync loop status update.
    SyncStatus(SyncStatus),
    /// Full room list replacement.
    RoomListUpdated {
        /// Latest room summaries.
        rooms: Vec<RoomSummary>,
    },
    /// Incremental timeline delta for a room.
    RoomTimelineDelta {
        /// Target room ID.
        room_id: String,
        /// Operations to apply in order.
        ops: Vec<TimelineOp>,
    },
    /// Snapshot timeline replacement for a room (adapter-level convenience event).
    RoomTimelineSnapshot {
        /// Target room ID.
        room_id: String,
        /// Snapshot items in display order.
        items: Vec<TimelineItem>,
    },
    /// Send acknowledgement (`SendMessage`, `SendDmText`, `EditMessage`).
    SendAck(SendAck),
    /// Media upload acknowledgement.
    MediaUploadAck(MediaUploadAck),
    /// Media download acknowledgement.
    MediaDownloadAck(MediaDownloadAck),
    /// Invite accept/reject acknowledgement.
    InviteActionAck(InviteActionAck),
    /// Recovery/key-backup status snapshot.
    RecoveryStatus(RecoveryStatus),
    /// Recovery setup acknowledgement.
    RecoveryEnableAck(RecoveryEnableAck),
    /// Recovery restore acknowledgement.
    RecoveryRestoreAck(RecoveryRestoreAck),
    /// Crypto status update.
    CryptoStatus(CryptoStatus),
    /// Fatal runtime error.
    FatalError {
        /// Stable backend error code.
        code: String,
        /// Human-readable error message.
        message: String,
        /// Indicates whether retrying may recover.
        recoverable: bool,
    },
}

/// What a [`BackendEvent`] says.
#[verifier::ext_equal]
pub enum BackendEventView {
    StateChanged { state: BackendLifecycleState },
    AuthResult { success: bool, error_code: Option<Seq<char>> },
    SyncStatus(SyncStatus),
    RoomListUpdated { rooms: Seq<RoomSummaryView> },
    RoomTimelineDelta { room_id: Seq<char>, ops: Seq<TimelineOpView> },
    RoomTimelineSnapshot { room_id: Seq<char>, items: Seq<TimelineItemView> },
    SendAck {
        client_txn_id: Seq<char>,
        event_id: Option<Seq<char>>,
        error_code: Option<Seq<char>>,
    },
    MediaUploadAck {
        client_txn_id: Seq<char>,
        content_uri: Option<Seq<char>>,
        error_code: Option<Seq<char>>,
    },
    MediaDownloadAck {
        client_txn_id: Seq<char>,
        source: Seq<char>,
        data: Option<Seq<u8>>,
        content_type: Option<Seq<char>>,
        error_code: Option<Seq<char>>,
    },
    InviteActionAck {
        client_txn_id: Seq<char>,
        room_id: Seq<char>,
        action: InviteAction,
        error_code: Option<Seq<char>>,
    },
    RecoveryStatus(RecoveryStatus),
    RecoveryEnableAck {
        client_txn_id: Seq<char>,
        recovery_key: Option<Seq<char>>,
        error_code: Option<Seq<char>>,
    },
    RecoveryRestoreAck { client_txn_id: Seq<char>, error_code: Option<Seq<char>> },
    CryptoStatus(CryptoStatus),
    FatalError { code: Seq<char>, message: Seq<char>, recoverable: bool },
}

impl View for BackendEvent {
    type V = BackendEventView;

    open spec fn view(&self) -> BackendEventView {
        match self {
            BackendEvent::StateChanged { state } => BackendEventView::StateChanged {
                state: *state,
            },
            BackendEvent::AuthResult { success, error_code } => BackendEventView::AuthResult {
                success: *success,
                error_code: opt_chars(*error_code),
            },
            BackendEvent::SyncStatus(status) => BackendEventView::SyncStatus(*status),
            BackendEvent::RoomListUpdated { rooms } => BackendEventView::RoomListUpdated {
                rooms: room_views(rooms@),
            },
            BackendEvent::RoomTimelineDelta { room_id, ops } => {
                BackendEventView::RoomTimelineDelta { room_id: room_id@, ops: op_views(ops@) }
            },
            BackendEvent::RoomTimelineSnapshot { room_id, items } => {
                BackendEventView::RoomTimelineSnapshot {
                    room_id: room_id@,
                    items: item_views(items@),
                }
            },
            BackendEvent::SendAck(ack) => BackendEventView::SendAck {
                client_txn_id: ack.client_txn_id@,
                event_id: opt_chars(ack.event_id),
                error_code: opt_chars(ack.error_code),
            },
            BackendEvent::MediaUploadAck(ack) => BackendEventView::MediaUploadAck {
                client_txn_id: ack.client_txn_id@,
                content_uri: opt_chars(ack.content_uri),
                error_code: opt_chars(ack.error_code),
            },
            BackendEvent::MediaDownloadAck(ack) => BackendEventView::MediaDownloadAck {
                client_txn_id: ack.client_txn_id@,
                source: ack.source@,
                data: match ack.data {
                    Some(bytes) => Some(bytes@),
                    None => None,
                },
                content_type: opt_chars(ack.content_type),
                error_code: opt_chars(ack.error_code),
            },
            BackendEvent::InviteActionAck(ack) => BackendEventView::InviteActionAck {
                client_txn_id: ack.client_txn_id@,
                room_id: ack.room_id@,
                action: ack.action,
                error_code: opt_chars(ack.error_code),
            },
            BackendEvent::RecoveryStatus(status) => BackendEventView::RecoveryStatus(*status),
            BackendEvent::RecoveryEnableAck(ack) => BackendEventView::RecoveryEnableAck {
                client_txn_id: ack.client_txn_id@,
                recovery_key: opt_chars(ack.recovery_key),
                error_code: opt_chars(ack.error_code),
            },
            BackendEvent::RecoveryRestoreAck(ack) => BackendEventView::RecoveryRestoreAck {
                client_txn_id: ack.client_txn_id@,
                error_code: opt_chars(ack.error_code),
            },
            BackendEvent::CryptoStatus(status) => BackendEventView::CryptoStatus(*status),
            BackendEvent::FatalError { code, message, recoverable } => {
                BackendEventView::FatalError {
                    code: code@,
                    message: message@,
                    recoverable: *recoverable,
                }
            },
        }
    }
}

/// What a list of events says.
pub open spec fn event_views(events: Seq<BackendEvent>) -> Seq<BackendEventView> {
    events.map_values(|event: BackendEvent| event@)
}

} // verus!
