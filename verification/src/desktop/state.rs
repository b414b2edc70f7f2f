//! Frontend-facing state reducer of the desktop client.
use vstd::prelude::*;

use super::pagination::{self, PaginationTracker, PaginationView};
use super::security_dialog::{self, DialogView, SecurityDialog, SecurityDialogMode};
use super::timeline_rows;
use crate::backend_core::types::{
    self, BackendEvent, BackendEventView, BackendLifecycleState, InviteAction, InviteActionAck,
    KeyBackupState, RecoveryState, RecoveryStatus, RoomMembership, RoomSummary, RoomSummaryView,
    SendAck, SyncStatus, TimelineItem, TimelineItemView, TimelineOp,
};
use crate::text;
use crate::text_map::TextMap;

verus! {

/// Sidebar room row consumed by the UI.
#[derive(Debug, PartialEq, Eq)]
pub struct RoomView {
    pub room_id: String,
    pub display_name: String,
    pub unread_notifications: u64,
    pub highlight_count: u64,
    pub is_selected: bool,
    pub membership: RoomMembership,
    pub invite_pending: bool,
    pub invite_pending_text: String,
}

/// What a [`RoomView`] shows.
#[verifier::ext_equal]
pub struct RoomRow {
    pub room_id: Seq<char>,
    pub display_name: Seq<char>,
    pub unread_notifications: u64,
    pub highlight_count: u64,
    pub is_selected: bool,
    pub membership: RoomMembership,
    pub invite_pending: bool,
    pub invite_pending_text: Seq<char>,
}

impl View for RoomView {
    type V = RoomRow;

    open spec fn view(&self) -> RoomRow {
        RoomRow {
            room_id: self.room_id@,
            display_name: self.display_name@,
            unread_notifications: self.unread_notifications,
            highlight_count: self.highlight_count,
            is_selected: self.is_selected,
            membership: self.membership,
            invite_pending: self.invite_pending,
            invite_pending_text: self.invite_pending_text@,
        }
    }
}

impl Clone for RoomView {
    fn clone(&self) -> (copy: Self)
        ensures
            copy@ == self@,
    {
        RoomView {
            room_id: self.room_id.clone(),
            display_name: self.display_name.clone(),
            unread_notifications: self.unread_notifications,
            highlight_count: self.highlight_count,
            is_selected: self.is_selected,
            membership: self.membership,
            invite_pending: self.invite_pending,
            invite_pending_text: self.invite_pending_text.clone(),
        }
    }
}

/// What a list of room rows shows.
pub open spec fn room_rows(rooms: Seq<RoomView>) -> Seq<RoomRow> {
    rooms.map_values(|room: RoomView| room@)
}

/// Timeline message row consumed by the UI.
#[derive(Debug, PartialEq, Eq)]
pub struct MessageView {
    pub event_id: Option<String>,
    pub sender: String,
    pub body: String,
    pub is_own: bool,
}

/// What a [`MessageView`] shows.
#[verifier::ext_equal]
pub struct MessageRow {
    pub event_id: Option<Seq<char>>,
    pub sender: Seq<char>,
    pub body: Seq<char>,
    pub is_own: bool,
}

impl View for MessageView {
    type V = MessageRow;

    open spec fn view(&self) -> MessageRow {
        MessageRow {
            event_id: types::opt_chars(self.event_id),
            sender: self.sender@,
            body: self.body@,
            is_own: self.is_own,
        }
    }
}

impl Clone for MessageView {
    fn clone(&self) -> (copy: Self)
        ensures
            copy@ == self@,
    {
        MessageView {
            event_id: types::clone_opt_string(&self.event_id),
            sender: self.sender.clone(),
            body: self.body.clone(),
            is_own: self.is_own,
        }
    }
}

/// What a list of message rows shows.
pub open spec fn message_rows(messages: Seq<MessageView>) -> Seq<MessageRow> {
    messages.map_values(|message: MessageView| message@)
}

/// Full UI snapshot emitted after state transitions.
#[derive(Debug, Clone, PartialEq, Eq)]
pub struct DesktopSnapshot {
    pub rooms: Vec<RoomView>,
    pub messages: Vec<MessageView>,
    pub selected_room_id: Option<String>,
    pub selected_room_is_invite: bool,
    pub selected_room_invite_pending_text: Option<String>,
    pub status_text: String,
    pub error_text: Option<String>,
    pub can_send: bool,
    pub show_security_dialog: bool,
    pub security_dialog_title: String,
    pub security_dialog_body: String,
    pub security_show_copy_button: bool,
    pub security_copy_button_text: String,
    pub security_show_restore_input: bool,
    pub security_restore_button_text: String,
    pub security_restore_in_flight: bool,
}

/// Mutable app state that receives backend events and user actions.
#[derive(Debug, Clone)]
pub struct DesktopState {
    own_user_id: String,
    timeline_max_items: usize,
    rooms: Vec<RoomView>,
    selected_room_id: Option<String>,
    timelines: TextMap<Vec<TimelineItem>>,
    messages: Vec<MessageView>,
    status_text: String,
    error_text: Option<String>,
    pending_sends: TextMap<()>,
    pending_invite_actions: TextMap<InviteAction>,
    pending_invite_actions_by_txn: TextMap<String>,
    pagination: PaginationTracker,
    dialog: SecurityDialog,
}

/// What a [`DesktopState`] holds.
#[verifier::ext_equal]
pub struct DesktopView {
    /// The user's own ID.
    pub own_user_id: Seq<char>,
    /// Largest number of items per timeline.
    pub max_items: nat,
    /// Sidebar rows.
    pub rooms: Seq<RoomRow>,
    /// Selected room.
    pub selected: Option<Seq<char>>,
    /// Timeline of each room.
    pub timelines: Map<Seq<char>, Seq<TimelineItemView>>,
    /// Visible messages.
    pub messages: Seq<MessageRow>,
    /// Status line.
    pub status: Seq<char>,
    /// Error line.
    pub error: Option<Seq<char>>,
    /// Transaction IDs of the messages on their way.
    pub pending_sends: Set<Seq<char>>,
    /// Invites with an answer on its way.
    pub pending_invites: Map<Seq<char>, InviteAction>,
    /// Rooms of the answers on their way, by transaction ID.
    pub pending_invite_txns: Map<Seq<char>, Seq<char>>,
    /// Requests for older events.
    pub pagination: PaginationView,
    /// Security dialog.
    pub dialog: DialogView,
}

impl View for DesktopState {
    type V = DesktopView;

    closed spec fn view(&self) -> DesktopView {
        DesktopView {
            own_user_id: self.own_user_id@,
            max_items: self.timeline_max_items as nat,
            rooms: room_rows(self.rooms@),
            selected: types::opt_chars(self.selected_room_id),
            timelines: self.timelines@.map_values(
                |items: Vec<TimelineItem>| types::item_views(items@),
            ),
            messages: message_rows(self.messages@),
            status: self.status_text@,
            error: types::opt_chars(self.error_text),
            pending_sends: self.pending_sends@.dom(),
            pending_invites: self.pending_invite_actions@,
            pending_invite_txns: self.pending_invite_actions_by_txn@.map_values(
                |room_id: String| room_id@,
            ),
            pagination: self.pagination@,
            dialog: self.dialog@,
        }
    }
}

/// Label of a lifecycle state in the status line.
pub open spec fn label_of(state: BackendLifecycleState) -> Seq<char> {
    match state {
        BackendLifecycleState::Cold => "Cold"@,
        BackendLifecycleState::Configured => "Configured"@,
        BackendLifecycleState::Authenticating => "Authenticating"@,
        BackendLifecycleState::Authenticated => "Authenticated"@,
        BackendLifecycleState::Syncing => "Syncing"@,
        BackendLifecycleState::LoggedOut => "Logged out"@,
        BackendLifecycleState::Fatal => "Fatal"@,
    }
}

/// Label of a lifecycle state in the status line.
pub fn lifecycle_label(state: BackendLifecycleState) -> (label: &'static str)
    ensures
        label@ == label_of(state),
{
    match state {
        BackendLifecycleState::Cold => "Cold",
        BackendLifecycleState::Configured => "Configured",
        BackendLifecycleState::Authenticating => "Authenticating",
        BackendLifecycleState::Authenticated => "Authenticated",
        BackendLifecycleState::Syncing => "Syncing",
        BackendLifecycleState::LoggedOut => "Logged out",
        BackendLifecycleState::Fatal => "Fatal",
    }
}

/// Error line of a failed authentication.
pub open spec fn auth_error(code: Seq<char>) -> Seq<char> {
    if code == "crypto_store_account_mismatch"@ {
        "authentication failed (crypto_store_account_mismatch): local data dir belongs to a different account; set PIKACHAT_DATA_DIR or remove the existing store"@
    } else {
        "authentication failed ("@ + code + ")"@
    }
}

/// Error line of a failed authentication.
pub fn auth_error_text(code: &str) -> (line: String)
    ensures
        line@ == auth_error(code@),
{
    if *code == *"crypto_store_account_mismatch" {
        "authentication failed (crypto_store_account_mismatch): local data dir belongs to a different account; set PIKACHAT_DATA_DIR or remove the existing store".to_owned()
    } else {
        let mut line: String = "authentication failed (".to_owned();
        line.append(code);
        line.append(")");
        line
    }
}

/// Text beside an invite with an answer on its way.
pub open spec fn pending_text(action: InviteAction) -> Seq<char> {
    match action {
        InviteAction::Accept => "Accepting invite..."@,
        InviteAction::Reject => "Rejecting invite..."@,
    }
}

/// Text beside an invite with an answer on its way.
pub fn invite_pending_text(action: InviteAction) -> (text: &'static str)
    ensures
        text@ == pending_text(action),
{
    match action {
        InviteAction::Accept => "Accepting invite...",
        InviteAction::Reject => "Rejecting invite...",
    }
}

/// Name of a backup state.
pub open spec fn backup_state_name(state: KeyBackupState) -> Seq<char> {
    match state {
        KeyBackupState::Unknown => "Unknown"@,
        KeyBackupState::Creating => "Creating"@,
        KeyBackupState::Enabling => "Enabling"@,
        KeyBackupState::Resuming => "Resuming"@,
        KeyBackupState::Enabled => "Enabled"@,
        KeyBackupState::Downloading => "Downloading"@,
        KeyBackupState::Disabling => "Disabling"@,
    }
}

/// Name of a backup state.
pub fn format_key_backup_state(state: KeyBackupState) -> (name: &'static str)
    ensures
        name@ == backup_state_name(state),
{
    match state {
        KeyBackupState::Unknown => "Unknown",
        KeyBackupState::Creating => "Creating",
        KeyBackupState::Enabling => "Enabling",
        KeyBackupState::Resuming => "Resuming",
        KeyBackupState::Enabled => "Enabled",
        KeyBackupState::Downloading => "Downloading",
        KeyBackupState::Disabling => "Disabling",
    }
}

/// Name of a recovery state.
pub open spec fn recovery_state_name(state: RecoveryState) -> Seq<char> {
    match state {
        RecoveryState::Unknown => "Unknown"@,
        RecoveryState::Enabled => "Enabled"@,
        RecoveryState::Disabled => "Disabled"@,
        RecoveryState::Incomplete => "Incomplete"@,
    }
}

/// Name of a recovery state.
pub fn format_recovery_state(state: RecoveryState) -> (name: &'static str)
    ensures
        name@ == recovery_state_name(state),
{
    match state {
        RecoveryState::Unknown => "Unknown",
        RecoveryState::Enabled => "Enabled",
        RecoveryState::Disabled => "Disabled",
        RecoveryState::Incomplete => "Incomplete",
    }
}

/// Whether something is so, in words.
pub open spec fn yes_or_no(yes: bool) -> Seq<char> {
    if yes { "yes"@ } else { "no"@ }
}

/// Text of the status dialog.
pub open spec fn recovery_status_text(status: RecoveryStatus) -> Seq<char> {
    "Backup state: "@ + backup_state_name(status.backup_state) + "\nBackup enabled locally: "@
        + yes_or_no(status.backup_enabled) + "\nBackup exists on server: "@ + yes_or_no(
        status.backup_exists_on_server,
    ) + "\nRecovery state: "@ + recovery_state_name(status.recovery_state)
}

/// Text of the status dialog.
pub fn format_recovery_status(status: &RecoveryStatus) -> (body: String)
    ensures
        body@ == recovery_status_text(*status),
{
    let mut body: String = "Backup state: ".to_owned();
    body.append(format_key_backup_state(status.backup_state));
    body.append("\nBackup enabled locally: ");
    body.append(if status.backup_enabled { "yes" } else { "no" });
    body.append("\nBackup exists on server: ");
    body.append(if status.backup_exists_on_server { "yes" } else { "no" });
    body.append("\nRecovery state: ");
    body.append(format_recovery_state(status.recovery_state));
    body
}

/// Name under which a room is shown: its own unless that is blank, else its ID.
pub open spec fn shown_name(room: RoomSummaryView) -> Seq<char> {
    match room.name {
        Some(name) => if text::trimmed(name).len() > 0 { name } else { room.room_id },
        None => room.room_id,
    }
}

/// Sidebar row of a room.
pub open spec fn row_of(
    room: RoomSummaryView,
    selected: Option<Seq<char>>,
    pending: Map<Seq<char>, InviteAction>,
) -> RoomRow {
    RoomRow {
        room_id: room.room_id,
        display_name: shown_name(room),
        unread_notifications: room.unread_notifications,
        highlight_count: room.highlight_count,
        is_selected: selected == Some(room.room_id),
        membership: room.membership,
        invite_pending: pending.dom().contains(room.room_id),
        invite_pending_text: if pending.dom().contains(room.room_id) {
            pending_text(pending[room.room_id])
        } else {
            Seq::empty()
        },
    }
}

/// Sidebar rows of the invites, or of the other rooms, in the backend's order.
pub open spec fn rows_of(
    rooms: Seq<RoomSummaryView>,
    invited: bool,
    selected: Option<Seq<char>>,
    pending: Map<Seq<char>, InviteAction>,
) -> Seq<RoomRow>
    decreases rooms.len(),
{
    if rooms.len() == 0 {
        Seq::empty()
    } else {
        let before = rows_of(rooms.drop_last(), invited, selected, pending);
        if (rooms.last().membership is Invited) == invited {
            before.push(row_of(rooms.last(), selected, pending))
        } else {
            before
        }
    }
}

/// Sidebar rows: the invites first, then the other rooms, each in the backend's order.
pub open spec fn sidebar(
    rooms: Seq<RoomSummaryView>,
    selected: Option<Seq<char>>,
    pending: Map<Seq<char>, InviteAction>,
) -> Seq<RoomRow> {
    rows_of(rooms, true, selected, pending) + rows_of(rooms, false, selected, pending)
}

/// Whether a row shows the room.
pub open spec fn lists_room(rows: Seq<RoomRow>, room_id: Seq<char>) -> bool {
    exists|i: int| 0 <= i < rows.len() && (#[trigger] rows[i]).room_id == room_id
}

/// Index of the first row of a room.
pub open spec fn room_index(rows: Seq<RoomRow>, room_id: Seq<char>) -> Option<int>
    decreases rows.len(),
{
    if rows.len() == 0 {
        None
    } else {
        match room_index(rows.drop_last(), room_id) {
            Some(index) => Some(index),
            None => if rows.last().room_id == room_id { Some(rows.len() - 1) } else { None },
        }
    }
}

/// An index that was found is that of the first row of the room; otherwise no row shows it.
pub proof fn lemma_room_index(rows: Seq<RoomRow>, room_id: Seq<char>)
    ensures
        match room_index(rows, room_id) {
            Some(index) => {
                &&& 0 <= index < rows.len()
                &&& rows[index].room_id == room_id
                &&& forall|i: int| 0 <= i < index ==> (#[trigger] rows[i]).room_id != room_id
            },
            None => !lists_room(rows, room_id),
        },
    decreases rows.len(),
{
    if rows.len() > 0 {
        let front = rows.drop_last();
        lemma_room_index(front, room_id);
        assert forall|i: int| 0 <= i < rows.len() - 1 implies (#[trigger] rows[i]) == front[i] by {}
        match room_index(front, room_id) {
            Some(_) => {},
            None => {
                assert forall|i: int| 0 <= i < rows.len() - 1 implies (
                #[trigger] rows[i]).room_id != room_id by {
                    assert(front[i].room_id != room_id);
                }
            },
        }
    }
}

/// The row of the selected room.
pub open spec fn selected_row(state: DesktopView) -> Option<RoomRow> {
    match state.selected {
        Some(room_id) => match room_index(state.rooms, room_id) {
            Some(index) => Some(state.rooms[index]),
            None => None,
        },
        None => None,
    }
}

/// Whether the selected room accepts messages: the user joined it.
pub open spec fn can_send(state: DesktopView) -> bool {
    selected_row(state) matches Some(row) && row.membership is Joined
}

/// Whether a room is listed as an invite.
pub open spec fn is_invite(state: DesktopView, room_id: Seq<char>) -> bool {
    room_index(state.rooms, room_id) matches Some(index) && state.rooms[index].membership
        is Invited
}

/// Message row of a timeline item.
pub open spec fn message_of(item: TimelineItemView, own_user_id: Seq<char>) -> MessageRow {
    MessageRow {
        event_id: item.event_id,
        sender: item.sender,
        body: item.body,
        is_own: item.sender == own_user_id,
    }
}

/// The messages of the selected room.
pub open spec fn visible_messages(
    selected: Option<Seq<char>>,
    timelines: Map<Seq<char>, Seq<TimelineItemView>>,
    own_user_id: Seq<char>,
) -> Seq<MessageRow> {
    match selected {
        Some(room_id) => if timelines.dom().contains(room_id) {
            timelines[room_id].map_values(|item: TimelineItemView| message_of(item, own_user_id))
        } else {
            Seq::empty()
        },
        None => Seq::empty(),
    }
}

/// The rows with the selection mark on the room.
pub open spec fn with_selection(rows: Seq<RoomRow>, room_id: Seq<char>) -> Seq<RoomRow> {
    rows.map_values(|row: RoomRow| RoomRow { is_selected: row.room_id == room_id, ..row })
}

/// The rows with a note on the answer to an invite beside the first row of the room.
pub open spec fn with_invite_note(
    rows: Seq<RoomRow>,
    room_id: Seq<char>,
    pending: bool,
    note: Seq<char>,
) -> Seq<RoomRow> {
    match room_index(rows, room_id) {
        Some(index) => rows.update(
            index,
            RoomRow { invite_pending: pending, invite_pending_text: note, ..rows[index] },
        ),
        None => rows,
    }
}

/// The state behind a selection.
pub open spec fn after_select(state: DesktopView, room_id: Seq<char>) -> DesktopView {
    DesktopView {
        selected: Some(room_id),
        rooms: with_selection(state.rooms, room_id),
        messages: visible_messages(Some(room_id), state.timelines, state.own_user_id),
        ..state
    }
}

/// The state behind a new room list: answers on their way are forgotten for rooms that are
/// gone, and so is the selection.
pub open spec fn after_rooms(state: DesktopView, rooms: Seq<RoomSummaryView>) -> DesktopView {
    let rows = sidebar(rooms, state.selected, state.pending_invites);
    let pending = state.pending_invites.restrict(
        Set::new(|room_id: Seq<char>| lists_room(rows, room_id)),
    );
    let gone = state.selected matches Some(room_id) && !lists_room(rows, room_id);
    DesktopView {
        rooms: rows,
        pending_invites: pending,
        pending_invite_txns: state.pending_invite_txns.restrict(
            Set::new(
                |txn: Seq<char>|
                    state.pending_invite_txns.dom().contains(txn) && pending.dom().contains(
                        state.pending_invite_txns[txn],
                    ),
            ),
        ),
        selected: if gone { None } else { state.selected },
        messages: if gone { Seq::empty() } else { state.messages },
        ..state
    }
}

/// The state behind a timeline of a room.
pub open spec fn after_timeline(
    state: DesktopView,
    room_id: Seq<char>,
    items: Seq<TimelineItemView>,
) -> DesktopView {
    let timelines = state.timelines.insert(
        room_id,
        timeline_rows::deduped(items, state.max_items),
    );
    DesktopView {
        timelines,
        messages: if state.selected == Some(room_id) {
            visible_messages(state.selected, timelines, state.own_user_id)
        } else {
            state.messages
        },
        pagination: PaginationView {
            in_flight: state.pagination.in_flight.remove(room_id),
            ..state.pagination
        },
        ..state
    }
}

/// The timeline of a room: empty where none is known.
pub open spec fn timeline_of(state: DesktopView, room_id: Seq<char>) -> Seq<TimelineItemView> {
    if state.timelines.dom().contains(room_id) {
        state.timelines[room_id]
    } else {
        Seq::empty()
    }
}

/// The state behind an acknowledged message.
pub open spec fn after_send_ack(
    state: DesktopView,
    client_txn_id: Seq<char>,
    error_code: Option<Seq<char>>,
) -> DesktopView {
    DesktopView {
        pending_sends: state.pending_sends.remove(client_txn_id),
        error: match error_code {
            Some(code) => Some("send failed ("@ + code + ")"@),
            None => None,
        },
        ..state
    }
}

/// The room of an acknowledged answer to an invite: that of the transaction, where it is
/// known.
pub open spec fn acked_room(
    state: DesktopView,
    client_txn_id: Seq<char>,
    room_id: Seq<char>,
) -> Seq<char> {
    if state.pending_invite_txns.dom().contains(client_txn_id) {
        state.pending_invite_txns[client_txn_id]
    } else {
        room_id
    }
}

/// The state behind an acknowledged answer to an invite.
pub open spec fn after_invite_ack(
    state: DesktopView,
    client_txn_id: Seq<char>,
    room_id: Seq<char>,
    action: InviteAction,
    error_code: Option<Seq<char>>,
) -> DesktopView {
    let room = acked_room(state, client_txn_id, room_id);
    DesktopView {
        pending_invite_txns: state.pending_invite_txns.remove(client_txn_id),
        pending_invites: state.pending_invites.remove(room),
        rooms: with_invite_note(state.rooms, room, false, Seq::empty()),
        error: match error_code {
            Some(code) => Some(
                "invite "@ + (match action {
                    InviteAction::Accept => "accept"@,
                    InviteAction::Reject => "reject"@,
                }) + " failed ("@ + code + ")"@,
            ),
            None => None,
        },
        ..state
    }
}

/// The state behind a request to answer an invite: only an invite without an answer on its
/// way can be answered.
pub open spec fn after_invite_request(
    state: DesktopView,
    room_id: Seq<char>,
    client_txn_id: Seq<char>,
    action: InviteAction,
) -> DesktopView {
    if is_invite(state, room_id) && !state.pending_invites.dom().contains(room_id) {
        DesktopView {
            pending_invites: state.pending_invites.insert(room_id, action),
            pending_invite_txns: state.pending_invite_txns.insert(client_txn_id, room_id),
            rooms: with_invite_note(state.rooms, room_id, true, pending_text(action)),
            ..state
        }
    } else {
        state
    }
}

/// The state behind an acknowledged request to create a backup.
pub open spec fn after_enable_ack(
    state: DesktopView,
    recovery_key: Option<Seq<char>>,
    error_code: Option<Seq<char>>,
) -> DesktopView {
    match recovery_key {
        Some(recovery_key) => DesktopView {
            dialog: security_dialog::recovery_key_dialog(recovery_key),
            error: None,
            ..state
        },
        None => match error_code {
            Some(code) => if code == "recovery_already_enabled"@ {
                DesktopView {
                    dialog: security_dialog::text_dialog(
                        SecurityDialogMode::Info,
                        "Identity Backup Status"@,
                        "Identity backup is already enabled on this client. Use \"Check Backup Status\" to inspect current state and existing recovery setup."@,
                    ),
                    error: None,
                    ..state
                }
            } else if code == "recovery_backup_exists"@ {
                DesktopView {
                    dialog: security_dialog::text_dialog(
                        SecurityDialogMode::Info,
                        "Identity Backup Status"@,
                        "A server-side key backup already exists for this account. Use \"Check Backup Status\" to inspect state, then restore secrets with your existing recovery key/passphrase instead of creating a new backup."@,
                    ),
                    error: None,
                    ..state
                }
            } else {
                DesktopView {
                    error: Some("identity backup failed ("@ + code + ")"@),
                    ..state
                }
            },
            None => DesktopView {
                error: Some("identity backup failed (unknown)"@),
                ..state
            },
        },
    }
}

/// The state behind an acknowledged request to restore secrets.
pub open spec fn after_restore_ack(state: DesktopView, error_code: Option<Seq<char>>) -> DesktopView {
    DesktopView {
        dialog: security_dialog::text_dialog(
            SecurityDialogMode::Info,
            "Identity Restore"@,
            match error_code {
                Some(code) => "Identity restore failed. Verify your recovery key or passphrase and try again.\n\nError code: "@
                    + code,
                None => "Recovery secrets were restored successfully. Encrypted history can now be decrypted on this device."@,
            },
        ),
        error: None,
        ..state
    }
}

/// Status line of the sync loop.
pub open spec fn sync_status_text(status: SyncStatus) -> Seq<char> {
    if status.running {
        match status.lag_hint_ms {
            Some(hint) => "Reconnecting (retry in "@ + text::decimal(hint as nat) + " ms)"@,
            None => "Connected"@,
        }
    } else {
        "Disconnected"@
    }
}

/// The state behind one backend event.
pub open spec fn reduce(state: DesktopView, event: BackendEventView) -> DesktopView {
    match event {
        BackendEventView::StateChanged { state: lifecycle } => DesktopView {
            status: label_of(lifecycle),
            ..state
        },
        BackendEventView::AuthResult { success, error_code } => if success {
            DesktopView { status: "Authenticated"@, error: None, ..state }
        } else {
            DesktopView {
                status: "Authentication failed"@,
                error: Some(
                    auth_error(
                        match error_code {
                            Some(code) => code,
                            None => "unknown"@,
                        },
                    ),
                ),
                ..state
            }
        },
        BackendEventView::SyncStatus(status) => DesktopView {
            status: sync_status_text(status),
            ..state
        },
        BackendEventView::RoomListUpdated { rooms } => after_rooms(state, rooms),
        BackendEventView::RoomTimelineSnapshot { room_id, items } => after_timeline(
            state,
            room_id,
            items,
        ),
        BackendEventView::RoomTimelineDelta { room_id, ops } => after_timeline(
            state,
            room_id,
            timeline_rows::apply_delta(timeline_of(state, room_id), ops),
        ),
        BackendEventView::SendAck { client_txn_id, error_code, .. } => after_send_ack(
            state,
            client_txn_id,
            error_code,
        ),
        BackendEventView::InviteActionAck { client_txn_id, room_id, action, error_code } => {
            after_invite_ack(state, client_txn_id, room_id, action, error_code)
        },
        BackendEventView::RecoveryStatus(status) => if state.dialog.mode is Status {
            DesktopView {
                dialog: security_dialog::text_dialog(
                    SecurityDialogMode::Status,
                    "Identity Backup Status"@,
                    recovery_status_text(status),
                ),
                ..state
            }
        } else {
            state
        },
        BackendEventView::RecoveryEnableAck { recovery_key, error_code, .. } => after_enable_ack(
            state,
            recovery_key,
            error_code,
        ),
        BackendEventView::RecoveryRestoreAck { error_code, .. } => after_restore_ack(
            state,
            error_code,
        ),
        BackendEventView::FatalError { code, message, .. } => DesktopView {
            pagination: PaginationView { in_flight: Set::empty(), ..state.pagination },
            status: "Backend error"@,
            error: Some(code + ": "@ + message),
            ..state
        },
        BackendEventView::MediaUploadAck { .. }
        | BackendEventView::MediaDownloadAck { .. }
        | BackendEventView::CryptoStatus(_) => state,
    }
}

/// A state before the first event.
pub open spec fn fresh_state(own_user_id: Seq<char>, max_items: nat) -> DesktopView {
    DesktopView {
        own_user_id,
        max_items: if max_items == 0 { 1 } else { max_items },
        rooms: Seq::empty(),
        selected: None,
        timelines: Map::empty(),
        messages: Seq::empty(),
        status: "Idle"@,
        error: None,
        pending_sends: Set::empty(),
        pending_invites: Map::empty(),
        pending_invite_txns: Map::empty(),
        pagination: PaginationView { in_flight: Set::empty(), last_requested_ms: Map::empty() },
        dialog: security_dialog::dismissed(
            security_dialog::text_dialog(
                SecurityDialogMode::Hidden,
                Seq::empty(),
                Seq::empty(),
            ),
        ),
    }
}

/// What a snapshot shows of a state.
pub open spec fn shows(snapshot: DesktopSnapshot, state: DesktopView) -> bool {
    &&& room_rows(snapshot.rooms@) == state.rooms
    &&& message_rows(snapshot.messages@) == state.messages
    &&& types::opt_chars(snapshot.selected_room_id) == state.selected
    &&& snapshot.selected_room_is_invite == (selected_row(state) matches Some(row)
        && row.membership is Invited)
    &&& types::opt_chars(snapshot.selected_room_invite_pending_text) == match selected_row(
        state,
    ) {
        Some(row) => if row.invite_pending { Some(row.invite_pending_text) } else { None },
        None => None,
    }
    &&& snapshot.status_text@ == state.status
    &&& types::opt_chars(snapshot.error_text) == state.error
    &&& snapshot.can_send == can_send(state)
    &&& snapshot.show_security_dialog == state.dialog.visible
    &&& snapshot.security_dialog_title@ == state.dialog.title
    &&& snapshot.security_dialog_body@ == state.dialog.body
    &&& snapshot.security_show_copy_button == state.dialog.show_copy_button
    &&& snapshot.security_copy_button_text@ == state.dialog.copy_button_text
    &&& snapshot.security_show_restore_input == state.dialog.show_restore_input
    &&& snapshot.security_restore_button_text@ == state.dialog.restore_button_text
    &&& snapshot.security_restore_in_flight == state.dialog.restore_in_flight
}

fn is_that(room_id: &Option<String>, other: &str) -> (yes: bool)
    ensures
        yes == (types::opt_chars(*room_id) == Some(other@)),
{
    match room_id {
        Some(room_id) => *room_id.as_str() == *other,
        None => false,
    }
}

fn make_row(
    room: &RoomSummary,
    selected: &Option<String>,
    pending: &TextMap<InviteAction>,
) -> (row: RoomView)
    ensures
        row@ == row_of(room@, types::opt_chars(*selected), pending@),
{
    let display_name = match &room.name {
        Some(name) => {
            if text::trim(name.as_str()).as_str().is_empty() {
                room.room_id.clone()
            } else {
                name.clone()
            }
        },
        None => room.room_id.clone(),
    };
    let (invite_pending, invite_pending_text) = match pending.get(room.room_id.as_str()) {
        Some(action) => (true, invite_pending_text(*action).to_owned()),
        None => (false, String::new()),
    };
    RoomView {
        room_id: room.room_id.clone(),
        display_name,
        unread_notifications: room.unread_notifications,
        highlight_count: room.highlight_count,
        is_selected: is_that(selected, room.room_id.as_str()),
        membership: room.membership,
        invite_pending,
        invite_pending_text,
    }
}

fn make_rows(
    rooms: &Vec<RoomSummary>,
    invited: bool,
    selected: &Option<String>,
    pending: &TextMap<InviteAction>,
) -> (rows: Vec<RoomView>)
    ensures
        room_rows(rows@) == rows_of(
            types::room_views(rooms@),
            invited,
            types::opt_chars(*selected),
            pending@,
        ),
{
    let ghost views = types::room_views(rooms@);
    let ghost chosen = types::opt_chars(*selected);
    let mut rows: Vec<RoomView> = Vec::new();
    proof {
        assert(views.take(0) =~= Seq::<RoomSummaryView>::empty());
        assert(room_rows(rows@) =~= Seq::<RoomRow>::empty());
    }
    let mut at: usize = 0;
    while at < rooms.len()
        invariant
            at <= rooms@.len(),
            views == types::room_views(rooms@),
            chosen == types::opt_chars(*selected),
            room_rows(rows@) == rows_of(views.take(at as int), invited, chosen, pending@),
        decreases rooms@.len() - at,
    {
        let ghost before = room_rows(rows@);
        proof {
            assert(views.take(at + 1).drop_last() =~= views.take(at as int));
            assert(views.take(at + 1).last() == rooms@[at as int]@);
        }
        let is_invited = match rooms[at].membership {
            RoomMembership::Invited => true,
            RoomMembership::Joined => false,
        };
        if is_invited == invited {
            let row = make_row(&rooms[at], selected, pending);
            rows.push(row);
            proof {
                assert(room_rows(rows@) =~= before.push(row@));
            }
        }
        at += 1;
    }
    proof {
        assert(views.take(at as int) =~= views);
    }
    rows
}

fn find_room(rooms: &Vec<RoomView>, room_id: &str) -> (found: Option<usize>)
    ensures
        match found {
            Some(index) => index < rooms@.len() && room_index(room_rows(rooms@), room_id@) == Some(
                index as int,
            ),
            None => room_index(room_rows(rooms@), room_id@) is None,
        },
        found is Some <==> lists_room(room_rows(rooms@), room_id@),
{
    let ghost rows = room_rows(rooms@);
    proof {
        lemma_room_index(rows, room_id@);
    }
    let mut at: usize = 0;
    while at < rooms.len()
        invariant
            at <= rooms@.len(),
            rows == room_rows(rooms@),
            forall|i: int| 0 <= i < at ==> (#[trigger] rows[i]).room_id != room_id@,
            match room_index(rows, room_id@) {
                Some(index) => {
                    &&& 0 <= index < rows.len()
                    &&& rows[index].room_id == room_id@
                    &&& forall|i: int| 0 <= i < index ==> (#[trigger] rows[i]).room_id != room_id@
                },
                None => !lists_room(rows, room_id@),
            },
        decreases rooms@.len() - at,
    {
        proof {
            assert(rows[at as int] == rooms@[at as int]@);
        }
        if *rooms[at].room_id.as_str() == *room_id {
            return Some(at);
        }
        at += 1;
    }
    None
}

fn clone_rooms(rooms: &Vec<RoomView>) -> (copy: Vec<RoomView>)
    ensures
        room_rows(copy@) == room_rows(rooms@),
{
    let mut copy: Vec<RoomView> = Vec::new();
    let mut at: usize = 0;
    while at < rooms.len()
        invariant
            at <= rooms@.len(),
            copy@.len() == at,
            forall|i: int| 0 <= i < at ==> (#[trigger] copy@[i])@ == rooms@[i]@,
        decreases rooms@.len() - at,
    {
        copy.push(rooms[at].clone());
        at += 1;
    }
    proof {
        assert(room_rows(copy@) =~= room_rows(rooms@));
    }
    copy
}

fn clone_messages(messages: &Vec<MessageView>) -> (copy: Vec<MessageView>)
    ensures
        message_rows(copy@) == message_rows(messages@),
{
    let mut copy: Vec<MessageView> = Vec::new();
    let mut at: usize = 0;
    while at < messages.len()
        invariant
            at <= messages@.len(),
            copy@.len() == at,
            forall|i: int| 0 <= i < at ==> (#[trigger] copy@[i])@ == messages@[i]@,
        decreases messages@.len() - at,
    {
        copy.push(messages[at].clone());
        at += 1;
    }
    proof {
        assert(message_rows(copy@) =~= message_rows(messages@));
    }
    copy
}

fn make_messages(items: &Vec<TimelineItem>, own_user_id: &str) -> (messages: Vec<MessageView>)
    ensures
        message_rows(messages@) == types::item_views(items@).map_values(
            |item: TimelineItemView| message_of(item, own_user_id@),
        ),
{
    let mut messages: Vec<MessageView> = Vec::new();
    let mut at: usize = 0;
    while at < items.len()
        invariant
            at <= items@.len(),
            messages@.len() == at,
            forall|i: int|
                0 <= i < at ==> (#[trigger] messages@[i])@ == message_of(
                    items@[i]@,
                    own_user_id@,
                ),
        decreases items@.len() - at,
    {
        let item = &items[at];
        messages.push(
            MessageView {
                event_id: types::clone_opt_string(&item.event_id),
                sender: item.sender.clone(),
                body: item.body.clone(),
                is_own: *item.sender.as_str() == *own_user_id,
            },
        );
        at += 1;
    }
    proof {
        assert(message_rows(messages@) =~= types::item_views(items@).map_values(
            |item: TimelineItemView| message_of(item, own_user_id@),
        ));
    }
    messages
}

fn mark_selected(rooms: &mut Vec<RoomView>, room_id: &str)
    ensures
        room_rows(final(rooms)@) == with_selection(room_rows(old(rooms)@), room_id@),
{
    let mut at: usize = 0;
    while at < rooms.len()
        invariant
            at <= rooms@.len(),
            rooms@.len() == old(rooms)@.len(),
            forall|i: int|
                0 <= i < at ==> (#[trigger] rooms@[i])@ == (RoomRow {
                    is_selected: old(rooms)@[i]@.room_id == room_id@,
                    ..old(rooms)@[i]@
                }),
            forall|i: int| at <= i < rooms@.len() ==> (#[trigger] rooms@[i]) == old(rooms)@[i],
        decreases rooms@.len() - at,
    {
        let is_selected = *rooms[at].room_id.as_str() == *room_id;
        rooms[at].is_selected = is_selected;
        at += 1;
    }
    proof {
        assert(room_rows(rooms@) =~= with_selection(room_rows(old(rooms)@), room_id@));
    }
}

fn note_invite(rooms: &mut Vec<RoomView>, room_id: &str, pending: bool, note: &str)
    ensures
        room_rows(final(rooms)@) == with_invite_note(
            room_rows(old(rooms)@),
            room_id@,
            pending,
            note@,
        ),
{
    match find_room(rooms, room_id) {
        Some(index) => {
            rooms[index].invite_pending = pending;
            rooms[index].invite_pending_text = note.to_owned();
            proof {
                assert(room_rows(rooms@) =~= with_invite_note(
                    room_rows(old(rooms)@),
                    room_id@,
                    pending,
                    note@,
                ));
            }
        },
        None => {},
    }
}

fn keep_listed(pending: &TextMap<InviteAction>, rooms: &Vec<RoomView>) -> (kept: TextMap<
    InviteAction,
>)
    ensures
        kept@ == pending@.restrict(
            Set::new(|room_id: Seq<char>| lists_room(room_rows(rooms@), room_id)),
        ),
{
    let ghost rows = room_rows(rooms@);
    let keys = pending.keys();
    let ghost order = pending.spec_keys();
    let mut kept: TextMap<InviteAction> = TextMap::new();
    let mut at: usize = 0;
    while at < keys.len()
        invariant
            at <= keys@.len(),
            keys@.len() == order.len(),
            order == pending.spec_keys(),
            rows == room_rows(rooms@),
            forall|i: int| 0 <= i < keys@.len() ==> (#[trigger] keys@[i])@ == order[i],
            forall|key: Seq<char>| #[trigger]
                kept@.dom().contains(key) <==> order.take(at as int).contains(key) && lists_room(
                    rows,
                    key,
                ),
            forall|key: Seq<char>| #[trigger]
                kept@.dom().contains(key) ==> pending@.dom().contains(key) && kept@[key]
                    == pending@[key],
        decreases keys@.len() - at,
    {
        let ghost before = kept@;
        let ghost key = keys@[at as int]@;
        proof {
            lemma_take_contains(order, at as int);
        }
        let action = *pending.value_at(at);
        if find_room(rooms, keys[at].as_str()).is_some() {
            kept.insert(keys[at].clone(), action);
        }
        at += 1;
    }
    proof {
        assert(order.take(at as int) =~= order);
        assert(kept@ =~= pending@.restrict(
            Set::new(|room_id: Seq<char>| lists_room(rows, room_id)),
        ));
    }
    kept
}

proof fn lemma_take_contains(order: Seq<Seq<char>>, at: int)
    requires
        0 <= at < order.len(),
    ensures
        forall|key: Seq<char>| #[trigger]
            order.take(at + 1).contains(key) <==> order.take(at).contains(key) || key
                == order[at],
{
    assert forall|key: Seq<char>| #[trigger] order.take(at + 1).contains(key) <==> order.take(
        at,
    ).contains(key) || key == order[at] by {
        if order.take(at + 1).contains(key) {
            let i = order.take(at + 1).index_of(key);
            if i < at {
                assert(order.take(at)[i] == key);
            }
        }
        if order.take(at).contains(key) {
            let i = order.take(at).index_of(key);
            assert(order.take(at + 1)[i] == key);
        }
        if key == order[at] {
            assert(order.take(at + 1)[at] == key);
        }
    }
}

spec fn txn_rooms(txns: TextMap<String>) -> Map<Seq<char>, Seq<char>> {
    txns@.map_values(|room_id: String| room_id@)
}

fn keep_pending(txns: &TextMap<String>, pending: &TextMap<InviteAction>) -> (kept: TextMap<String>)
    ensures
        txn_rooms(kept) == txn_rooms(*txns).restrict(
            Set::new(
                |txn: Seq<char>|
                    txn_rooms(*txns).dom().contains(txn) && pending@.dom().contains(
                        txn_rooms(*txns)[txn],
                    ),
            ),
        ),
{
    let keys = txns.keys();
    let ghost order = txns.spec_keys();
    let mut kept: TextMap<String> = TextMap::new();
    let mut at: usize = 0;
    while at < keys.len()
        invariant
            at <= keys@.len(),
            keys@.len() == order.len(),
            order == txns.spec_keys(),
            forall|i: int| 0 <= i < keys@.len() ==> (#[trigger] keys@[i])@ == order[i],
            forall|key: Seq<char>|
                order.contains(key) ==> #[trigger] txns@.dom().contains(key),
            forall|key: Seq<char>| #[trigger]
                kept@.dom().contains(key) <==> order.take(at as int).contains(key)
                    && pending@.dom().contains(txns@[key]@),
            forall|key: Seq<char>| #[trigger]
                kept@.dom().contains(key) ==> txns@.dom().contains(key) && kept@[key]
                    == txns@[key],
        decreases keys@.len() - at,
    {
        proof {
            lemma_take_contains(order, at as int);
        }
        let room_id = txns.value_at(at);
        if pending.contains_key(room_id.as_str()) {
            kept.insert(keys[at].clone(), room_id.clone());
        }
        at += 1;
    }
    proof {
        assert(order.take(at as int) =~= order);
        assert(txn_rooms(kept) =~= txn_rooms(*txns).restrict(
            Set::new(
                |txn: Seq<char>|
                    txn_rooms(*txns).dom().contains(txn) && pending@.dom().contains(
                        txn_rooms(*txns)[txn],
                    ),
            ),
        ));
    }
    kept
}

impl DesktopState {
    /// Create a new reducer state.
    pub fn new(own_user_id: &str, timeline_max_items: usize) -> (state: Self)
        ensures
            state@ == fresh_state(own_user_id@, timeline_max_items as nat),
    {
        let state = DesktopState {
            own_user_id: own_user_id.to_owned(),
            timeline_max_items: if timeline_max_items == 0 { 1 } else { timeline_max_items },
            rooms: Vec::new(),
            selected_room_id: None,
            timelines: TextMap::new(),
            messages: Vec::new(),
            status_text: "Idle".to_owned(),
            error_text: None,
            pending_sends: TextMap::new(),
            pending_invite_actions: TextMap::new(),
            pending_invite_actions_by_txn: TextMap::new(),
            pagination: PaginationTracker::new(),
            dialog: SecurityDialog::new(),
        };
        proof {
            assert(state@ =~= fresh_state(own_user_id@, timeline_max_items as nat));
        }
        state
    }

    /// Current immutable snapshot for UI rendering.
    pub fn snapshot(&self) -> (snapshot: DesktopSnapshot)
        ensures
            shows(snapshot, self@),
    {
        let (is_invite, pending_text) = match self.selected_room() {
            Some(room) => (
                match room.membership {
                    RoomMembership::Invited => true,
                    RoomMembership::Joined => false,
                },
                if room.invite_pending {
                    Some(room.invite_pending_text.clone())
                } else {
                    None
                },
            ),
            None => (false, None),
        };
        DesktopSnapshot {
            rooms: clone_rooms(&self.rooms),
            messages: clone_messages(&self.messages),
            selected_room_id: types::clone_opt_string(&self.selected_room_id),
            selected_room_is_invite: is_invite,
            selected_room_invite_pending_text: pending_text,
            status_text: self.status_text.clone(),
            error_text: types::clone_opt_string(&self.error_text),
            can_send: self.can_send_message(),
            show_security_dialog: self.dialog.visible(),
            security_dialog_title: self.dialog.title(),
            security_dialog_body: self.dialog.body(),
            security_show_copy_button: self.dialog.show_copy_button(),
            security_copy_button_text: self.dialog.copy_button_text(),
            security_show_restore_input: self.dialog.show_restore_input(),
            security_restore_button_text: self.dialog.restore_button_text(),
            security_restore_in_flight: self.dialog.restore_in_flight(),
        }
    }

    /// Set top-level fatal/auth/runtime error.
    pub fn set_error_text(&mut self, text: &str)
        ensures
            final(self)@ == (DesktopView { error: Some(text@), ..old(self)@ }),
    {
        self.error_text = Some(text.to_owned());
    }

    /// Clears the top-level error message.
    pub fn clear_error(&mut self)
        ensures
            final(self)@ == (DesktopView { error: None, ..old(self)@ }),
    {
        self.error_text = None;
    }

    /// Show a modal-style security dialog in the UI.
    pub fn show_security_dialog(&mut self, title: &str, body: &str)
        ensures
            final(self)@ == (DesktopView {
                dialog: security_dialog::text_dialog(SecurityDialogMode::Info, title@, body@),
                ..old(self)@
            }),
    {
        self.dialog.show(SecurityDialogMode::Info, title, body);
    }

    /// Show a status-check dialog.
    pub fn show_security_status_dialog(&mut self, body: &str)
        ensures
            final(self)@ == (DesktopView {
                dialog: security_dialog::text_dialog(
                    SecurityDialogMode::Status,
                    "Identity Backup Status"@,
                    body@,
                ),
                ..old(self)@
            }),
    {
        self.dialog.show(SecurityDialogMode::Status, "Identity Backup Status", body);
    }

    /// Show a backup creation progress dialog.
    pub fn show_security_creating_dialog(&mut self, body: &str)
        ensures
            final(self)@ == (DesktopView {
                dialog: security_dialog::text_dialog(
                    SecurityDialogMode::Creating,
                    "Creating Identity Backup"@,
                    body@,
                ),
                ..old(self)@
            }),
    {
        self.dialog.show(SecurityDialogMode::Creating, "Creating Identity Backup", body);
    }

    /// Show restore prompt dialog with input controls visible.
    pub fn show_security_restore_prompt_dialog(&mut self, title: &str, body: &str)
        ensures
            final(self)@ == (DesktopView {
                dialog: security_dialog::restore_dialog(title@, body@),
                ..old(self)@
            }),
    {
        self.dialog.show_restore_prompt(title, body);
    }

    /// Mark restore request as in flight in the dialog.
    ///
    /// Returns `true` if restore was transitioned into in-flight mode,
    /// or `false` if a restore request is already running.
    pub fn begin_restore_request(&mut self) -> (begun: bool)
        ensures
            begun == !old(self)@.dialog.restore_in_flight,
            final(self)@ == (DesktopView {
                dialog: security_dialog::restoring(old(self)@.dialog),
                ..old(self)@
            }),
    {
        self.dialog.begin_restore()
    }

    /// Hide the security dialog in the UI.
    pub fn dismiss_security_dialog(&mut self)
        ensures
            final(self)@ == (DesktopView {
                dialog: security_dialog::dismissed(old(self)@.dialog),
                ..old(self)@
            }),
    {
        self.dialog.dismiss();
    }

    /// Returns the currently visible recovery key (if one is shown in the dialog).
    pub fn recovery_key_for_copy(&self) -> (recovery_key: Option<String>)
        ensures
            types::opt_chars(recovery_key) == self@.dialog.recovery_key,
    {
        self.dialog.recovery_key()
    }

    /// Mark the recovery key copy action as successful.
    pub fn mark_recovery_key_copied(&mut self)
        ensures
            final(self)@ == (DesktopView {
                dialog: security_dialog::copied(old(self)@.dialog),
                ..old(self)@
            }),
    {
        self.dialog.mark_copied();
    }

    /// Return selected room ID, when present.
    pub fn selected_room_id(&self) -> (room_id: Option<&str>)
        ensures
            match room_id {
                Some(room_id) => self@.selected == Some(room_id@),
                None => self@.selected is None,
            },
    {
        match &self.selected_room_id {
            Some(room_id) => Some(room_id.as_str()),
            None => None,
        }
    }

    /// Returns `true` when the selected room can accept outgoing messages.
    pub fn can_send_message(&self) -> (yes: bool)
        ensures
            yes == can_send(self@),
    {
        match self.selected_room() {
            Some(room) => match room.membership {
                RoomMembership::Joined => true,
                RoomMembership::Invited => false,
            },
            None => false,
        }
    }

    /// Returns `true` when the room exists and is currently an invite.
    pub fn is_invite_room(&self, room_id: &str) -> (yes: bool)
        ensures
            yes == is_invite(self@, room_id@),
    {
        match find_room(&self.rooms, room_id) {
            Some(index) => match self.rooms[index].membership {
                RoomMembership::Invited => true,
                RoomMembership::Joined => false,
            },
            None => false,
        }
    }

    /// Returns `true` when an invite action is currently pending for this room.
    pub fn has_pending_invite_action(&self, room_id: &str) -> (yes: bool)
        ensures
            yes == self@.pending_invites.dom().contains(room_id@),
    {
        self.pending_invite_actions.contains_key(room_id)
    }

    /// Update room list while preserving backend ordering.
    pub fn replace_rooms(&mut self, rooms: Vec<RoomSummary>)
        ensures
            final(self)@ == after_rooms(old(self)@, types::room_views(rooms@)),
    {
        let ghost before = self@;
        let mut invited = make_rows(
            &rooms,
            true,
            &self.selected_room_id,
            &self.pending_invite_actions,
        );
        let mut others = make_rows(
            &rooms,
            false,
            &self.selected_room_id,
            &self.pending_invite_actions,
        );
        let ghost first = invited@;
        let ghost second = others@;
        invited.append(&mut others);
        proof {
            assert(room_rows(invited@) =~= room_rows(first) + room_rows(second));
        }
        self.rooms = invited;
        self.pending_invite_actions = keep_listed(&self.pending_invite_actions, &self.rooms);
        self.pending_invite_actions_by_txn =
            keep_pending(&self.pending_invite_actions_by_txn, &self.pending_invite_actions);
        let gone = match &self.selected_room_id {
            Some(room_id) => find_room(&self.rooms, room_id.as_str()).is_none(),
            None => false,
        };
        if gone {
            self.selected_room_id = None;
            self.messages = Vec::new();
            proof {
                assert(message_rows(self.messages@) =~= Seq::<MessageRow>::empty());
            }
        }
        proof {
            assert(self@ =~= after_rooms(before, types::room_views(rooms@)));
        }
    }

    /// Mark invite action request as pending for room + transaction id.
    pub fn mark_invite_action_requested(
        &mut self,
        room_id: String,
        client_txn_id: String,
        action: InviteAction,
    ) -> (marked: bool)
        ensures
            marked == (is_invite(old(self)@, room_id@) && !old(
                self,
            )@.pending_invites.dom().contains(room_id@)),
            final(self)@ == after_invite_request(
                old(self)@,
                room_id@,
                client_txn_id@,
                action,
            ),
    {
        let ghost before = self@;
        if !self.is_invite_room(room_id.as_str()) || self.has_pending_invite_action(
            room_id.as_str(),
        ) {
            return false;
        }
        self.pending_invite_actions.insert(room_id.clone(), action);
        note_invite(&mut self.rooms, room_id.as_str(), true, invite_pending_text(action));
        self.pending_invite_actions_by_txn.insert(client_txn_id, room_id);
        proof {
            assert(self@.pending_invite_txns =~= before.pending_invite_txns.insert(
                client_txn_id@,
                room_id@,
            ));
        }
        true
    }

    /// Select room by sidebar index and return selected room ID.
    pub fn select_room_by_index(&mut self, index: usize) -> (room_id: Option<String>)
        ensures
            if index < old(self)@.rooms.len() {
                let chosen = old(self)@.rooms[index as int].room_id;
                types::opt_chars(room_id) == Some(chosen) && final(self)@ == after_select(
                    old(self)@,
                    chosen,
                )
            } else {
                room_id is None && final(self)@ == old(self)@
            },
    {
        if index >= self.rooms.len() {
            return None;
        }
        let room_id = self.rooms[index].room_id.clone();
        self.select_room(room_id.clone());
        Some(room_id)
    }

    /// Select room by ID.
    pub fn select_room(&mut self, room_id: String)
        ensures
            final(self)@ == after_select(old(self)@, room_id@),
    {
        mark_selected(&mut self.rooms, room_id.as_str());
        self.selected_room_id = Some(room_id);
        self.rebuild_visible_messages();
    }

    fn selected_room(&self) -> (room: Option<&RoomView>)
        ensures
            match room {
                Some(room) => selected_row(self@) == Some(room@),
                None => selected_row(self@) is None,
            },
    {
        match &self.selected_room_id {
            Some(room_id) => match find_room(&self.rooms, room_id.as_str()) {
                Some(index) => Some(&self.rooms[index]),
                None => None,
            },
            None => None,
        }
    }

    /// Mark a send as pending using its client transaction ID.
    pub fn mark_send_requested(&mut self, client_txn_id: String)
        ensures
            final(self)@ == (DesktopView {
                pending_sends: old(self)@.pending_sends.insert(client_txn_id@),
                ..old(self)@
            }),
    {
        let ghost before = self@;
        self.pending_sends.insert(client_txn_id, ());
        proof {
            assert(self@.pending_sends =~= before.pending_sends.insert(client_txn_id@));
        }
    }

    /// Handle send acknowledgement from backend.
    pub fn handle_send_ack(&mut self, ack: SendAck)
        ensures
            final(self)@ == after_send_ack(
                old(self)@,
                ack.client_txn_id@,
                types::opt_chars(ack.error_code),
            ),
    {
        let ghost before = self@;
        let _known = self.pending_sends.remove(ack.client_txn_id.as_str());
        proof {
            assert(self@.pending_sends =~= before.pending_sends.remove(ack.client_txn_id@));
        }
        match ack.error_code {
            Some(code) => {
                let mut line: String = "send failed (".to_owned();
                line.append(code.as_str());
                line.append(")");
                self.error_text = Some(line);
            },
            None => self.clear_error(),
        }
    }

    /// Handle invite action acknowledgement from backend.
    pub fn handle_invite_action_ack(&mut self, ack: InviteActionAck)
        ensures
            final(self)@ == after_invite_ack(
                old(self)@,
                ack.client_txn_id@,
                ack.room_id@,
                ack.action,
                types::opt_chars(ack.error_code),
            ),
    {
        let ghost before = self@;
        let room_id = match self.pending_invite_actions_by_txn.remove(ack.client_txn_id.as_str()) {
            Some(room_id) => room_id,
            None => ack.room_id,
        };
        proof {
            assert(self@.pending_invite_txns =~= before.pending_invite_txns.remove(
                ack.client_txn_id@,
            ));
        }
        let _action = self.pending_invite_actions.remove(room_id.as_str());
        note_invite(&mut self.rooms, room_id.as_str(), false, "");
        proof {
            reveal_strlit("");
            assert(""@ =~= Seq::<char>::empty());
        }
        match ack.error_code {
            Some(code) => {
                let mut line: String = "invite ".to_owned();
                line.append(
                    match ack.action {
                        InviteAction::Accept => "accept",
                        InviteAction::Reject => "reject",
                    },
                );
                line.append(" failed (");
                line.append(code.as_str());
                line.append(")");
                self.error_text = Some(line);
            },
            None => self.clear_error(),
        }
    }

    /// Feed one backend event into the reducer.
    pub fn handle_backend_event(&mut self, event: BackendEvent)
        ensures
            final(self)@ == reduce(old(self)@, event@),
    {
        match event {
            BackendEvent::StateChanged { state } => {
                self.status_text = lifecycle_label(state).to_owned();
            },
            BackendEvent::AuthResult { success, error_code } => {
                if success {
                    self.status_text = "Authenticated".to_owned();
                    self.clear_error();
                } else {
                    let code = match error_code {
                        Some(code) => code,
                        None => "unknown".to_owned(),
                    };
                    self.status_text = "Authentication failed".to_owned();
                    self.error_text = Some(auth_error_text(code.as_str()));
                }
            },
            BackendEvent::SyncStatus(status) => {
                self.status_text = if status.running {
                    match status.lag_hint_ms {
                        Some(hint) => {
                            let mut line: String = "Reconnecting (retry in ".to_owned();
                            line.append(text::decimal_string(hint).as_str());
                            line.append(" ms)");
                            line
                        },
                        None => "Connected".to_owned(),
                    }
                } else {
                    "Disconnected".to_owned()
                };
            },
            BackendEvent::RoomListUpdated { rooms } => {
                self.replace_rooms(rooms);
            },
            BackendEvent::RoomTimelineSnapshot { room_id, items } => {
                self.set_timeline(room_id, items);
            },
            BackendEvent::RoomTimelineDelta { room_id, ops } => {
                self.apply_delta(room_id, ops.as_slice());
            },
            BackendEvent::SendAck(ack) => {
                self.handle_send_ack(ack);
            },
            BackendEvent::InviteActionAck(ack) => {
                self.handle_invite_action_ack(ack);
            },
            BackendEvent::RecoveryStatus(status) => {
                // A status that trails a freshly shown recovery key must not replace it.
                if self.dialog.mode() == SecurityDialogMode::Status {
                    let body = format_recovery_status(&status);
                    self.show_security_status_dialog(body.as_str());
                }
            },
            BackendEvent::RecoveryEnableAck(ack) => {
                self.handle_enable_ack(ack.recovery_key, ack.error_code);
            },
            BackendEvent::RecoveryRestoreAck(ack) => {
                self.handle_restore_ack(ack.error_code);
            },
            BackendEvent::FatalError { code, message, .. } => {
                self.pagination.clear_in_flight();
                self.status_text = "Backend error".to_owned();
                let mut line = code;
                line.append(": ");
                line.append(message.as_str());
                self.error_text = Some(line);
            },
            BackendEvent::MediaUploadAck(_)
            | BackendEvent::MediaDownloadAck(_)
            | BackendEvent::CryptoStatus(_) => {},
        }
    }

    fn set_timeline(&mut self, room_id: String, items: Vec<TimelineItem>)
        ensures
            final(self)@ == after_timeline(old(self)@, room_id@, types::item_views(items@)),
    {
        let ghost before = self@;
        self.pagination.mark_complete(room_id.as_str());
        let selected = is_that(&self.selected_room_id, room_id.as_str());
        self.timelines.insert(
            room_id,
            timeline_rows::dedupe_and_trim(items, self.timeline_max_items),
        );
        proof {
            assert(self@.timelines =~= before.timelines.insert(
                room_id@,
                timeline_rows::deduped(types::item_views(items@), before.max_items),
            ));
        }
        if selected {
            self.rebuild_visible_messages();
        }
    }

    fn apply_delta(&mut self, room_id: String, ops: &[TimelineOp])
        ensures
            final(self)@ == after_timeline(
                old(self)@,
                room_id@,
                timeline_rows::apply_delta(
                    timeline_of(old(self)@, room_id@),
                    types::op_views(ops@),
                ),
            ),
    {
        let ghost before = self@;
        let mut items = match self.timelines.remove(room_id.as_str()) {
            Some(items) => items,
            None => {
                let empty: Vec<TimelineItem> = Vec::new();
                proof {
                    assert(types::item_views(empty@) =~= Seq::<TimelineItemView>::empty());
                }
                empty
            },
        };
        proof {
            assert(types::item_views(items@) == timeline_of(before, room_id@));
            assert(self@.timelines =~= before.timelines.remove(room_id@));
        }
        timeline_rows::apply_delta_lenient(&mut items, ops);
        self.set_timeline(room_id, items);
        proof {
            let deduped = timeline_rows::deduped(types::item_views(items@), before.max_items);
            assert(before.timelines.remove(room_id@).insert(room_id@, deduped)
                =~= before.timelines.insert(room_id@, deduped));
        }
    }

    fn handle_enable_ack(&mut self, recovery_key: Option<String>, error_code: Option<String>)
        ensures
            final(self)@ == after_enable_ack(
                old(self)@,
                types::opt_chars(recovery_key),
                types::opt_chars(error_code),
            ),
    {
        match recovery_key {
            Some(recovery_key) => {
                self.dialog.show_recovery_key(recovery_key);
                self.clear_error();
            },
            None => match error_code {
                Some(code) => {
                    if *code.as_str() == *"recovery_already_enabled" {
                        self.show_security_dialog(
                            "Identity Backup Status",
                            "Identity backup is already enabled on this client. Use \"Check Backup Status\" to inspect current state and existing recovery setup.",
                        );
                        self.clear_error();
                    } else if *code.as_str() == *"recovery_backup_exists" {
                        self.show_security_dialog(
                            "Identity Backup Status",
                            "A server-side key backup already exists for this account. Use \"Check Backup Status\" to inspect state, then restore secrets with your existing recovery key/passphrase instead of creating a new backup.",
                        );
                        self.clear_error();
                    } else {
                        let mut line: String = "identity backup failed (".to_owned();
                        line.append(code.as_str());
                        line.append(")");
                        self.error_text = Some(line);
                    }
                },
                None => {
                    self.error_text = Some("identity backup failed (unknown)".to_owned());
                },
            },
        }
    }

    fn handle_restore_ack(&mut self, error_code: Option<String>)
        ensures
            final(self)@ == after_restore_ack(old(self)@, types::opt_chars(error_code)),
    {
        match error_code {
            Some(code) => {
                let mut body: String =
                    "Identity restore failed. Verify your recovery key or passphrase and try again.\n\nError code: ".to_owned();
                body.append(code.as_str());
                self.show_security_dialog("Identity Restore", body.as_str());
            },
            None => {
                self.show_security_dialog(
                    "Identity Restore",
                    "Recovery secrets were restored successfully. Encrypted history can now be decrypted on this device.",
                );
            },
        }
        self.clear_error();
    }

    /// Returns pagination target room and limit and marks the request as in flight if trigger
    /// conditions match; `near_top` says whether the view is near the top of the timeline.
    pub fn request_pagination_if_needed(
        &mut self,
        near_top: bool,
        now_ms: u64,
        cooldown_ms: u64,
        limit: u16,
    ) -> (request: Option<(String, u16)>)
        ensures
            match old(self)@.selected {
                Some(room_id) => if pagination::wants_page(
                    old(self)@.pagination,
                    room_id,
                    near_top,
                    now_ms,
                    cooldown_ms,
                ) {
                    &&& request matches Some((room, asked))
                    &&& room@ == room_id
                    &&& asked == if limit == 0 { 1 } else { limit }
                    &&& final(self)@ == (DesktopView {
                        pagination: pagination::after_request(
                            old(self)@.pagination,
                            room_id,
                            now_ms,
                        ),
                        ..old(self)@
                    })
                } else {
                    request is None && final(self)@ == old(self)@
                },
                None => request is None && final(self)@ == old(self)@,
            },
    {
        let room_id = match &self.selected_room_id {
            Some(room_id) => room_id.clone(),
            None => return None,
        };
        if self.pagination.should_request(room_id.as_str(), near_top, now_ms, cooldown_ms) {
            self.pagination.mark_requested(room_id.clone(), now_ms);
            Some((room_id, if limit == 0 { 1 } else { limit }))
        } else {
            None
        }
    }

    fn rebuild_visible_messages(&mut self)
        ensures
            final(self)@ == (DesktopView {
                messages: visible_messages(
                    old(self)@.selected,
                    old(self)@.timelines,
                    old(self)@.own_user_id,
                ),
                ..old(self)@
            }),
    {
        let messages = match &self.selected_room_id {
            Some(room_id) => match self.timelines.get(room_id.as_str()) {
                Some(items) => make_messages(items, self.own_user_id.as_str()),
                None => Vec::new(),
            },
            None => Vec::new(),
        };
        proof {
            assert(message_rows(messages@) =~= visible_messages(
                self@.selected,
                self@.timelines,
                self@.own_user_id,
            ));
        }
        self.messages = messages;
    }
}

} // verus!
