//! What the user's actions and the backend's events lead to.
use vstd::prelude::*;

use super::bridge::{self, AuthReaction, BridgeTurn, DesktopBridge, LoginView, SessionConfig};
use super::pagination;
use super::state;
use crate::backend_core::types::{BackendCommand, BackendEvent};
use crate::text;

verus! {

/// A session starts by opening its account and restoring its session; it first shows nothing,
/// and has asked for no login.
pub proof fn lemma_session_starts_with_a_restore(
    config: SessionConfig,
    started: (DesktopBridge, BridgeTurn),
)
    requires
        call_ensures(DesktopBridge::start, (config,), started),
    ensures
        started.1.commands@.len() == 2,
        started.1.commands@[0] is Init,
        started.1.commands@[0]->homeserver@ == config.homeserver@,
        started.1.commands@[0]->data_dir@ == config.data_dir@,
        started.1.commands@[1] is RestoreSession,
        started.1.snapshot is Some,
        started.1.snapshot->0.rooms@.len() == 0,
        started.1.snapshot->0.messages@.len() == 0,
        !started.1.snapshot->0.can_send,
        started.0@.login == (LoginView {
            user_id: config.user_id@,
            password: config.password@,
            persist: config.remember_password,
        }),
        started.0@.auth.phase is RestoringSession,
        !started.0@.auth.post_auth_enqueued,
        config.paginate_limit > 0 ==> started.0@.paginate_limit == config.paginate_limit,
        started.0@.cooldown_ms == config.pagination_cooldown_ms,
{
    let shown = started.1.snapshot->0;
    assert(state::room_rows(shown.rooms@).len() == shown.rooms@.len());
    assert(state::message_rows(shown.messages@).len() == shown.messages@.len());
}

/// A restore that fails is followed by the password login, with the credentials of the session;
/// the first success by sync and the room list; a login that fails by nothing, and so is
/// everything after a success.
pub proof fn lemma_authentication_is_followed_up(login: LoginView)
    ensures
        ({
            let start = bridge::first_flow();
            let failed = bridge::auth_next(start, false);
            let succeeded = bridge::auth_next(start, true);
            &&& bridge::auth_reaction(start, true) is PostAuth
            &&& bridge::auth_reaction(start, false) is Login
            &&& bridge::auth_reaction(failed, true) is PostAuth
            &&& bridge::auth_reaction(failed, false) is Nothing
            &&& bridge::auth_reaction(bridge::auth_next(failed, false), true) is PostAuth
            &&& bridge::auth_reaction(bridge::auth_next(failed, false), false) is Nothing
            &&& bridge::auth_reaction(succeeded, true) is Nothing
            &&& bridge::auth_reaction(succeeded, false) is Nothing
            &&& bridge::auth_reaction(bridge::auth_next(failed, true), false) is Nothing
        }),
        forall|commands: Seq<BackendCommand>|
            #[trigger] bridge::carries_out(commands, AuthReaction::PostAuth, login) ==> {
                &&& commands.len() == 2
                &&& commands[0] is StartSync
                &&& commands[1] is ListRooms
            },
        forall|commands: Seq<BackendCommand>|
            #[trigger] bridge::carries_out(commands, AuthReaction::Login, login) ==> {
                &&& commands.len() == 1
                &&& commands[0] is LoginPassword
                &&& commands[0]->user_id_or_localpart@ == login.user_id
                &&& commands[0]->password@ == login.password
                &&& commands[0]->persist_session == login.persist
            },
        forall|commands: Seq<BackendCommand>|
            #[trigger] bridge::carries_out(commands, AuthReaction::Nothing, login)
                ==> commands.len() == 0,
{
}

/// Every event is shown at once; only an authentication result leads to commands.
pub proof fn lemma_events_are_shown_at_once()
    ensures
        forall|bridge: &mut DesktopBridge, event: BackendEvent, turn: BridgeTurn|
            #[trigger] call_ensures(DesktopBridge::on_event, (bridge, event), turn) ==> {
                &&& turn.snapshot is Some
                &&& state::shows(turn.snapshot->0, final(bridge)@.state)
                &&& final(bridge)@.state == state::reduce((*bridge)@.state, event@)
                &&& !(event is AuthResult) ==> turn.commands@.len() == 0
                &&& event is AuthResult ==> bridge::carries_out(
                    turn.commands@,
                    bridge::auth_reaction((*bridge)@.auth, event->success),
                    (*bridge)@.login,
                )
                &&& final(bridge)@.next_txn_id == (*bridge)@.next_txn_id
            },
{
}

/// Selecting a row opens its room and shows it as selected; an index without a row opens none.
pub proof fn lemma_selected_row_is_opened()
    ensures
        forall|bridge: &mut DesktopBridge, index: i32, turn: BridgeTurn|
            #[trigger] call_ensures(DesktopBridge::select_room_by_index, (bridge, index), turn)
                ==> {
                let rooms = (*bridge)@.state.rooms;
                &&& 0 <= index < rooms.len() ==> {
                    &&& turn.commands@.len() == 1
                    &&& turn.commands@[0] is OpenRoom
                    &&& turn.commands@[0]->OpenRoom_room_id@ == rooms[index as int].room_id
                    &&& final(bridge)@.state.selected == Some(rooms[index as int].room_id)
                    &&& turn.snapshot is Some
                    &&& state::shows(turn.snapshot->0, final(bridge)@.state)
                }
                &&& !(0 <= index < rooms.len()) ==> {
                    &&& turn.commands@.len() == 0
                    &&& final(bridge)@ == (*bridge)@
                }
            },
{
}

/// Text that is not blank is sent to the selected room, without white space at its ends, under
/// a transaction ID of its own that is then on its way. Without a selection the user is told to
/// select a room; blank text does nothing.
pub proof fn lemma_text_is_sent_to_selected_room()
    ensures
        forall|bridge: &mut DesktopBridge, body: &str, turn: BridgeTurn|
            #[trigger] call_ensures(DesktopBridge::send_message, (bridge, body), turn) ==> {
                let blank = text::trimmed(body@).len() == 0;
                let before = (*bridge)@;
                let after = final(bridge)@;
                &&& blank ==> turn.commands@.len() == 0 && turn.snapshot is None && after
                    == before
                &&& !blank && before.state.selected is None ==> {
                    &&& turn.commands@.len() == 0
                    &&& after.state.error == Some("Select a room before sending messages."@)
                    &&& after.state.pending_sends == before.state.pending_sends
                    &&& turn.snapshot is Some
                }
                &&& !blank && before.state.selected is Some ==> {
                    &&& turn.commands@.len() == 1
                    &&& turn.commands@[0] is SendMessage
                    &&& turn.commands@[0]->SendMessage_room_id@ == before.state.selected->0
                    &&& turn.commands@[0]->SendMessage_body@ == text::trimmed(body@)
                    &&& turn.commands@[0]->SendMessage_msgtype is Text
                    &&& turn.commands@[0]->SendMessage_client_txn_id@ == "desktop-send-"@
                        + text::decimal(before.next_txn_id as nat)
                    &&& after.state.pending_sends.contains(
                        turn.commands@[0]->SendMessage_client_txn_id@,
                    )
                    &&& after.state.error is None
                    &&& after.state.messages == before.state.messages
                    &&& before.next_txn_id < u64::MAX ==> after.next_txn_id == before.next_txn_id
                        + 1
                    &&& turn.snapshot is Some
                }
            },
{
}

/// A scroll asks for older events of the selected room where a page is wanted, and is otherwise
/// without effect.
pub proof fn lemma_scroll_asks_for_older_events()
    ensures
        forall|bridge: &mut DesktopBridge, near_top: bool, now_ms: u64, turn: BridgeTurn|
            #[trigger] call_ensures(
                DesktopBridge::on_timeline_scrolled,
                (bridge, near_top, now_ms),
                turn,
            ) ==> {
                let before = (*bridge)@;
                let after = final(bridge)@;
                let wanted = before.state.selected is Some && pagination::wants_page(
                    before.state.pagination,
                    before.state.selected->0,
                    near_top,
                    now_ms,
                    before.cooldown_ms,
                );
                &&& wanted ==> {
                    &&& turn.commands@.len() == 1
                    &&& turn.commands@[0] is PaginateBack
                    &&& turn.commands@[0]->PaginateBack_room_id@ == before.state.selected->0
                    &&& turn.commands@[0]->limit == before.paginate_limit
                    &&& after.state.pagination.in_flight.contains(before.state.selected->0)
                }
                &&& !wanted ==> turn.commands@.len() == 0 && after == before
                &&& !near_top ==> turn.commands@.len() == 0
                &&& after.state.messages == before.state.messages
            },
{
}

/// The security menu asks for the status, a new backup, a backup in place of the old one or a
/// restore, and for nothing else; a restore that is running is not asked for again.
pub proof fn lemma_security_menu_asks_for_what_it_says()
    ensures
        forall|bridge: &mut DesktopBridge, turn: BridgeTurn|
            #[trigger] call_ensures(DesktopBridge::request_recovery_status, (bridge,), turn) ==> {
                &&& turn.commands@.len() == 1
                &&& turn.commands@[0] is GetRecoveryStatus
                &&& final(bridge)@.state.dialog.visible
                &&& final(bridge)@.state.dialog.mode is Status
                &&& final(bridge)@.state.messages == (*bridge)@.state.messages
            },
        forall|bridge: &mut DesktopBridge, turn: BridgeTurn|
            #[trigger] call_ensures(DesktopBridge::backup_identity, (bridge,), turn) ==> {
                &&& turn.commands@.len() == 1
                &&& turn.commands@[0] is EnableRecovery
                &&& turn.commands@[0]->EnableRecovery_passphrase is None
                &&& final(bridge)@.state.dialog.visible
                &&& final(bridge)@.state.dialog.mode is Creating
            },
        forall|bridge: &mut DesktopBridge, turn: BridgeTurn|
            #[trigger] call_ensures(DesktopBridge::reset_identity_backup, (bridge,), turn) ==> {
                &&& turn.commands@.len() == 1
                &&& turn.commands@[0] is ResetRecovery
                &&& turn.commands@[0]->ResetRecovery_passphrase is None
                &&& final(bridge)@.state.dialog.visible
                &&& final(bridge)@.state.dialog.mode is Creating
            },
        forall|bridge: &mut DesktopBridge, recovery_key: String, turn: BridgeTurn|
            #[trigger] call_ensures(DesktopBridge::restore_identity, (bridge, recovery_key), turn)
                ==> {
                let running = (*bridge)@.state.dialog.restore_in_flight;
                &&& running ==> turn.commands@.len() == 0 && final(bridge)@ == (*bridge)@
                &&& !running ==> {
                    &&& turn.commands@.len() == 1
                    &&& turn.commands@[0] is RecoverSecrets
                    &&& turn.commands@[0]->recovery_key@ == recovery_key@
                    &&& final(bridge)@.state.dialog.restore_in_flight
                }
            },
        forall|bridge: &mut DesktopBridge, turn: BridgeTurn|
            #[trigger] call_ensures(DesktopBridge::prompt_restore_identity, (bridge,), turn) ==> {
                &&& turn.commands@.len() == 0
                &&& final(bridge)@.state.dialog.visible
                &&& final(bridge)@.state.dialog.show_restore_input
            },
        forall|bridge: &mut DesktopBridge, turn: BridgeTurn|
            #[trigger] call_ensures(DesktopBridge::dismiss_security_dialog, (bridge,), turn) ==> {
                &&& turn.commands@.len() == 0
                &&& !final(bridge)@.state.dialog.visible
                &&& final(bridge)@.state.dialog.recovery_key is None
            },
{
}

/// The recovery key that is copied is the one that is shown, and nothing is copied where none
/// is.
pub proof fn lemma_shown_key_is_copied()
    ensures
        forall|bridge: &mut DesktopBridge, copied: Option<(String, BridgeTurn)>|
            #[trigger] call_ensures(DesktopBridge::copy_recovery_key, (bridge,), copied) ==> {
                let key = (*bridge)@.state.dialog.recovery_key;
                &&& copied is Some <==> key is Some
                &&& copied matches Some((text, turn)) ==> key == Some(text@)
                    && turn.commands@.len() == 0
                &&& final(bridge)@.state.dialog.recovery_key == key
            },
{
}

/// A badge shows the count, and nothing for zero.
pub proof fn lemma_badge_shows_the_count(count: nat)
    ensures
        bridge::badge(0).len() == 0,
        count > 0 ==> text::read_number(bridge::badge(count), count) == Ok::<
            nat,
            text::NumberError,
        >(count),
{
    crate::text_laws::lemma_written_number_is_read(count, count);
}

/// An event is named by its kind in the log, whatever it holds.
pub proof fn lemma_events_are_named_by_kind(event: BackendEvent)
    ensures
        event is StateChanged ==> bridge::event_name(event) == "StateChanged"@,
        event is AuthResult ==> bridge::event_name(event) == "AuthResult"@,
        event is SyncStatus ==> bridge::event_name(event) == "SyncStatus"@,
        event is RoomListUpdated ==> bridge::event_name(event) == "RoomListUpdated"@,
        event is RoomTimelineDelta ==> bridge::event_name(event) == "RoomTimelineDelta"@,
        event is RoomTimelineSnapshot ==> bridge::event_name(event) == "RoomTimelineSnapshot"@,
        event is SendAck ==> bridge::event_name(event) == "SendAck"@,
        event is InviteActionAck ==> bridge::event_name(event) == "InviteActionAck"@,
        event is MediaUploadAck ==> bridge::event_name(event) == "MediaUploadAck"@,
        event is MediaDownloadAck ==> bridge::event_name(event) == "MediaDownloadAck"@,
        event is RecoveryStatus ==> bridge::event_name(event) == "RecoveryStatus"@,
        event is RecoveryEnableAck ==> bridge::event_name(event) == "RecoveryEnableAck"@,
        event is RecoveryRestoreAck ==> bridge::event_name(event) == "RecoveryRestoreAck"@,
        event is CryptoStatus ==> bridge::event_name(event) == "CryptoStatus"@,
        event is FatalError ==> bridge::event_name(event) == "FatalError"@,
{
}

/// While a backup is being created, the dialog says so.
pub proof fn lemma_creation_of_a_backup_is_shown()
    ensures
        bridge::creating_dialog().title == "Creating Identity Backup"@,
        bridge::creating_dialog().body == "Creating identity backup..."@,
        bridge::creating_dialog().visible,
        bridge::creating_dialog().recovery_key is None,
        !bridge::creating_dialog().show_restore_input,
{
}

} // verus!
