//! What each change of the desktop state leaves as it is, and what its questions are answered.
use vstd::prelude::*;

use super::pagination::{self, PaginationTracker};
use super::security_dialog::{SecurityDialog, SecurityDialogMode};
use super::state::{self, DesktopSnapshot, DesktopState, DesktopView};
use super::timeline_rows;
use super::view_laws;
use crate::backend_core::types::{
    self, BackendEvent, InviteAction, InviteActionAck, RoomSummary, SendAck, TimelineItem,
    TimelineOp,
};

verus! {

/// The user can send exactly while a room that the user joined is selected; a room is an invite
/// exactly where it is listed as one.
pub proof fn lemma_questions_are_answered_from_the_rows(
    desktop: DesktopState,
    room_id: &str,
    can_send: bool,
    is_invite: bool,
    pending: bool,
    at: int,
)
    requires
        call_ensures(DesktopState::can_send_message, (&desktop,), can_send),
        call_ensures(DesktopState::is_invite_room, (&desktop, room_id), is_invite),
        call_ensures(DesktopState::has_pending_invite_action, (&desktop, room_id), pending),
    ensures
        view_laws::is_selected_row(desktop@.rooms, desktop@.selected, at) ==> (can_send
            <==> desktop@.rooms[at].membership is Joined),
        desktop@.selected is None ==> !can_send,
        view_laws::is_first_row(desktop@.rooms, room_id@, at) ==> (is_invite
            <==> desktop@.rooms[at].membership is Invited),
        (forall|i: int|
            0 <= i < desktop@.rooms.len() ==> (#[trigger] desktop@.rooms[i]).room_id != room_id@)
            ==> !is_invite,
        pending <==> desktop@.pending_invites.dom().contains(room_id@),
{
    let rooms = desktop@.rooms;
    state::lemma_room_index(rooms, room_id@);
    if view_laws::is_selected_row(rooms, desktop@.selected, at) {
        state::lemma_room_index(rooms, desktop@.selected->0);
        let found = state::room_index(rooms, desktop@.selected->0);
        assert(rooms[at].room_id == desktop@.selected->0);
        assert(rooms[found->0].room_id == desktop@.selected->0);
    }
    if view_laws::is_first_row(rooms, room_id@, at) {
        let found = state::room_index(rooms, room_id@);
        assert(rooms[at].room_id == room_id@);
        assert(rooms[found->0].room_id == room_id@);
    }
}

/// The snapshot of a state in which a joined room is selected lets the user send, and that of
/// one in which nothing or an invite is selected does not.
pub proof fn lemma_snapshot_lets_the_user_send(
    desktop: DesktopState,
    snapshot: DesktopSnapshot,
    at: int,
)
    requires
        call_ensures(DesktopState::snapshot, (&desktop,), snapshot),
    ensures
        view_laws::is_selected_row(desktop@.rooms, desktop@.selected, at)
            && desktop@.rooms[at].membership is Joined ==> snapshot.can_send,
        view_laws::is_selected_row(desktop@.rooms, desktop@.selected, at)
            && desktop@.rooms[at].membership is Invited ==> !snapshot.can_send
            && snapshot.selected_room_is_invite,
        desktop@.selected is None ==> !snapshot.can_send && !snapshot.selected_room_is_invite,
{
    if view_laws::is_selected_row(desktop@.rooms, desktop@.selected, at) {
        view_laws::lemma_user_can_send_to_joined_room(snapshot, desktop@, at);
    }
    if desktop@.selected is None {
        view_laws::lemma_user_cannot_send_nowhere(snapshot, desktop@);
    }
}

/// Whether two states differ in nothing but their error line.
pub open spec fn differ_in_error(a: DesktopView, b: DesktopView) -> bool {
    &&& a.rooms == b.rooms
    &&& a.messages == b.messages
    &&& a.selected == b.selected
    &&& a.timelines == b.timelines
    &&& a.status == b.status
    &&& a.dialog == b.dialog
    &&& a.pending_sends == b.pending_sends
    &&& a.pending_invites == b.pending_invites
    &&& a.pagination == b.pagination
}

/// The error line is set and cleared alone.
pub proof fn lemma_error_line_is_set_alone()
    ensures
        forall|desktop: &mut DesktopState, message: &str|
            #[trigger] call_ensures(DesktopState::set_error_text, (desktop, message), ()) ==> {
                &&& final(desktop)@.error == Some(message@)
                &&& differ_in_error(final(desktop)@, (*desktop)@)
            },
        forall|desktop: &mut DesktopState|
            #[trigger] call_ensures(DesktopState::clear_error, (desktop,), ()) ==> {
                &&& final(desktop)@.error is None
                &&& differ_in_error(final(desktop)@, (*desktop)@)
            },
{
}

/// Rooms, selections, acknowledgements and events go through the state as they are given.
pub proof fn lemma_changes_go_through()
    ensures
        forall|desktop: &mut DesktopState, rooms: Vec<RoomSummary>|
            #[trigger] call_ensures(DesktopState::replace_rooms, (desktop, rooms), ())
                ==> final(desktop)@ == state::after_rooms(
                (*desktop)@,
                types::room_views(rooms@),
            ),
        forall|desktop: &mut DesktopState, room_id: String|
            #[trigger] call_ensures(DesktopState::select_room, (desktop, room_id), ())
                ==> final(desktop)@ == state::after_select((*desktop)@, room_id@),
        forall|desktop: &mut DesktopState, index: usize, room_id: Option<String>|
            #[trigger] call_ensures(
                DesktopState::select_room_by_index,
                (desktop, index),
                room_id,
            ) ==> {
                let rooms = (*desktop)@.rooms;
                &&& index < rooms.len() ==> room_id is Some && room_id->0@
                    == rooms[index as int].room_id && final(desktop)@.selected == Some(
                    rooms[index as int].room_id,
                )
                &&& index >= rooms.len() ==> room_id is None && final(desktop)@ == (*desktop)@
            },
        forall|desktop: &mut DesktopState, client_txn_id: String|
            #[trigger] call_ensures(
                DesktopState::mark_send_requested,
                (desktop, client_txn_id),
                (),
            ) ==> {
                &&& final(desktop)@.pending_sends.contains(client_txn_id@)
                &&& forall|other: Seq<char>|
                    other != client_txn_id@ ==> (#[trigger] final(desktop)@.pending_sends.contains(
                        other,
                    )) == (*desktop)@.pending_sends.contains(other)
                &&& final(desktop)@.messages == (*desktop)@.messages
            },
        forall|desktop: &mut DesktopState, ack: SendAck|
            #[trigger] call_ensures(DesktopState::handle_send_ack, (desktop, ack), ()) ==> {
                &&& !final(desktop)@.pending_sends.contains(ack.client_txn_id@)
                &&& ack.error_code is None ==> final(desktop)@.error is None
                &&& ack.error_code is Some ==> final(desktop)@.error is Some
            },
        forall|desktop: &mut DesktopState, event: BackendEvent|
            #[trigger] call_ensures(DesktopState::handle_backend_event, (desktop, event), ())
                ==> final(desktop)@ == state::reduce((*desktop)@, event@),
{
}

/// An invite takes an answer once, and says whether it did.
pub proof fn lemma_invite_takes_an_answer_once(at: int)
    ensures
        forall|
            desktop: &mut DesktopState,
            room_id: String,
            client_txn_id: String,
            action: InviteAction,
            marked: bool,
        |
            #[trigger] call_ensures(
                DesktopState::mark_invite_action_requested,
                (desktop, room_id, client_txn_id, action),
                marked,
            ) && view_laws::is_first_row((*desktop)@.rooms, room_id@, at) ==> {
                let free = (*desktop)@.rooms[at].membership is Invited && !(
                *desktop)@.pending_invites.dom().contains(room_id@);
                &&& marked <==> free
                &&& marked ==> final(desktop)@.pending_invites.dom().contains(room_id@)
                &&& marked ==> final(desktop)@.pending_invites[room_id@] == action
                &&& !marked ==> final(desktop)@ == (*desktop)@
            },
{
    assert forall|
        desktop: &mut DesktopState,
        room_id: String,
        client_txn_id: String,
        action: InviteAction,
        marked: bool,
    |
        #[trigger] call_ensures(
            DesktopState::mark_invite_action_requested,
            (desktop, room_id, client_txn_id, action),
            marked,
        ) && view_laws::is_first_row((*desktop)@.rooms, room_id@, at) implies ({
        let free = (*desktop)@.rooms[at].membership is Invited && !(
        *desktop)@.pending_invites.dom().contains(room_id@);
        &&& marked <==> free
        &&& marked ==> final(desktop)@.pending_invites.dom().contains(room_id@)
        &&& marked ==> final(desktop)@.pending_invites[room_id@] == action
        &&& !marked ==> final(desktop)@ == (*desktop)@
    }) by {
        let rooms = (*desktop)@.rooms;
        state::lemma_room_index(rooms, room_id@);
        assert(rooms[at].room_id == room_id@);
        let found = state::room_index(rooms, room_id@);
        assert(rooms[found->0].room_id == room_id@);
        view_laws::lemma_invite_request_is_shown(
            (*desktop)@,
            room_id@,
            client_txn_id@,
            action,
            at,
        );
    }
}

/// An answer to an invite that was acknowledged is over.
pub proof fn lemma_acknowledged_answer_is_over()
    ensures
        forall|desktop: &mut DesktopState, ack: InviteActionAck|
            #[trigger] call_ensures(DesktopState::handle_invite_action_ack, (desktop, ack), ())
                ==> {
                let txns = (*desktop)@.pending_invite_txns;
                let known = txns.dom().contains(ack.client_txn_id@);
                let room = if known { txns[ack.client_txn_id@] } else { ack.room_id@ };
                &&& !final(desktop)@.pending_invites.dom().contains(room)
                &&& !final(desktop)@.pending_invite_txns.dom().contains(ack.client_txn_id@)
                &&& ack.error_code is None ==> final(desktop)@.error is None
                &&& ack.error_code is Some ==> final(desktop)@.error is Some
            },
{
}

/// Older events of the selected room are asked for where a page is wanted, at least one at a
/// time.
pub proof fn lemma_page_of_selected_room_is_asked_for()
    ensures
        forall|
            desktop: &mut DesktopState,
            near_top: bool,
            now_ms: u64,
            cooldown_ms: u64,
            limit: u16,
            request: Option<(String, u16)>,
        |
            #[trigger] call_ensures(
                DesktopState::request_pagination_if_needed,
                (desktop, near_top, now_ms, cooldown_ms, limit),
                request,
            ) ==> {
                let before = (*desktop)@;
                let wanted = before.selected is Some && pagination::wants_page(
                    before.pagination,
                    before.selected->0,
                    near_top,
                    now_ms,
                    cooldown_ms,
                );
                &&& request is Some <==> wanted
                &&& request matches Some((room, asked)) ==> before.selected == Some(room@)
                    && asked >= 1 && (limit >= 1 ==> asked == limit)
                    && final(desktop)@.pagination.in_flight.contains(room@)
                &&& request is None ==> final(desktop)@ == before
            },
{
}

/// Requests for older events are noted and answered room by room.
pub proof fn lemma_page_requests_are_noted()
    ensures
        forall|tracker: &mut PaginationTracker, room_id: String, now_ms: u64|
            #[trigger] call_ensures(
                PaginationTracker::mark_requested,
                (tracker, room_id, now_ms),
                (),
            ) ==> {
                &&& final(tracker)@.in_flight.contains(room_id@)
                &&& final(tracker)@.last_requested_ms.dom().contains(room_id@)
                &&& final(tracker)@.last_requested_ms[room_id@] == now_ms
                &&& forall|other: Seq<char>|
                    other != room_id@ ==> (#[trigger] final(tracker)@.in_flight.contains(other))
                        == (*tracker)@.in_flight.contains(other)
            },
        forall|tracker: &mut PaginationTracker, room_id: &str|
            #[trigger] call_ensures(PaginationTracker::mark_complete, (tracker, room_id), ())
                ==> {
                &&& !final(tracker)@.in_flight.contains(room_id@)
                &&& final(tracker)@.last_requested_ms == (*tracker)@.last_requested_ms
                &&& forall|other: Seq<char>|
                    other != room_id@ ==> (#[trigger] final(tracker)@.in_flight.contains(other))
                        == (*tracker)@.in_flight.contains(other)
            },
        forall|tracker: &mut PaginationTracker|
            #[trigger] call_ensures(PaginationTracker::clear_in_flight, (tracker,), ()) ==> {
                &&& final(tracker)@.last_requested_ms == (*tracker)@.last_requested_ms
                &&& forall|room_id: Seq<char>| !final(tracker)@.in_flight.contains(room_id)
            },
        forall|tracker: PaginationTracker|
            #[trigger] call_ensures(PaginationTracker::new, (), tracker) ==> forall|
                room_id: Seq<char>,
            |
                !tracker@.in_flight.contains(room_id) && !tracker@.last_requested_ms.dom().contains(
                    room_id,
                ),
{
}

/// The security dialog shows what it was given, keeps the key that it shows until it is
/// dismissed, and starts one restore at a time.
pub proof fn lemma_dialog_shows_what_it_was_given()
    ensures
        forall|dialog: &mut SecurityDialog, mode: SecurityDialogMode, title: &str, body: &str|
            #[trigger] call_ensures(SecurityDialog::show, (dialog, mode, title, body), ()) ==> {
                let shown = final(dialog)@;
                &&& shown.visible && shown.mode == mode
                &&& shown.title == title@ && shown.body == body@
                &&& shown.recovery_key is None && !shown.restore_in_flight
            },
        forall|dialog: &mut SecurityDialog, recovery_key: String|
            #[trigger] call_ensures(
                SecurityDialog::show_recovery_key,
                (dialog, recovery_key),
                (),
            ) ==> {
                let shown = final(dialog)@;
                &&& shown.visible && shown.show_copy_button
                &&& shown.recovery_key == Some(recovery_key@)
                &&& !shown.show_restore_input
            },
        forall|dialog: &mut SecurityDialog, begun: bool|
            #[trigger] call_ensures(SecurityDialog::begin_restore, (dialog,), begun) ==> {
                &&& begun <==> !(*dialog)@.restore_in_flight
                &&& final(dialog)@.restore_in_flight
            },
        forall|dialog: &mut SecurityDialog|
            #[trigger] call_ensures(SecurityDialog::dismiss, (dialog,), ()) ==> {
                &&& !final(dialog)@.visible
                &&& final(dialog)@.recovery_key is None
                &&& !final(dialog)@.restore_in_flight
            },
        forall|dialog: SecurityDialog|
            #[trigger] call_ensures(SecurityDialog::new, (), dialog) ==> !dialog@.visible
                && dialog@.recovery_key is None,
{
}

/// A shown timeline takes a delta operation by operation; then of each event the last item
/// stays, and of all items the newest.
pub proof fn lemma_shown_timelines_are_updated()
    ensures
        forall|items: &mut Vec<TimelineItem>, ops: &[TimelineOp]|
            #[trigger] call_ensures(timeline_rows::apply_delta_lenient, (items, ops), ())
                ==> types::item_views((*final(items))@) == timeline_rows::apply_delta(
                types::item_views((*items)@),
                types::op_views(ops@),
            ),
        forall|items: Vec<TimelineItem>, max_items: usize, kept: Vec<TimelineItem>|
            #[trigger] call_ensures(timeline_rows::dedupe_and_trim, (items, max_items), kept)
                ==> {
                let all = timeline_rows::last_instances(types::item_views(items@));
                let shown = types::item_views(kept@);
                &&& all.len() <= max_items ==> shown == all
                &&& all.len() > max_items ==> shown.len() == max_items && forall|i: int|
                    0 <= i < max_items ==> #[trigger] shown[i] == all[all.len() - max_items + i]
            },
{
}

/// Dialogs are opened, answered and closed without touching anything else that is shown.
pub proof fn lemma_dialogs_stand_alone()
    ensures
        forall|desktop: &mut DesktopState, title: &str, body: &str|
            #[trigger] call_ensures(
                DesktopState::show_security_dialog,
                (desktop, title, body),
                (),
            ) ==> {
                &&& final(desktop)@.dialog.visible
                &&& final(desktop)@.dialog.title == title@
                &&& final(desktop)@.dialog.body == body@
                &&& final(desktop)@.messages == (*desktop)@.messages
                &&& final(desktop)@.rooms == (*desktop)@.rooms
                &&& final(desktop)@.error == (*desktop)@.error
            },
        forall|desktop: &mut DesktopState, begun: bool|
            #[trigger] call_ensures(DesktopState::begin_restore_request, (desktop,), begun) ==> {
                &&& begun <==> !(*desktop)@.dialog.restore_in_flight
                &&& final(desktop)@.dialog.restore_in_flight
                &&& final(desktop)@.messages == (*desktop)@.messages
            },
        forall|desktop: &mut DesktopState|
            #[trigger] call_ensures(DesktopState::dismiss_security_dialog, (desktop,), ()) ==> {
                &&& !final(desktop)@.dialog.visible
                &&& final(desktop)@.dialog.recovery_key is None
                &&& final(desktop)@.messages == (*desktop)@.messages
            },
        forall|desktop: &DesktopState, key: Option<String>|
            #[trigger] call_ensures(DesktopState::recovery_key_for_copy, (desktop,), key)
                ==> types::opt_chars(key) == desktop@.dialog.recovery_key,
        forall|desktop: &DesktopState, room_id: Option<&str>|
            #[trigger] call_ensures(DesktopState::selected_room_id, (desktop,), room_id) ==> {
                &&& room_id is Some <==> desktop@.selected is Some
                &&& room_id is Some ==> desktop@.selected == Some(room_id->0@)
            },
{
}

} // verus!
