//! What the user sees after an event or an action, row by row and message by message.
use vstd::prelude::*;

use super::pagination::{self, PaginationView};
use super::security_dialog::{self, DialogView};
use super::state::{self, DesktopSnapshot, DesktopView, MessageRow, RoomRow};
use super::timeline_rows;
use crate::backend_core::timeline;
use crate::backend_core::types::{
    self, BackendEventView, BackendLifecycleState, InviteAction, KeyBackupState, RecoveryState,
    RecoveryStatus, RoomSummaryView, SyncStatus, TimelineItemView, TimelineOpView,
};
use crate::text;

verus! {

/// Whether the row at `at` is the first of the selected room.
pub open spec fn is_selected_row(
    rooms: Seq<RoomRow>,
    selected: Option<Seq<char>>,
    at: int,
) -> bool {
    &&& 0 <= at < rooms.len()
    &&& selected == Some(rooms[at].room_id)
    &&& forall|i: int| 0 <= i < at ==> (#[trigger] rooms[i]).room_id != rooms[at].room_id
}

/// Where the selected room is listed, the user can send exactly if the user joined it, and is
/// shown an invite exactly if it is one, with the note on the answer that is on its way.
pub proof fn lemma_user_can_send_to_joined_room(
    snapshot: DesktopSnapshot,
    shown: DesktopView,
    at: int,
)
    requires
        state::shows(snapshot, shown),
        is_selected_row(shown.rooms, shown.selected, at),
    ensures
        shown.rooms[at].membership is Joined ==> snapshot.can_send,
        shown.rooms[at].membership is Joined ==> !snapshot.selected_room_is_invite,
        shown.rooms[at].membership is Invited ==> !snapshot.can_send,
        shown.rooms[at].membership is Invited ==> snapshot.selected_room_is_invite,
        shown.rooms[at].invite_pending ==> types::opt_chars(
            snapshot.selected_room_invite_pending_text,
        ) == Some(shown.rooms[at].invite_pending_text),
        !shown.rooms[at].invite_pending ==> snapshot.selected_room_invite_pending_text is None,
{
    state::lemma_room_index(shown.rooms, shown.selected->0);
    let found = state::room_index(shown.rooms, shown.selected->0);
    assert(shown.rooms[at].room_id == shown.selected->0);
    assert(found is Some);
    assert(shown.rooms[found->0].room_id == shown.selected->0);
    if found->0 < at {
        assert(shown.rooms[found->0].room_id != shown.rooms[at].room_id);
    }
}

/// Where nothing is selected, or what is selected is not listed, the user cannot send.
pub proof fn lemma_user_cannot_send_nowhere(snapshot: DesktopSnapshot, shown: DesktopView)
    requires
        state::shows(snapshot, shown),
        shown.selected matches Some(selected) ==> forall|i: int|
            0 <= i < shown.rooms.len() ==> (#[trigger] shown.rooms[i]).room_id != selected,
    ensures
        !snapshot.can_send,
        !snapshot.selected_room_is_invite,
        snapshot.selected_room_invite_pending_text is None,
{
    if let Some(selected) = shown.selected {
        state::lemma_room_index(shown.rooms, selected);
        if let Some(index) = state::room_index(shown.rooms, selected) {
            assert(shown.rooms[index].room_id == selected);
        }
    }
}

/// A snapshot shows every room row and every message, in their order, and the texts as they are.
pub proof fn lemma_snapshot_shows_everything(snapshot: DesktopSnapshot, shown: DesktopView)
    requires
        state::shows(snapshot, shown),
    ensures
        snapshot.rooms@.len() == shown.rooms.len(),
        forall|i: int|
            0 <= i < shown.rooms.len() ==> (#[trigger] snapshot.rooms@[i])@ == shown.rooms[i],
        snapshot.messages@.len() == shown.messages.len(),
        forall|i: int|
            0 <= i < shown.messages.len() ==> (#[trigger] snapshot.messages@[i])@
                == shown.messages[i],
        snapshot.status_text@ == shown.status,
        types::opt_chars(snapshot.error_text) == shown.error,
        types::opt_chars(snapshot.selected_room_id) == shown.selected,
        snapshot.show_security_dialog == shown.dialog.visible,
        snapshot.security_dialog_title@ == shown.dialog.title,
        snapshot.security_dialog_body@ == shown.dialog.body,
        snapshot.security_restore_in_flight == shown.dialog.restore_in_flight,
{
    assert forall|i: int| 0 <= i < shown.rooms.len() implies (#[trigger] snapshot.rooms@[i])@
        == shown.rooms[i] by {
        assert(state::room_rows(snapshot.rooms@)[i] == snapshot.rooms@[i]@);
    }
    assert forall|i: int| 0 <= i < shown.messages.len() implies (
    #[trigger] snapshot.messages@[i])@ == shown.messages[i] by {
        assert(state::message_rows(snapshot.messages@)[i] == snapshot.messages@[i]@);
    }
    assert(state::room_rows(snapshot.rooms@).len() == snapshot.rooms@.len());
    assert(state::message_rows(snapshot.messages@).len() == snapshot.messages@.len());
}

/// A row shows its room: the ID, the counts and the membership as they are, the name unless it is
/// blank or missing, else the ID; it is marked where its room is selected, and notes an answer
/// to the invite that is on its way.
pub proof fn lemma_row_shows_its_room(
    room: RoomSummaryView,
    selected: Option<Seq<char>>,
    pending: Map<Seq<char>, InviteAction>,
)
    ensures
        ({
            let row = state::row_of(room, selected, pending);
            &&& row.room_id == room.room_id
            &&& row.unread_notifications == room.unread_notifications
            &&& row.highlight_count == room.highlight_count
            &&& row.membership == room.membership
            &&& room.name is None ==> row.display_name == room.room_id
            &&& room.name matches Some(name) ==> text::trimmed(name).len() == 0
                ==> row.display_name == room.room_id
            &&& room.name matches Some(name) ==> text::trimmed(name).len() > 0
                ==> row.display_name == name
            &&& row.is_selected <==> selected == Some(room.room_id)
            &&& row.invite_pending <==> pending.dom().contains(room.room_id)
            &&& !row.invite_pending ==> row.invite_pending_text.len() == 0
            &&& row.invite_pending && pending[room.room_id] is Accept ==> row.invite_pending_text
                == "Accepting invite..."@
            &&& row.invite_pending && pending[room.room_id] is Reject ==> row.invite_pending_text
                == "Rejecting invite..."@
        }),
{
}

/// Number of the first `upto` rooms that are invites, or that are not.
pub open spec fn rows_before(rooms: Seq<RoomSummaryView>, invited: bool, upto: nat) -> nat
    decreases upto,
{
    if upto == 0 {
        0
    } else {
        rows_before(rooms, invited, (upto - 1) as nat) + if (rooms[upto - 1].membership
            is Invited) == invited {
            1nat
        } else {
            0nat
        }
    }
}

proof fn lemma_rows_before_of_prefix(rooms: Seq<RoomSummaryView>, invited: bool, upto: nat)
    requires
        upto < rooms.len(),
    ensures
        rows_before(rooms, invited, upto) == rows_before(rooms.drop_last(), invited, upto),
    decreases upto,
{
    if upto > 0 {
        lemma_rows_before_of_prefix(rooms, invited, (upto - 1) as nat);
        assert(rooms[upto - 1] == rooms.drop_last()[upto - 1]);
    }
}

proof fn lemma_rows_stand_in_order(
    rooms: Seq<RoomSummaryView>,
    invited: bool,
    selected: Option<Seq<char>>,
    pending: Map<Seq<char>, InviteAction>,
    k: int,
)
    requires
        0 <= k < rooms.len(),
    ensures
        state::rows_of(rooms, invited, selected, pending).len() == rows_before(
            rooms,
            invited,
            rooms.len(),
        ),
        (rooms[k].membership is Invited) == invited ==> {
            &&& rows_before(rooms, invited, k as nat) < rows_before(rooms, invited, rooms.len())
            &&& state::rows_of(rooms, invited, selected, pending)[rows_before(
                rooms,
                invited,
                k as nat,
            ) as int] == state::row_of(rooms[k], selected, pending)
        },
    decreases rooms.len(),
{
    let front = rooms.drop_last();
    lemma_rows_before_of_prefix(rooms, invited, front.len());
    if front.len() == 0 {
        assert(state::rows_of(front, invited, selected, pending) =~= Seq::<RoomRow>::empty());
    } else if k < front.len() {
        lemma_rows_stand_in_order(front, invited, selected, pending, k);
        lemma_rows_before_of_prefix(rooms, invited, k as nat);
        assert(front[k] == rooms[k]);
    } else {
        lemma_rows_stand_in_order(front, invited, selected, pending, 0);
    }
}

/// Where the row of a room stands: the invites come first, then the other rooms, each in the
/// order in which the backend named them.
pub open spec fn place_of(rooms: Seq<RoomSummaryView>, k: int) -> int {
    if rooms[k].membership is Invited {
        rows_before(rooms, true, k as nat) as int
    } else {
        (rows_before(rooms, true, rooms.len()) + rows_before(rooms, false, k as nat)) as int
    }
}

/// The sidebar has one row for each room: first the invites, then the other rooms, each in the
/// order in which the backend named them.
pub proof fn lemma_sidebar_stands_in_order(
    rooms: Seq<RoomSummaryView>,
    selected: Option<Seq<char>>,
    pending: Map<Seq<char>, InviteAction>,
    k: int,
)
    requires
        0 <= k < rooms.len(),
    ensures
        ({
            let rows = state::sidebar(rooms, selected, pending);
            &&& rows.len() == rows_before(rooms, true, rooms.len()) + rows_before(
                rooms,
                false,
                rooms.len(),
            )
            &&& 0 <= place_of(rooms, k) < rows.len()
            &&& rows[place_of(rooms, k)] == state::row_of(rooms[k], selected, pending)
        }),
{
    lemma_rows_stand_in_order(rooms, true, selected, pending, k);
    lemma_rows_stand_in_order(rooms, false, selected, pending, k);
}

/// A new room list is shown whole. The selection and its messages stay while its room is listed
/// and go with it; timelines stay; answers on their way are forgotten with their rooms, and with
/// no others.
pub proof fn lemma_room_list_is_shown(shown: DesktopView, rooms: Seq<RoomSummaryView>)
    ensures
        ({
            let after = state::reduce(shown, BackendEventView::RoomListUpdated { rooms });
            let listed = |room_id: Seq<char>|
                exists|i: int| 0 <= i < rooms.len() && (#[trigger] rooms[i]).room_id == room_id;
            &&& after.rooms == state::sidebar(rooms, shown.selected, shown.pending_invites)
            &&& after.timelines == shown.timelines
            &&& after.status == shown.status
            &&& after.error == shown.error
            &&& shown.selected is None ==> after.selected is None && after.messages
                == shown.messages
            &&& shown.selected matches Some(room_id) ==> listed(room_id) ==> after.selected
                == Some(room_id) && after.messages == shown.messages
            &&& shown.selected matches Some(room_id) ==> !listed(room_id) ==> after.selected
                is None && after.messages.len() == 0
            &&& forall|room_id: Seq<char>|
                #[trigger] after.pending_invites.dom().contains(room_id)
                    <==> shown.pending_invites.dom().contains(room_id) && listed(room_id)
        }),
{
    let rows = state::sidebar(rooms, shown.selected, shown.pending_invites);
    assert forall|room_id: Seq<char>| #[trigger] state::lists_room(rows, room_id) <==> (exists|i:
        int|
        0 <= i < rooms.len() && (#[trigger] rooms[i]).room_id == room_id) by {
        lemma_sidebar_lists_the_rooms(rooms, shown.selected, shown.pending_invites, room_id);
    }
}

proof fn lemma_sidebar_lists_the_rooms(
    rooms: Seq<RoomSummaryView>,
    selected: Option<Seq<char>>,
    pending: Map<Seq<char>, InviteAction>,
    room_id: Seq<char>,
)
    ensures
        state::lists_room(state::sidebar(rooms, selected, pending), room_id) <==> exists|i: int|
            0 <= i < rooms.len() && (#[trigger] rooms[i]).room_id == room_id,
{
    let rows = state::sidebar(rooms, selected, pending);
    if exists|i: int| 0 <= i < rooms.len() && (#[trigger] rooms[i]).room_id == room_id {
        let k = choose|k: int| 0 <= k < rooms.len() && (#[trigger] rooms[k]).room_id == room_id;
        lemma_sidebar_stands_in_order(rooms, selected, pending, k);
        assert(rows[place_of(rooms, k)].room_id == room_id);
    }
    if state::lists_room(rows, room_id) {
        let at = choose|at: int| 0 <= at < rows.len() && (#[trigger] rows[at]).room_id == room_id;
        let first = state::rows_of(rooms, true, selected, pending);
        let second = state::rows_of(rooms, false, selected, pending);
        if at < first.len() {
            assert(rows[at] == first[at]);
            lemma_rows_come_from_rooms(rooms, true, selected, pending, at);
        } else {
            assert(rows[at] == second[at - first.len()]);
            lemma_rows_come_from_rooms(rooms, false, selected, pending, at - first.len());
        }
    }
}

proof fn lemma_rows_come_from_rooms(
    rooms: Seq<RoomSummaryView>,
    invited: bool,
    selected: Option<Seq<char>>,
    pending: Map<Seq<char>, InviteAction>,
    at: int,
)
    requires
        0 <= at < state::rows_of(rooms, invited, selected, pending).len(),
    ensures
        exists|i: int|
            0 <= i < rooms.len() && (#[trigger] rooms[i]).room_id == state::rows_of(
                rooms,
                invited,
                selected,
                pending,
            )[at].room_id,
    decreases rooms.len(),
{
    if rooms.len() > 0 {
        let front = rooms.drop_last();
        let before = state::rows_of(front, invited, selected, pending);
        if at < before.len() {
            lemma_rows_come_from_rooms(front, invited, selected, pending, at);
            let i = choose|i: int|
                0 <= i < front.len() && (#[trigger] front[i]).room_id == before[at].room_id;
            assert(rooms[i] == front[i]);
        } else {
            assert(rooms[rooms.len() - 1] == rooms.last());
        }
    }
}

/// Selecting a room marks its rows and no others, shows the messages of its timeline in their
/// order, with the user's own marked as such, and changes nothing else.
pub proof fn lemma_selection_shows_the_room(shown: DesktopView, room_id: Seq<char>)
    ensures
        ({
            let after = state::after_select(shown, room_id);
            &&& after.selected == Some(room_id)
            &&& after.rooms.len() == shown.rooms.len()
            &&& forall|i: int|
                0 <= i < shown.rooms.len() ==> {
                    &&& (#[trigger] after.rooms[i]).room_id == shown.rooms[i].room_id
                    &&& after.rooms[i].display_name == shown.rooms[i].display_name
                    &&& after.rooms[i].membership == shown.rooms[i].membership
                    &&& after.rooms[i].unread_notifications
                        == shown.rooms[i].unread_notifications
                    &&& after.rooms[i].is_selected <==> shown.rooms[i].room_id == room_id
                }
            &&& !shown.timelines.dom().contains(room_id) ==> after.messages.len() == 0
            &&& shown.timelines.dom().contains(room_id) ==> shows_timeline(
                after.messages,
                shown.timelines[room_id],
                shown.own_user_id,
            )
            &&& after.timelines == shown.timelines
            &&& after.status == shown.status
            &&& after.error == shown.error
        }),
{
}

/// Whether messages are those of a timeline, in its order.
pub open spec fn shows_timeline(
    messages: Seq<MessageRow>,
    items: Seq<TimelineItemView>,
    own_user_id: Seq<char>,
) -> bool {
    &&& messages.len() == items.len()
    &&& forall|i: int|
        0 <= i < items.len() ==> {
            &&& (#[trigger] messages[i]).body == items[i].body
            &&& messages[i].sender == items[i].sender
            &&& messages[i].event_id == items[i].event_id
            &&& messages[i].is_own <==> items[i].sender == own_user_id
        }
}

/// A timeline snapshot of a room becomes its timeline: where no event stands twice and there is
/// room, with all its items in their order. It is shown where the room is selected; else the
/// messages stay. The timelines of other rooms stay, and a request for older events of the room
/// is answered.
pub proof fn lemma_timeline_snapshot_is_shown(
    shown: DesktopView,
    room_id: Seq<char>,
    items: Seq<TimelineItemView>,
)
    requires
        timeline_rows::events_are_distinct(items),
        items.len() <= shown.max_items,
    ensures
        ({
            let after = state::reduce(
                shown,
                BackendEventView::RoomTimelineSnapshot { room_id, items },
            );
            &&& after.timelines.dom().contains(room_id)
            &&& after.timelines[room_id] == items
            &&& forall|other: Seq<char>|
                other != room_id ==> {
                    &&& (#[trigger] after.timelines.dom().contains(other))
                        == shown.timelines.dom().contains(other)
                    &&& shown.timelines.dom().contains(other) ==> after.timelines[other]
                        == shown.timelines[other]
                }
            &&& shown.selected == Some(room_id) ==> shows_timeline(
                after.messages,
                items,
                shown.own_user_id,
            )
            &&& shown.selected != Some(room_id) ==> after.messages == shown.messages
            &&& !after.pagination.in_flight.contains(room_id)
            &&& after.selected == shown.selected
            &&& after.rooms == shown.rooms
        }),
{
    timeline_rows::lemma_distinct_is_kept(items);
}

/// A new message of the selected room is shown last, behind the messages that are there.
pub proof fn lemma_new_message_is_shown_last(
    shown: DesktopView,
    room_id: Seq<char>,
    item: TimelineItemView,
)
    requires
        shown.selected == Some(room_id),
        ({
            let items = state::timeline_of(shown, room_id);
            &&& timeline_rows::events_are_distinct(items.push(item))
            &&& items.len() < shown.max_items
        }),
    ensures
        ({
            let items = state::timeline_of(shown, room_id);
            let after = state::reduce(
                shown,
                BackendEventView::RoomTimelineDelta {
                    room_id,
                    ops: seq![TimelineOpView::Append(item)],
                },
            );
            &&& after.messages.len() == items.len() + 1
            &&& after.messages[items.len() as int].body == item.body
            &&& after.messages[items.len() as int].sender == item.sender
            &&& after.messages[items.len() as int].is_own <==> item.sender == shown.own_user_id
            &&& shows_timeline(
                after.messages.take(items.len() as int),
                items,
                shown.own_user_id,
            )
        }),
{
    let items = state::timeline_of(shown, room_id);
    let ops = seq![TimelineOpView::Append(item)];
    lemma_delta_of_one_operation(items, TimelineOpView::Append(item));
    timeline_rows::lemma_distinct_is_kept(items.push(item));
    let after = state::reduce(shown, BackendEventView::RoomTimelineDelta { room_id, ops });
    assert(after.timelines[room_id] =~= items.push(item));
}

/// A page of older messages of the selected room is shown in front of the messages that are
/// there.
pub proof fn lemma_older_message_is_shown_first(
    shown: DesktopView,
    room_id: Seq<char>,
    item: TimelineItemView,
)
    requires
        shown.selected == Some(room_id),
        ({
            let items = state::timeline_of(shown, room_id);
            &&& timeline_rows::events_are_distinct(seq![item] + items)
            &&& items.len() < shown.max_items
        }),
    ensures
        ({
            let items = state::timeline_of(shown, room_id);
            let after = state::reduce(
                shown,
                BackendEventView::RoomTimelineDelta {
                    room_id,
                    ops: seq![TimelineOpView::Prepend(item)],
                },
            );
            &&& after.messages.len() == items.len() + 1
            &&& after.messages[0].body == item.body
            &&& after.messages[0].sender == item.sender
            &&& shows_timeline(after.messages.skip(1), items, shown.own_user_id)
        }),
{
    let items = state::timeline_of(shown, room_id);
    let ops = seq![TimelineOpView::Prepend(item)];
    lemma_delta_of_one_operation(items, TimelineOpView::Prepend(item));
    timeline_rows::lemma_distinct_is_kept(seq![item] + items);
    let after = state::reduce(shown, BackendEventView::RoomTimelineDelta { room_id, ops });
    assert(after.timelines[room_id] =~= seq![item] + items);
    assert(after.messages.skip(1).len() == items.len());
    assert forall|i: int| 0 <= i < items.len() implies ({
        &&& (#[trigger] after.messages.skip(1)[i]).body == items[i].body
        &&& after.messages.skip(1)[i].sender == items[i].sender
        &&& after.messages.skip(1)[i].event_id == items[i].event_id
        &&& after.messages.skip(1)[i].is_own <==> items[i].sender == shown.own_user_id
    }) by {
        assert(after.messages.skip(1)[i] == after.messages[i + 1]);
        assert(after.timelines[room_id][i + 1] == items[i]);
    }
}

/// One operation does to a shown timeline what it does to any, and nothing where its event is
/// missing; a run of operations is cut as one likes.
pub proof fn lemma_delta_of_one_operation(items: Seq<TimelineItemView>, op: TimelineOpView)
    ensures
        timeline_rows::apply_delta(items, Seq::empty()) == items,
        timeline::merge(items, op) matches Some(merged) ==> timeline_rows::apply_delta(
            items,
            seq![op],
        ) == merged,
        timeline::merge(items, op) is None ==> timeline_rows::apply_delta(items, seq![op])
            == items,
{
    let one = seq![op];
    assert(one.skip(1) =~= Seq::<TimelineOpView>::empty());
    let rest = one.skip(1);
    match timeline::merge(items, op) {
        Some(merged) => assert(timeline_rows::apply_delta(merged, rest) == merged),
        None => assert(timeline_rows::apply_delta(items, rest) == items),
    }
}

/// How a delta is cut does not matter.
pub proof fn lemma_deltas_compose(
    items: Seq<TimelineItemView>,
    first: Seq<TimelineOpView>,
    second: Seq<TimelineOpView>,
)
    ensures
        timeline_rows::apply_delta(items, first + second) == timeline_rows::apply_delta(
            timeline_rows::apply_delta(items, first),
            second,
        ),
    decreases first.len(),
{
    let all = first + second;
    if first.len() == 0 {
        assert(all =~= second);
    } else {
        assert(all[0] == first[0]);
        assert(all.skip(1) =~= first.skip(1) + second);
        match timeline::merge(items, first[0]) {
            Some(merged) => lemma_deltas_compose(merged, first.skip(1), second),
            None => lemma_deltas_compose(items, first.skip(1), second),
        }
    }
}

/// A sent message that is acknowledged is no longer on its way, and no other one is affected;
/// an error names its code, and success clears the error line.
pub proof fn lemma_send_ack_is_shown(
    shown: DesktopView,
    client_txn_id: Seq<char>,
    event_id: Option<Seq<char>>,
    error_code: Option<Seq<char>>,
)
    ensures
        ({
            let after = state::reduce(
                shown,
                BackendEventView::SendAck { client_txn_id, event_id, error_code },
            );
            &&& !after.pending_sends.contains(client_txn_id)
            &&& forall|other: Seq<char>|
                other != client_txn_id ==> (#[trigger] after.pending_sends.contains(other))
                    == shown.pending_sends.contains(other)
            &&& error_code is None ==> after.error is None
            &&& error_code matches Some(code) ==> after.error is Some && text::contains(
                after.error->0,
                code,
            )
            &&& after.messages == shown.messages
            &&& after.rooms == shown.rooms
            &&& after.selected == shown.selected
        }),
{
    if let Some(code) = error_code {
        lemma_text_within("send failed ("@, code, ")"@);
    }
}

proof fn lemma_text_within(before: Seq<char>, part: Seq<char>, after: Seq<char>)
    ensures
        text::contains(before + part + after, part),
{
    let whole = before + part + after;
    let at = before.len() as int;
    assert(whole.subrange(at, at + part.len()) =~= part);
    assert(text::occurs_at(whole, part, at));
}

/// A successful authentication clears the error line; a failed one names its code there, or
/// says that it is unknown.
pub proof fn lemma_auth_result_is_shown(
    shown: DesktopView,
    success: bool,
    error_code: Option<Seq<char>>,
)
    ensures
        ({
            let after = state::reduce(
                shown,
                BackendEventView::AuthResult { success, error_code },
            );
            &&& success ==> after.status == "Authenticated"@ && after.error is None
            &&& !success ==> after.status == "Authentication failed"@ && after.error is Some
            &&& !success && error_code is Some && error_code->0
                != "crypto_store_account_mismatch"@ ==> after.error->0
                == "authentication failed ("@ + error_code->0 + ")"@
            &&& !success && error_code is None ==> after.error->0
                == "authentication failed (unknown)"@
            &&& after.messages == shown.messages && after.rooms == shown.rooms
        }),
{
    reveal_strlit("authentication failed (");
    reveal_strlit("unknown");
    reveal_strlit(")");
    reveal_strlit("authentication failed (unknown)");
    reveal_strlit("crypto_store_account_mismatch");
    assert("unknown"@.len() == 7 && "crypto_store_account_mismatch"@.len() == 29);
    assert("authentication failed ("@ + "unknown"@ + ")"@ =~= "authentication failed (unknown)"@);
}

/// The state of the connection is told apart: connected, waiting for a retry with its delay, or
/// disconnected.
pub proof fn lemma_sync_status_is_shown(shown: DesktopView, status: SyncStatus)
    ensures
        ({
            let after = state::reduce(shown, BackendEventView::SyncStatus(status));
            &&& status.running && status.lag_hint_ms is None ==> after.status == "Connected"@
            &&& status.running && status.lag_hint_ms is Some ==> text::contains(
                after.status,
                text::decimal(status.lag_hint_ms->0 as nat),
            )
            &&& status.running && status.lag_hint_ms is Some ==> text::occurs_at(
                after.status,
                "Reconnecting"@,
                0,
            )
            &&& !status.running ==> after.status == "Disconnected"@
            &&& after.error == shown.error
            &&& after.messages == shown.messages && after.rooms == shown.rooms
        }),
{
    if status.running && status.lag_hint_ms is Some {
        let number = text::decimal(status.lag_hint_ms->0 as nat);
        let line = "Reconnecting (retry in "@ + number + " ms)"@;
        lemma_text_within("Reconnecting (retry in "@, number, " ms)"@);
        reveal_strlit("Reconnecting (retry in ");
        reveal_strlit("Reconnecting");
        assert(line.subrange(0, 12) =~= "Reconnecting"@);
    }
}

/// A fatal error is shown with its code and message, and ends every wait for older events.
pub proof fn lemma_fatal_error_is_shown(
    shown: DesktopView,
    code: Seq<char>,
    message: Seq<char>,
    recoverable: bool,
    room_id: Seq<char>,
)
    ensures
        ({
            let after = state::reduce(
                shown,
                BackendEventView::FatalError { code, message, recoverable },
            );
            &&& after.status == "Backend error"@
            &&& after.error is Some
            &&& text::contains(after.error->0, code)
            &&& text::contains(after.error->0, message)
            &&& !after.pagination.in_flight.contains(room_id)
            &&& after.messages == shown.messages && after.rooms == shown.rooms
        }),
{
    let line = code + ": "@ + message;
    assert(line =~= Seq::<char>::empty() + code + (": "@ + message));
    assert(line =~= (code + ": "@) + message + Seq::<char>::empty());
    lemma_text_within(Seq::empty(), code, ": "@ + message);
    lemma_text_within(code + ": "@, message, Seq::empty());
}

/// The lifecycle is shown by a name of its own for each state, and nothing else changes.
pub proof fn lemma_lifecycle_is_shown(
    shown: DesktopView,
    lifecycle: BackendLifecycleState,
    other: BackendLifecycleState,
)
    ensures
        ({
            let after = state::reduce(shown, BackendEventView::StateChanged { state: lifecycle });
            let otherwise = state::reduce(shown, BackendEventView::StateChanged { state: other });
            &&& after == (DesktopView { status: after.status, ..shown })
            &&& after.status == otherwise.status <==> lifecycle == other
            &&& lifecycle is Syncing ==> after.status == "Syncing"@
            &&& lifecycle is Authenticated ==> after.status == "Authenticated"@
            &&& lifecycle is LoggedOut ==> after.status == "Logged out"@
        }),
{
    reveal_strlit("Cold");
    reveal_strlit("Configured");
    reveal_strlit("Authenticating");
    reveal_strlit("Authenticated");
    reveal_strlit("Syncing");
    reveal_strlit("Logged out");
    reveal_strlit("Fatal");
    assert("Cold"@.len() == 4 && "Configured"@.len() == 10 && "Authenticating"@.len() == 14
        && "Authenticated"@.len() == 13 && "Syncing"@.len() == 7 && "Logged out"@.len() == 10
        && "Fatal"@.len() == 5);
    assert("Configured"@[0] != "Logged out"@[0]);
}

/// A new recovery key is shown to the user with the error line cleared; a failure to create a
/// backup names its code, but where a backup exists already that is said instead of an error.
pub proof fn lemma_backup_result_is_shown(
    shown: DesktopView,
    client_txn_id: Seq<char>,
    recovery_key: Option<Seq<char>>,
    error_code: Option<Seq<char>>,
)
    ensures
        ({
            let after = state::reduce(
                shown,
                BackendEventView::RecoveryEnableAck { client_txn_id, recovery_key, error_code },
            );
            &&& recovery_key matches Some(key) ==> {
                &&& after.dialog.visible
                &&& after.dialog.recovery_key == Some(key)
                &&& text::contains(after.dialog.body, key)
                &&& after.dialog.show_copy_button
                &&& after.error is None
            }
            &&& recovery_key is None ==> (error_code matches Some(code) ==> {
                let known = code == "recovery_already_enabled"@ || code
                    == "recovery_backup_exists"@;
                &&& known ==> after.error is None && after.dialog.visible
                    && after.dialog.recovery_key is None
                &&& !known ==> after.error is Some && text::contains(after.error->0, code)
                    && after.dialog == shown.dialog
            })
            &&& recovery_key is None && error_code is None ==> after.error is Some
            &&& after.messages == shown.messages && after.rooms == shown.rooms
        }),
{
    if let Some(key) = recovery_key {
        let head =
            "Store this recovery key safely. It can decrypt your encrypted history on new devices.\n\nRecovery key:\n"@;
        lemma_text_within(head, key, Seq::empty());
        assert(head + key + Seq::<char>::empty() =~= head + key);
    } else if let Some(code) = error_code {
        lemma_text_within("identity backup failed ("@, code, ")"@);
    }
}

/// A restore that ended is shown, with its code where it failed, and none is on its way.
pub proof fn lemma_restore_result_is_shown(
    shown: DesktopView,
    client_txn_id: Seq<char>,
    error_code: Option<Seq<char>>,
)
    ensures
        ({
            let after = state::reduce(
                shown,
                BackendEventView::RecoveryRestoreAck { client_txn_id, error_code },
            );
            let succeeded = state::reduce(
                shown,
                BackendEventView::RecoveryRestoreAck { client_txn_id, error_code: None },
            );
            &&& after.dialog.visible
            &&& after.dialog.title == "Identity Restore"@
            &&& !after.dialog.restore_in_flight
            &&& !after.dialog.show_restore_input
            &&& after.error is None
            &&& error_code matches Some(code) ==> text::contains(after.dialog.body, code)
            &&& text::occurs_at(
                succeeded.dialog.body,
                "Recovery secrets were restored successfully."@,
                0,
            )
            &&& after.messages == shown.messages && after.rooms == shown.rooms
        }),
{
    reveal_strlit(
        "Recovery secrets were restored successfully. Encrypted history can now be decrypted on this device.",
    );
    reveal_strlit("Recovery secrets were restored successfully.");
    let whole =
        "Recovery secrets were restored successfully. Encrypted history can now be decrypted on this device."@;
    assert(whole.subrange(0, 44) =~= "Recovery secrets were restored successfully."@);
    if let Some(code) = error_code {
        let head =
            "Identity restore failed. Verify your recovery key or passphrase and try again.\n\nError code: "@;
        lemma_text_within(head, code, Seq::empty());
        assert(head + code + Seq::<char>::empty() =~= head + code);
    }
}

/// A recovery status is shown where the user asked for it, and says of each part how it stands;
/// else it changes nothing.
pub proof fn lemma_recovery_status_is_shown(
    shown: DesktopView,
    status: RecoveryStatus,
    other: RecoveryStatus,
)
    ensures
        ({
            let after = state::reduce(shown, BackendEventView::RecoveryStatus(status));
            &&& shown.dialog.mode is Status ==> {
                &&& after.dialog.visible
                &&& after.dialog.mode is Status
                &&& text::contains(
                    after.dialog.body,
                    state::backup_state_name(status.backup_state),
                )
                &&& text::contains(
                    after.dialog.body,
                    state::recovery_state_name(status.recovery_state),
                )
            }
            &&& !(shown.dialog.mode is Status) ==> after == shown
            &&& after.error == shown.error
        }),
{
    let first = "Backup state: "@;
    let backup = state::backup_state_name(status.backup_state);
    let second = "\nBackup enabled locally: "@;
    let enabled = state::yes_or_no(status.backup_enabled);
    let third = "\nBackup exists on server: "@;
    let exists_there = state::yes_or_no(status.backup_exists_on_server);
    let fourth = "\nRecovery state: "@;
    let recovery = state::recovery_state_name(status.recovery_state);
    let whole = state::recovery_status_text(status);
    let rest = second + enabled + third + exists_there + fourth + recovery;
    assert(whole =~= first + backup + rest);
    lemma_text_within(first, backup, rest);
    let start = first + backup + second + enabled + third + exists_there + fourth;
    assert(whole =~= start + recovery + Seq::<char>::empty());
    lemma_text_within(start, recovery, Seq::empty());
}

/// An answer to an invite that is acknowledged is no longer on its way, for its room alone; the
/// room is that of the transaction where it is known. An error names the code.
pub proof fn lemma_invite_ack_is_shown(
    shown: DesktopView,
    client_txn_id: Seq<char>,
    room_id: Seq<char>,
    action: InviteAction,
    error_code: Option<Seq<char>>,
    other: Seq<char>,
)
    ensures
        ({
            let after = state::reduce(
                shown,
                BackendEventView::InviteActionAck { client_txn_id, room_id, action, error_code },
            );
            let known = shown.pending_invite_txns.dom().contains(client_txn_id);
            let room = if known { shown.pending_invite_txns[client_txn_id] } else { room_id };
            &&& !after.pending_invites.dom().contains(room)
            &&& !after.pending_invite_txns.dom().contains(client_txn_id)
            &&& other != room ==> after.pending_invites.dom().contains(other)
                == shown.pending_invites.dom().contains(other)
            &&& after.rooms.len() == shown.rooms.len()
            &&& forall|i: int|
                0 <= i < shown.rooms.len() && shown.rooms[i].room_id != room ==> #[trigger]
                after.rooms[i] == shown.rooms[i]
            &&& forall|i: int|
                is_first_row(shown.rooms, room, i) ==> !(#[trigger] after.rooms[i]).invite_pending
                    && after.rooms[i].invite_pending_text.len() == 0
            &&& error_code is None ==> after.error is None
            &&& error_code matches Some(code) ==> after.error is Some && text::contains(
                after.error->0,
                code,
            )
            &&& after.messages == shown.messages
        }),
{
    let known = shown.pending_invite_txns.dom().contains(client_txn_id);
    let room = if known { shown.pending_invite_txns[client_txn_id] } else { room_id };
    state::lemma_room_index(shown.rooms, room);
    if let Some(code) = error_code {
        let word = match action {
            InviteAction::Accept => "accept"@,
            InviteAction::Reject => "reject"@,
        };
        lemma_text_within("invite "@ + word + " failed ("@, code, ")"@);
    }
}

/// Whether the row at `at` is the first of a room.
pub open spec fn is_first_row(rooms: Seq<RoomRow>, room_id: Seq<char>, at: int) -> bool {
    &&& 0 <= at < rooms.len()
    &&& rooms[at].room_id == room_id
    &&& forall|i: int| 0 <= i < at ==> (#[trigger] rooms[i]).room_id != room_id
}

/// An invite without an answer on its way takes one: it is on its way from then on, under its
/// transaction, and its row says so. Any other room takes none.
pub proof fn lemma_invite_request_is_shown(
    shown: DesktopView,
    room_id: Seq<char>,
    client_txn_id: Seq<char>,
    action: InviteAction,
    at: int,
)
    requires
        is_first_row(shown.rooms, room_id, at),
    ensures
        ({
            let after = state::after_invite_request(shown, room_id, client_txn_id, action);
            let free = shown.rooms[at].membership is Invited
                && !shown.pending_invites.dom().contains(room_id);
            &&& free ==> {
                &&& after.pending_invites.dom().contains(room_id)
                &&& after.pending_invites[room_id] == action
                &&& after.pending_invite_txns.dom().contains(client_txn_id)
                &&& after.pending_invite_txns[client_txn_id] == room_id
                &&& after.rooms[at].invite_pending
                &&& action is Accept ==> after.rooms[at].invite_pending_text
                    == "Accepting invite..."@
                &&& action is Reject ==> after.rooms[at].invite_pending_text
                    == "Rejecting invite..."@
            }
            &&& !free ==> after == shown
        }),
{
    state::lemma_room_index(shown.rooms, room_id);
    let found = state::room_index(shown.rooms, room_id);
    assert(shown.rooms[at].room_id == room_id);
    assert(found is Some);
    assert(shown.rooms[found->0].room_id == room_id);
}

/// Media and encryption events change nothing that is shown.
pub proof fn lemma_other_events_are_not_shown(shown: DesktopView, event: BackendEventView)
    requires
        event is MediaUploadAck || event is MediaDownloadAck || event is CryptoStatus,
    ensures
        state::reduce(shown, event) == shown,
{
}

/// A new client shows nothing: no room, no message, no error and no dialog.
pub proof fn lemma_fresh_client_shows_nothing(own_user_id: Seq<char>, max_items: nat)
    ensures
        ({
            let fresh = state::fresh_state(own_user_id, max_items);
            &&& fresh.own_user_id == own_user_id
            &&& fresh.rooms.len() == 0
            &&& fresh.messages.len() == 0
            &&& fresh.selected is None
            &&& fresh.error is None
            &&& !fresh.dialog.visible
            &&& fresh.max_items >= 1
            &&& max_items >= 1 ==> fresh.max_items == max_items
            &&& forall|room_id: Seq<char>| !fresh.timelines.dom().contains(room_id)
        }),
{
}

/// Whether no later item is of the same event.
pub open spec fn is_last_of_event(items: Seq<TimelineItemView>, at: int) -> bool {
    items[at].event_id is None || forall|j: int|
        at < j < items.len() ==> (#[trigger] items[j]).event_id != items[at].event_id
}

/// Number of the first `upto` items that no later item repeats.
pub open spec fn kept_before(items: Seq<TimelineItemView>, upto: nat) -> nat
    decreases upto,
{
    if upto == 0 {
        0
    } else {
        kept_before(items, (upto - 1) as nat) + if is_last_of_event(items, upto - 1) {
            1nat
        } else {
            0nat
        }
    }
}

proof fn lemma_kept_before_of_rest(items: Seq<TimelineItemView>, upto: nat)
    requires
        1 <= upto <= items.len(),
    ensures
        kept_before(items, upto) == kept_before(items.skip(1), (upto - 1) as nat)
            + if is_last_of_event(items, 0) { 1nat } else { 0nat },
    decreases upto,
{
    let rest = items.skip(1);
    if upto > 1 {
        lemma_kept_before_of_rest(items, (upto - 1) as nat);
        assert(is_last_of_event(items, upto - 1) == is_last_of_event(rest, upto - 2)) by {
            assert(rest[upto - 2] == items[upto - 1]);
            if is_last_of_event(items, upto - 1) && items[upto - 1].event_id is Some {
                assert forall|j: int| upto - 2 < j < rest.len() implies (#[trigger] rest[j]).event_id
                    != rest[upto - 2].event_id by {
                    assert(rest[j] == items[j + 1]);
                }
            }
            if is_last_of_event(rest, upto - 2) && items[upto - 1].event_id is Some {
                assert forall|j: int| upto - 1 < j < items.len() implies (
                #[trigger] items[j]).event_id != items[upto - 1].event_id by {
                    assert(rest[j - 1] == items[j]);
                }
            }
        }
    } else {
        assert(kept_before(items, 1) == kept_before(items, 0) + if is_last_of_event(items, 0) {
            1nat
        } else {
            0nat
        });
    }
}

/// Of the items of one event the last stays, and items without an event all stay; those that
/// stay keep their order, and nothing is added.
pub proof fn lemma_last_item_of_each_event_stays(items: Seq<TimelineItemView>)
    ensures
        timeline_rows::last_instances(items).len() == kept_before(items, items.len()),
        forall|i: int|
            0 <= i < items.len() && is_last_of_event(items, i) ==> {
                let at = kept_before(items, i as nat);
                &&& at < timeline_rows::last_instances(items).len()
                &&& timeline_rows::last_instances(items)[at as int] == #[trigger] items[i]
            },
    decreases items.len(),
{
    if items.len() > 0 {
        let rest = items.skip(1);
        let kept = timeline_rows::last_instances(items);
        lemma_last_item_of_each_event_stays(rest);
        lemma_kept_before_of_rest(items, items.len());
        let stays = is_last_of_event(items, 0);
        assert(stays == (items[0].event_id is None || !timeline_rows::holds_event(
            rest,
            items[0].event_id->0,
        ))) by {
            if items[0].event_id is Some {
                let event_id = items[0].event_id->0;
                if timeline_rows::holds_event(rest, event_id) {
                    let j = choose|j: int|
                        0 <= j < rest.len() && (#[trigger] rest[j]).event_id == Some(event_id);
                    assert(items[j + 1].event_id == items[0].event_id);
                }
                if !stays {
                    let j = choose|j: int|
                        0 < j < items.len() && (#[trigger] items[j]).event_id
                            == items[0].event_id;
                    assert(rest[j - 1].event_id == Some(event_id));
                }
            }
        }
        assert forall|i: int| 0 <= i < items.len() && is_last_of_event(items, i) implies ({
            let at = kept_before(items, i as nat);
            &&& at < kept.len()
            &&& kept[at as int] == #[trigger] items[i]
        }) by {
            if i > 0 {
                lemma_kept_before_of_rest(items, i as nat);
                assert(rest[i - 1] == items[i]);
                assert(is_last_of_event(rest, i - 1)) by {
                    if items[i].event_id is Some {
                        assert forall|j: int| i - 1 < j < rest.len() implies (
                        #[trigger] rest[j]).event_id != rest[i - 1].event_id by {
                            assert(rest[j] == items[j + 1]);
                        }
                    }
                }
            }
        }
    }
}

/// Older events are asked for near the top of the view, one request at a time for each room,
/// and not again before the cooldown is over; a room that was never asked for has to wait for
/// nothing but the cooldown since the clock's start.
pub proof fn lemma_older_events_are_asked_for(
    tracker: PaginationView,
    room_id: Seq<char>,
    other: Seq<char>,
    asked_ms: u64,
    now_ms: u64,
    cooldown_ms: u64,
)
    requires
        other != room_id,
    ensures
        ({
            let asked = pagination::after_request(tracker, room_id, asked_ms);
            let answered = PaginationView { in_flight: asked.in_flight.remove(room_id), ..asked };
            &&& !pagination::wants_page(tracker, room_id, false, now_ms, cooldown_ms)
            &&& !pagination::wants_page(asked, room_id, true, now_ms, cooldown_ms)
            &&& now_ms >= asked_ms + cooldown_ms ==> pagination::wants_page(
                answered,
                room_id,
                true,
                now_ms,
                cooldown_ms,
            )
            &&& asked_ms <= now_ms < asked_ms + cooldown_ms ==> !pagination::wants_page(
                answered,
                room_id,
                true,
                now_ms,
                cooldown_ms,
            )
            &&& pagination::wants_page(asked, other, true, now_ms, cooldown_ms)
                == pagination::wants_page(tracker, other, true, now_ms, cooldown_ms)
            &&& asked.in_flight.contains(room_id)
            &&& !tracker.in_flight.contains(room_id)
                && !tracker.last_requested_ms.dom().contains(room_id) && now_ms >= cooldown_ms
                ==> pagination::wants_page(tracker, room_id, true, now_ms, cooldown_ms)
        }),
{
}

/// The dialogs of the security menu: a shown text stands as it is with no control, a prompt adds
/// the input, a dismissed dialog is not seen and forgets its key, a running restore says so and
/// a copied key too.
pub proof fn lemma_dialogs_show_what_they_are_for(
    dialog: DialogView,
    mode: security_dialog::SecurityDialogMode,
    title: Seq<char>,
    body: Seq<char>,
)
    ensures
        ({
            let shown = security_dialog::text_dialog(mode, title, body);
            let prompt = security_dialog::restore_dialog(title, body);
            let hidden = security_dialog::dismissed(dialog);
            let running = security_dialog::restoring(dialog);
            let copied = security_dialog::copied(dialog);
            &&& shown.visible && shown.title == title && shown.body == body && shown.mode == mode
            &&& !shown.show_copy_button && !shown.show_restore_input && shown.recovery_key is None
            &&& !shown.restore_in_flight
            &&& prompt.visible && prompt.show_restore_input && prompt.title == title
                && prompt.body == body
            &&& !prompt.show_copy_button && !prompt.restore_in_flight
            &&& !hidden.visible && hidden.recovery_key is None && !hidden.restore_in_flight
                && !hidden.show_restore_input && !hidden.show_copy_button
            &&& running.restore_in_flight
            &&& running.title == dialog.title && running.body == dialog.body
                && running.recovery_key == dialog.recovery_key
            &&& dialog.recovery_key is Some && dialog.show_copy_button ==> copied.copy_button_text
                == "Copied"@
            &&& copied.recovery_key == dialog.recovery_key && copied.body == dialog.body
                && copied.visible == dialog.visible
        }),
{
}

/// The states of a backup and of recovery are shown by their names.
pub proof fn lemma_recovery_states_are_named()
    ensures
        state::backup_state_name(KeyBackupState::Unknown) == "Unknown"@,
        state::backup_state_name(KeyBackupState::Creating) == "Creating"@,
        state::backup_state_name(KeyBackupState::Enabling) == "Enabling"@,
        state::backup_state_name(KeyBackupState::Resuming) == "Resuming"@,
        state::backup_state_name(KeyBackupState::Enabled) == "Enabled"@,
        state::backup_state_name(KeyBackupState::Downloading) == "Downloading"@,
        state::backup_state_name(KeyBackupState::Disabling) == "Disabling"@,
        state::recovery_state_name(RecoveryState::Unknown) == "Unknown"@,
        state::recovery_state_name(RecoveryState::Enabled) == "Enabled"@,
        state::recovery_state_name(RecoveryState::Disabled) == "Disabled"@,
        state::recovery_state_name(RecoveryState::Incomplete) == "Incomplete"@,
        state::yes_or_no(true) == "yes"@,
        state::yes_or_no(false) == "no"@,
{
}

/// A status dialog shows the two states and the two answers, line by line.
pub proof fn lemma_status_dialog_shows_four_lines(status: RecoveryStatus)
    ensures
        state::recovery_status_text(status) == "Backup state: "@ + state::backup_state_name(
            status.backup_state,
        ) + "\nBackup enabled locally: "@ + (if status.backup_enabled {
            "yes"@
        } else {
            "no"@
        }) + "\nBackup exists on server: "@ + (if status.backup_exists_on_server {
            "yes"@
        } else {
            "no"@
        }) + "\nRecovery state: "@ + state::recovery_state_name(status.recovery_state),
{
}

/// The timeline of a room is the one that its events made; a room without one is empty.
pub proof fn lemma_timeline_is_that_of_the_room(shown: DesktopView, room_id: Seq<char>)
    ensures
        shown.timelines.dom().contains(room_id) ==> state::timeline_of(shown, room_id)
            == shown.timelines[room_id],
        !shown.timelines.dom().contains(room_id) ==> state::timeline_of(shown, room_id).len() == 0,
{
}

/// The dialogs around a backup and a restore have their titles and labels.
pub proof fn lemma_dialogs_have_their_titles(
    shown: DesktopView,
    client_txn_id: Seq<char>,
    recovery_key: Seq<char>,
    dialog: DialogView,
)
    ensures
        ({
            let created = state::reduce(
                shown,
                BackendEventView::RecoveryEnableAck {
                    client_txn_id,
                    recovery_key: Some(recovery_key),
                    error_code: None,
                },
            );
            let enabled = state::reduce(
                shown,
                BackendEventView::RecoveryEnableAck {
                    client_txn_id,
                    recovery_key: None,
                    error_code: Some("recovery_already_enabled"@),
                },
            );
            let present = state::reduce(
                shown,
                BackendEventView::RecoveryEnableAck {
                    client_txn_id,
                    recovery_key: None,
                    error_code: Some("recovery_backup_exists"@),
                },
            );
            let unknown = state::reduce(
                shown,
                BackendEventView::RecoveryEnableAck {
                    client_txn_id,
                    recovery_key: None,
                    error_code: None,
                },
            );
            &&& created.dialog.title == "Identity Backup Created"@
            &&& created.dialog.copy_button_text == "Copy Key"@
            &&& enabled.dialog.title == "Identity Backup Status"@
            &&& enabled.dialog.body
                == "Identity backup is already enabled on this client. Use \"Check Backup Status\" to inspect current state and existing recovery setup."@
            &&& present.dialog.title == "Identity Backup Status"@
            &&& present.dialog.body
                == "A server-side key backup already exists for this account. Use \"Check Backup Status\" to inspect state, then restore secrets with your existing recovery key/passphrase instead of creating a new backup."@
            &&& unknown.error == Some("identity backup failed (unknown)"@)
        }),
        !dialog.restore_in_flight ==> security_dialog::restoring(dialog).restore_button_text
            == "Restoring..."@,
        dialog.restore_in_flight ==> security_dialog::restoring(dialog) == dialog,
        security_dialog::text_dialog(dialog.mode, dialog.title, dialog.body).restore_button_text
            == "Restore"@,
        state::fresh_state(client_txn_id, 1).status == "Idle"@,
{
    reveal_strlit("recovery_already_enabled");
    reveal_strlit("recovery_backup_exists");
    assert("recovery_already_enabled"@.len() == 24 && "recovery_backup_exists"@.len() == 22);
}

/// A data directory of another account is told with what to do about it.
pub proof fn lemma_foreign_store_is_explained(shown: DesktopView)
    ensures
        ({
            let after = state::reduce(
                shown,
                BackendEventView::AuthResult {
                    success: false,
                    error_code: Some("crypto_store_account_mismatch"@),
                },
            );
            after.error == Some(
                "authentication failed (crypto_store_account_mismatch): local data dir belongs to a different account; set PIKACHAT_DATA_DIR or remove the existing store"@,
            )
        }),
{
}

} // verus!
