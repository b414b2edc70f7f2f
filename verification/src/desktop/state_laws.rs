//! What holds of the desktop state whatever events and actions it has seen.
use vstd::prelude::*;

use super::security_dialog::{self, SecurityDialogMode};
use super::state::{self, DesktopView, RoomRow};
use super::timeline_rows;
use crate::backend_core::types::{
    BackendEventView, InviteAction, RoomSummaryView, TimelineItemView,
};

verus! {

/// Exactly the rows of the selected room are marked.
pub open spec fn marks_selection(state: DesktopView) -> bool {
    forall|i: int|
        0 <= i < state.rooms.len() ==> (#[trigger] state.rooms[i]).is_selected == (state.selected
            == Some(state.rooms[i].room_id))
}

/// Every room with an answer to an invite on its way is listed.
pub open spec fn lists_pending(state: DesktopView) -> bool {
    forall|room_id: Seq<char>| #[trigger]
        state.pending_invites.dom().contains(room_id) ==> state::lists_room(state.rooms, room_id)
}

/// No timeline holds an event twice or more items than allowed.
pub open spec fn timelines_are_tidy(state: DesktopView) -> bool {
    forall|room_id: Seq<char>| #[trigger]
        state.timelines.dom().contains(room_id) ==> timeline_rows::events_are_distinct(
            state.timelines[room_id],
        ) && state.timelines[room_id].len() <= state.max_items
}

/// The visible messages are those of the selected room, the selection is marked, pending
/// invites are listed, and timelines and dialog are tidy.
pub open spec fn is_consistent(state: DesktopView) -> bool {
    &&& state.messages == state::visible_messages(
        state.selected,
        state.timelines,
        state.own_user_id,
    )
    &&& marks_selection(state)
    &&& lists_pending(state)
    &&& timelines_are_tidy(state)
    &&& security_dialog::is_tidy(state.dialog)
}

/// A new state is consistent.
pub proof fn lemma_fresh_state_is_consistent(own_user_id: Seq<char>, max_items: nat)
    ensures
        is_consistent(state::fresh_state(own_user_id, max_items)),
{
}

proof fn lemma_rows_reflect_rooms(
    rooms: Seq<RoomSummaryView>,
    invited: bool,
    selected: Option<Seq<char>>,
    pending: Map<Seq<char>, InviteAction>,
)
    ensures
        forall|i: int|
            #![trigger state::rows_of(rooms, invited, selected, pending)[i]]
            0 <= i < state::rows_of(rooms, invited, selected, pending).len() ==> ({
                let row = state::rows_of(rooms, invited, selected, pending)[i];
                &&& row.is_selected == (selected == Some(row.room_id))
                &&& row.invite_pending == pending.dom().contains(row.room_id)
                &&& (row.membership is Invited) == invited
            }),
    decreases rooms.len(),
{
    if rooms.len() > 0 {
        lemma_rows_reflect_rooms(rooms.drop_last(), invited, selected, pending);
    }
}

proof fn lemma_sidebar_reflects_rooms(
    rooms: Seq<RoomSummaryView>,
    selected: Option<Seq<char>>,
    pending: Map<Seq<char>, InviteAction>,
)
    ensures
        forall|i: int|
            0 <= i < state::sidebar(rooms, selected, pending).len() ==> ({
                let row = #[trigger] state::sidebar(rooms, selected, pending)[i];
                &&& row.is_selected == (selected == Some(row.room_id))
                &&& row.invite_pending == pending.dom().contains(row.room_id)
            }),
{
    lemma_rows_reflect_rooms(rooms, true, selected, pending);
    lemma_rows_reflect_rooms(rooms, false, selected, pending);
    let first = state::rows_of(rooms, true, selected, pending);
    let second = state::rows_of(rooms, false, selected, pending);
    let all = state::sidebar(rooms, selected, pending);
    assert forall|i: int| 0 <= i < all.len() implies ({
        let row = #[trigger] all[i];
        &&& row.is_selected == (selected == Some(row.room_id))
        &&& row.invite_pending == pending.dom().contains(row.room_id)
    }) by {
        if i < first.len() {
            assert(all[i] == first[i]);
        } else {
            assert(all[i] == second[i - first.len()]);
        }
    }
}

/// The sidebar lists the invites first and the other rooms behind them.
pub proof fn lemma_sidebar_lists_invites_first(
    rooms: Seq<RoomSummaryView>,
    selected: Option<Seq<char>>,
    pending: Map<Seq<char>, InviteAction>,
    i: int,
    j: int,
)
    requires
        0 <= i < j < state::sidebar(rooms, selected, pending).len(),
        state::sidebar(rooms, selected, pending)[j].membership is Invited,
    ensures
        state::sidebar(rooms, selected, pending)[i].membership is Invited,
{
    lemma_rows_reflect_rooms(rooms, true, selected, pending);
    lemma_rows_reflect_rooms(rooms, false, selected, pending);
    let first = state::rows_of(rooms, true, selected, pending);
    let second = state::rows_of(rooms, false, selected, pending);
    let all = state::sidebar(rooms, selected, pending);
    if j >= first.len() {
        assert(all[j] == second[j - first.len()]);
    }
    assert(all[i] == first[i]);
}

/// The sidebar lists as many rooms as the backend named.
pub proof fn lemma_sidebar_lists_every_room(
    rooms: Seq<RoomSummaryView>,
    selected: Option<Seq<char>>,
    pending: Map<Seq<char>, InviteAction>,
)
    ensures
        state::sidebar(rooms, selected, pending).len() == rooms.len(),
        forall|i: int|
            0 <= i < rooms.len() ==> state::sidebar(rooms, selected, pending).contains(
                state::row_of(#[trigger] rooms[i], selected, pending),
            ),
    decreases rooms.len(),
{
    if rooms.len() > 0 {
        let front = rooms.drop_last();
        lemma_sidebar_lists_every_room(front, selected, pending);
        let old_first = state::rows_of(front, true, selected, pending);
        let old_second = state::rows_of(front, false, selected, pending);
        let first = state::rows_of(rooms, true, selected, pending);
        let second = state::rows_of(rooms, false, selected, pending);
        let old_all = state::sidebar(front, selected, pending);
        let all = state::sidebar(rooms, selected, pending);
        let last = state::row_of(rooms.last(), selected, pending);
        assert forall|i: int| 0 <= i < rooms.len() implies all.contains(
            state::row_of(#[trigger] rooms[i], selected, pending),
        ) by {
            let row = state::row_of(rooms[i], selected, pending);
            if i == rooms.len() - 1 {
                if rooms.last().membership is Invited {
                    assert(all[old_first.len() as int] == last);
                } else {
                    assert(all[all.len() - 1] == last);
                }
            } else {
                assert(front[i] == rooms[i]);
                assert(old_all.contains(row));
                let k = old_all.index_of(row);
                if k < old_first.len() {
                    assert(all[k] == old_first[k]);
                } else {
                    let shift: int = if rooms.last().membership is Invited { 1 } else { 0 };
                    assert(all[k + shift] == old_second[k - old_first.len()]);
                }
            }
        }
    }
}

/// Every backend event keeps the state consistent.
pub proof fn lemma_events_keep_state_consistent(state: DesktopView, event: BackendEventView)
    requires
        is_consistent(state),
    ensures
        is_consistent(state::reduce(state, event)),
{
    match event {
        BackendEventView::RoomListUpdated { rooms } => {
            lemma_rooms_keep_state_consistent(state, rooms);
        },
        BackendEventView::RoomTimelineSnapshot { room_id, items } => {
            lemma_timeline_keeps_state_consistent(state, room_id, items);
        },
        BackendEventView::RoomTimelineDelta { room_id, ops } => {
            lemma_timeline_keeps_state_consistent(
                state,
                room_id,
                timeline_rows::apply_delta(state::timeline_of(state, room_id), ops),
            );
        },
        BackendEventView::InviteActionAck { client_txn_id, room_id, action, error_code } => {
            let room = state::acked_room(state, client_txn_id, room_id);
            lemma_invite_note_keeps_rows(state.rooms, room, false, Seq::empty());
            let after = state::reduce(state, event);
            assert forall|other: Seq<char>| #[trigger]
                after.pending_invites.dom().contains(other) implies state::lists_room(
                after.rooms,
                other,
            ) by {
                assert(state.pending_invites.dom().contains(other));
            }
            assert(marks_selection(after)) by {
                assert forall|i: int| 0 <= i < after.rooms.len() implies (
                #[trigger] after.rooms[i]).is_selected == (after.selected == Some(
                    after.rooms[i].room_id,
                )) by {
                    assert(state.rooms[i].is_selected == (state.selected == Some(
                        state.rooms[i].room_id,
                    )));
                }
            }
        },
        BackendEventView::RecoveryEnableAck { recovery_key, .. } => {
            if let Some(recovery_key) = recovery_key {
                security_dialog::lemma_dialogs_are_tidy(
                    state.dialog,
                    SecurityDialogMode::Info,
                    recovery_key,
                    recovery_key,
                );
            }
        },
        _ => {},
    }
}

proof fn lemma_rooms_keep_state_consistent(state: DesktopView, rooms: Seq<RoomSummaryView>)
    requires
        is_consistent(state),
    ensures
        is_consistent(state::after_rooms(state, rooms)),
{
    let after = state::after_rooms(state, rooms);
    lemma_sidebar_reflects_rooms(rooms, state.selected, state.pending_invites);
    let rows = after.rooms;
    assert forall|i: int| 0 <= i < rows.len() implies (#[trigger] rows[i]).is_selected == (
    after.selected == Some(rows[i].room_id)) by {
        if after.selected is None && state.selected is Some {
            assert(!state::lists_room(rows, state.selected->0));
            assert(rows[i].room_id != state.selected->0);
        }
    }
}

proof fn lemma_timeline_keeps_state_consistent(
    state: DesktopView,
    room_id: Seq<char>,
    items: Seq<TimelineItemView>,
)
    requires
        is_consistent(state),
    ensures
        is_consistent(state::after_timeline(state, room_id, items)),
{
    timeline_rows::lemma_deduped_is_distinct_and_bounded(items, state.max_items);
    let after = state::after_timeline(state, room_id, items);
    assert forall|other: Seq<char>| #[trigger]
        after.timelines.dom().contains(other) implies timeline_rows::events_are_distinct(
        after.timelines[other],
    ) && after.timelines[other].len() <= after.max_items by {
        if other != room_id {
            assert(state.timelines.dom().contains(other));
        }
    }
    assert(after.rooms == state.rooms);
    assert(marks_selection(after));
}

proof fn lemma_invite_note_keeps_rows(
    rows: Seq<RoomRow>,
    room_id: Seq<char>,
    pending: bool,
    note: Seq<char>,
)
    ensures
        ({
            let noted = state::with_invite_note(rows, room_id, pending, note);
            &&& noted.len() == rows.len()
            &&& forall|i: int|
                0 <= i < rows.len() ==> {
                    &&& (#[trigger] noted[i]).room_id == rows[i].room_id
                    &&& noted[i].is_selected == rows[i].is_selected
                    &&& noted[i].membership == rows[i].membership
                }
            &&& forall|other: Seq<char>| #[trigger]
                state::lists_room(noted, other) <==> state::lists_room(rows, other)
        }),
{
    let noted = state::with_invite_note(rows, room_id, pending, note);
    state::lemma_room_index(rows, room_id);
    assert forall|other: Seq<char>| #[trigger] state::lists_room(noted, other)
        <==> state::lists_room(rows, other) by {
        if state::lists_room(noted, other) {
            let i = choose|i: int| 0 <= i < noted.len() && (#[trigger] noted[i]).room_id == other;
            assert(rows[i].room_id == other);
        }
        if state::lists_room(rows, other) {
            let i = choose|i: int| 0 <= i < rows.len() && (#[trigger] rows[i]).room_id == other;
            assert(noted[i].room_id == other);
        }
    }
}

/// Selecting a room keeps the state consistent.
pub proof fn lemma_selection_keeps_state_consistent(state: DesktopView, room_id: Seq<char>)
    requires
        is_consistent(state),
    ensures
        is_consistent(state::after_select(state, room_id)),
{
    let after = state::after_select(state, room_id);
    assert forall|other: Seq<char>| #[trigger]
        after.pending_invites.dom().contains(other) implies state::lists_room(
        after.rooms,
        other,
    ) by {
        assert(state::lists_room(state.rooms, other));
        let i = choose|i: int|
            0 <= i < state.rooms.len() && (#[trigger] state.rooms[i]).room_id == other;
        assert(after.rooms[i].room_id == other);
    }
}

/// Answering an invite keeps the state consistent.
pub proof fn lemma_invite_request_keeps_state_consistent(
    state: DesktopView,
    room_id: Seq<char>,
    client_txn_id: Seq<char>,
    action: InviteAction,
)
    requires
        is_consistent(state),
    ensures
        is_consistent(state::after_invite_request(state, room_id, client_txn_id, action)),
{
    let after = state::after_invite_request(state, room_id, client_txn_id, action);
    let note = state::pending_text(action);
    lemma_invite_note_keeps_rows(state.rooms, room_id, true, note);
    state::lemma_room_index(state.rooms, room_id);
    assert forall|other: Seq<char>| #[trigger]
        after.pending_invites.dom().contains(other) implies state::lists_room(
        after.rooms,
        other,
    ) by {
        if other == room_id && after != state {
            assert(state::is_invite(state, room_id));
            assert(state.rooms[state::room_index(state.rooms, room_id)->0].room_id == room_id);
        } else {
            assert(state.pending_invites.dom().contains(other));
        }
    }
    if after != state {
        assert forall|i: int| 0 <= i < after.rooms.len() implies (
        #[trigger] after.rooms[i]).is_selected == (after.selected == Some(
            after.rooms[i].room_id,
        )) by {
            assert(state.rooms[i].is_selected == (state.selected == Some(
                state.rooms[i].room_id,
            )));
        }
    }
}

/// An invite takes one answer at a time: while one is on its way another is refused, and
/// its acknowledgement lets the next one through.
pub proof fn lemma_invite_takes_one_answer_at_a_time(
    state: DesktopView,
    room_id: Seq<char>,
    client_txn_id: Seq<char>,
    action: InviteAction,
    other_txn_id: Seq<char>,
    other_action: InviteAction,
)
    requires
        state::is_invite(state, room_id),
        !state.pending_invites.dom().contains(room_id),
    ensures
        ({
            let asked = state::after_invite_request(state, room_id, client_txn_id, action);
            let acked = state::after_invite_ack(asked, client_txn_id, room_id, action, None);
            &&& asked.pending_invites.dom().contains(room_id)
            &&& state::after_invite_request(asked, room_id, other_txn_id, other_action) == asked
            &&& !acked.pending_invites.dom().contains(room_id)
        }),
{
}

/// A message on its way is no longer so once it is acknowledged, with an error or not.
pub proof fn lemma_send_ack_ends_send(
    state: DesktopView,
    client_txn_id: Seq<char>,
    error_code: Option<Seq<char>>,
)
    ensures
        !state::after_send_ack(state, client_txn_id, error_code).pending_sends.contains(
            client_txn_id,
        ),
        state::after_send_ack(state, client_txn_id, error_code).error is Some <==> error_code
            is Some,
{
}

/// A status that arrives while a recovery key is shown does not replace it.
pub proof fn lemma_status_keeps_recovery_key(
    state: DesktopView,
    recovery_key: Seq<char>,
    status: crate::backend_core::types::RecoveryStatus,
)
    ensures
        ({
            let shown = state::after_enable_ack(state, Some(recovery_key), None);
            state::reduce(shown, BackendEventView::RecoveryStatus(status)) == shown
        }),
{
}

} // verus!
