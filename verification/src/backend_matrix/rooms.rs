//! Room summaries from the SDK's rooms.
use vstd::prelude::*;

use crate::backend_core::types::{
    self, RoomMembership, RoomSummary, RoomSummaryView,
};
use crate::text;

verus! {

/// Membership of the user in a room, as the SDK has it.
#[derive(Debug, Clone, Copy, PartialEq, Eq, Structural)]
pub enum SdkRoomState {
    /// The user joined.
    Joined,
    /// The user is invited.
    Invited,
    /// The user left, knocked or was banned.
    Other,
}

/// A room as the SDK has it.
#[derive(Debug, PartialEq, Eq)]
pub struct SdkRoom {
    /// Room ID.
    pub room_id: String,
    /// Name, where the room has one.
    pub name: Option<String>,
    /// Notification count.
    pub notification_count: u64,
    /// Highlight count.
    pub highlight_count: u64,
    /// Number of users that the room is a direct chat with.
    pub direct_targets: usize,
    /// Membership of the user.
    pub state: SdkRoomState,
}

/// The summary of a room that the user joined or is invited to.
pub open spec fn summary_of(room: SdkRoom) -> Option<RoomSummaryView> {
    let membership = match room.state {
        SdkRoomState::Joined => Some(RoomMembership::Joined),
        SdkRoomState::Invited => Some(RoomMembership::Invited),
        SdkRoomState::Other => None,
    };
    match membership {
        Some(membership) => Some(
            RoomSummaryView {
                room_id: room.room_id@,
                name: types::opt_chars(room.name),
                unread_notifications: room.notification_count,
                highlight_count: room.highlight_count,
                is_direct: room.direct_targets > 0,
                membership,
            },
        ),
        None => None,
    }
}

/// The summaries, each room put behind those whose ID is not greater.
pub open spec fn sorted_summaries(rooms: Seq<SdkRoom>) -> Seq<RoomSummaryView>
    decreases rooms.len(),
{
    if rooms.len() == 0 {
        Seq::empty()
    } else {
        let before = sorted_summaries(rooms.drop_last());
        match summary_of(rooms.last()) {
            Some(summary) => before.insert(insert_position(before, summary.room_id), summary),
            None => before,
        }
    }
}

/// Where a room goes: behind the last of `rooms` whose ID is not greater.
pub open spec fn insert_position(rooms: Seq<RoomSummaryView>, room_id: Seq<char>) -> int
    decreases rooms.len(),
{
    if rooms.len() == 0 || !text::precedes(room_id, rooms.last().room_id) {
        rooms.len() as int
    } else {
        insert_position(rooms.drop_last(), room_id)
    }
}

/// A room goes somewhere between the others.
pub proof fn lemma_insert_position_in_range(rooms: Seq<RoomSummaryView>, room_id: Seq<char>)
    ensures
        0 <= insert_position(rooms, room_id) <= rooms.len(),
    decreases rooms.len(),
{
    if rooms.len() > 0 && text::precedes(room_id, rooms.last().room_id) {
        lemma_insert_position_in_range(rooms.drop_last(), room_id);
    }
}

fn summarize(room: &SdkRoom) -> (summary: Option<RoomSummary>)
    ensures
        match summary {
            Some(summary) => summary_of(*room) == Some(summary@),
            None => summary_of(*room) is None,
        },
{
    let membership = match room.state {
        SdkRoomState::Joined => RoomMembership::Joined,
        SdkRoomState::Invited => RoomMembership::Invited,
        SdkRoomState::Other => return None,
    };
    Some(
        RoomSummary {
            room_id: room.room_id.clone(),
            name: types::clone_opt_string(&room.name),
            unread_notifications: room.notification_count,
            highlight_count: room.highlight_count,
            is_direct: room.direct_targets > 0,
            membership,
        },
    )
}

fn find_position(rooms: &Vec<RoomSummary>, room_id: &str) -> (position: usize)
    ensures
        position == insert_position(types::room_views(rooms@), room_id@),
        position <= rooms@.len(),
{
    let ghost views = types::room_views(rooms@);
    let mut position: usize = rooms.len();
    proof {
        assert(views.take(position as int) =~= views);
    }
    while position > 0 && text::comes_before(room_id, rooms[position - 1].room_id.as_str())
        invariant
            position <= rooms@.len(),
            views == types::room_views(rooms@),
            insert_position(views, room_id@) == insert_position(
                views.take(position as int),
                room_id@,
            ),
        decreases position,
    {
        proof {
            assert(views.take(position as int).drop_last() =~= views.take(position - 1));
        }
        position -= 1;
    }
    position
}

/// The summaries of the rooms that the user joined or is invited to, by room ID.
pub fn collect_room_summaries(rooms: &[SdkRoom]) -> (summaries: Vec<RoomSummary>)
    ensures
        types::room_views(summaries@) == sorted_summaries(rooms@),
{
    let mut summaries: Vec<RoomSummary> = Vec::new();
    proof {
        assert(rooms@.take(0) =~= Seq::<SdkRoom>::empty());
        assert(types::room_views(summaries@) =~= Seq::<RoomSummaryView>::empty());
    }
    let mut at: usize = 0;
    while at < rooms.len()
        invariant
            at <= rooms@.len(),
            types::room_views(summaries@) == sorted_summaries(rooms@.take(at as int)),
        decreases rooms@.len() - at,
    {
        proof {
            assert(rooms@.take(at + 1).drop_last() =~= rooms@.take(at as int));
        }
        match summarize(&rooms[at]) {
            Some(summary) => {
                let ghost before = types::room_views(summaries@);
                let position = find_position(&summaries, summary.room_id.as_str());
                summaries.insert(position, summary);
                proof {
                    assert(types::room_views(summaries@) =~= before.insert(
                        position as int,
                        summary@,
                    ));
                }
            },
            None => {},
        }
        at += 1;
    }
    proof {
        assert(rooms@.take(at as int) =~= rooms@);
    }
    summaries
}

/// The room list is sorted by room ID.
pub proof fn lemma_summaries_are_sorted(rooms: Seq<SdkRoom>)
    ensures
        forall|i: int, j: int|
            0 <= i < j < sorted_summaries(rooms).len() ==> !text::precedes(
                (#[trigger] sorted_summaries(rooms)[j]).room_id,
                (#[trigger] sorted_summaries(rooms)[i]).room_id,
            ),
    decreases rooms.len(),
{
    if rooms.len() > 0 {
        lemma_summaries_are_sorted(rooms.drop_last());
        let before = sorted_summaries(rooms.drop_last());
        match summary_of(rooms.last()) {
            Some(summary) => {
                let at = insert_position(before, summary.room_id);
                lemma_insert_position_splits(before, summary.room_id);
                let after = sorted_summaries(rooms);
                assert forall|i: int, j: int| 0 <= i < j < after.len() implies !text::precedes(
                    (#[trigger] after[j]).room_id,
                    (#[trigger] after[i]).room_id,
                ) by {
                    let old_i = if i < at { i } else { i - 1 };
                    let old_j = if j < at { j } else { j - 1 };
                    if i == at {
                        assert(after[j] == before[old_j]);
                        text::lemma_precedes_is_asymmetric(summary.room_id, after[j].room_id);
                    } else if j == at {
                        assert(after[i] == before[old_i]);
                    } else {
                        assert(after[i] == before[old_i] && after[j] == before[old_j]);
                    }
                }
            },
            None => {},
        }
    }
}

proof fn lemma_insert_position_splits(rooms: Seq<RoomSummaryView>, room_id: Seq<char>)
    requires
        forall|i: int, j: int|
            0 <= i < j < rooms.len() ==> !text::precedes(
                (#[trigger] rooms[j]).room_id,
                (#[trigger] rooms[i]).room_id,
            ),
    ensures
        0 <= insert_position(rooms, room_id) <= rooms.len(),
        forall|i: int|
            0 <= i < insert_position(rooms, room_id) ==> !text::precedes(
                room_id,
                (#[trigger] rooms[i]).room_id,
            ),
        forall|i: int|
            insert_position(rooms, room_id) <= i < rooms.len() ==> text::precedes(
                room_id,
                (#[trigger] rooms[i]).room_id,
            ),
    decreases rooms.len(),
{
    if rooms.len() > 0 {
        let last = rooms.last();
        let front = rooms.drop_last();
        if text::precedes(room_id, last.room_id) {
            assert forall|i: int, j: int| 0 <= i < j < front.len() implies !text::precedes(
                (#[trigger] front[j]).room_id,
                (#[trigger] front[i]).room_id,
            ) by {
                assert(front[i] == rooms[i] && front[j] == rooms[j]);
            }
            lemma_insert_position_splits(front, room_id);
            assert forall|i: int| 0 <= i < insert_position(rooms, room_id) implies !text::precedes(
                room_id,
                (#[trigger] rooms[i]).room_id,
            ) by {
                assert(front[i] == rooms[i]);
            }
            assert forall|i: int|
                insert_position(rooms, room_id) <= i < rooms.len() implies text::precedes(
                room_id,
                (#[trigger] rooms[i]).room_id,
            ) by {
                if i < rooms.len() - 1 {
                    assert(front[i] == rooms[i]);
                }
            }
        } else {
            assert forall|i: int| 0 <= i < rooms.len() implies !text::precedes(
                room_id,
                (#[trigger] rooms[i]).room_id,
            ) by {
                if i < rooms.len() - 1 && text::precedes(room_id, rooms[i].room_id) {
                    assert(!text::precedes(rooms[rooms.len() - 1].room_id, rooms[i].room_id));
                    text::lemma_precedes_or_not(rooms[i].room_id, last.room_id, room_id);
                }
            }
        }
    }
}

/// Every room that the user joined or is invited to is listed, and no other.
pub proof fn lemma_summaries_are_complete(rooms: Seq<SdkRoom>, summary: RoomSummaryView)
    ensures
        sorted_summaries(rooms).contains(summary) <==> exists|i: int|
            0 <= i < rooms.len() && summary_of(#[trigger] rooms[i]) == Some(summary),
    decreases rooms.len(),
{
    if rooms.len() > 0 {
        let front = rooms.drop_last();
        let before = sorted_summaries(front);
        let after = sorted_summaries(rooms);
        lemma_summaries_are_complete(front, summary);
        match summary_of(rooms.last()) {
            Some(last) => {
                let at = insert_position(before, last.room_id);
                lemma_insert_position_in_range(before, last.room_id);
                assert(after[at] == last);
                if before.contains(summary) {
                    let i = before.index_of(summary);
                    assert(after[if i < at { i } else { i + 1 }] == summary);
                }
                if after.contains(summary) {
                    let i = after.index_of(summary);
                    if i != at {
                        assert(before[if i < at { i } else { i - 1 }] == summary);
                    }
                }
            },
            None => {},
        }
        if exists|i: int| 0 <= i < front.len() && summary_of(#[trigger] front[i]) == Some(summary) {
            let i = choose|i: int|
                0 <= i < front.len() && summary_of(#[trigger] front[i]) == Some(summary);
            assert(rooms[i] == front[i]);
        }
        if exists|i: int| 0 <= i < rooms.len() && summary_of(#[trigger] rooms[i]) == Some(summary) {
            let i = choose|i: int|
                0 <= i < rooms.len() && summary_of(#[trigger] rooms[i]) == Some(summary);
            if i < rooms.len() - 1 {
                assert(front[i] == rooms[i]);
            }
        }
        assert(rooms[rooms.len() - 1] == rooms.last());
    }
}

} // verus!
