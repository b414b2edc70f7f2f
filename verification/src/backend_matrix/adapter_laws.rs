//! What becomes of queued commands and relayed events, and how the room list is made up.
use vstd::prelude::*;

use super::adapter::{self, FrontendCommandId, MatrixFrontendAdapter, QueuedFrontendCommand};
use super::rooms::{self, SdkRoom};
use crate::backend_core::timeline;
use crate::backend_core::types::{self, BackendCommand, BackendEvent, BackendEventView};
use crate::text;

verus! {

/// Commands are sent in the order in which they were queued: a new one goes behind the others,
/// under an ID that is one more than the last, and the first one is taken.
pub proof fn lemma_commands_are_sent_in_order()
    ensures
        forall|adapter: &mut MatrixFrontendAdapter, command: BackendCommand, id: FrontendCommandId|
            #[trigger] call_ensures(MatrixFrontendAdapter::enqueue, (adapter, command), id) ==> {
                let before = (*adapter).queued();
                let after = final(adapter).queued();
                &&& after.len() == before.len() + 1
                &&& after[before.len() as int].command == command
                &&& after[before.len() as int].id == id
                &&& id.number() == (*adapter).next_id()
                &&& (*adapter).next_id() < u64::MAX ==> final(adapter).next_id()
                    == (*adapter).next_id() + 1
                &&& forall|i: int| 0 <= i < before.len() ==> #[trigger] after[i] == before[i]
                &&& final(adapter).timelines() == (*adapter).timelines()
            },
        forall|adapter: &mut MatrixFrontendAdapter, next: Option<QueuedFrontendCommand>|
            #[trigger] call_ensures(MatrixFrontendAdapter::take_next, (adapter,), next) ==> {
                let before = (*adapter).queued();
                let after = final(adapter).queued();
                &&& next is None <==> before.len() == 0
                &&& before.len() > 0 ==> {
                    &&& next == Some(before[0])
                    &&& after.len() + 1 == before.len()
                    &&& forall|i: int| 0 <= i < after.len() ==> #[trigger] after[i] == before[i + 1]
                }
                &&& before.len() == 0 ==> after.len() == 0
                &&& final(adapter).timelines() == (*adapter).timelines()
            },
        forall|adapter: &mut MatrixFrontendAdapter, queued: QueuedFrontendCommand|
            #[trigger] call_ensures(MatrixFrontendAdapter::put_back, (adapter, queued), ()) ==> {
                let before = (*adapter).queued();
                let after = final(adapter).queued();
                &&& after.len() == before.len() + 1
                &&& after[0] == queued
                &&& forall|i: int| 0 <= i < before.len() ==> #[trigger] after[i + 1] == before[i]
            },
{
}

/// Cancelling takes the command with the ID out of the queue and leaves the others in their
/// order; an unknown ID changes nothing.
pub proof fn lemma_cancelled_command_is_not_sent(at: int)
    ensures
        forall|adapter: &mut MatrixFrontendAdapter, id: FrontendCommandId, cancelled: bool|
            #[trigger] call_ensures(MatrixFrontendAdapter::cancel, (adapter, id), cancelled)
                && is_first_with((*adapter).queued(), id, at) ==> {
                let before = (*adapter).queued();
                let after = final(adapter).queued();
                &&& cancelled
                &&& after.len() + 1 == before.len()
                &&& forall|i: int| 0 <= i < at ==> #[trigger] after[i] == before[i]
                &&& forall|i: int| at <= i < after.len() ==> #[trigger] after[i] == before[i + 1]
            },
        forall|adapter: &mut MatrixFrontendAdapter, id: FrontendCommandId, cancelled: bool|
            #[trigger] call_ensures(MatrixFrontendAdapter::cancel, (adapter, id), cancelled)
                && is_without((*adapter).queued(), id) ==> {
                &&& !cancelled
                &&& final(adapter).queued() == (*adapter).queued()
            },
{
    assert forall|adapter: &mut MatrixFrontendAdapter, id: FrontendCommandId, cancelled: bool|
        #[trigger] call_ensures(MatrixFrontendAdapter::cancel, (adapter, id), cancelled)
            && is_first_with((*adapter).queued(), id, at) implies ({
        let before = (*adapter).queued();
        let after = final(adapter).queued();
        &&& cancelled
        &&& after.len() + 1 == before.len()
        &&& forall|i: int| 0 <= i < at ==> #[trigger] after[i] == before[i]
        &&& forall|i: int| at <= i < after.len() ==> #[trigger] after[i] == before[i + 1]
    }) by {
        lemma_index_is_first((*adapter).queued(), id, at);
    }
    assert forall|adapter: &mut MatrixFrontendAdapter, id: FrontendCommandId, cancelled: bool|
        #[trigger] call_ensures(MatrixFrontendAdapter::cancel, (adapter, id), cancelled)
            && is_without((*adapter).queued(), id) implies ({
        &&& !cancelled
        &&& final(adapter).queued() == (*adapter).queued()
    }) by {
        lemma_index_is_none((*adapter).queued(), id);
    }
}

/// Whether the command at `at` is the first with the ID.
pub open spec fn is_first_with(
    queue: Seq<QueuedFrontendCommand>,
    id: FrontendCommandId,
    at: int,
) -> bool {
    &&& 0 <= at < queue.len()
    &&& queue[at].id == id
    &&& forall|i: int| 0 <= i < at ==> (#[trigger] queue[i]).id != id
}

/// Whether no command has the ID.
pub open spec fn is_without(queue: Seq<QueuedFrontendCommand>, id: FrontendCommandId) -> bool {
    forall|i: int| 0 <= i < queue.len() ==> (#[trigger] queue[i]).id != id
}

proof fn lemma_index_is_first(
    queue: Seq<QueuedFrontendCommand>,
    id: FrontendCommandId,
    at: int,
)
    requires
        is_first_with(queue, id, at),
    ensures
        adapter::queue_index(queue, id) == Some(at),
    decreases queue.len(),
{
    let front = queue.drop_last();
    assert(forall|i: int| 0 <= i < front.len() ==> front[i] == #[trigger] queue[i]);
    if at < front.len() {
        lemma_index_is_first(front, id, at);
    } else {
        lemma_index_is_none(front, id);
    }
}

proof fn lemma_index_is_none(queue: Seq<QueuedFrontendCommand>, id: FrontendCommandId)
    requires
        is_without(queue, id),
    ensures
        adapter::queue_index(queue, id) is None,
    decreases queue.len(),
{
    if queue.len() > 0 {
        let front = queue.drop_last();
        assert(forall|i: int| 0 <= i < front.len() ==> front[i] == #[trigger] queue[i]);
        lemma_index_is_none(front, id);
    }
}

/// Every event is handed on first, as it is. A delta is followed by a snapshot of its room, with
/// what the operations make of the items that were there; other rooms stay as they are, and any
/// other event is handed on alone.
pub proof fn lemma_events_are_handed_on()
    ensures
        forall|adapter: &mut MatrixFrontendAdapter, event: BackendEvent, events: Vec<BackendEvent>|
            #[trigger] call_ensures(MatrixFrontendAdapter::relay, (adapter, event), events) ==> {
                let sent = types::event_views(events@);
                &&& sent.len() >= 1
                &&& sent[0] == event@
                &&& !(event@ is RoomTimelineDelta) ==> sent.len() == 1
                    && final(adapter).timelines() == (*adapter).timelines()
                &&& event@ is RoomTimelineDelta ==> {
                    let room_id = event@->RoomTimelineDelta_room_id;
                    let items = final(adapter).timelines()[room_id];
                    &&& sent.len() == 2
                    &&& sent[1] == (BackendEventView::RoomTimelineSnapshot { room_id, items })
                    &&& final(adapter).timelines().dom().contains(room_id)
                    &&& items == timeline::merge_all_lenient(
                        adapter::timeline_of((*adapter).timelines(), room_id),
                        event@->RoomTimelineDelta_ops,
                        (*adapter).max_items(),
                    )
                    &&& forall|other: Seq<char>|
                        other != room_id ==> #[trigger] adapter::timeline_of(
                            final(adapter).timelines(),
                            other,
                        ) == adapter::timeline_of((*adapter).timelines(), other)
                }
                &&& final(adapter).queued() == (*adapter).queued()
            },
{
}

/// A room has the items that its deltas made; a room without one has none.
pub proof fn lemma_room_without_delta_is_empty(
    timelines: Map<Seq<char>, Seq<types::TimelineItemView>>,
    room_id: Seq<char>,
)
    ensures
        timelines.dom().contains(room_id) ==> adapter::timeline_of(timelines, room_id)
            == timelines[room_id],
        !timelines.dom().contains(room_id) ==> adapter::timeline_of(timelines, room_id).len() == 0,
{
}

/// A room that the user joined or is invited to is listed with its ID, name and counts, and as a
/// direct chat where it has a target; a room that the user left is not.
pub proof fn lemma_rooms_are_summarized(room: SdkRoom)
    ensures
        room.state is Other <==> rooms::summary_of(room) is None,
        rooms::summary_of(room) matches Some(summary) ==> {
            &&& summary.room_id == room.room_id@
            &&& summary.name == types::opt_chars(room.name)
            &&& summary.unread_notifications == room.notification_count
            &&& summary.highlight_count == room.highlight_count
            &&& summary.is_direct <==> room.direct_targets >= 1
            &&& summary.membership is Joined <==> room.state is Joined
            &&& summary.membership is Invited <==> room.state is Invited
        },
{
}

/// Number of the first `upto` rooms that are listed.
pub open spec fn listed_before(all: Seq<SdkRoom>, upto: nat) -> nat
    decreases upto,
{
    if upto == 0 {
        0
    } else {
        listed_before(all, (upto - 1) as nat) + if all[upto - 1].state is Other {
            0nat
        } else {
            1nat
        }
    }
}

proof fn lemma_listed_before_of_prefix(all: Seq<SdkRoom>, upto: nat)
    requires
        upto < all.len(),
    ensures
        listed_before(all, upto) == listed_before(all.drop_last(), upto),
    decreases upto,
{
    if upto > 0 {
        lemma_listed_before_of_prefix(all, (upto - 1) as nat);
        assert(all[upto - 1] == all.drop_last()[upto - 1]);
    }
}

/// Each room of the user is listed once: as many summaries as rooms that were joined or that the
/// user is invited to.
pub proof fn lemma_each_room_is_listed_once(all: Seq<SdkRoom>)
    ensures
        rooms::sorted_summaries(all).len() == listed_before(all, all.len()),
    decreases all.len(),
{
    if all.len() > 0 {
        let front = all.drop_last();
        lemma_each_room_is_listed_once(front);
        lemma_listed_before_of_prefix(all, front.len());
        if rooms::summary_of(all.last()) is Some {
            rooms::lemma_insert_position_in_range(
                rooms::sorted_summaries(front),
                rooms::summary_of(all.last())->0.room_id,
            );
        }
    }
}

/// Rooms that are already in the order of their IDs are listed in that order.
pub proof fn lemma_sorted_rooms_keep_their_order(all: Seq<SdkRoom>)
    requires
        forall|i: int| 0 <= i < all.len() ==> !((#[trigger] all[i]).state is Other),
        forall|i: int, j: int|
            0 <= i < j < all.len() ==> !text::precedes(
                (#[trigger] all[j]).room_id@,
                (#[trigger] all[i]).room_id@,
            ),
    ensures
        rooms::sorted_summaries(all).len() == all.len(),
        forall|i: int|
            0 <= i < all.len() ==> Some(#[trigger] rooms::sorted_summaries(all)[i])
                == rooms::summary_of(all[i]),
    decreases all.len(),
{
    if all.len() > 0 {
        let front = all.drop_last();
        let before = rooms::sorted_summaries(front);
        let last = all.last();
        assert(forall|i: int| 0 <= i < front.len() ==> front[i] == #[trigger] all[i]);
        lemma_sorted_rooms_keep_their_order(front);
        assert(all[all.len() - 1] == last);
        if before.len() > 0 {
            let at = before.len() - 1;
            assert(Some(before[at]) == rooms::summary_of(front[at]));
            assert(before.last().room_id == all[at].room_id@);
        }
        assert(rooms::insert_position(before, last.room_id@) == before.len());
        let after = rooms::sorted_summaries(all);
        assert(after =~= before.push(rooms::summary_of(last)->0));
        assert forall|i: int| 0 <= i < all.len() implies Some(#[trigger] after[i])
            == rooms::summary_of(all[i]) by {
            if i < front.len() {
                assert(after[i] == before[i]);
                assert(front[i] == all[i]);
            }
        }
    }
}

} // verus!
