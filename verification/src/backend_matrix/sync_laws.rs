//! What a sync response does, update by update and event by event.
use vstd::prelude::*;

use super::events::{self, SyncEvent, TimelineInsertMode};
use super::sync::{
    self, EventBodies, RoomBodiesMap, RoomDelta, RoomDeltaView, RoomEventBodies, RoomUpdate,
    SyncProgress,
};
use super::sync_loop::SyncLoop;
use crate::backend_core::types::{
    self, BackendEvent, BackendEventView, TimelineItemView, TimelineOp, TimelineOpView,
};

verus! {

/// The bodies known in a room in front of the update at `upto`: those known before the response,
/// changed by the earlier updates of that room alone.
pub open spec fn known_before(
    rooms: RoomBodiesMap,
    updates: Seq<RoomUpdate>,
    room_id: Seq<char>,
    upto: nat,
) -> Map<Seq<char>, Seq<char>>
    decreases upto,
{
    if upto == 0 {
        if rooms.dom().contains(room_id) { rooms[room_id] } else { Map::empty() }
    } else {
        let earlier = known_before(rooms, updates, room_id, (upto - 1) as nat);
        let update = updates[upto - 1];
        if update.room_id@ == room_id {
            sync::sync_events(sync::sync_start(earlier, update.limited), update.events@).known
        } else {
            earlier
        }
    }
}

/// The operations of the update at `at`.
pub open spec fn ops_of_update(rooms: RoomBodiesMap, updates: Seq<RoomUpdate>, at: int) -> Seq<
    TimelineOpView,
> {
    let update = updates[at];
    sync::sync_events(
        sync::sync_start(
            known_before(rooms, updates, update.room_id@, at as nat),
            update.limited,
        ),
        update.events@,
    ).ops
}

/// Number of the first `upto` updates that have operations.
pub open spec fn deltas_before(rooms: RoomBodiesMap, updates: Seq<RoomUpdate>, upto: nat) -> nat
    decreases upto,
{
    if upto == 0 {
        0
    } else {
        deltas_before(rooms, updates, (upto - 1) as nat) + if ops_of_update(
            rooms,
            updates,
            upto - 1,
        ).len() > 0 {
            1nat
        } else {
            0nat
        }
    }
}

proof fn lemma_known_before_of_prefix(
    rooms: RoomBodiesMap,
    updates: Seq<RoomUpdate>,
    room_id: Seq<char>,
    upto: nat,
)
    requires
        upto < updates.len(),
    ensures
        known_before(rooms, updates, room_id, upto) == known_before(
            rooms,
            updates.drop_last(),
            room_id,
            upto,
        ),
    decreases upto,
{
    if upto > 0 {
        lemma_known_before_of_prefix(rooms, updates, room_id, (upto - 1) as nat);
        assert(updates[upto - 1] == updates.drop_last()[upto - 1]);
    }
}

proof fn lemma_deltas_before_of_prefix(
    rooms: RoomBodiesMap,
    updates: Seq<RoomUpdate>,
    upto: nat,
)
    requires
        upto < updates.len(),
    ensures
        deltas_before(rooms, updates, upto) == deltas_before(rooms, updates.drop_last(), upto),
    decreases upto,
{
    if upto > 0 {
        let at = upto - 1;
        lemma_deltas_before_of_prefix(rooms, updates, at as nat);
        assert(updates[at] == updates.drop_last()[at]);
        lemma_known_before_of_prefix(rooms, updates, updates[at].room_id@, at as nat);
    }
}

/// Every update whose events yield operations has one delta, with its room's ID and exactly
/// those operations; the deltas stand in the order of the updates, and there are no others.
/// What is known of a room afterwards comes from its own updates.
pub proof fn lemma_every_update_is_reported(rooms: RoomBodiesMap, updates: Seq<RoomUpdate>)
    ensures
        ({
            let after = sync::sync_rooms(rooms, updates);
            &&& after.deltas.len() == deltas_before(rooms, updates, updates.len())
            &&& forall|k: int|
                0 <= k < updates.len() && ops_of_update(rooms, updates, k).len() > 0 ==> {
                    let at = deltas_before(rooms, updates, k as nat);
                    &&& at < after.deltas.len()
                    &&& after.deltas[at as int].room_id == (#[trigger] updates[k]).room_id@
                    &&& after.deltas[at as int].ops == ops_of_update(rooms, updates, k)
                }
            &&& forall|j: int, k: int|
                0 <= j < k < updates.len() && ops_of_update(rooms, updates, j).len() > 0
                    ==> #[trigger] deltas_before(rooms, updates, j as nat)
                    < #[trigger] deltas_before(rooms, updates, k as nat)
            &&& forall|room_id: Seq<char>|
                #[trigger] sync::bodies_of(after.rooms, room_id) == known_before(
                    rooms,
                    updates,
                    room_id,
                    updates.len(),
                )
        }),
    decreases updates.len(),
{
    let after = sync::sync_rooms(rooms, updates);
    if updates.len() > 0 {
        let front = updates.drop_last();
        let last = updates.last();
        let before = sync::sync_rooms(rooms, front);
        lemma_every_update_is_reported(rooms, front);
        lemma_deltas_before_of_prefix(rooms, updates, front.len());
        lemma_known_before_of_prefix(rooms, updates, last.room_id@, front.len());
        assert(sync::bodies_of(before.rooms, last.room_id@) == known_before(
            rooms,
            front,
            last.room_id@,
            front.len(),
        ));
        assert forall|k: int|
            0 <= k < updates.len() && ops_of_update(rooms, updates, k).len() > 0 implies ({
            let at = deltas_before(rooms, updates, k as nat);
            &&& at < after.deltas.len()
            &&& after.deltas[at as int].room_id == (#[trigger] updates[k]).room_id@
            &&& after.deltas[at as int].ops == ops_of_update(rooms, updates, k)
        }) by {
            if k < front.len() {
                assert(front[k] == updates[k]);
                lemma_known_before_of_prefix(rooms, updates, updates[k].room_id@, k as nat);
                lemma_deltas_before_of_prefix(rooms, updates, k as nat);
                let at = deltas_before(rooms, front, k as nat);
                assert(ops_of_update(rooms, front, k) == ops_of_update(rooms, updates, k));
                assert(before.deltas[at as int].room_id == front[k].room_id@);
            }
        }
        assert forall|room_id: Seq<char>| #[trigger] sync::bodies_of(after.rooms, room_id)
            == known_before(rooms, updates, room_id, updates.len()) by {
            lemma_known_before_of_prefix(rooms, updates, room_id, front.len());
            assert(sync::bodies_of(before.rooms, room_id) == known_before(
                rooms,
                front,
                room_id,
                front.len(),
            ));
        }
    }
    assert forall|j: int, k: int|
        0 <= j < k < updates.len() && ops_of_update(rooms, updates, j).len()
            > 0 implies #[trigger] deltas_before(rooms, updates, j as nat)
        < #[trigger] deltas_before(rooms, updates, k as nat) by {
        lemma_deltas_before_is_monotonic(rooms, updates, j as nat, k as nat);
    }
}

proof fn lemma_deltas_before_is_monotonic(
    rooms: RoomBodiesMap,
    updates: Seq<RoomUpdate>,
    low: nat,
    high: nat,
)
    requires
        low <= high,
    ensures
        deltas_before(rooms, updates, low) <= deltas_before(rooms, updates, high),
        low < high && ops_of_update(rooms, updates, low as int).len() > 0 ==> deltas_before(
            rooms,
            updates,
            low,
        ) < deltas_before(rooms, updates, high),
    decreases high,
{
    if low < high {
        if low < high - 1 {
            lemma_deltas_before_is_monotonic(rooms, updates, low, (high - 1) as nat);
        }
    }
}

/// Rooms do not mix: in a response that names each room once, the operations of an update
/// depend on what was known of its own room before the response, and on nothing else.
pub proof fn lemma_rooms_do_not_mix(rooms: RoomBodiesMap, updates: Seq<RoomUpdate>, k: int)
    requires
        0 <= k < updates.len(),
        forall|i: int|
            0 <= i < updates.len() && i != k ==> (#[trigger] updates[i]).room_id@
                != updates[k].room_id@,
    ensures
        ({
            let update = updates[k];
            let alone = sync::sync_events(
                sync::sync_start(sync::bodies_of(rooms, update.room_id@), update.limited),
                update.events@,
            );
            let delta = RoomDeltaView { room_id: update.room_id@, ops: alone.ops };
            let after = sync::sync_rooms(rooms, updates);
            &&& alone.ops.len() > 0 <==> after.deltas.contains(delta)
            &&& sync::bodies_of(after.rooms, update.room_id@) == alone.known
        }),
{
    let update = updates[k];
    let room_id = update.room_id@;
    let alone = sync::sync_events(
        sync::sync_start(sync::bodies_of(rooms, room_id), update.limited),
        update.events@,
    );
    lemma_every_update_is_reported(rooms, updates);
    lemma_known_of_one_update(rooms, updates, k, k as nat);
    lemma_known_of_one_update(rooms, updates, k, updates.len());
    let after = sync::sync_rooms(rooms, updates);
    let delta = RoomDeltaView { room_id, ops: alone.ops };
    assert(ops_of_update(rooms, updates, k) == alone.ops);
    if alone.ops.len() > 0 {
        let at = deltas_before(rooms, updates, k as nat) as int;
        assert(updates[k].room_id@ == room_id);
        assert(after.deltas[at] =~= delta);
    }
    if after.deltas.contains(delta) {
        let at = after.deltas.index_of(delta);
        lemma_deltas_have_operations(rooms, updates);
        assert(after.deltas[at].ops.len() > 0);
    }
    assert(sync::bodies_of(after.rooms, room_id) == alone.known);
}

proof fn lemma_known_of_one_update(
    rooms: RoomBodiesMap,
    updates: Seq<RoomUpdate>,
    k: int,
    upto: nat,
)
    requires
        0 <= k < updates.len(),
        upto <= updates.len(),
        forall|i: int|
            0 <= i < updates.len() && i != k ==> (#[trigger] updates[i]).room_id@
                != updates[k].room_id@,
    ensures
        known_before(rooms, updates, updates[k].room_id@, upto) == if upto <= k {
            sync::bodies_of(rooms, updates[k].room_id@)
        } else {
            sync::sync_events(
                sync::sync_start(
                    sync::bodies_of(rooms, updates[k].room_id@),
                    updates[k].limited,
                ),
                updates[k].events@,
            ).known
        },
    decreases upto,
{
    if upto > 0 {
        lemma_known_of_one_update(rooms, updates, k, (upto - 1) as nat);
        if upto - 1 != k {
            assert(updates[upto - 1].room_id@ != updates[k].room_id@);
        }
    }
}

/// No delta is empty.
pub proof fn lemma_deltas_have_operations(rooms: RoomBodiesMap, updates: Seq<RoomUpdate>)
    ensures
        forall|i: int|
            0 <= i < sync::sync_rooms(rooms, updates).deltas.len() ==> (
            #[trigger] sync::sync_rooms(rooms, updates).deltas[i]).ops.len() > 0,
    decreases updates.len(),
{
    if updates.len() > 0 {
        lemma_deltas_have_operations(rooms, updates.drop_last());
        let before = sync::sync_rooms(rooms, updates.drop_last());
        let after = sync::sync_rooms(rooms, updates);
        assert forall|i: int| 0 <= i < after.deltas.len() implies (
        #[trigger] after.deltas[i]).ops.len() > 0 by {
            if i < before.deltas.len() {
                assert(after.deltas[i] == before.deltas[i]);
            }
        }
    }
}

/// A message that was not seen before is appended, behind what was emitted, and its body is
/// known from then on; nothing else changes.
pub proof fn lemma_new_message_is_appended(progress: SyncProgress, item: TimelineItemView)
    requires
        item.event_id matches Some(event_id) ==> !progress.known.dom().contains(event_id),
    ensures
        ({
            let after = sync::sync_step(progress, Some(TimelineOpView::Append(item)));
            &&& after.ops.len() == progress.ops.len() + 1
            &&& after.ops[progress.ops.len() as int] == TimelineOpView::Append(item)
            &&& forall|i: int|
                0 <= i < progress.ops.len() ==> #[trigger] after.ops[i] == progress.ops[i]
            &&& item.event_id matches Some(event_id) ==> {
                &&& after.known.dom().contains(event_id)
                &&& after.known[event_id] == item.body
            }
            &&& forall|other: Seq<char>|
                item.event_id != Some(other) ==> {
                    &&& (#[trigger] after.known.dom().contains(other))
                        == progress.known.dom().contains(other)
                    &&& progress.known.dom().contains(other) ==> after.known[other]
                        == progress.known[other]
                }
        }),
{
}

/// A message that was seen with another body becomes an edit to the new body, and is not shown
/// twice; one that was seen with the same body does nothing.
pub proof fn lemma_seen_message_is_not_repeated(
    progress: SyncProgress,
    item: TimelineItemView,
    event_id: Seq<char>,
)
    requires
        item.event_id == Some(event_id),
        progress.known.dom().contains(event_id),
    ensures
        ({
            let after = sync::sync_step(progress, Some(TimelineOpView::Append(item)));
            &&& after.known.dom().contains(event_id) && after.known[event_id] == item.body
            &&& progress.known[event_id] == item.body ==> after.ops == progress.ops
            &&& progress.known[event_id] != item.body ==> {
                &&& after.ops.len() == progress.ops.len() + 1
                &&& after.ops[progress.ops.len() as int] == (TimelineOpView::UpdateBody {
                    event_id,
                    new_body: item.body,
                })
                &&& forall|i: int|
                    0 <= i < progress.ops.len() ==> #[trigger] after.ops[i] == progress.ops[i]
            }
        }),
{
}

/// An edit and a removal are passed on behind what was emitted; the body is known afterwards as
/// the edit has it, and not at all after a removal.
pub proof fn lemma_edits_and_removals_are_passed_on(
    progress: SyncProgress,
    event_id: Seq<char>,
    new_body: Seq<char>,
)
    ensures
        ({
            let edit = TimelineOpView::UpdateBody { event_id, new_body };
            let removal = TimelineOpView::Remove { event_id };
            let edited = sync::sync_step(progress, Some(edit));
            let removed = sync::sync_step(progress, Some(removal));
            &&& edited.ops.len() == progress.ops.len() + 1
            &&& edited.ops[progress.ops.len() as int] == edit
            &&& removed.ops.len() == progress.ops.len() + 1
            &&& removed.ops[progress.ops.len() as int] == removal
            &&& forall|i: int|
                0 <= i < progress.ops.len() ==> (#[trigger] progress.ops[i]) == edited.ops[i]
                    && progress.ops[i] == removed.ops[i]
            &&& edited.known.dom().contains(event_id) && edited.known[event_id] == new_body
            &&& !removed.known.dom().contains(event_id)
            &&& forall|other: Seq<char>|
                other != event_id ==> {
                    &&& (#[trigger] progress.known.dom().contains(other))
                        == edited.known.dom().contains(other)
                    &&& progress.known.dom().contains(other) == removed.known.dom().contains(
                        other,
                    )
                    &&& progress.known.dom().contains(other) ==> progress.known[other]
                        == edited.known[other] && progress.known[other] == removed.known[other]
                }
        }),
{
}

/// Events that stand for nothing do nothing, in a sync and in a refresh.
pub proof fn lemma_irrelevant_events_do_nothing(progress: SyncProgress)
    ensures
        sync::sync_step(progress, None) == progress,
        sync::refresh_step(progress, None) == progress,
{
}

/// What was emitted stays, in front of what follows.
pub proof fn lemma_sync_only_adds_operations(start: SyncProgress, events: Seq<SyncEvent>)
    ensures
        ({
            let after = sync::sync_events(start, events);
            &&& start.ops.len() <= after.ops.len() <= start.ops.len() + events.len()
            &&& forall|i: int| 0 <= i < start.ops.len() ==> #[trigger] after.ops[i] == start.ops[i]
        }),
    decreases events.len(),
{
    if events.len() > 0 {
        lemma_sync_only_adds_operations(start, events.drop_last());
    }
}

/// A limited sync clears the timeline before anything else, even without events; another one
/// never does, and without events it does nothing.
pub proof fn lemma_limited_sync_clears_first(
    known: Map<Seq<char>, Seq<char>>,
    events: Seq<SyncEvent>,
)
    ensures
        ({
            let limited = sync::sync_events(sync::sync_start(known, true), events);
            let whole = sync::sync_events(sync::sync_start(known, false), events);
            let nothing = sync::sync_events(sync::sync_start(known, false), Seq::empty());
            &&& limited.ops.len() > 0
            &&& limited.ops[0] is Clear
            &&& forall|i: int| 0 < i < limited.ops.len() ==> !(#[trigger] limited.ops[i] is Clear)
            &&& forall|i: int| 0 <= i < whole.ops.len() ==> !(#[trigger] whole.ops[i] is Clear)
            &&& nothing.ops.len() == 0
            &&& nothing.known == known
        }),
{
    lemma_sync_only_adds_operations(sync::sync_start(known, true), events);
    lemma_sync_clears_no_more(sync::sync_start(known, true), events);
    lemma_sync_clears_no_more(sync::sync_start(known, false), events);
}

proof fn lemma_sync_clears_no_more(start: SyncProgress, events: Seq<SyncEvent>)
    ensures
        ({
            let after = sync::sync_events(start, events);
            &&& start.ops.len() <= after.ops.len()
            &&& forall|i: int|
                start.ops.len() <= i < after.ops.len() ==> !(#[trigger] after.ops[i] is Clear)
        }),
    decreases events.len(),
{
    if events.len() > 0 {
        lemma_sync_clears_no_more(start, events.drop_last());
    }
}

/// Whether events are messages that were not seen, with IDs of their own.
pub open spec fn are_new_messages(
    known: Map<Seq<char>, Seq<char>>,
    events: Seq<SyncEvent>,
    items: Seq<TimelineItemView>,
) -> bool {
    &&& items.len() == events.len()
    &&& forall|i: int|
        0 <= i < events.len() ==> {
            &&& events::event_op(#[trigger] events[i], TimelineInsertMode::Append) == Some(
                TimelineOpView::Append(items[i]),
            )
            &&& items[i].event_id matches Some(event_id) ==> !known.dom().contains(event_id)
        }
    &&& forall|i: int, j: int|
        0 <= i < j < events.len() && (#[trigger] items[i]).event_id is Some ==> items[i].event_id
            != (#[trigger] items[j]).event_id
}

/// New messages are all appended, each once and in their order, behind what was emitted.
pub proof fn lemma_new_messages_are_appended_in_order(
    start: SyncProgress,
    events: Seq<SyncEvent>,
    items: Seq<TimelineItemView>,
)
    requires
        are_new_messages(start.known, events, items),
    ensures
        ({
            let after = sync::sync_events(start, events);
            &&& after.ops.len() == start.ops.len() + items.len()
            &&& forall|i: int| 0 <= i < start.ops.len() ==> #[trigger] after.ops[i] == start.ops[i]
            &&& forall|k: int|
                0 <= k < items.len() ==> after.ops[start.ops.len() + k] == TimelineOpView::Append(
                    #[trigger] items[k],
                )
            &&& forall|event_id: Seq<char>| #[trigger]
                after.known.dom().contains(event_id) ==> start.known.dom().contains(event_id) || (
                exists|k: int|
                    0 <= k < items.len() && (#[trigger] items[k]).event_id == Some(event_id))
        }),
    decreases events.len(),
{
    if events.len() > 0 {
        let front = events.drop_last();
        let fewer = items.drop_last();
        assert forall|i: int| 0 <= i < front.len() implies ({
            &&& events::event_op(#[trigger] front[i], TimelineInsertMode::Append) == Some(
                TimelineOpView::Append(fewer[i]),
            )
            &&& fewer[i].event_id matches Some(event_id) ==> !start.known.dom().contains(event_id)
        }) by {
            assert(front[i] == events[i]);
        }
        assert forall|i: int, j: int|
            0 <= i < j < front.len() && (#[trigger] fewer[i]).event_id is Some implies fewer[i].event_id
            != (#[trigger] fewer[j]).event_id by {
            assert(fewer[i] == items[i] && fewer[j] == items[j]);
        }
        lemma_new_messages_are_appended_in_order(start, front, fewer);
        let before = sync::sync_events(start, front);
        let last = items.last();
        assert(events::event_op(events[events.len() - 1], TimelineInsertMode::Append) == Some(
            TimelineOpView::Append(last),
        ));
        if let Some(event_id) = last.event_id {
            if before.known.dom().contains(event_id) {
                let k = choose|k: int|
                    0 <= k < fewer.len() && (#[trigger] fewer[k]).event_id == Some(event_id);
                assert(items[k].event_id == items[items.len() - 1].event_id);
            }
        }
        let after = sync::sync_events(start, events);
        assert forall|k: int| 0 <= k < items.len() implies after.ops[start.ops.len() + k]
            == TimelineOpView::Append(#[trigger] items[k]) by {
            if k < fewer.len() {
                assert(fewer[k] == items[k]);
            }
        }
        assert forall|event_id: Seq<char>| #[trigger]
            after.known.dom().contains(event_id) implies start.known.dom().contains(event_id) || (
        exists|k: int| 0 <= k < items.len() && (#[trigger] items[k]).event_id == Some(event_id)) by {
            if before.known.dom().contains(event_id) {
                if !start.known.dom().contains(event_id) {
                    let k = choose|k: int|
                        0 <= k < fewer.len() && (#[trigger] fewer[k]).event_id == Some(event_id);
                    assert(items[k].event_id == Some(event_id));
                }
            } else {
                assert(items[items.len() - 1].event_id == Some(event_id));
            }
        }
    }
}

/// A refresh shows the new body of a known message as an edit, removes a known event that was
/// redacted, and says nothing of a body that is as before or of an event that is not known.
pub proof fn lemma_refresh_reports_changes(
    progress: SyncProgress,
    item: TimelineItemView,
    event_id: Seq<char>,
)
    requires
        item.event_id == Some(event_id),
    ensures
        ({
            let known = progress.known.dom().contains(event_id);
            let fetched = sync::refresh_step(progress, Some(TimelineOpView::Append(item)));
            let edited = sync::refresh_step(
                progress,
                Some(TimelineOpView::UpdateBody { event_id, new_body: item.body }),
            );
            let removed = sync::refresh_step(progress, Some(TimelineOpView::Remove { event_id }));
            &&& edited == fetched
            &&& !known ==> fetched == progress && removed == progress
            &&& known && progress.known[event_id] == item.body ==> fetched == progress
            &&& known && progress.known[event_id] != item.body ==> {
                &&& fetched.ops.len() == progress.ops.len() + 1
                &&& fetched.ops[progress.ops.len() as int] == (TimelineOpView::UpdateBody {
                    event_id,
                    new_body: item.body,
                })
                &&& forall|i: int|
                    0 <= i < progress.ops.len() ==> #[trigger] fetched.ops[i] == progress.ops[i]
                &&& fetched.known.dom().contains(event_id)
                &&& fetched.known[event_id] == item.body
            }
            &&& known ==> {
                &&& removed.ops.len() == progress.ops.len() + 1
                &&& removed.ops[progress.ops.len() as int] == (TimelineOpView::Remove {
                    event_id,
                })
                &&& forall|i: int|
                    0 <= i < progress.ops.len() ==> #[trigger] removed.ops[i] == progress.ops[i]
                &&& !removed.known.dom().contains(event_id)
            }
        }),
{
}

/// How a batch of events is cut does not matter, in a sync and in a refresh.
pub proof fn lemma_event_batches_compose(
    start: SyncProgress,
    first: Seq<SyncEvent>,
    second: Seq<SyncEvent>,
)
    ensures
        sync::sync_events(start, first + second) == sync::sync_events(
            sync::sync_events(start, first),
            second,
        ),
        sync::refresh_events(start, first + second) == sync::refresh_events(
            sync::refresh_events(start, first),
            second,
        ),
        sync::sync_events(start, Seq::empty()) == start,
        sync::refresh_events(start, Seq::empty()) == start,
    decreases second.len(),
{
    let all = first + second;
    if second.len() == 0 {
        assert(all =~= first);
    } else {
        assert(all.drop_last() =~= first + second.drop_last());
        assert(all.last() == second.last());
        lemma_event_batches_compose(start, first, second.drop_last());
    }
}

/// One event does what its operation does.
pub proof fn lemma_one_event_is_one_step(start: SyncProgress, event: SyncEvent)
    ensures
        sync::sync_events(start, seq![event]) == sync::sync_step(
            start,
            events::event_op(event, TimelineInsertMode::Append),
        ),
        sync::refresh_events(start, seq![event]) == sync::refresh_step(
            start,
            events::event_op(event, TimelineInsertMode::Append),
        ),
{
    let one = seq![event];
    assert(one.drop_last() =~= Seq::<SyncEvent>::empty());
    lemma_event_batches_compose(start, Seq::empty(), Seq::empty());
}

/// Room keys are looked for in every to-device event: one that brings a key is found wherever
/// it stands.
pub proof fn lemma_room_keys_are_found_anywhere(to_device: Seq<String>, at: int)
    requires
        0 <= at < to_device.len(),
    ensures
        events::raw_string_field(to_device[at]@, "type"@) == Some("m.room_key"@)
            ==> sync::brings_room_keys(to_device),
        events::raw_string_field(to_device[at]@, "type"@) == Some("m.forwarded_room_key"@)
            ==> sync::brings_room_keys(to_device),
{
    assert(to_device[at]@ == to_device[at]@);
    if sync::is_room_key_event(to_device[at]@) {
        assert(sync::brings_room_keys(to_device));
    }
}

/// Without an event of a room-key type no room keys arrived.
pub proof fn lemma_other_to_device_events_bring_no_keys(to_device: Seq<String>)
    requires
        forall|i: int|
            0 <= i < to_device.len() ==> {
                let event_type = events::raw_string_field((#[trigger] to_device[i])@, "type"@);
                event_type != Some("m.room_key"@) && event_type != Some(
                    "m.forwarded_room_key"@,
                )
            },
    ensures
        !sync::brings_room_keys(to_device),
{
}

/// Where room keys arrived, every room in which events were seen is fetched again, once, and no
/// other, as long as there are fewer of them than the limit.
pub proof fn lemma_refresh_reaches_every_room(
    room_ids: Seq<Seq<char>>,
    rooms: RoomBodiesMap,
    room_id: Seq<char>,
    event_id: Seq<char>,
)
    requires
        sync::is_refresh_choice(room_ids, rooms),
        room_ids.len() < events::ROOM_KEY_REFRESH_ROOM_LIMIT,
        rooms.dom().contains(room_id),
        rooms[room_id].dom().contains(event_id),
    ensures
        room_ids.contains(room_id),
        forall|i: int|
            0 <= i < room_ids.len() ==> rooms.dom().contains(#[trigger] room_ids[i]),
        forall|i: int, j: int|
            0 <= i < j < room_ids.len() ==> room_ids[i] != room_ids[j],
{
    assert(sync::has_events(rooms, room_id));
    assert forall|i: int| 0 <= i < room_ids.len() implies rooms.dom().contains(
        #[trigger] room_ids[i],
    ) by {
        assert(sync::has_events(rooms, room_ids[i]));
    }
}

/// Synced and refreshed events of a room are taken as they come, and what is known of the room
/// afterwards is what they leave.
pub proof fn lemma_events_of_a_room_are_taken()
    ensures
        forall|events: &[SyncEvent], limited: bool, known: &mut EventBodies, ops: Vec<TimelineOp>|
            #[trigger] call_ensures(
                sync::timeline_ops_for_sync_events,
                (events, limited, known),
                ops,
            ) ==> {
                let after = sync::sync_events(sync::sync_start((*known)@, limited), events@);
                &&& types::op_views(ops@) == after.ops
                &&& final(known)@ == after.known
                &&& limited ==> ops@.len() > 0 && ops@[0]@ is Clear
            },
        forall|events: &[SyncEvent], known: &mut EventBodies, ops: Vec<TimelineOp>|
            #[trigger] call_ensures(
                sync::timeline_update_ops_for_refresh_events,
                (events, known),
                ops,
            ) ==> {
                let after = sync::refresh_events(
                    SyncProgress { known: (*known)@, ops: Seq::empty() },
                    events@,
                );
                &&& types::op_views(ops@) == after.ops
                &&& final(known)@ == after.known
            },
        forall|
            rooms: &mut RoomEventBodies,
            room_id: &str,
            events: &[SyncEvent],
            delta: Option<RoomDelta>,
        |
            #[trigger] call_ensures(RoomEventBodies::refresh_room, (rooms, room_id, events), delta)
                ==> {
                &&& !(*rooms)@.dom().contains(room_id@) ==> delta is None && final(rooms)@ == (
                *rooms)@
                &&& delta is Some ==> delta->0.room_id@ == room_id@ && delta->0.ops@.len() > 0
                &&& forall|other: Seq<char>|
                    other != room_id@ ==> (#[trigger] final(rooms)@.dom().contains(other))
                        == (*rooms)@.dom().contains(other)
            },
{
    assert forall|
        events: &[SyncEvent],
        limited: bool,
        known: &mut EventBodies,
        ops: Vec<TimelineOp>,
    |
        #[trigger] call_ensures(
            sync::timeline_ops_for_sync_events,
            (events, limited, known),
            ops,
        ) && limited implies ops@.len() > 0 && ops@[0]@ is Clear by {
        let start = sync::sync_start((*known)@, limited);
        lemma_sync_only_adds_operations(start, events@);
        let after = sync::sync_events(start, events@);
        assert(types::op_views(ops@).len() == ops@.len());
        assert(types::op_views(ops@)[0] == ops@[0]@);
        assert(start.ops.len() == 1 && start.ops[0] is Clear);
    }
}

/// A refreshed room that was seen is reported with exactly the operations that changed it.
pub proof fn lemma_refreshed_room_is_reported()
    ensures
        forall|
            state: &mut SyncLoop,
            room_id: &str,
            events: &[SyncEvent],
            event: Option<BackendEvent>,
        |
            #[trigger] call_ensures(SyncLoop::on_room_refreshed, (state, room_id, events), event)
                ==> {
                let known = sync::bodies_of((*state).seen(), room_id@);
                let after = sync::refresh_events(
                    SyncProgress { known, ops: Seq::empty() },
                    events@,
                );
                let was_seen = (*state).seen().dom().contains(room_id@);
                &&& event is Some <==> was_seen && after.ops.len() > 0
                &&& event is Some ==> event->0@ == (BackendEventView::RoomTimelineDelta {
                    room_id: room_id@,
                    ops: after.ops,
                })
            },
{
}

} // verus!
