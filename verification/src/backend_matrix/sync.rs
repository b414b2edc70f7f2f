//! Timeline deltas from sync responses, and the bodies of the events seen so far.
use vstd::prelude::*;

use super::events::{self, SyncEvent, TimelineInsertMode, ROOM_KEY_REFRESH_ROOM_LIMIT};
use super::sync_laws;
use crate::backend_core::types::{self, TimelineOp, TimelineOpView};
use crate::text_map::TextMap;

verus! {

/// Bodies of the events seen in one room, by event ID.
pub struct EventBodies {
    bodies: TextMap<String>,
}

impl View for EventBodies {
    type V = Map<Seq<char>, Seq<char>>;

    closed spec fn view(&self) -> Map<Seq<char>, Seq<char>> {
        self.bodies@.map_values(|body: String| body@)
    }
}

impl EventBodies {
    /// No event was seen.
    pub fn new() -> (bodies: Self)
        ensures
            bodies@ == Map::<Seq<char>, Seq<char>>::empty(),
    {
        let bodies = EventBodies { bodies: TextMap::new() };
        proof {
            assert(bodies@ =~= Map::<Seq<char>, Seq<char>>::empty());
        }
        bodies
    }

    /// Body of an event.
    pub fn get(&self, event_id: &str) -> (body: Option<&String>)
        ensures
            match body {
                Some(body) => self@.dom().contains(event_id@) && body@ == self@[event_id@],
                None => !self@.dom().contains(event_id@),
            },
    {
        self.bodies.get(event_id)
    }

    /// Whether an event was seen.
    pub fn contains_key(&self, event_id: &str) -> (yes: bool)
        ensures
            yes == self@.dom().contains(event_id@),
    {
        self.bodies.contains_key(event_id)
    }

    /// Records the body of an event.
    pub fn insert(&mut self, event_id: String, body: String)
        ensures
            final(self)@ == old(self)@.insert(event_id@, body@),
    {
        let ghost before = self@;
        self.bodies.insert(event_id, body);
        proof {
            assert(self@ =~= before.insert(event_id@, body@));
        }
    }

    /// Forgets an event.
    pub fn remove(&mut self, event_id: &str) -> (known: bool)
        ensures
            final(self)@ == old(self)@.remove(event_id@),
            known == old(self)@.dom().contains(event_id@),
    {
        let ghost before = self@;
        let removed = self.bodies.remove(event_id);
        proof {
            assert(self@ =~= before.remove(event_id@));
        }
        removed.is_some()
    }

    /// Forgets every event.
    pub fn clear(&mut self)
        ensures
            final(self)@ == Map::<Seq<char>, Seq<char>>::empty(),
    {
        self.bodies.clear();
        proof {
            assert(self@ =~= Map::<Seq<char>, Seq<char>>::empty());
        }
    }

    /// Whether no event was seen.
    pub fn is_empty(&self) -> (yes: bool)
        ensures
            yes == (self@ == Map::<Seq<char>, Seq<char>>::empty()),
    {
        let yes = self.bodies.is_empty();
        proof {
            if yes {
                assert(self@ =~= Map::<Seq<char>, Seq<char>>::empty());
            } else {
                assert(self.bodies@.dom() =~= self@.dom());
                if self@ == Map::<Seq<char>, Seq<char>>::empty() {
                    assert(self.bodies@ =~= Map::<Seq<char>, String>::empty());
                }
            }
        }
        yes
    }
}

/// Known bodies and the operations emitted so far.
#[verifier::ext_equal]
pub struct SyncProgress {
    pub known: Map<Seq<char>, Seq<char>>,
    pub ops: Seq<TimelineOpView>,
}

/// Takes in the operation that a synced event stands for. An event that was seen
/// with the same body is left out, and one that was seen with another body becomes
/// an update of that body.
pub open spec fn sync_step(progress: SyncProgress, op: Option<TimelineOpView>) -> SyncProgress {
    let known = progress.known;
    match op {
        None => progress,
        Some(TimelineOpView::Append(item)) => match item.event_id {
            Some(event_id) => if known.dom().contains(event_id) {
                if known[event_id] == item.body {
                    progress
                } else {
                    SyncProgress {
                        known: known.insert(event_id, item.body),
                        ops: progress.ops.push(
                            TimelineOpView::UpdateBody { event_id, new_body: item.body },
                        ),
                    }
                }
            } else {
                SyncProgress {
                    known: known.insert(event_id, item.body),
                    ops: progress.ops.push(TimelineOpView::Append(item)),
                }
            },
            None => SyncProgress { known, ops: progress.ops.push(TimelineOpView::Append(item)) },
        },
        Some(TimelineOpView::UpdateBody { event_id, new_body }) => SyncProgress {
            known: known.insert(event_id, new_body),
            ops: progress.ops.push(TimelineOpView::UpdateBody { event_id, new_body }),
        },
        Some(TimelineOpView::Remove { event_id }) => SyncProgress {
            known: known.remove(event_id),
            ops: progress.ops.push(TimelineOpView::Remove { event_id }),
        },
        Some(other) => SyncProgress { known, ops: progress.ops.push(other) },
    }
}

/// Takes in synced events in order.
pub open spec fn sync_events(start: SyncProgress, events: Seq<SyncEvent>) -> SyncProgress
    decreases events.len(),
{
    if events.len() == 0 {
        start
    } else {
        sync_step(
            sync_events(start, events.drop_last()),
            events::event_op(events.last(), TimelineInsertMode::Append),
        )
    }
}

/// Where a sync of a room starts: a limited one clears the timeline, because events
/// in between are missing.
pub open spec fn sync_start(known: Map<Seq<char>, Seq<char>>, limited: bool) -> SyncProgress {
    if limited {
        SyncProgress { known: Map::empty(), ops: seq![TimelineOpView::Clear] }
    } else {
        SyncProgress { known, ops: Seq::empty() }
    }
}

/// Takes in the operation that a synced event stands for.
fn take_in(op: Option<TimelineOp>, known: &mut EventBodies, ops: &mut Vec<TimelineOp>)
    ensures
        ({
            let after = sync_step(
                SyncProgress { known: old(known)@, ops: types::op_views(old(ops)@) },
                events::opt_op_view(op),
            );
            &&& final(known)@ == after.known
            &&& types::op_views(final(ops)@) == after.ops
        }),
{
    let ghost before = ops@;
    match op {
        None => {},
        Some(TimelineOp::Append(item)) => {
            let mut changed = false;
            match &item.event_id {
                Some(event_id) => {
                    match known.get(event_id.as_str()) {
                        Some(body) => {
                            if *body == item.body {
                                return;
                            }
                            changed = true;
                        },
                        None => {},
                    }
                    known.insert(event_id.clone(), item.body.clone());
                    if changed {
                        let update = TimelineOp::UpdateBody {
                            event_id: event_id.clone(),
                            new_body: item.body.clone(),
                        };
                        ops.push(update);
                        proof {
                            assert(types::op_views(ops@) =~= types::op_views(before).push(
                                update@,
                            ));
                        }
                        return;
                    }
                },
                None => {},
            }
            ops.push(TimelineOp::Append(item));
            proof {
                assert(types::op_views(ops@) =~= types::op_views(before).push(
                    TimelineOpView::Append(item@),
                ));
            }
        },
        Some(TimelineOp::UpdateBody { event_id, new_body }) => {
            known.insert(event_id.clone(), new_body.clone());
            ops.push(TimelineOp::UpdateBody { event_id, new_body });
            proof {
                assert(types::op_views(ops@) =~= types::op_views(before).push(
                    TimelineOpView::UpdateBody { event_id: event_id@, new_body: new_body@ },
                ));
            }
        },
        Some(TimelineOp::Remove { event_id }) => {
            let _known = known.remove(event_id.as_str());
            ops.push(TimelineOp::Remove { event_id });
            proof {
                assert(types::op_views(ops@) =~= types::op_views(before).push(
                    TimelineOpView::Remove { event_id: event_id@ },
                ));
            }
        },
        Some(other) => {
            ops.push(other);
            proof {
                assert(types::op_views(ops@) =~= types::op_views(before).push(other@));
            }
        },
    }
}

/// The operations for synced events of a room, given the bodies seen so far.
pub fn timeline_ops_for_sync_events(
    events: &[SyncEvent],
    limited: bool,
    known_event_bodies: &mut EventBodies,
) -> (ops: Vec<TimelineOp>)
    ensures
        ({
            let after = sync_events(sync_start(old(known_event_bodies)@, limited), events@);
            &&& types::op_views(ops@) == after.ops
            &&& final(known_event_bodies)@ == after.known
        }),
{
    let ghost start = sync_start(known_event_bodies@, limited);
    let mut ops: Vec<TimelineOp> = Vec::new();
    if limited {
        ops.push(TimelineOp::Clear);
        known_event_bodies.clear();
    }
    proof {
        assert(types::op_views(ops@) =~= start.ops);
        assert(events@.take(0) =~= Seq::<SyncEvent>::empty());
    }
    let mut at: usize = 0;
    while at < events.len()
        invariant
            at <= events@.len(),
            types::op_views(ops@) == sync_events(start, events@.take(at as int)).ops,
            known_event_bodies@ == sync_events(start, events@.take(at as int)).known,
        decreases events@.len() - at,
    {
        proof {
            assert(events@.take(at + 1).drop_last() =~= events@.take(at as int));
            assert(sync_events(start, events@.take(at as int)) =~= SyncProgress {
                known: known_event_bodies@,
                ops: types::op_views(ops@),
            });
        }
        let op = events::timeline_op_from_event(&events[at], TimelineInsertMode::Append);
        take_in(op, known_event_bodies, &mut ops);
        at += 1;
    }
    proof {
        assert(events@.take(at as int) =~= events@);
    }
    ops
}

/// Takes in the operation that a fetched event stands for after new room keys: only
/// events that are known, and whose body changed or that were removed, matter.
pub open spec fn refresh_step(progress: SyncProgress, op: Option<TimelineOpView>) -> SyncProgress {
    let known = progress.known;
    match op {
        Some(TimelineOpView::Append(item)) => match item.event_id {
            Some(event_id) => update_if_changed(progress, event_id, item.body),
            None => progress,
        },
        Some(TimelineOpView::UpdateBody { event_id, new_body }) => update_if_changed(
            progress,
            event_id,
            new_body,
        ),
        Some(TimelineOpView::Remove { event_id }) => if known.dom().contains(event_id) {
            SyncProgress {
                known: known.remove(event_id),
                ops: progress.ops.push(TimelineOpView::Remove { event_id }),
            }
        } else {
            progress
        },
        _ => progress,
    }
}

/// Records and emits the new body of a known event, where it is a new one.
pub open spec fn update_if_changed(
    progress: SyncProgress,
    event_id: Seq<char>,
    body: Seq<char>,
) -> SyncProgress {
    if progress.known.dom().contains(event_id) && progress.known[event_id] != body {
        SyncProgress {
            known: progress.known.insert(event_id, body),
            ops: progress.ops.push(TimelineOpView::UpdateBody { event_id, new_body: body }),
        }
    } else {
        progress
    }
}

/// Takes in events fetched after new room keys, in order.
pub open spec fn refresh_events(start: SyncProgress, events: Seq<SyncEvent>) -> SyncProgress
    decreases events.len(),
{
    if events.len() == 0 {
        start
    } else {
        refresh_step(
            refresh_events(start, events.drop_last()),
            events::event_op(events.last(), TimelineInsertMode::Append),
        )
    }
}

fn update_body_if_changed(
    event_id: String,
    body: String,
    known: &mut EventBodies,
    ops: &mut Vec<TimelineOp>,
)
    ensures
        ({
            let after = update_if_changed(
                SyncProgress { known: old(known)@, ops: types::op_views(old(ops)@) },
                event_id@,
                body@,
            );
            &&& final(known)@ == after.known
            &&& types::op_views(final(ops)@) == after.ops
        }),
{
    let ghost before = ops@;
    match known.get(event_id.as_str()) {
        Some(existing) => {
            if *existing == body {
                return;
            }
        },
        None => return,
    }
    known.insert(event_id.clone(), body.clone());
    ops.push(TimelineOp::UpdateBody { event_id, new_body: body });
    proof {
        assert(types::op_views(ops@) =~= types::op_views(before).push(
            TimelineOpView::UpdateBody { event_id: event_id@, new_body: body@ },
        ));
    }
}

/// The operations for events fetched after new room keys, given the bodies seen so far.
pub fn timeline_update_ops_for_refresh_events(
    events: &[SyncEvent],
    known_event_bodies: &mut EventBodies,
) -> (ops: Vec<TimelineOp>)
    ensures
        ({
            let after = refresh_events(
                SyncProgress { known: old(known_event_bodies)@, ops: Seq::empty() },
                events@,
            );
            &&& types::op_views(ops@) == after.ops
            &&& final(known_event_bodies)@ == after.known
        }),
{
    let ghost start = SyncProgress { known: known_event_bodies@, ops: Seq::empty() };
    let mut ops: Vec<TimelineOp> = Vec::new();
    proof {
        assert(types::op_views(ops@) =~= start.ops);
        assert(events@.take(0) =~= Seq::<SyncEvent>::empty());
    }
    let mut at: usize = 0;
    while at < events.len()
        invariant
            at <= events@.len(),
            types::op_views(ops@) == refresh_events(start, events@.take(at as int)).ops,
            known_event_bodies@ == refresh_events(start, events@.take(at as int)).known,
        decreases events@.len() - at,
    {
        proof {
            assert(events@.take(at + 1).drop_last() =~= events@.take(at as int));
            assert(refresh_events(start, events@.take(at as int)) =~= SyncProgress {
                known: known_event_bodies@,
                ops: types::op_views(ops@),
            });
        }
        match events::timeline_op_from_event(&events[at], TimelineInsertMode::Append) {
            Some(TimelineOp::Append(item)) => {
                match item.event_id {
                    Some(event_id) => {
                        update_body_if_changed(event_id, item.body, known_event_bodies, &mut ops);
                    },
                    None => {},
                }
            },
            Some(TimelineOp::UpdateBody { event_id, new_body }) => {
                update_body_if_changed(event_id, new_body, known_event_bodies, &mut ops);
            },
            Some(TimelineOp::Remove { event_id }) => {
                let ghost before = ops@;
                if known_event_bodies.remove(event_id.as_str()) {
                    ops.push(TimelineOp::Remove { event_id });
                    proof {
                        assert(types::op_views(ops@) =~= types::op_views(before).push(
                            TimelineOpView::Remove { event_id: event_id@ },
                        ));
                    }
                } else {
                    proof {
                        let known = refresh_events(start, events@.take(at as int)).known;
                        assert(known.remove(event_id@) =~= known);
                    }
                }
            },
            _ => {},
        }
        at += 1;
    }
    proof {
        assert(events@.take(at as int) =~= events@);
    }
    ops
}

/// The part of a sync response that concerns one joined room.
pub struct RoomUpdate {
    /// Room ID.
    pub room_id: String,
    /// Whether events before these are missing.
    pub limited: bool,
    /// Timeline events in order.
    pub events: Vec<SyncEvent>,
}

/// Operations for the timeline of one room.
#[derive(Debug, PartialEq, Eq)]
pub struct RoomDelta {
    /// Room ID.
    pub room_id: String,
    /// Operations in order.
    pub ops: Vec<TimelineOp>,
}

/// What a [`RoomDelta`] says.
#[verifier::ext_equal]
pub struct RoomDeltaView {
    pub room_id: Seq<char>,
    pub ops: Seq<TimelineOpView>,
}

impl View for RoomDelta {
    type V = RoomDeltaView;

    open spec fn view(&self) -> RoomDeltaView {
        RoomDeltaView { room_id: self.room_id@, ops: types::op_views(self.ops@) }
    }
}

/// What a list of deltas says.
pub open spec fn delta_views(deltas: Seq<RoomDelta>) -> Seq<RoomDeltaView> {
    deltas.map_values(|delta: RoomDelta| delta@)
}

/// Bodies of the events seen, by room.
pub struct RoomEventBodies {
    rooms: TextMap<EventBodies>,
}

/// Bodies by event ID, by room ID.
pub type RoomBodiesMap = Map<Seq<char>, Map<Seq<char>, Seq<char>>>;

impl View for RoomEventBodies {
    type V = RoomBodiesMap;

    closed spec fn view(&self) -> RoomBodiesMap {
        self.rooms@.map_values(|bodies: EventBodies| bodies@)
    }
}

/// The bodies seen in a room: none where the room is new.
pub open spec fn bodies_of(rooms: RoomBodiesMap, room_id: Seq<char>) -> Map<Seq<char>, Seq<char>> {
    if rooms.dom().contains(room_id) {
        rooms[room_id]
    } else {
        Map::empty()
    }
}

/// Bodies of all rooms and the deltas emitted so far.
#[verifier::ext_equal]
pub struct RoomsProgress {
    pub rooms: RoomBodiesMap,
    pub deltas: Seq<RoomDeltaView>,
}

/// Takes in the updates of joined rooms in order; a room without operations has no delta.
pub open spec fn sync_rooms(rooms: RoomBodiesMap, updates: Seq<RoomUpdate>) -> RoomsProgress
    decreases updates.len(),
{
    if updates.len() == 0 {
        RoomsProgress { rooms, deltas: Seq::empty() }
    } else {
        let before = sync_rooms(rooms, updates.drop_last());
        let update = updates.last();
        let after = sync_events(
            sync_start(bodies_of(before.rooms, update.room_id@), update.limited),
            update.events@,
        );
        RoomsProgress {
            rooms: before.rooms.insert(update.room_id@, after.known),
            deltas: if after.ops.len() == 0 {
                before.deltas
            } else {
                before.deltas.push(RoomDeltaView { room_id: update.room_id@, ops: after.ops })
            },
        }
    }
}

/// Whether rooms are those whose recent history is fetched again: rooms with events seen, no room
/// twice, and all of them where they are no more than the limit. Which ones they are where there
/// are more is left open.
pub open spec fn is_refresh_choice(room_ids: Seq<Seq<char>>, rooms: RoomBodiesMap) -> bool {
    &&& room_ids.len() <= ROOM_KEY_REFRESH_ROOM_LIMIT
    &&& room_ids.no_duplicates()
    &&& forall|i: int|
        0 <= i < room_ids.len() ==> has_events(rooms, #[trigger] room_ids[i])
    &&& room_ids.len() < ROOM_KEY_REFRESH_ROOM_LIMIT ==> forall|room_id: Seq<char>| #[trigger]
        has_events(rooms, room_id) ==> room_ids.contains(room_id)
}

/// Whether events were seen in a room.
pub open spec fn has_events(rooms: RoomBodiesMap, room_id: Seq<char>) -> bool {
    rooms.dom().contains(room_id) && rooms[room_id] != Map::<Seq<char>, Seq<char>>::empty()
}

/// What room IDs say.
pub open spec fn id_views(room_ids: Seq<String>) -> Seq<Seq<char>> {
    room_ids.map_values(|id: String| id@)
}

impl RoomEventBodies {
    /// No room was seen.
    pub fn new() -> (rooms: Self)
        ensures
            rooms@ == RoomBodiesMap::empty(),
    {
        let rooms = RoomEventBodies { rooms: TextMap::new() };
        proof {
            assert(rooms@ =~= RoomBodiesMap::empty());
        }
        rooms
    }

    /// Takes the bodies of a room out, none where the room is new.
    fn take_room(&mut self, room_id: &str) -> (bodies: EventBodies)
        ensures
            bodies@ == bodies_of(old(self)@, room_id@),
            final(self)@ == old(self)@.remove(room_id@),
    {
        let ghost before = self@;
        let taken = self.rooms.remove(room_id);
        proof {
            assert(self@ =~= before.remove(room_id@));
        }
        match taken {
            Some(bodies) => bodies,
            None => EventBodies::new(),
        }
    }

    fn put_room(&mut self, room_id: String, bodies: EventBodies)
        ensures
            final(self)@ == old(self)@.insert(room_id@, bodies@),
    {
        let ghost before = self@;
        self.rooms.insert(room_id, bodies);
        proof {
            assert(self@ =~= before.insert(room_id@, bodies@));
        }
    }

    /// The rooms whose recent history is fetched again after new room keys.
    pub fn refresh_candidates(&self) -> (room_ids: Vec<String>)
        ensures
            is_refresh_choice(id_views(room_ids@), self@),
    {
        let mut room_ids: Vec<String> = Vec::new();
        let keys = self.rooms.keys();
        let ghost all = self.rooms.spec_keys();
        let mut at: usize = 0;
        while at < keys.len() && room_ids.len() < ROOM_KEY_REFRESH_ROOM_LIMIT
            invariant
                at <= keys@.len(),
                all == self.rooms.spec_keys(),
                keys@.len() == all.len(),
                all.no_duplicates(),
                forall|i: int| 0 <= i < keys@.len() ==> (#[trigger] keys@[i])@ == all[i],
                forall|key: Seq<char>| #[trigger]
                    self.rooms@.dom().contains(key) <==> all.contains(key),
                room_ids@.len() <= ROOM_KEY_REFRESH_ROOM_LIMIT,
                id_views(room_ids@).no_duplicates(),
                forall|i: int|
                    0 <= i < room_ids@.len() ==> has_events(
                        self@,
                        #[trigger] id_views(room_ids@)[i],
                    ) && all.take(at as int).contains(id_views(room_ids@)[i]),
                forall|i: int|
                    0 <= i < at && has_events(self@, #[trigger] all[i]) ==> id_views(
                        room_ids@,
                    ).contains(all[i]),
            decreases keys@.len() - at,
        {
            let ghost before = id_views(room_ids@);
            let ghost seen = all.take(at as int);
            let ghost room = all[at as int];
            proof {
                assert(all.contains(room));
                assert(self.rooms@.dom().contains(room));
                assert(self@[room] == self.rooms@[room]@);
                assert(!seen.contains(room)) by {
                    if seen.contains(room) {
                        let i = choose|i: int| 0 <= i < seen.len() && seen[i] == room;
                        assert(all[i] == room);
                    }
                }
                assert forall|id: Seq<char>| seen.contains(id) implies all.take(at + 1).contains(
                    id,
                ) by {
                    let i = choose|i: int| 0 <= i < seen.len() && seen[i] == id;
                    assert(all.take(at + 1)[i] == id);
                }
                assert(all.take(at + 1)[at as int] == room);
            }
            if !self.rooms.value_at(at).is_empty() {
                room_ids.push(keys[at].clone());
                proof {
                    let after = id_views(room_ids@);
                    assert(after =~= before.push(room));
                    assert(!before.contains(room)) by {
                        if before.contains(room) {
                            let i = choose|i: int| 0 <= i < before.len() && before[i] == room;
                            assert(seen.contains(before[i]));
                        }
                    }
                    assert(after.no_duplicates()) by {
                        assert forall|i: int, j: int|
                            0 <= i < after.len() && 0 <= j < after.len() && i
                                != j implies after[i] != after[j] by {
                            if i == before.len() {
                                assert(before.contains(before[j]));
                            }
                            if j == before.len() {
                                assert(before.contains(before[i]));
                            }
                        }
                    }
                    assert forall|i: int|
                        0 <= i < at + 1 && has_events(self@, #[trigger] all[i]) implies after.contains(
                        all[i],
                    ) by {
                        if i < at {
                            let k = choose|k: int| 0 <= k < before.len() && before[k] == all[i];
                            assert(after[k] == all[i]);
                        } else {
                            assert(after[before.len() as int] == room);
                        }
                    }
                    assert forall|i: int| 0 <= i < after.len() implies has_events(
                        self@,
                        #[trigger] after[i],
                    ) && all.take(at + 1).contains(after[i]) by {
                        if i < before.len() {
                            assert(after[i] == before[i]);
                            assert(has_events(self@, before[i]));
                            assert(seen.contains(before[i]));
                        }
                    }
                }
            }
            at += 1;
        }
        proof {
            let ids = id_views(room_ids@);
            if ids.len() < ROOM_KEY_REFRESH_ROOM_LIMIT {
                assert forall|room_id: Seq<char>| #[trigger]
                    has_events(self@, room_id) implies ids.contains(room_id) by {
                    assert(self.rooms@.dom().contains(room_id));
                    assert(all.contains(room_id));
                    let i = choose|i: int| 0 <= i < all.len() && all[i] == room_id;
                    assert(has_events(self@, all[i]));
                }
            }
        }
        room_ids
    }

    /// The delta of a room from events fetched after new room keys; none where the
    /// room was not seen before or nothing changed.
    pub fn refresh_room(&mut self, room_id: &str, events: &[SyncEvent]) -> (delta: Option<
        RoomDelta,
    >)
        ensures
            ({
                let after = refresh_events(
                    SyncProgress {
                        known: bodies_of(old(self)@, room_id@),
                        ops: Seq::empty(),
                    },
                    events@,
                );
                if old(self)@.dom().contains(room_id@) {
                    &&& final(self)@ == old(self)@.insert(room_id@, after.known)
                    &&& match delta {
                        Some(delta) => after.ops.len() > 0 && delta@ == (RoomDeltaView {
                            room_id: room_id@,
                            ops: after.ops,
                        }),
                        None => after.ops.len() == 0,
                    }
                } else {
                    delta is None && final(self)@ == old(self)@
                }
            }),
    {
        if !self.rooms.contains_key(room_id) {
            return None;
        }
        let ghost before = self@;
        let mut bodies = self.take_room(room_id);
        let ops = timeline_update_ops_for_refresh_events(events, &mut bodies);
        self.put_room(room_id.to_owned(), bodies);
        proof {
            assert(before.remove(room_id@).insert(room_id@, bodies@) =~= before.insert(
                room_id@,
                bodies@,
            ));
            assert(types::op_views(ops@).len() == ops@.len());
        }
        if ops.len() == 0 {
            None
        } else {
            Some(RoomDelta { room_id: room_id.to_owned(), ops })
        }
    }
}

/// The deltas of a sync response for the joined rooms.
pub fn sync_timeline_deltas(
    updates: &[RoomUpdate],
    room_event_bodies: &mut RoomEventBodies,
) -> (deltas: Vec<RoomDelta>)
    ensures
        delta_views(deltas@) == sync_rooms(old(room_event_bodies)@, updates@).deltas,
        final(room_event_bodies)@ == sync_rooms(old(room_event_bodies)@, updates@).rooms,
        deltas@.len() == sync_laws::deltas_before(
            old(room_event_bodies)@,
            updates@,
            updates@.len(),
        ),
        forall|k: int|
            0 <= k < updates@.len() && sync_laws::ops_of_update(
                old(room_event_bodies)@,
                updates@,
                k,
            ).len() > 0 ==> {
                let at = sync_laws::deltas_before(old(room_event_bodies)@, updates@, k as nat);
                &&& at < deltas@.len()
                &&& deltas@[at as int].room_id@ == (#[trigger] updates@[k]).room_id@
                &&& types::op_views(deltas@[at as int].ops@) == sync_laws::ops_of_update(
                    old(room_event_bodies)@,
                    updates@,
                    k,
                )
            },
{
    let ghost start = room_event_bodies@;
    let mut deltas: Vec<RoomDelta> = Vec::new();
    proof {
        assert(updates@.take(0) =~= Seq::<RoomUpdate>::empty());
        assert(delta_views(deltas@) =~= Seq::<RoomDeltaView>::empty());
    }
    let mut at: usize = 0;
    while at < updates.len()
        invariant
            at <= updates@.len(),
            delta_views(deltas@) == sync_rooms(start, updates@.take(at as int)).deltas,
            room_event_bodies@ == sync_rooms(start, updates@.take(at as int)).rooms,
        decreases updates@.len() - at,
    {
        proof {
            assert(updates@.take(at + 1).drop_last() =~= updates@.take(at as int));
        }
        let update = &updates[at];
        let ghost rooms_before = room_event_bodies@;
        let ghost deltas_before = deltas@;
        let mut bodies = room_event_bodies.take_room(update.room_id.as_str());
        let ops = timeline_ops_for_sync_events(
            update.events.as_slice(),
            update.limited,
            &mut bodies,
        );
        room_event_bodies.put_room(update.room_id.clone(), bodies);
        proof {
            assert(rooms_before.remove(update.room_id@).insert(update.room_id@, bodies@)
                =~= rooms_before.insert(update.room_id@, bodies@));
            assert(types::op_views(ops@).len() == ops@.len());
        }
        if ops.len() > 0 {
            let delta = RoomDelta { room_id: update.room_id.clone(), ops };
            deltas.push(delta);
            proof {
                assert(delta_views(deltas@) =~= delta_views(deltas_before).push(delta@));
            }
        }
        at += 1;
    }
    proof {
        assert(updates@.take(at as int) =~= updates@);
        sync_laws::lemma_every_update_is_reported(start, updates@);
        assert(delta_views(deltas@).len() == deltas@.len());
        assert forall|i: int| 0 <= i < deltas@.len() implies (#[trigger] deltas@[i])@
            == delta_views(deltas@)[i] by {}
        assert forall|k: int|
            0 <= k < updates@.len() && sync_laws::ops_of_update(start, updates@, k).len()
                > 0 implies ({
            let at = sync_laws::deltas_before(start, updates@, k as nat);
            &&& at < deltas@.len()
            &&& deltas@[at as int].room_id@ == (#[trigger] updates@[k]).room_id@
            &&& types::op_views(deltas@[at as int].ops@) == sync_laws::ops_of_update(
                start,
                updates@,
                k,
            )
        }) by {
            let at = sync_laws::deltas_before(start, updates@, k as nat);
            assert(deltas@[at as int]@ == delta_views(deltas@)[at as int]);
        }
    }
    deltas
}

/// Whether any of the to-device events brings room keys.
pub open spec fn brings_room_keys(to_device: Seq<String>) -> bool {
    exists|i: int| 0 <= i < to_device.len() && is_room_key_event(#[trigger] to_device[i]@)
}

/// Whether a to-device event brings a room key.
pub open spec fn is_room_key_event(json: Seq<char>) -> bool {
    ||| events::raw_string_field(json, "type"@) == Some("m.room_key"@)
    ||| events::raw_string_field(json, "type"@) == Some("m.forwarded_room_key"@)
}

/// Whether any of the to-device events, given as JSON text, brings room keys.
pub fn sync_response_has_room_key_events(to_device: &[String]) -> (yes: bool)
    ensures
        yes == brings_room_keys(to_device@),
{
    let mut at: usize = 0;
    while at < to_device.len()
        invariant
            at <= to_device@.len(),
            forall|i: int| 0 <= i < at ==> !is_room_key_event(#[trigger] to_device@[i]@),
        decreases to_device@.len() - at,
    {
        match events::read_string_field(to_device[at].as_str(), "type") {
            Some(event_type) => {
                if *event_type.as_str() == *"m.room_key" || *event_type.as_str()
                    == *"m.forwarded_room_key" {
                    proof {
                        assert(is_room_key_event(to_device@[at as int]@));
                    }
                    return true;
                }
            },
            None => {},
        }
        at += 1;
    }
    false
}

/// An event that is synced again with the same body emits nothing and changes nothing.
pub proof fn lemma_repeated_event_is_silent(
    progress: SyncProgress,
    item: types::TimelineItemView,
)
    requires
        item.event_id is Some,
    ensures
        ({
            let once = sync_step(progress, Some(TimelineOpView::Append(item)));
            sync_step(once, Some(TimelineOpView::Append(item))) == once
        }),
{
}

/// Synced twice in a row, a batch whose events have distinct IDs emits nothing the
/// second time.
pub proof fn lemma_repeated_batch_is_silent(start: SyncProgress, items: Seq<SyncEvent>)
    requires
        forall|i: int|
            0 <= i < items.len() ==> (events::event_op(#[trigger] items[i], TimelineInsertMode::Append)
                matches Some(TimelineOpView::Append(item)) && item.event_id is Some),
        forall|i: int, j: int|
            0 <= i < j < items.len() ==> appended_id(#[trigger] items[i]) != appended_id(
                #[trigger] items[j],
            ),
    ensures
        sync_events(sync_events(start, items), items) == sync_events(start, items),
{
    let once = sync_events(start, items);
    lemma_synced_bodies_are_known(start, items);
    lemma_known_batch_is_silent(once, items);
}

/// The ID of the item that an event appends.
pub open spec fn appended_id(event: SyncEvent) -> Seq<char> {
    match events::event_op(event, TimelineInsertMode::Append) {
        Some(TimelineOpView::Append(item)) => match item.event_id {
            Some(event_id) => event_id,
            None => Seq::empty(),
        },
        _ => Seq::empty(),
    }
}

spec fn appended_body(event: SyncEvent) -> Seq<char> {
    match events::event_op(event, TimelineInsertMode::Append) {
        Some(TimelineOpView::Append(item)) => item.body,
        _ => Seq::empty(),
    }
}

spec fn is_known(known: Map<Seq<char>, Seq<char>>, event: SyncEvent) -> bool {
    known.dom().contains(appended_id(event)) && known[appended_id(event)] == appended_body(event)
}

proof fn lemma_synced_bodies_are_known(start: SyncProgress, items: Seq<SyncEvent>)
    requires
        forall|i: int|
            0 <= i < items.len() ==> (events::event_op(#[trigger] items[i], TimelineInsertMode::Append)
                matches Some(TimelineOpView::Append(item)) && item.event_id is Some),
        forall|i: int, j: int|
            0 <= i < j < items.len() ==> appended_id(#[trigger] items[i]) != appended_id(
                #[trigger] items[j],
            ),
    ensures
        forall|i: int|
            0 <= i < items.len() ==> is_known(
                sync_events(start, items).known,
                #[trigger] items[i],
            ),
    decreases items.len(),
{
    if items.len() > 0 {
        let front = items.drop_last();
        assert forall|i: int| 0 <= i < front.len() implies (events::event_op(
            #[trigger] front[i],
            TimelineInsertMode::Append,
        ) matches Some(TimelineOpView::Append(item)) && item.event_id is Some) by {
            assert(front[i] == items[i]);
        }
        assert forall|i: int, j: int| 0 <= i < j < front.len() implies appended_id(
            #[trigger] front[i],
        ) != appended_id(#[trigger] front[j]) by {
            assert(front[i] == items[i] && front[j] == items[j]);
        }
        lemma_synced_bodies_are_known(start, front);
        assert forall|i: int| 0 <= i < items.len() implies is_known(
            sync_events(start, items).known,
            #[trigger] items[i],
        ) by {
            if i < items.len() - 1 {
                assert(front[i] == items[i]);
                assert(is_known(sync_events(start, front).known, front[i]));
                assert(appended_id(items[i]) != appended_id(items[items.len() - 1]));
            }
        }
    }
}

proof fn lemma_known_batch_is_silent(start: SyncProgress, items: Seq<SyncEvent>)
    requires
        forall|i: int|
            0 <= i < items.len() ==> (events::event_op(#[trigger] items[i], TimelineInsertMode::Append)
                matches Some(TimelineOpView::Append(item)) && item.event_id is Some),
        forall|i: int|
            0 <= i < items.len() ==> is_known(start.known, #[trigger] items[i]),
    ensures
        sync_events(start, items) == start,
    decreases items.len(),
{
    if items.len() > 0 {
        let front = items.drop_last();
        assert forall|i: int| 0 <= i < front.len() implies (events::event_op(
            #[trigger] front[i],
            TimelineInsertMode::Append,
        ) matches Some(TimelineOpView::Append(item)) && item.event_id is Some) && is_known(
            start.known,
            front[i],
        ) by {
            assert(front[i] == items[i]);
        }
        lemma_known_batch_is_silent(start, front);
        assert(is_known(start.known, items[items.len() - 1]));
    }
}

/// New room keys never add events: a refresh keeps to the events that were known, and
/// every operation it emits names one of them.
pub proof fn lemma_refresh_keeps_to_known_events(
    known: Map<Seq<char>, Seq<char>>,
    events: Seq<SyncEvent>,
)
    ensures
        ({
            let after = refresh_events(SyncProgress { known, ops: Seq::empty() }, events);
            &&& after.known.dom().subset_of(known.dom())
            &&& forall|i: int|
                0 <= i < after.ops.len() ==> match #[trigger] after.ops[i] {
                    TimelineOpView::UpdateBody { event_id, .. } => known.dom().contains(event_id),
                    TimelineOpView::Remove { event_id } => known.dom().contains(event_id),
                    _ => false,
                }
        }),
    decreases events.len(),
{
    if events.len() > 0 {
        lemma_refresh_keeps_to_known_events(known, events.drop_last());
    }
}

/// A limited sync forgets what was known: its outcome does not depend on it.
pub proof fn lemma_limited_sync_starts_over(
    left: Map<Seq<char>, Seq<char>>,
    right: Map<Seq<char>, Seq<char>>,
    events: Seq<SyncEvent>,
)
    ensures
        sync_events(sync_start(left, true), events) == sync_events(
            sync_start(right, true),
            events,
        ),
{
}

} // verus!
