//! The sync loop: what a response or an error of a sync request leads to.
use vstd::prelude::*;

use super::errors;
use super::events::SyncEvent;
use super::rooms::{self, SdkRoom};
use super::runtime;
use super::sync::{self, RoomDelta, RoomDeltaView, RoomEventBodies, RoomUpdate, SyncProgress};
use super::sync_laws;
use crate::backend_core::error::{self, BackendError, BackendErrorCategory};
use crate::backend_core::normalization;
use crate::backend_core::retry::{self, RetryPolicy};
use crate::backend_core::types::{self, BackendEvent, BackendEventView, SyncStatus};

verus! {

/// The parts of a sync response that the loop reads.
pub struct SyncResponse {
    /// Updates of the joined rooms.
    pub updates: Vec<RoomUpdate>,
    /// All rooms of the client after the response.
    pub rooms: Vec<SdkRoom>,
    /// To-device events as JSON text.
    pub to_device: Vec<String>,
}

/// What follows a sync response.
#[derive(Debug)]
pub struct SyncTurn {
    /// Events to emit.
    pub events: Vec<BackendEvent>,
    /// Rooms whose recent events are to be fetched again, because room keys arrived.
    pub refresh: Vec<String>,
}

/// What follows a failed sync request.
#[derive(Debug)]
pub struct SyncFailureTurn {
    /// Events to emit.
    pub events: Vec<BackendEvent>,
    /// Delay in milliseconds before the next request; without one the loop ends.
    pub retry_after_ms: Option<u64>,
}

/// State of the sync loop.
pub struct SyncLoop {
    attempt: u32,
    bodies: RoomEventBodies,
}

/// The event that reports the state of the loop.
fn sync_status_event(running: bool, lag_hint_ms: Option<u64>) -> (event: BackendEvent)
    ensures
        event@ == BackendEventView::SyncStatus(SyncStatus { running, lag_hint_ms }),
{
    BackendEvent::SyncStatus(SyncStatus { running, lag_hint_ms })
}

/// Refuses to start a loop while one runs.
pub fn check_can_start(running: bool) -> (result: Result<(), BackendError>)
    ensures
        match result {
            Ok(_) => !running,
            Err(failure) => running && failure@ == error::plain_error(
                BackendErrorCategory::Internal,
                "sync_already_running"@,
                "sync task is already running"@,
            ),
        },
{
    if running {
        Err(
            BackendError::new(
                BackendErrorCategory::Internal,
                "sync_already_running",
                "sync task is already running",
            ),
        )
    } else {
        Ok(())
    }
}

/// Refuses to stop a loop while none runs.
pub fn check_can_stop(running: bool) -> (result: Result<(), BackendError>)
    ensures
        match result {
            Ok(_) => running,
            Err(failure) => !running && failure@ == error::plain_error(
                BackendErrorCategory::Internal,
                "sync_not_running"@,
                "sync task is not running"@,
            ),
        },
{
    if running {
        Ok(())
    } else {
        Err(
            BackendError::new(
                BackendErrorCategory::Internal,
                "sync_not_running",
                "sync task is not running",
            ),
        )
    }
}

/// The event of a delta.
pub open spec fn delta_event(delta: RoomDeltaView) -> BackendEventView {
    BackendEventView::RoomTimelineDelta { room_id: delta.room_id, ops: delta.ops }
}

/// Number of milliseconds until the next attempt after `attempt` failures in a row.
pub open spec fn sync_delay(attempt: nat, hint: Option<u64>) -> nat {
    retry::backoff_delay(500, 30_000, attempt, retry::hint_or_zero(hint))
}

fn delta_events(deltas: Vec<RoomDelta>) -> (events: Vec<BackendEvent>)
    ensures
        types::event_views(events@) == sync::delta_views(deltas@).map_values(
            |delta: RoomDeltaView| delta_event(delta),
        ),
{
    let ghost all = sync::delta_views(deltas@);
    let mut events: Vec<BackendEvent> = Vec::new();
    let mut deltas = deltas;
    let total: usize = deltas.len();
    proof {
        assert(types::event_views(events@) =~= all.take(0).map_values(
            |delta: RoomDeltaView| delta_event(delta),
        ));
        assert(sync::delta_views(deltas@) =~= all.skip(0));
    }
    let mut at: usize = 0;
    while at < total
        invariant
            at <= total,
            total == all.len(),
            sync::delta_views(deltas@) =~= all.skip(at as int),
            types::event_views(events@) == all.take(at as int).map_values(
                |delta: RoomDeltaView| delta_event(delta),
            ),
        decreases total - at,
    {
        let ghost before = deltas@;
        let ghost events_before = types::event_views(events@);
        proof {
            assert(sync::delta_views(deltas@).len() == deltas@.len());
        }
        let delta = deltas.remove(0);
        proof {
            assert(delta@ == sync::delta_views(before)[0]);
            assert(delta@ == all[at as int]);
            assert(sync::delta_views(deltas@) =~= sync::delta_views(before).skip(1));
            assert(all.skip(at as int).skip(1) =~= all.skip(at + 1));
        }
        let event = BackendEvent::RoomTimelineDelta { room_id: delta.room_id, ops: delta.ops };
        events.push(event);
        proof {
            assert(types::event_views(events@) =~= events_before.push(delta_event(delta@)));
            assert(all.take(at + 1) =~= all.take(at as int).push(delta@));
            assert(all.take(at + 1).map_values(|delta: RoomDeltaView| delta_event(delta))
                =~= all.take(at as int).map_values(
                |delta: RoomDeltaView| delta_event(delta),
            ).push(delta_event(delta@)));
        }
        at += 1;
    }
    proof {
        assert(all.take(at as int) =~= all);
    }
    events
}

impl SyncLoop {
    /// Failures in a row so far.
    pub closed spec fn failures(self) -> nat {
        self.attempt as nat
    }

    /// Bodies of the events seen so far.
    pub closed spec fn seen(self) -> sync::RoomBodiesMap {
        self.bodies@
    }

    /// A loop that has seen nothing, and the event that reports its start.
    pub fn start() -> (result: (Self, BackendEvent))
        ensures
            result.0.failures() == 0,
            result.0.seen() == sync::RoomBodiesMap::empty(),
            result.1@ == BackendEventView::SyncStatus(
                SyncStatus { running: true, lag_hint_ms: None },
            ),
    {
        (
            SyncLoop { attempt: 0, bodies: RoomEventBodies::new() },
            sync_status_event(true, None),
        )
    }

    /// Takes a response: the deltas of the joined rooms, then the room list, and the rooms
    /// to fetch again where room keys arrived.
    pub fn on_response(&mut self, response: &SyncResponse) -> (turn: SyncTurn)
        ensures
            ({
                let after = sync::sync_rooms(old(self).seen(), response.updates@);
                &&& final(self).failures() == 0
                &&& final(self).seen() == after.rooms
                &&& types::event_views(turn.events@) == after.deltas.map_values(
                    |delta: RoomDeltaView| delta_event(delta),
                ).push(
                    BackendEventView::RoomListUpdated {
                        rooms: rooms::sorted_summaries(response.rooms@),
                    },
                )
                &&& if sync::brings_room_keys(response.to_device@) {
                    sync::is_refresh_choice(sync::id_views(turn.refresh@), after.rooms)
                } else {
                    turn.refresh@.len() == 0
                }
            }),
            ({
                let count = sync_laws::deltas_before(
                    old(self).seen(),
                    response.updates@,
                    response.updates@.len(),
                );
                &&& turn.events@.len() == count + 1
                &&& turn.events@[count as int]@ is RoomListUpdated
            }),
            forall|k: int|
                0 <= k < response.updates@.len() && sync_laws::ops_of_update(
                    old(self).seen(),
                    response.updates@,
                    k,
                ).len() > 0 ==> {
                    let at = sync_laws::deltas_before(
                        old(self).seen(),
                        response.updates@,
                        k as nat,
                    );
                    &&& at + 1 < turn.events@.len()
                    &&& turn.events@[at as int]@ == BackendEventView::RoomTimelineDelta {
                        room_id: (#[trigger] response.updates@[k]).room_id@,
                        ops: sync_laws::ops_of_update(old(self).seen(), response.updates@, k),
                    }
                },
    {
        let ghost start = self.seen();
        self.attempt = 0;
        let deltas = sync::sync_timeline_deltas(response.updates.as_slice(), &mut self.bodies);
        let mut events = delta_events(deltas);
        let ghost before = types::event_views(events@);
        let list = BackendEvent::RoomListUpdated {
            rooms: rooms::collect_room_summaries(response.rooms.as_slice()),
        };
        events.push(list);
        proof {
            assert(types::event_views(events@) =~= before.push(list@));
            sync_laws::lemma_every_update_is_reported(start, response.updates@);
            assert forall|i: int| 0 <= i < events@.len() implies (#[trigger] events@[i])@
                == types::event_views(events@)[i] by {}
        }
        let refresh = if sync::sync_response_has_room_key_events(response.to_device.as_slice()) {
            self.bodies.refresh_candidates()
        } else {
            Vec::new()
        };
        SyncTurn { events, refresh }
    }

    /// Takes the recent events of a room, fetched because room keys arrived: the delta to
    /// emit, where anything changed.
    pub fn on_room_refreshed(&mut self, room_id: &str, events: &[SyncEvent]) -> (event: Option<
        BackendEvent,
    >)
        ensures
            ({
                let known = sync::bodies_of(old(self).seen(), room_id@);
                let after = sync::refresh_events(
                    SyncProgress { known, ops: Seq::empty() },
                    events@,
                );
                if old(self).seen().dom().contains(room_id@) {
                    &&& final(self).seen() == old(self).seen().insert(room_id@, after.known)
                    &&& match event {
                        Some(event) => after.ops.len() > 0 && event@ == delta_event(
                            RoomDeltaView { room_id: room_id@, ops: after.ops },
                        ),
                        None => after.ops.len() == 0,
                    }
                } else {
                    event is None && final(self).seen() == old(self).seen()
                }
            }),
            final(self).failures() == old(self).failures(),
    {
        match self.bodies.refresh_room(room_id, events) {
            Some(delta) => Some(
                BackendEvent::RoomTimelineDelta { room_id: delta.room_id, ops: delta.ops },
            ),
            None => None,
        }
    }

    /// The event that reports that a response was taken, once its rooms were fetched again.
    pub fn on_settled(&self) -> (event: BackendEvent)
        ensures
            event@ == BackendEventView::SyncStatus(
                SyncStatus { running: true, lag_hint_ms: None },
            ),
    {
        sync_status_event(true, None)
    }

    /// Ends the loop, with the event that reports it.
    pub fn stop(self) -> (event: BackendEvent)
        ensures
            event@ == BackendEventView::SyncStatus(
                SyncStatus { running: false, lag_hint_ms: None },
            ),
    {
        sync_status_event(false, None)
    }

    /// Takes an error: it is reported, and where a retry may help the loop goes on after a
    /// delay that grows with the failures in a row.
    pub fn on_error(&mut self, failure: BackendError) -> (turn: SyncFailureTurn)
        ensures
            final(self).seen() == old(self).seen(),
            if errors::is_recoverable(failure@) {
                let delay = sync_delay(old(self).failures(), failure.retry_after_ms);
                &&& turn.retry_after_ms == Some(delay as u64)
                &&& delay <= 30_000
                &&& types::event_views(turn.events@) == seq![
                    runtime::fatal_event(failure@),
                    BackendEventView::SyncStatus(
                        SyncStatus { running: true, lag_hint_ms: Some(delay as u64) },
                    ),
                ]
                &&& final(self).failures() == if old(self).failures() == u32::MAX {
                    u32::MAX as nat
                } else {
                    old(self).failures() + 1
                }
            } else {
                &&& turn.retry_after_ms is None
                &&& types::event_views(turn.events@) == seq![runtime::fatal_event(failure@)]
                &&& final(self).failures() == old(self).failures()
            },
    {
        let recoverable = errors::is_recoverable_sync_error(&failure);
        let hint = failure.retry_after_ms;
        let mut events: Vec<BackendEvent> = Vec::new();
        let report = normalization::normalize_fatal_error(failure, recoverable);
        events.push(report);
        if !recoverable {
            proof {
                assert(types::event_views(events@) =~= seq![report@]);
            }
            return SyncFailureTurn { events, retry_after_ms: None };
        }
        let delay: u64 = RetryPolicy::default().delay_for_attempt(self.attempt, hint);
        self.attempt = self.attempt.saturating_add(1);
        let status = sync_status_event(true, Some(delay));
        events.push(status);
        proof {
            assert(types::event_views(events@) =~= seq![report@, status@]);
        }
        SyncFailureTurn { events, retry_after_ms: Some(delay) }
    }
}

} // verus!
