//! When the desktop client asks for older events.
use vstd::prelude::*;

use crate::text_map::TextMap;

verus! {

/// Requests for older events: those on their way, and when each room was last asked for.
#[derive(Debug, Clone)]
pub struct PaginationTracker {
    in_flight: TextMap<()>,
    last_requested_ms: TextMap<u64>,
}

/// What a [`PaginationTracker`] remembers.
#[verifier::ext_equal]
pub struct PaginationView {
    pub in_flight: Set<Seq<char>>,
    pub last_requested_ms: Map<Seq<char>, u64>,
}

impl View for PaginationTracker {
    type V = PaginationView;

    closed spec fn view(&self) -> PaginationView {
        PaginationView {
            in_flight: self.in_flight@.dom(),
            last_requested_ms: self.last_requested_ms@,
        }
    }
}

/// When a room was last asked for: at zero where it never was.
pub open spec fn last_request(requests: Map<Seq<char>, u64>, room_id: Seq<char>) -> u64 {
    if requests.dom().contains(room_id) { requests[room_id] } else { 0 }
}

/// Whether to ask for older events: the view is near the top, no request is on its way, and
/// the cooldown since the last one is over.
pub open spec fn wants_page(
    tracker: PaginationView,
    room_id: Seq<char>,
    near_top: bool,
    now_ms: u64,
    cooldown_ms: u64,
) -> bool {
    let last = last_request(tracker.last_requested_ms, room_id);
    let elapsed: int = if now_ms >= last { now_ms - last } else { 0 };
    near_top && !tracker.in_flight.contains(room_id) && elapsed >= cooldown_ms
}

/// What is remembered once a request is on its way.
pub open spec fn after_request(
    tracker: PaginationView,
    room_id: Seq<char>,
    now_ms: u64,
) -> PaginationView {
    PaginationView {
        in_flight: tracker.in_flight.insert(room_id),
        last_requested_ms: tracker.last_requested_ms.insert(room_id, now_ms),
    }
}

impl PaginationTracker {
    /// No request was made.
    pub fn new() -> (tracker: Self)
        ensures
            tracker@ == (PaginationView {
                in_flight: Set::empty(),
                last_requested_ms: Map::empty(),
            }),
    {
        let tracker = PaginationTracker {
            in_flight: TextMap::new(),
            last_requested_ms: TextMap::new(),
        };
        proof {
            assert(tracker@.in_flight =~= Set::<Seq<char>>::empty());
        }
        tracker
    }

    /// Whether to ask for older events of a room.
    pub fn should_request(&self, room_id: &str, near_top: bool, now_ms: u64, cooldown_ms: u64) -> (
        yes: bool)
        ensures
            yes == wants_page(self@, room_id@, near_top, now_ms, cooldown_ms),
    {
        if !near_top {
            return false;
        }
        if self.in_flight.contains_key(room_id) {
            return false;
        }
        let last: u64 = match self.last_requested_ms.get(room_id) {
            Some(ms) => *ms,
            None => 0,
        };
        now_ms.saturating_sub(last) >= cooldown_ms
    }

    /// A request is on its way.
    pub fn mark_requested(&mut self, room_id: String, now_ms: u64)
        ensures
            final(self)@ == after_request(old(self)@, room_id@, now_ms),
    {
        let ghost before = self@;
        self.in_flight.insert(room_id.clone(), ());
        self.last_requested_ms.insert(room_id, now_ms);
        proof {
            assert(self@.in_flight =~= before.in_flight.insert(room_id@));
        }
    }

    /// A request was answered.
    pub fn mark_complete(&mut self, room_id: &str)
        ensures
            final(self)@ == (PaginationView {
                in_flight: old(self)@.in_flight.remove(room_id@),
                ..old(self)@
            }),
    {
        let ghost before = self@;
        let _known = self.in_flight.remove(room_id);
        proof {
            assert(self@.in_flight =~= before.in_flight.remove(room_id@));
        }
    }

    /// No request is on its way.
    pub fn clear_in_flight(&mut self)
        ensures
            final(self)@ == (PaginationView { in_flight: Set::empty(), ..old(self)@ }),
    {
        self.in_flight.clear();
        proof {
            assert(self@.in_flight =~= Set::<Seq<char>>::empty());
        }
    }
}

/// A request on its way holds back the next one, and one that was answered holds it back
/// until the cooldown is over.
pub proof fn lemma_requests_are_spaced(
    tracker: PaginationView,
    room_id: Seq<char>,
    asked_ms: u64,
    now_ms: u64,
    cooldown_ms: u64,
)
    requires
        now_ms < asked_ms + cooldown_ms,
        cooldown_ms > 0,
    ensures
        ({
            let asked = PaginationView {
                in_flight: tracker.in_flight.insert(room_id),
                last_requested_ms: tracker.last_requested_ms.insert(room_id, asked_ms),
            };
            let answered = PaginationView {
                in_flight: asked.in_flight.remove(room_id),
                ..asked
            };
            &&& !wants_page(asked, room_id, true, u64::MAX, 0)
            &&& !wants_page(answered, room_id, true, now_ms, cooldown_ms)
        }),
{
}

} // verus!
