//! The frontend adapter: a queue of commands, and timeline snapshots beside deltas.
use vstd::prelude::*;

use crate::backend_core::timeline::{self, TimelineBuffer};
use crate::backend_core::types::{
    self, BackendCommand, BackendEvent, BackendEventView, TimelineItem, TimelineItemView,
    TimelineOp,
};
use crate::text_map::TextMap;

verus! {

/// Number of items that a room snapshot retains, unless configured.
pub const DEFAULT_TIMELINE_MAX_ITEMS: usize = 500;

/// Opaque ID returned when queuing commands in [`MatrixFrontendAdapter`].
#[derive(Debug, Clone, Copy, PartialEq, Eq, Hash, Structural)]
pub struct FrontendCommandId(u64);

impl FrontendCommandId {
    /// Raw numeric value of this command ID.
    pub closed spec fn number(self) -> u64 {
        self.0
    }

    /// Raw numeric value of this command ID.
    pub fn value(self) -> (value: u64)
        ensures
            value == self.number(),
    {
        self.0
    }
}

/// A queued command and its ID.
#[derive(Debug)]
pub struct QueuedFrontendCommand {
    /// ID under which the command can be cancelled.
    pub id: FrontendCommandId,
    /// The command.
    pub command: BackendCommand,
}

/// Queue of commands, and the timelines of the rooms that deltas built up.
#[derive(Debug)]
pub struct MatrixFrontendAdapter {
    queue: Vec<QueuedFrontendCommand>,
    next_command_id: u64,
    timelines: TextMap<TimelineBuffer>,
    timeline_max_items: usize,
}

/// Applies operations to a buffer and skips those that name a missing event.
pub fn apply_timeline_ops_lenient(buffer: &mut TimelineBuffer, ops: &[TimelineOp])
    ensures
        final(buffer)@ == timeline::merge_all_lenient(
            old(buffer)@,
            types::op_views(ops@),
            old(buffer).capacity(),
        ),
        final(buffer).capacity() == old(buffer).capacity(),
{
    buffer.apply_ops_lenient(ops);
}

/// The items of a room: none where no delta arrived.
pub open spec fn timeline_of(
    timelines: Map<Seq<char>, Seq<TimelineItemView>>,
    room_id: Seq<char>,
) -> Seq<TimelineItemView> {
    if timelines.dom().contains(room_id) {
        timelines[room_id]
    } else {
        Seq::empty()
    }
}

impl MatrixFrontendAdapter {
    #[verifier::type_invariant]
    spec fn is_well_formed(self) -> bool {
        &&& 1 <= self.timeline_max_items
        &&& forall|room_id: Seq<char>|
            self.timelines@.dom().contains(room_id) ==> (
            #[trigger] self.timelines@[room_id]).capacity() == self.timeline_max_items
    }

    /// The queued commands, next one first.
    pub closed spec fn queued(self) -> Seq<QueuedFrontendCommand> {
        self.queue@
    }

    /// ID of the next command.
    pub closed spec fn next_id(self) -> u64 {
        self.next_command_id
    }

    /// The items of each room.
    pub closed spec fn timelines(self) -> Map<Seq<char>, Seq<TimelineItemView>> {
        self.timelines@.map_values(|buffer: TimelineBuffer| buffer@)
    }

    /// Largest number of items per room.
    pub closed spec fn max_items(self) -> nat {
        self.timeline_max_items as nat
    }

    /// An adapter that retains [`DEFAULT_TIMELINE_MAX_ITEMS`] items per room.
    pub fn new() -> (adapter: Self)
        ensures
            adapter.queued() == Seq::<QueuedFrontendCommand>::empty(),
            adapter.next_id() == 1,
            adapter.timelines() == Map::<Seq<char>, Seq<TimelineItemView>>::empty(),
            adapter.max_items() == DEFAULT_TIMELINE_MAX_ITEMS,
    {
        Self::with_config(DEFAULT_TIMELINE_MAX_ITEMS)
    }

    /// An adapter that retains `timeline_max_items` items per room, at least one.
    pub fn with_config(timeline_max_items: usize) -> (adapter: Self)
        ensures
            adapter.queued() == Seq::<QueuedFrontendCommand>::empty(),
            adapter.next_id() == 1,
            adapter.timelines() == Map::<Seq<char>, Seq<TimelineItemView>>::empty(),
            adapter.max_items() == if timeline_max_items == 0 {
                1
            } else {
                timeline_max_items as nat
            },
    {
        let adapter = MatrixFrontendAdapter {
            queue: Vec::new(),
            next_command_id: 1,
            timelines: TextMap::new(),
            timeline_max_items: if timeline_max_items == 0 { 1 } else { timeline_max_items },
        };
        proof {
            assert(adapter.timelines() =~= Map::<Seq<char>, Seq<TimelineItemView>>::empty());
            assert(adapter.queued() =~= Seq::<QueuedFrontendCommand>::empty());
        }
        adapter
    }

    /// Queue a command for later flush to runtime.
    pub fn enqueue(&mut self, command: BackendCommand) -> (id: FrontendCommandId)
        ensures
            id.number() == old(self).next_id(),
            final(self).queued() == old(self).queued().push(
                QueuedFrontendCommand { id, command },
            ),
            final(self).next_id() == if old(self).next_id() == u64::MAX {
                0
            } else {
                (old(self).next_id() + 1) as u64
            },
            final(self).timelines() == old(self).timelines(),
            final(self).max_items() == old(self).max_items(),
    {
        proof {
            use_type_invariant(&*self);
        }
        let id = FrontendCommandId(self.next_command_id);
        self.next_command_id = self.next_command_id.wrapping_add(1);
        let mut queue: Vec<QueuedFrontendCommand> = Vec::new();
        std::mem::swap(&mut queue, &mut self.queue);
        queue.push(QueuedFrontendCommand { id, command });
        self.queue = queue;
        id
    }

    /// Cancel a queued command by ID.
    ///
    /// Returns `true` if a queued item was removed.
    pub fn cancel(&mut self, command_id: FrontendCommandId) -> (cancelled: bool)
        ensures
            match queue_index(old(self).queued(), command_id) {
                Some(index) => cancelled && final(self).queued() == old(self).queued().remove(
                    index,
                ),
                None => !cancelled && final(self).queued() == old(self).queued(),
            },
            final(self).next_id() == old(self).next_id(),
            final(self).timelines() == old(self).timelines(),
            final(self).max_items() == old(self).max_items(),
    {
        proof {
            use_type_invariant(&*self);
            assert(self.queue@.take(0) =~= Seq::<QueuedFrontendCommand>::empty());
        }
        let mut at: usize = 0;
        while at < self.queue.len()
            invariant
                at <= self.queue@.len(),
                *self == *old(self),
                self.is_well_formed(),
                queue_index(self.queue@.take(at as int), command_id) is None,
            decreases self.queue@.len() - at,
        {
            proof {
                assert(self.queue@.take(at + 1).drop_last() =~= self.queue@.take(at as int));
                assert(self.queue@.take(at + 1).last() == self.queue@[at as int]);
            }
            if self.queue[at].id.0 == command_id.0 {
                proof {
                    lemma_queue_index_of_prefix(self.queue@, command_id, at as int);
                }
                let mut queue: Vec<QueuedFrontendCommand> = Vec::new();
                std::mem::swap(&mut queue, &mut self.queue);
                let _cancelled = queue.remove(at);
                self.queue = queue;
                return true;
            }
            at += 1;
        }
        proof {
            assert(self.queue@.take(at as int) =~= self.queue@);
        }
        false
    }

    /// Number of currently queued commands.
    pub fn queued_len(&self) -> (count: usize)
        ensures
            count == self.queued().len(),
    {
        self.queue.len()
    }

    /// Takes the next command from the queue, to send it to the runtime.
    pub fn take_next(&mut self) -> (next: Option<QueuedFrontendCommand>)
        ensures
            match next {
                Some(queued) => old(self).queued().len() > 0 && queued == old(self).queued()[0]
                    && final(self).queued() == old(self).queued().skip(1),
                None => old(self).queued().len() == 0 && final(self).queued() == old(
                    self,
                ).queued(),
            },
            final(self).next_id() == old(self).next_id(),
            final(self).timelines() == old(self).timelines(),
            final(self).max_items() == old(self).max_items(),
    {
        proof {
            use_type_invariant(&*self);
        }
        if self.queue.len() == 0 {
            return None;
        }
        let mut queue: Vec<QueuedFrontendCommand> = Vec::new();
        std::mem::swap(&mut queue, &mut self.queue);
        let next = queue.remove(0);
        self.queue = queue;
        proof {
            assert(self.queue@ =~= old(self).queue@.skip(1));
        }
        Some(next)
    }

    /// Puts a command that could not be sent back to the front of the queue.
    pub fn put_back(&mut self, queued: QueuedFrontendCommand)
        ensures
            final(self).queued() == seq![queued] + old(self).queued(),
            final(self).next_id() == old(self).next_id(),
            final(self).timelines() == old(self).timelines(),
            final(self).max_items() == old(self).max_items(),
    {
        proof {
            use_type_invariant(&*self);
        }
        let mut queue: Vec<QueuedFrontendCommand> = Vec::new();
        std::mem::swap(&mut queue, &mut self.queue);
        queue.insert(0, queued);
        self.queue = queue;
        proof {
            assert(self.queue@ =~= seq![queued] + old(self).queue@);
        }
    }

    /// Return current in-memory snapshot for a room.
    pub fn timeline_snapshot(&self, room_id: &str) -> (items: Vec<TimelineItem>)
        ensures
            types::item_views(items@) == timeline_of(self.timelines(), room_id@),
            items@.len() <= self.max_items(),
    {
        proof {
            use_type_invariant(self);
        }
        match self.timelines.get(room_id) {
            Some(buffer) => {
                let items = types::clone_items(buffer.items());
                proof {
                    assert(types::item_views(items@).len() == items@.len());
                }
                items
            },
            None => {
                let items: Vec<TimelineItem> = Vec::new();
                proof {
                    assert(types::item_views(items@) =~= Seq::<TimelineItemView>::empty());
                }
                items
            },
        }
    }

    /// Maximum retained timeline items per room snapshot.
    pub fn timeline_max_items(&self) -> (max: usize)
        ensures
            max == self.max_items(),
            max >= 1,
    {
        proof {
            use_type_invariant(self);
        }
        self.timeline_max_items
    }

    /// Takes an event of the runtime: the events to hand to the frontend. A delta is applied
    /// to the room's timeline and followed by a snapshot of it.
    pub fn relay(&mut self, event: BackendEvent) -> (events: Vec<BackendEvent>)
        ensures
            match event@ {
                BackendEventView::RoomTimelineDelta { room_id, ops } => {
                    let items = timeline::merge_all_lenient(
                        timeline_of(old(self).timelines(), room_id),
                        ops,
                        old(self).max_items(),
                    );
                    &&& final(self).timelines() == old(self).timelines().insert(room_id, items)
                    &&& types::event_views(events@) == seq![
                        event@,
                        BackendEventView::RoomTimelineSnapshot { room_id, items },
                    ]
                },
                _ => {
                    &&& final(self).timelines() == old(self).timelines()
                    &&& types::event_views(events@) == seq![event@]
                },
            },
            final(self).queued() == old(self).queued(),
            final(self).next_id() == old(self).next_id(),
            final(self).max_items() == old(self).max_items(),
    {
        proof {
            use_type_invariant(&*self);
        }
        let ghost before = self.timelines();
        let mut events: Vec<BackendEvent> = Vec::new();
        match &event {
            BackendEvent::RoomTimelineDelta { room_id, ops } => {
                let mut timelines: TextMap<TimelineBuffer> = TextMap::new();
                std::mem::swap(&mut timelines, &mut self.timelines);
                let mut buffer = match timelines.remove(room_id.as_str()) {
                    Some(buffer) => buffer,
                    None => TimelineBuffer::new(self.timeline_max_items),
                };
                apply_timeline_ops_lenient(&mut buffer, ops.as_slice());
                let snapshot = BackendEvent::RoomTimelineSnapshot {
                    room_id: room_id.clone(),
                    items: types::clone_items(buffer.items()),
                };
                timelines.insert(room_id.clone(), buffer);
                self.timelines = timelines;
                proof {
                    assert(self.timelines() =~= before.insert(room_id@, buffer@));
                }
                let ghost sent = event@;
                events.push(event);
                events.push(snapshot);
                proof {
                    assert(types::event_views(events@) =~= seq![sent, snapshot@]);
                }
            },
            _ => {
                let ghost sent = event@;
                events.push(event);
                proof {
                    assert(types::event_views(events@) =~= seq![sent]);
                }
            },
        }
        events
    }
}

/// Index of the first queued command with the ID.
pub open spec fn queue_index(queue: Seq<QueuedFrontendCommand>, id: FrontendCommandId) -> Option<
    int,
>
    decreases queue.len(),
{
    if queue.len() == 0 {
        None
    } else {
        match queue_index(queue.drop_last(), id) {
            Some(index) => Some(index),
            None => if queue.last().id == id { Some(queue.len() - 1) } else { None },
        }
    }
}

proof fn lemma_queue_index_of_prefix(
    queue: Seq<QueuedFrontendCommand>,
    id: FrontendCommandId,
    at: int,
)
    requires
        0 <= at < queue.len(),
        queue_index(queue.take(at), id) is None,
        queue[at].id == id,
    ensures
        queue_index(queue, id) == Some(at),
    decreases queue.len(),
{
    if at == queue.len() - 1 {
        assert(queue.drop_last() =~= queue.take(at));
    } else {
        assert(queue.drop_last().take(at) =~= queue.take(at));
        lemma_queue_index_of_prefix(queue.drop_last(), id, at);
    }
}

/// Cancelling the command that was just queued restores the queue, where its ID is not in
/// use.
pub proof fn lemma_cancel_undoes_enqueue(
    queue: Seq<QueuedFrontendCommand>,
    queued: QueuedFrontendCommand,
)
    requires
        queue_index(queue, queued.id) is None,
    ensures
        queue_index(queue.push(queued), queued.id) == Some(queue.len() as int),
        queue.push(queued).remove(queue.len() as int) == queue,
{
    assert(queue.push(queued).drop_last() =~= queue);
    assert(queue.push(queued).remove(queue.len() as int) =~= queue);
}

/// A command that could not be sent keeps its place: putting it back restores the queue.
pub proof fn lemma_put_back_undoes_take(queue: Seq<QueuedFrontendCommand>)
    requires
        queue.len() > 0,
    ensures
        seq![queue[0]] + queue.skip(1) == queue,
{
    assert(seq![queue[0]] + queue.skip(1) =~= queue);
}

} // verus!
