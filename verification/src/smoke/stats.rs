//! What the smoke harness counts while it observes sync.
use vstd::prelude::*;

use super::answers;
use crate::backend_core::types::{
    self, BackendEvent, BackendEventView, TimelineOp, TimelineOpView,
};
use crate::text;

verus! {

/// Counts of what sync brought.
#[derive(Debug, Clone, Copy, PartialEq, Eq, Structural)]
pub struct SyncObserveStats {
    /// Room lists.
    pub room_list_updates: usize,
    /// Changes of timelines.
    pub timeline_deltas: usize,
    /// Appended items.
    pub append_ops: usize,
    /// Updated bodies.
    pub update_ops: usize,
    /// Removed items.
    pub remove_ops: usize,
    /// Cleared timelines.
    pub clear_ops: usize,
}

impl Default for SyncObserveStats {
    fn default() -> (stats: Self)
        ensures
            stats == no_counts(),
    {
        SyncObserveStats {
            room_list_updates: 0,
            timeline_deltas: 0,
            append_ops: 0,
            update_ops: 0,
            remove_ops: 0,
            clear_ops: 0,
        }
    }
}

/// Nothing counted.
pub open spec fn no_counts() -> SyncObserveStats {
    SyncObserveStats {
        room_list_updates: 0,
        timeline_deltas: 0,
        append_ops: 0,
        update_ops: 0,
        remove_ops: 0,
        clear_ops: 0,
    }
}

/// A kind of change that is counted.
pub enum OpKind {
    Append,
    Update,
    Remove,
    Clear,
}

/// The kind that a change is counted as, where it is counted.
pub open spec fn kind_of(op: TimelineOpView) -> Option<OpKind> {
    match op {
        TimelineOpView::Append(_) => Some(OpKind::Append),
        TimelineOpView::UpdateBody { .. } => Some(OpKind::Update),
        TimelineOpView::Remove { .. } => Some(OpKind::Remove),
        TimelineOpView::Clear => Some(OpKind::Clear),
        TimelineOpView::Prepend(_) | TimelineOpView::Replace { .. } => None,
    }
}

/// Number of changes of a kind.
pub open spec fn count_of(ops: Seq<TimelineOpView>, kind: OpKind) -> nat
    decreases ops.len(),
{
    if ops.len() == 0 {
        0
    } else {
        count_of(ops.drop_last(), kind) + if kind_of(ops.last()) == Some(kind) { 1nat } else { 0 }
    }
}

/// Whether a change of a room counts.
pub open spec fn is_watched(watch_room_id: Option<Seq<char>>, room_id: Seq<char>) -> bool {
    watch_room_id matches Some(watched) ==> watched == room_id
}

/// Whether counts are others with an event.
pub open spec fn counts(
    before: SyncObserveStats,
    after: SyncObserveStats,
    event: BackendEventView,
    watch_room_id: Option<Seq<char>>,
) -> bool {
    match event {
        BackendEventView::RoomListUpdated { .. } => {
            &&& after.room_list_updates == before.room_list_updates + 1
            &&& after == (SyncObserveStats { room_list_updates: after.room_list_updates, ..before })
        },
        BackendEventView::RoomTimelineDelta { room_id, ops } => if is_watched(
            watch_room_id,
            room_id,
        ) {
            &&& after.room_list_updates == before.room_list_updates
            &&& after.timeline_deltas == before.timeline_deltas + 1
            &&& after.append_ops == before.append_ops + count_of(ops, OpKind::Append)
            &&& after.update_ops == before.update_ops + count_of(ops, OpKind::Update)
            &&& after.remove_ops == before.remove_ops + count_of(ops, OpKind::Remove)
            &&& after.clear_ops == before.clear_ops + count_of(ops, OpKind::Clear)
        } else {
            after == before
        },
        _ => after == before,
    }
}

/// Number of changes of an event.
pub open spec fn change_count(event: BackendEvent) -> nat {
    match event {
        BackendEvent::RoomTimelineDelta { ops, .. } => ops@.len(),
        _ => 0,
    }
}

proof fn lemma_count_is_bounded(ops: Seq<TimelineOpView>, kind: OpKind)
    ensures
        count_of(ops, kind) <= ops.len(),
    decreases ops.len(),
{
    if ops.len() > 0 {
        lemma_count_is_bounded(ops.drop_last(), kind);
    }
}

impl SyncObserveStats {
    /// Whether each count can grow by a number.
    pub open spec fn has_room_for(self, count: nat) -> bool {
        &&& self.room_list_updates + count <= usize::MAX
        &&& self.timeline_deltas + count <= usize::MAX
        &&& self.append_ops + count <= usize::MAX
        &&& self.update_ops + count <= usize::MAX
        &&& self.remove_ops + count <= usize::MAX
        &&& self.clear_ops + count <= usize::MAX
    }

    /// Whether an event can be counted.
    pub fn can_record(&self, event: &BackendEvent) -> (yes: bool)
        ensures
            yes ==> self.has_room_for(change_count(*event) + 1),
            self.has_room_for(change_count(*event) + 1) ==> yes,
    {
        let changes: usize = match event {
            BackendEvent::RoomTimelineDelta { ops, .. } => ops.len(),
            _ => 0,
        };
        if changes == usize::MAX {
            return false;
        }
        let left: usize = usize::MAX - changes - 1;
        self.room_list_updates <= left && self.timeline_deltas <= left && self.append_ops <= left
            && self.update_ops <= left && self.remove_ops <= left && self.clear_ops <= left
    }

    /// Count an event; with a watched room, changes of other rooms do not count. A fatal error is
    /// returned as a message.
    pub fn record(&mut self, event: &BackendEvent, watch_room_id: Option<&str>) -> (result: Result<
        (),
        String,
    >)
        requires
            old(self).has_room_for(change_count(*event) + 1),
        ensures
            counts(
                *old(self),
                *final(self),
                event@,
                match watch_room_id {
                    Some(watched) => Some(watched@),
                    None => None,
                },
            ),
            match event@ {
                BackendEventView::FatalError { code, message, .. } => result matches Err(text)
                    && text@ == answers::fatal_text(code, message),
                _ => result is Ok,
            },
    {
        match event {
            BackendEvent::RoomListUpdated { .. } => {
                self.room_list_updates = self.room_list_updates + 1;
                Ok(())
            },
            BackendEvent::RoomTimelineDelta { room_id, ops } => {
                match watch_room_id {
                    Some(watched) => {
                        if *watched != *room_id.as_str() {
                            return Ok(());
                        }
                    },
                    None => {},
                }
                self.timeline_deltas = self.timeline_deltas + 1;
                self.record_ops(ops);
                Ok(())
            },
            BackendEvent::FatalError { code, message, .. } => {
                let mut text: String = "fatal backend error (".to_owned();
                text.append(code.as_str());
                text.append("): ");
                text.append(message.as_str());
                Err(text)
            },
            _ => Ok(()),
        }
    }

    fn record_ops(&mut self, ops: &Vec<TimelineOp>)
        requires
            old(self).append_ops + ops@.len() <= usize::MAX,
            old(self).update_ops + ops@.len() <= usize::MAX,
            old(self).remove_ops + ops@.len() <= usize::MAX,
            old(self).clear_ops + ops@.len() <= usize::MAX,
        ensures
            ({
                let views = types::op_views(ops@);
                &&& final(self).room_list_updates == old(self).room_list_updates
                &&& final(self).timeline_deltas == old(self).timeline_deltas
                &&& final(self).append_ops == old(self).append_ops + count_of(
                    views,
                    OpKind::Append,
                )
                &&& final(self).update_ops == old(self).update_ops + count_of(
                    views,
                    OpKind::Update,
                )
                &&& final(self).remove_ops == old(self).remove_ops + count_of(
                    views,
                    OpKind::Remove,
                )
                &&& final(self).clear_ops == old(self).clear_ops + count_of(views, OpKind::Clear)
            }),
    {
        let ghost views = types::op_views(ops@);
        let ghost before = *self;
        let mut at: usize = 0;
        proof {
            assert(views.take(0) =~= Seq::<TimelineOpView>::empty());
        }
        while at < ops.len()
            invariant
                at <= ops@.len(),
                views == types::op_views(ops@),
                before.append_ops + ops@.len() <= usize::MAX,
                before.update_ops + ops@.len() <= usize::MAX,
                before.remove_ops + ops@.len() <= usize::MAX,
                before.clear_ops + ops@.len() <= usize::MAX,
                self.room_list_updates == before.room_list_updates,
                self.timeline_deltas == before.timeline_deltas,
                self.append_ops == before.append_ops + count_of(
                    views.take(at as int),
                    OpKind::Append,
                ),
                self.update_ops == before.update_ops + count_of(
                    views.take(at as int),
                    OpKind::Update,
                ),
                self.remove_ops == before.remove_ops + count_of(
                    views.take(at as int),
                    OpKind::Remove,
                ),
                self.clear_ops == before.clear_ops + count_of(
                    views.take(at as int),
                    OpKind::Clear,
                ),
            decreases ops@.len() - at,
        {
            proof {
                let done = views.take(at as int);
                lemma_count_is_bounded(done, OpKind::Append);
                lemma_count_is_bounded(done, OpKind::Update);
                lemma_count_is_bounded(done, OpKind::Remove);
                lemma_count_is_bounded(done, OpKind::Clear);
                assert(views.take(at + 1).drop_last() =~= done);
                assert(views.take(at + 1).last() == ops@[at as int]@);
            }
            match &ops[at] {
                TimelineOp::Append(_) => self.append_ops = self.append_ops + 1,
                TimelineOp::UpdateBody { .. } => self.update_ops = self.update_ops + 1,
                TimelineOp::Remove { .. } => self.remove_ops = self.remove_ops + 1,
                TimelineOp::Clear => self.clear_ops = self.clear_ops + 1,
                TimelineOp::Prepend(_) | TimelineOp::Replace { .. } => {},
            }
            at += 1;
        }
        proof {
            assert(views.take(at as int) =~= views);
        }
    }

    /// What the harness says of the counts.
    pub fn line(&self, observe_secs: u64) -> (line: String)
        ensures
            line@ == "Observed sync for "@ + text::decimal(observe_secs as nat)
                + "s: room_list_updates="@ + text::decimal(self.room_list_updates as nat)
                + ", timeline_deltas="@ + text::decimal(self.timeline_deltas as nat)
                + ", append_ops="@ + text::decimal(self.append_ops as nat) + ", update_ops="@
                + text::decimal(self.update_ops as nat) + ", remove_ops="@ + text::decimal(
                self.remove_ops as nat,
            ) + ", clear_ops="@ + text::decimal(self.clear_ops as nat),
    {
        let mut line: String = "Observed sync for ".to_owned();
        line.append(text::decimal_string(observe_secs).as_str());
        line.append("s: room_list_updates=");
        line.append(text::decimal_string(self.room_list_updates as u64).as_str());
        line.append(", timeline_deltas=");
        line.append(text::decimal_string(self.timeline_deltas as u64).as_str());
        line.append(", append_ops=");
        line.append(text::decimal_string(self.append_ops as u64).as_str());
        line.append(", update_ops=");
        line.append(text::decimal_string(self.update_ops as u64).as_str());
        line.append(", remove_ops=");
        line.append(text::decimal_string(self.remove_ops as u64).as_str());
        line.append(", clear_ops=");
        line.append(text::decimal_string(self.clear_ops as u64).as_str());
        line
    }
}

} // verus!
