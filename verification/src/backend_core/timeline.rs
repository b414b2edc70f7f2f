//! Timeline merge buffer utilities.
use vstd::prelude::*;

use super::types::{self, TimelineItem, TimelineItemView, TimelineOp, TimelineOpView};

verus! {

/// Errors that can occur while applying timeline operations.
#[derive(Debug, Clone, PartialEq, Eq)]
pub enum TimelineMergeError {
    /// An operation referenced an event ID that is not present in the buffer.
    MissingEvent(String),
}

impl TimelineMergeError {
    /// Human-readable description.
    pub fn to_text(&self) -> (text: String)
        ensures
            text@ == "timeline item with event_id '"@ + (self->MissingEvent_0)@
                + "' was not found"@,
    {
        match self {
            TimelineMergeError::MissingEvent(event_id) => {
                let mut text: String = "timeline item with event_id '".to_owned();
                text.append(event_id.as_str());
                text.append("' was not found");
                text
            },
        }
    }
}

/// Index of the first item of the event `event_id`.
pub open spec fn event_index(items: Seq<TimelineItemView>, event_id: Seq<char>) -> Option<int>
    decreases items.len(),
{
    if items.len() == 0 {
        None
    } else {
        match event_index(items.drop_last(), event_id) {
            Some(index) => Some(index),
            None => if items.last().event_id == Some(event_id) {
                Some(items.len() - 1)
            } else {
                None
            },
        }
    }
}

/// The items after one operation, or nothing if the event it names is missing.
pub open spec fn merge(items: Seq<TimelineItemView>, op: TimelineOpView) -> Option<
    Seq<TimelineItemView>,
> {
    match op {
        TimelineOpView::Append(item) => Some(items.push(item)),
        TimelineOpView::Prepend(item) => Some(seq![item] + items),
        TimelineOpView::UpdateBody { event_id, new_body } => match event_index(items, event_id) {
            Some(index) => Some(
                items.update(index, TimelineItemView { body: new_body, ..items[index] }),
            ),
            None => None,
        },
        TimelineOpView::Replace { event_id, item } => match event_index(items, event_id) {
            Some(index) => Some(items.update(index, item)),
            None => None,
        },
        TimelineOpView::Remove { event_id } => match event_index(items, event_id) {
            Some(index) => Some(items.remove(index)),
            None => None,
        },
        TimelineOpView::Clear => Some(Seq::empty()),
    }
}

/// The event that an operation needs to find.
pub open spec fn target(op: TimelineOpView) -> Option<Seq<char>> {
    match op {
        TimelineOpView::UpdateBody { event_id, .. } => Some(event_id),
        TimelineOpView::Replace { event_id, .. } => Some(event_id),
        TimelineOpView::Remove { event_id } => Some(event_id),
        _ => None,
    }
}

/// The last `max` items: the oldest ones go first.
pub open spec fn newest(items: Seq<TimelineItemView>, max: nat) -> Seq<TimelineItemView> {
    if items.len() <= max {
        items
    } else {
        items.skip(items.len() - max)
    }
}

/// Outcome of applying operations: the items, and the event that was missing
/// where an operation could not be applied.
pub struct MergeOutcome {
    pub items: Seq<TimelineItemView>,
    pub missing: Option<Seq<char>>,
}

/// Applies `ops` in order, keeping at most `max` items after each of them, and
/// stops in front of the first one whose event is missing.
pub open spec fn merge_all(
    items: Seq<TimelineItemView>,
    ops: Seq<TimelineOpView>,
    max: nat,
) -> MergeOutcome
    decreases ops.len(),
{
    if ops.len() == 0 {
        MergeOutcome { items, missing: None }
    } else {
        match merge(items, ops[0]) {
            Some(merged) => merge_all(newest(merged, max), ops.skip(1), max),
            None => MergeOutcome { items, missing: target(ops[0]) },
        }
    }
}

/// Applies `ops` in order, keeping at most `max` items after each of them, and
/// skips those whose event is missing.
pub open spec fn merge_all_lenient(
    items: Seq<TimelineItemView>,
    ops: Seq<TimelineOpView>,
    max: nat,
) -> Seq<TimelineItemView>
    decreases ops.len(),
{
    if ops.len() == 0 {
        items
    } else {
        match merge(items, ops[0]) {
            Some(merged) => merge_all_lenient(newest(merged, max), ops.skip(1), max),
            None => merge_all_lenient(items, ops.skip(1), max),
        }
    }
}

/// An index that was found is in range, holds the event, and is the first to do so;
/// otherwise no item holds the event.
pub proof fn lemma_event_index(items: Seq<TimelineItemView>, event_id: Seq<char>)
    ensures
        match event_index(items, event_id) {
            Some(index) => {
                &&& 0 <= index < items.len()
                &&& items[index].event_id == Some(event_id)
                &&& forall|i: int| 0 <= i < index ==> items[i].event_id != Some(event_id)
            },
            None => forall|i: int| 0 <= i < items.len() ==> items[i].event_id != Some(event_id),
        },
    decreases items.len(),
{
    if items.len() > 0 {
        lemma_event_index(items.drop_last(), event_id);
        assert forall|i: int| 0 <= i < items.len() - 1 implies items[i]
            == items.drop_last()[i] by {}
    }
}

/// Whether `item` is the event `event_id`.
fn is_event(item: &TimelineItem, event_id: &String) -> (yes: bool)
    ensures
        yes == (item@.event_id == Some(event_id@)),
{
    match &item.event_id {
        Some(id) => *id == *event_id,
        None => false,
    }
}

/// Index of the first item of the event `event_id`.
pub fn find_event(items: &Vec<TimelineItem>, event_id: &String) -> (found: Option<usize>)
    ensures
        match found {
            Some(index) => event_index(types::item_views(items@), event_id@) == Some(
                index as int,
            ) && index < items@.len(),
            None => event_index(types::item_views(items@), event_id@) is None,
        },
{
    let ghost views = types::item_views(items@);
    let mut at: usize = 0;
    while at < items.len()
        invariant
            at <= items@.len(),
            views == types::item_views(items@),
            event_index(views.take(at as int), event_id@) is None,
        decreases items@.len() - at,
    {
        proof {
            assert(views.take(at + 1).drop_last() =~= views.take(at as int));
            assert(views.take(at + 1).last() == items@[at as int]@);
        }
        if is_event(&items[at], event_id) {
            proof {
                assert(event_index(views.take(at + 1), event_id@) == Some(at as int));
                lemma_event_index(views, event_id@);
                lemma_event_index(views.take(at + 1), event_id@);
                match event_index(views, event_id@) {
                    Some(index) => {
                        if index < at {
                            assert(views.take(at + 1)[index] == views[index]);
                        }
                        assert(views.take(at + 1)[at as int] == views[at as int]);
                    },
                    None => {
                        assert(views[at as int].event_id == Some(event_id@));
                    },
                }
            }
            return Some(at);
        }
        at += 1;
    }
    proof {
        assert(views.take(at as int) =~= views);
    }
    None
}

/// Drops the oldest items over `max`.
pub fn keep_newest(items: &mut Vec<TimelineItem>, max: usize)
    ensures
        types::item_views(final(items)@) == newest(types::item_views(old(items)@), max as nat),
{
    if items.len() > max {
        let excess: usize = items.len() - max;
        let kept = items.split_off(excess);
        *items = kept;
        proof {
            assert(types::item_views(items@) =~= newest(
                types::item_views(old(items)@),
                max as nat,
            ));
        }
    }
}

/// Applies one operation, without a limit on the number of items.
pub fn merge_one(items: &mut Vec<TimelineItem>, op: &TimelineOp) -> (applied: bool)
    ensures
        match merge(types::item_views(old(items)@), op@) {
            Some(merged) => applied && types::item_views(final(items)@) == merged,
            None => !applied && *final(items) == *old(items) && target(op@) is Some,
        },
{
    let ghost before = types::item_views(items@);
    match op {
        TimelineOp::Append(item) => {
            items.push(item.clone());
            proof {
                assert(types::item_views(items@) =~= before.push(item@));
            }
            true
        },
        TimelineOp::Prepend(item) => {
            items.insert(0, item.clone());
            proof {
                assert(types::item_views(items@) =~= seq![item@] + before);
            }
            true
        },
        TimelineOp::UpdateBody { event_id, new_body } => {
            match find_event(items, event_id) {
                Some(index) => {
                    let item = &items[index];
                    let updated = TimelineItem {
                        event_id: types::clone_opt_string(&item.event_id),
                        sender: item.sender.clone(),
                        body: new_body.clone(),
                        content: item.content,
                        timestamp_ms: item.timestamp_ms,
                    };
                    items.set(index, updated);
                    proof {
                        assert(types::item_views(items@) =~= before.update(
                            index as int,
                            TimelineItemView { body: new_body@, ..before[index as int] },
                        ));
                    }
                    true
                },
                None => false,
            }
        },
        TimelineOp::Replace { event_id, item } => {
            match find_event(items, event_id) {
                Some(index) => {
                    items.set(index, item.clone());
                    proof {
                        assert(types::item_views(items@) =~= before.update(index as int, item@));
                    }
                    true
                },
                None => false,
            }
        },
        TimelineOp::Remove { event_id } => {
            match find_event(items, event_id) {
                Some(index) => {
                    items.remove(index);
                    proof {
                        assert(types::item_views(items@) =~= before.remove(index as int));
                    }
                    true
                },
                None => false,
            }
        },
        TimelineOp::Clear => {
            items.clear();
            proof {
                assert(types::item_views(items@) =~= Seq::<TimelineItemView>::empty());
            }
            true
        },
    }
}

/// The event that an operation needs to find.
fn target_of(op: &TimelineOp) -> (event_id: Option<String>)
    ensures
        types::opt_chars(event_id) == target(op@),
{
    match op {
        TimelineOp::UpdateBody { event_id, .. } => Some(event_id.clone()),
        TimelineOp::Replace { event_id, .. } => Some(event_id.clone()),
        TimelineOp::Remove { event_id } => Some(event_id.clone()),
        _ => None,
    }
}

/// In-memory timeline buffer with bounded item retention.
#[derive(Debug)]
pub struct TimelineBuffer {
    items: Vec<TimelineItem>,
    max_items: usize,
}

impl View for TimelineBuffer {
    type V = Seq<TimelineItemView>;

    closed spec fn view(&self) -> Seq<TimelineItemView> {
        types::item_views(self.items@)
    }
}

impl Clone for TimelineBuffer {
    fn clone(&self) -> (copy: Self)
        ensures
            copy@ == self@,
            copy.capacity() == self.capacity(),
    {
        proof {
            use_type_invariant(self);
        }
        let items = types::clone_items(self.items.as_slice());
        proof {
            assert(types::item_views(items@).len() == types::item_views(self.items@).len());
        }
        TimelineBuffer { items, max_items: self.max_items }
    }
}

impl TimelineBuffer {
    #[verifier::type_invariant]
    spec fn is_bounded(self) -> bool {
        1 <= self.max_items && self.items@.len() <= self.max_items
    }

    /// Largest number of items that the buffer retains.
    pub closed spec fn capacity(self) -> nat {
        self.max_items as nat
    }

    /// Create a timeline buffer with an item cap (`max_items >= 1`).
    pub fn new(max_items: usize) -> (buffer: Self)
        ensures
            buffer@ == Seq::<TimelineItemView>::empty(),
            buffer.capacity() == if max_items == 0 { 1 } else { max_items as nat },
    {
        let buffer = TimelineBuffer {
            items: Vec::new(),
            max_items: if max_items == 0 { 1 } else { max_items },
        };
        proof {
            assert(buffer@ =~= Seq::<TimelineItemView>::empty());
        }
        buffer
    }

    /// Current timeline items in display order.
    pub fn items(&self) -> (items: &[TimelineItem])
        ensures
            types::item_views(items@) == self@,
            self@.len() <= self.capacity(),
            1 <= self.capacity(),
    {
        proof {
            use_type_invariant(self);
        }
        self.items.as_slice()
    }

    /// Apply timeline operations in order.
    ///
    /// Where an operation names a missing event, the ones in front of it stay
    /// applied and the rest is left out.
    pub fn apply_ops(&mut self, ops: &[TimelineOp]) -> (result: Result<(), TimelineMergeError>)
        ensures
            ({
                let outcome = merge_all(
                    old(self)@,
                    types::op_views(ops@),
                    old(self).capacity(),
                );
                &&& final(self)@ == outcome.items
                &&& match outcome.missing {
                    Some(event_id) => result matches Err(TimelineMergeError::MissingEvent(id))
                        && id@ == event_id,
                    None => result is Ok,
                }
            }),
            final(self).capacity() == old(self).capacity(),
            final(self)@.len() <= final(self).capacity(),
    {
        proof {
            use_type_invariant(&*self);
        }
        let max_items: usize = self.max_items;
        let ghost all = types::op_views(ops@);
        let ghost outcome = merge_all(self@, all, max_items as nat);
        let mut items: Vec<TimelineItem> = Vec::new();
        std::mem::swap(&mut items, &mut self.items);
        let mut failure: Option<TimelineMergeError> = None;
        let mut at: usize = 0;
        proof {
            assert(all.skip(0) =~= all);
        }
        while at < ops.len() && failure.is_none()
            invariant
                at <= ops@.len(),
                all == types::op_views(ops@),
                1 <= max_items,
                items@.len() <= max_items,
                match failure {
                    None => outcome == merge_all(
                        types::item_views(items@),
                        all.skip(at as int),
                        max_items as nat,
                    ),
                    Some(TimelineMergeError::MissingEvent(id)) => outcome.items
                        == types::item_views(items@) && outcome.missing == Some(id@),
                },
            decreases ops@.len() - at,
        {
            proof {
                assert(all.skip(at as int).skip(1) =~= all.skip(at + 1));
                assert(all.skip(at as int)[0] == ops@[at as int]@);
            }
            if merge_one(&mut items, &ops[at]) {
                keep_newest(&mut items, max_items);
                proof {
                    assert(types::item_views(items@).len() == items@.len());
                }
            } else {
                match target_of(&ops[at]) {
                    Some(event_id) => {
                        failure = Some(TimelineMergeError::MissingEvent(event_id));
                    },
                    None => {},
                }
            }
            at += 1;
        }
        self.items = items;
        match failure {
            Some(missing) => Err(missing),
            None => Ok(()),
        }
    }

    /// Apply timeline operations in order and skip those that name a missing event.
    pub fn apply_ops_lenient(&mut self, ops: &[TimelineOp])
        ensures
            final(self)@ == merge_all_lenient(
                old(self)@,
                types::op_views(ops@),
                old(self).capacity(),
            ),
            final(self).capacity() == old(self).capacity(),
            final(self)@.len() <= final(self).capacity(),
    {
        proof {
            use_type_invariant(&*self);
        }
        let max_items: usize = self.max_items;
        let ghost all = types::op_views(ops@);
        let ghost outcome = merge_all_lenient(self@, all, max_items as nat);
        let mut items: Vec<TimelineItem> = Vec::new();
        std::mem::swap(&mut items, &mut self.items);
        let mut at: usize = 0;
        proof {
            assert(all.skip(0) =~= all);
        }
        while at < ops.len()
            invariant
                at <= ops@.len(),
                all == types::op_views(ops@),
                1 <= max_items,
                items@.len() <= max_items,
                outcome == merge_all_lenient(
                    types::item_views(items@),
                    all.skip(at as int),
                    max_items as nat,
                ),
            decreases ops@.len() - at,
        {
            proof {
                assert(all.skip(at as int).skip(1) =~= all.skip(at + 1));
                assert(all.skip(at as int)[0] == ops@[at as int]@);
            }
            if merge_one(&mut items, &ops[at]) {
                keep_newest(&mut items, max_items);
                proof {
                    assert(types::item_views(items@).len() == items@.len());
                }
            }
            at += 1;
        }
        self.items = items;
    }

    /// Clamp a requested pagination limit against safety and server caps.
    ///
    /// The result is always in `1..=100`.
    pub fn bounded_paginate_limit(requested: u16, server_cap: u16) -> (limit: u16)
        ensures
            limit == paginate_limit(requested, server_cap),
            1 <= limit <= 100,
    {
        let safe_requested: u16 = if requested == 0 { 1 } else { requested };
        let safe_cap: u16 = if server_cap == 0 { 1 } else { server_cap };
        let limit: u16 = if safe_requested <= safe_cap { safe_requested } else { safe_cap };
        if limit <= 100 { limit } else { 100 }
    }
}

/// The smallest of the requested limit, the server's cap and 100, where a zero
/// counts as one.
pub open spec fn paginate_limit(requested: u16, server_cap: u16) -> int {
    let safe_requested: int = if requested == 0 { 1 } else { requested as int };
    let safe_cap: int = if server_cap == 0 { 1 } else { server_cap as int };
    let limit: int = if safe_requested <= safe_cap { safe_requested } else { safe_cap };
    if limit <= 100 { limit } else { 100 }
}

/// However many operations are applied, the buffer never holds more than `max` items.
pub proof fn lemma_merge_stays_within_capacity(
    items: Seq<TimelineItemView>,
    ops: Seq<TimelineOpView>,
    max: nat,
)
    requires
        items.len() <= max,
    ensures
        merge_all(items, ops, max).items.len() <= max,
        merge_all_lenient(items, ops, max).len() <= max,
    decreases ops.len(),
{
    if ops.len() > 0 {
        match merge(items, ops[0]) {
            Some(merged) => {
                lemma_merge_stays_within_capacity(newest(merged, max), ops.skip(1), max);
            },
            None => {
                lemma_merge_stays_within_capacity(items, ops.skip(1), max);
            },
        }
    }
}

/// Where every event is found, strict and lenient application agree.
pub proof fn lemma_lenient_agrees_with_strict(
    items: Seq<TimelineItemView>,
    ops: Seq<TimelineOpView>,
    max: nat,
)
    requires
        merge_all(items, ops, max).missing is None,
    ensures
        merge_all_lenient(items, ops, max) == merge_all(items, ops, max).items,
    decreases ops.len(),
{
    if ops.len() > 0 {
        lemma_event_target(items, ops[0]);
        match merge(items, ops[0]) {
            Some(merged) => {
                lemma_lenient_agrees_with_strict(newest(merged, max), ops.skip(1), max);
            },
            None => {},
        }
    }
}

proof fn lemma_event_target(items: Seq<TimelineItemView>, op: TimelineOpView)
    ensures
        merge(items, op) is None ==> target(op) is Some,
{
}

/// How a run of operations is cut into batches does not matter: applying it whole is applying
/// its batches one after the other, up to the first event that is missing.
pub proof fn lemma_batches_compose(
    items: Seq<TimelineItemView>,
    first: Seq<TimelineOpView>,
    second: Seq<TimelineOpView>,
    max: nat,
)
    ensures
        merge_all(items, first + second, max) == ({
            let outcome = merge_all(items, first, max);
            if outcome.missing is Some {
                outcome
            } else {
                merge_all(outcome.items, second, max)
            }
        }),
        merge_all_lenient(items, first + second, max) == merge_all_lenient(
            merge_all_lenient(items, first, max),
            second,
            max,
        ),
    decreases first.len(),
{
    let all = first + second;
    if first.len() == 0 {
        assert(all =~= second);
    } else {
        assert(all[0] == first[0]);
        assert(all.skip(1) =~= first.skip(1) + second);
        match merge(items, first[0]) {
            Some(merged) => lemma_batches_compose(
                newest(merged, max),
                first.skip(1),
                second,
                max,
            ),
            None => lemma_batches_compose(items, first.skip(1), second, max),
        }
    }
}

/// Updating a body keeps the number of items and every other field of every item.
pub proof fn lemma_update_body_touches_one_body(
    items: Seq<TimelineItemView>,
    event_id: Seq<char>,
    new_body: Seq<char>,
)
    ensures
        match merge(items, TimelineOpView::UpdateBody { event_id, new_body }) {
            Some(merged) => {
                &&& merged.len() == items.len()
                &&& forall|i: int|
                    0 <= i < items.len() ==> {
                        &&& (#[trigger] merged[i]).event_id == items[i].event_id
                        &&& merged[i].sender == items[i].sender
                        &&& merged[i].content == items[i].content
                        &&& merged[i].timestamp_ms == items[i].timestamp_ms
                        &&& event_index(items, event_id) != Some(i) ==> merged[i].body
                            == items[i].body
                    }
            },
            None => forall|i: int| 0 <= i < items.len() ==> items[i].event_id != Some(event_id),
        },
{
    lemma_event_index(items, event_id);
}

/// Removing an event that was just appended restores the items, where the event
/// was not among them.
pub proof fn lemma_remove_undoes_append(items: Seq<TimelineItemView>, item: TimelineItemView)
    requires
        item.event_id is Some,
        event_index(items, item.event_id->0) is None,
    ensures
        merge(
            merge(items, TimelineOpView::Append(item))->0,
            TimelineOpView::Remove { event_id: item.event_id->0 },
        ) == Some(items),
{
    let appended = items.push(item);
    assert(appended.drop_last() =~= items);
    assert(appended.remove(items.len() as int) =~= items);
}

} // verus!
