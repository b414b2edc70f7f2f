//! What each timeline operation does to the items, position by position, and what runs of
//! operations add up to.
use vstd::prelude::*;

use super::timeline::{self, TimelineBuffer, TimelineMergeError};
use super::types::{self, TimelineItem, TimelineItemView, TimelineOp, TimelineOpView};

verus! {

/// An appended item stands behind all others, which stay where they are.
pub proof fn lemma_append_adds_at_the_end(items: Seq<TimelineItemView>, item: TimelineItemView)
    ensures
        ({
            let after = timeline::merge(items, TimelineOpView::Append(item));
            &&& after is Some
            &&& after->0.len() == items.len() + 1
            &&& after->0[items.len() as int] == item
            &&& forall|i: int| 0 <= i < items.len() ==> #[trigger] after->0[i] == items[i]
        }),
{
}

/// A prepended item stands in front of all others, each of which moves back by one.
pub proof fn lemma_prepend_adds_at_the_front(items: Seq<TimelineItemView>, item: TimelineItemView)
    ensures
        ({
            let after = timeline::merge(items, TimelineOpView::Prepend(item));
            &&& after is Some
            &&& after->0.len() == items.len() + 1
            &&& after->0[0] == item
            &&& forall|i: int| 0 <= i < items.len() ==> after->0[i + 1] == #[trigger] items[i]
        }),
{
}

/// Clearing leaves nothing.
pub proof fn lemma_clear_leaves_nothing(items: Seq<TimelineItemView>)
    ensures
        ({
            let after = timeline::merge(items, TimelineOpView::Clear);
            after is Some && after->0.len() == 0
        }),
{
}

/// An edit succeeds where an item is of the event. It gives the first such item the new body,
/// and touches nothing else of it and no other item.
pub proof fn lemma_edit_changes_first_item_of_event(
    items: Seq<TimelineItemView>,
    event_id: Seq<char>,
    new_body: Seq<char>,
    at: int,
)
    requires
        0 <= at < items.len(),
        items[at].event_id == Some(event_id),
        forall|i: int| 0 <= i < at ==> (#[trigger] items[i]).event_id != Some(event_id),
    ensures
        ({
            let after = timeline::merge(items, TimelineOpView::UpdateBody { event_id, new_body });
            &&& after is Some
            &&& after->0.len() == items.len()
            &&& after->0[at].body == new_body
            &&& after->0[at].event_id == items[at].event_id
            &&& after->0[at].sender == items[at].sender
            &&& after->0[at].content == items[at].content
            &&& after->0[at].timestamp_ms == items[at].timestamp_ms
            &&& forall|i: int|
                0 <= i < items.len() && i != at ==> #[trigger] after->0[i] == items[i]
        }),
{
    timeline::lemma_event_index(items, event_id);
}

/// A replacement puts the new item in the place of the first item of the event, and touches no
/// other item.
pub proof fn lemma_replace_exchanges_first_item_of_event(
    items: Seq<TimelineItemView>,
    event_id: Seq<char>,
    item: TimelineItemView,
    at: int,
)
    requires
        0 <= at < items.len(),
        items[at].event_id == Some(event_id),
        forall|i: int| 0 <= i < at ==> (#[trigger] items[i]).event_id != Some(event_id),
    ensures
        ({
            let after = timeline::merge(items, TimelineOpView::Replace { event_id, item });
            &&& after is Some
            &&& after->0.len() == items.len()
            &&& after->0[at] == item
            &&& forall|i: int|
                0 <= i < items.len() && i != at ==> #[trigger] after->0[i] == items[i]
        }),
{
    timeline::lemma_event_index(items, event_id);
}

/// A removal takes the first item of the event out; the items behind it move up by one.
pub proof fn lemma_remove_takes_first_item_of_event(
    items: Seq<TimelineItemView>,
    event_id: Seq<char>,
    at: int,
)
    requires
        0 <= at < items.len(),
        items[at].event_id == Some(event_id),
        forall|i: int| 0 <= i < at ==> (#[trigger] items[i]).event_id != Some(event_id),
    ensures
        ({
            let after = timeline::merge(items, TimelineOpView::Remove { event_id });
            &&& after is Some
            &&& after->0.len() == items.len() - 1
            &&& forall|i: int| 0 <= i < at ==> #[trigger] after->0[i] == items[i]
            &&& forall|i: int| at < i < items.len() ==> after->0[i - 1] == #[trigger] items[i]
        }),
{
    timeline::lemma_event_index(items, event_id);
}

/// An edit, a replacement or a removal of an event that no item is of fails, and names the
/// event.
pub proof fn lemma_missing_event_is_named(
    items: Seq<TimelineItemView>,
    event_id: Seq<char>,
    new_body: Seq<char>,
    item: TimelineItemView,
    max: nat,
)
    requires
        forall|i: int| 0 <= i < items.len() ==> (#[trigger] items[i]).event_id != Some(event_id),
    ensures
        ({
            let ops = seq![
                TimelineOpView::UpdateBody { event_id, new_body },
                TimelineOpView::Replace { event_id, item },
                TimelineOpView::Remove { event_id },
            ];
            forall|i: int|
                0 <= i < 3 ==> {
                    let op = #[trigger] ops[i];
                    &&& timeline::merge(items, op) is None
                    &&& timeline::merge_all(items, seq![op], max).missing == Some(event_id)
                    &&& timeline::merge_all(items, seq![op], max).items == items
                    &&& timeline::merge_all_lenient(items, seq![op], max) == items
                }
        }),
{
    timeline::lemma_event_index(items, event_id);
    let ops = seq![
        TimelineOpView::UpdateBody { event_id, new_body },
        TimelineOpView::Replace { event_id, item },
        TimelineOpView::Remove { event_id },
    ];
    assert forall|i: int| 0 <= i < 3 implies ({
        let op = #[trigger] ops[i];
        &&& timeline::merge(items, op) is None
        &&& timeline::merge_all(items, seq![op], max).missing == Some(event_id)
        &&& timeline::merge_all(items, seq![op], max).items == items
        &&& timeline::merge_all_lenient(items, seq![op], max) == items
    }) by {
        let one = seq![ops[i]];
        assert(one.skip(1) =~= Seq::<TimelineOpView>::empty());
        assert(timeline::merge_all_lenient(items, one.skip(1), max) == items);
    }
}

/// Of too many items the oldest are dropped: as many stay as may, and they are the last ones,
/// in their order.
pub proof fn lemma_newest_keeps_the_end(items: Seq<TimelineItemView>, max: nat)
    ensures
        ({
            let few = timeline::newest(items, max);
            &&& few.len() == if items.len() <= max { items.len() } else { max }
            &&& forall|i: int|
                0 <= i < few.len() ==> #[trigger] few[i] == items[items.len() - few.len() + i]
        }),
{
}

/// Without operations nothing changes, and nothing is missing.
pub proof fn lemma_no_operation_changes_nothing(items: Seq<TimelineItemView>, max: nat)
    ensures
        timeline::merge_all(items, Seq::empty(), max).items == items,
        timeline::merge_all(items, Seq::empty(), max).missing is None,
        timeline::merge_all_lenient(items, Seq::empty(), max) == items,
{
}

/// The operations that append items.
pub open spec fn appends(added: Seq<TimelineItemView>) -> Seq<TimelineOpView> {
    Seq::new(added.len(), |i: int| TimelineOpView::Append(added[i]))
}

/// The operations that prepend items.
pub open spec fn prepends(added: Seq<TimelineItemView>) -> Seq<TimelineOpView> {
    Seq::new(added.len(), |i: int| TimelineOpView::Prepend(added[i]))
}

/// Items that are appended one after the other stand behind the others in their order, and of
/// all of them the newest stay.
pub proof fn lemma_appends_arrive_in_order(
    items: Seq<TimelineItemView>,
    added: Seq<TimelineItemView>,
    max: nat,
)
    requires
        items.len() <= max,
    ensures
        timeline::merge_all(items, appends(added), max).missing is None,
        timeline::merge_all(items, appends(added), max).items == timeline::newest(
            items + added,
            max,
        ),
        timeline::merge_all_lenient(items, appends(added), max) == timeline::newest(
            items + added,
            max,
        ),
    decreases added.len(),
{
    let ops = appends(added);
    if added.len() == 0 {
        assert(ops =~= Seq::<TimelineOpView>::empty());
        assert(items + added =~= items);
    } else {
        let rest = added.skip(1);
        let merged = items.push(added[0]);
        let kept = timeline::newest(merged, max);
        assert(ops.skip(1) =~= appends(rest));
        lemma_appends_arrive_in_order(kept, rest, max);
        assert(merged + rest =~= items + added);
        if merged.len() > max {
            assert(timeline::newest(kept + rest, max) =~= timeline::newest(items + added, max));
        }
    }
}

/// Items that are prepended one after the other stand in front of the others, the last one
/// first, where there is room for all of them.
pub proof fn lemma_prepends_arrive_reversed(
    items: Seq<TimelineItemView>,
    added: Seq<TimelineItemView>,
    max: nat,
)
    requires
        items.len() + added.len() <= max,
    ensures
        timeline::merge_all(items, prepends(added), max).missing is None,
        timeline::merge_all(items, prepends(added), max).items == added.reverse() + items,
        timeline::merge_all_lenient(items, prepends(added), max) == added.reverse() + items,
    decreases added.len(),
{
    let ops = prepends(added);
    if added.len() == 0 {
        assert(ops =~= Seq::<TimelineOpView>::empty());
        assert(added.reverse() + items =~= items);
    } else {
        let rest = added.skip(1);
        let merged = seq![added[0]] + items;
        assert(ops.skip(1) =~= prepends(rest));
        lemma_prepends_arrive_reversed(merged, rest, max);
        assert(rest.reverse() + merged =~= added.reverse() + items);
    }
}

/// A page of older items goes in front of a full timeline at no cost to it: what is dropped is
/// the page itself.
pub proof fn lemma_full_timeline_keeps_its_items(
    items: Seq<TimelineItemView>,
    item: TimelineItemView,
    max: nat,
)
    requires
        items.len() == max,
    ensures
        timeline::merge_all(items, seq![TimelineOpView::Prepend(item)], max).items == items,
        timeline::merge_all_lenient(items, seq![TimelineOpView::Prepend(item)], max) == items,
{
    let ops = seq![TimelineOpView::Prepend(item)];
    assert(ops.skip(1) =~= Seq::<TimelineOpView>::empty());
    assert(timeline::newest(seq![item] + items, max) =~= items);
    let kept = timeline::newest(seq![item] + items, max);
    lemma_no_operation_changes_nothing(kept, max);
}

/// A run that clears first ends as on an empty timeline.
pub proof fn lemma_clear_starts_over(
    items: Seq<TimelineItemView>,
    ops: Seq<TimelineOpView>,
    max: nat,
)
    ensures
        timeline::merge_all(items, seq![TimelineOpView::Clear] + ops, max) == timeline::merge_all(
            Seq::empty(),
            ops,
            max,
        ),
        timeline::merge_all_lenient(items, seq![TimelineOpView::Clear] + ops, max)
            == timeline::merge_all_lenient(Seq::empty(), ops, max),
{
    let all = seq![TimelineOpView::Clear] + ops;
    assert(all.skip(1) =~= ops);
    assert(all[0] is Clear);
}

/// The limit of a page is what was asked for where that is between one and the server's cap
/// and no more than a hundred; it is never above the cap, what was asked for or a hundred,
/// where these are not zero, and never zero.
pub proof fn lemma_page_limit_is_within_bounds(requested: u16, server_cap: u16)
    ensures
        1 <= timeline::paginate_limit(requested, server_cap) <= 100,
        requested > 0 ==> timeline::paginate_limit(requested, server_cap) <= requested,
        server_cap > 0 ==> timeline::paginate_limit(requested, server_cap) <= server_cap,
        1 <= requested <= server_cap && requested <= 100 ==> timeline::paginate_limit(
            requested,
            server_cap,
        ) == requested,
        1 <= server_cap <= requested && server_cap <= 100 ==> timeline::paginate_limit(
            requested,
            server_cap,
        ) == server_cap,
        requested >= 100 && server_cap >= 100 ==> timeline::paginate_limit(requested, server_cap)
            == 100,
{
}

/// Items before and after one operation: an appended one is the last, a prepended one the first,
/// and the others keep their order.
pub proof fn lemma_one_operation_is_applied()
    ensures
        forall|items: &mut Vec<TimelineItem>, op: &TimelineOp, applied: bool|
            #[trigger] call_ensures(timeline::merge_one, (items, op), applied) && op@ is Append
                ==> {
                let before = (*items)@;
                let after = (*final(items))@;
                &&& applied
                &&& after.len() == before.len() + 1
                &&& after[before.len() as int]@ == op@->Append_0
                &&& forall|i: int| 0 <= i < before.len() ==> (#[trigger] after[i])@ == before[i]@
            },
        forall|items: &mut Vec<TimelineItem>, op: &TimelineOp, applied: bool|
            #[trigger] call_ensures(timeline::merge_one, (items, op), applied) && op@ is Prepend
                ==> {
                let before = (*items)@;
                let after = (*final(items))@;
                &&& applied
                &&& after.len() == before.len() + 1
                &&& after[0]@ == op@->Prepend_0
                &&& forall|i: int| 0 <= i < before.len() ==> after[i + 1]@ == (#[trigger] before[i])@
            },
        forall|items: &mut Vec<TimelineItem>, op: &TimelineOp, applied: bool|
            #[trigger] call_ensures(timeline::merge_one, (items, op), applied) && op@ is Clear
                ==> applied && (*final(items))@.len() == 0,
{
    assert forall|items: &mut Vec<TimelineItem>, op: &TimelineOp, applied: bool|
        #[trigger] call_ensures(timeline::merge_one, (items, op), applied) && op@ is Append
        implies ({
        let before = (*items)@;
        let after = (*final(items))@;
        &&& applied
        &&& after.len() == before.len() + 1
        &&& after[before.len() as int]@ == op@->Append_0
        &&& forall|i: int| 0 <= i < before.len() ==> (#[trigger] after[i])@ == before[i]@
    }) by {
        lemma_views_of_items((*items)@);
        lemma_views_of_items((*final(items))@);
        lemma_append_adds_at_the_end(types::item_views((*items)@), op@->Append_0);
    }
    assert forall|items: &mut Vec<TimelineItem>, op: &TimelineOp, applied: bool|
        #[trigger] call_ensures(timeline::merge_one, (items, op), applied) && op@ is Prepend
        implies ({
        let before = (*items)@;
        let after = (*final(items))@;
        &&& applied
        &&& after.len() == before.len() + 1
        &&& after[0]@ == op@->Prepend_0
        &&& forall|i: int| 0 <= i < before.len() ==> after[i + 1]@ == (#[trigger] before[i])@
    }) by {
        lemma_views_of_items((*items)@);
        lemma_views_of_items((*final(items))@);
        lemma_prepend_adds_at_the_front(types::item_views((*items)@), op@->Prepend_0);
    }
    assert forall|items: &mut Vec<TimelineItem>, op: &TimelineOp, applied: bool|
        #[trigger] call_ensures(timeline::merge_one, (items, op), applied) && op@ is Clear
        implies applied && (*final(items))@.len() == 0 by {
        lemma_views_of_items((*final(items))@);
        lemma_clear_leaves_nothing(types::item_views((*items)@));
    }
}

proof fn lemma_views_of_items(items: Seq<TimelineItem>)
    ensures
        types::item_views(items).len() == items.len(),
        forall|i: int|
            0 <= i < items.len() ==> (#[trigger] items[i])@ == types::item_views(items)[i],
{
}

/// A new buffer is empty and keeps at least one item. Operations never fill it beyond what it
/// keeps, none is refused where no event is missing, and a missing one is named.
pub proof fn lemma_buffer_keeps_to_its_capacity()
    ensures
        forall|max_items: usize, buffer: TimelineBuffer|
            #[trigger] call_ensures(TimelineBuffer::new, (max_items,), buffer) ==> {
                &&& buffer@.len() == 0
                &&& buffer.capacity() >= 1
                &&& max_items >= 1 ==> buffer.capacity() == max_items
            },
        forall|
            buffer: &mut TimelineBuffer,
            ops: &[TimelineOp],
            result: Result<(), TimelineMergeError>,
        |
            #[trigger] call_ensures(TimelineBuffer::apply_ops, (buffer, ops), result) ==> {
                let outcome = timeline::merge_all(
                    (*buffer)@,
                    types::op_views(ops@),
                    (*buffer).capacity(),
                );
                &&& final(buffer)@ == outcome.items
                &&& result is Ok <==> outcome.missing is None
                &&& result matches Err(TimelineMergeError::MissingEvent(id)) ==> outcome.missing
                    == Some(id@)
                &&& final(buffer)@.len() <= final(buffer).capacity()
                &&& final(buffer).capacity() == (*buffer).capacity()
            },
        forall|buffer: &mut TimelineBuffer, ops: &[TimelineOp]|
            #[trigger] call_ensures(TimelineBuffer::apply_ops_lenient, (buffer, ops), ()) ==> {
                &&& final(buffer)@ == timeline::merge_all_lenient(
                    (*buffer)@,
                    types::op_views(ops@),
                    (*buffer).capacity(),
                )
                &&& final(buffer).capacity() == (*buffer).capacity()
            },
{
}

} // verus!
