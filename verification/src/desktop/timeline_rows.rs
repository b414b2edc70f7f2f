//! Timelines of the desktop client: deltas, and the last instance of each event.
use vstd::prelude::*;

use crate::backend_core::timeline;
use crate::backend_core::types::{
    self, TimelineItem, TimelineItemView, TimelineOp, TimelineOpView,
};
use crate::text_map::TextMap;

verus! {

/// Applies operations in order and skips those whose event is missing.
pub open spec fn apply_delta(items: Seq<TimelineItemView>, ops: Seq<TimelineOpView>) -> Seq<
    TimelineItemView,
>
    decreases ops.len(),
{
    if ops.len() == 0 {
        items
    } else {
        match timeline::merge(items, ops[0]) {
            Some(merged) => apply_delta(merged, ops.skip(1)),
            None => apply_delta(items, ops.skip(1)),
        }
    }
}

/// Applies operations in order and skips those whose event is missing.
pub fn apply_delta_lenient(items: &mut Vec<TimelineItem>, ops: &[TimelineOp])
    ensures
        types::item_views(final(items)@) == apply_delta(
            types::item_views(old(items)@),
            types::op_views(ops@),
        ),
{
    let ghost all = types::op_views(ops@);
    let ghost goal = apply_delta(types::item_views(items@), all);
    let mut at: usize = 0;
    proof {
        assert(all.skip(0) =~= all);
    }
    while at < ops.len()
        invariant
            at <= ops@.len(),
            all == types::op_views(ops@),
            goal == apply_delta(types::item_views(items@), all.skip(at as int)),
        decreases ops@.len() - at,
    {
        proof {
            assert(all.skip(at as int).skip(1) =~= all.skip(at + 1));
            assert(all.skip(at as int)[0] == ops@[at as int]@);
        }
        let _applied = timeline::merge_one(items, &ops[at]);
        at += 1;
    }
}

/// Whether an item of the event is among the items.
pub open spec fn holds_event(items: Seq<TimelineItemView>, event_id: Seq<char>) -> bool {
    exists|i: int| 0 <= i < items.len() && (#[trigger] items[i]).event_id == Some(event_id)
}

/// The items without those whose event stands again behind them.
pub open spec fn last_instances(items: Seq<TimelineItemView>) -> Seq<TimelineItemView>
    decreases items.len(),
{
    if items.len() == 0 {
        Seq::empty()
    } else {
        let rest = items.skip(1);
        match items[0].event_id {
            Some(event_id) => if holds_event(rest, event_id) {
                last_instances(rest)
            } else {
                seq![items[0]] + last_instances(rest)
            },
            None => seq![items[0]] + last_instances(rest),
        }
    }
}

/// The last instance of each event, and of those the newest `max`.
pub open spec fn deduped(items: Seq<TimelineItemView>, max: nat) -> Seq<TimelineItemView> {
    timeline::newest(last_instances(items), max)
}

fn reverse_items(items: Vec<TimelineItem>) -> (reversed: Vec<TimelineItem>)
    ensures
        types::item_views(reversed@) == types::item_views(items@).reverse(),
{
    let ghost all = items@;
    let mut items = items;
    let mut reversed: Vec<TimelineItem> = Vec::new();
    proof {
        assert(all.skip(all.len() as int).reverse() =~= Seq::<TimelineItem>::empty());
    }
    while items.len() > 0
        invariant
            items@.len() <= all.len(),
            items@ == all.take(items@.len() as int),
            reversed@ == all.skip(items@.len() as int).reverse(),
        decreases items@.len(),
    {
        let ghost count = items@.len() as int;
        match items.pop() {
            Some(item) => {
                reversed.push(item);
                proof {
                    assert(items@ =~= all.take(count - 1));
                    assert(all.skip(count - 1).reverse() =~= all.skip(count).reverse().push(
                        all[count - 1],
                    ));
                }
            },
            None => {},
        }
    }
    proof {
        assert(all.skip(0) =~= all);
        assert(types::item_views(reversed@) =~= types::item_views(all).reverse());
    }
    reversed
}

/// The last instance of each event, and of those the newest `max_items`.
pub fn dedupe_and_trim(items: Vec<TimelineItem>, max_items: usize) -> (result: Vec<TimelineItem>)
    ensures
        types::item_views(result@) == deduped(types::item_views(items@), max_items as nat),
{
    let ghost all = types::item_views(items@);
    let mut items = items;
    let mut seen: TextMap<()> = TextMap::new();
    let mut reversed: Vec<TimelineItem> = Vec::new();
    proof {
        assert(all.skip(all.len() as int) =~= Seq::<TimelineItemView>::empty());
        assert(types::item_views(items@) =~= all.take(all.len() as int));
        assert(types::item_views(reversed@).reverse() =~= Seq::<TimelineItemView>::empty());
    }
    while items.len() > 0
        invariant
            items@.len() <= all.len(),
            types::item_views(items@) == all.take(items@.len() as int),
            types::item_views(reversed@).reverse() == last_instances(
                all.skip(items@.len() as int),
            ),
            forall|event_id: Seq<char>| #[trigger]
                seen@.dom().contains(event_id) <==> holds_event(
                    all.skip(items@.len() as int),
                    event_id,
                ),
        decreases items@.len(),
    {
        let ghost count = items@.len() as int;
        let ghost kept = types::item_views(reversed@);
        let ghost before = items@;
        match items.pop() {
            Some(item) => {
                let ghost rest = all.skip(count);
                let ghost longer = all.skip(count - 1);
                proof {
                    assert(types::item_views(before)[count - 1] == item@);
                    assert(all[count - 1] == item@);
                    assert(types::item_views(items@) =~= all.take(count - 1));
                    assert(longer.skip(1) =~= rest);
                    assert(longer[0] == item@);
                    lemma_holds_event_cons(longer);
                }
                let keep = match &item.event_id {
                    Some(event_id) => {
                        let new = !seen.contains_key(event_id.as_str());
                        if new {
                            seen.insert(event_id.clone(), ());
                        }
                        new
                    },
                    None => true,
                };
                if keep {
                    reversed.push(item);
                    proof {
                        assert(types::item_views(reversed@) =~= kept.push(item@));
                        assert(kept.push(item@).reverse() =~= seq![item@] + kept.reverse());
                    }
                }
            },
            None => {},
        }
    }
    proof {
        assert(all.skip(0) =~= all);
    }
    let mut result = reverse_items(reversed);
    timeline::keep_newest(&mut result, max_items);
    result
}

proof fn lemma_holds_event_cons(items: Seq<TimelineItemView>)
    requires
        items.len() > 0,
    ensures
        forall|event_id: Seq<char>| #[trigger]
            holds_event(items, event_id) <==> items[0].event_id == Some(event_id) || holds_event(
                items.skip(1),
                event_id,
            ),
{
    assert forall|event_id: Seq<char>| #[trigger] holds_event(items, event_id) <==> items[0].event_id
        == Some(event_id) || holds_event(items.skip(1), event_id) by {
        if holds_event(items, event_id) {
            let i = choose|i: int|
                0 <= i < items.len() && (#[trigger] items[i]).event_id == Some(event_id);
            if i > 0 {
                assert(items.skip(1)[i - 1].event_id == Some(event_id));
            }
        }
        if holds_event(items.skip(1), event_id) {
            let i = choose|i: int|
                0 <= i < items.skip(1).len() && (#[trigger] items.skip(1)[i]).event_id == Some(
                    event_id,
                );
            assert(items[i + 1].event_id == Some(event_id));
        }
    }
}

/// Whether no event stands twice among the items.
pub open spec fn events_are_distinct(items: Seq<TimelineItemView>) -> bool {
    forall|i: int, j: int|
        0 <= i < j < items.len() && (#[trigger] items[i]).event_id is Some ==> items[i].event_id
            != (#[trigger] items[j]).event_id
}

/// After deduplication no event stands twice, and there are at most `max` items.
pub proof fn lemma_deduped_is_distinct_and_bounded(items: Seq<TimelineItemView>, max: nat)
    ensures
        events_are_distinct(deduped(items, max)),
        deduped(items, max).len() <= max,
{
    lemma_last_instances_distinct(items);
    let all = last_instances(items);
    let few = timeline::newest(all, max);
    if all.len() > max {
        let cut = all.len() - max;
        assert forall|i: int, j: int|
            0 <= i < j < few.len() && (#[trigger] few[i]).event_id is Some implies few[i].event_id
            != (#[trigger] few[j]).event_id by {
            assert(few[i] == all[i + cut] && few[j] == all[j + cut]);
        }
    }
}

proof fn lemma_last_instances_distinct(items: Seq<TimelineItemView>)
    ensures
        events_are_distinct(last_instances(items)),
        forall|event_id: Seq<char>| #[trigger]
            holds_event(last_instances(items), event_id) <==> holds_event(items, event_id),
    decreases items.len(),
{
    if items.len() > 0 {
        let rest = items.skip(1);
        let kept = last_instances(rest);
        lemma_last_instances_distinct(rest);
        lemma_holds_event_cons(items);
        let whole = last_instances(items);
        let cons = seq![items[0]] + kept;
        assert(cons.skip(1) =~= kept);
        lemma_holds_event_cons(cons);
        if whole == cons {
            assert forall|i: int, j: int|
                0 <= i < j < cons.len() && (#[trigger] cons[i]).event_id
                    is Some implies cons[i].event_id != (#[trigger] cons[j]).event_id by {
                assert(cons[j] == kept[j - 1]);
                if i == 0 {
                    let event_id = items[0].event_id->0;
                    if cons[j].event_id == Some(event_id) {
                        assert(holds_event(kept, event_id));
                        assert(holds_event(rest, event_id));
                    }
                } else {
                    assert(cons[i] == kept[i - 1]);
                }
            }
        }
    }
}

/// Deduplicating twice is deduplicating once.
pub proof fn lemma_dedupe_is_idempotent(items: Seq<TimelineItemView>, max: nat)
    ensures
        deduped(deduped(items, max), max) == deduped(items, max),
{
    lemma_deduped_is_distinct_and_bounded(items, max);
    lemma_distinct_is_kept(deduped(items, max));
}

/// Items of which no event stands twice all stay.
pub proof fn lemma_distinct_is_kept(items: Seq<TimelineItemView>)
    requires
        events_are_distinct(items),
    ensures
        last_instances(items) == items,
    decreases items.len(),
{
    if items.len() > 0 {
        let rest = items.skip(1);
        assert forall|i: int, j: int|
            0 <= i < j < rest.len() && (#[trigger] rest[i]).event_id is Some implies rest[i].event_id
            != (#[trigger] rest[j]).event_id by {
            assert(rest[i] == items[i + 1] && rest[j] == items[j + 1]);
        }
        lemma_distinct_is_kept(rest);
        if items[0].event_id is Some && holds_event(rest, items[0].event_id->0) {
            let j = choose|j: int|
                0 <= j < rest.len() && (#[trigger] rest[j]).event_id == Some(
                    items[0].event_id->0,
                );
            assert(rest[j] == items[j + 1]);
            assert(items[0].event_id != items[j + 1].event_id);
        }
        assert(last_instances(items) =~= items);
    } else {
        assert(last_instances(items) =~= items);
    }
}

} // verus!
