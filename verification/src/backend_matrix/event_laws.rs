//! What room events become in a timeline, and in which order.
use vstd::prelude::*;

use super::events::{
    self, ContentFieldsView, EventFields, EventFieldsView, MessageFields, SyncEvent,
    TimelineInsertMode, ENCRYPTED_TIMELINE_PLACEHOLDER,
};
use crate::backend_core::timeline;
use crate::backend_core::timeline_laws;
use crate::backend_core::types::{TimelineItem, TimelineItemView, TimelineOp, TimelineOpView};

verus! {

/// Number of the first `upto` events that stand for an operation.
pub open spec fn ops_before(events: Seq<SyncEvent>, mode: TimelineInsertMode, upto: nat) -> nat
    decreases upto,
{
    if upto == 0 {
        0
    } else {
        ops_before(events, mode, (upto - 1) as nat) + if events::event_op(
            events[upto - 1],
            mode,
        ) is Some {
            1nat
        } else {
            0nat
        }
    }
}

/// Later events have at least as many operations in front of them.
pub proof fn lemma_ops_before_is_monotonic(
    events: Seq<SyncEvent>,
    mode: TimelineInsertMode,
    low: nat,
    high: nat,
)
    requires
        low <= high,
    ensures
        ops_before(events, mode, low) <= ops_before(events, mode, high),
        low < high && events::event_op(events[low as int], mode) is Some ==> ops_before(
            events,
            mode,
            low,
        ) < ops_before(events, mode, high),
    decreases high,
{
    if low < high {
        if low < high - 1 {
            lemma_ops_before_is_monotonic(events, mode, low, (high - 1) as nat);
        }
    }
}

/// Operations stand in the order of the events that they come from: each event that stands for
/// one has it at the position given by the number of such events before it, so that an earlier
/// event has its operation before that of a later one; and there are no other operations.
pub proof fn lemma_operations_keep_event_order(events: Seq<SyncEvent>, mode: TimelineInsertMode)
    ensures
        events::event_ops(events, mode).len() == ops_before(events, mode, events.len()),
        forall|i: int|
            0 <= i < events.len() ==> match events::event_op(#[trigger] events[i], mode) {
                Some(op) => {
                    let at = ops_before(events, mode, i as nat);
                    &&& at < events::event_ops(events, mode).len()
                    &&& events::event_ops(events, mode)[at as int] == op
                },
                None => true,
            },
        forall|i: int, j: int|
            0 <= i < j < events.len() && events::event_op(#[trigger] events[i], mode) is Some
                && events::event_op(#[trigger] events[j], mode) is Some ==> ops_before(
                events,
                mode,
                i as nat,
            ) < ops_before(events, mode, j as nat),
    decreases events.len(),
{
    if events.len() > 0 {
        let front = events.drop_last();
        let ops = events::event_ops(events, mode);
        lemma_operations_keep_event_order(front, mode);
        lemma_ops_before_of_prefix(events, mode, front.len());
        assert forall|i: int| 0 <= i < events.len() implies match events::event_op(
            #[trigger] events[i],
            mode,
        ) {
            Some(op) => {
                let at = ops_before(events, mode, i as nat);
                &&& at < ops.len()
                &&& ops[at as int] == op
            },
            None => true,
        } by {
            if i < front.len() {
                assert(front[i] == events[i]);
                lemma_ops_before_of_prefix(events, mode, i as nat);
            }
        }
    }
    assert forall|i: int, j: int|
        0 <= i < j < events.len() && events::event_op(#[trigger] events[i], mode) is Some
            && events::event_op(#[trigger] events[j], mode) is Some implies ops_before(
        events,
        mode,
        i as nat,
    ) < ops_before(events, mode, j as nat) by {
        lemma_ops_before_is_monotonic(events, mode, i as nat, j as nat);
    }
}

proof fn lemma_ops_before_of_prefix(events: Seq<SyncEvent>, mode: TimelineInsertMode, upto: nat)
    requires
        upto < events.len(),
    ensures
        ops_before(events, mode, upto) == ops_before(events.drop_last(), mode, upto),
    decreases upto,
{
    if upto > 0 {
        lemma_ops_before_of_prefix(events, mode, (upto - 1) as nat);
        assert(events[upto - 1] == events.drop_last()[upto - 1]);
    }
}

/// Whether every event of a chunk is a message that stands for a timeline item.
pub open spec fn are_messages(chunk: Seq<SyncEvent>) -> bool {
    forall|i: int|
        0 <= i < chunk.len() ==> {
            let fields = events::event_fields((#[trigger] chunk[i]).json@);
            &&& events::redaction_op(fields) is None
            &&& events::edit_op(fields) is None
            &&& events::timeline_item(fields) is Some
        }
}

/// The items of the messages of a chunk.
pub open spec fn items_of(chunk: Seq<SyncEvent>) -> Seq<TimelineItemView> {
    Seq::new(
        chunk.len(),
        |i: int| events::timeline_item(events::event_fields(chunk[i].json@))->0,
    )
}

proof fn lemma_messages_have_one_operation_each(
    chunk: Seq<SyncEvent>,
    mode: TimelineInsertMode,
    upto: nat,
)
    requires
        are_messages(chunk),
        upto <= chunk.len(),
    ensures
        ops_before(chunk, mode, upto) == upto,
    decreases upto,
{
    if upto > 0 {
        lemma_messages_have_one_operation_each(chunk, mode, (upto - 1) as nat);
        assert(events::event_op(chunk[upto - 1], mode) is Some);
    }
}

/// The operations that open a room append its messages from the oldest to the newest: a chunk
/// holds the newest first, so the k-th operation is that of the k-th event from its end.
pub proof fn lemma_room_opens_in_chronological_order(chunk: Seq<SyncEvent>)
    requires
        are_messages(chunk),
    ensures
        ({
            let ops = events::event_ops(chunk.reverse(), TimelineInsertMode::Append);
            &&& ops.len() == chunk.len()
            &&& forall|k: int|
                0 <= k < chunk.len() ==> #[trigger] ops[k] == TimelineOpView::Append(
                    items_of(chunk)[chunk.len() - 1 - k],
                )
        }),
{
    let mode = TimelineInsertMode::Append;
    let walked = chunk.reverse();
    let ops = events::event_ops(walked, mode);
    assert(are_messages(walked)) by {
        assert forall|i: int| 0 <= i < walked.len() implies ({
            let fields = events::event_fields((#[trigger] walked[i]).json@);
            &&& events::redaction_op(fields) is None
            &&& events::edit_op(fields) is None
            &&& events::timeline_item(fields) is Some
        }) by {
            assert(walked[i] == chunk[chunk.len() - 1 - i]);
        }
    }
    lemma_operations_keep_event_order(walked, mode);
    lemma_messages_have_one_operation_each(walked, mode, walked.len());
    assert forall|k: int| 0 <= k < chunk.len() implies #[trigger] ops[k] == TimelineOpView::Append(
        items_of(chunk)[chunk.len() - 1 - k],
    ) by {
        lemma_messages_have_one_operation_each(walked, mode, k as nat);
        assert(walked[k] == chunk[chunk.len() - 1 - k]);
        assert(events::event_op(walked[k], mode) is Some);
    }
}

/// The operations of a page prepend its messages from the newest to the oldest: the k-th
/// operation is that of the k-th event of the chunk.
pub proof fn lemma_page_is_prepended_newest_first(chunk: Seq<SyncEvent>)
    requires
        are_messages(chunk),
    ensures
        ({
            let ops = events::event_ops(chunk, TimelineInsertMode::Prepend);
            &&& ops.len() == chunk.len()
            &&& forall|k: int|
                0 <= k < chunk.len() ==> #[trigger] ops[k] == TimelineOpView::Prepend(
                    items_of(chunk)[k],
                )
        }),
{
    let mode = TimelineInsertMode::Prepend;
    let ops = events::event_ops(chunk, mode);
    lemma_operations_keep_event_order(chunk, mode);
    lemma_messages_have_one_operation_each(chunk, mode, chunk.len());
    assert forall|k: int| 0 <= k < chunk.len() implies #[trigger] ops[k]
        == TimelineOpView::Prepend(items_of(chunk)[k]) by {
        lemma_messages_have_one_operation_each(chunk, mode, k as nat);
        assert(events::event_op(chunk[k], mode) is Some);
    }
}

/// A room that is opened and then paged back shows its messages in chronological order: the
/// page reversed, and behind it the opening chunk reversed, where there is room for all.
pub proof fn lemma_opened_and_paged_room_is_chronological(
    latest: Seq<SyncEvent>,
    older: Seq<SyncEvent>,
    max: nat,
)
    requires
        are_messages(latest),
        are_messages(older),
        latest.len() + older.len() <= max,
    ensures
        ({
            let opened = timeline::merge_all_lenient(
                Seq::empty(),
                events::event_ops(latest.reverse(), TimelineInsertMode::Append),
                max,
            );
            &&& opened == items_of(latest).reverse()
            &&& timeline::merge_all_lenient(
                opened,
                events::event_ops(older, TimelineInsertMode::Prepend),
                max,
            ) == items_of(older).reverse() + items_of(latest).reverse()
        }),
{
    lemma_room_opens_in_chronological_order(latest);
    lemma_page_is_prepended_newest_first(older);
    let added = items_of(latest).reverse();
    assert(events::event_ops(latest.reverse(), TimelineInsertMode::Append)
        =~= timeline_laws::appends(added));
    assert(events::event_ops(older, TimelineInsertMode::Prepend) =~= timeline_laws::prepends(
        items_of(older),
    ));
    timeline_laws::lemma_appends_arrive_in_order(Seq::empty(), added, max);
    assert(Seq::<TimelineItemView>::empty() + added =~= added);
    timeline_laws::lemma_prepends_arrive_reversed(added, items_of(older), max);
}

/// Whether a message content is to be shown: it is a text, a notice or an emote, or names no
/// type.
pub open spec fn is_shown_type(msgtype: Option<Seq<char>>) -> bool {
    ||| msgtype is None
    ||| msgtype == Some("m.text"@)
    ||| msgtype == Some("m.notice"@)
    ||| msgtype == Some("m.emote"@)
}

/// A message that replaces no other becomes an item with the event's own ID, sender, body and
/// time; one of another type than text, notice or emote, or without a body or a sender, becomes
/// nothing.
pub proof fn lemma_message_becomes_its_item(
    event: EventFieldsView,
    content: ContentFieldsView,
    mode: TimelineInsertMode,
)
    requires
        event.event_type == Some("m.room.message"@),
        event.content == Some(content),
        content.rel_type != Some("m.replace"@),
    ensures
        match events::timeline_op(event, mode) {
            Some(op) => {
                let item = match op {
                    TimelineOpView::Append(item) => item,
                    TimelineOpView::Prepend(item) => item,
                    _ => arbitrary(),
                };
                &&& (op is Append) == (mode is Append)
                &&& (op is Prepend) == (mode is Prepend)
                &&& is_shown_type(content.message.msgtype)
                &&& item.event_id == event.event_id
                &&& Some(item.sender) == event.sender
                &&& Some(item.body) == content.message.body
                &&& event.timestamp_ms is Some ==> Some(item.timestamp_ms) == event.timestamp_ms
                &&& event.timestamp_ms is None ==> item.timestamp_ms == 0
            },
            None => event.sender is None || content.message.body is None || !is_shown_type(
                content.message.msgtype,
            ),
        },
{
    reveal_strlit("m.room.message");
    reveal_strlit("m.room.redaction");
    reveal_strlit("m.room.encrypted");
    assert("m.room.message"@.len() == 14 && "m.room.redaction"@.len() == 16
        && "m.room.encrypted"@.len() == 16);
}

/// A message that replaces another becomes an edit of that one: with the body of the new
/// content where that is to be shown, else with its own.
pub proof fn lemma_replacement_becomes_an_edit(
    event: EventFieldsView,
    content: ContentFieldsView,
    mode: TimelineInsertMode,
)
    requires
        event.event_type == Some("m.room.message"@),
        event.content == Some(content),
        content.rel_type == Some("m.replace"@),
    ensures
        ({
            let own = is_shown_type(content.message.msgtype) && content.message.body is Some;
            let new = content.new_content is Some && is_shown_type(
                content.new_content->0.msgtype,
            ) && content.new_content->0.body is Some;
            match events::timeline_op(event, mode) {
                Some(op) => {
                    &&& op is UpdateBody
                    &&& content.target_event_id == Some(op->UpdateBody_event_id)
                    &&& new ==> content.new_content->0.body == Some(op->new_body)
                    &&& !new ==> own && content.message.body == Some(op->new_body)
                },
                None => content.target_event_id is None || (!new && !own),
            }
        }),
{
    reveal_strlit("m.room.message");
    reveal_strlit("m.room.redaction");
    reveal_strlit("m.room.encrypted");
    assert("m.room.message"@.len() == 14 && "m.room.redaction"@.len() == 16
        && "m.room.encrypted"@.len() == 16);
}

/// A redaction removes the event that it names, and does nothing where it names none.
pub proof fn lemma_redaction_becomes_a_removal(event: EventFieldsView, mode: TimelineInsertMode)
    requires
        event.event_type == Some("m.room.redaction"@),
    ensures
        match events::timeline_op(event, mode) {
            Some(op) => op is Remove && event.redacts == Some(op->Remove_event_id),
            None => event.redacts is None,
        },
{
    reveal_strlit("m.room.message");
    reveal_strlit("m.room.redaction");
    reveal_strlit("m.room.encrypted");
    assert("m.room.message"@.len() == 14 && "m.room.redaction"@.len() == 16);
    assert("m.room.redaction"@[7] != "m.room.encrypted"@[7]);
}

/// An event that could not be decrypted is shown by a placeholder, with its own ID, sender and
/// time.
pub proof fn lemma_encrypted_event_becomes_a_placeholder(
    event: EventFieldsView,
    mode: TimelineInsertMode,
)
    requires
        event.event_type == Some("m.room.encrypted"@),
    ensures
        match events::timeline_op(event, mode) {
            Some(op) => {
                let item = match op {
                    TimelineOpView::Append(item) => item,
                    TimelineOpView::Prepend(item) => item,
                    _ => arbitrary(),
                };
                &&& (op is Append) == (mode is Append)
                &&& (op is Prepend) == (mode is Prepend)
                &&& item.body == ENCRYPTED_TIMELINE_PLACEHOLDER@
                &&& item.event_id == event.event_id
                &&& Some(item.sender) == event.sender
                &&& event.timestamp_ms is Some ==> Some(item.timestamp_ms) == event.timestamp_ms
            },
            None => event.sender is None,
        },
{
    reveal_strlit("m.room.message");
    reveal_strlit("m.room.redaction");
    reveal_strlit("m.room.encrypted");
    assert("m.room.message"@.len() == 14 && "m.room.encrypted"@.len() == 16);
    assert("m.room.redaction"@[7] != "m.room.encrypted"@[7]);
}

/// Events of every other type, and those without one, are left out of the timeline.
pub proof fn lemma_other_events_are_left_out(event: EventFieldsView, mode: TimelineInsertMode)
    requires
        event.event_type != Some("m.room.message"@),
        event.event_type != Some("m.room.encrypted"@),
        event.event_type != Some("m.room.redaction"@),
    ensures
        events::timeline_op(event, mode) is None,
{
}

/// The parts of an event are read from the members of its JSON text, each from its own; those of
/// its content from the content.
pub proof fn lemma_event_is_read_by_members(event: SyncEvent, fields: EventFields)
    requires
        call_ensures(events::read_event_fields, (&event,), fields),
    ensures
        fields@ == events::event_fields(event.json@),
        fields@.event_type == events::raw_string_field(event.json@, "type"@),
        fields@.sender == events::raw_string_field(event.json@, "sender"@),
        fields@.redacts == events::raw_string_field(event.json@, "redacts"@),
        fields@.event_id == events::raw_event_id(event.json@),
        fields@.timestamp_ms == events::raw_timestamp(event.json@),
        fields@.content is Some <==> events::raw_value_field(event.json@, "content"@) is Some,
        events::raw_value_field(event.json@, "content"@) matches Some(content) ==> {
            let read = fields@.content->0;
            let body = events::json_member(content, "body"@);
            let msgtype = events::json_member(content, "msgtype"@);
            let relation = events::json_member(content, "m.relates_to"@);
            let replacement = events::json_member(content, "m.new_content"@);
            &&& body is None ==> read.message.body is None
            &&& body is Some ==> read.message.body == events::json_text(body->0)
            &&& msgtype is None ==> read.message.msgtype is None
            &&& msgtype is Some ==> read.message.msgtype == events::json_text(msgtype->0)
            &&& relation is None ==> read.rel_type is None && read.target_event_id is None
            &&& relation is Some ==> read.rel_type == events::text_member(
                relation->0,
                "rel_type"@,
            )
            &&& relation is Some ==> read.target_event_id == events::text_member(
                relation->0,
                "event_id"@,
            )
            &&& replacement is Some <==> read.new_content is Some
            &&& replacement is Some ==> read.new_content->0.body == events::text_member(
                replacement->0,
                "body"@,
            )
            &&& replacement is Some ==> read.new_content->0.msgtype == events::text_member(
                replacement->0,
                "msgtype"@,
            )
        },
{
}

/// Parts, items and operations are handed out as the parts of the event say.
pub proof fn lemma_operations_follow_the_parts(
    fields: EventFields,
    mode: TimelineInsertMode,
    op: Option<TimelineOp>,
    item: Option<TimelineItem>,
    removal: Option<TimelineOp>,
    edit: Option<TimelineOp>,
    event: SyncEvent,
    whole: Option<TimelineOp>,
)
    requires
        call_ensures(events::timeline_op_from_fields, (&fields, mode), op),
        call_ensures(events::timeline_item_from_event, (&fields,), item),
        call_ensures(events::redaction_op_from_event, (&fields,), removal),
        call_ensures(events::edit_op_from_event, (&fields,), edit),
        call_ensures(events::timeline_op_from_event, (&event, mode), whole),
    ensures
        removal is Some ==> op is Some && op->0@ == removal->0@,
        removal is None && edit is Some ==> op is Some && op->0@ == edit->0@,
        removal is None && edit is None && item is Some && mode is Append ==> op is Some && op->0@
            == TimelineOpView::Append(item->0@),
        removal is None && edit is None && item is Some && mode is Prepend ==> op is Some
            && op->0@ == TimelineOpView::Prepend(item->0@),
        removal is None && edit is None && item is None ==> op is None,
        removal is Some ==> removal->0@ is Remove,
        edit is Some ==> edit->0@ is UpdateBody,
        fields@ == events::event_fields(event.json@) ==> (whole is Some <==> op is Some),
        fields@ == events::event_fields(event.json@) && whole is Some ==> whole->0@ == op->0@,
{
    assert(events::opt_op_view(op) == events::timeline_op(fields@, mode));
}

/// The text of a message is its body, where it is one to be shown.
pub proof fn lemma_text_of_message_is_its_body(message: MessageFields, body: Option<String>)
    requires
        call_ensures(events::extract_basic_message_body, (&message,), body),
    ensures
        is_shown_type(message@.msgtype) && message.body is Some ==> body is Some && body->0@
            == message.body->0@,
        !is_shown_type(message@.msgtype) || message.body is None ==> body is None,
{
}

} // verus!
