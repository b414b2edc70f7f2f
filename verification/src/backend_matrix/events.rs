//! Matrix room events and the timeline operations that they stand for.
use ruma_common::serde::Raw;
use ruma_common::{MilliSecondsSinceUnixEpoch, OwnedEventId};
use vstd::prelude::*;

use super::event_laws;
use crate::backend_core::types::{
    self, TimelineContent, TimelineItem, TimelineItemView, TimelineOp, TimelineOpView,
};

verus! {

/// Body shown for an event that cannot be decrypted yet.
pub const ENCRYPTED_TIMELINE_PLACEHOLDER: &'static str =
    "[Encrypted message: keys unavailable on this device]";

/// Number of rooms whose recent history is fetched again after new room keys.
pub const ROOM_KEY_REFRESH_ROOM_LIMIT: usize = 5;

/// Number of events fetched per room after new room keys.
pub const ROOM_KEY_REFRESH_EVENT_LIMIT: u16 = 30;

/// The string that the member `field` of the JSON object `json` holds.
pub uninterp spec fn raw_string_field(json: Seq<char>, field: Seq<char>) -> Option<Seq<char>>;

/// Calls `ruma_common::serde::Raw::get_field` for a `String`. The result is that
/// string, and nothing where the text is no JSON object, the member is absent or
/// it is no string.
#[verifier::external_body]
pub(crate) fn read_string_field(json: &str, field: &str) -> (value: Option<String>)
    ensures
        types::opt_chars(value) == raw_string_field(json@, field@),
{
    let raw = Raw::<serde_json::Value>::from_json_string(json.to_owned()).ok()?;
    raw.get_field::<String>(field).ok().flatten()
}

/// The JSON text of the member `field` of the JSON object `json`.
pub uninterp spec fn raw_value_field(json: Seq<char>, field: Seq<char>) -> Option<Seq<char>>;

/// Calls `ruma_common::serde::Raw::get_field` for a `serde_json::Value`. The result
/// is the JSON text of that value, and nothing where the text is no JSON object or
/// the member is absent.
#[verifier::external_body]
fn read_value_field(json: &str, field: &str) -> (value: Option<String>)
    ensures
        types::opt_chars(value) == raw_value_field(json@, field@),
{
    let raw = Raw::<serde_json::Value>::from_json_string(json.to_owned()).ok()?;
    let value = raw.get_field::<serde_json::Value>(field).ok().flatten()?;
    Some(value.to_string())
}

/// The valid event ID that the member `event_id` of the JSON object `json` holds.
pub uninterp spec fn raw_event_id(json: Seq<char>) -> Option<Seq<char>>;

/// Calls `ruma_common::serde::Raw::get_field` for an `OwnedEventId`. The result is
/// the ID, and nothing where the text is no JSON object, the member `event_id` is
/// absent or it is no valid event ID.
#[verifier::external_body]
fn read_event_id(json: &str) -> (event_id: Option<String>)
    ensures
        types::opt_chars(event_id) == raw_event_id(json@),
{
    let raw = Raw::<serde_json::Value>::from_json_string(json.to_owned()).ok()?;
    let event_id = raw.get_field::<OwnedEventId>("event_id").ok().flatten()?;
    Some(event_id.to_string())
}

/// The time in milliseconds since Unix epoch that the member `origin_server_ts` of the JSON
/// object `json` holds.
pub uninterp spec fn raw_timestamp(json: Seq<char>) -> Option<u64>;

/// Calls `ruma_common::serde::Raw::get_field` for a `MilliSecondsSinceUnixEpoch`. The result
/// is its number of milliseconds, and nothing where the text is no JSON object, the member
/// `origin_server_ts` is absent or it is no such time.
#[verifier::external_body]
fn read_timestamp(json: &str) -> (timestamp_ms: Option<u64>)
    ensures
        timestamp_ms == raw_timestamp(json@),
{
    let raw = Raw::<serde_json::Value>::from_json_string(json.to_owned()).ok()?;
    let time = raw.get_field::<MilliSecondsSinceUnixEpoch>("origin_server_ts").ok().flatten()?;
    Some(u64::from(time.get()))
}

/// The JSON text of the member `key` of the JSON value `json`.
pub uninterp spec fn json_member(json: Seq<char>, key: Seq<char>) -> Option<Seq<char>>;

/// Calls `serde_json::Value::get` on the parsed text. The result is the JSON text of
/// the member, and nothing where the text is no JSON object or the member is absent.
#[verifier::external_body]
fn read_member(json: &str, key: &str) -> (value: Option<String>)
    ensures
        types::opt_chars(value) == json_member(json@, key@),
{
    let value = serde_json::from_str::<serde_json::Value>(json).ok()?;
    value.get(key).map(|member| member.to_string())
}

/// The string that the JSON value `json` is.
pub uninterp spec fn json_text(json: Seq<char>) -> Option<Seq<char>>;

/// Calls `serde_json::Value::as_str` on the parsed text. The result is the string,
/// and nothing where the text is no JSON string.
#[verifier::external_body]
fn read_text(json: &str) -> (text: Option<String>)
    ensures
        types::opt_chars(text) == json_text(json@),
{
    let value = serde_json::from_str::<serde_json::Value>(json).ok()?;
    value.as_str().map(|text| text.to_owned())
}

/// The string member `key` of the JSON object `json`.
pub open spec fn text_member(json: Seq<char>, key: Seq<char>) -> Option<Seq<char>> {
    match json_member(json, key) {
        Some(member) => json_text(member),
        None => None,
    }
}

fn read_text_member(json: &str, key: &str) -> (text: Option<String>)
    ensures
        types::opt_chars(text) == text_member(json@, key@),
{
    match read_member(json, key) {
        Some(member) => read_text(member.as_str()),
        None => None,
    }
}

/// An event of a room timeline.
#[derive(Debug, Clone, PartialEq, Eq)]
pub struct SyncEvent {
    /// JSON text of the event, decrypted where that was possible.
    pub json: String,
}

/// The parts of a message content that say what to display.
#[derive(Debug, Clone, PartialEq, Eq)]
pub struct MessageFields {
    /// Member `body`.
    pub body: Option<String>,
    /// Member `msgtype`.
    pub msgtype: Option<String>,
}

/// What [`MessageFields`] say.
#[verifier::ext_equal]
pub struct MessageFieldsView {
    pub body: Option<Seq<char>>,
    pub msgtype: Option<Seq<char>>,
}

impl View for MessageFields {
    type V = MessageFieldsView;

    open spec fn view(&self) -> MessageFieldsView {
        MessageFieldsView {
            body: types::opt_chars(self.body),
            msgtype: types::opt_chars(self.msgtype),
        }
    }
}

/// The parts of an event content that the timeline reads.
#[derive(Debug, Clone, PartialEq, Eq)]
pub struct ContentFields {
    /// The message itself.
    pub message: MessageFields,
    /// Member `rel_type` of the relation.
    pub rel_type: Option<String>,
    /// Member `event_id` of the relation.
    pub target_event_id: Option<String>,
    /// Member `m.new_content`.
    pub new_content: Option<MessageFields>,
}

/// What [`ContentFields`] say.
#[verifier::ext_equal]
pub struct ContentFieldsView {
    pub message: MessageFieldsView,
    pub rel_type: Option<Seq<char>>,
    pub target_event_id: Option<Seq<char>>,
    pub new_content: Option<MessageFieldsView>,
}

impl View for ContentFields {
    type V = ContentFieldsView;

    open spec fn view(&self) -> ContentFieldsView {
        ContentFieldsView {
            message: self.message@,
            rel_type: types::opt_chars(self.rel_type),
            target_event_id: types::opt_chars(self.target_event_id),
            new_content: match self.new_content {
                Some(message) => Some(message@),
                None => None,
            },
        }
    }
}

/// The parts of an event that the timeline reads.
#[derive(Debug, Clone, PartialEq, Eq)]
pub struct EventFields {
    /// Member `type`.
    pub event_type: Option<String>,
    /// Member `redacts`.
    pub redacts: Option<String>,
    /// Member `sender`.
    pub sender: Option<String>,
    /// Member `event_id`, where it is a valid event ID.
    pub event_id: Option<String>,
    /// Member `origin_server_ts`, where it is a time.
    pub timestamp_ms: Option<u64>,
    /// Member `content`.
    pub content: Option<ContentFields>,
}

/// What [`EventFields`] say.
#[verifier::ext_equal]
pub struct EventFieldsView {
    pub event_type: Option<Seq<char>>,
    pub redacts: Option<Seq<char>>,
    pub sender: Option<Seq<char>>,
    pub event_id: Option<Seq<char>>,
    pub timestamp_ms: Option<u64>,
    pub content: Option<ContentFieldsView>,
}

impl View for EventFields {
    type V = EventFieldsView;

    open spec fn view(&self) -> EventFieldsView {
        EventFieldsView {
            event_type: types::opt_chars(self.event_type),
            redacts: types::opt_chars(self.redacts),
            sender: types::opt_chars(self.sender),
            event_id: types::opt_chars(self.event_id),
            timestamp_ms: self.timestamp_ms,
            content: match self.content {
                Some(content) => Some(content@),
                None => None,
            },
        }
    }
}

/// The message parts of the JSON object `json`.
pub open spec fn message_fields(json: Seq<char>) -> MessageFieldsView {
    MessageFieldsView {
        body: text_member(json, "body"@),
        msgtype: text_member(json, "msgtype"@),
    }
}

/// The string member `key` of the relation of the content `json`.
pub open spec fn relation_member(json: Seq<char>, key: Seq<char>) -> Option<Seq<char>> {
    match json_member(json, "m.relates_to"@) {
        Some(relation) => text_member(relation, key),
        None => None,
    }
}

/// The parts of the content `json` that the timeline reads.
pub open spec fn content_fields(json: Seq<char>) -> ContentFieldsView {
    ContentFieldsView {
        message: message_fields(json),
        rel_type: relation_member(json, "rel_type"@),
        target_event_id: relation_member(json, "event_id"@),
        new_content: match json_member(json, "m.new_content"@) {
            Some(new_content) => Some(message_fields(new_content)),
            None => None,
        },
    }
}

/// The parts of an event that the timeline reads.
pub open spec fn event_fields(json: Seq<char>) -> EventFieldsView {
    EventFieldsView {
        event_type: raw_string_field(json, "type"@),
        redacts: raw_string_field(json, "redacts"@),
        sender: raw_string_field(json, "sender"@),
        event_id: raw_event_id(json),
        timestamp_ms: raw_timestamp(json),
        content: match raw_value_field(json, "content"@) {
            Some(content) => Some(content_fields(content)),
            None => None,
        },
    }
}

fn read_message_fields(json: &str) -> (fields: MessageFields)
    ensures
        fields@ == message_fields(json@),
{
    MessageFields {
        body: read_text_member(json, "body"),
        msgtype: read_text_member(json, "msgtype"),
    }
}

fn read_content_fields(json: &str) -> (fields: ContentFields)
    ensures
        fields@ == content_fields(json@),
{
    let (rel_type, target_event_id) = match read_member(json, "m.relates_to") {
        Some(relation) => (
            read_text_member(relation.as_str(), "rel_type"),
            read_text_member(relation.as_str(), "event_id"),
        ),
        None => (None, None),
    };
    let new_content = match read_member(json, "m.new_content") {
        Some(new_content) => Some(read_message_fields(new_content.as_str())),
        None => None,
    };
    ContentFields { message: read_message_fields(json), rel_type, target_event_id, new_content }
}

/// The parts of an event that the timeline reads.
pub fn read_event_fields(event: &SyncEvent) -> (fields: EventFields)
    ensures
        fields@ == event_fields(event.json@),
{
    let json = event.json.as_str();
    let content = match read_value_field(json, "content") {
        Some(content) => Some(read_content_fields(content.as_str())),
        None => None,
    };
    EventFields {
        event_type: read_string_field(json, "type"),
        redacts: read_string_field(json, "redacts"),
        sender: read_string_field(json, "sender"),
        event_id: read_event_id(json),
        timestamp_ms: read_timestamp(json),
        content,
    }
}

/// The text to display for a message: its body, where the message is a text, a
/// notice or an emote. A message that names no type is a text.
pub open spec fn display_body(message: MessageFieldsView) -> Option<Seq<char>> {
    let displayable = match message.msgtype {
        Some(msgtype) => msgtype == "m.text"@ || msgtype == "m.notice"@ || msgtype == "m.emote"@,
        None => true,
    };
    if displayable { message.body } else { None }
}

/// The text to display for a message.
pub fn extract_basic_message_body(message: &MessageFields) -> (body: Option<String>)
    ensures
        types::opt_chars(body) == display_body(message@),
{
    let displayable = match &message.msgtype {
        Some(msgtype) => *msgtype.as_str() == *"m.text" || *msgtype.as_str() == *"m.notice"
            || *msgtype.as_str() == *"m.emote",
        None => true,
    };
    if displayable {
        types::clone_opt_string(&message.body)
    } else {
        None
    }
}

/// Whether an event content replaces that of another event.
pub open spec fn is_replacement(content: ContentFieldsView) -> bool {
    content.rel_type == Some("m.replace"@)
}

fn replaces(content: &ContentFields) -> (yes: bool)
    ensures
        yes == is_replacement(content@),
{
    match &content.rel_type {
        Some(rel_type) => *rel_type.as_str() == *"m.replace",
        None => false,
    }
}

/// The new text of the event that a replacement names: that of its new content, or
/// its own where the new content has none to display.
pub open spec fn replacement_body(content: ContentFieldsView) -> Option<Seq<char>> {
    match content.new_content {
        Some(new_content) => match display_body(new_content) {
            Some(body) => Some(body),
            None => display_body(content.message),
        },
        None => display_body(content.message),
    }
}

/// The edit that an event stands for.
pub open spec fn edit_op(event: EventFieldsView) -> Option<TimelineOpView> {
    if event.event_type != Some("m.room.message"@) {
        None
    } else {
        match event.content {
            Some(content) => if is_replacement(content) {
                match (content.target_event_id, replacement_body(content)) {
                    (Some(event_id), Some(new_body)) => Some(
                        TimelineOpView::UpdateBody { event_id, new_body },
                    ),
                    _ => None,
                }
            } else {
                None
            },
            None => None,
        }
    }
}

/// The removal that an event stands for.
pub open spec fn redaction_op(event: EventFieldsView) -> Option<TimelineOpView> {
    if event.event_type == Some("m.room.redaction"@) {
        match event.redacts {
            Some(event_id) => Some(TimelineOpView::Remove { event_id }),
            None => None,
        }
    } else {
        None
    }
}

/// The timeline item that an event stands for: a message that replaces no other, or
/// a placeholder for an event that could not be decrypted.
pub open spec fn timeline_item(event: EventFieldsView) -> Option<TimelineItemView> {
    let body = if event.event_type == Some("m.room.encrypted"@) {
        Some(ENCRYPTED_TIMELINE_PLACEHOLDER@)
    } else if event.event_type == Some("m.room.message"@) {
        match event.content {
            Some(content) => if is_replacement(content) {
                None
            } else {
                display_body(content.message)
            },
            None => None,
        }
    } else {
        None
    };
    match (event.sender, body) {
        (Some(sender), Some(body)) => Some(
            TimelineItemView {
                event_id: event.event_id,
                sender,
                body,
                content: TimelineContent::Text,
                timestamp_ms: match event.timestamp_ms {
                    Some(ms) => ms,
                    None => 0,
                },
            },
        ),
        _ => None,
    }
}

/// Where a new item goes.
#[derive(Debug, Clone, Copy, PartialEq, Eq, Structural)]
pub enum TimelineInsertMode {
    /// Behind the items that are there.
    Append,
    /// In front of the items that are there.
    Prepend,
}

/// The operation that an event stands for: a removal, an edit or a new item.
pub open spec fn timeline_op(event: EventFieldsView, mode: TimelineInsertMode) -> Option<
    TimelineOpView,
> {
    if redaction_op(event) is Some {
        redaction_op(event)
    } else if edit_op(event) is Some {
        edit_op(event)
    } else {
        match timeline_item(event) {
            Some(item) => match mode {
                TimelineInsertMode::Append => Some(TimelineOpView::Append(item)),
                TimelineInsertMode::Prepend => Some(TimelineOpView::Prepend(item)),
            },
            None => None,
        }
    }
}

/// What an optional operation says.
pub open spec fn opt_op_view(op: Option<TimelineOp>) -> Option<TimelineOpView> {
    match op {
        Some(op) => Some(op@),
        None => None,
    }
}

fn is_type(event: &EventFields, event_type: &str) -> (yes: bool)
    ensures
        yes == (event@.event_type == Some(event_type@)),
{
    match &event.event_type {
        Some(text) => *text.as_str() == *event_type,
        None => false,
    }
}

/// The removal that an event stands for.
pub fn redaction_op_from_event(event: &EventFields) -> (op: Option<TimelineOp>)
    ensures
        opt_op_view(op) == redaction_op(event@),
{
    if !is_type(event, "m.room.redaction") {
        return None;
    }
    match &event.redacts {
        Some(event_id) => Some(TimelineOp::Remove { event_id: event_id.clone() }),
        None => None,
    }
}

/// The edit that an event stands for.
pub fn edit_op_from_event(event: &EventFields) -> (op: Option<TimelineOp>)
    ensures
        opt_op_view(op) == edit_op(event@),
{
    if !is_type(event, "m.room.message") {
        return None;
    }
    match &event.content {
        Some(content) => {
            if !replaces(content) {
                return None;
            }
            let new_body = match &content.new_content {
                Some(new_content) => match extract_basic_message_body(new_content) {
                    Some(body) => Some(body),
                    None => extract_basic_message_body(&content.message),
                },
                None => extract_basic_message_body(&content.message),
            };
            match (&content.target_event_id, new_body) {
                (Some(event_id), Some(new_body)) => Some(
                    TimelineOp::UpdateBody { event_id: event_id.clone(), new_body },
                ),
                _ => None,
            }
        },
        None => None,
    }
}

/// The timeline item that an event stands for.
pub fn timeline_item_from_event(event: &EventFields) -> (item: Option<TimelineItem>)
    ensures
        match item {
            Some(item) => timeline_item(event@) == Some(item@),
            None => timeline_item(event@) is None,
        },
{
    let sender = match &event.sender {
        Some(sender) => sender.clone(),
        None => return None,
    };
    let body: String = if is_type(event, "m.room.encrypted") {
        ENCRYPTED_TIMELINE_PLACEHOLDER.to_owned()
    } else if is_type(event, "m.room.message") {
        match &event.content {
            Some(content) => {
                if replaces(content) {
                    return None;
                }
                match extract_basic_message_body(&content.message) {
                    Some(body) => body,
                    None => return None,
                }
            },
            None => return None,
        }
    } else {
        return None;
    };
    let timestamp_ms: u64 = match event.timestamp_ms {
        Some(ms) => ms,
        None => 0,
    };
    Some(
        TimelineItem {
            event_id: types::clone_opt_string(&event.event_id),
            sender,
            body,
            content: TimelineContent::Text,
            timestamp_ms,
        },
    )
}

/// The operation that an event stands for, from the parts of the event.
pub fn timeline_op_from_fields(event: &EventFields, mode: TimelineInsertMode) -> (op: Option<
    TimelineOp,
>)
    ensures
        opt_op_view(op) == timeline_op(event@, mode),
{
    match redaction_op_from_event(event) {
        Some(op) => return Some(op),
        None => {},
    }
    match edit_op_from_event(event) {
        Some(op) => return Some(op),
        None => {},
    }
    match timeline_item_from_event(event) {
        Some(item) => match mode {
            TimelineInsertMode::Append => Some(TimelineOp::Append(item)),
            TimelineInsertMode::Prepend => Some(TimelineOp::Prepend(item)),
        },
        None => None,
    }
}

/// The operation that an event stands for.
pub open spec fn event_op(event: SyncEvent, mode: TimelineInsertMode) -> Option<TimelineOpView> {
    timeline_op(event_fields(event.json@), mode)
}

/// The operation that an event stands for.
pub fn timeline_op_from_event(event: &SyncEvent, mode: TimelineInsertMode) -> (op: Option<
    TimelineOp,
>)
    ensures
        opt_op_view(op) == event_op(*event, mode),
{
    timeline_op_from_fields(&read_event_fields(event), mode)
}

/// The operations that events stand for, in order; events that stand for none are
/// left out.
pub open spec fn event_ops(events: Seq<SyncEvent>, mode: TimelineInsertMode) -> Seq<TimelineOpView>
    decreases events.len(),
{
    if events.len() == 0 {
        Seq::empty()
    } else {
        let before = event_ops(events.drop_last(), mode);
        match event_op(events.last(), mode) {
            Some(op) => before.push(op),
            None => before,
        }
    }
}

fn ops_for(events: &[SyncEvent], mode: TimelineInsertMode, backward: bool) -> (ops: Vec<TimelineOp>)
    ensures
        types::op_views(ops@) == event_ops(
            if backward { events@.reverse() } else { events@ },
            mode,
        ),
{
    let ghost walked = if backward { events@.reverse() } else { events@ };
    let mut ops: Vec<TimelineOp> = Vec::new();
    let mut at: usize = 0;
    proof {
        assert(types::op_views(ops@) =~= event_ops(walked.take(0), mode));
    }
    while at < events.len()
        invariant
            at <= events@.len(),
            walked == if backward { events@.reverse() } else { events@ },
            types::op_views(ops@) == event_ops(walked.take(at as int), mode),
        decreases events@.len() - at,
    {
        let index: usize = if backward { events.len() - 1 - at } else { at };
        proof {
            assert(walked.take(at + 1).drop_last() =~= walked.take(at as int));
            assert(walked.take(at + 1).last() == events@[index as int]);
        }
        let ghost before = ops@;
        match timeline_op_from_event(&events[index], mode) {
            Some(op) => {
                ops.push(op);
                proof {
                    assert(types::op_views(ops@) =~= types::op_views(before).push(op@));
                }
            },
            None => {},
        }
        at += 1;
    }
    proof {
        assert(walked.take(at as int) =~= walked);
    }
    ops
}

/// The operations that fill a room from its latest events, newest first in `chunk`.
pub fn timeline_ops_for_open(chunk: &[SyncEvent]) -> (ops: Vec<TimelineOp>)
    ensures
        types::op_views(ops@) == event_ops(chunk@.reverse(), TimelineInsertMode::Append),
        event_laws::are_messages(chunk@) ==> ops@.len() == chunk@.len() && forall|k: int|
            0 <= k < chunk@.len() ==> (#[trigger] ops@[k])@ == TimelineOpView::Append(
                event_laws::items_of(chunk@)[chunk@.len() - 1 - k],
            ),
{
    let ops = ops_for(chunk, TimelineInsertMode::Append, true);
    proof {
        assert(types::op_views(ops@).len() == ops@.len());
        assert forall|k: int| 0 <= k < ops@.len() implies (#[trigger] ops@[k])@
            == types::op_views(ops@)[k] by {}
        if event_laws::are_messages(chunk@) {
            event_laws::lemma_room_opens_in_chronological_order(chunk@);
        }
    }
    ops
}

/// The operations that put older events, newest first in `chunk`, in front of a room's
/// timeline.
pub fn timeline_ops_for_pagination(chunk: &[SyncEvent]) -> (ops: Vec<TimelineOp>)
    ensures
        types::op_views(ops@) == event_ops(chunk@, TimelineInsertMode::Prepend),
        event_laws::are_messages(chunk@) ==> ops@.len() == chunk@.len() && forall|k: int|
            0 <= k < chunk@.len() ==> (#[trigger] ops@[k])@ == TimelineOpView::Prepend(
                event_laws::items_of(chunk@)[k],
            ),
{
    let ops = ops_for(chunk, TimelineInsertMode::Prepend, false);
    proof {
        assert(types::op_views(ops@).len() == ops@.len());
        assert forall|k: int| 0 <= k < ops@.len() implies (#[trigger] ops@[k])@
            == types::op_views(ops@)[k] by {}
        if event_laws::are_messages(chunk@) {
            event_laws::lemma_page_is_prepended_newest_first(chunk@);
        }
    }
    ops
}

} // verus!
