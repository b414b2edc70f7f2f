//! Matrix identifiers and content types.
use ruma_common::{OwnedEventId, OwnedMxcUri, OwnedRoomId, OwnedServerName, OwnedUserId};
use vstd::prelude::*;

use crate::backend_core::error::{self, BackendError, BackendErrorCategory};
use crate::text;

verus! {

/// The outcome of reading text as an identifier or a content type: its text, or the
/// reason why it is none.
pub open spec fn parse_outcome(result: Result<String, String>) -> Result<Seq<char>, Seq<char>> {
    match result {
        Ok(text) => Ok(text@),
        Err(reason) => Err(reason@),
    }
}

/// The room ID that `value` is, or the reason why it is none.
pub uninterp spec fn room_id_outcome(value: Seq<char>) -> Result<Seq<char>, Seq<char>>;

/// Calls `str::parse` for a `ruma_common::OwnedRoomId`, whose text is the text that
/// was parsed; the reason is the text of its error.
#[verifier::external_body]
fn read_room_id(value: &str) -> (result: Result<String, String>)
    ensures
        parse_outcome(result) == room_id_outcome(value@),
        result matches Ok(id) ==> id@ == value@,
{
    match value.parse::<OwnedRoomId>() {
        Ok(id) => Ok(id.to_string()),
        Err(err) => Err(err.to_string()),
    }
}

/// The event ID that `value` is, or the reason why it is none.
pub uninterp spec fn event_id_outcome(value: Seq<char>) -> Result<Seq<char>, Seq<char>>;

/// Calls `str::parse` for a `ruma_common::OwnedEventId`, whose text is the text that
/// was parsed; the reason is the text of its error.
#[verifier::external_body]
fn read_event_id(value: &str) -> (result: Result<String, String>)
    ensures
        parse_outcome(result) == event_id_outcome(value@),
        result matches Ok(id) ==> id@ == value@,
{
    match value.parse::<OwnedEventId>() {
        Ok(id) => Ok(id.to_string()),
        Err(err) => Err(err.to_string()),
    }
}

/// The user ID that `value` is, or the reason why it is none.
pub uninterp spec fn user_id_outcome(value: Seq<char>) -> Result<Seq<char>, Seq<char>>;

/// Calls `str::parse` for a `ruma_common::OwnedUserId`, whose text is the text that
/// was parsed; the reason is the text of its error.
#[verifier::external_body]
fn read_user_id(value: &str) -> (result: Result<String, String>)
    ensures
        parse_outcome(result) == user_id_outcome(value@),
        result matches Ok(id) ==> id@ == value@,
{
    match value.parse::<OwnedUserId>() {
        Ok(id) => Ok(id.to_string()),
        Err(err) => Err(err.to_string()),
    }
}

/// The server name that `value` is, or the reason why it is none.
pub uninterp spec fn server_name_outcome(value: Seq<char>) -> Result<Seq<char>, Seq<char>>;

/// Calls `str::parse` for a `ruma_common::OwnedServerName`, whose text is the text that
/// was parsed; the reason is the text of its error.
#[verifier::external_body]
fn read_server_name(value: &str) -> (result: Result<String, String>)
    ensures
        parse_outcome(result) == server_name_outcome(value@),
        result matches Ok(name) ==> name@ == value@,
{
    match value.parse::<OwnedServerName>() {
        Ok(name) => Ok(name.to_string()),
        Err(err) => Err(err.to_string()),
    }
}

/// Whether a character may stand in a media ID.
pub open spec fn is_media_id_char(c: char) -> bool {
    ||| '0' <= c <= '9'
    ||| 'a' <= c <= 'z'
    ||| 'A' <= c <= 'Z'
    ||| c == '-'
    ||| c == '_'
}

/// Whether text is made of the characters of a media ID.
pub open spec fn is_media_id(media_id: Seq<char>) -> bool {
    forall|i: int| 0 <= i < media_id.len() ==> is_media_id_char(#[trigger] media_id[i])
}

/// Whether `value` would be a content URI but for the length of its server name: the
/// validation keeps the position of the slash behind it in one byte, and has no answer where
/// that byte is zero.
pub open spec fn has_unsupported_length(value: Seq<char>) -> bool {
    &&& text::occurs_at(value, "mxc://"@, 0)
    &&& text::contains(value.skip(6), "/"@)
    &&& (6 + text::before_first(value.skip(6), "/"@).len()) % 256 == 0
    &&& text::after_first(value.skip(6), "/"@) matches Some(media_id) && is_media_id(media_id)
    &&& server_name_outcome(text::before_first(value.skip(6), "/"@)) is Ok
}

/// The content URI that `value` is, or the reason why it is none.
pub uninterp spec fn mxc_uri_outcome(value: Seq<char>) -> Result<Seq<char>, Seq<char>>;

/// Calls `ruma_common::MxcUri::validate` on the URI made of the text; the reason is the
/// text of its error. It panics on a URI whose server name has an unsupported length.
#[verifier::external_body]
fn read_mxc_uri(value: &str) -> (result: Result<String, String>)
    requires
        !has_unsupported_length(value@),
    ensures
        parse_outcome(result) == mxc_uri_outcome(value@),
        result matches Ok(uri) ==> uri@ == value@,
{
    let uri = OwnedMxcUri::from(value.to_owned());
    match uri.validate() {
        Ok(()) => Ok(uri.to_string()),
        Err(err) => Err(err.to_string()),
    }
}

/// The content type that `value` is, or the reason why it is none.
pub uninterp spec fn content_type_outcome(value: Seq<char>) -> Result<Seq<char>, Seq<char>>;

/// Calls `str::parse` for a `mime::Mime`, whose text is a normal form of the text that
/// was parsed; the reason is the text of its error.
#[verifier::external_body]
fn read_content_type(value: &str) -> (result: Result<String, String>)
    ensures
        parse_outcome(result) == content_type_outcome(value@),
{
    match value.parse::<mime::Mime>() {
        Ok(content_type) => Ok(content_type.to_string()),
        Err(err) => Err(err.to_string()),
    }
}

/// The error for text that is no `noun`.
pub open spec fn invalid_value(
    code: Seq<char>,
    noun: Seq<char>,
    value: Seq<char>,
    reason: Seq<char>,
) -> error::BackendErrorView {
    error::plain_error(
        BackendErrorCategory::Config,
        code,
        "invalid "@ + noun + " '"@ + value + "': "@ + reason,
    )
}

/// What a check of `value` returns, given the outcome of reading it.
pub open spec fn checked_value(
    outcome: Result<Seq<char>, Seq<char>>,
    code: Seq<char>,
    noun: Seq<char>,
    value: Seq<char>,
) -> Result<Seq<char>, error::BackendErrorView> {
    match outcome {
        Ok(text) => Ok(text),
        Err(reason) => Err(invalid_value(code, noun, value, reason)),
    }
}

/// What a checked value says.
pub open spec fn checked_view(result: Result<String, BackendError>) -> Result<
    Seq<char>,
    error::BackendErrorView,
> {
    match result {
        Ok(text) => Ok(text@),
        Err(failure) => Err(failure@),
    }
}

/// Turns the outcome of reading `value` into the answer to the caller.
pub fn check_value(
    outcome: Result<String, String>,
    code: &str,
    noun: &str,
    value: &str,
) -> (result: Result<String, BackendError>)
    ensures
        checked_view(result) == checked_value(parse_outcome(outcome), code@, noun@, value@),
{
    match outcome {
        Ok(text) => Ok(text),
        Err(reason) => {
            let mut message: String = "invalid ".to_owned();
            message.append(noun);
            message.append(" '");
            message.append(value);
            message.append("': ");
            message.append(reason.as_str());
            Err(BackendError::new(BackendErrorCategory::Config, code, message.as_str()))
        },
    }
}

/// Checks that `value` is a room ID, and returns it.
pub fn parse_room_id(value: &str) -> (result: Result<String, BackendError>)
    ensures
        checked_view(result) == checked_value(
            room_id_outcome(value@),
            "invalid_room_id"@,
            "room id"@,
            value@,
        ),
        result matches Ok(id) ==> id@ == value@,
{
    check_value(read_room_id(value), "invalid_room_id", "room id", value)
}

/// Checks that `value` is an event ID, and returns it.
pub fn parse_event_id(value: &str) -> (result: Result<String, BackendError>)
    ensures
        checked_view(result) == checked_value(
            event_id_outcome(value@),
            "invalid_event_id"@,
            "event id"@,
            value@,
        ),
        result matches Ok(id) ==> id@ == value@,
{
    check_value(read_event_id(value), "invalid_event_id", "event id", value)
}

/// Checks that `value` is a user ID, and returns it.
pub fn parse_user_id(value: &str) -> (result: Result<String, BackendError>)
    ensures
        checked_view(result) == checked_value(
            user_id_outcome(value@),
            "invalid_user_id"@,
            "user id"@,
            value@,
        ),
        result matches Ok(id) ==> id@ == value@,
{
    check_value(read_user_id(value), "invalid_user_id", "user id", value)
}

fn holds_media_id(text: &str) -> (yes: bool)
    ensures
        yes == is_media_id(text@),
{
    let chars = text::chars_of(text);
    let mut at: usize = 0;
    while at < chars.len()
        invariant
            at <= chars@.len(),
            chars@ == text@,
            forall|i: int| 0 <= i < at ==> is_media_id_char(#[trigger] text@[i]),
        decreases chars@.len() - at,
    {
        let c: char = chars[at];
        if !('0' <= c && c <= '9' || 'a' <= c && c <= 'z' || 'A' <= c && c <= 'Z' || c == '-' || c
            == '_') {
            proof {
                assert(!is_media_id_char(text@[at as int]));
            }
            return false;
        }
        at += 1;
    }
    true
}

fn is_of_unsupported_length(value: &str) -> (yes: bool)
    ensures
        yes == has_unsupported_length(value@),
{
    let chars = text::chars_of(value);
    let prefix = text::chars_of("mxc://");
    proof {
        reveal_strlit("mxc://");
    }
    match text::find(&chars, &prefix) {
        Some(0) => {},
        _ => {
            proof {
                assert(!text::occurs_at(value@, "mxc://"@, 0));
            }
            return false;
        },
    }
    let rest = text::string_from(&chars, 6, chars.len());
    proof {
        assert(rest@ =~= value@.skip(6));
    }
    let media_id = match text::rest_after(rest.as_str(), "/") {
        Some(media_id) => media_id,
        None => return false,
    };
    let server_name = text::part_before(rest.as_str(), "/");
    let name_chars = text::chars_of(server_name.as_str());
    let length: usize = name_chars.len();
    length % 256 == 250 && holds_media_id(media_id.as_str()) && read_server_name(
        server_name.as_str(),
    ).is_ok()
}

/// What a check of a content URI returns, given the outcome of validating it.
pub open spec fn checked_mxc_uri(
    value: Seq<char>,
    outcome: Result<Seq<char>, Seq<char>>,
) -> Result<Seq<char>, error::BackendErrorView> {
    checked_value(
        if has_unsupported_length(value) {
            Err("the server name has an unsupported length"@)
        } else {
            outcome
        },
        "invalid_mxc_uri"@,
        "mxc uri"@,
        value,
    )
}

/// Checks that `value` is a content URI, and returns it; one whose server name has an
/// unsupported length counts as none.
pub fn parse_mxc_uri(value: &str) -> (result: Result<String, BackendError>)
    ensures
        checked_view(result) == checked_mxc_uri(value@, mxc_uri_outcome(value@)),
        result matches Ok(uri) ==> uri@ == value@,
{
    let outcome = if is_of_unsupported_length(value) {
        Err("the server name has an unsupported length".to_owned())
    } else {
        read_mxc_uri(value)
    };
    check_value(outcome, "invalid_mxc_uri", "mxc uri", value)
}

/// Checks that `value` is a content type, and returns its normal form.
pub fn parse_media_content_type(value: &str) -> (result: Result<String, BackendError>)
    ensures
        checked_view(result) == checked_value(
            content_type_outcome(value@),
            "invalid_media_content_type"@,
            "media content type"@,
            value@,
        ),
{
    check_value(
        read_content_type(value),
        "invalid_media_content_type",
        "media content type",
        value,
    )
}

} // verus!
