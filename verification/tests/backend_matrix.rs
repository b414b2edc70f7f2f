//! Matrix events, identifiers, local files, errors and tuning.
use std::path::Path;
use std::time::Duration;

use pikachat::backend_core::error::{BackendError, BackendErrorCategory};
use pikachat::backend_core::retry::RetryPolicy;
use pikachat::backend_core::types::{BackendInitConfig, TimelineOp};
use pikachat::backend_matrix::errors::{
    SdkFailure, expected_device_id_from_store_mismatch_message, is_recoverable_sync_error,
    is_store_account_mismatch_message, map_matrix_error,
};
use pikachat::backend_matrix::events::{ENCRYPTED_TIMELINE_PLACEHOLDER, SyncEvent};
use pikachat::backend_matrix::ids::{
    parse_event_id, parse_media_content_type, parse_mxc_uri, parse_room_id, parse_user_id,
};
use pikachat::backend_matrix::local_files::{
    FileRead, FileWrite, device_id_hint_file_path, legacy_device_id_hint_file_path,
    load_device_id_hint_from_file, load_store_passphrase_from_file,
    persist_device_id_hint_to_file, persist_store_passphrase_to_file,
    session_account_for_homeserver, store_passphrase_account_for_homeserver,
    store_passphrase_file_path,
};
use pikachat::backend_matrix::sync::{
    EventBodies, timeline_ops_for_sync_events, timeline_update_ops_for_refresh_events,
};
use pikachat::backend_matrix::tuning::{
    DEFAULT_OPEN_ROOM_LIMIT, DEFAULT_PAGINATION_LIMIT_CAP, runtime_tuning_from_init_config,
};
use serde_json::Value;

fn text(value: &str) -> Value {
    Value::String(value.to_owned())
}

fn object(members: &[(&str, Value)]) -> Value {
    let mut map = serde_json::Map::new();
    for (name, value) in members {
        map.insert((*name).to_owned(), value.clone());
    }
    Value::Object(map)
}

fn sync_event(members: &[(&str, Value)]) -> SyncEvent {
    SyncEvent {
        json: object(members).to_string(),
    }
}

fn make_sync_timeline_event(
    event_id: &str,
    sender: &str,
    body: &str,
    origin_server_ts: u64,
) -> SyncEvent {
    make_sync_timeline_event_with_msgtype(event_id, sender, "m.text", body, origin_server_ts)
}

fn make_sync_timeline_event_with_msgtype(
    event_id: &str,
    sender: &str,
    msgtype: &str,
    body: &str,
    origin_server_ts: u64,
) -> SyncEvent {
    sync_event(&[
        ("type", text("m.room.message")),
        ("event_id", text(event_id)),
        ("sender", text(sender)),
        ("origin_server_ts", Value::from(origin_server_ts)),
        (
            "content",
            object(&[("msgtype", text(msgtype)), ("body", text(body))]),
        ),
    ])
}

fn make_sync_state_event(
    event_id: &str,
    sender: &str,
    event_type: &str,
    origin_server_ts: u64,
) -> SyncEvent {
    sync_event(&[
        ("type", text(event_type)),
        ("event_id", text(event_id)),
        ("sender", text(sender)),
        ("origin_server_ts", Value::from(origin_server_ts)),
        ("state_key", text("")),
        ("content", object(&[])),
    ])
}

fn make_sync_encrypted_event(event_id: &str, sender: &str, origin_server_ts: u64) -> SyncEvent {
    sync_event(&[
        ("type", text("m.room.encrypted")),
        ("event_id", text(event_id)),
        ("sender", text(sender)),
        ("origin_server_ts", Value::from(origin_server_ts)),
        (
            "content",
            object(&[
                ("algorithm", text("m.megolm.v1.aes-sha2")),
                ("ciphertext", text("placeholder")),
            ]),
        ),
    ])
}

fn make_sync_edit_event(
    edit_event_id: &str,
    sender: &str,
    target_event_id: &str,
    new_body: &str,
    origin_server_ts: u64,
) -> SyncEvent {
    sync_event(&[
        ("type", text("m.room.message")),
        ("event_id", text(edit_event_id)),
        ("sender", text(sender)),
        ("origin_server_ts", Value::from(origin_server_ts)),
        (
            "content",
            object(&[
                ("msgtype", text("m.text")),
                ("body", text(&format!("* {}", new_body))),
                (
                    "m.new_content",
                    object(&[("msgtype", text("m.text")), ("body", text(new_body))]),
                ),
                (
                    "m.relates_to",
                    object(&[
                        ("rel_type", text("m.replace")),
                        ("event_id", text(target_event_id)),
                    ]),
                ),
            ]),
        ),
    ])
}

fn make_sync_redaction_event(
    redaction_event_id: &str,
    sender: &str,
    target_event_id: &str,
    origin_server_ts: u64,
) -> SyncEvent {
    sync_event(&[
        ("type", text("m.room.redaction")),
        ("event_id", text(redaction_event_id)),
        ("sender", text(sender)),
        ("origin_server_ts", Value::from(origin_server_ts)),
        ("redacts", text(target_event_id)),
        ("content", object(&[("reason", text("cleanup"))])),
    ])
}

fn known_body(event_id: &str, body: String) -> EventBodies {
    let mut bodies = EventBodies::new();
    bodies.insert(event_id.to_owned(), body);
    bodies
}


#[test]
fn rejects_invalid_room_id() {
    let err = parse_room_id("not-a-room-id").expect_err("invalid room id must fail");
    assert_eq!(err.code, "invalid_room_id");
}

#[test]
fn rejects_invalid_event_id() {
    let err = parse_event_id("not-an-event-id").expect_err("invalid event id must fail");
    assert_eq!(err.code, "invalid_event_id");
}

#[test]
fn rejects_invalid_user_id() {
    let err = parse_user_id("not-a-user").expect_err("invalid user id must fail");
    assert_eq!(err.code, "invalid_user_id");
}

#[test]
fn rejects_invalid_mxc_uri() {
    let err =
        parse_mxc_uri("https://example.org/not-mxc").expect_err("invalid mxc uri must fail");
    assert_eq!(err.code, "invalid_mxc_uri");
}

#[test]
fn rejects_mxc_uri_whose_server_name_has_an_unsupported_length() {
    let uri = |length: usize| format!("mxc://{}/media", "a".repeat(length));
    for length in [250, 506] {
        let err = parse_mxc_uri(&uri(length)).expect_err("the length must be refused");
        assert_eq!(err.code, "invalid_mxc_uri");
        assert_eq!(
            err.message,
            format!(
                "invalid mxc uri '{}': the server name has an unsupported length",
                uri(length)
            )
        );
    }
    for length in [249, 251] {
        assert_eq!(
            parse_mxc_uri(&uri(length)).expect("a content URI"),
            uri(length)
        );
    }
    let malformed = format!("mxc://{}_/media", "a".repeat(249));
    let err = parse_mxc_uri(&malformed).expect_err("the server name is malformed");
    assert_eq!(err.code, "invalid_mxc_uri");
    assert!(!err.message.contains("unsupported length"));
}

#[test]
fn timestamps_are_read_from_the_event() {
    let stamped = |stamp: Option<Value>| {
        let mut members = vec![
            ("type", text("m.room.message")),
            ("event_id", text("$e1:example.org")),
            ("sender", text("@alice:example.org")),
            (
                "content",
                object(&[("msgtype", text("m.text")), ("body", text("hi"))]),
            ),
        ];
        if let Some(stamp) = stamp {
            members.push(("origin_server_ts", stamp));
        }
        let ops =
            timeline_ops_for_sync_events(&[sync_event(&members)], false, &mut EventBodies::new());
        match &ops[..] {
            [TimelineOp::Append(item)] => item.timestamp_ms,
            other => panic!("unexpected ops: {other:?}"),
        }
    };
    assert_eq!(stamped(Some(Value::from(1_731_000_000_123_u64))), 1_731_000_000_123);
    assert_eq!(stamped(Some(text("soon"))), 0);
    assert_eq!(stamped(None), 0);
}

#[test]
fn rejects_invalid_media_content_type() {
    let err = parse_media_content_type("bad-content-type")
        .expect_err("invalid media content type must fail");
    assert_eq!(err.code, "invalid_media_content_type");
}

#[test]
fn valid_identifiers_are_kept_and_content_types_normalized() {
    assert_eq!(
        parse_room_id("!room:example.org").expect("a room id"),
        "!room:example.org"
    );
    assert_eq!(
        parse_event_id("$event:example.org").expect("an event id"),
        "$event:example.org"
    );
    assert_eq!(
        parse_user_id("@alice:example.org").expect("a user id"),
        "@alice:example.org"
    );
    assert_eq!(
        parse_mxc_uri("mxc://example.org/media").expect("a content URI"),
        "mxc://example.org/media"
    );
    assert_eq!(
        parse_media_content_type("IMAGE/PNG").expect("a content type"),
        "image/png"
    );
    assert!(parse_media_content_type("").is_err());
}

#[test]
fn sync_timeline_ops_append_events_in_order() {
    let first = make_sync_timeline_event("$e1:example.org", "@alice:example.org", "first", 1);
    let second = make_sync_timeline_event("$e2:example.org", "@bob:example.org", "second", 2);
    let mut known_event_bodies = EventBodies::new();
    let ops = timeline_ops_for_sync_events(&[first, second], false, &mut known_event_bodies);

    assert_eq!(ops.len(), 2);
    match &ops[0] {
        TimelineOp::Append(item) => {
            assert_eq!(item.event_id.as_deref(), Some("$e1:example.org"));
            assert_eq!(item.sender, "@alice:example.org");
            assert_eq!(item.body, "first");
            assert_eq!(item.timestamp_ms, 1);
        }
        other => panic!("unexpected op: {other:?}"),
    }
    match &ops[1] {
        TimelineOp::Append(item) => {
            assert_eq!(item.event_id.as_deref(), Some("$e2:example.org"));
            assert_eq!(item.sender, "@bob:example.org");
            assert_eq!(item.body, "second");
            assert_eq!(item.timestamp_ms, 2);
        }
        other => panic!("unexpected op: {other:?}"),
    }
}

#[test]
fn sync_timeline_ops_insert_clear_when_limited() {
    let event = make_sync_timeline_event("$e3:example.org", "@alice:example.org", "hello", 3);
    let mut known_event_bodies = EventBodies::new();
    let ops = timeline_ops_for_sync_events(&[event], true, &mut known_event_bodies);
    assert_eq!(ops.len(), 2);
    assert!(matches!(ops[0], TimelineOp::Clear));
    assert!(matches!(ops[1], TimelineOp::Append(_)));
}

#[test]
fn sync_timeline_ops_map_edit_events_to_update_body() {
    let edit = make_sync_edit_event(
        "$edit1:example.org",
        "@alice:example.org",
        "$target1:example.org",
        "edited body",
        4,
    );

    let mut known_event_bodies = EventBodies::new();
    let ops = timeline_ops_for_sync_events(&[edit], false, &mut known_event_bodies);
    assert_eq!(ops.len(), 1);
    match &ops[0] {
        TimelineOp::UpdateBody { event_id, new_body } => {
            assert_eq!(event_id, "$target1:example.org");
            assert_eq!(new_body, "edited body");
        }
        other => panic!("unexpected op: {other:?}"),
    }
}

#[test]
fn sync_timeline_ops_map_redaction_events_to_remove() {
    let redaction = make_sync_redaction_event(
        "$redact1:example.org",
        "@alice:example.org",
        "$target2:example.org",
        5,
    );

    let mut known_event_bodies = EventBodies::new();
    let ops = timeline_ops_for_sync_events(&[redaction], false, &mut known_event_bodies);
    assert_eq!(ops.len(), 1);
    match &ops[0] {
        TimelineOp::Remove { event_id } => {
            assert_eq!(event_id, "$target2:example.org");
        }
        other => panic!("unexpected op: {other:?}"),
    }
}

#[test]
fn sync_timeline_ops_ignore_non_message_state_events() {
    let membership = make_sync_state_event(
        "$member1:example.org",
        "@alice:example.org",
        "m.room.member",
        7,
    );
    let text = make_sync_timeline_event("$e4:example.org", "@bob:example.org", "hello", 8);

    let mut known_event_bodies = EventBodies::new();
    let ops = timeline_ops_for_sync_events(&[membership, text], false, &mut known_event_bodies);
    assert_eq!(ops.len(), 1);
    match &ops[0] {
        TimelineOp::Append(item) => {
            assert_eq!(item.event_id.as_deref(), Some("$e4:example.org"));
            assert_eq!(item.body, "hello");
        }
        other => panic!("unexpected op: {other:?}"),
    }
}

#[test]
fn sync_timeline_ops_ignore_non_text_message_types() {
    let image = make_sync_timeline_event_with_msgtype(
        "$img1:example.org",
        "@alice:example.org",
        "m.image",
        "screenshot.png",
        9,
    );
    let notice = make_sync_timeline_event_with_msgtype(
        "$notice1:example.org",
        "@alice:example.org",
        "m.notice",
        "Server maintenance in 10 minutes.",
        10,
    );

    let mut known_event_bodies = EventBodies::new();
    let ops = timeline_ops_for_sync_events(&[image, notice], false, &mut known_event_bodies);
    assert_eq!(ops.len(), 1);
    match &ops[0] {
        TimelineOp::Append(item) => {
            assert_eq!(item.event_id.as_deref(), Some("$notice1:example.org"));
            assert_eq!(item.body, "Server maintenance in 10 minutes.");
        }
        other => panic!("unexpected op: {other:?}"),
    }
}

#[test]
fn sync_timeline_ops_surface_encrypted_events_as_placeholder() {
    let encrypted = make_sync_encrypted_event("$enc1:example.org", "@alice:example.org", 11);
    let text = make_sync_timeline_event("$e5:example.org", "@bob:example.org", "hello", 12);

    let mut known_event_bodies = EventBodies::new();
    let ops = timeline_ops_for_sync_events(&[encrypted, text], false, &mut known_event_bodies);
    assert_eq!(ops.len(), 2);
    match &ops[0] {
        TimelineOp::Append(item) => {
            assert_eq!(item.event_id.as_deref(), Some("$enc1:example.org"));
            assert_eq!(item.body, ENCRYPTED_TIMELINE_PLACEHOLDER);
        }
        other => panic!("unexpected op: {other:?}"),
    }
}

#[test]
fn sync_timeline_ops_convert_placeholder_to_update_when_body_changes() {
    let event_id = "$enc2:example.org";
    let encrypted = make_sync_encrypted_event(event_id, "@alice:example.org", 11);
    let decrypted =
        make_sync_timeline_event(event_id, "@alice:example.org", "decrypted body", 11);

    let mut known_event_bodies = EventBodies::new();
    let first_ops = timeline_ops_for_sync_events(&[encrypted], false, &mut known_event_bodies);
    assert_eq!(first_ops.len(), 1);
    assert!(matches!(first_ops[0], TimelineOp::Append(_)));

    let second_ops = timeline_ops_for_sync_events(&[decrypted], false, &mut known_event_bodies);
    assert_eq!(second_ops.len(), 1);
    match &second_ops[0] {
        TimelineOp::UpdateBody { event_id, new_body } => {
            assert_eq!(event_id, "$enc2:example.org");
            assert_eq!(new_body, "decrypted body");
        }
        other => panic!("unexpected op: {other:?}"),
    }
}

#[test]
fn sync_timeline_ops_skip_duplicate_appends_for_same_event_body() {
    let event = make_sync_timeline_event("$dup1:example.org", "@alice:example.org", "hello", 1);
    let mut known_event_bodies = EventBodies::new();

    let first_ops = timeline_ops_for_sync_events(
        std::slice::from_ref(&event),
        false,
        &mut known_event_bodies,
    );
    assert_eq!(first_ops.len(), 1);
    assert!(matches!(first_ops[0], TimelineOp::Append(_)));

    let second_ops = timeline_ops_for_sync_events(&[event], false, &mut known_event_bodies);
    assert!(second_ops.is_empty());
}

#[test]
fn refresh_updates_only_known_event_bodies() {
    let mut known_event_bodies = known_body("$enc3:example.org", ENCRYPTED_TIMELINE_PLACEHOLDER.to_owned());
    let unknown = make_sync_timeline_event("$new:example.org", "@alice:example.org", "new", 1);
    let decrypted_known =
        make_sync_timeline_event("$enc3:example.org", "@alice:example.org", "decrypted", 2);

    let ops = timeline_update_ops_for_refresh_events(
        &[unknown, decrypted_known],
        &mut known_event_bodies,
    );
    assert_eq!(ops.len(), 1);
    match &ops[0] {
        TimelineOp::UpdateBody { event_id, new_body } => {
            assert_eq!(event_id, "$enc3:example.org");
            assert_eq!(new_body, "decrypted");
        }
        other => panic!("unexpected op: {other:?}"),
    }
    assert_eq!(
        known_event_bodies
            .get("$enc3:example.org")
            .map(String::as_str),
        Some("decrypted")
    );
    assert!(!known_event_bodies.contains_key("$new:example.org"));
}

#[test]
fn refresh_emits_remove_when_known_event_is_redacted() {
    let mut known_event_bodies =
        known_body("$target:example.org", "hello".to_owned());
    let redaction = make_sync_redaction_event(
        "$redact:example.org",
        "@alice:example.org",
        "$target:example.org",
        3,
    );

    let ops = timeline_update_ops_for_refresh_events(&[redaction], &mut known_event_bodies);
    assert_eq!(ops.len(), 1);
    match &ops[0] {
        TimelineOp::Remove { event_id } => {
            assert_eq!(event_id, "$target:example.org");
        }
        other => panic!("unexpected op: {other:?}"),
    }
    assert!(!known_event_bodies.contains_key("$target:example.org"));
}

#[test]
fn keyring_account_keys_are_stable() {
    assert_eq!(
        store_passphrase_account_for_homeserver("https://matrix.example.org"),
        "store-passphrase:https://matrix.example.org"
    );
    assert_eq!(
        session_account_for_homeserver("https://matrix.example.org"),
        "matrix-session:https://matrix.example.org"
    );
}

#[test]
fn store_passphrase_file_roundtrip_trims_trailing_whitespace() {
    let path = store_passphrase_file_path("/tmp/pikachat-passphrase-roundtrip");

    persist_store_passphrase_to_file(&path, FileWrite::Done)
        .expect("persist passphrase file should work");
    let loaded =
        load_store_passphrase_from_file(&path, FileRead::Text("passphrase-value\n".to_owned()))
            .expect("loading passphrase file should work");
    assert_eq!(loaded.as_deref(), Some("passphrase-value"));
}

#[test]
fn store_passphrase_file_missing_returns_none() {
    let path = store_passphrase_file_path("/tmp/pikachat-passphrase-missing");

    let loaded = load_store_passphrase_from_file(&path, FileRead::Missing)
        .expect("missing passphrase file should not fail");
    assert_eq!(loaded, None);
}

#[test]
fn store_passphrase_file_empty_returns_storage_error() {
    let path = store_passphrase_file_path("/tmp/pikachat-passphrase-empty");

    let err = load_store_passphrase_from_file(&path, FileRead::Text("\n".to_owned()))
        .expect_err("empty passphrase file must fail with storage error");
    assert_eq!(err.code, "store_passphrase_file_empty");
}

#[test]
fn device_id_hint_file_roundtrip_trims_trailing_whitespace() {
    let path = device_id_hint_file_path("/tmp/pikachat-device-id-hint-roundtrip");

    persist_device_id_hint_to_file(&path, FileWrite::Done)
        .expect("persist device-id hint file should work");
    let loaded = load_device_id_hint_from_file(&path, FileRead::Text("ABCDEVICE\n".to_owned()))
        .expect("loading device-id hint should work");
    assert_eq!(loaded.as_deref(), Some("ABCDEVICE"));
}

#[test]
fn device_id_hint_file_path_is_sibling_of_store_dir() {
    let data_dir = Path::new("/tmp/pikachat-device-id-hint-path");
    let hint = device_id_hint_file_path("/tmp/pikachat-device-id-hint-path");
    let path = Path::new(&hint);

    assert_eq!(path.parent(), data_dir.parent());
    assert_ne!(path, data_dir.join(".pikachat-device-id"));
    assert!(!path.starts_with(data_dir));
}

#[test]
fn device_id_hint_file_missing_returns_none() {
    let path = device_id_hint_file_path("/tmp/pikachat-device-id-hint-missing");
    let loaded = load_device_id_hint_from_file(&path, FileRead::Missing)
        .expect("missing device-id hint should not fail");
    assert_eq!(loaded, None);
}

#[test]
fn legacy_device_id_hint_file_path_stays_inside_store_dir() {
    let data_dir = Path::new("/tmp/pikachat-device-id-legacy-path");
    let path = legacy_device_id_hint_file_path("/tmp/pikachat-device-id-legacy-path");
    assert_eq!(Path::new(&path), data_dir.join(".pikachat-device-id"));
}

#[test]
fn runtime_tuning_defaults_when_init_config_is_absent() {
    let tuning = runtime_tuning_from_init_config(None).expect("defaults should apply");
    assert_eq!(tuning.sync_request_timeout_ms, None);
    assert_eq!(tuning.open_room_limit, DEFAULT_OPEN_ROOM_LIMIT);
    assert_eq!(tuning.pagination_limit_cap, DEFAULT_PAGINATION_LIMIT_CAP);
}

#[test]
fn runtime_tuning_rejects_zero_values() {
    let err = runtime_tuning_from_init_config(Some(BackendInitConfig {
        sync_request_timeout_ms: Some(0),
        default_open_room_limit: None,
        pagination_limit_cap: None,
    }))
    .expect_err("zero timeout must fail");
    assert_eq!(err.code, "invalid_init_config");

    let err = runtime_tuning_from_init_config(Some(BackendInitConfig {
        sync_request_timeout_ms: None,
        default_open_room_limit: Some(0),
        pagination_limit_cap: None,
    }))
    .expect_err("zero open-room limit must fail");
    assert_eq!(err.code, "invalid_init_config");

    let err = runtime_tuning_from_init_config(Some(BackendInitConfig {
        sync_request_timeout_ms: None,
        default_open_room_limit: None,
        pagination_limit_cap: Some(0),
    }))
    .expect_err("zero pagination cap must fail");
    assert_eq!(err.code, "invalid_init_config");
}

#[test]
fn retry_policy_defaults_are_sane_for_sync_loop() {
    let policy = RetryPolicy::default();
    assert_eq!(policy.base_delay_ms(), 500);
    assert_eq!(policy.max_delay_ms(), 30_000);
}

#[test]
fn recoverable_sync_error_categories_are_limited_to_network_and_rate_limit() {
    let network = BackendError::new(BackendErrorCategory::Network, "n", "network");
    let rate = BackendError::new(BackendErrorCategory::RateLimited, "r", "rate");
    let auth = BackendError::new(BackendErrorCategory::Auth, "a", "auth");

    assert!(is_recoverable_sync_error(&network));
    assert!(is_recoverable_sync_error(&rate));
    assert!(!is_recoverable_sync_error(&auth));
}

#[test]
fn sync_loop_retry_hint_uses_error_retry_after() {
    let err = BackendError::new(BackendErrorCategory::RateLimited, "rate", "wait")
        .with_retry_after(Duration::from_secs(7).as_millis());
    let policy = RetryPolicy::default();
    let delay = policy.delay_for_attempt(0, err.retry_after_ms);
    assert_eq!(Duration::from_millis(delay), Duration::from_secs(7));
}

#[test]
fn store_account_mismatch_message_detection_matches_known_patterns() {
    assert!(is_store_account_mismatch_message(
        "the account in the store doesn't match the account in the constructor"
    ));
    assert!(is_store_account_mismatch_message(
        "data dir belongs to a different account"
    ));
    assert!(!is_store_account_mismatch_message("already logged in"));
}

#[test]
fn store_account_mismatch_message_extracts_expected_device_id() {
    let message = "the account in the store doesn't match the account in the constructor: expected @testbot:matrix.pikipika.com:WFCAJIAVBR, got @testbot:matrix.pikipika.com:VJEMXYZVZZ";
    let parsed = expected_device_id_from_store_mismatch_message(message);
    assert_eq!(parsed.as_deref(), Some("WFCAJIAVBR"));
}

#[test]
fn store_account_mismatch_message_extract_returns_none_for_unexpected_shape() {
    let parsed = expected_device_id_from_store_mismatch_message("already logged in");
    assert_eq!(parsed, None);
}

#[test]
fn map_matrix_error_no_olm_machine_uses_specific_error_code() {
    let mapped = map_matrix_error(SdkFailure::NoOlmMachine {
        message: matrix_sdk::Error::NoOlmMachine.to_string(),
    });
    assert_eq!(mapped.category, BackendErrorCategory::Crypto);
    assert_eq!(mapped.code, "crypto_machine_unavailable");
}
