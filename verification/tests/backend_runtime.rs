//! The runtime: lifecycle, login, sync loop, rooms, persistence and the frontend adapter.
use pikachat::backend_core::error::{BackendError, BackendErrorCategory};
use pikachat::backend_core::types::{
    BackendCommand, BackendEvent, BackendInitConfig, BackendLifecycleState, InviteAction,
    KeyBackupState, MediaDownloadAck, MediaUploadAck, MessageType, RecoveryEnableAck, RecoveryRestoreAck, RecoveryState,
    RecoveryStatus, RoomMembership, RoomSummary, TimelineContent, TimelineItem, TimelineOp,
};
use pikachat::backend_matrix::adapter::MatrixFrontendAdapter;
use pikachat::backend_matrix::errors::{
    EditFailure, HttpFailure, RecoveryFailure, SdkFailure, map_client_build_error, map_edit_error,
    map_matrix_error, map_matrix_http_error, map_recovery_error, map_secret_store_error,
};
use pikachat::backend_matrix::events::SyncEvent;
use pikachat::backend_matrix::local_files::device_id_hint_file_path;
use pikachat::backend_matrix::login::{
    LoginFlow, LoginStep, login_timeout_error, preferred_login_device_id,
};
use pikachat::backend_matrix::persistence::{
    PassphraseSource, Removal, StoredSession, WipeStep, clear_persisted_session, first_wipe_step,
    generate_store_passphrase, load_session, next_wipe_step, passphrase_from_file,
    passphrase_from_secret_store, passphrase_set_answer, session_from, store_passphrase_from,
};
use pikachat::backend_matrix::rooms::{SdkRoom, SdkRoomState, collect_room_summaries};
use pikachat::backend_matrix::runtime::{
    MatrixRuntime, Request, check_recovery_not_set_up, command_kind, complete_download,
    complete_edit, complete_enable_recovery, complete_invite, complete_list_rooms,
    complete_recover_secrets, complete_recovery_status, complete_redact, complete_send,
    complete_upload, room_not_found,
};
use pikachat::backend_matrix::sync::{
    RoomUpdate, sync_response_has_room_key_events,
};
use pikachat::backend_matrix::sync_loop::{SyncLoop, SyncResponse, check_can_start, check_can_stop};
use pikachat::backend_platform::SecretStoreError;

fn init_command(config: Option<BackendInitConfig>) -> BackendCommand {
    BackendCommand::Init {
        homeserver: "https://matrix.example.org".to_owned(),
        data_dir: "./.unused-test-store".to_owned(),
        config,
    }
}

fn login_command() -> BackendCommand {
    BackendCommand::LoginPassword {
        user_id_or_localpart: "@mock:example.org".to_owned(),
        password: "password".to_owned(),
        persist_session: true,
    }
}

fn configured(config: Option<BackendInitConfig>) -> MatrixRuntime {
    let mut runtime = MatrixRuntime::new();
    let begin = runtime.begin(init_command(config));
    assert!(begin.events.is_empty());
    match begin.request {
        Some(Request::OpenBackend {
            homeserver,
            data_dir,
            tuning,
        }) => {
            let events = runtime.complete_init(homeserver, data_dir, tuning, Ok(()));
            assert_eq!(states(&events), vec![BackendLifecycleState::Configured]);
        }
        other => panic!("unexpected request: {other:?}"),
    }
    runtime
}

fn signed_in(config: Option<BackendInitConfig>) -> MatrixRuntime {
    let mut runtime = configured(config);
    let begin = runtime.begin(login_command());
    assert_eq!(
        states(&begin.events),
        vec![BackendLifecycleState::Authenticating]
    );
    assert!(matches!(begin.request, Some(Request::Login { .. })));
    let events = runtime.finish_auth(Ok(()));
    assert_eq!(auth_result(&events), Some((true, None)));
    runtime
}

fn signed_in_by_session(login_failure: BackendError) -> MatrixRuntime {
    let mut runtime = configured(None);
    let begin = runtime.begin(login_command());
    assert!(matches!(begin.request, Some(Request::Login { .. })));
    let mut flow = LoginFlow::new(None, false, true);
    let outcome = match flow.on_attempt(Err(login_failure), true) {
        LoginStep::Succeed => Ok(()),
        other => panic!("unexpected step: {other:?}"),
    };
    let events = runtime.finish_auth(outcome);
    assert_eq!(auth_result(&events), Some((true, None)));
    runtime
}

fn states(events: &[BackendEvent]) -> Vec<BackendLifecycleState> {
    events
        .iter()
        .filter_map(|event| match event {
            BackendEvent::StateChanged { state } => Some(*state),
            _ => None,
        })
        .collect()
}

fn auth_result(events: &[BackendEvent]) -> Option<(bool, Option<String>)> {
    events.iter().find_map(|event| match event {
        BackendEvent::AuthResult {
            success,
            error_code,
        } => Some((*success, error_code.clone())),
        _ => None,
    })
}

fn fatal(events: &[BackendEvent]) -> Option<(String, bool)> {
    events.iter().find_map(|event| match event {
        BackendEvent::FatalError {
            code, recoverable, ..
        } => Some((code.clone(), *recoverable)),
        _ => None,
    })
}

fn failure(category: BackendErrorCategory, code: &str, message: &str) -> BackendError {
    BackendError::new(category, code, message)
}

fn item(event_id: &str, body: &str) -> TimelineItem {
    TimelineItem {
        event_id: Some(event_id.to_owned()),
        sender: "@alice:example.org".to_owned(),
        body: body.to_owned(),
        content: TimelineContent::Text,
        timestamp_ms: 1,
    }
}

fn mock_room() -> RoomSummary {
    RoomSummary {
        room_id: "!room:example.org".to_owned(),
        name: Some("Mock Room".to_owned()),
        unread_notifications: 0,
        highlight_count: 0,
        is_direct: false,
        membership: RoomMembership::Joined,
    }
}

fn text_event(event_id: &str, body: &str) -> SyncEvent {
    SyncEvent {
        json: format!(
            "{{\"type\":\"m.room.message\",\"event_id\":\"{event_id}\",\
             \"sender\":\"@alice:example.org\",\"origin_server_ts\":1,\
             \"content\":{{\"msgtype\":\"m.text\",\"body\":\"{body}\"}}}}"
        ),
    }
}

fn no_session() -> Result<StoredSession, BackendError> {
    load_session("account", Err(SecretStoreError::NotFound))
}

#[test]
fn runtime_init_config_applies_sync_request_timeout_to_start_sync() {
    let mut runtime = signed_in(Some(BackendInitConfig {
        sync_request_timeout_ms: Some(12_345),
        default_open_room_limit: None,
        pagination_limit_cap: None,
    }));
    assert_eq!(
        runtime.begin(BackendCommand::StartSync).request,
        Some(Request::StartSync {
            request_timeout_ms: Some(12_345)
        })
    );
}

#[test]
fn runtime_init_config_applies_open_room_limit() {
    let mut runtime = signed_in(Some(BackendInitConfig {
        sync_request_timeout_ms: None,
        default_open_room_limit: Some(7),
        pagination_limit_cap: None,
    }));
    let begin = runtime.begin(BackendCommand::OpenRoom {
        room_id: "!room:example.org".to_owned(),
    });
    assert_eq!(
        begin.request,
        Some(Request::OpenRoom {
            room_id: "!room:example.org".to_owned(),
            limit: 7
        })
    );
}

#[test]
fn runtime_init_config_applies_pagination_limit_cap() {
    let mut runtime = signed_in(Some(BackendInitConfig {
        sync_request_timeout_ms: None,
        default_open_room_limit: None,
        pagination_limit_cap: Some(12),
    }));
    let begin = runtime.begin(BackendCommand::PaginateBack {
        room_id: "!room:example.org".to_owned(),
        limit: 200,
    });
    assert!(matches!(
        begin.request,
        Some(Request::PaginateBack { limit: 12, .. })
    ));
}

#[test]
fn runtime_emits_timeline_deltas_without_snapshots() {
    let mut runtime = signed_in(None);
    let events = runtime.complete_timeline(
        "!room:example.org".to_owned(),
        Ok((
            vec![TimelineOp::Append(item("$event:example.org", "hello"))],
            Some("token".to_owned()),
        )),
    );
    assert_eq!(events.len(), 1);
    assert!(matches!(
        &events[0],
        BackendEvent::RoomTimelineDelta { room_id, .. } if room_id == "!room:example.org"
    ));

    let begin = runtime.begin(BackendCommand::PaginateBack {
        room_id: "!room:example.org".to_owned(),
        limit: 5,
    });
    assert_eq!(
        begin.request,
        Some(Request::PaginateBack {
            room_id: "!room:example.org".to_owned(),
            from_token: Some("token".to_owned()),
            limit: 5
        })
    );
}

#[test]
fn runtime_emits_fatal_error_for_invalid_transition() {
    let begin = MatrixRuntime::new().begin(BackendCommand::StartSync);
    assert!(begin.request.is_none());
    assert_eq!(
        fatal(&begin.events).map(|(code, _)| code).as_deref(),
        Some("invalid_state_transition")
    );
}

#[test]
fn runtime_send_dm_outside_authenticated_context_emits_send_ack_failure() {
    let begin = MatrixRuntime::new().begin(BackendCommand::SendDmText {
        user_id: "@alice:example.org".to_owned(),
        client_txn_id: "tx-dm-1".to_owned(),
        body: "hello".to_owned(),
    });
    match &begin.events[0] {
        BackendEvent::SendAck(ack) => {
            assert_eq!(ack.client_txn_id, "tx-dm-1");
            assert_eq!(ack.event_id, None);
            assert_eq!(ack.error_code.as_deref(), Some("invalid_state_transition"));
        }
        other => panic!("unexpected event: {other:?}"),
    }
}

#[test]
fn runtime_upload_media_outside_authenticated_context_emits_upload_ack_failure() {
    let begin = MatrixRuntime::new().begin(BackendCommand::UploadMedia {
        client_txn_id: "tx-upload-1".to_owned(),
        content_type: "text/plain".to_owned(),
        data: b"hello".to_vec(),
    });
    match &begin.events[0] {
        BackendEvent::MediaUploadAck(ack) => {
            assert_eq!(ack.client_txn_id, "tx-upload-1");
            assert_eq!(ack.content_uri, None);
            assert_eq!(ack.error_code.as_deref(), Some("invalid_state_transition"));
        }
        other => panic!("unexpected event: {other:?}"),
    }
}

#[test]
fn runtime_download_media_outside_authenticated_context_emits_download_ack_failure() {
    let begin = MatrixRuntime::new().begin(BackendCommand::DownloadMedia {
        client_txn_id: "tx-download-1".to_owned(),
        source: "mxc://example.org/file".to_owned(),
    });
    match &begin.events[0] {
        BackendEvent::MediaDownloadAck(ack) => {
            assert_eq!(ack.client_txn_id, "tx-download-1");
            assert_eq!(ack.source, "mxc://example.org/file");
            assert_eq!(ack.data, None);
            assert_eq!(ack.error_code.as_deref(), Some("invalid_state_transition"));
        }
        other => panic!("unexpected event: {other:?}"),
    }
}

#[test]
fn runtime_enable_recovery_outside_authenticated_context_emits_ack_failure() {
    let begin = MatrixRuntime::new().begin(BackendCommand::EnableRecovery {
        client_txn_id: "tx-enable-outside-auth".to_owned(),
        passphrase: None,
        wait_for_backups_to_upload: false,
    });
    match &begin.events[0] {
        BackendEvent::RecoveryEnableAck(ack) => {
            assert_eq!(ack.client_txn_id, "tx-enable-outside-auth");
            assert_eq!(ack.recovery_key, None);
            assert_eq!(ack.error_code.as_deref(), Some("invalid_state_transition"));
        }
        other => panic!("unexpected event: {other:?}"),
    }
}

#[test]
fn runtime_upload_and_download_media_happy_path_is_deterministic() {
    let mut runtime = signed_in(None);
    let upload = runtime.begin(BackendCommand::UploadMedia {
        client_txn_id: "tx-upload-ok".to_owned(),
        content_type: "application/octet-stream".to_owned(),
        data: b"binary-payload".to_vec(),
    });
    assert_eq!(
        upload.request,
        Some(Request::UploadMedia {
            client_txn_id: "tx-upload-ok".to_owned(),
            content_type: "application/octet-stream".to_owned(),
            data: b"binary-payload".to_vec(),
        })
    );
    let uploaded = complete_upload(
        "tx-upload-ok".to_owned(),
        Ok("mxc://example.org/uploaded".to_owned()),
    );
    assert_eq!(
        uploaded,
        vec![BackendEvent::MediaUploadAck(MediaUploadAck {
            client_txn_id: "tx-upload-ok".to_owned(),
            content_uri: Some("mxc://example.org/uploaded".to_owned()),
            error_code: None,
        })]
    );

    let download = runtime.begin(BackendCommand::DownloadMedia {
        client_txn_id: "tx-download-ok".to_owned(),
        source: "mxc://example.org/uploaded".to_owned(),
    });
    assert_eq!(
        download.request,
        Some(Request::DownloadMedia {
            client_txn_id: "tx-download-ok".to_owned(),
            source: "mxc://example.org/uploaded".to_owned(),
        })
    );
    let downloaded = complete_download(
        "tx-download-ok".to_owned(),
        "mxc://example.org/uploaded".to_owned(),
        Ok(b"binary-payload".to_vec()),
    );
    assert_eq!(
        downloaded,
        vec![BackendEvent::MediaDownloadAck(MediaDownloadAck {
            client_txn_id: "tx-download-ok".to_owned(),
            source: "mxc://example.org/uploaded".to_owned(),
            data: Some(b"binary-payload".to_vec()),
            content_type: None,
            error_code: None,
        })]
    );
}

#[test]
fn runtime_upload_media_failure_emits_upload_ack_error_code() {
    let begin = signed_in(None).begin(BackendCommand::UploadMedia {
        client_txn_id: "tx-upload-fail".to_owned(),
        content_type: "application/octet-stream".to_owned(),
        data: b"payload".to_vec(),
    });
    assert!(matches!(begin.request, Some(Request::UploadMedia { .. })));
    let events = complete_upload(
        "tx-upload-fail".to_owned(),
        Err(failure(
            BackendErrorCategory::Network,
            "media_upload_failed",
            "upload failed",
        )),
    );
    assert_eq!(
        events,
        vec![BackendEvent::MediaUploadAck(MediaUploadAck {
            client_txn_id: "tx-upload-fail".to_owned(),
            content_uri: None,
            error_code: Some("media_upload_failed".to_owned()),
        })]
    );
}

#[test]
fn runtime_download_media_failure_emits_download_ack_error_code() {
    let begin = signed_in(None).begin(BackendCommand::DownloadMedia {
        client_txn_id: "tx-download-fail".to_owned(),
        source: "mxc://example.org/uploaded".to_owned(),
    });
    assert!(matches!(begin.request, Some(Request::DownloadMedia { .. })));
    let events = complete_download(
        "tx-download-fail".to_owned(),
        "mxc://example.org/uploaded".to_owned(),
        Err(failure(
            BackendErrorCategory::Network,
            "media_download_failed",
            "boom",
        )),
    );
    assert_eq!(
        events,
        vec![BackendEvent::MediaDownloadAck(MediaDownloadAck {
            client_txn_id: "tx-download-fail".to_owned(),
            source: "mxc://example.org/uploaded".to_owned(),
            data: None,
            content_type: None,
            error_code: Some("media_download_failed".to_owned()),
        })]
    );
}

fn enabled_status() -> RecoveryStatus {
    RecoveryStatus {
        backup_state: KeyBackupState::Enabled,
        backup_enabled: true,
        backup_exists_on_server: true,
        recovery_state: RecoveryState::Enabled,
    }
}

#[test]
fn runtime_get_recovery_status_and_enable_flow_emit_expected_events() {
    let mut runtime = signed_in(None);
    assert_eq!(
        runtime.begin(BackendCommand::GetRecoveryStatus).request,
        Some(Request::GetRecoveryStatus)
    );
    assert_eq!(
        complete_recovery_status(Ok(enabled_status())),
        vec![BackendEvent::RecoveryStatus(enabled_status())]
    );

    let begin = runtime.begin(BackendCommand::EnableRecovery {
        client_txn_id: "tx-enable".to_owned(),
        passphrase: Some("opensesame".to_owned()),
        wait_for_backups_to_upload: true,
    });
    assert_eq!(
        begin.request,
        Some(Request::EnableRecovery {
            client_txn_id: "tx-enable".to_owned(),
            passphrase: Some("opensesame".to_owned()),
            wait_for_backups_to_upload: true,
        })
    );
    let events = complete_enable_recovery(
        "tx-enable".to_owned(),
        Ok("word1 word2 word3".to_owned()),
        Some(enabled_status()),
    );
    assert_eq!(
        events,
        vec![
            BackendEvent::RecoveryEnableAck(RecoveryEnableAck {
                client_txn_id: "tx-enable".to_owned(),
                recovery_key: Some("word1 word2 word3".to_owned()),
                error_code: None,
            }),
            BackendEvent::RecoveryStatus(enabled_status()),
        ]
    );
}

#[test]
fn runtime_reset_recovery_flow_emits_new_recovery_key_ack() {
    let mut runtime = signed_in(None);
    let begin = runtime.begin(BackendCommand::ResetRecovery {
        client_txn_id: "tx-reset".to_owned(),
        passphrase: Some("new-passphrase".to_owned()),
        wait_for_backups_to_upload: true,
    });
    assert_eq!(
        begin.request,
        Some(Request::ResetRecovery {
            client_txn_id: "tx-reset".to_owned(),
            passphrase: Some("new-passphrase".to_owned()),
            wait_for_backups_to_upload: true,
        })
    );
    let events = complete_enable_recovery(
        "tx-reset".to_owned(),
        Ok("new reset key".to_owned()),
        Some(enabled_status()),
    );
    assert_eq!(
        events[0],
        BackendEvent::RecoveryEnableAck(RecoveryEnableAck {
            client_txn_id: "tx-reset".to_owned(),
            recovery_key: Some("new reset key".to_owned()),
            error_code: None,
        })
    );
    assert_eq!(events[1], BackendEvent::RecoveryStatus(enabled_status()));
}

#[test]
fn runtime_recover_secrets_failure_emits_ack_error_code() {
    let mut runtime = signed_in(None);
    let begin = runtime.begin(BackendCommand::RecoverSecrets {
        client_txn_id: "tx-recover".to_owned(),
        recovery_key: "wrong secret".to_owned(),
    });
    assert_eq!(
        begin.request,
        Some(Request::RecoverSecrets {
            client_txn_id: "tx-recover".to_owned(),
            recovery_key: "wrong secret".to_owned(),
        })
    );
    let events = complete_recover_secrets(
        "tx-recover".to_owned(),
        Err(failure(
            BackendErrorCategory::Crypto,
            "secret_storage_error",
            "bad key",
        )),
        None,
    );
    assert_eq!(
        events,
        vec![BackendEvent::RecoveryRestoreAck(RecoveryRestoreAck {
            client_txn_id: "tx-recover".to_owned(),
            error_code: Some("secret_storage_error".to_owned()),
        })]
    );
}

#[test]
fn runtime_happy_path_login_list_and_send_message_is_deterministic() {
    let mut runtime = signed_in(None);
    assert_eq!(
        runtime.begin(BackendCommand::ListRooms).request,
        Some(Request::ListRooms)
    );
    match &complete_list_rooms(vec![mock_room()])[0] {
        BackendEvent::RoomListUpdated { rooms } => {
            assert_eq!(rooms.len(), 1);
            assert_eq!(rooms[0].room_id, "!room:example.org");
        }
        other => panic!("unexpected event: {other:?}"),
    }
    let begin = runtime.begin(BackendCommand::SendMessage {
        room_id: "!room:example.org".to_owned(),
        client_txn_id: "txn-1".to_owned(),
        body: "hello from test".to_owned(),
        msgtype: MessageType::Text,
    });
    assert!(matches!(begin.request, Some(Request::SendMessage { .. })));
    match &complete_send("txn-1", Ok("$mock-event:example.org".to_owned()))[0] {
        BackendEvent::SendAck(ack) => {
            assert_eq!(ack.client_txn_id, "txn-1");
            assert_eq!(ack.event_id.as_deref(), Some("$mock-event:example.org"));
            assert_eq!(ack.error_code, None);
        }
        other => panic!("unexpected event: {other:?}"),
    }
}

#[test]
fn runtime_login_uses_device_id_hint_when_present() {
    let preferred =
        preferred_login_device_id(no_session(), Ok(Some("HINTDEVICE".to_owned())), Ok(None));
    assert_eq!(preferred.device_id.as_deref(), Some("HINTDEVICE"));
    assert!(!preferred.migrate);
    let flow = LoginFlow::new(preferred.device_id, true, true);
    assert!(matches!(
        flow.first_step(),
        LoginStep::Attempt { device_id } if device_id.as_deref() == Some("HINTDEVICE")
    ));
}

#[test]
fn runtime_login_uses_legacy_device_id_hint_and_migrates_it() {
    let preferred =
        preferred_login_device_id(no_session(), Ok(None), Ok(Some("LEGACYDEVICE".to_owned())));
    assert_eq!(preferred.device_id.as_deref(), Some("LEGACYDEVICE"));
    assert!(preferred.migrate);
    let of_session = preferred_login_device_id(
        session_from("{}".to_owned(), Ok("SESSIONDEVICE".to_owned())),
        Ok(Some("HINTDEVICE".to_owned())),
        Ok(None),
    );
    assert_eq!(of_session.device_id.as_deref(), Some("SESSIONDEVICE"));
}

#[test]
fn runtime_login_failure_emits_auth_result_error_code() {
    let mut flow = LoginFlow::new(None, false, true);
    let bad = failure(
        BackendErrorCategory::Auth,
        "auth_invalid_credentials",
        "bad credentials",
    );
    let outcome = match flow.on_attempt(Err(bad), false) {
        LoginStep::Fail { failure } => Err(failure),
        other => panic!("unexpected step: {other:?}"),
    };
    let mut runtime = configured(None);
    let _ = runtime.begin(login_command());
    let events = runtime.finish_auth(outcome);
    assert_eq!(
        auth_result(&events),
        Some((false, Some("auth_invalid_credentials".to_owned())))
    );
    assert_eq!(runtime.state(), BackendLifecycleState::Configured);
}

#[test]
fn runtime_login_failure_with_existing_session_falls_back_to_auth_success() {
    let known = failure(
        BackendErrorCategory::Internal,
        "matrix_error",
        "already logged in",
    );
    let mut runtime = signed_in_by_session(known);
    assert_eq!(
        runtime.begin(BackendCommand::ListRooms).request,
        Some(Request::ListRooms)
    );
    assert!(matches!(
        &complete_list_rooms(vec![])[..],
        [BackendEvent::RoomListUpdated { rooms }] if rooms.is_empty()
    ));
}

#[test]
fn runtime_login_timeout_emits_auth_timeout_code() {
    let mut flow = LoginFlow::new(None, false, true);
    let late = login_timeout_error(100);
    assert_eq!(late.message, "password login timed out after 100 ms");
    match flow.on_attempt(Err(late), false) {
        LoginStep::Fail { failure } => assert_eq!(failure.code, "auth_login_timeout"),
        other => panic!("unexpected step: {other:?}"),
    }
}

#[test]
fn runtime_login_timeout_with_existing_session_falls_back_to_auth_success() {
    let runtime = signed_in_by_session(login_timeout_error(100));
    assert_eq!(runtime.state(), BackendLifecycleState::Authenticated);
}

#[test]
fn runtime_login_failure_with_store_mismatch_does_not_fallback() {
    let mismatch = || {
        failure(
            BackendErrorCategory::Internal,
            "matrix_error",
            "the account in the store doesn't match the account in the constructor",
        )
    };
    let mut foreign_store = LoginFlow::new(None, false, true);
    match foreign_store.on_attempt(Err(mismatch()), true) {
        LoginStep::Fail { failure } => assert_eq!(failure.code, "matrix_error"),
        other => panic!("unexpected step: {other:?}"),
    }

    let mut own_store = LoginFlow::new(None, true, true);
    assert!(matches!(
        own_store.on_attempt(Err(mismatch()), true),
        LoginStep::ResetStore { device_id: None }
    ));
    assert!(matches!(
        own_store.on_store_reset(Ok(())),
        LoginStep::Attempt { device_id: None }
    ));
    assert!(matches!(
        own_store.on_attempt(Err(mismatch()), true),
        LoginStep::Fail { .. }
    ));
}

#[test]
fn limited_logins_are_tried_again_after_a_delay() {
    let mut flow = LoginFlow::new(None, true, true);
    let limited = || {
        failure(BackendErrorCategory::RateLimited, "limit", "slow down").with_retry_after(9_000)
    };
    let mut waits = 0;
    loop {
        match flow.on_attempt(Err(limited()), true) {
            LoginStep::WaitAndAttempt { delay_ms, .. } => {
                assert_eq!(delay_ms, 9_000);
                waits += 1;
            }
            LoginStep::Fail { failure } => {
                assert_eq!(failure.code, "limit");
                break;
            }
            LoginStep::Succeed => break,
            other => panic!("unexpected step: {other:?}"),
        }
    }
    assert!(waits >= 1);
    assert!(matches!(
        LoginFlow::new(None, true, true).on_attempt(Ok(()), true),
        LoginStep::PersistSession
    ));
    assert!(matches!(
        LoginFlow::new(None, true, true).on_persisted(Ok(())),
        LoginStep::Succeed
    ));
}

#[test]
fn logins_keep_or_forget_the_session_as_asked() {
    let mut keeping = LoginFlow::new(None, true, true);
    assert!(matches!(
        keeping.on_attempt(Ok(()), true),
        LoginStep::PersistSession
    ));
    let mut forgetting = LoginFlow::new(None, true, false);
    assert!(matches!(
        forgetting.on_attempt(Ok(()), true),
        LoginStep::ForgetSession
    ));
    assert!(matches!(
        forgetting.on_persisted(Ok(())),
        LoginStep::Succeed
    ));
    let lost = failure(BackendErrorCategory::Storage, "storage_error", "lost");
    match keeping.on_persisted(Err(lost)) {
        LoginStep::Fail { failure } => assert_eq!(failure.code, "storage_error"),
        other => panic!("unexpected step: {other:?}"),
    }
}

#[test]
fn persisted_sessions_are_read() {
    let raw = "{\"user_id\":\"@alice:example.org\",\"device_id\":\"DEVICE\",\
               \"access_token\":\"token\"}";
    let session = load_session("account", Ok(raw.to_owned())).expect("a session");
    assert_eq!(session.device_id, "DEVICE");
    assert_eq!(session.raw, raw);

    let malformed = load_session("account", Ok("{}".to_owned())).expect_err("no session");
    assert_eq!(malformed.category, BackendErrorCategory::Serialization);
    assert_eq!(malformed.code, "session_deserialize_error");

    assert_eq!(no_session().expect_err("no session").code, "session_not_found");
    assert_eq!(
        load_session("account", Err(SecretStoreError::Unavailable("x".to_owned())))
            .expect_err("no secret store")
            .code,
        "secret_store_unavailable"
    );

    let read = session_from("raw".to_owned(), Ok("DEVICE".to_owned())).expect("a session");
    assert_eq!((read.raw.as_str(), read.device_id.as_str()), ("raw", "DEVICE"));
    let unread = session_from("raw".to_owned(), Err("no".to_owned())).expect_err("no session");
    assert_eq!(unread.message, "no");
}

#[test]
fn runtime_send_message_failure_emits_send_ack_error_code() {
    let begin = signed_in(None).begin(BackendCommand::SendMessage {
        room_id: "!room:example.org".to_owned(),
        client_txn_id: "txn-failure".to_owned(),
        body: "hello".to_owned(),
        msgtype: MessageType::Text,
    });
    assert!(matches!(begin.request, Some(Request::SendMessage { .. })));
    let events = complete_send(
        "txn-failure",
        Err(failure(
            BackendErrorCategory::Network,
            "send_network_failure",
            "network outage",
        )),
    );
    match &events[0] {
        BackendEvent::SendAck(ack) => {
            assert_eq!(ack.client_txn_id, "txn-failure");
            assert_eq!(ack.event_id, None);
            assert_eq!(ack.error_code.as_deref(), Some("send_network_failure"));
        }
        other => panic!("unexpected event: {other:?}"),
    }
}

#[test]
fn runtime_accept_room_invite_success_emits_ack_and_refreshes_room_list() {
    let mut runtime = signed_in(None);
    let begin = runtime.begin(BackendCommand::AcceptRoomInvite {
        room_id: "!room:example.org".to_owned(),
        client_txn_id: "invite-txn-1".to_owned(),
    });
    assert_eq!(
        begin.request,
        Some(Request::AnswerInvite {
            room_id: "!room:example.org".to_owned(),
            client_txn_id: "invite-txn-1".to_owned(),
            action: InviteAction::Accept
        })
    );
    let events = complete_invite(
        "!room:example.org".to_owned(),
        "invite-txn-1".to_owned(),
        InviteAction::Accept,
        Ok(vec![mock_room()]),
    );
    assert_eq!(events.len(), 2);
    match &events[0] {
        BackendEvent::InviteActionAck(ack) => {
            assert_eq!(ack.client_txn_id, "invite-txn-1");
            assert_eq!(ack.room_id, "!room:example.org");
            assert_eq!(ack.action, InviteAction::Accept);
            assert_eq!(ack.error_code, None);
        }
        other => panic!("unexpected event: {other:?}"),
    }
    assert!(matches!(
        &events[1],
        BackendEvent::RoomListUpdated { rooms } if rooms.len() == 1
    ));
}

#[test]
fn runtime_reject_room_invite_failure_emits_ack_without_fatal_error() {
    let begin = signed_in(None).begin(BackendCommand::RejectRoomInvite {
        room_id: "!room:example.org".to_owned(),
        client_txn_id: "invite-txn-2".to_owned(),
    });
    assert!(begin.events.is_empty());
    assert_eq!(
        begin.request,
        Some(Request::AnswerInvite {
            room_id: "!room:example.org".to_owned(),
            client_txn_id: "invite-txn-2".to_owned(),
            action: InviteAction::Reject
        })
    );
    let events = complete_invite(
        "!room:example.org".to_owned(),
        "invite-txn-2".to_owned(),
        InviteAction::Reject,
        Err(failure(
            BackendErrorCategory::Network,
            "invite_reject_failed",
            "temporary network issue",
        )),
    );
    assert_eq!(fatal(&events), None);
    assert_eq!(events.len(), 1);
    match &events[0] {
        BackendEvent::InviteActionAck(ack) => {
            assert_eq!(ack.client_txn_id, "invite-txn-2");
            assert_eq!(ack.room_id, "!room:example.org");
            assert_eq!(ack.action, InviteAction::Reject);
            assert_eq!(ack.error_code.as_deref(), Some("invite_reject_failed"));
        }
        other => panic!("unexpected event: {other:?}"),
    }
}

#[test]
fn runtime_invite_action_invalid_state_emits_ack_without_fatal_error() {
    let begin = configured(None).begin(BackendCommand::AcceptRoomInvite {
        room_id: "!room:example.org".to_owned(),
        client_txn_id: "invite-txn-3".to_owned(),
    });
    assert!(begin.request.is_none());
    assert_eq!(begin.events.len(), 1);
    match &begin.events[0] {
        BackendEvent::InviteActionAck(ack) => {
            assert_eq!(ack.client_txn_id, "invite-txn-3");
            assert_eq!(ack.action, InviteAction::Accept);
            assert_eq!(ack.error_code.as_deref(), Some("invalid_state_transition"));
        }
        other => panic!("unexpected event: {other:?}"),
    }
}

#[test]
fn runtime_restore_session_without_persisted_session_reports_auth_error() {
    let mut runtime = configured(None);
    let begin = runtime.begin(BackendCommand::RestoreSession);
    assert_eq!(begin.request, Some(Request::RestoreSession));
    let outcome = match load_session("account", Err(SecretStoreError::NotFound)) {
        Ok(_) => panic!("there is no session"),
        Err(failure) => Err(failure),
    };
    assert_eq!(
        auth_result(&runtime.finish_auth(outcome)),
        Some((false, Some("session_not_found".to_owned())))
    );
}

#[test]
fn runtime_logout_still_transitions_when_remote_logout_fails() {
    let mut runtime = configured(None);
    let begin = runtime.begin(BackendCommand::Logout);
    assert_eq!(begin.request, Some(Request::Logout { stop_sync: false }));
    let outage = failure(
        BackendErrorCategory::Network,
        "logout_network_error",
        "network outage",
    );
    let events = runtime.complete_logout(Err(outage), Ok(()));
    assert_eq!(states(&events), vec![BackendLifecycleState::LoggedOut]);
    assert_eq!(fatal(&events), None);
    assert!(runtime.require_backend().is_err());
}

#[test]
fn runtime_start_and_stop_sync_happy_path_transitions_state() {
    let mut runtime = signed_in(None);
    assert!(matches!(
        runtime.begin(BackendCommand::StartSync).request,
        Some(Request::StartSync { .. })
    ));
    assert_eq!(
        states(&runtime.complete_start_sync(Ok(()))),
        vec![BackendLifecycleState::Syncing]
    );
    assert_eq!(
        runtime.begin(BackendCommand::StopSync).request,
        Some(Request::StopSync)
    );
    assert_eq!(
        states(&runtime.complete_stop_sync(Ok(()))),
        vec![BackendLifecycleState::Authenticated]
    );
}

#[test]
fn runtime_start_sync_network_failure_emits_recoverable_fatal_error() {
    let mut runtime = signed_in(None);
    assert!(matches!(
        runtime.begin(BackendCommand::StartSync).request,
        Some(Request::StartSync { .. })
    ));
    let events = runtime.complete_start_sync(Err(failure(
        BackendErrorCategory::Network,
        "sync_start_network_error",
        "temporary network issue",
    )));
    assert_eq!(
        fatal(&events),
        Some(("sync_start_network_error".to_owned(), true))
    );
    assert_eq!(runtime.state(), BackendLifecycleState::Authenticated);
}

#[test]
fn runtime_start_sync_auth_failure_emits_nonrecoverable_fatal_error() {
    let mut runtime = signed_in(None);
    assert!(matches!(
        runtime.begin(BackendCommand::StartSync).request,
        Some(Request::StartSync { .. })
    ));
    let events = runtime.complete_start_sync(Err(failure(
        BackendErrorCategory::Auth,
        "sync_start_auth_error",
        "unauthorized",
    )));
    assert_eq!(
        fatal(&events),
        Some(("sync_start_auth_error".to_owned(), false))
    );
}

#[test]
fn frontend_adapter_supports_queue_cancellation_and_flush() {
    let mut adapter = MatrixFrontendAdapter::new();
    let _init_id = adapter.enqueue(init_command(None));
    let _login_id = adapter.enqueue(login_command());
    let list_id = adapter.enqueue(BackendCommand::ListRooms);
    let send_id = adapter.enqueue(BackendCommand::SendMessage {
        room_id: "!room:example.org".to_owned(),
        client_txn_id: "txn-adapter".to_owned(),
        body: "hello".to_owned(),
        msgtype: MessageType::Text,
    });
    assert_eq!(adapter.queued_len(), 4);
    assert!(adapter.cancel(list_id));
    assert_eq!(adapter.queued_len(), 3);
    assert!(!adapter.cancel(list_id));
    let mut other_adapter = MatrixFrontendAdapter::new();
    let unknown_id = loop {
        let id = other_adapter.enqueue(BackendCommand::ListRooms);
        if id.value() == 999_999 {
            break id;
        }
        assert!(other_adapter.cancel(id));
    };
    assert!(!adapter.cancel(unknown_id));

    let mut flushed = Vec::new();
    while let Some(next) = adapter.take_next() {
        flushed.push(command_kind(&next.command));
    }
    assert_eq!(flushed, vec!["Init", "LoginPassword", "SendMessage"]);
    assert_eq!(adapter.queued_len(), 0);
    assert!(!adapter.cancel(send_id));
}

#[test]
fn command_that_could_not_be_sent_goes_back_to_the_front() {
    let mut adapter = MatrixFrontendAdapter::new();
    let first = adapter.enqueue(BackendCommand::ListRooms);
    let second = adapter.enqueue(BackendCommand::Logout);
    assert_ne!(first.value(), second.value());
    let taken = adapter.take_next().expect("a command should be queued");
    adapter.put_back(taken);
    let again = adapter.take_next().expect("the command should be back");
    assert_eq!(again.id, first);
}

#[test]
fn frontend_adapter_forwards_runtime_events() {
    let mut adapter = MatrixFrontendAdapter::new();
    let begin = MatrixRuntime::new().begin(BackendCommand::StartSync);
    for event in begin.events {
        let relayed = adapter.relay(event);
        assert_eq!(
            fatal(&relayed).map(|(code, _)| code).as_deref(),
            Some("invalid_state_transition")
        );
    }
}

#[test]
fn frontend_adapter_tracks_timeline_snapshots_from_deltas() {
    let room_id = "!room:example.org";
    let target_event_id = "$target:example.org";
    let mut runtime = signed_in(None);
    let mut adapter = MatrixFrontendAdapter::with_config(32);
    let mut bodies = Vec::new();
    let opened = runtime.complete_timeline(
        room_id.to_owned(),
        Ok((
            vec![TimelineOp::Append(item(target_event_id, "first body"))],
            None,
        )),
    );
    let edited = complete_edit(
        room_id.to_owned(),
        target_event_id.to_owned(),
        "edited body".to_owned(),
        "edit-txn",
        Ok("$edit:example.org".to_owned()),
    );
    let redacted = complete_redact(room_id.to_owned(), target_event_id.to_owned(), Ok(()));
    for event in opened.into_iter().chain(edited).chain(redacted) {
        for relayed in adapter.relay(event) {
            if let BackendEvent::RoomTimelineSnapshot { room_id: of, items } = relayed {
                assert_eq!(of, room_id);
                bodies.push(items.into_iter().map(|item| item.body).collect::<Vec<_>>());
            }
        }
    }
    assert_eq!(
        bodies,
        vec![
            vec!["first body".to_owned()],
            vec!["edited body".to_owned()],
            vec![]
        ]
    );
    assert!(adapter.timeline_snapshot(room_id).is_empty());
    assert_eq!(adapter.timeline_max_items(), 32);
}

#[test]
fn snapshots_pass_over_events_that_are_missing() {
    let mut adapter = MatrixFrontendAdapter::with_config(32);
    let events = adapter.relay(BackendEvent::RoomTimelineDelta {
        room_id: "!room:example.org".to_owned(),
        ops: vec![
            TimelineOp::Append(item("$target:example.org", "first body")),
            TimelineOp::UpdateBody {
                event_id: "$missing:example.org".to_owned(),
                new_body: "lost".to_owned(),
            },
            TimelineOp::UpdateBody {
                event_id: "$target:example.org".to_owned(),
                new_body: "edited body".to_owned(),
            },
            TimelineOp::Remove {
                event_id: "$missing:example.org".to_owned(),
            },
        ],
    });
    assert_eq!(events.len(), 2);
    let snapshot = adapter.timeline_snapshot("!room:example.org");
    assert_eq!(snapshot.len(), 1);
    assert_eq!(snapshot[0].body, "edited body");
    assert!(adapter.timeline_snapshot("!other:example.org").is_empty());
}

#[test]
fn frontend_adapter_truncates_snapshot_to_timeline_max_items() {
    let ops: Vec<TimelineOp> = (1..=5)
        .map(|idx| {
            TimelineOp::Append(item(
                &format!("$event-{idx}:example.org"),
                &format!("body {idx}"),
            ))
        })
        .collect();
    let mut adapter = MatrixFrontendAdapter::with_config(2);
    let opened = signed_in(None).complete_timeline("!room:example.org".to_owned(), Ok((ops, None)));
    let mut relayed = Vec::new();
    for event in opened {
        relayed.extend(adapter.relay(event));
    }
    match &relayed[1] {
        BackendEvent::RoomTimelineSnapshot { room_id, items } => {
            assert_eq!(room_id, "!room:example.org");
            assert_eq!(items.len(), 2);
            assert_eq!(items[0].event_id.as_deref(), Some("$event-4:example.org"));
            assert_eq!(items[1].event_id.as_deref(), Some("$event-5:example.org"));
        }
        other => panic!("unexpected snapshot event: {other:?}"),
    }
    let snapshot = adapter.timeline_snapshot("!room:example.org");
    assert_eq!(snapshot.len(), 2);
    assert_eq!(snapshot[0].event_id.as_deref(), Some("$event-4:example.org"));
    assert_eq!(snapshot[1].event_id.as_deref(), Some("$event-5:example.org"));
}

#[test]
fn sync_loop_reports_deltas_and_then_the_rooms() {
    let (mut sync, started) = SyncLoop::start();
    assert!(matches!(
        started,
        BackendEvent::SyncStatus(status) if status.running && status.lag_hint_ms.is_none()
    ));
    let response = SyncResponse {
        updates: vec![RoomUpdate {
            room_id: "!room:example.org".to_owned(),
            limited: false,
            events: vec![text_event("$1:example.org", "hello")],
        }],
        rooms: vec![],
        to_device: vec!["{\"type\":\"m.room_key\"}".to_owned()],
    };
    let turn = sync.on_response(&response);
    assert_eq!(turn.events.len(), 2);
    assert!(matches!(
        &turn.events[0],
        BackendEvent::RoomTimelineDelta { .. }
    ));
    assert!(matches!(
        &turn.events[1],
        BackendEvent::RoomListUpdated { .. }
    ));
    assert_eq!(turn.refresh, vec!["!room:example.org".to_owned()]);

    let again = sync.on_response(&response);
    assert_eq!(again.events.len(), 1);

    let refreshed = sync.on_room_refreshed(
        "!room:example.org",
        &[text_event("$1:example.org", "hello again")],
    );
    assert!(matches!(
        refreshed,
        Some(BackendEvent::RoomTimelineDelta { .. })
    ));
    assert!(sync.on_room_refreshed("!other:example.org", &[]).is_none());
    assert!(matches!(
        sync.on_settled(),
        BackendEvent::SyncStatus(status) if status.running && status.lag_hint_ms.is_none()
    ));
    assert!(matches!(
        sync.stop(),
        BackendEvent::SyncStatus(status) if !status.running && status.lag_hint_ms.is_none()
    ));
}

#[test]
fn sync_loop_backs_off_until_a_response_comes() {
    let (mut sync, _) = SyncLoop::start();
    let outage = || failure(BackendErrorCategory::Network, "net", "outage");
    assert_eq!(sync.on_error(outage()).retry_after_ms, Some(500));
    assert_eq!(sync.on_error(outage()).retry_after_ms, Some(1_000));
    let _ = sync.on_response(&SyncResponse {
        updates: vec![],
        rooms: vec![],
        to_device: vec![],
    });
    assert_eq!(sync.on_error(outage()).retry_after_ms, Some(500));
    let ended = sync.on_error(failure(BackendErrorCategory::Auth, "auth", "gone"));
    assert_eq!(ended.retry_after_ms, None);
    assert_eq!(fatal(&ended.events), Some(("auth".to_owned(), false)));
    assert!(check_can_start(false).is_ok());
    assert!(check_can_start(true).is_err());
    assert!(check_can_stop(true).is_ok());
    assert!(check_can_stop(false).is_err());
}

#[test]
fn room_key_events_are_recognized() {
    let event = |kind: &str| vec![format!("{{\"type\":\"{kind}\"}}")];
    assert!(sync_response_has_room_key_events(&event("m.room_key")));
    assert!(sync_response_has_room_key_events(&event(
        "m.forwarded_room_key"
    )));
    assert!(!sync_response_has_room_key_events(&event("m.dummy")));
    assert!(!sync_response_has_room_key_events(&[]));
}

#[test]
fn rooms_are_listed_by_their_ids() {
    let room = |room_id: &str, state: SdkRoomState| SdkRoom {
        room_id: room_id.to_owned(),
        name: None,
        notification_count: 1,
        highlight_count: 0,
        direct_targets: 1,
        state,
    };
    let summaries = collect_room_summaries(&[
        room("!b:example.org", SdkRoomState::Joined),
        room("!a:example.org", SdkRoomState::Invited),
    ]);
    let ids: Vec<&str> = summaries.iter().map(|room| room.room_id.as_str()).collect();
    assert!(ids.contains(&"!a:example.org") && ids.contains(&"!b:example.org"));
    assert!(summaries.iter().all(|room| room.is_direct));
    assert!(
        summaries
            .iter()
            .any(|room| room.membership == RoomMembership::Invited)
    );
}

#[test]
fn passphrases_come_from_file_store_or_chance() {
    assert!(matches!(
        passphrase_from_file(Ok(Some("p".to_owned()))),
        Ok(Some(PassphraseSource::File(p))) if p == "p"
    ));
    assert!(matches!(passphrase_from_file(Ok(None)), Ok(None)));
    assert!(matches!(
        passphrase_from_secret_store("account", Ok("s".to_owned())),
        Ok(PassphraseSource::SecretStore(s)) if s == "s"
    ));
    assert!(matches!(
        passphrase_from_secret_store("account", Err(SecretStoreError::NotFound)),
        Ok(PassphraseSource::Generated)
    ));
    for (refused, code) in [
        (
            SecretStoreError::Unavailable("x".to_owned()),
            "secret_store_unavailable",
        ),
        (
            SecretStoreError::Backend("x".to_owned()),
            "secret_store_error",
        ),
    ] {
        match passphrase_from_secret_store("account", Err(refused)) {
            Ok(_) => panic!("a secret store that fails gives no passphrase"),
            Err(failure) => assert_eq!(failure.code, code),
        }
    }
    assert!(passphrase_set_answer("account", Ok(())).is_ok());
    let unkept = passphrase_set_answer(
        "account",
        Err(SecretStoreError::Unavailable("x".to_owned())),
    )
    .expect_err("a passphrase that was not kept must fail");
    assert_eq!(unkept.code, "secret_store_unavailable");
    assert_eq!(
        unkept.message,
        "secret store unavailable during set_store_passphrase: x"
    );
    let first = generate_store_passphrase();
    let second = generate_store_passphrase();
    assert_ne!(first, second);
    let uuid = &first[store_passphrase_from("").len()..];
    assert_eq!(uuid.len(), 36);
    for (at, c) in uuid.chars().enumerate() {
        match at {
            8 | 13 | 18 | 23 => assert_eq!(c, '-'),
            14 => assert_eq!(c, '4'),
            19 => assert!("89ab".contains(c)),
            _ => assert!(c.is_ascii_digit() || ('a'..='f').contains(&c)),
        }
    }
}

#[test]
fn wipe_goes_through_everything() {
    let homeserver = "https://matrix.example.org";
    let data_dir = "/tmp/pika";
    let mut step = first_wipe_step(homeserver);
    let mut seen = Vec::new();
    while step != WipeStep::Done {
        let next = next_wipe_step(&step, Removal::Missing, homeserver, data_dir)
            .expect("nothing to remove is fine");
        seen.push(step);
        step = next;
    }
    assert_eq!(seen.len(), 5);
    assert_eq!(
        seen[2],
        WipeStep::DeviceIdHint {
            path: device_id_hint_file_path(data_dir)
        }
    );
    assert_eq!(
        seen[4],
        WipeStep::DataDir {
            path: data_dir.to_owned()
        }
    );
    let failed = next_wipe_step(
        &seen[4],
        Removal::FileFailed("denied".to_owned()),
        homeserver,
        data_dir,
    );
    assert!(failed.is_err());
    assert!(clear_persisted_session("a", Err(SecretStoreError::NotFound)).is_ok());
    assert!(clear_persisted_session("a", Err(SecretStoreError::Backend("x".to_owned()))).is_err());
}

#[test]
fn failures_map_to_stable_codes() {
    let limited = map_matrix_http_error(HttpFailure::Api {
        status: 429,
        message: "slow".to_owned(),
        retry_after_ms: Some(2_000),
    });
    assert_eq!(limited.category, BackendErrorCategory::RateLimited);
    assert_eq!(limited.code, "matrix_http_error");
    assert_eq!(limited.retry_after_ms, Some(2_000));
    let transport = map_matrix_http_error(HttpFailure::Transport {
        message: "refused".to_owned(),
    });
    assert_eq!(transport.category, BackendErrorCategory::Network);
    for refused in [
        EditFailure::StateEvent {
            message: "m".to_owned(),
        },
        EditFailure::NotAuthor {
            message: "m".to_owned(),
        },
        EditFailure::IncompatibleEditType {
            message: "m".to_owned(),
        },
    ] {
        assert_eq!(map_edit_error(refused).code, "edit_invalid");
    }
    assert_eq!(
        map_edit_error(EditFailure::Deserialize {
            message: "m".to_owned()
        })
        .code,
        "edit_deserialize_error"
    );
    assert_eq!(
        map_edit_error(EditFailure::Fetch {
            message: "m".to_owned()
        })
        .code,
        "edit_fetch_error"
    );
    assert_eq!(
        map_recovery_error(RecoveryFailure::BackupExistsOnServer).code,
        "recovery_backup_exists"
    );
    assert_eq!(
        map_recovery_error(RecoveryFailure::SecretStorage {
            message: "m".to_owned()
        })
        .code,
        "secret_storage_error"
    );
    let message = || "m".to_owned();
    for (sdk, code, text) in [
        (
            SdkFailure::AuthenticationRequired { message: message() },
            "auth_required",
            "m",
        ),
        (
            SdkFailure::NoOlmMachine { message: message() },
            "crypto_machine_unavailable",
            "m. Local crypto state is unavailable; reset the data dir for this account.",
        ),
        (
            SdkFailure::BadCryptoStoreState { message: message() },
            "crypto_store_state_error",
            "m. Local crypto store state is invalid for the current session.",
        ),
        (
            SdkFailure::CryptoStore { message: message() },
            "storage_error",
            "m",
        ),
        (
            SdkFailure::StateStore { message: message() },
            "storage_error",
            "m",
        ),
        (
            SdkFailure::EventCacheStore { message: message() },
            "storage_error",
            "m",
        ),
        (
            SdkFailure::MediaStore { message: message() },
            "storage_error",
            "m",
        ),
        (
            SdkFailure::Io { message: message() },
            "storage_error",
            "m",
        ),
        (
            SdkFailure::CrossProcessLock { message: message() },
            "storage_error",
            "m",
        ),
        (
            SdkFailure::CryptoStore {
                message: "it belongs to a different account".to_owned(),
            },
            "crypto_store_account_mismatch",
            "it belongs to a different account. The configured data dir appears to belong to a \
             different Matrix account.",
        ),
        (
            SdkFailure::SerdeJson { message: message() },
            "serde_json_error",
            "m",
        ),
        (SdkFailure::Other { message: message() }, "matrix_error", "m"),
    ] {
        let mapped = map_matrix_error(sdk);
        assert_eq!(mapped.code, code);
        assert_eq!(mapped.message, text);
    }
    assert_eq!(map_client_build_error("no").code, "client_build_error");
    for (secret, code, text) in [
        (
            SecretStoreError::NotFound,
            "secret_not_found",
            "secret missing for 'account' during get",
        ),
        (
            SecretStoreError::Unavailable("x".to_owned()),
            "secret_store_unavailable",
            "secret store unavailable during get: x",
        ),
        (
            SecretStoreError::Backend("x".to_owned()),
            "secret_store_error",
            "secret store backend error during get: x",
        ),
    ] {
        let mapped = map_secret_store_error("get", "account", secret);
        assert_eq!(mapped.code, code);
        assert_eq!(mapped.message, text);
    }
    assert_eq!(
        room_not_found("!r:example.org").message,
        "room not found: !r:example.org"
    );
    assert!(check_recovery_not_set_up(&enabled_status()).is_err());
}
