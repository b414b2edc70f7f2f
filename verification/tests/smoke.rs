//! The smoke harness.
use pikachat::backend_core::types::{
    BackendCommand, BackendEvent, BackendInitConfig, BackendLifecycleState, KeyBackupState,
    MediaDownloadAck, MediaUploadAck, RecoveryEnableAck, RecoveryRestoreAck, RecoveryState,
    RecoveryStatus, SendAck, TimelineContent, TimelineItem, TimelineOp,
};
use pikachat::smoke::answers::{
    TaskAnswer, flush_message, recovery_status_line, round_trip_line, task_answer,
    timeout_message,
};
use pikachat::smoke::plan::{SmokeTask, download_uri, smoke_tasks, task_command, task_txn_id};
use pikachat::smoke::settings::{EnvValue, SmokeSettings, env_truthy, init_config_from_env};
use pikachat::smoke::stats::SyncObserveStats;
use pikachat::text_map::TextMap;

fn vars(pairs: &[(&str, &str)]) -> TextMap<EnvValue> {
    let mut map = TextMap::new();
    for (key, value) in pairs {
        map.insert((*key).to_owned(), EnvValue::Text((*value).to_owned()));
    }
    map
}

fn settings(pairs: &[(&str, &str)]) -> SmokeSettings {
    SmokeSettings::from_vars(&vars(pairs)).expect("settings should be read")
}

fn answer(task: SmokeTask, event: BackendEvent) -> Option<Result<TaskAnswer, String>> {
    task_answer(task, "txn-1", event)
}

#[test]
fn settings_have_defaults() {
    let read = settings(&[]);
    assert_eq!(read.homeserver, "https://matrix.example.org");
    assert_eq!(read.data_dir, "./.pikachat-smoke-store");
    assert_eq!(read.init_config, None);
    assert!(!read.restore_session);
    assert_eq!(read.observe_secs, 8);
    assert_eq!(read.dm_body, "PikaChat backend smoke test");
    assert_eq!(read.media_content_type, "application/octet-stream");
    assert_eq!(read.dm_target, None);
}

#[test]
fn settings_follow_the_variables() {
    let read = settings(&[
        ("PIKACHAT_USER", "alice"),
        ("PIKACHAT_SYNC_OBSERVE_SECS", "20"),
        ("PIKACHAT_OPEN_ROOM_LIMIT", "7"),
        ("PIKACHAT_START_SYNC", "yes"),
        ("PIKACHAT_SYNC_VERBOSE", "no"),
    ]);
    assert_eq!(read.user.as_deref(), Some("alice"));
    assert_eq!(read.observe_secs, 20);
    assert_eq!(
        read.init_config,
        Some(BackendInitConfig {
            sync_request_timeout_ms: None,
            default_open_room_limit: Some(7),
            pagination_limit_cap: None,
        })
    );
    assert!(read.start_sync);
    assert!(!read.sync_verbose);
    assert_eq!(settings(&[("PIKACHAT_SYNC_OBSERVE_SECS", "soon")]).observe_secs, 8);
}

#[test]
fn only_a_few_texts_say_yes() {
    for value in ["1", "true", "TRUE", "yes", "on"] {
        assert!(env_truthy(&vars(&[("FLAG", value)]), "FLAG"));
    }
    for value in ["", "0", "True", "YES", "off", "11"] {
        assert!(!env_truthy(&vars(&[("FLAG", value)]), "FLAG"));
    }
    assert!(!env_truthy(&vars(&[]), "FLAG"));
}

#[test]
fn tuning_variables_are_checked() {
    assert_eq!(init_config_from_env(&vars(&[])), Ok(None));
    assert_eq!(
        init_config_from_env(&vars(&[("PIKACHAT_OPEN_ROOM_LIMIT", "70000")])),
        Err(
            "invalid PIKACHAT_OPEN_ROOM_LIMIT='70000': number too large to fit in target type"
                .to_owned()
        )
    );
    let mut broken = TextMap::new();
    broken.insert(
        "PIKACHAT_SYNC_REQUEST_TIMEOUT_MS".to_owned(),
        EnvValue::NotUnicode,
    );
    assert_eq!(
        init_config_from_env(&broken),
        Err("PIKACHAT_SYNC_REQUEST_TIMEOUT_MS contains non-unicode data".to_owned())
    );
}

#[test]
fn without_an_account_the_usage_is_shown() {
    assert_eq!(
        smoke_tasks(&settings(&[
            ("PIKACHAT_USER", "alice"),
            ("PIKACHAT_START_SYNC", "1")
        ])),
        vec![SmokeTask::Init, SmokeTask::ShowUsage]
    );
}

#[test]
fn tasks_come_in_their_order() {
    assert_eq!(
        smoke_tasks(&settings(&[("PIKACHAT_RESTORE_SESSION", "1")])),
        vec![
            SmokeTask::Init,
            SmokeTask::RestoreSession,
            SmokeTask::ListRooms
        ]
    );
    assert_eq!(
        smoke_tasks(&settings(&[
            ("PIKACHAT_USER", "alice"),
            ("PIKACHAT_PASSWORD", "secret"),
            ("PIKACHAT_GET_RECOVERY_STATUS", "1"),
            ("PIKACHAT_ENABLE_RECOVERY", "1"),
            ("PIKACHAT_RESET_RECOVERY", "1"),
            ("PIKACHAT_RECOVERY_KEY", "key"),
            ("PIKACHAT_START_SYNC", "1"),
            ("PIKACHAT_DM_TARGET", "@bob:example.org"),
            ("PIKACHAT_MEDIA_UPLOAD_FILE", "cat.png"),
        ])),
        vec![
            SmokeTask::Init,
            SmokeTask::Login,
            SmokeTask::GetRecoveryStatus,
            SmokeTask::EnableRecovery,
            SmokeTask::ResetRecovery,
            SmokeTask::RecoverSecrets,
            SmokeTask::ListRooms,
            SmokeTask::StartSync,
            SmokeTask::ObserveSync,
            SmokeTask::StopSync,
            SmokeTask::SendDm,
            SmokeTask::UploadMedia,
            SmokeTask::DownloadMedia,
        ]
    );
}

#[test]
fn tasks_send_their_commands() {
    let asked = settings(&[
        ("PIKACHAT_USER", "alice"),
        ("PIKACHAT_PASSWORD", "secret"),
        ("PIKACHAT_DM_TARGET", "@bob:example.org"),
        ("PIKACHAT_DM_BODY", "hi"),
        ("PIKACHAT_MEDIA_UPLOAD_FILE", "cat.png"),
    ]);
    let txn_id = task_txn_id(SmokeTask::SendDm, "42");
    assert_eq!(txn_id, "smoke-dm-42");
    match task_command(&asked, SmokeTask::SendDm, &txn_id, &vec![], None) {
        Some(BackendCommand::SendDmText {
            user_id,
            client_txn_id,
            body,
        }) => {
            assert_eq!(user_id, "@bob:example.org");
            assert_eq!(client_txn_id, "smoke-dm-42");
            assert_eq!(body, "hi");
        }
        other => panic!("unexpected command: {other:?}"),
    }
    match task_command(&asked, SmokeTask::Login, "", &vec![], None) {
        Some(BackendCommand::LoginPassword {
            user_id_or_localpart,
            password,
            persist_session,
        }) => {
            assert_eq!(user_id_or_localpart, "alice");
            assert_eq!(password, "secret");
            assert!(persist_session);
        }
        other => panic!("unexpected command: {other:?}"),
    }
    match task_command(&asked, SmokeTask::UploadMedia, "t", &vec![1, 2], None) {
        Some(BackendCommand::UploadMedia { data, .. }) => assert_eq!(data, vec![1, 2]),
        other => panic!("unexpected command: {other:?}"),
    }
    assert!(task_command(&asked, SmokeTask::DownloadMedia, "t", &vec![], None).is_none());
    assert!(task_command(&asked, SmokeTask::ObserveSync, "t", &vec![], None).is_none());
    assert_eq!(
        download_uri(&asked, Some("mxc://example.org/up")).as_deref(),
        Some("mxc://example.org/up")
    );
    let explicit = settings(&[("PIKACHAT_MEDIA_DOWNLOAD_MXC", "mxc://example.org/other")]);
    assert_eq!(
        download_uri(&explicit, Some("mxc://example.org/up")).as_deref(),
        Some("mxc://example.org/other")
    );
}

#[test]
fn answers_are_those_to_the_task() {
    let configured = BackendEvent::StateChanged {
        state: BackendLifecycleState::Configured,
    };
    assert_eq!(
        answer(SmokeTask::Init, configured.clone()),
        Some(Ok(TaskAnswer::Plain))
    );
    assert_eq!(answer(SmokeTask::StartSync, configured), None);
    assert_eq!(
        answer(
            SmokeTask::Login,
            BackendEvent::AuthResult {
                success: false,
                error_code: None
            }
        ),
        Some(Err("auth failed with error code: unknown".to_owned()))
    );
    assert_eq!(
        answer(
            SmokeTask::ListRooms,
            BackendEvent::RoomListUpdated { rooms: vec![] }
        ),
        Some(Ok(TaskAnswer::Rooms(0)))
    );
    assert_eq!(
        answer(
            SmokeTask::ObserveSync,
            BackendEvent::FatalError {
                code: "sync".to_owned(),
                message: "gone".to_owned(),
                recoverable: false
            }
        ),
        Some(Err("fatal backend error (sync): gone".to_owned()))
    );
    assert_eq!(
        answer(
            SmokeTask::RecoverSecrets,
            BackendEvent::RecoveryRestoreAck(RecoveryRestoreAck {
                client_txn_id: "txn-1".to_owned(),
                error_code: Some("bad_key".to_owned())
            })
        ),
        Some(Err(
            "recovery restore failed with error code: bad_key".to_owned()
        ))
    );
    assert_eq!(
        answer(
            SmokeTask::ResetRecovery,
            BackendEvent::RecoveryEnableAck(RecoveryEnableAck {
                client_txn_id: "txn-1".to_owned(),
                recovery_key: Some("words".to_owned()),
                error_code: None
            })
        ),
        Some(Ok(TaskAnswer::Text("words".to_owned())))
    );
}

#[test]
fn acknowledgements_need_the_transaction_of_the_task() {
    let ack = |client_txn_id: &str, event_id: Option<&str>| {
        BackendEvent::SendAck(SendAck {
            client_txn_id: client_txn_id.to_owned(),
            event_id: event_id.map(|id| id.to_owned()),
            error_code: None,
        })
    };
    assert_eq!(
        answer(SmokeTask::SendDm, ack("txn-1", Some("$1"))),
        Some(Ok(TaskAnswer::Text("$1".to_owned())))
    );
    assert_eq!(answer(SmokeTask::SendDm, ack("txn-2", Some("$1"))), None);
    assert_eq!(
        answer(SmokeTask::SendDm, ack("txn-1", None)),
        Some(Err("send failed with error code: unknown".to_owned()))
    );
    assert_eq!(
        answer(
            SmokeTask::UploadMedia,
            BackendEvent::MediaUploadAck(MediaUploadAck {
                client_txn_id: "txn-1".to_owned(),
                content_uri: None,
                error_code: Some("too_large".to_owned())
            })
        ),
        Some(Err(
            "media upload failed with error code: too_large".to_owned()
        ))
    );
    assert_eq!(
        answer(
            SmokeTask::DownloadMedia,
            BackendEvent::MediaDownloadAck(MediaDownloadAck {
                client_txn_id: "txn-1".to_owned(),
                source: "mxc://example.org/a".to_owned(),
                data: Some(vec![9]),
                content_type: None,
                error_code: None
            })
        ),
        Some(Ok(TaskAnswer::Bytes(vec![9])))
    );
}

#[test]
fn messages_tell_what_went_wrong() {
    assert_eq!(
        timeout_message(SmokeTask::StopSync),
        "timed out waiting for authenticated after stop sync"
    );
    assert_eq!(
        flush_message("Init", 3, "command channel is closed"),
        "failed to flush Init (id=3): command channel is closed"
    );
    assert_eq!(
        recovery_status_line(&RecoveryStatus {
            backup_state: KeyBackupState::Enabled,
            backup_enabled: true,
            backup_exists_on_server: false,
            recovery_state: RecoveryState::Incomplete,
        }),
        "Recovery status: backup_state=Enabled, backup_enabled=true, \
         backup_exists_on_server=false, recovery_state=Incomplete"
    );
    assert_eq!(
        round_trip_line("mxc://a", &[1, 2], "mxc://a", &[1, 2]),
        Some("Media roundtrip verified: upload and download bytes match.")
    );
    assert_eq!(
        round_trip_line("mxc://a", &[1, 2], "mxc://a", &[1]),
        Some("Media roundtrip mismatch: uploaded and downloaded bytes differ.")
    );
    assert_eq!(round_trip_line("mxc://a", &[1], "mxc://b", &[1]), None);
}

#[test]
fn sync_is_counted() {
    let item = || TimelineItem {
        event_id: Some("$1".to_owned()),
        sender: "@alice:example.org".to_owned(),
        body: "hi".to_owned(),
        content: TimelineContent::Text,
        timestamp_ms: 1,
    };
    let delta = |room_id: &str| BackendEvent::RoomTimelineDelta {
        room_id: room_id.to_owned(),
        ops: vec![
            TimelineOp::Clear,
            TimelineOp::Append(item()),
            TimelineOp::Append(item()),
            TimelineOp::Prepend(item()),
            TimelineOp::UpdateBody {
                event_id: "$1".to_owned(),
                new_body: "hello".to_owned(),
            },
            TimelineOp::Remove {
                event_id: "$1".to_owned(),
            },
        ],
    };
    let mut stats = SyncObserveStats::default();
    assert!(stats.can_record(&delta("!a")));
    assert_eq!(stats.record(&delta("!a"), None), Ok(()));
    assert_eq!(stats.record(&delta("!b"), Some("!a")), Ok(()));
    assert_eq!(
        stats.record(&BackendEvent::RoomListUpdated { rooms: vec![] }, Some("!a")),
        Ok(())
    );
    assert_eq!(
        stats.line(8),
        "Observed sync for 8s: room_list_updates=1, timeline_deltas=1, append_ops=2, \
         update_ops=1, remove_ops=1, clear_ops=1"
    );
    assert_eq!(
        stats.record(
            &BackendEvent::FatalError {
                code: "sync".to_owned(),
                message: "gone".to_owned(),
                recoverable: true
            },
            None
        ),
        Err("fatal backend error (sync): gone".to_owned())
    );
    let full = SyncObserveStats {
        append_ops: usize::MAX,
        ..stats
    };
    assert!(!full.can_record(&delta("!a")));
}
