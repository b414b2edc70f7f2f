//! Bridge between the user's actions, the backend's events and the desktop state.
use pikachat::backend_core::types::{
    BackendCommand, BackendEvent, BackendInitConfig, MessageType, RecoveryEnableAck,
    RecoveryRestoreAck, RoomMembership, RoomSummary,
};
use pikachat::backend_matrix::local_files::{FileRead, FileWrite};
use pikachat::desktop::auth_profile::{
    FileRemoval, ProfileStep, clear_auth_profile, load_auth_profile, profile_error,
    save_auth_profile,
};
use pikachat::desktop::bridge::{
    AuthFlow, AuthReaction, DesktopBridge, SessionConfig, badge_text, event_kind,
    login_password_command, paginate_back_command, post_auth_command_sequence, room_open_command,
    send_message_command, startup_command_sequence,
};

fn sample_config() -> SessionConfig {
    SessionConfig {
        homeserver: "https://matrix.example.org".to_owned(),
        user_id: "@alice:example.org".to_owned(),
        password: "secret".to_owned(),
        remember_password: true,
        data_dir: "/tmp/pika".to_owned(),
        init_config: Some(BackendInitConfig {
            sync_request_timeout_ms: Some(10_000),
            default_open_room_limit: Some(40),
            pagination_limit_cap: Some(80),
        }),
        timeline_max_items: 500,
        paginate_limit: 30,
        pagination_cooldown_ms: 500,
    }
}

fn room(room_id: &str) -> RoomSummary {
    RoomSummary {
        room_id: room_id.to_owned(),
        name: Some("Room".to_owned()),
        unread_notifications: 0,
        highlight_count: 0,
        is_direct: false,
        membership: RoomMembership::Joined,
    }
}

fn auth_result(success: bool) -> BackendEvent {
    BackendEvent::AuthResult {
        success,
        error_code: None,
    }
}

#[test]
fn startup_sequence_is_ordered() {
    let sequence = startup_command_sequence(&sample_config());
    assert_eq!(sequence.len(), 2);
    assert!(matches!(sequence[0], BackendCommand::Init { .. }));
    assert!(matches!(sequence[1], BackendCommand::RestoreSession));
}

#[test]
fn post_auth_sequence_starts_sync_then_lists_rooms() {
    let sequence = post_auth_command_sequence();
    assert!(matches!(sequence[0], BackendCommand::StartSync));
    assert!(matches!(sequence[1], BackendCommand::ListRooms));
}

#[test]
fn login_password_command_uses_config_credentials() {
    let command = login_password_command(&sample_config());
    assert!(matches!(
        command,
        BackendCommand::LoginPassword {
            user_id_or_localpart,
            password,
            ..
        } if user_id_or_localpart == "@alice:example.org" && password == "secret"
    ));
}

#[test]
fn command_builders_use_expected_payloads() {
    let open = room_open_command("!room:example.org".to_owned());
    assert!(matches!(
        open,
        BackendCommand::OpenRoom { room_id } if room_id == "!room:example.org"
    ));

    let send = send_message_command(
        "!room:example.org".to_owned(),
        "txn-1".to_owned(),
        "hello".to_owned(),
    );
    assert!(matches!(
        send,
        BackendCommand::SendMessage {
            room_id,
            client_txn_id,
            body,
            msgtype: MessageType::Text,
        } if room_id == "!room:example.org" && client_txn_id == "txn-1" && body == "hello"
    ));

    let paginate = paginate_back_command("!room:example.org".to_owned(), 0);
    assert!(matches!(
        paginate,
        BackendCommand::PaginateBack { room_id, limit } if room_id == "!room:example.org" && limit == 1
    ));
}

#[test]
fn failed_restore_falls_back_to_one_password_login() {
    let (mut bridge, started) = DesktopBridge::start(sample_config());
    assert!(started.snapshot.is_some());
    assert_eq!(started.commands.len(), 2);

    let turn = bridge.on_event(auth_result(false));
    assert_eq!(turn.commands.len(), 1);
    assert!(matches!(
        turn.commands[0],
        BackendCommand::LoginPassword {
            persist_session: true,
            ..
        }
    ));
    assert!(bridge.on_event(auth_result(false)).commands.is_empty());
    assert!(bridge.on_event(auth_result(false)).commands.is_empty());
}

#[test]
fn success_starts_sync_once_and_ends_the_login() {
    let mut flow = AuthFlow::new();
    assert_eq!(flow.on_result(false), AuthReaction::Login);
    assert_eq!(flow.on_result(true), AuthReaction::PostAuth);
    assert_eq!(flow.on_result(true), AuthReaction::Nothing);
    assert_eq!(flow.on_result(false), AuthReaction::Nothing);
}

#[test]
fn messages_need_a_room_and_a_body() {
    let (mut bridge, _) = DesktopBridge::start(sample_config());
    let empty = bridge.send_message(" \n ");
    assert!(empty.commands.is_empty());
    assert!(empty.snapshot.is_none());

    let nowhere = bridge.send_message("hello");
    assert!(nowhere.commands.is_empty());
    assert_eq!(
        nowhere
            .snapshot
            .expect("the error should be shown")
            .error_text
            .as_deref(),
        Some("Select a room before sending messages.")
    );
}

#[test]
fn messages_are_trimmed_and_numbered() {
    let (mut bridge, _) = DesktopBridge::start(sample_config());
    let _ = bridge.on_event(BackendEvent::RoomListUpdated {
        rooms: vec![room("!r1:example.org")],
    });

    let selected = bridge.select_room_by_index(0);
    assert!(matches!(
        &selected.commands[0],
        BackendCommand::OpenRoom { room_id } if room_id == "!r1:example.org"
    ));
    for (number, body) in [(1, " hello "), (2, "again")] {
        let turn = bridge.send_message(body);
        assert_eq!(turn.commands.len(), 1);
        match &turn.commands[0] {
            BackendCommand::SendMessage {
                room_id,
                client_txn_id,
                body: sent,
                ..
            } => {
                assert_eq!(room_id, "!r1:example.org");
                assert_eq!(client_txn_id, &format!("desktop-send-{number}"));
                assert_eq!(sent, body.trim());
            }
            other => panic!("unexpected command: {other:?}"),
        }
    }
}

#[test]
fn rooms_are_selected_only_by_their_index() {
    let (mut bridge, _) = DesktopBridge::start(sample_config());
    let negative = bridge.select_room_by_index(-1);
    assert!(negative.snapshot.is_none());
    assert!(negative.commands.is_empty());

    let beyond = bridge.select_room_by_index(3);
    assert!(beyond.snapshot.is_some());
    assert!(beyond.commands.is_empty());
}

#[test]
fn scrolling_asks_for_one_page_at_a_time() {
    let (mut bridge, _) = DesktopBridge::start(sample_config());
    let _ = bridge.on_event(BackendEvent::RoomListUpdated {
        rooms: vec![room("!r1:example.org")],
    });
    let _ = bridge.select_room_by_index(0);

    assert!(bridge.on_timeline_scrolled(false, 1_000).commands.is_empty());
    let asked = bridge.on_timeline_scrolled(true, 1_000);
    assert!(matches!(
        asked.commands[0],
        BackendCommand::PaginateBack { limit: 30, .. }
    ));
    assert!(bridge.on_timeline_scrolled(true, 9_000).commands.is_empty());
}

#[test]
fn closed_command_channel_is_shown() {
    let (mut bridge, _) = DesktopBridge::start(sample_config());
    let turn = bridge.on_command_channel_closed();
    assert_eq!(
        turn.snapshot
            .expect("the error should be shown")
            .error_text
            .as_deref(),
        Some("Backend command channel closed.")
    );
}

#[test]
fn events_and_badges_have_texts() {
    assert_eq!(event_kind(&auth_result(true)), "AuthResult");
    assert_eq!(
        event_kind(&BackendEvent::RoomListUpdated { rooms: vec![] }),
        "RoomListUpdated"
    );
    assert_eq!(badge_text(0), "");
    assert_eq!(badge_text(12), "12");
}

#[test]
fn profile_files_are_read_and_described() {
    assert_eq!(
        load_auth_profile("p.json", FileRead::Text("{}".to_owned())),
        Ok(Some("{}".to_owned()))
    );
    assert_eq!(load_auth_profile("p.json", FileRead::Missing), Ok(None));
    assert_eq!(
        load_auth_profile("p.json", FileRead::Failed("denied".to_owned())),
        Err("failed reading auth profile p.json: denied".to_owned())
    );
    assert_eq!(save_auth_profile("p.json", FileWrite::Done), Ok(()));
    assert_eq!(
        save_auth_profile(
            "d/p.json",
            FileWrite::DirectoryFailed {
                dir: "d".to_owned(),
                reason: "denied".to_owned()
            }
        ),
        Err("failed creating auth profile directory d: denied".to_owned())
    );
    assert_eq!(
        save_auth_profile(
            "p.json",
            FileWrite::Failed {
                reason: "full".to_owned()
            }
        ),
        Err("failed writing auth profile p.json: full".to_owned())
    );
    assert_eq!(clear_auth_profile("p.json", FileRemoval::Missing), Ok(()));
    assert_eq!(clear_auth_profile("p.json", FileRemoval::Done), Ok(()));
    assert_eq!(
        clear_auth_profile("p.json", FileRemoval::Failed("denied".to_owned())),
        Err("failed deleting auth profile p.json: denied".to_owned())
    );
    assert_eq!(
        profile_error(ProfileStep::Parsing, "p.json", "eof"),
        "failed parsing auth profile p.json: eof"
    );
}

#[test]
fn security_actions_show_a_dialog_and_ask_the_backend() {
    let (mut bridge, _) = DesktopBridge::start(sample_config());

    let status = bridge.request_recovery_status();
    let snapshot = status.snapshot.expect("a snapshot");
    assert!(snapshot.show_security_dialog);
    assert_eq!(snapshot.security_dialog_title, "Identity Backup Status");
    assert_eq!(snapshot.security_dialog_body, "Checking backup status...");
    assert!(matches!(
        &status.commands[..],
        [BackendCommand::GetRecoveryStatus]
    ));

    let backup = bridge.backup_identity();
    let snapshot = backup.snapshot.expect("a snapshot");
    assert_eq!(snapshot.security_dialog_title, "Creating Identity Backup");
    assert!(matches!(
        &backup.commands[..],
        [BackendCommand::EnableRecovery {
            client_txn_id,
            passphrase: None,
            wait_for_backups_to_upload: false,
        }] if client_txn_id == "desktop-backup-1"
    ));
    assert!(bridge.copy_recovery_key().is_none());

    let reset = bridge.reset_identity_backup();
    assert!(matches!(
        &reset.commands[..],
        [BackendCommand::ResetRecovery {
            client_txn_id,
            passphrase: None,
            wait_for_backups_to_upload: false,
        }] if client_txn_id == "desktop-reset-2"
    ));

    let _ = bridge.on_event(BackendEvent::RecoveryEnableAck(RecoveryEnableAck {
        client_txn_id: "desktop-reset-2".to_owned(),
        recovery_key: Some("the key".to_owned()),
        error_code: None,
    }));
    let (key, copied) = bridge.copy_recovery_key().expect("a recovery key");
    assert_eq!(key, "the key");
    assert!(copied.commands.is_empty());
    let snapshot = copied.snapshot.expect("a snapshot");
    assert_eq!(snapshot.security_copy_button_text, "Copied");
    assert_eq!(snapshot.security_dialog_title, "Identity Backup Created");
    assert!(snapshot.security_dialog_body.contains("the key"));

    let hidden = bridge.dismiss_security_dialog();
    assert!(hidden.commands.is_empty());
    assert!(!hidden.snapshot.expect("a snapshot").show_security_dialog);
    assert!(bridge.copy_recovery_key().is_none());
}

#[test]
fn one_restore_runs_at_a_time() {
    let (mut bridge, _) = DesktopBridge::start(sample_config());
    let prompt = bridge.prompt_restore_identity();
    assert!(prompt.commands.is_empty());
    let snapshot = prompt.snapshot.expect("a snapshot");
    assert!(snapshot.security_show_restore_input);
    assert_eq!(snapshot.security_dialog_title, "Identity Restore");
    assert_eq!(
        snapshot.security_dialog_body,
        "Enter your recovery key or passphrase."
    );
    assert_eq!(snapshot.security_restore_button_text, "Restore");

    let restore = bridge.restore_identity("key".to_owned());
    assert!(matches!(
        &restore.commands[..],
        [BackendCommand::RecoverSecrets { client_txn_id, recovery_key }]
            if client_txn_id == "desktop-restore-1" && recovery_key == "key"
    ));
    let snapshot = restore.snapshot.expect("a snapshot");
    assert!(snapshot.security_restore_in_flight);
    assert_eq!(snapshot.security_restore_button_text, "Restoring...");

    let again = bridge.restore_identity("key".to_owned());
    assert!(again.snapshot.is_none());
    assert!(again.commands.is_empty());

    let ended = bridge.on_event(BackendEvent::RecoveryRestoreAck(RecoveryRestoreAck {
        client_txn_id: "desktop-restore-1".to_owned(),
        error_code: None,
    }));
    assert!(!ended.snapshot.expect("a snapshot").security_restore_in_flight);
}
