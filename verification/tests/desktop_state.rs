//! State of the desktop client.
use pikachat::backend_core::types::{
    BackendEvent, InviteAction, InviteActionAck, KeyBackupState, RecoveryEnableAck,
    RecoveryRestoreAck, RecoveryState, RecoveryStatus, RoomMembership, RoomSummary, SendAck,
    SyncStatus, TimelineContent, TimelineItem, TimelineOp,
};
use pikachat::desktop::state::DesktopState;

const SECURITY_TITLE_RESTORE: &str = "Identity Restore";


fn item(event_id: &str, sender: &str, body: &str) -> TimelineItem {
    TimelineItem {
        event_id: Some(event_id.to_owned()),
        sender: sender.to_owned(),
        body: body.to_owned(),
        content: TimelineContent::Text,
        timestamp_ms: 1_700_000_000,
    }
}

fn room(
    room_id: &str,
    name: &str,
    unread: u64,
    highlight: u64,
    membership: RoomMembership,
) -> RoomSummary {
    RoomSummary {
        room_id: room_id.to_owned(),
        name: Some(name.to_owned()),
        unread_notifications: unread,
        highlight_count: highlight,
        is_direct: false,
        membership,
    }
}

#[test]
fn room_list_places_invites_first_with_stable_backend_order_and_no_auto_selection() {
    let mut state = DesktopState::new("@alice:example.org", 50);
    state.replace_rooms(vec![
        room(
            "!joined-2:example.org",
            "Joined2",
            2,
            1,
            RoomMembership::Joined,
        ),
        room(
            "!invite-1:example.org",
            "Invite1",
            0,
            0,
            RoomMembership::Invited,
        ),
        room(
            "!joined-1:example.org",
            "Joined1",
            0,
            0,
            RoomMembership::Joined,
        ),
        room(
            "!invite-2:example.org",
            "Invite2",
            0,
            0,
            RoomMembership::Invited,
        ),
    ]);

    let snapshot = state.snapshot();
    assert_eq!(snapshot.selected_room_id, None);
    assert_eq!(snapshot.rooms[0].room_id, "!invite-1:example.org");
    assert_eq!(snapshot.rooms[1].room_id, "!invite-2:example.org");
    assert_eq!(snapshot.rooms[2].room_id, "!joined-2:example.org");
    assert_eq!(snapshot.rooms[2].unread_notifications, 2);
    assert_eq!(snapshot.rooms[2].highlight_count, 1);
    assert_eq!(snapshot.rooms[3].room_id, "!joined-1:example.org");
}

#[test]
fn selecting_room_marks_selected_state() {
    let mut state = DesktopState::new("@alice:example.org", 50);
    state.replace_rooms(vec![room(
        "!r1:example.org",
        "R1",
        0,
        0,
        RoomMembership::Joined,
    )]);
    let selected = state.select_room_by_index(0);

    assert_eq!(selected.as_deref(), Some("!r1:example.org"));
    let snapshot = state.snapshot();
    assert_eq!(
        snapshot.selected_room_id.as_deref(),
        Some("!r1:example.org")
    );
    assert!(snapshot.rooms[0].is_selected);
}

#[test]
fn snapshot_mapping_sets_own_message_alignment() {
    let mut state = DesktopState::new("@alice:example.org", 50);
    state.replace_rooms(vec![room(
        "!r1:example.org",
        "R1",
        0,
        0,
        RoomMembership::Joined,
    )]);
    state.select_room("!r1:example.org".to_owned());
    state.handle_backend_event(BackendEvent::RoomTimelineSnapshot {
        room_id: "!r1:example.org".to_owned(),
        items: vec![
            item("$1", "@alice:example.org", "mine"),
            item("$2", "@bob:example.org", "theirs"),
        ],
    });

    let snapshot = state.snapshot();
    assert_eq!(snapshot.messages.len(), 2);
    assert!(snapshot.messages[0].is_own);
    assert!(!snapshot.messages[1].is_own);
}

#[test]
fn send_ack_failure_sets_error_and_clears_pending() {
    let mut state = DesktopState::new("@alice:example.org", 50);
    state.mark_send_requested("txn-1".to_owned());
    state.handle_send_ack(SendAck {
        client_txn_id: "txn-1".to_owned(),
        event_id: None,
        error_code: Some("forbidden".to_owned()),
    });

    let snapshot = state.snapshot();
    assert_eq!(
        snapshot.error_text.as_deref(),
        Some("send failed (forbidden)")
    );
}

#[test]
fn invite_selection_disables_sending_and_exposes_snapshot_flags() {
    let mut state = DesktopState::new("@alice:example.org", 50);
    state.replace_rooms(vec![room(
        "!invite:example.org",
        "Invite",
        0,
        0,
        RoomMembership::Invited,
    )]);
    state.select_room("!invite:example.org".to_owned());

    let snapshot = state.snapshot();
    assert!(!snapshot.can_send);
    assert!(snapshot.selected_room_is_invite);
    assert_eq!(snapshot.selected_room_invite_pending_text, None);
}

#[test]
fn invite_ack_clears_pending_and_sets_error_on_failure() {
    let mut state = DesktopState::new("@alice:example.org", 50);
    state.replace_rooms(vec![room(
        "!invite:example.org",
        "Invite",
        0,
        0,
        RoomMembership::Invited,
    )]);
    assert!(state.mark_invite_action_requested(
        "!invite:example.org".to_owned(),
        "txn-invite-1".to_owned(),
        InviteAction::Accept,
    ));
    state.handle_backend_event(BackendEvent::InviteActionAck(InviteActionAck {
        client_txn_id: "txn-invite-1".to_owned(),
        room_id: "!invite:example.org".to_owned(),
        action: InviteAction::Accept,
        error_code: Some("not_invited".to_owned()),
    }));

    let snapshot = state.snapshot();
    assert_eq!(
        snapshot.error_text.as_deref(),
        Some("invite accept failed (not_invited)")
    );
    assert!(!snapshot.rooms[0].invite_pending);
    assert!(snapshot.rooms[0].invite_pending_text.is_empty());
}

#[test]
fn sync_status_labels_use_connected_and_reconnecting() {
    let mut state = DesktopState::new("@alice:example.org", 50);

    state.handle_backend_event(BackendEvent::SyncStatus(SyncStatus {
        running: true,
        lag_hint_ms: None,
    }));
    assert_eq!(state.snapshot().status_text, "Connected");

    state.handle_backend_event(BackendEvent::SyncStatus(SyncStatus {
        running: true,
        lag_hint_ms: Some(1500),
    }));
    assert_eq!(
        state.snapshot().status_text,
        "Reconnecting (retry in 1500 ms)"
    );

    state.handle_backend_event(BackendEvent::SyncStatus(SyncStatus {
        running: false,
        lag_hint_ms: None,
    }));
    assert_eq!(state.snapshot().status_text, "Disconnected");
}

#[test]
fn auth_mismatch_error_is_actionable() {
    let mut state = DesktopState::new("@alice:example.org", 50);
    state.handle_backend_event(BackendEvent::AuthResult {
        success: false,
        error_code: Some("crypto_store_account_mismatch".to_owned()),
    });
    let text = state
        .snapshot()
        .error_text
        .expect("error text should be present");
    assert!(text.contains("PIKACHAT_DATA_DIR"));
    assert!(text.contains("different account"));
}

fn is_near_top(viewport_y: f32, threshold_px: f32) -> bool {
    viewport_y >= -threshold_px
}

#[test]
fn pagination_trigger_respects_top_threshold_inflight_and_cooldown() {
    let mut state = DesktopState::new("@alice:example.org", 50);
    state.replace_rooms(vec![room(
        "!r1:example.org",
        "R1",
        0,
        0,
        RoomMembership::Joined,
    )]);
    state.select_room("!r1:example.org".to_owned());

    assert_eq!(
        state.request_pagination_if_needed(is_near_top(-200.0, 80.0), 1_000, 500, 30),
        None
    );

    let first = state.request_pagination_if_needed(is_near_top(-40.0, 80.0), 1_000, 500, 30);
    assert_eq!(first, Some(("!r1:example.org".to_owned(), 30)));

    let second = state.request_pagination_if_needed(is_near_top(-10.0, 80.0), 1_200, 500, 30);
    assert_eq!(second, None);

    state.handle_backend_event(BackendEvent::RoomTimelineSnapshot {
        room_id: "!r1:example.org".to_owned(),
        items: vec![],
    });

    let third = state.request_pagination_if_needed(is_near_top(-20.0, 80.0), 1_300, 500, 30);
    assert_eq!(third, None);

    let fourth = state.request_pagination_if_needed(is_near_top(-20.0, 80.0), 1_600, 500, 30);
    assert_eq!(fourth, Some(("!r1:example.org".to_owned(), 30)));
}

#[test]
fn dedupe_and_trim_keeps_latest_event_instance() {
    let mut state = DesktopState::new("@alice:example.org", 2);
    state.replace_rooms(vec![room(
        "!r1:example.org",
        "R1",
        0,
        0,
        RoomMembership::Joined,
    )]);
    state.select_room("!r1:example.org".to_owned());
    state.handle_backend_event(BackendEvent::RoomTimelineSnapshot {
        room_id: "!r1:example.org".to_owned(),
        items: vec![
            item("$1", "@alice:example.org", "v1"),
            item("$2", "@alice:example.org", "v2"),
            item("$1", "@alice:example.org", "v1-new"),
        ],
    });

    let snapshot = state.snapshot();
    assert_eq!(snapshot.messages.len(), 2);
    assert_eq!(snapshot.messages[0].event_id.as_deref(), Some("$2"));
    assert_eq!(snapshot.messages[1].event_id.as_deref(), Some("$1"));
    assert_eq!(snapshot.messages[1].body, "v1-new");
}

#[test]
fn apply_delta_handles_update_and_remove_leniently() {
    let mut state = DesktopState::new("@alice:example.org", 50);
    state.replace_rooms(vec![room(
        "!r1:example.org",
        "R1",
        0,
        0,
        RoomMembership::Joined,
    )]);
    state.select_room("!r1:example.org".to_owned());
    state.handle_backend_event(BackendEvent::RoomTimelineSnapshot {
        room_id: "!r1:example.org".to_owned(),
        items: vec![item("$1", "@alice:example.org", "one")],
    });
    state.handle_backend_event(BackendEvent::RoomTimelineDelta {
        room_id: "!r1:example.org".to_owned(),
        ops: vec![
            TimelineOp::UpdateBody {
                event_id: "$1".to_owned(),
                new_body: "one-updated".to_owned(),
            },
            TimelineOp::Remove {
                event_id: "$404".to_owned(),
            },
        ],
    });

    let snapshot = state.snapshot();
    assert_eq!(snapshot.messages.len(), 1);
    assert_eq!(snapshot.messages[0].body, "one-updated");
}

#[test]
fn recovery_status_event_opens_security_dialog() {
    let mut state = DesktopState::new("@alice:example.org", 50);
    state.show_security_status_dialog("Checking backup status...");
    state.handle_backend_event(BackendEvent::RecoveryStatus(RecoveryStatus {
        backup_state: KeyBackupState::Enabled,
        backup_enabled: true,
        backup_exists_on_server: true,
        recovery_state: RecoveryState::Enabled,
    }));

    let snapshot = state.snapshot();
    assert!(snapshot.show_security_dialog);
    assert_eq!(snapshot.security_dialog_title, "Identity Backup Status");
    assert!(
        snapshot
            .security_dialog_body
            .contains("Backup enabled locally: yes")
    );
    assert!(
        snapshot
            .security_dialog_body
            .contains("Recovery state: Enabled")
    );
}

#[test]
fn recovery_enable_success_shows_recovery_key_dialog() {
    let mut state = DesktopState::new("@alice:example.org", 50);
    state.handle_backend_event(BackendEvent::RecoveryEnableAck(
        RecoveryEnableAck {
            client_txn_id: "txn-r1".to_owned(),
            recovery_key: Some("word1 word2 word3".to_owned()),
            error_code: None,
        },
    ));

    let snapshot = state.snapshot();
    assert!(snapshot.show_security_dialog);
    assert_eq!(snapshot.security_dialog_title, "Identity Backup Created");
    assert!(snapshot.security_dialog_body.contains("Recovery key:"));
    assert!(snapshot.security_dialog_body.contains("word1 word2 word3"));
    assert!(snapshot.security_show_copy_button);
    assert_eq!(snapshot.security_copy_button_text, "Copy Key");
    assert_eq!(snapshot.error_text, None);
}

#[test]
fn mark_recovery_key_copied_updates_button_label() {
    let mut state = DesktopState::new("@alice:example.org", 50);
    state.handle_backend_event(BackendEvent::RecoveryEnableAck(
        RecoveryEnableAck {
            client_txn_id: "txn-r1".to_owned(),
            recovery_key: Some("word1 word2 word3".to_owned()),
            error_code: None,
        },
    ));

    assert_eq!(
        state.recovery_key_for_copy().as_deref(),
        Some("word1 word2 word3")
    );
    state.mark_recovery_key_copied();
    let snapshot = state.snapshot();
    assert_eq!(snapshot.security_copy_button_text, "Copied");
}

#[test]
fn dismiss_security_dialog_hides_modal() {
    let mut state = DesktopState::new("@alice:example.org", 50);
    state.show_security_dialog("x", "y");
    state.dismiss_security_dialog();
    assert!(!state.snapshot().show_security_dialog);
    assert_eq!(state.recovery_key_for_copy(), None);
}

#[test]
fn recovery_status_does_not_override_recovery_key_dialog() {
    let mut state = DesktopState::new("@alice:example.org", 50);
    state.handle_backend_event(BackendEvent::RecoveryEnableAck(
        RecoveryEnableAck {
            client_txn_id: "txn-r1".to_owned(),
            recovery_key: Some("word1 word2 word3".to_owned()),
            error_code: None,
        },
    ));
    state.handle_backend_event(BackendEvent::RecoveryStatus(RecoveryStatus {
        backup_state: KeyBackupState::Enabled,
        backup_enabled: true,
        backup_exists_on_server: true,
        recovery_state: RecoveryState::Enabled,
    }));

    let snapshot = state.snapshot();
    assert_eq!(snapshot.security_dialog_title, "Identity Backup Created");
    assert!(snapshot.security_dialog_body.contains("word1 word2 word3"));
}

#[test]
fn recovery_enable_already_enabled_shows_status_dialog() {
    let mut state = DesktopState::new("@alice:example.org", 50);
    state.handle_backend_event(BackendEvent::RecoveryEnableAck(
        RecoveryEnableAck {
            client_txn_id: "txn-r1".to_owned(),
            recovery_key: None,
            error_code: Some("recovery_already_enabled".to_owned()),
        },
    ));

    let snapshot = state.snapshot();
    assert!(snapshot.show_security_dialog);
    assert_eq!(snapshot.security_dialog_title, "Identity Backup Status");
    assert!(
        snapshot
            .security_dialog_body
            .contains("already enabled on this client")
    );
    assert_eq!(snapshot.error_text, None);
}

#[test]
fn recovery_enable_backup_exists_shows_status_dialog() {
    let mut state = DesktopState::new("@alice:example.org", 50);
    state.handle_backend_event(BackendEvent::RecoveryEnableAck(
        RecoveryEnableAck {
            client_txn_id: "txn-r1".to_owned(),
            recovery_key: None,
            error_code: Some("recovery_backup_exists".to_owned()),
        },
    ));

    let snapshot = state.snapshot();
    assert!(snapshot.show_security_dialog);
    assert_eq!(snapshot.security_dialog_title, "Identity Backup Status");
    assert!(snapshot.security_dialog_body.contains("already exists"));
    assert_eq!(snapshot.error_text, None);
}

#[test]
fn restore_prompt_exposes_input_controls() {
    let mut state = DesktopState::new("@alice:example.org", 50);
    state.show_security_restore_prompt_dialog(
        SECURITY_TITLE_RESTORE,
        "Enter your recovery key or passphrase.",
    );

    let snapshot = state.snapshot();
    assert!(snapshot.show_security_dialog);
    assert_eq!(snapshot.security_dialog_title, "Identity Restore");
    assert!(snapshot.security_show_restore_input);
    assert_eq!(snapshot.security_restore_button_text, "Restore");
    assert!(!snapshot.security_restore_in_flight);
    assert_eq!(snapshot.error_text, None);
}

#[test]
fn begin_restore_request_is_idempotent_until_dialog_resets() {
    let mut state = DesktopState::new("@alice:example.org", 50);
    state.show_security_restore_prompt_dialog(
        SECURITY_TITLE_RESTORE,
        "Enter your recovery key or passphrase.",
    );

    assert!(state.begin_restore_request());
    assert!(!state.begin_restore_request());

    let snapshot = state.snapshot();
    assert!(snapshot.security_restore_in_flight);
    assert_eq!(snapshot.security_restore_button_text, "Restoring...");
}

#[test]
fn recovery_restore_ack_success_closes_input_mode_and_shows_success_dialog() {
    let mut state = DesktopState::new("@alice:example.org", 50);
    state.show_security_restore_prompt_dialog(
        SECURITY_TITLE_RESTORE,
        "Enter your recovery key or passphrase.",
    );
    assert!(state.begin_restore_request());
    state.handle_backend_event(BackendEvent::RecoveryRestoreAck(
        RecoveryRestoreAck {
            client_txn_id: "txn-restore-1".to_owned(),
            error_code: None,
        },
    ));

    let snapshot = state.snapshot();
    assert!(snapshot.show_security_dialog);
    assert_eq!(snapshot.security_dialog_title, "Identity Restore");
    assert!(
        snapshot
            .security_dialog_body
            .contains("restored successfully")
    );
    assert!(!snapshot.security_show_restore_input);
    assert_eq!(snapshot.security_restore_button_text, "Restore");
    assert!(!snapshot.security_restore_in_flight);
    assert_eq!(snapshot.error_text, None);
}

#[test]
fn recovery_restore_ack_failure_shows_dialog_with_error_code_and_resets_input_state() {
    let mut state = DesktopState::new("@alice:example.org", 50);
    state.show_security_restore_prompt_dialog(
        SECURITY_TITLE_RESTORE,
        "Enter your recovery key or passphrase.",
    );
    assert!(state.begin_restore_request());
    state.handle_backend_event(BackendEvent::RecoveryRestoreAck(
        RecoveryRestoreAck {
            client_txn_id: "txn-restore-2".to_owned(),
            error_code: Some("bad_recovery_key".to_owned()),
        },
    ));

    let snapshot = state.snapshot();
    assert!(snapshot.show_security_dialog);
    assert_eq!(snapshot.security_dialog_title, "Identity Restore");
    assert!(
        snapshot
            .security_dialog_body
            .contains("Verify your recovery key or passphrase")
    );
    assert!(
        snapshot
            .security_dialog_body
            .contains("Error code: bad_recovery_key")
    );
    assert!(!snapshot.security_show_restore_input);
    assert_eq!(snapshot.security_restore_button_text, "Restore");
    assert!(!snapshot.security_restore_in_flight);
    assert_eq!(snapshot.error_text, None);
}
