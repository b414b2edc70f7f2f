//! Protocol, lifecycle, retry and timeline helpers.
use std::time::Duration;

use pikachat::backend_core::error::{
    BackendError, BackendErrorCategory, classify_http_status,
};
use pikachat::backend_core::normalization::{SendOutcome, normalize_send_outcome};
use pikachat::backend_core::retry::RetryPolicy;
use pikachat::backend_core::state_machine::BackendStateMachine;
use pikachat::backend_core::timeline::{TimelineBuffer, TimelineMergeError};
use pikachat::backend_core::types::{
    BackendCommand, BackendEvent, BackendLifecycleState, InviteAction, InviteActionAck,
    MessageType, RoomMembership, RoomSummary, TimelineContent, TimelineItem, TimelineOp,
};


#[test]
fn classifies_http_status_categories() {
    assert_eq!(classify_http_status(401), BackendErrorCategory::Auth);
    assert_eq!(classify_http_status(429), BackendErrorCategory::RateLimited);
    assert_eq!(classify_http_status(404), BackendErrorCategory::Config);
    assert_eq!(classify_http_status(503), BackendErrorCategory::Network);
    assert_eq!(classify_http_status(700), BackendErrorCategory::Internal);
}

#[test]
fn keeps_invalid_state_error_code_stable() {
    let err = BackendError::invalid_state(BackendLifecycleState::Cold, "start_sync");
    assert_eq!(err.code, "invalid_state_transition");
    assert_eq!(err.category, BackendErrorCategory::Internal);
}

#[test]
fn persists_retry_after_in_millis() {
    let err = BackendError::new(BackendErrorCategory::RateLimited, "rate_limited", "wait")
        .with_retry_after(Duration::from_secs(3).as_millis());
    assert_eq!(err.retry_after_ms, Some(3000));
}


#[test]
fn maps_success_to_send_ack() {
    let event = normalize_send_outcome(
        "txn-1",
        SendOutcome::Success {
            event_id: "$abc".into(),
        },
    );

    match event {
        BackendEvent::SendAck(ack) => {
            assert_eq!(ack.client_txn_id, "txn-1");
            assert_eq!(ack.event_id.as_deref(), Some("$abc"));
            assert_eq!(ack.error_code, None);
        }
        other => panic!("unexpected event: {other:?}"),
    }
}

#[test]
fn maps_failure_to_send_ack_with_stable_error_code() {
    let event = normalize_send_outcome(
        "txn-2",
        SendOutcome::Failure {
            error: BackendError::new(
                BackendErrorCategory::RateLimited,
                "rate_limited",
                "slow down",
            ),
        },
    );

    match event {
        BackendEvent::SendAck(ack) => {
            assert_eq!(ack.client_txn_id, "txn-2");
            assert_eq!(ack.event_id, None);
            assert_eq!(ack.error_code.as_deref(), Some("rate_limited"));
        }
        other => panic!("unexpected event: {other:?}"),
    }
}


#[test]
fn starts_with_base_delay() {
    let policy = RetryPolicy::new(250, 8_000);
    assert_eq!(
        policy.delay_for_attempt(0, None),
        250
    );
}

#[test]
fn scales_exponentially_for_attempts() {
    let policy = RetryPolicy::new(100, 10_000);
    assert_eq!(
        policy.delay_for_attempt(3, None),
        800
    );
}

#[test]
fn caps_delay_at_max() {
    let policy = RetryPolicy::new(1_000, 4_000);
    assert_eq!(
        policy.delay_for_attempt(5, None),
        4_000
    );
}

#[test]
fn honors_retry_after_hint_when_larger() {
    let policy = RetryPolicy::new(500, 20_000);
    assert_eq!(
        policy.delay_for_attempt(1, Some(10_000)),
        10_000
    );
}



fn init_command() -> BackendCommand {
    BackendCommand::Init {
        homeserver: "https://matrix.example.org".to_owned(),
        data_dir: "/tmp/pikachat".to_owned(),
        config: None,
    }
}

#[test]
fn runs_happy_path_state_transitions() {
    let mut sm = BackendStateMachine::default();

    sm.apply(&init_command()).expect("init must work");
    assert_eq!(sm.state(), BackendLifecycleState::Configured);

    sm.apply(&BackendCommand::LoginPassword {
        user_id_or_localpart: "@alice:example.org".into(),
        password: "secret".into(),
        persist_session: true,
    })
    .expect("login command must work");
    assert_eq!(sm.state(), BackendLifecycleState::Authenticating);

    sm.on_auth_result(true).expect("auth should resolve");
    assert_eq!(sm.state(), BackendLifecycleState::Authenticated);

    sm.apply(&BackendCommand::StartSync)
        .expect("start sync should work");
    assert_eq!(sm.state(), BackendLifecycleState::Syncing);

    sm.apply(&BackendCommand::StopSync)
        .expect("stop sync should work");
    assert_eq!(sm.state(), BackendLifecycleState::Authenticated);

    sm.apply(&BackendCommand::Logout)
        .expect("logout should work");
    assert_eq!(sm.state(), BackendLifecycleState::LoggedOut);
}

#[test]
fn rejects_sync_without_auth() {
    let mut sm = BackendStateMachine::default();
    sm.apply(&init_command()).expect("init must work");

    let err = sm
        .apply(&BackendCommand::StartSync)
        .expect_err("start sync should fail without auth");
    assert_eq!(err.code, "invalid_state_transition");
}

#[test]
fn rejects_timeline_commands_outside_authenticated_context() {
    let mut sm = BackendStateMachine::default();
    sm.apply(&init_command()).expect("init must work");

    let err = sm
        .apply(&BackendCommand::SendMessage {
            room_id: "!abc:example.org".into(),
            client_txn_id: "tx-1".into(),
            body: "hello".into(),
            msgtype: MessageType::Text,
        })
        .expect_err("timeline command should fail when not authenticated");
    assert_eq!(err.code, "invalid_state_transition");

    let err = sm
        .apply(&BackendCommand::SendDmText {
            user_id: "@alice:example.org".into(),
            client_txn_id: "tx-2".into(),
            body: "hello".into(),
        })
        .expect_err("dm command should fail when not authenticated");
    assert_eq!(err.code, "invalid_state_transition");

    let err = sm
        .apply(&BackendCommand::UploadMedia {
            client_txn_id: "tx-3".into(),
            content_type: "text/plain".into(),
            data: vec![1, 2, 3],
        })
        .expect_err("media upload command should fail when not authenticated");
    assert_eq!(err.code, "invalid_state_transition");

    let err = sm
        .apply(&BackendCommand::DownloadMedia {
            client_txn_id: "tx-4".into(),
            source: "mxc://example.org/media".into(),
        })
        .expect_err("media download command should fail when not authenticated");
    assert_eq!(err.code, "invalid_state_transition");

    let err = sm
        .apply(&BackendCommand::GetRecoveryStatus)
        .expect_err("recovery status should fail when not authenticated");
    assert_eq!(err.code, "invalid_state_transition");

    let err = sm
        .apply(&BackendCommand::EnableRecovery {
            client_txn_id: "tx-5".into(),
            passphrase: None,
            wait_for_backups_to_upload: false,
        })
        .expect_err("enable recovery should fail when not authenticated");
    assert_eq!(err.code, "invalid_state_transition");

    let err = sm
        .apply(&BackendCommand::RecoverSecrets {
            client_txn_id: "tx-6".into(),
            recovery_key: "key".into(),
        })
        .expect_err("recover secrets should fail when not authenticated");
    assert_eq!(err.code, "invalid_state_transition");

    let err = sm
        .apply(&BackendCommand::ResetRecovery {
            client_txn_id: "tx-7".into(),
            passphrase: None,
            wait_for_backups_to_upload: false,
        })
        .expect_err("reset recovery should fail when not authenticated");
    assert_eq!(err.code, "invalid_state_transition");

    let err = sm
        .apply(&BackendCommand::AcceptRoomInvite {
            room_id: "!abc:example.org".into(),
            client_txn_id: "tx-8".into(),
        })
        .expect_err("accept invite should fail when not authenticated");
    assert_eq!(err.code, "invalid_state_transition");

    let err = sm
        .apply(&BackendCommand::RejectRoomInvite {
            room_id: "!abc:example.org".into(),
            client_txn_id: "tx-9".into(),
        })
        .expect_err("reject invite should fail when not authenticated");
    assert_eq!(err.code, "invalid_state_transition");
}

#[test]
fn allows_invite_commands_in_authenticated_context() {
    let mut sm = BackendStateMachine::default();
    sm.apply(&init_command()).expect("init must work");
    sm.apply(&BackendCommand::LoginPassword {
        user_id_or_localpart: "@alice:example.org".into(),
        password: "secret".into(),
        persist_session: true,
    })
    .expect("login command must work");
    sm.on_auth_result(true).expect("auth should resolve");

    sm.apply(&BackendCommand::AcceptRoomInvite {
        room_id: "!abc:example.org".into(),
        client_txn_id: "tx-1".into(),
    })
    .expect("accept invite should work in authenticated state");

    sm.apply(&BackendCommand::StartSync)
        .expect("start sync should work");
    sm.apply(&BackendCommand::RejectRoomInvite {
        room_id: "!abc:example.org".into(),
        client_txn_id: "tx-2".into(),
    })
    .expect("reject invite should work in syncing state");
}

#[test]
fn allows_reinit_after_logout() {
    let mut sm = BackendStateMachine::default();
    sm.apply(&init_command()).expect("init must work");
    sm.apply(&BackendCommand::Logout)
        .expect("logout should work");
    assert_eq!(sm.state(), BackendLifecycleState::LoggedOut);

    sm.apply(&init_command())
        .expect("init should work again after logout");
    assert_eq!(sm.state(), BackendLifecycleState::Configured);
}


fn item(event_id: &str, body: &str) -> TimelineItem {
    TimelineItem {
        event_id: Some(event_id.to_owned()),
        sender: "@alice:example.org".to_owned(),
        body: body.to_owned(),
        content: TimelineContent::Text,
        timestamp_ms: 1_731_000_000,
    }
}

#[test]
fn applies_append_update_remove_sequence() {
    let mut timeline = TimelineBuffer::new(50);
    timeline
        .apply_ops(&[
            TimelineOp::Append(item("$1", "hello")),
            TimelineOp::Append(item("$2", "world")),
            TimelineOp::UpdateBody {
                event_id: "$2".into(),
                new_body: "world!".into(),
            },
            TimelineOp::Remove {
                event_id: "$1".into(),
            },
        ])
        .expect("ops should be valid");

    assert_eq!(timeline.items().len(), 1);
    assert_eq!(timeline.items()[0].event_id.as_deref(), Some("$2"));
    assert_eq!(timeline.items()[0].body, "world!");
}

#[test]
fn fails_when_event_for_update_is_missing() {
    let mut timeline = TimelineBuffer::new(10);
    let err = timeline
        .apply_ops(&[TimelineOp::UpdateBody {
            event_id: "$404".into(),
            new_body: "x".into(),
        }])
        .expect_err("should reject updates to unknown events");
    assert_eq!(err, TimelineMergeError::MissingEvent("$404".into()));
}

#[test]
fn replaces_existing_item() {
    let mut timeline = TimelineBuffer::new(10);
    timeline
        .apply_ops(&[
            TimelineOp::Append(item("$1", "old")),
            TimelineOp::Replace {
                event_id: "$1".into(),
                item: TimelineItem {
                    event_id: Some("$1".into()),
                    sender: "@bob:example.org".into(),
                    body: "new".into(),
                    content: TimelineContent::Text,
                    timestamp_ms: 1_732_000_000,
                },
            },
        ])
        .expect("replace should work");

    assert_eq!(timeline.items().len(), 1);
    assert_eq!(timeline.items()[0].event_id.as_deref(), Some("$1"));
    assert_eq!(timeline.items()[0].sender, "@bob:example.org");
    assert_eq!(timeline.items()[0].body, "new");
    assert_eq!(timeline.items()[0].timestamp_ms, 1_732_000_000);
}

#[test]
fn fails_when_event_for_replace_is_missing() {
    let mut timeline = TimelineBuffer::new(10);
    let err = timeline
        .apply_ops(&[TimelineOp::Replace {
            event_id: "$404".into(),
            item: item("$1", "x"),
        }])
        .expect_err("should reject replacements to unknown events");
    assert_eq!(err, TimelineMergeError::MissingEvent("$404".into()));
}

#[test]
fn trims_oldest_when_over_max_items() {
    let mut timeline = TimelineBuffer::new(2);
    timeline
        .apply_ops(&[
            TimelineOp::Append(item("$1", "one")),
            TimelineOp::Append(item("$2", "two")),
            TimelineOp::Append(item("$3", "three")),
        ])
        .expect("append should work");

    assert_eq!(timeline.items().len(), 2);
    assert_eq!(timeline.items()[0].event_id.as_deref(), Some("$2"));
    assert_eq!(timeline.items()[1].event_id.as_deref(), Some("$3"));
}

#[test]
fn longer_hints_never_shorten_the_delay() {
    let policy = RetryPolicy::default();
    let mut last = 0;
    for hint in [0, 500, 501, 2_000, 30_000, 60_000] {
        let delay = policy.delay_for_attempt(1, Some(hint));
        assert!(last <= delay);
        last = delay;
    }
    assert_eq!(last, 30_000);
}

#[test]
fn copied_buffers_are_their_own() {
    let mut buffer = TimelineBuffer::new(1);
    buffer
        .apply_ops(&[TimelineOp::Append(item("$1", "one"))])
        .expect("append should work");
    let mut copy = buffer.clone();
    assert_eq!(copy.items(), buffer.items());
    copy.apply_ops(&[TimelineOp::Append(item("$2", "two"))])
        .expect("append should work");
    assert_eq!(copy.items().len(), 1);
    assert_eq!(buffer.items()[0].event_id.as_deref(), Some("$1"));
}

#[test]
fn batches_of_operations_compose() {
    let append = |event_id: &str| TimelineOp::Append(item(event_id, "x"));
    let mut whole = TimelineBuffer::new(2);
    whole
        .apply_ops(&[append("$1"), append("$2"), append("$3")])
        .expect("append should work");
    let mut parts = TimelineBuffer::new(2);
    parts.apply_ops(&[append("$1")]).expect("append should work");
    parts
        .apply_ops(&[append("$2"), append("$3")])
        .expect("append should work");
    assert_eq!(whole.items(), parts.items());

    let missing = || TimelineOp::Remove {
        event_id: "$404".into(),
    };
    let mut stopped = TimelineBuffer::new(5);
    stopped
        .apply_ops(&[append("$1"), missing(), append("$2")])
        .expect_err("should reject removals of unknown events");
    assert_eq!(stopped.items().len(), 1);
}

#[test]
fn bounds_paginate_limit_for_safety() {
    assert_eq!(TimelineBuffer::bounded_paginate_limit(0, 200), 1);
    assert_eq!(TimelineBuffer::bounded_paginate_limit(25, 10), 10);
    assert_eq!(TimelineBuffer::bounded_paginate_limit(150, 500), 100);
}


#[test]
fn room_summary_carries_membership() {
    let summary = RoomSummary {
        room_id: "!abc:example.org".into(),
        name: Some("Room".into()),
        unread_notifications: 1,
        highlight_count: 0,
        is_direct: false,
        membership: RoomMembership::Invited,
    };

    assert_eq!(summary.membership, RoomMembership::Invited);
}

#[test]
fn invite_command_variants_include_txn_and_room() {
    let accept = BackendCommand::AcceptRoomInvite {
        room_id: "!a:example.org".into(),
        client_txn_id: "txn-accept".into(),
    };
    let reject = BackendCommand::RejectRoomInvite {
        room_id: "!b:example.org".into(),
        client_txn_id: "txn-reject".into(),
    };

    match accept {
        BackendCommand::AcceptRoomInvite {
            room_id,
            client_txn_id,
        } => {
            assert_eq!(room_id, "!a:example.org");
            assert_eq!(client_txn_id, "txn-accept");
        }
        _ => panic!("expected AcceptRoomInvite"),
    }

    match reject {
        BackendCommand::RejectRoomInvite {
            room_id,
            client_txn_id,
        } => {
            assert_eq!(room_id, "!b:example.org");
            assert_eq!(client_txn_id, "txn-reject");
        }
        _ => panic!("expected RejectRoomInvite"),
    }
}

#[test]
fn invite_action_ack_event_exposes_contract_fields() {
    let event = BackendEvent::InviteActionAck(InviteActionAck {
        client_txn_id: "txn-1".into(),
        room_id: "!abc:example.org".into(),
        action: InviteAction::Reject,
        error_code: Some("not_invited".into()),
    });

    match event {
        BackendEvent::InviteActionAck(ack) => {
            assert_eq!(ack.client_txn_id, "txn-1");
            assert_eq!(ack.room_id, "!abc:example.org");
            assert_eq!(ack.action, InviteAction::Reject);
            assert_eq!(ack.error_code.as_deref(), Some("not_invited"));
        }
        _ => panic!("expected InviteActionAck event"),
    }
}
