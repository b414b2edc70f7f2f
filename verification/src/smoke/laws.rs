//! What each setting of the smoke harness asks for, and what it makes of the answers.
use vstd::prelude::*;

use super::answers::{self, AnswerView};
use super::plan::{self, SmokeTask};
use super::settings::{self, EnvValue, SmokeSettings};
use super::stats::{self, OpKind, SyncObserveStats};
use crate::backend_core::types::{
    self, BackendCommand, BackendEvent, BackendEventView, BackendLifecycleState, RecoveryStatus,
    RoomSummaryView, TimelineItemView, TimelineOpView,
};
use crate::text;
use crate::text_laws;
use crate::text_map::TextMap;

verus! {

/// A variable says yes by `1`, `true`, `TRUE`, `yes` or `on`, and by nothing else; one that is
/// not set, or is no text, says no.
pub proof fn lemma_yes_is_said_in_five_ways(vars: Map<Seq<char>, EnvValue>, key: Seq<char>)
    ensures
        settings::says_yes("1"@),
        settings::says_yes("true"@),
        settings::says_yes("TRUE"@),
        settings::says_yes("yes"@),
        settings::says_yes("on"@),
        !settings::says_yes("0"@),
        !settings::says_yes("false"@),
        !settings::says_yes("no"@),
        !settings::says_yes("off"@),
        !settings::says_yes(Seq::empty()),
        !vars.dom().contains(key) ==> !settings::is_truthy(vars, key),
        vars.dom().contains(key) && vars[key] is NotUnicode ==> !settings::is_truthy(vars, key),
        vars.dom().contains(key) && vars[key] is Text ==> settings::is_truthy(vars, key)
            == settings::says_yes(vars[key]->Text_0@),
{
    reveal_strlit("1");
    reveal_strlit("true");
    reveal_strlit("TRUE");
    reveal_strlit("yes");
    reveal_strlit("on");
    reveal_strlit("0");
    reveal_strlit("false");
    reveal_strlit("no");
    reveal_strlit("off");
    assert("0"@[0] != "1"@[0] && "0"@.len() == 1 && "1"@.len() == 1);
    assert("no"@[0] != "on"@[0] && "no"@.len() == 2 && "on"@.len() == 2);
    assert("off"@[0] != "yes"@[0] && "off"@.len() == 3 && "yes"@.len() == 3);
    assert("true"@.len() == 4 && "TRUE"@.len() == 4 && "false"@.len() == 5);
}

/// A variable holds the number that it was set to; one that is not set holds none, and any other
/// is refused by name.
pub proof fn lemma_variables_hold_their_numbers(
    vars: Map<Seq<char>, EnvValue>,
    key: Seq<char>,
    number: nat,
    largest: nat,
)
    requires
        number <= largest,
    ensures
        !vars.dom().contains(key) ==> settings::number_or_error(vars, key, largest) == Ok::<
            Option<nat>,
            Seq<char>,
        >(None),
        vars.dom().contains(key) && vars[key] is Text && vars[key]->Text_0@ == text::decimal(
            number,
        ) ==> settings::number_or_error(vars, key, largest) == Ok::<Option<nat>, Seq<char>>(
            Some(number),
        ),
        vars.dom().contains(key) && vars[key] is NotUnicode ==> settings::number_or_error(
            vars,
            key,
            largest,
        ) is Err,
        settings::number_or_error(vars, key, largest) is Err ==> text::contains(
            settings::number_or_error(vars, key, largest)->Err_0,
            key,
        ),
{
    text_laws::lemma_written_number_is_read(number, largest);
    if settings::number_or_error(vars, key, largest) is Err {
        let message = settings::number_or_error(vars, key, largest)->Err_0;
        if vars[key] is NotUnicode {
            text_laws::lemma_pattern_within_is_found(
                Seq::empty(),
                key,
                " contains non-unicode data"@,
            );
            assert(message =~= Seq::<char>::empty() + key + " contains non-unicode data"@);
        } else {
            let value = vars[key]->Text_0@;
            let reason = text::read_number(value, largest)->Err_0.spec_reason();
            let rest = "='"@ + value + "': "@ + reason;
            text_laws::lemma_pattern_within_is_found("invalid "@, key, rest);
            assert(message =~= "invalid "@ + key + rest);
        }
    }
}

/// Settings are those of the variables; those that are not set are the defaults.
pub proof fn lemma_settings_follow_the_variables(
    vars: TextMap<EnvValue>,
    result: Result<SmokeSettings, String>,
)
    requires
        call_ensures(SmokeSettings::from_vars, (&vars,), result),
        result is Ok,
    ensures
        ({
            let asked = result->Ok_0;
            &&& asked.homeserver@ == settings::text_or(
                vars@,
                "PIKACHAT_HOMESERVER"@,
                "https://matrix.example.org"@,
            )
            &&& asked.data_dir@ == settings::text_or(
                vars@,
                "PIKACHAT_DATA_DIR"@,
                "./.pikachat-smoke-store"@,
            )
            &&& types::opt_chars(asked.user) == settings::text_value(vars@, "PIKACHAT_USER"@)
            &&& types::opt_chars(asked.password) == settings::text_value(
                vars@,
                "PIKACHAT_PASSWORD"@,
            )
            &&& types::opt_chars(asked.dm_target) == settings::text_value(
                vars@,
                "PIKACHAT_DM_TARGET"@,
            )
            &&& asked.dm_body@ == settings::text_or(
                vars@,
                "PIKACHAT_DM_BODY"@,
                "PikaChat backend smoke test"@,
            )
            &&& asked.restore_session == settings::is_truthy(vars@, "PIKACHAT_RESTORE_SESSION"@)
            &&& asked.start_sync == settings::is_truthy(vars@, "PIKACHAT_START_SYNC"@)
            &&& asked.enable_recovery == settings::is_truthy(vars@, "PIKACHAT_ENABLE_RECOVERY"@)
            &&& asked.reset_recovery == settings::is_truthy(vars@, "PIKACHAT_RESET_RECOVERY"@)
            &&& types::opt_chars(asked.recovery_key) == settings::text_value(
                vars@,
                "PIKACHAT_RECOVERY_KEY"@,
            )
            &&& !vars@.dom().contains("PIKACHAT_SYNC_OBSERVE_SECS"@) ==> asked.observe_secs == 8
        }),
{
}

/// Text of a variable, or the other one where it is not set to a text.
pub proof fn lemma_texts_have_their_defaults(
    vars: Map<Seq<char>, EnvValue>,
    key: Seq<char>,
    default: Seq<char>,
)
    ensures
        vars.dom().contains(key) && vars[key] is Text ==> settings::text_or(vars, key, default)
            == vars[key]->Text_0@ && settings::text_value(vars, key) == Some(
            vars[key]->Text_0@,
        ),
        !vars.dom().contains(key) || vars[key] is NotUnicode ==> settings::text_or(
            vars,
            key,
            default,
        ) == default && settings::text_value(vars, key) is None,
{
}

/// The harness first opens the backend and then signs in: by a restore where it is asked for,
/// else with the password. Without an account it says how to give one, and does nothing more.
pub proof fn lemma_harness_signs_in_first(asked: SmokeSettings)
    ensures
        ({
            let all = plan::tasks(asked);
            let account = asked.user is Some && asked.password is Some;
            &&& all.len() >= 2
            &&& all[0] is Init
            &&& asked.restore_session ==> all[1] is RestoreSession
            &&& !asked.restore_session && account ==> all[1] is Login
            &&& !asked.restore_session && !account ==> all.len() == 2 && all[1] is ShowUsage
        }),
{
}

/// With an account, every task that is asked for is done, and no other: recovery before the room
/// list, sync after it, messages and media last.
pub proof fn lemma_tasks_are_those_asked_for(asked: SmokeSettings)
    requires
        plan::can_sign_in(asked),
    ensures
        ({
            let all = plan::tasks(asked);
            &&& all.contains(SmokeTask::ListRooms)
            &&& all.contains(SmokeTask::GetRecoveryStatus) <==> asked.get_recovery_status
            &&& all.contains(SmokeTask::EnableRecovery) <==> asked.enable_recovery
            &&& all.contains(SmokeTask::ResetRecovery) <==> asked.reset_recovery
            &&& all.contains(SmokeTask::RecoverSecrets) <==> asked.recovery_key is Some
            &&& all.contains(SmokeTask::StartSync) <==> asked.start_sync
            &&& all.contains(SmokeTask::ObserveSync) <==> asked.start_sync
            &&& all.contains(SmokeTask::StopSync) <==> asked.start_sync
            &&& all.contains(SmokeTask::SendDm) <==> asked.dm_target is Some
            &&& all.contains(SmokeTask::UploadMedia) <==> asked.media_upload_file is Some
            &&& all.contains(SmokeTask::DownloadMedia) <==> asked.media_download_mxc is Some
                || asked.media_upload_file is Some
        }),
{
    let first = plan::first_tasks(asked);
    lemma_first_tasks_hold_no_other(asked);
    let status = plan::and_when(first, asked.get_recovery_status, SmokeTask::GetRecoveryStatus);
    let enabled = plan::and_when(status, asked.enable_recovery, SmokeTask::EnableRecovery);
    let reset = plan::and_when(enabled, asked.reset_recovery, SmokeTask::ResetRecovery);
    let restored = plan::and_when(
        reset,
        asked.recovery_key is Some,
        SmokeTask::RecoverSecrets,
    );
    let listed = restored.push(SmokeTask::ListRooms);
    let synced = plan::with_sync(listed, asked);
    let sent = plan::and_when(synced, asked.dm_target is Some, SmokeTask::SendDm);
    let uploaded = plan::and_when(
        sent,
        asked.media_upload_file is Some,
        SmokeTask::UploadMedia,
    );
    lemma_one_more(first, asked.get_recovery_status, SmokeTask::GetRecoveryStatus);
    lemma_one_more(status, asked.enable_recovery, SmokeTask::EnableRecovery);
    lemma_one_more(enabled, asked.reset_recovery, SmokeTask::ResetRecovery);
    lemma_one_more(reset, asked.recovery_key is Some, SmokeTask::RecoverSecrets);
    lemma_one_more(restored, true, SmokeTask::ListRooms);
    if asked.start_sync {
        lemma_one_more(listed, true, SmokeTask::StartSync);
        lemma_one_more(listed.push(SmokeTask::StartSync), true, SmokeTask::ObserveSync);
        lemma_one_more(
            listed.push(SmokeTask::StartSync).push(SmokeTask::ObserveSync),
            true,
            SmokeTask::StopSync,
        );
    }
    lemma_one_more(synced, asked.dm_target is Some, SmokeTask::SendDm);
    lemma_one_more(sent, asked.media_upload_file is Some, SmokeTask::UploadMedia);
    lemma_one_more(
        uploaded,
        asked.media_download_mxc is Some || asked.media_upload_file is Some,
        SmokeTask::DownloadMedia,
    );
}

proof fn lemma_first_tasks_hold_no_other(asked: SmokeSettings)
    requires
        plan::can_sign_in(asked),
    ensures
        forall|task: SmokeTask|
            #[trigger] plan::first_tasks(asked).contains(task) ==> task is Init || task
                is RestoreSession || task is Login,
{
    assert forall|task: SmokeTask| #[trigger] plan::first_tasks(asked).contains(task) implies task
        is Init || task is RestoreSession || task is Login by {
        let at = plan::first_tasks(asked).index_of(task);
        assert(at == 0 || at == 1);
    }
}

proof fn lemma_one_more(before: Seq<SmokeTask>, asked: bool, task: SmokeTask)
    ensures
        forall|other: SmokeTask|
            #[trigger] plan::and_when(before, asked, task).contains(other) <==> before.contains(
                other,
            ) || asked && other == task,
        asked ==> plan::and_when(before, asked, task) == before.push(task),
{
    if asked {
        assert forall|other: SmokeTask| #[trigger] before.push(task).contains(other)
            <==> before.contains(other) || other == task by {
            if before.contains(other) {
                let at = before.index_of(other);
                assert(before.push(task)[at] == other);
            }
            if other == task {
                assert(before.push(task)[before.len() as int] == other);
            }
            if before.push(task).contains(other) && other != task {
                let at = before.push(task).index_of(other);
                assert(before[at] == other);
            }
        }
    }
}

/// Each task sends a command of its own kind, with what the settings give for it.
pub proof fn lemma_tasks_send_their_commands(
    command: BackendCommand,
    asked: SmokeSettings,
    txn_id: Seq<char>,
    upload: Seq<u8>,
    uploaded_uri: Option<Seq<char>>,
)
    ensures
        plan::carries_out(command, asked, SmokeTask::Init, txn_id, upload, uploaded_uri)
            ==> command is Init && command->homeserver@ == asked.homeserver@
            && command->data_dir@ == asked.data_dir@,
        plan::carries_out(command, asked, SmokeTask::Login, txn_id, upload, uploaded_uri)
            ==> command is LoginPassword && Some(command->user_id_or_localpart@)
            == types::opt_chars(asked.user) && Some(command->password@) == types::opt_chars(
            asked.password,
        ),
        plan::carries_out(command, asked, SmokeTask::SendDm, txn_id, upload, uploaded_uri)
            ==> command is SendDmText && command->SendDmText_body@ == asked.dm_body@ && Some(
            command->user_id@,
        ) == types::opt_chars(asked.dm_target),
        plan::carries_out(command, asked, SmokeTask::UploadMedia, txn_id, upload, uploaded_uri)
            ==> command is UploadMedia && command->data@ == upload && command->content_type@
            == asked.media_content_type@,
        plan::carries_out(command, asked, SmokeTask::DownloadMedia, txn_id, upload, uploaded_uri)
            ==> command is DownloadMedia && (asked.media_download_mxc is None ==> Some(
            command->source@,
        ) == uploaded_uri) && (asked.media_download_mxc is Some ==> command->source@
            == asked.media_download_mxc->0@),
        plan::carries_out(command, asked, SmokeTask::RecoverSecrets, txn_id, upload, uploaded_uri)
            ==> command is RecoverSecrets,
        plan::carries_out(command, asked, SmokeTask::EnableRecovery, txn_id, upload, uploaded_uri)
            ==> command is EnableRecovery,
        plan::carries_out(command, asked, SmokeTask::ResetRecovery, txn_id, upload, uploaded_uri)
            ==> command is ResetRecovery,
        plan::carries_out(command, asked, SmokeTask::ListRooms, txn_id, upload, uploaded_uri)
            <==> command is ListRooms,
        plan::carries_out(command, asked, SmokeTask::StartSync, txn_id, upload, uploaded_uri)
            <==> command is StartSync,
        plan::carries_out(command, asked, SmokeTask::StopSync, txn_id, upload, uploaded_uri)
            <==> command is StopSync,
        plan::carries_out(command, asked, SmokeTask::RestoreSession, txn_id, upload, uploaded_uri)
            <==> command is RestoreSession,
        plan::sends_command(asked, SmokeTask::ListRooms, uploaded_uri),
        plan::sends_command(asked, SmokeTask::Init, uploaded_uri),
        plan::sends_command(asked, SmokeTask::SendDm, uploaded_uri) <==> asked.dm_target is Some,
{
}

/// Transaction IDs of different tasks differ, in whatever run.
pub proof fn lemma_tasks_have_their_own_transactions(nonce: Seq<char>, other: Seq<char>)
    ensures
        plan::txn_prefix(SmokeTask::SendDm) + nonce != plan::txn_prefix(SmokeTask::UploadMedia)
            + other,
        plan::txn_prefix(SmokeTask::UploadMedia) + nonce != plan::txn_prefix(
            SmokeTask::EnableRecovery,
        ) + other,
        plan::txn_prefix(SmokeTask::EnableRecovery) + nonce != plan::txn_prefix(
            SmokeTask::ResetRecovery,
        ) + other,
        nonce != other ==> plan::txn_prefix(SmokeTask::SendDm) + nonce != plan::txn_prefix(
            SmokeTask::SendDm,
        ) + other,
{
    reveal_strlit("smoke-dm-");
    reveal_strlit("smoke-upload-");
    reveal_strlit("smoke-enable-recovery-");
    reveal_strlit("smoke-reset-recovery-");
    assert(("smoke-dm-"@ + nonce)[6] == 'd');
    assert(("smoke-upload-"@ + nonce)[6] == 'u');
    assert(("smoke-upload-"@ + other)[6] == 'u');
    assert(("smoke-enable-recovery-"@ + nonce)[6] == 'e');
    assert(("smoke-enable-recovery-"@ + other)[6] == 'e');
    assert(("smoke-reset-recovery-"@ + other)[6] == 'r');
    let head = "smoke-dm-"@;
    if head + nonce == head + other {
        assert((head + nonce).skip(9) =~= nonce);
        assert((head + other).skip(9) =~= other);
    }
}

/// A fatal error answers every task, as its failure, with the code and the message.
pub proof fn lemma_fatal_error_fails_every_task(
    task: SmokeTask,
    txn_id: Seq<char>,
    code: Seq<char>,
    message: Seq<char>,
    recoverable: bool,
)
    ensures
        ({
            let answer = answers::answer_of(
                task,
                txn_id,
                BackendEventView::FatalError { code, message, recoverable },
            );
            &&& answer is Some
            &&& answer->0 is Err
            &&& text::contains(answer->0->Err_0, code)
            &&& text::contains(answer->0->Err_0, message)
        }),
{
    let first = "fatal backend error ("@;
    let second = "): "@;
    let whole = first + code + second + message;
    assert(whole =~= first + code + (second + message));
    assert(whole =~= (first + code + second) + message + Seq::<char>::empty());
    text_laws::lemma_pattern_within_is_found(first, code, second + message);
    text_laws::lemma_pattern_within_is_found(first + code + second, message, Seq::empty());
}

/// A send is answered by the acknowledgement of its own transaction: with the event ID where it
/// has one, else as a failure. Acknowledgements of other transactions answer nothing, and so do
/// other events.
pub proof fn lemma_acknowledgements_answer_their_task(
    txn_id: Seq<char>,
    other: Seq<char>,
    event_id: Option<Seq<char>>,
    error_code: Option<Seq<char>>,
    rooms: Seq<RoomSummaryView>,
    state: BackendLifecycleState,
    success: bool,
)
    requires
        other != txn_id,
    ensures
        ({
            let own = BackendEventView::SendAck { client_txn_id: txn_id, event_id, error_code };
            let answer = answers::answer_of(SmokeTask::SendDm, txn_id, own);
            &&& answer is Some
            &&& event_id is Some ==> answer->0 == Ok::<AnswerView, Seq<char>>(
                AnswerView::Text(event_id->0),
            )
            &&& event_id is None ==> answer->0 is Err
        }),
        answers::answer_of(
            SmokeTask::SendDm,
            txn_id,
            BackendEventView::SendAck { client_txn_id: other, event_id, error_code },
        ) is None,
        answers::answer_of(
            SmokeTask::SendDm,
            txn_id,
            BackendEventView::RoomListUpdated { rooms },
        ) is None,
        answers::answer_of(
            SmokeTask::ListRooms,
            txn_id,
            BackendEventView::RoomListUpdated { rooms },
        ) == Some(Ok::<AnswerView, Seq<char>>(AnswerView::Rooms(rooms.len()))),
        answers::answer_of(SmokeTask::Init, txn_id, BackendEventView::StateChanged { state })
            is Some <==> state is Configured,
        answers::answer_of(SmokeTask::StartSync, txn_id, BackendEventView::StateChanged { state })
            is Some <==> state is Syncing,
        answers::answer_of(SmokeTask::StopSync, txn_id, BackendEventView::StateChanged { state })
            is Some <==> state is Authenticated,
        ({
            let answer = answers::answer_of(
                SmokeTask::Login,
                txn_id,
                BackendEventView::AuthResult { success, error_code },
            );
            &&& answer is Some
            &&& answer->0 is Ok <==> success
        }),
        ({
            let answer = answers::answer_of(
                SmokeTask::RecoverSecrets,
                txn_id,
                BackendEventView::RecoveryRestoreAck { client_txn_id: txn_id, error_code },
            );
            &&& answer is Some
            &&& answer->0 is Ok <==> error_code is None
        }),
        ({
            let answer = answers::answer_of(
                SmokeTask::UploadMedia,
                txn_id,
                BackendEventView::MediaUploadAck {
                    client_txn_id: txn_id,
                    content_uri: event_id,
                    error_code,
                },
            );
            &&& answer is Some
            &&& answer->0 is Ok <==> event_id is Some
        }),
{
}

/// A failure names what failed and its code, or says that it is unknown.
pub proof fn lemma_failures_name_their_code(what: Seq<char>, code: Seq<char>)
    ensures
        text::contains(answers::failure_text(what, Some(code)), code),
        text::occurs_at(answers::failure_text(what, Some(code)), what, 0),
        answers::failure_text(what, None) == what + " failed with error code: unknown"@,
{
    let middle = " failed with error code: "@;
    let whole = what + middle + code;
    text_laws::lemma_pattern_within_is_found(what + middle, code, Seq::empty());
    assert(whole =~= (what + middle) + code + Seq::<char>::empty());
    assert(whole.subrange(0, what.len() as int) =~= what);
    reveal_strlit(" failed with error code: ");
    reveal_strlit("unknown");
    reveal_strlit(" failed with error code: unknown");
    assert(middle + "unknown"@ =~= " failed with error code: unknown"@);
    assert(what + middle + "unknown"@ =~= what + (middle + "unknown"@));
}

/// A round trip is judged where the same media was downloaded, by its bytes.
pub proof fn lemma_round_trip_is_judged_by_bytes(
    uploaded_uri: &str,
    uploaded: &[u8],
    download_uri: &str,
    downloaded: &[u8],
    line: Option<&'static str>,
)
    requires
        call_ensures(
            answers::round_trip_line,
            (uploaded_uri, uploaded, download_uri, downloaded),
            line,
        ),
    ensures
        line is Some <==> uploaded_uri@ == download_uri@,
        line is Some && uploaded@ == downloaded@ ==> line->0@
            == "Media roundtrip verified: upload and download bytes match."@,
        line is Some && uploaded@ != downloaded@ ==> line->0@
            == "Media roundtrip mismatch: uploaded and downloaded bytes differ."@,
{
}

/// A recovery status is told in full.
pub proof fn lemma_status_line_tells_all(status: RecoveryStatus)
    ensures
        text::contains(
            answers::status_line_text(status),
            crate::desktop::state::backup_state_name(status.backup_state),
        ),
        text::contains(
            answers::status_line_text(status),
            crate::desktop::state::recovery_state_name(status.recovery_state),
        ),
{
    let first = "Recovery status: backup_state="@;
    let backup = crate::desktop::state::backup_state_name(status.backup_state);
    let middle = ", backup_enabled="@ + answers::bool_text(status.backup_enabled)
        + ", backup_exists_on_server="@ + answers::bool_text(status.backup_exists_on_server)
        + ", recovery_state="@;
    let recovery = crate::desktop::state::recovery_state_name(status.recovery_state);
    let whole = answers::status_line_text(status);
    assert(whole =~= first + backup + (middle + recovery));
    assert(whole =~= (first + backup + middle) + recovery + Seq::<char>::empty());
    text_laws::lemma_pattern_within_is_found(first, backup, middle + recovery);
    text_laws::lemma_pattern_within_is_found(first + backup + middle, recovery, Seq::empty());
}

/// Operations are counted by their kind, each once; prepended and replaced items do not count.
pub proof fn lemma_operations_are_counted_by_kind(
    ops: Seq<TimelineOpView>,
    item: TimelineItemView,
    event_id: Seq<char>,
    new_body: Seq<char>,
)
    ensures
        stats::count_of(Seq::empty(), OpKind::Append) == 0,
        stats::count_of(ops.push(TimelineOpView::Append(item)), OpKind::Append)
            == stats::count_of(ops, OpKind::Append) + 1,
        stats::count_of(ops.push(TimelineOpView::Append(item)), OpKind::Remove)
            == stats::count_of(ops, OpKind::Remove),
        stats::count_of(
            ops.push(TimelineOpView::UpdateBody { event_id, new_body }),
            OpKind::Update,
        ) == stats::count_of(ops, OpKind::Update) + 1,
        stats::count_of(ops.push(TimelineOpView::Remove { event_id }), OpKind::Remove)
            == stats::count_of(ops, OpKind::Remove) + 1,
        stats::count_of(ops.push(TimelineOpView::Clear), OpKind::Clear) == stats::count_of(
            ops,
            OpKind::Clear,
        ) + 1,
        stats::count_of(ops.push(TimelineOpView::Prepend(item)), OpKind::Append)
            == stats::count_of(ops, OpKind::Append),
{
    assert(ops.push(TimelineOpView::Append(item)).drop_last() =~= ops);
    assert(ops.push(TimelineOpView::UpdateBody { event_id, new_body }).drop_last() =~= ops);
    assert(ops.push(TimelineOpView::Remove { event_id }).drop_last() =~= ops);
    assert(ops.push(TimelineOpView::Clear).drop_last() =~= ops);
    assert(ops.push(TimelineOpView::Prepend(item)).drop_last() =~= ops);
}

/// Room lists and deltas are counted; with a watched room, deltas of other rooms are not.
pub proof fn lemma_sync_is_counted(
    before: SyncObserveStats,
    after: SyncObserveStats,
    rooms: Seq<RoomSummaryView>,
    room_id: Seq<char>,
    ops: Seq<TimelineOpView>,
    watched: Option<Seq<char>>,
)
    ensures
        stats::counts(before, after, BackendEventView::RoomListUpdated { rooms }, watched)
            ==> after.room_list_updates == before.room_list_updates + 1 && after.timeline_deltas
            == before.timeline_deltas && after.append_ops == before.append_ops,
        stats::counts(before, after, BackendEventView::RoomTimelineDelta { room_id, ops }, watched)
            && (watched is None || watched == Some(room_id)) ==> after.timeline_deltas
            == before.timeline_deltas + 1 && after.append_ops == before.append_ops
            + stats::count_of(ops, OpKind::Append) && after.room_list_updates
            == before.room_list_updates,
        stats::counts(before, after, BackendEventView::RoomTimelineDelta { room_id, ops }, watched)
            && watched is Some && watched != Some(room_id) ==> after == before,
{
}

/// An event is counted as it is, and a fatal error is returned.
pub proof fn lemma_events_are_recorded()
    ensures
        forall|
            counted: &mut SyncObserveStats,
            event: &BackendEvent,
            watched: Option<&str>,
            result: Result<(), String>,
        |
            #[trigger] call_ensures(SyncObserveStats::record, (counted, event, watched), result)
                ==> {
                &&& result is Err <==> event@ is FatalError
                &&& stats::counts(
                    *counted,
                    *final(counted),
                    event@,
                    plan::opt_text(watched),
                )
            },
{
}

/// A task without an answer is told by what was waited for.
pub proof fn lemma_late_answers_are_named()
    ensures
        answers::wait_label(SmokeTask::Init) == "configured"@,
        answers::wait_label(SmokeTask::RestoreSession) == "restore session"@,
        answers::wait_label(SmokeTask::Login) == "password login"@,
        answers::wait_label(SmokeTask::GetRecoveryStatus) == "recovery status"@,
        answers::wait_label(SmokeTask::EnableRecovery) == "recovery enable ack"@,
        answers::wait_label(SmokeTask::ResetRecovery) == "recovery enable ack"@,
        answers::wait_label(SmokeTask::RecoverSecrets) == "recovery restore ack"@,
        answers::wait_label(SmokeTask::ListRooms) == "room list"@,
        answers::wait_label(SmokeTask::StartSync) == "syncing"@,
        answers::wait_label(SmokeTask::StopSync) == "authenticated after stop sync"@,
        answers::wait_label(SmokeTask::SendDm) == "send ack"@,
        answers::wait_label(SmokeTask::UploadMedia) == "media upload ack"@,
        answers::wait_label(SmokeTask::DownloadMedia) == "media download ack"@,
        answers::bool_text(true) == "true"@,
        answers::bool_text(false) == "false"@,
{
}

/// A task sends a command exactly where the settings give what it needs.
pub proof fn lemma_tasks_need_their_settings(
    asked: SmokeSettings,
    uploaded_uri: Option<Seq<char>>,
)
    ensures
        plan::sends_command(asked, SmokeTask::Login, uploaded_uri) <==> asked.user is Some
            && asked.password is Some,
        plan::sends_command(asked, SmokeTask::RecoverSecrets, uploaded_uri)
            <==> asked.recovery_key is Some,
        plan::sends_command(asked, SmokeTask::DownloadMedia, uploaded_uri)
            <==> asked.media_download_mxc is Some || uploaded_uri is Some,
        plan::sends_command(asked, SmokeTask::UploadMedia, uploaded_uri),
        plan::sends_command(asked, SmokeTask::EnableRecovery, uploaded_uri),
        plan::sends_command(asked, SmokeTask::ResetRecovery, uploaded_uri),
        plan::sends_command(asked, SmokeTask::GetRecoveryStatus, uploaded_uri),
        plan::sends_command(asked, SmokeTask::StartSync, uploaded_uri),
        plan::sends_command(asked, SmokeTask::StopSync, uploaded_uri),
        plan::sends_command(asked, SmokeTask::RestoreSession, uploaded_uri),
        !plan::sends_command(asked, SmokeTask::ShowUsage, uploaded_uri),
        !plan::sends_command(asked, SmokeTask::ObserveSync, uploaded_uri),
{
}

/// Tuning is asked for by three variables, and the first that is no number is refused.
pub proof fn lemma_tuning_follows_its_variables(vars: Map<Seq<char>, EnvValue>, number: nat)
    requires
        number <= u16::MAX,
    ensures
        (forall|key: Seq<char>| !vars.dom().contains(key)) ==> settings::tuning_or_error(vars)
            is Ok && settings::tuning_or_error(vars)->Ok_0 is None,
        settings::tuning_or_error(vars) is Ok && vars.dom().contains(
            "PIKACHAT_SYNC_REQUEST_TIMEOUT_MS"@,
        ) && vars["PIKACHAT_SYNC_REQUEST_TIMEOUT_MS"@] is Text
            && vars["PIKACHAT_SYNC_REQUEST_TIMEOUT_MS"@]->Text_0@ == text::decimal(number) ==> {
            &&& settings::tuning_or_error(vars)->Ok_0 is Some
            &&& settings::tuning_or_error(vars)->Ok_0->0.sync_request_timeout_ms == Some(
                number as u64,
            )
        },
        settings::tuning_or_error(vars) is Ok && vars.dom().contains("PIKACHAT_OPEN_ROOM_LIMIT"@)
            && vars["PIKACHAT_OPEN_ROOM_LIMIT"@] is Text
            && vars["PIKACHAT_OPEN_ROOM_LIMIT"@]->Text_0@ == text::decimal(number) ==> {
            &&& settings::tuning_or_error(vars)->Ok_0 is Some
            &&& settings::tuning_or_error(vars)->Ok_0->0.default_open_room_limit == Some(
                number as u16,
            )
        },
        settings::tuning_or_error(vars) is Ok && vars.dom().contains(
            "PIKACHAT_PAGINATION_LIMIT_CAP"@,
        ) && vars["PIKACHAT_PAGINATION_LIMIT_CAP"@] is Text
            && vars["PIKACHAT_PAGINATION_LIMIT_CAP"@]->Text_0@ == text::decimal(number) ==> {
            &&& settings::tuning_or_error(vars)->Ok_0 is Some
            &&& settings::tuning_or_error(vars)->Ok_0->0.pagination_limit_cap == Some(
                number as u16,
            )
        },
{
    text_laws::lemma_written_number_is_read(number, u64::MAX as nat);
    text_laws::lemma_written_number_is_read(number, u16::MAX as nat);
}

} // verus!
