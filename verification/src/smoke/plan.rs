//! What the smoke harness does, in which order, and with which commands.
use vstd::prelude::*;

use super::settings::SmokeSettings;
use crate::backend_core::state_machine;
use crate::backend_core::types::{self, BackendCommand, BackendLifecycleState};

verus! {

/// A step of the harness.
#[derive(Debug, Clone, Copy, PartialEq, Eq, Structural)]
pub enum SmokeTask {
    /// Initialize the backend.
    Init,
    /// Restore a persisted session.
    RestoreSession,
    /// Log in with a password.
    Login,
    /// Say which variables to set.
    ShowUsage,
    /// Show the recovery status.
    GetRecoveryStatus,
    /// Enable recovery.
    EnableRecovery,
    /// Reset recovery.
    ResetRecovery,
    /// Restore secrets with a recovery key.
    RecoverSecrets,
    /// Load the room list.
    ListRooms,
    /// Start sync.
    StartSync,
    /// Count what sync brings.
    ObserveSync,
    /// Stop sync.
    StopSync,
    /// Send a DM.
    SendDm,
    /// Upload a file.
    UploadMedia,
    /// Download media.
    DownloadMedia,
}

/// Tasks with one more, where it is asked for.
pub open spec fn and_when(before: Seq<SmokeTask>, asked: bool, task: SmokeTask) -> Seq<SmokeTask> {
    if asked { before.push(task) } else { before }
}

/// Whether the harness has an account to work with.
pub open spec fn can_sign_in(settings: SmokeSettings) -> bool {
    settings.restore_session || settings.user is Some && settings.password is Some
}

/// Tasks up to the authentication.
pub open spec fn first_tasks(settings: SmokeSettings) -> Seq<SmokeTask> {
    seq![
        SmokeTask::Init,
        if settings.restore_session {
            SmokeTask::RestoreSession
        } else if can_sign_in(settings) {
            SmokeTask::Login
        } else {
            SmokeTask::ShowUsage
        },
    ]
}

/// Tasks up to the room list.
pub open spec fn with_recovery(before: Seq<SmokeTask>, settings: SmokeSettings) -> Seq<SmokeTask> {
    let status = and_when(before, settings.get_recovery_status, SmokeTask::GetRecoveryStatus);
    let enabled = and_when(status, settings.enable_recovery, SmokeTask::EnableRecovery);
    let reset = and_when(enabled, settings.reset_recovery, SmokeTask::ResetRecovery);
    let restored = and_when(reset, settings.recovery_key is Some, SmokeTask::RecoverSecrets);
    restored.push(SmokeTask::ListRooms)
}

/// Tasks up to the end of sync.
pub open spec fn with_sync(before: Seq<SmokeTask>, settings: SmokeSettings) -> Seq<SmokeTask> {
    if settings.start_sync {
        before.push(SmokeTask::StartSync).push(SmokeTask::ObserveSync).push(SmokeTask::StopSync)
    } else {
        before
    }
}

/// Tasks up to the end.
pub open spec fn with_messages(before: Seq<SmokeTask>, settings: SmokeSettings) -> Seq<SmokeTask> {
    let sent = and_when(before, settings.dm_target is Some, SmokeTask::SendDm);
    let uploaded = and_when(sent, settings.media_upload_file is Some, SmokeTask::UploadMedia);
    and_when(
        uploaded,
        settings.media_download_mxc is Some || settings.media_upload_file is Some,
        SmokeTask::DownloadMedia,
    )
}

/// All tasks, in their order.
pub open spec fn tasks(settings: SmokeSettings) -> Seq<SmokeTask> {
    if can_sign_in(settings) {
        with_messages(with_sync(with_recovery(first_tasks(settings), settings), settings), settings)
    } else {
        first_tasks(settings)
    }
}

fn push_when(tasks: &mut Vec<SmokeTask>, asked: bool, task: SmokeTask)
    ensures
        final(tasks)@ == and_when(old(tasks)@, asked, task),
{
    if asked {
        tasks.push(task);
    }
}

/// All tasks, in their order.
pub fn smoke_tasks(settings: &SmokeSettings) -> (result: Vec<SmokeTask>)
    ensures
        result@ == tasks(*settings),
{
    let has_account = settings.user.is_some() && settings.password.is_some();
    let mut result: Vec<SmokeTask> = Vec::new();
    result.push(SmokeTask::Init);
    result.push(
        if settings.restore_session {
            SmokeTask::RestoreSession
        } else if has_account {
            SmokeTask::Login
        } else {
            SmokeTask::ShowUsage
        },
    );
    proof {
        assert(result@ =~= first_tasks(*settings));
    }
    if !settings.restore_session && !has_account {
        return result;
    }
    push_when(&mut result, settings.get_recovery_status, SmokeTask::GetRecoveryStatus);
    push_when(&mut result, settings.enable_recovery, SmokeTask::EnableRecovery);
    push_when(&mut result, settings.reset_recovery, SmokeTask::ResetRecovery);
    push_when(&mut result, settings.recovery_key.is_some(), SmokeTask::RecoverSecrets);
    result.push(SmokeTask::ListRooms);
    if settings.start_sync {
        result.push(SmokeTask::StartSync);
        result.push(SmokeTask::ObserveSync);
        result.push(SmokeTask::StopSync);
    }
    push_when(&mut result, settings.dm_target.is_some(), SmokeTask::SendDm);
    push_when(&mut result, settings.media_upload_file.is_some(), SmokeTask::UploadMedia);
    push_when(
        &mut result,
        settings.media_download_mxc.is_some() || settings.media_upload_file.is_some(),
        SmokeTask::DownloadMedia,
    );
    result
}

/// How the transaction IDs of a task begin.
pub open spec fn txn_prefix(task: SmokeTask) -> Seq<char> {
    match task {
        SmokeTask::EnableRecovery => "smoke-enable-recovery-"@,
        SmokeTask::ResetRecovery => "smoke-reset-recovery-"@,
        SmokeTask::RecoverSecrets => "smoke-recover-secrets-"@,
        SmokeTask::SendDm => "smoke-dm-"@,
        SmokeTask::UploadMedia => "smoke-upload-"@,
        SmokeTask::DownloadMedia => "smoke-download-"@,
        _ => ""@,
    }
}

/// Transaction ID of a task; `nonce` tells runs of the harness apart.
pub fn task_txn_id(task: SmokeTask, nonce: &str) -> (txn_id: String)
    ensures
        txn_id@ == txn_prefix(task) + nonce@,
{
    let mut txn_id: String = match task {
        SmokeTask::EnableRecovery => "smoke-enable-recovery-",
        SmokeTask::ResetRecovery => "smoke-reset-recovery-",
        SmokeTask::RecoverSecrets => "smoke-recover-secrets-",
        SmokeTask::SendDm => "smoke-dm-",
        SmokeTask::UploadMedia => "smoke-upload-",
        SmokeTask::DownloadMedia => "smoke-download-",
        _ => "",
    }.to_owned();
    txn_id.append(nonce);
    txn_id
}

/// Media that is downloaded: that which was asked for, or that which was uploaded.
pub open spec fn download_source(
    settings: SmokeSettings,
    uploaded_uri: Option<Seq<char>>,
) -> Option<Seq<char>> {
    match settings.media_download_mxc {
        Some(source) => Some(source@),
        None => uploaded_uri,
    }
}

/// Media that is downloaded: that which was asked for, or that which was uploaded.
pub fn download_uri(settings: &SmokeSettings, uploaded_uri: Option<&str>) -> (source: Option<
    String,
>)
    ensures
        types::opt_chars(source) == download_source(*settings, opt_text(uploaded_uri)),
{
    match &settings.media_download_mxc {
        Some(source) => Some(source.clone()),
        None => match uploaded_uri {
            Some(source) => Some(source.to_owned()),
            None => None,
        },
    }
}

/// What a text is, where there is one.
pub open spec fn opt_text(text: Option<&str>) -> Option<Seq<char>> {
    match text {
        Some(text) => Some(text@),
        None => None,
    }
}

/// Whether a command is that of a task.
pub open spec fn carries_out(
    command: BackendCommand,
    settings: SmokeSettings,
    task: SmokeTask,
    txn_id: Seq<char>,
    upload: Seq<u8>,
    uploaded_uri: Option<Seq<char>>,
) -> bool {
    match task {
        SmokeTask::Init => command matches BackendCommand::Init { homeserver, data_dir, config }
            && homeserver@ == settings.homeserver@ && data_dir@ == settings.data_dir@ && config
            == settings.init_config,
        SmokeTask::RestoreSession => command is RestoreSession,
        SmokeTask::Login => command matches BackendCommand::LoginPassword {
            user_id_or_localpart,
            password,
            persist_session,
        } && settings.user matches Some(user) && settings.password matches Some(secret)
            && user_id_or_localpart@ == user@ && password@ == secret@ && persist_session,
        SmokeTask::GetRecoveryStatus => command is GetRecoveryStatus,
        SmokeTask::EnableRecovery => command matches BackendCommand::EnableRecovery {
            client_txn_id,
            passphrase,
            wait_for_backups_to_upload,
        } && client_txn_id@ == txn_id && types::opt_chars(passphrase) == types::opt_chars(
            settings.recovery_passphrase,
        ) && wait_for_backups_to_upload == settings.wait_recovery_upload,
        SmokeTask::ResetRecovery => command matches BackendCommand::ResetRecovery {
            client_txn_id,
            passphrase,
            wait_for_backups_to_upload,
        } && client_txn_id@ == txn_id && types::opt_chars(passphrase) == types::opt_chars(
            settings.recovery_passphrase,
        ) && wait_for_backups_to_upload == settings.wait_recovery_upload,
        SmokeTask::RecoverSecrets => command matches BackendCommand::RecoverSecrets {
            client_txn_id,
            recovery_key,
        } && client_txn_id@ == txn_id && Some(recovery_key@) == types::opt_chars(
            settings.recovery_key,
        ),
        SmokeTask::ListRooms => command is ListRooms,
        SmokeTask::StartSync => command is StartSync,
        SmokeTask::StopSync => command is StopSync,
        SmokeTask::SendDm => command matches BackendCommand::SendDmText {
            user_id,
            client_txn_id,
            body,
        } && client_txn_id@ == txn_id && Some(user_id@) == types::opt_chars(settings.dm_target)
            && body@ == settings.dm_body@,
        SmokeTask::UploadMedia => command matches BackendCommand::UploadMedia {
            client_txn_id,
            content_type,
            data,
        } && client_txn_id@ == txn_id && content_type@ == settings.media_content_type@ && data@
            == upload,
        SmokeTask::DownloadMedia => command matches BackendCommand::DownloadMedia {
            client_txn_id,
            source,
        } && client_txn_id@ == txn_id && Some(source@) == download_source(settings, uploaded_uri),
        SmokeTask::ShowUsage | SmokeTask::ObserveSync => false,
    }
}

/// Whether a task sends a command, given what was uploaded.
pub open spec fn sends_command(
    settings: SmokeSettings,
    task: SmokeTask,
    uploaded_uri: Option<Seq<char>>,
) -> bool {
    match task {
        SmokeTask::ShowUsage | SmokeTask::ObserveSync => false,
        SmokeTask::Login => settings.user is Some && settings.password is Some,
        SmokeTask::RecoverSecrets => settings.recovery_key is Some,
        SmokeTask::SendDm => settings.dm_target is Some,
        SmokeTask::DownloadMedia => download_source(settings, uploaded_uri) is Some,
        _ => true,
    }
}

/// The command of a task, where it sends one: `upload` are the bytes of the file to upload, and
/// `uploaded_uri` is where they went.
pub fn task_command(
    settings: &SmokeSettings,
    task: SmokeTask,
    txn_id: &str,
    upload: &Vec<u8>,
    uploaded_uri: Option<&str>,
) -> (command: Option<BackendCommand>)
    ensures
        match command {
            Some(command) => sends_command(*settings, task, opt_text(uploaded_uri))
                && carries_out(
                command,
                *settings,
                task,
                txn_id@,
                upload@,
                opt_text(uploaded_uri),
            ),
            None => !sends_command(*settings, task, opt_text(uploaded_uri)),
        },
{
    let client_txn_id: String = txn_id.to_owned();
    match task {
        SmokeTask::Init => Some(
            BackendCommand::Init {
                homeserver: settings.homeserver.clone(),
                data_dir: settings.data_dir.clone(),
                config: settings.init_config,
            },
        ),
        SmokeTask::RestoreSession => Some(BackendCommand::RestoreSession),
        SmokeTask::Login => match (&settings.user, &settings.password) {
            (Some(user), Some(password)) => Some(
                BackendCommand::LoginPassword {
                    user_id_or_localpart: user.clone(),
                    password: password.clone(),
                    persist_session: true,
                },
            ),
            _ => None,
        },
        SmokeTask::GetRecoveryStatus => Some(BackendCommand::GetRecoveryStatus),
        SmokeTask::EnableRecovery => Some(
            BackendCommand::EnableRecovery {
                client_txn_id,
                passphrase: types::clone_opt_string(&settings.recovery_passphrase),
                wait_for_backups_to_upload: settings.wait_recovery_upload,
            },
        ),
        SmokeTask::ResetRecovery => Some(
            BackendCommand::ResetRecovery {
                client_txn_id,
                passphrase: types::clone_opt_string(&settings.recovery_passphrase),
                wait_for_backups_to_upload: settings.wait_recovery_upload,
            },
        ),
        SmokeTask::RecoverSecrets => match &settings.recovery_key {
            Some(recovery_key) => Some(
                BackendCommand::RecoverSecrets {
                    client_txn_id,
                    recovery_key: recovery_key.clone(),
                },
            ),
            None => None,
        },
        SmokeTask::ListRooms => Some(BackendCommand::ListRooms),
        SmokeTask::StartSync => Some(BackendCommand::StartSync),
        SmokeTask::StopSync => Some(BackendCommand::StopSync),
        SmokeTask::SendDm => match &settings.dm_target {
            Some(target) => Some(
                BackendCommand::SendDmText {
                    user_id: target.clone(),
                    client_txn_id,
                    body: settings.dm_body.clone(),
                },
            ),
            None => None,
        },
        SmokeTask::UploadMedia => Some(
            BackendCommand::UploadMedia {
                client_txn_id,
                content_type: settings.media_content_type.clone(),
                data: copy_bytes(upload),
            },
        ),
        SmokeTask::DownloadMedia => match download_uri(settings, uploaded_uri) {
            Some(source) => Some(BackendCommand::DownloadMedia { client_txn_id, source }),
            None => None,
        },
        SmokeTask::ShowUsage | SmokeTask::ObserveSync => None,
    }
}

fn copy_bytes(bytes: &Vec<u8>) -> (copy: Vec<u8>)
    ensures
        copy@ == bytes@,
{
    let mut copy: Vec<u8> = Vec::new();
    let mut at: usize = 0;
    while at < bytes.len()
        invariant
            at <= bytes@.len(),
            copy@ == bytes@.take(at as int),
        decreases bytes@.len() - at,
    {
        copy.push(bytes[at]);
        at += 1;
        proof {
            assert(copy@ =~= bytes@.take(at as int));
        }
    }
    proof {
        assert(copy@ =~= bytes@);
    }
    copy
}

/// Whether the lifecycle allows a task in a state.
pub open spec fn is_allowed(state: BackendLifecycleState, task: SmokeTask) -> bool {
    match task {
        SmokeTask::Init => state is Cold,
        SmokeTask::RestoreSession | SmokeTask::Login => state is Configured,
        SmokeTask::ShowUsage => true,
        SmokeTask::StartSync => state is Authenticated,
        SmokeTask::ObserveSync | SmokeTask::StopSync => state is Syncing,
        _ => state.is_signed_in(),
    }
}

/// Lifecycle state of the backend once a task was answered as it should be.
pub open spec fn state_when_done(state: BackendLifecycleState, task: SmokeTask) -> BackendLifecycleState {
    match task {
        SmokeTask::Init => BackendLifecycleState::Configured,
        SmokeTask::RestoreSession | SmokeTask::Login => BackendLifecycleState::Authenticated,
        SmokeTask::StartSync => BackendLifecycleState::Syncing,
        SmokeTask::StopSync => BackendLifecycleState::Authenticated,
        _ => state,
    }
}

/// Lifecycle state of the backend behind some tasks, where all of them are allowed and were
/// answered as they should be.
pub open spec fn state_behind(plan: Seq<SmokeTask>) -> Option<BackendLifecycleState>
    decreases plan.len(),
{
    if plan.len() == 0 {
        Some(BackendLifecycleState::Cold)
    } else {
        match state_behind(plan.drop_last()) {
            Some(state) => if is_allowed(state, plan.last()) {
                Some(state_when_done(state, plan.last()))
            } else {
                None
            },
            None => None,
        }
    }
}

proof fn lemma_one_more_task(before: Seq<SmokeTask>, task: SmokeTask)
    requires
        state_behind(before) is Some,
        is_allowed(state_behind(before)->0, task),
    ensures
        state_behind(before.push(task)) == Some(state_when_done(state_behind(before)->0, task)),
{
    assert(before.push(task).drop_last() =~= before);
}

proof fn lemma_task_when(before: Seq<SmokeTask>, asked: bool, task: SmokeTask)
    requires
        state_behind(before) == Some(BackendLifecycleState::Authenticated),
        is_allowed(BackendLifecycleState::Authenticated, task),
        state_when_done(BackendLifecycleState::Authenticated, task)
            == BackendLifecycleState::Authenticated,
    ensures
        state_behind(and_when(before, asked, task)) == Some(BackendLifecycleState::Authenticated),
{
    lemma_one_more_task(before, task);
}

/// The backend's lifecycle allows every task where it stands, and a run that is answered as it
/// should be ends signed in, with sync stopped, or, without an account, configured.
pub proof fn lemma_every_task_is_allowed(settings: SmokeSettings)
    ensures
        state_behind(tasks(settings)) == Some(
            if can_sign_in(settings) {
                BackendLifecycleState::Authenticated
            } else {
                BackendLifecycleState::Configured
            },
        ),
{
    let s = settings;
    let first = first_tasks(s);
    assert(first =~= Seq::<SmokeTask>::empty().push(SmokeTask::Init).push(first[1]));
    lemma_one_more_task(Seq::empty(), SmokeTask::Init);
    lemma_one_more_task(Seq::<SmokeTask>::empty().push(SmokeTask::Init), first[1]);
    if can_sign_in(s) {
        let status = and_when(first, s.get_recovery_status, SmokeTask::GetRecoveryStatus);
        lemma_task_when(first, s.get_recovery_status, SmokeTask::GetRecoveryStatus);
        let enabled = and_when(status, s.enable_recovery, SmokeTask::EnableRecovery);
        lemma_task_when(status, s.enable_recovery, SmokeTask::EnableRecovery);
        let reset = and_when(enabled, s.reset_recovery, SmokeTask::ResetRecovery);
        lemma_task_when(enabled, s.reset_recovery, SmokeTask::ResetRecovery);
        let restored = and_when(reset, s.recovery_key is Some, SmokeTask::RecoverSecrets);
        lemma_task_when(reset, s.recovery_key is Some, SmokeTask::RecoverSecrets);
        lemma_one_more_task(restored, SmokeTask::ListRooms);
        let listed = with_recovery(first, s);
        lemma_one_more_task(listed, SmokeTask::StartSync);
        let syncing = listed.push(SmokeTask::StartSync);
        lemma_one_more_task(syncing, SmokeTask::ObserveSync);
        lemma_one_more_task(syncing.push(SmokeTask::ObserveSync), SmokeTask::StopSync);
        let synced = with_sync(listed, s);
        lemma_task_when(synced, s.dm_target is Some, SmokeTask::SendDm);
        let sent = and_when(synced, s.dm_target is Some, SmokeTask::SendDm);
        lemma_task_when(sent, s.media_upload_file is Some, SmokeTask::UploadMedia);
        let uploaded = and_when(sent, s.media_upload_file is Some, SmokeTask::UploadMedia);
        lemma_task_when(
            uploaded,
            s.media_download_mxc is Some || s.media_upload_file is Some,
            SmokeTask::DownloadMedia,
        );
    }
}

/// Where a task is allowed, the backend does not refuse its command.
pub proof fn lemma_allowed_commands_are_accepted(
    settings: SmokeSettings,
    state: BackendLifecycleState,
    task: SmokeTask,
    command: BackendCommand,
    txn_id: Seq<char>,
    upload: Seq<u8>,
    uploaded_uri: Option<Seq<char>>,
)
    requires
        is_allowed(state, task),
        carries_out(command, settings, task, txn_id, upload, uploaded_uri),
    ensures
        state_machine::transition(state, command) !is Refused,
{
}

/// Without an account nothing is sent but the initialization.
pub proof fn lemma_no_account_sends_nothing(settings: SmokeSettings)
    requires
        !can_sign_in(settings),
    ensures
        tasks(settings) == seq![SmokeTask::Init, SmokeTask::ShowUsage],
{
}

} // verus!
