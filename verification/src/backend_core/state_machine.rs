//! Backend lifecycle state machine.
use vstd::prelude::*;

use super::error::{self, BackendError};
use super::types::{self, BackendCommand, BackendEvent, BackendEventView, BackendLifecycleState};

verus! {

/// What a command does to the lifecycle state.
pub enum Transition {
    /// The state changes.
    Moves { next: BackendLifecycleState },
    /// The command is accepted and the state stays as it is.
    Stays,
    /// The state does not allow the command; `action` names it in the error.
    Refused { action: Seq<char> },
}

/// The lifecycle rules: what `command` does in state `state`.
pub open spec fn transition(state: BackendLifecycleState, command: BackendCommand) -> Transition {
    match command {
        BackendCommand::Init { .. } => if state is Cold || state is Configured
            || state is LoggedOut {
            Transition::Moves { next: BackendLifecycleState::Configured }
        } else {
            Transition::Refused { action: "init"@ }
        },
        BackendCommand::LoginPassword { .. } | BackendCommand::RestoreSession => if state
            is Configured || state is LoggedOut {
            Transition::Moves { next: BackendLifecycleState::Authenticating }
        } else {
            Transition::Refused { action: "login_or_restore"@ }
        },
        BackendCommand::StartSync => if state is Authenticated {
            Transition::Moves { next: BackendLifecycleState::Syncing }
        } else {
            Transition::Refused { action: "start_sync"@ }
        },
        BackendCommand::StopSync => if state is Syncing {
            Transition::Moves { next: BackendLifecycleState::Authenticated }
        } else {
            Transition::Refused { action: "stop_sync"@ }
        },
        BackendCommand::Logout => if state is Configured || state is Authenticating || state
            is Authenticated || state is Syncing {
            Transition::Moves { next: BackendLifecycleState::LoggedOut }
        } else {
            Transition::Refused { action: "logout"@ }
        },
        _ => if state.is_signed_in() {
            Transition::Stays
        } else {
            Transition::Refused { action: "room/timeline command"@ }
        },
    }
}

/// The state after `command`: refused commands leave it as it is.
pub open spec fn state_after(
    state: BackendLifecycleState,
    command: BackendCommand,
) -> BackendLifecycleState {
    match transition(state, command) {
        Transition::Moves { next } => next,
        _ => state,
    }
}

/// The answer to `command` in state `state`: the events to emit or the error.
pub open spec fn answers(
    state: BackendLifecycleState,
    command: BackendCommand,
    result: Result<Vec<BackendEvent>, BackendError>,
) -> bool {
    match transition(state, command) {
        Transition::Moves { next } => result matches Ok(events) && types::event_views(events@)
            == seq![BackendEventView::StateChanged { state: next }],
        Transition::Stays => result matches Ok(events) && events@.len() == 0,
        Transition::Refused { action } => result matches Err(failure) && failure@
            == error::invalid_state_error(state, action),
    }
}

/// Deterministic backend lifecycle transition guard.
#[derive(Debug, Clone, Copy)]
pub struct BackendStateMachine {
    state: BackendLifecycleState,
}

impl Default for BackendStateMachine {
    fn default() -> (machine: Self)
        ensures
            machine.current() is Cold,
    {
        BackendStateMachine { state: BackendLifecycleState::Cold }
    }
}

impl BackendStateMachine {
    /// Current backend lifecycle state.
    pub closed spec fn current(self) -> BackendLifecycleState {
        self.state
    }

    /// Current backend lifecycle state.
    pub fn state(&self) -> (state: BackendLifecycleState)
        ensures
            state == self.current(),
    {
        self.state
    }

    /// Apply a command transition and return state-change events to emit.
    ///
    /// Commands that do not transition state return an empty event vector.
    pub fn apply(&mut self, command: &BackendCommand) -> (result: Result<
        Vec<BackendEvent>,
        BackendError,
    >)
        ensures
            answers(old(self).current(), *command, result),
            final(self).current() == state_after(old(self).current(), *command),
    {
        match command {
            BackendCommand::Init { .. } => {
                let allowed = match self.state {
                    BackendLifecycleState::Cold
                    | BackendLifecycleState::Configured
                    | BackendLifecycleState::LoggedOut => true,
                    _ => false,
                };
                self.transition_if(allowed, BackendLifecycleState::Configured, "init")
            },
            BackendCommand::LoginPassword { .. } | BackendCommand::RestoreSession => {
                let allowed = match self.state {
                    BackendLifecycleState::Configured | BackendLifecycleState::LoggedOut => true,
                    _ => false,
                };
                self.transition_if(
                    allowed,
                    BackendLifecycleState::Authenticating,
                    "login_or_restore",
                )
            },
            BackendCommand::StartSync => {
                let allowed = self.state == BackendLifecycleState::Authenticated;
                self.transition_if(allowed, BackendLifecycleState::Syncing, "start_sync")
            },
            BackendCommand::StopSync => {
                let allowed = self.state == BackendLifecycleState::Syncing;
                self.transition_if(allowed, BackendLifecycleState::Authenticated, "stop_sync")
            },
            BackendCommand::Logout => {
                let allowed = match self.state {
                    BackendLifecycleState::Configured
                    | BackendLifecycleState::Authenticating
                    | BackendLifecycleState::Authenticated
                    | BackendLifecycleState::Syncing => true,
                    _ => false,
                };
                self.transition_if(allowed, BackendLifecycleState::LoggedOut, "logout")
            },
            BackendCommand::ListRooms
            | BackendCommand::AcceptRoomInvite { .. }
            | BackendCommand::RejectRoomInvite { .. }
            | BackendCommand::OpenRoom { .. }
            | BackendCommand::PaginateBack { .. }
            | BackendCommand::SendDmText { .. }
            | BackendCommand::SendMessage { .. }
            | BackendCommand::EditMessage { .. }
            | BackendCommand::RedactMessage { .. }
            | BackendCommand::UploadMedia { .. }
            | BackendCommand::DownloadMedia { .. }
            | BackendCommand::GetRecoveryStatus
            | BackendCommand::EnableRecovery { .. }
            | BackendCommand::ResetRecovery { .. }
            | BackendCommand::RecoverSecrets { .. } => {
                if self.is_authenticated_context() {
                    Ok(Vec::new())
                } else {
                    Err(BackendError::invalid_state(self.state, "room/timeline command"))
                }
            },
        }
    }

    /// Resolve an auth attempt and transition out of `Authenticating`.
    pub fn on_auth_result(&mut self, success: bool) -> (result: Result<BackendEvent, BackendError>)
        ensures
            match old(self).current() {
                BackendLifecycleState::Authenticating => {
                    let next = if success {
                        BackendLifecycleState::Authenticated
                    } else {
                        BackendLifecycleState::Configured
                    };
                    &&& result matches Ok(event)
                    &&& event@ == (BackendEventView::StateChanged { state: next })
                    &&& final(self).current() == next
                },
                state => {
                    &&& result matches Err(failure)
                    &&& failure@ == error::invalid_state_error(state, "on_auth_result"@)
                    &&& final(self).current() == state
                },
            },
    {
        if self.state != BackendLifecycleState::Authenticating {
            return Err(BackendError::invalid_state(self.state, "on_auth_result"));
        }
        let next = if success {
            BackendLifecycleState::Authenticated
        } else {
            BackendLifecycleState::Configured
        };
        self.state = next;
        Ok(BackendEvent::StateChanged { state: next })
    }

    /// Force state machine into fatal state.
    pub fn on_fatal(&mut self) -> (event: BackendEvent)
        ensures
            final(self).current() is Fatal,
            event@ == (BackendEventView::StateChanged { state: BackendLifecycleState::Fatal }),
    {
        self.state = BackendLifecycleState::Fatal;
        BackendEvent::StateChanged { state: BackendLifecycleState::Fatal }
    }

    fn is_authenticated_context(&self) -> (yes: bool)
        ensures
            yes == self.current().is_signed_in(),
    {
        match self.state {
            BackendLifecycleState::Authenticated | BackendLifecycleState::Syncing => true,
            _ => false,
        }
    }

    fn transition_if(
        &mut self,
        allowed: bool,
        next: BackendLifecycleState,
        action: &str,
    ) -> (result: Result<Vec<BackendEvent>, BackendError>)
        ensures
            allowed ==> final(self).current() == next && (result matches Ok(events)
                && types::event_views(events@) == seq![
                BackendEventView::StateChanged { state: next },
            ]),
            !allowed ==> final(self).current() == old(self).current() && (result matches Err(
                failure,
            ) && failure@ == error::invalid_state_error(old(self).current(), action@)),
    {
        if !allowed {
            return Err(BackendError::invalid_state(self.state, action));
        }
        self.state = next;
        let mut events: Vec<BackendEvent> = Vec::new();
        events.push(BackendEvent::StateChanged { state: next });
        proof {
            assert(types::event_views(events@) =~= seq![
                BackendEventView::StateChanged { state: next },
            ]);
        }
        Ok(events)
    }
}

/// No command leaves the fatal state.
pub proof fn lemma_fatal_refuses_every_command(command: BackendCommand)
    ensures
        transition(BackendLifecycleState::Fatal, command) is Refused,
        state_after(BackendLifecycleState::Fatal, command) is Fatal,
{
}

/// No command reaches the fatal state from another one.
pub proof fn lemma_commands_never_reach_fatal(
    state: BackendLifecycleState,
    command: BackendCommand,
)
    ensures
        state_after(state, command) is Fatal ==> state is Fatal,
{
}

/// `StopSync` undoes `StartSync`: where sync can be started, starting and
/// stopping it leads back.
pub proof fn lemma_stop_sync_undoes_start_sync(state: BackendLifecycleState)
    requires
        transition(state, BackendCommand::StartSync) is Moves,
    ensures
        state_after(
            state_after(state, BackendCommand::StartSync),
            BackendCommand::StopSync,
        ) == state,
{
}

/// After any accepted `Logout`, `Init` is accepted again and configures the backend.
pub proof fn lemma_init_works_after_logout(state: BackendLifecycleState, init: BackendCommand)
    requires
        init is Init,
        transition(state, BackendCommand::Logout) is Moves,
    ensures
        state_after(state_after(state, BackendCommand::Logout), init)
            is Configured,
{
}

/// Room, timeline, media and recovery commands never change the state, and are
/// accepted exactly while the user is signed in.
pub proof fn lemma_room_commands_keep_state(state: BackendLifecycleState, command: BackendCommand)
    requires
        !(command is Init || command is LoginPassword || command is RestoreSession || command
            is StartSync || command is StopSync || command is Logout),
    ensures
        state_after(state, command) == state,
        transition(state, command) is Refused <==> !state.is_signed_in(),
{
}

} // verus!
