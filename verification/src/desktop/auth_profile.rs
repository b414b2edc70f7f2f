//! Persisted login metadata used by desktop login/session restore flow.
use vstd::prelude::*;

use crate::backend_matrix::local_files::{FileRead, FileWrite};

verus! {

/// Non-secret login metadata remembered between app launches.
#[derive(Debug, PartialEq, Eq)]
pub struct AuthProfile {
    /// Last homeserver used by the desktop login flow.
    pub homeserver: String,
    /// Last Matrix user ID used by the desktop login flow.
    pub user_id: String,
    /// Whether session restore should be attempted on startup.
    pub remember_password: bool,
}

impl Clone for AuthProfile {
    fn clone(&self) -> (copy: Self)
        ensures
            copy.homeserver@ == self.homeserver@,
            copy.user_id@ == self.user_id@,
            copy.remember_password == self.remember_password,
    {
        AuthProfile {
            homeserver: self.homeserver.clone(),
            user_id: self.user_id.clone(),
            remember_password: self.remember_password,
        }
    }
}

/// What is done with a profile's file.
#[derive(Debug, Clone, Copy, PartialEq, Eq, Structural)]
pub enum ProfileStep {
    /// Read the file.
    Reading,
    /// Decode what it holds.
    Parsing,
    /// Make its directory.
    CreatingDirectory,
    /// Write the file.
    Writing,
    /// Remove the file.
    Deleting,
}

/// How a message about a failed step begins.
pub open spec fn step_text(step: ProfileStep) -> Seq<char> {
    match step {
        ProfileStep::Reading => "failed reading auth profile "@,
        ProfileStep::Parsing => "failed parsing auth profile "@,
        ProfileStep::CreatingDirectory => "failed creating auth profile directory "@,
        ProfileStep::Writing => "failed writing auth profile "@,
        ProfileStep::Deleting => "failed deleting auth profile "@,
    }
}

/// Message about a failed step.
pub open spec fn step_error(step: ProfileStep, path: Seq<char>, reason: Seq<char>) -> Seq<char> {
    step_text(step) + path + ": "@ + reason
}

/// Message about a failed step.
pub fn profile_error(step: ProfileStep, path: &str, reason: &str) -> (message: String)
    ensures
        message@ == step_error(step, path@, reason@),
{
    let mut message: String = match step {
        ProfileStep::Reading => "failed reading auth profile ",
        ProfileStep::Parsing => "failed parsing auth profile ",
        ProfileStep::CreatingDirectory => "failed creating auth profile directory ",
        ProfileStep::Writing => "failed writing auth profile ",
        ProfileStep::Deleting => "failed deleting auth profile ",
    }.to_owned();
    message.append(path);
    message.append(": ");
    message.append(reason);
    message
}

/// Text of the profile's file when available, as it was read.
pub fn load_auth_profile(path: &str, read: FileRead) -> (result: Result<Option<String>, String>)
    ensures
        match read {
            FileRead::Text(text) => result == Ok::<_, String>(Some(text)),
            FileRead::Missing => result matches Ok(None),
            FileRead::Failed(reason) => result matches Err(message) && message@ == step_error(
                ProfileStep::Reading,
                path@,
                reason@,
            ),
        },
{
    match read {
        FileRead::Text(text) => Ok(Some(text)),
        FileRead::Missing => Ok(None),
        FileRead::Failed(reason) => Err(
            profile_error(ProfileStep::Reading, path, reason.as_str()),
        ),
    }
}

/// Outcome of saving a profile whose file was written as told.
pub fn save_auth_profile(path: &str, write: FileWrite) -> (result: Result<(), String>)
    ensures
        match write {
            FileWrite::Done => result is Ok,
            FileWrite::DirectoryFailed { dir, reason } => result matches Err(message) && message@
                == step_error(ProfileStep::CreatingDirectory, dir@, reason@),
            FileWrite::Failed { reason } => result matches Err(message) && message@ == step_error(
                ProfileStep::Writing,
                path@,
                reason@,
            ),
        },
{
    match write {
        FileWrite::Done => Ok(()),
        FileWrite::DirectoryFailed { dir, reason } => Err(
            profile_error(ProfileStep::CreatingDirectory, dir.as_str(), reason.as_str()),
        ),
        FileWrite::Failed { reason } => Err(
            profile_error(ProfileStep::Writing, path, reason.as_str()),
        ),
    }
}

/// Outcome of removing a file.
#[derive(Debug, Clone, PartialEq, Eq)]
pub enum FileRemoval {
    /// The file is gone.
    Done,
    /// There was no such file.
    Missing,
    /// The file could not be removed, for this reason.
    Failed(String),
}

/// Outcome of clearing a profile: it is fine where there was no file.
pub fn clear_auth_profile(path: &str, removal: FileRemoval) -> (result: Result<(), String>)
    ensures
        match removal {
            FileRemoval::Failed(reason) => result matches Err(message) && message@ == step_error(
                ProfileStep::Deleting,
                path@,
                reason@,
            ),
            _ => result is Ok,
        },
{
    match removal {
        FileRemoval::Failed(reason) => Err(
            profile_error(ProfileStep::Deleting, path, reason.as_str()),
        ),
        _ => Ok(()),
    }
}

} // verus!
