//! Where recordings are kept, and what the user is told when something outside fails.

use vstd::prelude::*;
use vstd::string::*;

verus! {

/// What is remembered between runs.
#[derive(Debug)]
pub struct Settings {
    pub recordings_dir: Option<String>,
}

impl Settings {
    /// The settings that remember `dir`.
    pub fn remember(dir: &str) -> (settings: Settings)
        ensures
            settings.recordings_dir.deep_view() == Some(dir@),
    {
        Settings { recordings_dir: Some(dir.to_owned()) }
    }
}

/// The folder that is remembered, where settings could be read and name one.
pub fn remembered_dir(settings: Option<Settings>) -> (dir: Option<String>)
    ensures
        dir == match settings {
            Some(settings) => settings.recordings_dir,
            None => None,
        },
{
    match settings {
        Some(settings) => settings.recordings_dir,
        None => None,
    }
}

/// Which folder the recordings go to.
#[derive(Clone, Copy, Debug, PartialEq, Eq, Structural)]
pub enum RecordingsDir {
    /// The one that is remembered.
    Remembered,
    /// The application's own.
    Default,
}

/// Which folder the recordings go to: the remembered one while it exists. `None` says that none
/// is remembered, and the flag whether it exists.
pub fn recordings_dir(remembered: Option<bool>) -> (dir: RecordingsDir)
    ensures
        dir == if remembered == Some(true) {
            RecordingsDir::Remembered
        } else {
            RecordingsDir::Default
        },
{
    match remembered {
        Some(true) => RecordingsDir::Remembered,
        _ => RecordingsDir::Default,
    }
}

/// How picking a folder went.
#[derive(Debug)]
pub struct PickResult {
    pub canceled: bool,
    pub path: Option<String>,
}

/// How picking a folder went, `picked` being the folder that the user chose, if any.
pub fn pick_result(picked: Option<String>) -> (result: PickResult)
    ensures
        result.canceled == (picked is None),
        result.path == picked,
{
    PickResult { canceled: picked.is_none(), path: picked }
}

/// What happened to a folder that the user is to pick.
#[derive(Debug)]
pub enum FolderEvent {
    /// Whether the user picked one.
    Picked(bool),
    /// The picked folder exists now, under this path, or it could not be created.
    Ensured(Result<String, String>),
}

/// What to do next with the picked folder.
#[derive(Debug)]
pub enum FolderAction {
    /// Create it where it does not exist.
    Ensure,
    /// Keep the old folder, and pass the error on.
    Fail(String),
    /// Keep the old folder, and tell the user how it went.
    Finish(PickResult),
    /// Use the picked folder from now on, remember it, and tell the user how it went.
    Adopt(PickResult),
}

/// What follows when the user picks a folder.
pub open spec fn folder_action(event: FolderEvent) -> FolderAction {
    match event {
        FolderEvent::Picked(true) => FolderAction::Ensure,
        FolderEvent::Picked(false) => FolderAction::Finish(
            PickResult { canceled: true, path: None },
        ),
        FolderEvent::Ensured(Ok(path)) => FolderAction::Adopt(
            PickResult { canceled: false, path: Some(path) },
        ),
        FolderEvent::Ensured(Err(error)) => FolderAction::Fail(error),
    }
}

/// What follows when the user picks a folder. It is adopted only once it exists.
pub fn folder_step(event: FolderEvent) -> (action: FolderAction)
    ensures
        action == folder_action(event),
        action matches FolderAction::Adopt(result) ==> !result.canceled && (event
            matches FolderEvent::Ensured(Ok(path)) && result.path == Some(path)),
        action matches FolderAction::Finish(result) ==> result.canceled && result.path is None
            && event == FolderEvent::Picked(false),
{
    match event {
        FolderEvent::Picked(picked) => if picked {
            FolderAction::Ensure
        } else {
            FolderAction::Finish(pick_result(None))
        },
        FolderEvent::Ensured(Ok(path)) => FolderAction::Adopt(pick_result(Some(path))),
        FolderEvent::Ensured(Err(error)) => FolderAction::Fail(error),
    }
}

/// The folder in use and the folder that is remembered.
pub struct Placement {
    pub in_use: Seq<char>,
    pub remembered: Option<Seq<char>>,
}

impl Placement {
    /// The folders after `action`, `saved` saying whether the settings could be stored where
    /// that is asked for.
    pub open spec fn after(self, action: FolderAction, saved: bool) -> Placement {
        match action {
            FolderAction::Adopt(result) => Placement {
                in_use: result.path->0@,
                remembered: if saved {
                    Some(result.path->0@)
                } else {
                    self.remembered
                },
            },
            _ => self,
        }
    }
}

/// Law: a pick that is cancelled, or a folder that cannot be created, changes neither the folder
/// in use nor the one that is remembered; any other pick changes the folder in use to the picked
/// one, and the remembered one with it if that could be stored.
pub proof fn law_failed_pick_changes_nothing(
    placement: Placement,
    picked: bool,
    ensured: Result<String, String>,
    saved: bool,
)
    ensures
        ({
            let first = placement.after(folder_action(FolderEvent::Picked(picked)), saved);
            let second = first.after(folder_action(FolderEvent::Ensured(ensured)), saved);
            &&& first == placement
            &&& folder_action(FolderEvent::Picked(picked)) is Ensure <==> picked
            &&& ensured is Err ==> second == placement
            &&& ensured matches Ok(path) ==> {
                &&& second.in_use == path@
                &&& second.remembered == if saved {
                    Some(path@)
                } else {
                    placement.remembered
                }
            }
        }),
{
}

/// Law: the user is told that a pick was cancelled exactly where no folder was picked. A folder
/// that is adopted comes with its own path and was not cancelled, an error is the one that
/// creating the folder gave, and a picked folder is created first.
pub proof fn law_cancelled_means_nothing_picked(path: String, error: String)
    ensures
        folder_action(FolderEvent::Picked(true)) is Ensure,
        match folder_action(FolderEvent::Picked(false)) {
            FolderAction::Finish(result) => result.canceled && result.path is None,
            _ => false,
        },
        match folder_action(FolderEvent::Ensured(Ok(path))) {
            FolderAction::Adopt(result) => !result.canceled && result.path == Some(path),
            _ => false,
        },
        match folder_action(FolderEvent::Ensured(Err(error))) {
            FolderAction::Fail(message) => message == error,
            _ => false,
        },
{
}

/// Something outside that failed.
#[derive(Clone, Copy, Debug, PartialEq, Eq, Structural)]
pub enum Failure {
    /// The folder of the recordings could not be created.
    CreateFolder,
    /// The file of a take could not be created.
    CreateFile,
    /// A chunk could not be written.
    WriteChunk,
    /// ffmpeg could not be started.
    StartFfmpeg,
    /// ffmpeg's end could not be awaited.
    AwaitFfmpeg,
}

/// What the message of a failure starts with.
pub open spec fn failure_prefix(failure: Failure) -> Seq<char> {
    match failure {
        Failure::CreateFolder => "Cannot create recordings folder: "@,
        Failure::CreateFile => "Cannot create recording file: "@,
        Failure::WriteChunk => "Cannot write recording: "@,
        Failure::StartFfmpeg => "FFmpeg not found or failed to start: "@,
        Failure::AwaitFfmpeg => "FFmpeg process error: "@,
    }
}

/// Law: the message of a failure tells which step failed.
pub proof fn law_failure_names_the_step(failure: Failure)
    ensures
        failure == Failure::CreateFolder ==> failure_prefix(failure)
            == "Cannot create recordings folder: "@,
        failure == Failure::CreateFile ==> failure_prefix(failure)
            == "Cannot create recording file: "@,
        failure == Failure::WriteChunk ==> failure_prefix(failure) == "Cannot write recording: "@,
        failure == Failure::StartFfmpeg ==> failure_prefix(failure)
            == "FFmpeg not found or failed to start: "@,
        failure == Failure::AwaitFfmpeg ==> failure_prefix(failure) == "FFmpeg process error: "@,
{
}

/// The message of a failure, `error` being what the system says of it.
pub fn failure_message(failure: Failure, error: &str) -> (message: String)
    ensures
        message@ == failure_prefix(failure) + error@,
{
    let prefix = match failure {
        Failure::CreateFolder => "Cannot create recordings folder: ",
        Failure::CreateFile => "Cannot create recording file: ",
        Failure::WriteChunk => "Cannot write recording: ",
        Failure::StartFfmpeg => "FFmpeg not found or failed to start: ",
        Failure::AwaitFfmpeg => "FFmpeg process error: ",
    };
    prefix.to_owned().concat(error)
}

} // verus!
