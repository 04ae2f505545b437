use vstd::prelude::*;

use crate::process_error::ProcessError;

verus! {

/// The single process-state slot of the application: idle, running one of
/// the known operation kinds, or showing one failure. Overwritten on every
/// transition; never a queue.
#[derive(Debug, Clone, Copy, PartialEq, Eq, Structural)]
pub enum CurrentProcess {
    Idle,
    Error(ProcessError),
    ConnectingToAllSavedClients,
    GettingUploadedFiles,
    SendingLoginCode,
    LogInWithCode,
    UploadingFiles,
    DownloadingFiles,
    DeletingFiles,
}

impl CurrentProcess {
    /// The text shown for this state.
    pub fn describe(&self) -> (r: String)
        ensures
            r@ == match *self {
                CurrentProcess::Idle => "tucha"@,
                CurrentProcess::Error(process_error) => process_error.message_text(),
                CurrentProcess::ConnectingToAllSavedClients => "Connecting to all saved clients..."@,
                CurrentProcess::GettingUploadedFiles => "Getting uploaded files..."@,
                CurrentProcess::SendingLoginCode => "Sending login code..."@,
                CurrentProcess::LogInWithCode => "Log in..."@,
                CurrentProcess::UploadingFiles => "Uploading files..."@,
                CurrentProcess::DownloadingFiles => "Downloading files..."@,
                CurrentProcess::DeletingFiles => "Deleting files..."@,
            },
    {
        match self {
            CurrentProcess::Idle => String::from_str("tucha"),
            CurrentProcess::Error(process_error) => process_error.message(),
            CurrentProcess::ConnectingToAllSavedClients => String::from_str(
                "Connecting to all saved clients...",
            ),
            CurrentProcess::SendingLoginCode => String::from_str("Sending login code..."),
            CurrentProcess::LogInWithCode => String::from_str("Log in..."),
            CurrentProcess::UploadingFiles => String::from_str("Uploading files..."),
            CurrentProcess::GettingUploadedFiles => String::from_str(
                "Getting uploaded files...",
            ),
            CurrentProcess::DownloadingFiles => String::from_str("Downloading files..."),
            CurrentProcess::DeletingFiles => String::from_str("Deleting files..."),
        }
    }
}

} // verus!
