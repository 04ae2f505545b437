use vstd::prelude::*;

use crate::client::Client;
use crate::current_process::CurrentProcess;
use crate::process_error::ProcessError;
use crate::window::{client_idx, has_client, Window};

verus! {

/// A user-triggered unit of work and its parameters.
#[derive(Debug)]
pub enum NewProcess {
    ConnectToAllSavedClients,
    GetUploadedFiles,
    SendLoginCode,
    SingIn,
    UploadFiles(Vec<String>),
    DownloadFiles(Vec<i32>),
    DeleteFiles(Vec<i32>),
}

/// The background unit of work the caller must now launch: the operation,
/// with owned copies of exactly the data it needs. The work reports its
/// outcome through the shared channel and never touches the state directly.
#[derive(Debug)]
pub enum SpawnedTask {
    ConnectToSavedSessions,
    SendLoginCode(String),
    SignIn(Client, String, String),
    UploadFiles(Client, Vec<String>),
    GetUploadedFiles(Client),
    DownloadFiles(Client, Vec<i32>),
    DeleteFiles(Client, Vec<i32>),
}

impl NewProcess {
    /// Validates the request's precondition against the state. On failure
    /// the failure classification is returned at once, no background work
    /// is described, and the state is left untouched. On success the
    /// process slot is set to running the request's kind and the background
    /// work to launch is described, carrying owned copies of its inputs.
    pub fn start(self, window: &mut Window) -> (r: Result<SpawnedTask, ProcessError>)
        requires
            old(window).wf(),
        ensures
            final(window).wf(),
            match self {
                NewProcess::ConnectToAllSavedClients => {
                    &&& r == Ok::<SpawnedTask, ProcessError>(SpawnedTask::ConnectToSavedSessions)
                    &&& *final(window) == Window {
                        current_process: CurrentProcess::ConnectingToAllSavedClients,
                        ..*old(window)
                    }
                },
                NewProcess::SendLoginCode => {
                    &&& r == Ok::<SpawnedTask, ProcessError>(
                        SpawnedTask::SendLoginCode(old(window).new_session_tab.phone_number),
                    )
                    &&& *final(window) == Window {
                        current_process: CurrentProcess::SendingLoginCode,
                        ..*old(window)
                    }
                },
                NewProcess::SingIn => {
                    if old(window).new_session_tab.incomplete_client is None {
                        &&& r == Err::<SpawnedTask, ProcessError>(
                            ProcessError::IncompleteClientIsNone,
                        )
                        &&& *final(window) == *old(window)
                    } else if !old(window).new_session_tab.has_login_token {
                        &&& r == Err::<SpawnedTask, ProcessError>(ProcessError::LoginTokenIsNone)
                        &&& *final(window) == *old(window)
                    } else {
                        &&& r == Ok::<SpawnedTask, ProcessError>(
                            SpawnedTask::SignIn(
                                old(window).new_session_tab.incomplete_client->0,
                                old(window).new_session_tab.reveived_code,
                                old(window).new_session_tab.user_password,
                            ),
                        )
                        &&& *final(window) == Window {
                            current_process: CurrentProcess::LogInWithCode,
                            ..*old(window)
                        }
                    }
                },
                NewProcess::GetUploadedFiles => {
                    if has_client(old(window).clients@, old(window).current_client@) {
                        &&& r == Ok::<SpawnedTask, ProcessError>(
                            SpawnedTask::GetUploadedFiles(
                                old(window).clients@[client_idx(
                                    old(window).clients@,
                                    old(window).current_client@,
                                )].1,
                            ),
                        )
                        &&& *final(window) == Window {
                            current_process: CurrentProcess::GettingUploadedFiles,
                            ..*old(window)
                        }
                    } else {
                        &&& r == Err::<SpawnedTask, ProcessError>(ProcessError::CurrentClientIsNone)
                        &&& *final(window) == *old(window)
                    }
                },
                NewProcess::UploadFiles(files) => {
                    if has_client(old(window).clients@, old(window).current_client@) {
                        &&& r == Ok::<SpawnedTask, ProcessError>(
                            SpawnedTask::UploadFiles(
                                old(window).clients@[client_idx(
                                    old(window).clients@,
                                    old(window).current_client@,
                                )].1,
                                files,
                            ),
                        )
                        &&& *final(window) == Window {
                            current_process: CurrentProcess::UploadingFiles,
                            ..*old(window)
                        }
                    } else {
                        &&& r == Err::<SpawnedTask, ProcessError>(ProcessError::CurrentClientIsNone)
                        &&& *final(window) == *old(window)
                    }
                },
                NewProcess::DownloadFiles(ids) => {
                    if has_client(old(window).clients@, old(window).current_client@) {
                        &&& r == Ok::<SpawnedTask, ProcessError>(
                            SpawnedTask::DownloadFiles(
                                old(window).clients@[client_idx(
                                    old(window).clients@,
                                    old(window).current_client@,
                                )].1,
                                ids,
                            ),
                        )
                        &&& *final(window) == Window {
                            current_process: CurrentProcess::DownloadingFiles,
                            ..*old(window)
                        }
                    } else {
                        &&& r == Err::<SpawnedTask, ProcessError>(ProcessError::CurrentClientIsNone)
                        &&& *final(window) == *old(window)
                    }
                },
                NewProcess::DeleteFiles(ids) => {
                    if has_client(old(window).clients@, old(window).current_client@) {
                        &&& r == Ok::<SpawnedTask, ProcessError>(
                            SpawnedTask::DeleteFiles(
                                old(window).clients@[client_idx(
                                    old(window).clients@,
                                    old(window).current_client@,
                                )].1,
                                ids,
                            ),
                        )
                        &&& *final(window) == Window {
                            current_process: CurrentProcess::DeletingFiles,
                            ..*old(window)
                        }
                    } else {
                        &&& r == Err::<SpawnedTask, ProcessError>(ProcessError::CurrentClientIsNone)
                        &&& *final(window) == *old(window)
                    }
                },
            },
    {
        match self {
            NewProcess::ConnectToAllSavedClients => {
                window.current_process = CurrentProcess::ConnectingToAllSavedClients;
                Ok(SpawnedTask::ConnectToSavedSessions)
            },
            NewProcess::SendLoginCode => {
                let phone_number = window.new_session_tab.phone_number.clone();
                window.current_process = CurrentProcess::SendingLoginCode;
                Ok(SpawnedTask::SendLoginCode(phone_number))
            },
            NewProcess::SingIn => {
                let incomplete_client = match &window.new_session_tab.incomplete_client {
                    Some(c) => c.clone(),
                    None => {
                        return Err(ProcessError::IncompleteClientIsNone);
                    },
                };
                if !window.new_session_tab.has_login_token {
                    return Err(ProcessError::LoginTokenIsNone);
                }
                let reveived_code = window.new_session_tab.reveived_code.clone();
                let user_password = window.new_session_tab.user_password.clone();
                window.current_process = CurrentProcess::LogInWithCode;
                Ok(SpawnedTask::SignIn(incomplete_client, reveived_code, user_password))
            },
            NewProcess::GetUploadedFiles => {
                let client = match window.get_current_client() {
                    Ok(c) => c,
                    Err(err) => {
                        return Err(err);
                    },
                };
                window.current_process = CurrentProcess::GettingUploadedFiles;
                Ok(SpawnedTask::GetUploadedFiles(client))
            },
            NewProcess::UploadFiles(transferred_files) => {
                let client = match window.get_current_client() {
                    Ok(c) => c,
                    Err(err) => {
                        return Err(err);
                    },
                };
                window.current_process = CurrentProcess::UploadingFiles;
                Ok(SpawnedTask::UploadFiles(client, transferred_files))
            },
            NewProcess::DownloadFiles(message_ids) => {
                let client = match window.get_current_client() {
                    Ok(c) => c,
                    Err(err) => {
                        return Err(err);
                    },
                };
                window.current_process = CurrentProcess::DownloadingFiles;
                Ok(SpawnedTask::DownloadFiles(client, message_ids))
            },
            NewProcess::DeleteFiles(message_ids) => {
                let client = match window.get_current_client() {
                    Ok(c) => c,
                    Err(err) => {
                        return Err(err);
                    },
                };
                window.current_process = CurrentProcess::DeletingFiles;
                Ok(SpawnedTask::DeleteFiles(client, message_ids))
            },
        }
    }
}

} // verus!
