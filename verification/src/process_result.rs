use vstd::prelude::*;

use crate::client::Client;
use crate::cloud::{has_root, root_idx, Cloud};
use crate::current_process::CurrentProcess;
use crate::dir::{shape_build, Dir};
use crate::file::File;
use crate::new_process::{NewProcess, SpawnedTask};
use crate::new_session::NewSession;
use crate::process_error::ProcessError;
use crate::tab::Tab;
use crate::window::{client_idx, has_client, is_first_key, min_client_index, unique_client_keys,
    Window};

verus! {

/// The outcome of one background unit of work: a typed success payload, or
/// a failure classification.
#[derive(Debug)]
pub enum ProcessResult {
    Error(ProcessError),
    ConnectedToSavedClients(Vec<(String, Client)>),
    LoginCodeSended(Client),
    LoggedIn(Client, String),
    FilesUploaded,
    UploadedFilesReceived(String, Vec<File>),
    FilesDownloaded,
    FilesDeleted,
}

impl ProcessError {
    /// This failure, as the outcome it is reported as.
    pub fn to_process_result(self) -> (r: ProcessResult)
        ensures
            r == ProcessResult::Error(self),
    {
        ProcessResult::Error(self)
    }
}

impl ProcessResult {
    /// What a well-formed outcome payload carries: a client map with
    /// pairwise distinct account names, and file entries with well-formed
    /// paths.
    pub open spec fn wf(self) -> bool {
        match self {
            ProcessResult::ConnectedToSavedClients(clients) => unique_client_keys(clients@),
            ProcessResult::UploadedFilesReceived(_, files) => forall|i: int|
                0 <= i < files@.len() ==> (#[trigger] files@[i]).path.wf(),
            _ => true,
        }
    }

    /// Applies one received outcome to the state, and possibly chains the
    /// follow-up dispatch. The chain's own synchronous failure is handed
    /// back rather than applied: it reaches the state as a later outcome.
    pub fn check_result(self, window: &mut Window) -> (chain: Option<
        Result<SpawnedTask, ProcessError>,
    >)
        requires
            old(window).wf(),
            self.wf(),
        ensures
            final(window).wf(),
            match self {
                ProcessResult::Error(e) => {
                    &&& chain is None
                    &&& *final(window) == Window {
                        current_process: CurrentProcess::Error(e),
                        ..*old(window)
                    }
                },
                ProcessResult::ConnectedToSavedClients(clients) => {
                    if clients@.len() == 0 {
                        &&& chain is None
                        &&& *final(window) == Window {
                            current_process: CurrentProcess::Idle,
                            ..*old(window)
                        }
                    } else {
                        exists|k: int|
                            {
                                &&& #[trigger] is_first_key(clients@, k)
                                &&& *final(window) == Window {
                                    current_process: CurrentProcess::GettingUploadedFiles,
                                    clients: clients,
                                    current_client: clients@[k].0,
                                    ..*old(window)
                                }
                                &&& chain == Some(
                                    Ok::<SpawnedTask, ProcessError>(
                                        SpawnedTask::GetUploadedFiles(clients@[k].1),
                                    ),
                                )
                            }
                    }
                },
                ProcessResult::LoginCodeSended(client) => {
                    &&& chain is None
                    &&& *final(window) == Window {
                        current_process: CurrentProcess::Idle,
                        new_session_tab: NewSession {
                            is_code_received: true,
                            has_login_token: true,
                            incomplete_client: Some(client),
                            ..old(window).new_session_tab
                        },
                        ..*old(window)
                    }
                },
                ProcessResult::LoggedIn(client, client_name) => {
                    &&& chain is None
                    &&& final(window).current_process == CurrentProcess::Idle
                    &&& final(window).tab == Tab::Cloud
                    &&& final(window).current_client == client_name
                    &&& final(window).new_session_tab == old(window).new_session_tab
                    &&& final(window).cloud_tab == old(window).cloud_tab
                    &&& if has_client(old(window).clients@, client_name@) {
                        final(window).clients@ == old(window).clients@.update(
                            client_idx(old(window).clients@, client_name@),
                            (client_name, client),
                        )
                    } else {
                        final(window).clients@ == old(window).clients@.push((client_name, client))
                    }
                },
                ProcessResult::FilesUploaded => {
                    if has_client(old(window).clients@, old(window).current_client@) {
                        &&& *final(window) == Window {
                            current_process: CurrentProcess::GettingUploadedFiles,
                            ..*old(window)
                        }
                        &&& chain == Some(
                            Ok::<SpawnedTask, ProcessError>(
                                SpawnedTask::GetUploadedFiles(
                                    old(window).clients@[client_idx(
                                        old(window).clients@,
                                        old(window).current_client@,
                                    )].1,
                                ),
                            ),
                        )
                    } else {
                        &&& *final(window) == Window {
                            current_process: CurrentProcess::Idle,
                            ..*old(window)
                        }
                        &&& chain == Some(
                            Err::<SpawnedTask, ProcessError>(ProcessError::CurrentClientIsNone),
                        )
                    }
                },
                ProcessResult::UploadedFilesReceived(client_name, files) => {
                    &&& chain is None
                    &&& final(window).current_process == CurrentProcess::Idle
                    &&& final(window).clients == old(window).clients
                    &&& final(window).current_client == old(window).current_client
                    &&& final(window).tab == old(window).tab
                    &&& final(window).new_session_tab == old(window).new_session_tab
                    &&& final(window).cloud_tab.current_path == old(window).cloud_tab.current_path
                    &&& final(window).cloud_tab.is_creating_folder == old(
                        window,
                    ).cloud_tab.is_creating_folder
                    &&& final(window).cloud_tab.new_dir_name == old(window).cloud_tab.new_dir_name
                    &&& exists|d: Dir|
                        {
                            &&& #[trigger] d.wf()
                            &&& d.shape() == shape_build(files@.map_values(|f: File| f@))
                            &&& if has_root(old(window).cloud_tab.clients_roots@, client_name@) {
                                final(window).cloud_tab.clients_roots@ == old(
                                    window,
                                ).cloud_tab.clients_roots@.update(
                                    root_idx(old(window).cloud_tab.clients_roots@, client_name@),
                                    (client_name, d),
                                )
                            } else {
                                final(window).cloud_tab.clients_roots@ == old(
                                    window,
                                ).cloud_tab.clients_roots@.push((client_name, d))
                            }
                        }
                },
                ProcessResult::FilesDownloaded => {
                    &&& chain is None
                    &&& *final(window) == Window {
                        current_process: CurrentProcess::Idle,
                        ..*old(window)
                    }
                },
                ProcessResult::FilesDeleted => {
                    if has_client(old(window).clients@, old(window).current_client@) {
                        &&& *final(window) == Window {
                            current_process: CurrentProcess::GettingUploadedFiles,
                            ..*old(window)
                        }
                        &&& chain == Some(
                            Ok::<SpawnedTask, ProcessError>(
                                SpawnedTask::GetUploadedFiles(
                                    old(window).clients@[client_idx(
                                        old(window).clients@,
                                        old(window).current_client@,
                                    )].1,
                                ),
                            ),
                        )
                    } else {
                        &&& *final(window) == Window {
                            current_process: CurrentProcess::Idle,
                            ..*old(window)
                        }
                        &&& chain == Some(
                            Err::<SpawnedTask, ProcessError>(ProcessError::CurrentClientIsNone),
                        )
                    }
                },
            },
    {
        match self {
            ProcessResult::Error(error) => {
                window.current_process = CurrentProcess::Error(error);
                None
            },
            ProcessResult::ConnectedToSavedClients(clients) => {
                window.current_process = CurrentProcess::Idle;
                if clients.len() > 0 {
                    let k = min_client_index(&clients);
                    let name = clients[k].0.clone();
                    window.clients = clients;
                    window.current_client = name;
                    proof {
                        assert(has_client(window.clients@, window.current_client@));
                        let i = client_idx(window.clients@, window.current_client@);
                        if i != k as int {
                            if i < k as int {
                                assert(window.clients@[i].0@ != window.clients@[k as int].0@);
                            } else {
                                assert(window.clients@[k as int].0@ != window.clients@[i].0@);
                            }
                        }
                        assert(i == k as int);
                    }
                    let chained = NewProcess::GetUploadedFiles.start(window);
                    Some(chained)
                } else {
                    None
                }
            },
            ProcessResult::LoginCodeSended(client) => {
                window.current_process = CurrentProcess::Idle;
                window.new_session_tab.has_login_token = true;
                window.new_session_tab.is_code_received = true;
                window.new_session_tab.incomplete_client = Some(client);
                None
            },
            ProcessResult::LoggedIn(client, client_name) => {
                window.current_process = CurrentProcess::Idle;
                window.tab = Tab::Cloud;
                window.current_client = client_name.clone();
                window.insert_client(client_name, client);
                None
            },
            ProcessResult::FilesUploaded => {
                window.current_process = CurrentProcess::Idle;
                let chained = NewProcess::GetUploadedFiles.start(window);
                Some(chained)
            },
            ProcessResult::UploadedFilesReceived(client_name, files) => {
                window.current_process = CurrentProcess::Idle;
                let root = Dir::build_tree(&files);
                window.cloud_tab.set_root(client_name, root);
                None
            },
            ProcessResult::FilesDownloaded => {
                window.current_process = CurrentProcess::Idle;
                None
            },
            ProcessResult::FilesDeleted => {
                window.current_process = CurrentProcess::Idle;
                let chained = NewProcess::GetUploadedFiles.start(window);
                Some(chained)
            },
        }
    }
}

} // verus!
