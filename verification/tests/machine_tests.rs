use tucha::{
    Client, CurrentProcess, Dir, File, FileMetadata, NewProcess, ProcessError, ProcessResult,
    SpawnedTask, Tab, Window,
};

fn client(name: &str) -> Client {
    Client::new(Some(name.to_string()), Some(7), true)
}

fn window_with(name: &str) -> Window {
    let mut w = Window::new();
    w.current_client = name.to_string();
    w.insert_client(name.to_string(), client(name));
    w
}

#[test]
fn window_new_is_idle_on_cloud_tab() {
    let w = Window::new();
    assert!(w.clients.is_empty());
    assert_eq!(w.current_client, "".to_string());
    assert_eq!(w.tab, Tab::Cloud);
    assert_eq!(w.current_process, CurrentProcess::Idle);
}

#[test]
fn list_objects_without_current_account_fails_synchronously() {
    let mut w = Window::new();
    let r = NewProcess::GetUploadedFiles.start(&mut w);
    assert!(matches!(r, Err(ProcessError::CurrentClientIsNone)));
    assert_eq!(w.current_process, CurrentProcess::Idle);
    assert!(w.clients.is_empty());
}

#[test]
fn download_without_current_account_fails_synchronously() {
    let mut w = Window::new();
    let r = NewProcess::DownloadFiles(vec![1, 2]).start(&mut w);
    assert!(matches!(r, Err(ProcessError::CurrentClientIsNone)));
    assert_eq!(w.current_process, CurrentProcess::Idle);
}

#[test]
fn list_objects_with_current_account_spawns_work() {
    let mut w = window_with("alice");
    let r = NewProcess::GetUploadedFiles.start(&mut w);
    match r {
        Ok(SpawnedTask::GetUploadedFiles(c)) => {
            assert_eq!(c.username, Some("alice".to_string()));
        }
        other => panic!("unexpected dispatch result: {:?}", other),
    }
    assert_eq!(w.current_process, CurrentProcess::GettingUploadedFiles);
}

#[test]
fn upload_dispatch_carries_paths() {
    let mut w = window_with("alice");
    let r = NewProcess::UploadFiles(vec!["/tmp/a".to_string()]).start(&mut w);
    match r {
        Ok(SpawnedTask::UploadFiles(_, paths)) => {
            assert_eq!(paths, vec!["/tmp/a".to_string()]);
        }
        other => panic!("unexpected dispatch result: {:?}", other),
    }
    assert_eq!(w.current_process, CurrentProcess::UploadingFiles);
}

#[test]
fn sign_in_without_incomplete_client_fails() {
    let mut w = Window::new();
    let r = NewProcess::SingIn.start(&mut w);
    assert!(matches!(r, Err(ProcessError::IncompleteClientIsNone)));
    assert_eq!(w.current_process, CurrentProcess::Idle);
}

#[test]
fn sign_in_without_login_token_fails() {
    let mut w = Window::new();
    w.new_session_tab.incomplete_client = Some(client("alice"));
    let r = NewProcess::SingIn.start(&mut w);
    assert!(matches!(r, Err(ProcessError::LoginTokenIsNone)));
    assert_eq!(w.current_process, CurrentProcess::Idle);
}

#[test]
fn connect_dispatch_always_spawns() {
    let mut w = Window::new();
    let r = NewProcess::ConnectToAllSavedClients.start(&mut w);
    assert!(matches!(r, Ok(SpawnedTask::ConnectToSavedSessions)));
    assert_eq!(w.current_process, CurrentProcess::ConnectingToAllSavedClients);
}

#[test]
fn connected_with_empty_map_goes_idle_without_chain() {
    let mut w = Window::new();
    w.current_process = CurrentProcess::ConnectingToAllSavedClients;
    let chain = ProcessResult::ConnectedToSavedClients(vec![]).check_result(&mut w);
    assert!(chain.is_none());
    assert_eq!(w.current_process, CurrentProcess::Idle);
    assert!(w.clients.is_empty());
    assert_eq!(w.current_client, "".to_string());
}

#[test]
fn connected_with_clients_picks_first_key_and_chains() {
    let mut w = Window::new();
    let map = vec![
        ("bob".to_string(), client("bob")),
        ("alice".to_string(), client("alice")),
    ];
    let chain = ProcessResult::ConnectedToSavedClients(map).check_result(&mut w);
    assert_eq!(w.current_client, "alice".to_string());
    assert_eq!(w.clients.len(), 2);
    assert_eq!(w.current_process, CurrentProcess::GettingUploadedFiles);
    match chain {
        Some(Ok(SpawnedTask::GetUploadedFiles(c))) => {
            assert_eq!(c.username, Some("alice".to_string()));
        }
        other => panic!("unexpected chain: {:?}", other),
    }
}

#[test]
fn login_code_sent_stores_partial_client() {
    let mut w = Window::new();
    w.current_process = CurrentProcess::SendingLoginCode;
    let partial = Client::new(None, None, false);
    let chain = ProcessResult::LoginCodeSended(partial).check_result(&mut w);
    assert!(chain.is_none());
    assert_eq!(w.current_process, CurrentProcess::Idle);
    assert!(w.new_session_tab.is_code_received);
    assert!(w.new_session_tab.has_login_token);
    assert!(w.new_session_tab.incomplete_client.is_some());
}

#[test]
fn logged_in_sets_current_account_and_cloud_tab() {
    let mut w = Window::new();
    w.tab = Tab::NewSession;
    let chain =
        ProcessResult::LoggedIn(client("carol"), "carol".to_string()).check_result(&mut w);
    assert!(chain.is_none());
    assert_eq!(w.current_process, CurrentProcess::Idle);
    assert_eq!(w.tab, Tab::Cloud);
    assert_eq!(w.current_client, "carol".to_string());
    assert_eq!(w.clients.len(), 1);
    assert_eq!(w.clients[0].0, "carol".to_string());
}

#[test]
fn files_uploaded_chains_list_objects() {
    let mut w = window_with("alice");
    w.current_process = CurrentProcess::UploadingFiles;
    let chain = ProcessResult::FilesUploaded.check_result(&mut w);
    assert_eq!(w.current_process, CurrentProcess::GettingUploadedFiles);
    assert!(matches!(chain, Some(Ok(SpawnedTask::GetUploadedFiles(_)))));
}

#[test]
fn files_deleted_chains_list_objects() {
    let mut w = window_with("alice");
    w.current_process = CurrentProcess::DeletingFiles;
    let chain = ProcessResult::FilesDeleted.check_result(&mut w);
    assert_eq!(w.current_process, CurrentProcess::GettingUploadedFiles);
    assert!(matches!(chain, Some(Ok(SpawnedTask::GetUploadedFiles(_)))));
}

#[test]
fn files_downloaded_only_goes_idle() {
    let mut w = window_with("alice");
    w.current_process = CurrentProcess::DownloadingFiles;
    let chain = ProcessResult::FilesDownloaded.check_result(&mut w);
    assert!(chain.is_none());
    assert_eq!(w.current_process, CurrentProcess::Idle);
}

#[test]
fn failure_outcome_sets_error_and_nothing_else() {
    let mut w = window_with("alice");
    w.current_process = CurrentProcess::UploadingFiles;
    let chain = ProcessResult::Error(ProcessError::CannotUploadFile).check_result(&mut w);
    assert!(chain.is_none());
    assert_eq!(
        w.current_process,
        CurrentProcess::Error(ProcessError::CannotUploadFile)
    );
    assert_eq!(w.current_client, "alice".to_string());
    assert_eq!(w.clients.len(), 1);
}

#[test]
fn failed_upload_batch_changes_no_tree_and_chains_nothing() {
    let mut w = window_with("alice");
    let files = vec![File::new(
        FileMetadata::new("/kept/one".to_string()),
        1,
        "one".to_string(),
    )];
    let chain =
        ProcessResult::UploadedFilesReceived("alice".to_string(), files).check_result(&mut w);
    assert!(chain.is_none());
    let ids_before: Vec<i32> = tree_ids(&w, "alice", "kept");

    // The user uploads two files; the second fails remotely. The only
    // outcome is one failure: no success is posted, nothing is chained,
    // and the tree is untouched.
    let r = NewProcess::UploadFiles(vec!["/tmp/a".to_string(), "/tmp/b".to_string()])
        .start(&mut w);
    assert!(matches!(r, Ok(SpawnedTask::UploadFiles(_, _))));
    let chain = ProcessResult::Error(ProcessError::CannotUploadFile).check_result(&mut w);
    assert!(chain.is_none());
    assert_eq!(
        w.current_process,
        CurrentProcess::Error(ProcessError::CannotUploadFile)
    );
    let ids_after: Vec<i32> = tree_ids(&w, "alice", "kept");
    assert_eq!(ids_before, ids_after);
}

fn tree_ids(w: &Window, account: &str, sub: &str) -> Vec<i32> {
    let root = &w
        .cloud_tab
        .clients_roots
        .iter()
        .find(|p| p.0 == account)
        .expect("tree kept for the account")
        .1;
    let dir = root
        .find_directory_by_relative_path(&tucha::Path::new(sub))
        .expect("subdirectory present");
    dir.get_files_messages_ids()
}

#[test]
fn uploaded_files_received_replaces_tree_wholesale() {
    let mut w = window_with("alice");
    let first = vec![File::new(
        FileMetadata::new("/old/one".to_string()),
        1,
        "one".to_string(),
    )];
    ProcessResult::UploadedFilesReceived("alice".to_string(), first).check_result(&mut w);
    let second = vec![File::new(
        FileMetadata::new("/new/two".to_string()),
        2,
        "two".to_string(),
    )];
    ProcessResult::UploadedFilesReceived("alice".to_string(), second).check_result(&mut w);
    assert_eq!(w.cloud_tab.clients_roots.len(), 1);
    let root = &w.cloud_tab.clients_roots[0].1;
    assert!(root
        .find_directory_by_relative_path(&tucha::Path::new("old"))
        .is_none());
    assert!(root
        .find_directory_by_relative_path(&tucha::Path::new("new"))
        .is_some());
    assert_eq!(w.current_process, CurrentProcess::Idle);
}

#[test]
fn error_converts_to_result() {
    let r = ProcessError::InvalidCode.to_process_result();
    assert!(matches!(r, ProcessResult::Error(ProcessError::InvalidCode)));
}

#[test]
fn status_texts_match_display_conventions() {
    assert_eq!(CurrentProcess::Idle.describe(), "tucha".to_string());
    assert_eq!(
        CurrentProcess::UploadingFiles.describe(),
        "Uploading files...".to_string()
    );
    assert_eq!(
        CurrentProcess::Error(ProcessError::PasswordRequired).describe(),
        "Password required.".to_string()
    );
    assert_eq!(
        ProcessError::ChatIsNone.message(),
        "Chat is None.".to_string()
    );
}
