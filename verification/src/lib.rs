//! Virtual cloud storage over a remote messaging backend: a path/tree model
//! for the stored objects, and the state machine that dispatches background
//! operations and folds their outcomes back into one authoritative state.

mod api;
mod api_keys;
mod client;
mod cloud;
mod current_process;
mod dir;
mod file;
mod new_process;
mod new_session;
mod path;
mod process_error;
mod process_result;
mod tab;
mod text;
mod window;

pub use api::API;
pub use api_keys::{parse_api_id, APIKeys};
pub use client::{collect_uploaded_files, download_step, password_check_decision,
    plan_downloads, sign_in_decision, upload_metadata_text, Client, DownloadStep, MediaInfo,
    MessageInfo, SignInResponse, SignInStep};
pub use cloud::Cloud;
pub use current_process::CurrentProcess;
pub use dir::Dir;
pub use file::{File, FileMetadata};
pub use new_process::{NewProcess, SpawnedTask};
pub use new_session::NewSession;
pub use path::Path;
pub use process_error::ProcessError;
pub use process_result::ProcessResult;
pub use tab::Tab;
pub use text::{cloud_chat_name, parse_i32, is_cloud_chat, session_file_name, str_contains, str_lt,
    u64_to_decimal};
pub use window::{find_client_entry, upsert_client_entry, Window};
