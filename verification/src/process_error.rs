use vstd::prelude::*;

verus! {

/// The failure classification shared by every operation: synchronous
/// precondition failures of the dispatcher and asynchronous backend failures
/// alike.
#[derive(Debug, Clone, Copy, PartialEq, Eq, Structural)]
pub enum ProcessError {
    AccessHashIsNone,
    CannotDeleteFile,
    CannotDownloadMedia,
    CannotGetDialogs,
    CannotGetFileName,
    CannotGetUserData,
    CannotLoadSessionFile,
    CannotParseAPIIDToInteger,
    CannotReadMessages,
    CannotReadSessionsDirectory,
    CannotSaveAPIKeysInFile,
    CannotSaveSessionInFile,
    CannotSerializeToString,
    CannotUploadFile,
    ChatIsNone,
    ClientIsNotConnected,
    CloudGroupIsNotCreated,
    CurrentClientIsNone,
    HomeDirectoryIsNone,
    IncompleteClientIsNone,
    InvalidAPI,
    InvalidCode,
    InvalidPassword,
    LoginCodeIsNotSended,
    LoginTokenIsNone,
    MediaMessageIsNotSended,
    MessageNotContainsMedia,
    MessagesNotFound,
    OtherSignInError,
    PasswordRequired,
    SessionFileIsNotExist,
    SignUpRequired,
    UserIsNone,
    UsernameIsNone,
}

impl ProcessError {
    /// The text shown to the user for this failure.
    pub open spec fn message_text(self) -> Seq<char> {
        match self {
            ProcessError::AccessHashIsNone => "access_hash is None."@,
            ProcessError::CannotDeleteFile => "Cannot delete file."@,
            ProcessError::CannotDownloadMedia => "Cannot download media from message."@,
            ProcessError::CannotGetDialogs => "Cannot get dialogs."@,
            ProcessError::CannotGetFileName => "Cannot get file name."@,
            ProcessError::CannotGetUserData => "Cannot get user data."@,
            ProcessError::CannotLoadSessionFile => "Cannot load session file."@,
            ProcessError::CannotParseAPIIDToInteger => "Parse api_id to integer"@,
            ProcessError::CannotReadMessages => "Cannot read messages."@,
            ProcessError::CannotReadSessionsDirectory => "Cannot read directory with sessions files."@,
            ProcessError::CannotSaveAPIKeysInFile => "Cannot save api keys in file"@,
            ProcessError::CannotSaveSessionInFile => "Cannot save session in file."@,
            ProcessError::CannotSerializeToString => "Cannot serialize file metadata to string."@,
            ProcessError::CannotUploadFile => "Cannot upload file."@,
            ProcessError::ChatIsNone => "Chat is None."@,
            ProcessError::ClientIsNotConnected => "Client is not connected."@,
            ProcessError::CloudGroupIsNotCreated => "Cloud gropup is not created."@,
            ProcessError::CurrentClientIsNone => "Current client is None."@,
            ProcessError::HomeDirectoryIsNone => "Home directory is None."@,
            ProcessError::IncompleteClientIsNone => "Incomplete telegram client is None."@,
            ProcessError::InvalidAPI => "Invalid API."@,
            ProcessError::InvalidCode => "Invalid code."@,
            ProcessError::InvalidPassword => "Invalid password."@,
            ProcessError::LoginCodeIsNotSended => "Login code is not sended."@,
            ProcessError::LoginTokenIsNone => "Login token is None."@,
            ProcessError::MediaMessageIsNotSended => "Media message is not sended."@,
            ProcessError::MessageNotContainsMedia => "Message not contains media."@,
            ProcessError::MessagesNotFound => "Message not found."@,
            ProcessError::OtherSignInError => "Other sign in error."@,
            ProcessError::PasswordRequired => "Password required."@,
            ProcessError::SessionFileIsNotExist => "Session file is not exist."@,
            ProcessError::SignUpRequired => "Sign up required."@,
            ProcessError::UserIsNone => "User is None."@,
            ProcessError::UsernameIsNone => "Username is None."@,
        }
    }

    /// The text shown to the user for this failure.
    pub fn message(&self) -> (r: String)
        ensures
            r@ == self.message_text(),
    {
        match self {
            ProcessError::AccessHashIsNone => String::from_str("access_hash is None."),
            ProcessError::CannotDeleteFile => String::from_str("Cannot delete file."),
            ProcessError::CannotDownloadMedia => String::from_str(
                "Cannot download media from message.",
            ),
            ProcessError::CannotGetDialogs => String::from_str("Cannot get dialogs."),
            ProcessError::CannotGetFileName => String::from_str("Cannot get file name."),
            ProcessError::CannotGetUserData => String::from_str("Cannot get user data."),
            ProcessError::CannotLoadSessionFile => String::from_str("Cannot load session file."),
            ProcessError::CannotParseAPIIDToInteger => String::from_str(
                "Parse api_id to integer",
            ),
            ProcessError::CannotReadMessages => String::from_str("Cannot read messages."),
            ProcessError::CannotReadSessionsDirectory => String::from_str(
                "Cannot read directory with sessions files.",
            ),
            ProcessError::CannotSaveAPIKeysInFile => String::from_str(
                "Cannot save api keys in file",
            ),
            ProcessError::CannotSaveSessionInFile => String::from_str(
                "Cannot save session in file.",
            ),
            ProcessError::CannotSerializeToString => String::from_str(
                "Cannot serialize file metadata to string.",
            ),
            ProcessError::CannotUploadFile => String::from_str("Cannot upload file."),
            ProcessError::ChatIsNone => String::from_str("Chat is None."),
            ProcessError::ClientIsNotConnected => String::from_str("Client is not connected."),
            ProcessError::CloudGroupIsNotCreated => String::from_str(
                "Cloud gropup is not created.",
            ),
            ProcessError::CurrentClientIsNone => String::from_str("Current client is None."),
            ProcessError::HomeDirectoryIsNone => String::from_str("Home directory is None."),
            ProcessError::IncompleteClientIsNone => String::from_str(
                "Incomplete telegram client is None.",
            ),
            ProcessError::InvalidAPI => String::from_str("Invalid API."),
            ProcessError::InvalidCode => String::from_str("Invalid code."),
            ProcessError::InvalidPassword => String::from_str("Invalid password."),
            ProcessError::LoginCodeIsNotSended => String::from_str("Login code is not sended."),
            ProcessError::LoginTokenIsNone => String::from_str("Login token is None."),
            ProcessError::MediaMessageIsNotSended => String::from_str(
                "Media message is not sended.",
            ),
            ProcessError::MessageNotContainsMedia => String::from_str(
                "Message not contains media.",
            ),
            ProcessError::MessagesNotFound => String::from_str("Message not found."),
            ProcessError::OtherSignInError => String::from_str("Other sign in error."),
            ProcessError::PasswordRequired => String::from_str("Password required."),
            ProcessError::SessionFileIsNotExist => String::from_str("Session file is not exist."),
            ProcessError::SignUpRequired => String::from_str("Sign up required."),
            ProcessError::UserIsNone => String::from_str("User is None."),
            ProcessError::UsernameIsNone => String::from_str("Username is None."),
        }
    }
}

} // verus!
