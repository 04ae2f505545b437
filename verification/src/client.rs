use vstd::prelude::*;

use crate::file::{File, FileMetadata, FileShape};
use crate::path::split_slash;
use crate::process_error::ProcessError;

verus! {

/// What the state machine reads of one remote connection: the account
/// identity once authenticated, and whether the dedicated storage container
/// has been located. The live connection handle itself stays outside the
/// library, keyed by the same username.
#[derive(Debug, PartialEq)]
pub struct Client {
    pub username: Option<String>,
    pub user_id: Option<i64>,
    pub has_chat: bool,
}

impl Clone for Client {
    /// A copy standing for the same connection.
    fn clone(&self) -> (r: Self)
        ensures
            r == *self,
    {
        let username = match &self.username {
            Some(u) => Some(u.clone()),
            None => None,
        };
        Self { username, user_id: self.user_id, has_chat: self.has_chat }
    }
}

impl Client {
    /// A client record; authenticated when the identity is known.
    pub fn new(username: Option<String>, user_id: Option<i64>, has_chat: bool) -> (r: Self)
        ensures
            r.username == username,
            r.user_id == user_id,
            r.has_chat == has_chat,
    {
        Self { username, user_id, has_chat }
    }

    /// The account's username, or the failure naming what is missing.
    pub fn get_username(&self) -> (r: Result<String, ProcessError>)
        ensures
            match r {
                Ok(u) => self.username is Some && u == self.username->0,
                Err(e) => self.username is None && e == ProcessError::UsernameIsNone,
            },
    {
        match &self.username {
            Some(u) => Ok(u.clone()),
            None => Err(ProcessError::UsernameIsNone),
        }
    }
}

/// How the backend answered the first, code-based sign-in step.
#[derive(Debug, Clone, Copy, PartialEq, Eq, Structural)]
pub enum SignInResponse {
    Accepted,
    SignUpRequired,
    PasswordRequired,
    InvalidCode,
    InvalidPassword,
    OtherError,
}

/// What the sign-in flow does next: proceed as authenticated, attempt the
/// password step, or stop with that failure.
#[derive(Debug, Clone, Copy, PartialEq, Eq, Structural)]
pub enum SignInStep {
    Complete,
    CheckPassword,
    Fail(ProcessError),
}

/// Classifies the backend's answer to the code-based sign-in step. The
/// password step is attempted only when the backend asks for a password and
/// one was supplied; when none was, the flow stops at once with the
/// password-required failure, so nothing is persisted and nothing created.
pub fn sign_in_decision(response: &SignInResponse, user_password: &str) -> (r: SignInStep)
    ensures
        r == match response {
            SignInResponse::Accepted => SignInStep::Complete,
            SignInResponse::SignUpRequired => SignInStep::Fail(ProcessError::SignUpRequired),
            SignInResponse::PasswordRequired => if user_password@.len() > 0 {
                SignInStep::CheckPassword
            } else {
                SignInStep::Fail(ProcessError::PasswordRequired)
            },
            SignInResponse::InvalidCode => SignInStep::Fail(ProcessError::InvalidCode),
            SignInResponse::InvalidPassword => SignInStep::Fail(ProcessError::InvalidPassword),
            SignInResponse::OtherError => SignInStep::Fail(ProcessError::OtherSignInError),
        },
{
    match response {
        SignInResponse::Accepted => SignInStep::Complete,
        SignInResponse::SignUpRequired => SignInStep::Fail(ProcessError::SignUpRequired),
        SignInResponse::PasswordRequired => {
            if !user_password.is_empty() {
                SignInStep::CheckPassword
            } else {
                SignInStep::Fail(ProcessError::PasswordRequired)
            }
        },
        SignInResponse::InvalidCode => SignInStep::Fail(ProcessError::InvalidCode),
        SignInResponse::InvalidPassword => SignInStep::Fail(ProcessError::InvalidPassword),
        SignInResponse::OtherError => SignInStep::Fail(ProcessError::OtherSignInError),
    }
}

/// Classifies the outcome of the password step: success proceeds, any
/// failure there stops the flow.
pub fn password_check_decision(succeeded: bool) -> (r: SignInStep)
    ensures
        r == if succeeded {
            SignInStep::Complete
        } else {
            SignInStep::Fail(ProcessError::OtherSignInError)
        },
{
    if succeeded {
        SignInStep::Complete
    } else {
        SignInStep::Fail(ProcessError::OtherSignInError)
    }
}

/// What kind of attachment a stored message carries: only document-like and
/// sticker-backed-document attachments are recognized as stored objects.
#[derive(Debug, Clone, PartialEq)]
pub enum MediaInfo {
    Document(String),
    Sticker(String),
    OtherMedia,
    NoMedia,
}

/// The shape of an attachment, for specification.
pub enum MediaShape {
    Document(Seq<char>),
    Sticker(Seq<char>),
    OtherMedia,
    NoMedia,
}

impl View for MediaInfo {
    type V = MediaShape;

    open spec fn view(&self) -> MediaShape {
        match self {
            MediaInfo::Document(name) => MediaShape::Document(name@),
            MediaInfo::Sticker(name) => MediaShape::Sticker(name@),
            MediaInfo::OtherMedia => MediaShape::OtherMedia,
            MediaInfo::NoMedia => MediaShape::NoMedia,
        }
    }
}

/// What the projection reads of one message in the storage container: its
/// identifier, its text payload, and its attachment.
#[derive(Debug, Clone, PartialEq)]
pub struct MessageInfo {
    pub id: i32,
    pub text: String,
    pub media: MediaInfo,
}

/// The shape of a message, for specification.
pub struct MessageShape {
    pub id: int,
    pub text: Seq<char>,
    pub media: MediaShape,
}

impl View for MessageInfo {
    type V = MessageShape;

    open spec fn view(&self) -> MessageShape {
        MessageShape { id: self.id as int, text: self.text@, media: self.media@ }
    }
}

impl MessageInfo {
    /// A message record from its parts.
    pub fn new(id: i32, text: String, media: MediaInfo) -> (r: Self)
        ensures
            r.id == id,
            r.text == text,
            r.media == media,
    {
        Self { id, text, media }
    }
}

/// The parse of a message text as a metadata record: the version tag and the
/// virtual path, when the text is a well-formed record, and nothing
/// otherwise. A function of the text alone.
pub uninterp spec fn metadata_of(text: Seq<char>) -> Option<(Seq<char>, Seq<char>)>;

/// Relies on serde_json::from_str: whether and how a text parses as the
/// metadata record is a function of the text alone. The record is read as a
/// JSON object of string fields, so a record carrying an extra field of
/// another type is refused here, and the message skipped, where
/// field-by-field deserialization would ignore the extra; only the two
/// named fields are ever produced either way.
#[verifier::external_body]
fn parse_metadata(text: &str) -> (r: Option<FileMetadata>)
    ensures
        match r {
            Some(m) => metadata_of(text@) == Some((m.version@, m.path@)),
            None => metadata_of(text@) is None,
        },
{
    let fields: std::collections::HashMap<String, String> = match serde_json::from_str(text) {
        Ok(v) => v,
        Err(_) => return None,
    };
    match (fields.get("version"), fields.get("path")) {
        (Some(version), Some(path)) => Some(FileMetadata {
            version: version.clone(),
            path: path.clone(),
        }),
        _ => None,
    }
}

/// Whether a listed message is kept: its text parses as a metadata record
/// and it carries a recognized attachment.
pub open spec fn message_kept(m: MessageShape) -> bool {
    &&& metadata_of(m.text) is Some
    &&& (m.media is Document || m.media is Sticker)
}

/// The display name of a recognized attachment.
pub open spec fn media_name(m: MediaShape) -> Seq<char>
    recommends
        m is Document || m is Sticker,
{
    match m {
        MediaShape::Document(name) => name,
        MediaShape::Sticker(name) => name,
        _ => Seq::empty(),
    }
}

/// The stored-object entry built from one kept message.
pub open spec fn file_of_message(m: MessageShape) -> FileShape
    recommends
        message_kept(m),
{
    let md = metadata_of(m.text);
    let version = match md {
        Some(p) => p.0,
        None => Seq::empty(),
    };
    let path = match md {
        Some(p) => p.1,
        None => Seq::empty(),
    };
    FileShape {
        version,
        raw: path,
        comps: split_slash(path),
        message_id: m.id,
        name: media_name(m.media),
    }
}

/// The kept messages of the container, in order, as stored-object entries.
pub open spec fn spec_collect(ms: Seq<MessageShape>) -> Seq<FileShape>
    decreases ms.len(),
{
    if ms.len() == 0 {
        Seq::empty()
    } else {
        spec_collect(ms.drop_last()) + if message_kept(ms.last()) {
            seq![file_of_message(ms.last())]
        } else {
            Seq::empty()
        }
    }
}

/// Projects the listed messages onto stored-object entries: a message is
/// kept exactly when its text parses as a metadata record and it carries a
/// document-like or sticker-backed attachment; all others are skipped.
pub fn collect_uploaded_files(messages: &Vec<MessageInfo>) -> (r: Vec<File>)
    ensures
        r@.map_values(|f: File| f@) == spec_collect(messages@.map_values(|m: MessageInfo| m@)),
        forall|i: int| 0 <= i < r@.len() ==> (#[trigger] r@[i]).path.wf(),
{
    let ghost msv = messages@.map_values(|m: MessageInfo| m@);
    let mut r: Vec<File> = Vec::new();
    let mut i: usize = 0;
    proof {
        assert(msv.subrange(0, 0) =~= Seq::<MessageShape>::empty());
        assert(r@.map_values(|f: File| f@) =~= Seq::<FileShape>::empty());
    }
    while i < messages.len()
        invariant
            i <= messages@.len(),
            msv == messages@.map_values(|m: MessageInfo| m@),
            r@.map_values(|f: File| f@) == spec_collect(msv.subrange(0, i as int)),
            forall|t: int| 0 <= t < r@.len() ==> (#[trigger] r@[t]).path.wf(),
        decreases messages@.len() - i,
    {
        let ghost pre = r@;
        let m = &messages[i];
        match parse_metadata(m.text.as_str()) {
            Some(metadata) => {
                match &m.media {
                    MediaInfo::Document(name) => {
                        let file = File::new(metadata, m.id, name.clone());
                        r.push(file);
                    },
                    MediaInfo::Sticker(name) => {
                        let file = File::new(metadata, m.id, name.clone());
                        r.push(file);
                    },
                    MediaInfo::OtherMedia => {},
                    MediaInfo::NoMedia => {},
                }
            },
            None => {},
        }
        proof {
            assert(msv.subrange(0, i as int + 1).drop_last() =~= msv.subrange(0, i as int));
            assert(msv.subrange(0, i as int + 1).last() == msv[i as int]);
            if message_kept(msv[i as int]) {
                assert(r@.map_values(|f: File| f@) =~= pre.map_values(|f: File| f@).push(
                    r@.last()@,
                ));
                assert(r@.last()@ == file_of_message(msv[i as int]));
                assert(pre.map_values(|f: File| f@).push(file_of_message(msv[i as int])) =~= pre
                    .map_values(|f: File| f@) + seq![file_of_message(msv[i as int])]);
            } else {
                assert(r@ == pre);
            }
            assert(r@.map_values(|f: File| f@) == spec_collect(msv.subrange(0, i as int + 1)));
        }
        i = i + 1;
    }
    proof {
        assert(msv.subrange(0, msv.len() as int) =~= msv);
    }
    r
}

/// The download work for a batch of fetched messages, walked in order: the
/// walk stops silently at the first identifier the backend did not resolve;
/// a resolved message with a recognized attachment is downloaded under the
/// attachment's name; one with an unrecognized attachment is skipped; one
/// with no attachment at all aborts the whole batch with a hard failure.
pub open spec fn spec_plan_downloads(ms: Seq<Option<MessageShape>>) -> Result<
    Seq<(int, Seq<char>)>,
    ProcessError,
>
    decreases ms.len(),
{
    if ms.len() == 0 {
        Ok(Seq::empty())
    } else {
        match ms[0] {
            Option::None => Ok(Seq::empty()),
            Option::Some(m) => match m.media {
                MediaShape::NoMedia => Err(ProcessError::MessageNotContainsMedia),
                MediaShape::OtherMedia => spec_plan_downloads(ms.drop_first()),
                MediaShape::Document(name) => match spec_plan_downloads(ms.drop_first()) {
                    Ok(rest) => Ok(seq![(m.id, name)] + rest),
                    Err(e) => Err(e),
                },
                MediaShape::Sticker(name) => match spec_plan_downloads(ms.drop_first()) {
                    Ok(rest) => Ok(seq![(m.id, name)] + rest),
                    Err(e) => Err(e),
                },
            },
        }
    }
}

/// The view of one fetched message slot.
pub open spec fn opt_msg_view(m: Option<MessageInfo>) -> Option<MessageShape> {
    match m {
        Option::Some(x) => Option::Some(x@),
        Option::None => Option::None,
    }
}

/// The view of a planned batch.
pub open spec fn plan_view(v: Seq<(i32, String)>) -> Seq<(int, Seq<char>)> {
    v.map_values(|p: (i32, String)| (p.0 as int, p.1@))
}

/// What a download batch does with one fetched message slot: an identifier
/// the backend did not resolve stops the walk; a recognized attachment is
/// fetched under its display name; an unrecognized one is skipped; a
/// message with no attachment at all aborts the batch.
#[derive(Debug, Clone, PartialEq)]
pub enum DownloadStep {
    Fetch(i32, String),
    Skip,
    Stop,
    Fail(ProcessError),
}

/// Decides one step of a download batch, so that a caller performing the
/// downloads one slot at a time takes exactly the walk that
/// `spec_plan_downloads` describes: items already fetched stay fetched when
/// a later slot aborts the batch.
pub fn download_step(slot: &Option<MessageInfo>) -> (r: DownloadStep)
    ensures
        r == match *slot {
            Option::None => DownloadStep::Stop,
            Option::Some(m) => match m.media {
                MediaInfo::Document(name) => DownloadStep::Fetch(m.id, name),
                MediaInfo::Sticker(name) => DownloadStep::Fetch(m.id, name),
                MediaInfo::OtherMedia => DownloadStep::Skip,
                MediaInfo::NoMedia => DownloadStep::Fail(ProcessError::MessageNotContainsMedia),
            },
        },
{
    match slot {
        Option::Some(m) => match &m.media {
            MediaInfo::Document(name) => DownloadStep::Fetch(m.id, name.clone()),
            MediaInfo::Sticker(name) => DownloadStep::Fetch(m.id, name.clone()),
            MediaInfo::OtherMedia => DownloadStep::Skip,
            MediaInfo::NoMedia => DownloadStep::Fail(ProcessError::MessageNotContainsMedia),
        },
        Option::None => DownloadStep::Stop,
    }
}

/// Decides what a download batch does with the messages the backend
/// returned, one `Option` per requested identifier, in order.
pub fn plan_downloads(messages: &Vec<Option<MessageInfo>>) -> (r: Result<
    Vec<(i32, String)>,
    ProcessError,
>)
    ensures
        match r {
            Ok(plan) => spec_plan_downloads(
                messages@.map_values(|m: Option<MessageInfo>| opt_msg_view(m)),
            ) == Ok::<Seq<(int, Seq<char>)>, ProcessError>(plan_view(plan@)),
            Err(e) => spec_plan_downloads(
                messages@.map_values(|m: Option<MessageInfo>| opt_msg_view(m)),
            ) == Err::<Seq<(int, Seq<char>)>, ProcessError>(e),
        },
{
    let ghost msv = messages@.map_values(|m: Option<MessageInfo>| opt_msg_view(m));
    let mut plan: Vec<(i32, String)> = Vec::new();
    let mut i: usize = 0;
    proof {
        assert(msv.skip(0) =~= msv);
        assert(plan_view(plan@) =~= Seq::<(int, Seq<char>)>::empty());
    }
    while i < messages.len()
        invariant
            i <= messages@.len(),
            msv == messages@.map_values(|m: Option<MessageInfo>| opt_msg_view(m)),
            spec_plan_downloads(msv) == match spec_plan_downloads(msv.skip(i as int)) {
                Ok(rest) => Ok::<Seq<(int, Seq<char>)>, ProcessError>(plan_view(plan@) + rest),
                Err(e) => Err::<Seq<(int, Seq<char>)>, ProcessError>(e),
            },
        decreases messages@.len() - i,
    {
        let ghost pre = plan@;
        proof {
            assert(msv.skip(i as int).len() > 0);
            assert(msv.skip(i as int)[0] == msv[i as int]);
            assert(msv.skip(i as int).drop_first() =~= msv.skip(i as int + 1));
        }
        match download_step(&messages[i]) {
            DownloadStep::Fetch(id, name) => {
                let ghost namev = name@;
                plan.push((id, name));
                proof {
                    assert(plan_view(plan@) =~= plan_view(pre).push((id as int, namev)));
                    assert(forall|rest: Seq<(int, Seq<char>)>|
                        plan_view(pre) + (seq![(id as int, namev)] + rest) =~= (plan_view(
                            pre,
                        ).push((id as int, namev))) + rest);
                }
            },
            DownloadStep::Skip => {},
            DownloadStep::Fail(e) => {
                return Err(e);
            },
            DownloadStep::Stop => {
                proof {
                    assert(plan_view(plan@) + Seq::<(int, Seq<char>)>::empty() =~= plan_view(
                        plan@,
                    ));
                }
                return Ok(plan);
            },
        }
        i = i + 1;
    }
    proof {
        assert(msv.skip(msv.len() as int) =~= Seq::<Option<MessageShape>>::empty());
        assert(plan_view(plan@) + Seq::<(int, Seq<char>)>::empty() =~= plan_view(plan@));
    }
    Ok(plan)
}

/// The exact text posted with every upload: the metadata record for the
/// placeholder virtual path.
pub open spec fn upload_metadata_json() -> Seq<char> {
    "{\"version\":\"1\",\"path\":\"\"}"@
}

/// The message text combined with each uploaded attachment: a fresh
/// metadata record, serialized.
pub fn upload_metadata_text() -> (r: String)
    ensures
        r@ == upload_metadata_json(),
{
    String::from_str("{\"version\":\"1\",\"path\":\"\"}")
}

} // verus!
