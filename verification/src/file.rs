use vstd::prelude::*;

use crate::path::{split_slash, Path};

verus! {

/// The structured record stored as a message's text: a format-version tag
/// and the object's virtual path.
#[derive(Debug, PartialEq)]
pub struct FileMetadata {
    pub version: String,
    pub path: String,
}

impl Clone for FileMetadata {
    /// A copy of the same record.
    fn clone(&self) -> (r: Self)
        ensures
            r == *self,
    {
        Self { version: self.version.clone(), path: self.path.clone() }
    }
}

impl FileMetadata {
    /// A fresh record for an upload, at the current format version.
    pub fn new(path: String) -> (r: Self)
        ensures
            r.path == path,
            r.version@ == seq!['1'],
    {
        proof {
            reveal_strlit("1");
            assert("1"@ =~= seq!['1']);
        }
        Self { version: String::from_str("1"), path }
    }
}

/// One stored object: its metadata record, the virtual path split out of it,
/// the backend message identifier that addresses it for download and
/// deletion, and its display name.
#[derive(Debug)]
pub struct File {
    pub metadata: FileMetadata,
    pub path: Path,
    pub message_id: i32,
    pub name: String,
}

impl Clone for File {
    /// A copy that stands for the same stored object.
    fn clone(&self) -> (r: Self)
        ensures
            r@ == self@,
            r.metadata == self.metadata,
            r.message_id == self.message_id,
            r.name == self.name,
            r.path.wf() == self.path.wf(),
    {
        Self {
            metadata: self.metadata.clone(),
            path: self.path.clone(),
            message_id: self.message_id,
            name: self.name.clone(),
        }
    }
}

/// The shape of a stored object, for specification.
pub struct FileShape {
    pub version: Seq<char>,
    pub raw: Seq<char>,
    pub comps: Seq<Seq<char>>,
    pub message_id: int,
    pub name: Seq<char>,
}

impl View for File {
    type V = FileShape;

    open spec fn view(&self) -> FileShape {
        FileShape {
            version: self.metadata.version@,
            raw: self.path.raw(),
            comps: self.path.comps(),
            message_id: self.message_id as int,
            name: self.name@,
        }
    }
}

impl File {
    /// Builds the entry for one listed message from its parsed metadata
    /// record, the message identifier and the attachment's display name; the
    /// whole record is kept, and its virtual path is split for the tree.
    pub fn new(metadata: FileMetadata, message_id: i32, name: String) -> (r: Self)
        ensures
            r.metadata == metadata,
            r.message_id == message_id,
            r.name == name,
            r@.version == metadata.version@,
            r@.raw == metadata.path@,
            r@.comps == split_slash(metadata.path@),
            r@.message_id == message_id as int,
            r@.name == name@,
            r.path.wf(),
    {
        let path = Path::new(metadata.path.as_str());
        Self { metadata, path, message_id, name }
    }
}

} // verus!
