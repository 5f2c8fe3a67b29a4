//! Entry descriptors: what goes into an archive, and under which name.

use vstd::prelude::*;
use vstd::string::StringExecFns;
use vstd::utf8::encode_utf8;
use crate::unbundler::is_directory_name;

verus! {

/// Where the body of an entry comes from.
#[derive(Debug, Clone, PartialEq, Eq)]
pub enum FileContent {
    /// Text that is stored verbatim, as its UTF-8 bytes.
    Data(String),
    /// The path of a file whose bytes are stored verbatim.
    Path(String),
}

/// One entry to pack: its content source and its path inside the archive.
#[derive(Debug, Clone, PartialEq, Eq)]
pub struct FileEntry {
    pub file_content: FileContent,
    pub bundled_path: String,
}

/// What came of reading the file that a descriptor refers to.
#[derive(Debug, Clone, PartialEq, Eq)]
pub enum FileRead {
    /// The file was read to its end; these are its bytes.
    Loaded(Vec<u8>),
    /// The file could not be opened.
    OpenFailed,
    /// The file was opened but could not be read to its end.
    ReadFailed,
}

/// A descriptor together with the outcome of reading its file. For inline
/// content nothing is read, and `read` is ignored.
#[derive(Debug, Clone, PartialEq, Eq)]
pub struct SourcedEntry {
    pub entry: FileEntry,
    pub read: FileRead,
}

/// Why bundling stopped. Each variant but `Finish` and `ReadBack` carries the path that the
/// message names: the path of the referenced file or, for the writer's refusal
/// of inline content, the entry's path inside the archive.
#[derive(Debug, Clone, PartialEq, Eq)]
pub enum BundleError {
    /// A referenced file could not be opened.
    OpenSource(String),
    /// A referenced file could not be read to its end.
    ReadSource(String),
    /// The archive writer refused to start the entry.
    StartEntry(String),
    /// The archive writer failed to take the entry's body.
    WriteEntry(String),
    /// The archive writer failed to write the central directory.
    Finish,
    /// The finished image, read back, did not give the entries that were packed.
    ReadBack,
}

impl FileEntry {
    /// The path by which messages name this entry: the path of the referenced
    /// file, or for inline content the entry's path inside the archive.
    pub open spec fn label(&self) -> Seq<char> {
        match self.file_content {
            FileContent::Data(_) => self.bundled_path@,
            FileContent::Path(path) => path@,
        }
    }

    /// Hands out a copy of the label.
    pub fn label_text(&self) -> (text: String)
        ensures
            text@ == self.label(),
    {
        match &self.file_content {
            FileContent::Data(_) => self.bundled_path.clone(),
            FileContent::Path(path) => path.clone(),
        }
    }
}

impl SourcedEntry {
    /// The entry's name inside the archive.
    pub open spec fn name(&self) -> Seq<char> {
        self.entry.bundled_path@
    }

    /// The bytes to store for this entry, where there are any: the UTF-8
    /// encoding of inline text, or the bytes loaded from the referenced file.
    pub open spec fn payload(&self) -> Option<Seq<u8>> {
        match self.entry.file_content {
            FileContent::Data(text) => Some(encode_utf8(text@)),
            FileContent::Path(_) => match self.read {
                FileRead::Loaded(bytes) => Some(bytes@),
                _ => None,
            },
        }
    }

    /// The failure that stands in the way of a payload, where there is none.
    pub open spec fn payload_failure(&self, e: BundleError) -> bool {
        match self.entry.file_content {
            FileContent::Data(_) => false,
            FileContent::Path(path) => match self.read {
                FileRead::Loaded(_) => false,
                FileRead::OpenFailed => e matches BundleError::OpenSource(p) && p@ == path@,
                FileRead::ReadFailed => e matches BundleError::ReadSource(p) && p@ == path@,
            },
        }
    }

    /// The archive entry that this descriptor becomes: its name and its body.
    /// A name that ends in a slash marks a directory, which has no content:
    /// its body is empty, whatever the payload.
    pub open spec fn packed(&self) -> (Seq<char>, Seq<u8>)
        recommends
            self.payload() is Some,
    {
        (
            self.name(),
            if is_directory_name(self.name()) {
                Seq::empty()
            } else {
                self.payload().unwrap()
            },
        )
    }

    /// Chooses the bytes to store by the kind of content: inline text gives
    /// its UTF-8 bytes, a file reference gives what was loaded, and a file that
    /// could not be opened or read gives the matching error with its path.
    pub fn resolve(&self) -> (r: Result<&[u8], BundleError>)
        ensures
            match r {
                Ok(bytes) => self.payload() == Some(bytes@),
                Err(e) => self.payload() is None && self.payload_failure(e),
            },
    {
        match &self.entry.file_content {
            FileContent::Data(text) => Ok(text.as_str().as_bytes()),
            FileContent::Path(path) => match &self.read {
                FileRead::Loaded(bytes) => Ok(bytes.as_slice()),
                FileRead::OpenFailed => Err(BundleError::OpenSource(path.clone())),
                FileRead::ReadFailed => Err(BundleError::ReadSource(path.clone())),
            },
        }
    }
}

impl BundleError {
    /// The message as a sequence of characters.
    pub open spec fn message_text(&self) -> Seq<char> {
        match self {
            BundleError::OpenSource(path) => "Failed to open the file: "@ + path@,
            BundleError::ReadSource(path) => "Failed to read the file: "@ + path@,
            BundleError::StartEntry(label) => "Failed to write the file: "@ + label@,
            BundleError::WriteEntry(label) => "Failed to write content of: "@ + label@,
            BundleError::Finish => "Failed to finish the archive"@,
            BundleError::ReadBack => "Failed to read the archive back"@,
        }
    }

    /// A human-readable message that names the offending path or entry.
    pub fn message(&self) -> (text: String)
        ensures
            text@ == self.message_text(),
    {
        match self {
            BundleError::OpenSource(path) => String::from_str("Failed to open the file: ").concat(path.as_str()),
            BundleError::ReadSource(path) => String::from_str("Failed to read the file: ").concat(path.as_str()),
            BundleError::StartEntry(label) => String::from_str("Failed to write the file: ").concat(label.as_str()),
            BundleError::WriteEntry(label) => String::from_str("Failed to write content of: ").concat(label.as_str()),
            BundleError::Finish => String::from_str("Failed to finish the archive"),
            BundleError::ReadBack => String::from_str("Failed to read the archive back"),
        }
    }
}

} // verus!
