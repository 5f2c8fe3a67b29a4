//! Unpacking: an archive image becomes the ordered list of directories to
//! create and files to write, each under its stored name.

use vstd::prelude::*;
use vstd::string::{StrSliceExecFns, StringExecFns};
use crate::archive::{describe, entry_body, entry_count, entry_name, open_archive, archive_image, stored_body, stored_count, stored_name};

verus! {

/// One thing to materialise under the destination root.
#[derive(Debug, Clone, PartialEq, Eq)]
pub enum Extraction {
    /// Create the directory of this stored name, with its missing ancestors.
    Directory(String),
    /// Create the missing ancestors, then write these bytes to the file of
    /// this stored name, replacing what is there.
    File(String, Vec<u8>),
}

/// Why unpacking stopped.
#[derive(Debug, Clone, PartialEq, Eq)]
pub enum UnbundleError {
    /// The image is no readable archive; the text is the reader's own.
    InvalidArchive(String),
    /// The entry at this index could not be opened; the text is the reader's own.
    EntryUnreadable(usize, String),
    /// The body of the file entry of this stored name could not be read.
    BodyUnreadable(String),
}

/// An unpacking that stopped early: the steps for the entries before the one
/// that failed, in stored order, and the failure. Those steps are still to be
/// materialised; nothing after them is.
#[derive(Debug, Clone, PartialEq, Eq)]
pub struct Stopped {
    pub extracted: Vec<Extraction>,
    pub error: UnbundleError,
}

/// A stored name denotes a directory where it ends in a slash.
pub open spec fn is_directory_name(name: Seq<char>) -> bool {
    name.len() > 0 && name.last() == '/'
}

/// Tells whether a stored name denotes a directory.
pub fn names_directory(name: &str) -> (b: bool)
    ensures
        b == is_directory_name(name@),
{
    let n = name.unicode_len();
    n > 0 && name.get_char(n - 1) == '/'
}

impl Extraction {
    /// The stored name that the step is for.
    pub open spec fn name(&self) -> Seq<char> {
        match self {
            Extraction::Directory(name) => name@,
            Extraction::File(name, _) => name@,
        }
    }

    /// The bytes to write, for a file.
    pub open spec fn body(&self) -> Option<Seq<u8>> {
        match self {
            Extraction::Directory(_) => None,
            Extraction::File(_, bytes) => Some(bytes@),
        }
    }

    /// The step for a stored name that denotes a file, given what reading its
    /// body gave: the file with those bytes, or the error that names it.
    pub fn file(name: String, body: Option<Vec<u8>>) -> (r: Result<Extraction, UnbundleError>)
        ensures
            match r {
                Ok(step) => step is File && step.name() == name@ && body is Some && step.body() == Some(body.unwrap()@),
                Err(e) => body is None && (e matches UnbundleError::BodyUnreadable(n) && n@ == name@),
            },
    {
        match body {
            Some(bytes) => Ok(Extraction::File(name, bytes)),
            None => Err(UnbundleError::BodyUnreadable(name)),
        }
    }
}

impl UnbundleError {
    /// The message as a sequence of characters. For an unreadable body it
    /// names the stored name of the entry.
    pub open spec fn message_text(&self) -> Seq<char> {
        match self {
            UnbundleError::InvalidArchive(detail) => "Invalid zip archive: "@ + detail@,
            UnbundleError::EntryUnreadable(_, detail) => "Failed to read zip entry: "@ + detail@,
            UnbundleError::BodyUnreadable(name) => "Failed to write the file: "@ + name@,
        }
    }

    /// A human-readable message for the failure.
    pub fn message(&self) -> (text: String)
        ensures
            text@ == self.message_text(),
    {
        match self {
            UnbundleError::InvalidArchive(detail) => String::from_str("Invalid zip archive: ").concat(detail.as_str()),
            UnbundleError::EntryUnreadable(_, detail) => String::from_str("Failed to read zip entry: ").concat(detail.as_str()),
            UnbundleError::BodyUnreadable(name) => String::from_str("Failed to write the file: ").concat(name.as_str()),
        }
    }
}

/// The entry at `index` of the image can be extracted: it has a stored name,
/// and a body that can be read unless the name denotes a directory.
pub open spec fn entry_readable(image: Seq<u8>, index: nat) -> bool {
    stored_name(image, index) is Some && (is_directory_name(stored_name(image, index).unwrap())
        || stored_body(image, index) is Some)
}

/// `step` is the extraction of the entry at `index`: it carries the stored
/// name; a name that ends in a slash gives a directory and no file, any other
/// gives a file with the entry's body.
pub open spec fn extracts(image: Seq<u8>, index: nat, step: Extraction) -> bool {
    &&& stored_name(image, index) == Some(step.name())
    &&& if is_directory_name(step.name()) {
        step is Directory
    } else {
        step is File && stored_body(image, index) == step.body()
    }
}

/// `e` is the failure of the entry at `index`.
pub open spec fn fails_at(image: Seq<u8>, index: nat, e: UnbundleError) -> bool {
    match e {
        UnbundleError::InvalidArchive(_) => false,
        UnbundleError::EntryUnreadable(k, _) => k == index && stored_name(image, index) is None,
        UnbundleError::BodyUnreadable(name) => {
            &&& stored_name(image, index) == Some(name@)
            &&& !is_directory_name(name@)
            &&& stored_body(image, index) is None
        },
    }
}

/// The first `count` entries of the image can all be extracted.
pub open spec fn readable_up_to(image: Seq<u8>, count: nat) -> bool {
    forall|i: nat| i < count ==> #[trigger] entry_readable(image, i)
}

/// `steps` is the extraction plan of the image: one step per entry, in the
/// archive's stored order.
pub open spec fn is_plan_of(image: Seq<u8>, steps: Seq<Extraction>) -> bool {
    &&& stored_count(image) == Some(steps.len())
    &&& forall|i: int| 0 <= i < steps.len() ==> extracts(image, i as nat, #[trigger] steps[i])
}

/// `stopped` is how the unpacking of the image ends early: the image is no
/// archive and nothing was extracted, or the steps are those of the entries
/// before the first that cannot be extracted, and the error is its failure.
pub open spec fn is_stop_of(image: Seq<u8>, stopped: Stopped) -> bool {
    match stopped.error {
        UnbundleError::InvalidArchive(_) => stored_count(image) is None && stopped.extracted@.len() == 0,
        _ => {
            &&& stored_count(image) is Some
            &&& stopped.extracted@.len() < stored_count(image).unwrap()
            &&& forall|i: int|
                0 <= i < stopped.extracted@.len() ==> extracts(image, i as nat, #[trigger] stopped.extracted@[i])
            &&& fails_at(image, stopped.extracted@.len(), stopped.error)
        },
    }
}

/// Turns an archive image into its extraction plan.
///
/// The entries are taken in the archive's stored order and the first failure
/// ends the work, with the steps of the entries before it. The full plan comes
/// exactly when the image is a readable archive all of whose entries can be
/// extracted; an archive without entries gives the empty plan.
pub fn unbundle(image: Vec<u8>) -> (r: Result<Vec<Extraction>, Stopped>)
    ensures
        match r {
            Ok(steps) => is_plan_of(image@, steps@),
            Err(stopped) => is_stop_of(image@, stopped),
        },
        r is Ok <==> stored_count(image@) is Some && readable_up_to(image@, stored_count(image@).unwrap()),
        stored_count(image@) == Some(0nat) ==> (r matches Ok(steps) && steps@.len() == 0),
{
    let mut archive = match open_archive(image) {
        Ok(archive) => archive,
        Err(e) => {
            return Err(Stopped { extracted: Vec::new(), error: UnbundleError::InvalidArchive(describe(&e)) });
        },
    };
    let count = entry_count(&archive);
    let mut steps: Vec<Extraction> = Vec::new();
    let mut i: usize = 0;
    while i < count
        invariant
            0 <= i <= count,
            archive_image(archive) == image@,
            stored_count(image@) == Some(count as nat),
            steps.len() == i,
            forall|k: int| 0 <= k < i ==> extracts(image@, k as nat, #[trigger] steps[k]),
            readable_up_to(image@, i as nat),
        decreases count - i,
    {
        let name = match entry_name(&mut archive, i) {
            Ok(name) => name,
            Err(e) => {
                let error = UnbundleError::EntryUnreadable(i, describe(&e));
                assert(!entry_readable(image@, i as nat));
                return Err(Stopped { extracted: steps, error });
            },
        };
        let step = if names_directory(name.as_str()) {
            Extraction::Directory(name)
        } else {
            match Extraction::file(name, entry_body(&mut archive, i)) {
                Ok(step) => step,
                Err(error) => {
                    assert(!entry_readable(image@, i as nat));
                    return Err(Stopped { extracted: steps, error });
                },
            }
        };
        steps.push(step);
        i += 1;
    }
    Ok(steps)
}

/// An image has one plan: two plans of the same image have the same steps in
/// the same order, each of the same kind, for the same stored name and with
/// the same bytes. So unpacking an archive again asks for the same files with
/// the same contents.
pub proof fn plan_determined(image: Seq<u8>, first: Seq<Extraction>, second: Seq<Extraction>)
    requires
        is_plan_of(image, first),
        is_plan_of(image, second),
    ensures
        first.len() == second.len(),
        forall|i: int|
            0 <= i < first.len() ==> {
                &&& (#[trigger] first[i]).name() == second[i].name()
                &&& first[i].body() == second[i].body()
                &&& (first[i] is Directory <==> second[i] is Directory)
            },
{
    assert forall|i: int| 0 <= i < first.len() implies {
        &&& (#[trigger] first[i]).name() == second[i].name()
        &&& first[i].body() == second[i].body()
        &&& (first[i] is Directory <==> second[i] is Directory)
    } by {
        assert(extracts(image, i as nat, first[i]));
        assert(extracts(image, i as nat, second[i]));
    }
}

/// A stored name that ends in a slash is extracted as a directory and as no
/// file, whatever body the entry holds.
pub proof fn directory_marker_gives_directory(image: Seq<u8>, steps: Seq<Extraction>, i: int)
    requires
        is_plan_of(image, steps),
        0 <= i < steps.len(),
        is_directory_name(stored_name(image, i as nat).unwrap()),
    ensures
        steps[i] is Directory,
        steps[i].body() is None,
{
    assert(extracts(image, i as nat, steps[i]));
}

/// What was extracted before a failure is the start of the plan: the steps of
/// an unpacking that stopped early are, one by one, the extractions of the
/// first entries of the image, and the entry after them is the first that
/// cannot be extracted.
pub proof fn stop_keeps_earlier_entries(image: Seq<u8>, stopped: Stopped)
    requires
        is_stop_of(image, stopped),
    ensures
        readable_up_to(image, stopped.extracted@.len()),
        stored_count(image) is Some ==> !entry_readable(image, stopped.extracted@.len()),
{
    assert forall|i: nat| i < stopped.extracted@.len() implies #[trigger] entry_readable(image, i) by {
        assert(extracts(image, i, stopped.extracted@[i as int]));
    }
}

} // verus!
