//! How packing and unpacking meet: an image that is read back and found to
//! keep the packed entries gives every one of them back.

use vstd::prelude::*;
use vstd::slice::slice_to_vec;
use crate::archive::{archive_image, entry_body, entry_count, entry_name, open_archive, stored_body, stored_count, stored_name};
use crate::bundler::{all_resolved, image_of, is_failure_of, pack, packed_entries, packs};
use crate::entry::{BundleError, SourcedEntry};
use crate::unbundler::{entry_readable, extracts, is_directory_name, is_plan_of, names_directory, readable_up_to, Extraction};

verus! {

/// The image keeps exactly these entries, in this order: as many as there
/// are, each under its name and with its body.
pub open spec fn keeps(image: Seq<u8>, entries: Seq<(Seq<char>, Seq<u8>)>) -> bool {
    &&& stored_count(image) == Some(entries.len())
    &&& forall|i: int|
        0 <= i < entries.len() ==> {
            &&& stored_name(image, i as nat) == Some((#[trigger] entries[i]).0)
            &&& stored_body(image, i as nat) == Some(entries[i].1)
        }
}

/// Tells whether two byte strings are equal.
fn same_bytes(a: &[u8], b: &[u8]) -> (same: bool)
    ensures
        same == (a@ == b@),
{
    if a.len() != b.len() {
        return false;
    }
    let mut i: usize = 0;
    while i < a.len()
        invariant
            a.len() == b.len(),
            0 <= i <= a.len(),
            forall|k: int| 0 <= k < i ==> a@[k] == b@[k],
        decreases a.len() - i,
    {
        if a[i] != b[i] {
            return false;
        }
        i += 1;
    }
    assert(a@ =~= b@);
    true
}

/// Reads the image back and holds it against the descriptors: it says yes
/// exactly when every descriptor has bytes to store and the image keeps their
/// packed entries, a directory marker with an empty body.
pub fn gives_back(image: Vec<u8>, entries: &Vec<SourcedEntry>) -> (yes: bool)
    ensures
        yes <==> all_resolved(entries@) && keeps(image@, packed_entries(entries@)),
{
    let ghost packed = packed_entries(entries@);
    let mut archive = match open_archive(image) {
        Ok(archive) => archive,
        Err(_) => {
            return false;
        },
    };
    if entry_count(&archive) != entries.len() {
        return false;
    }
    let mut i: usize = 0;
    while i < entries.len()
        invariant
            0 <= i <= entries.len(),
            packed == packed_entries(entries@),
            archive_image(archive) == image@,
            stored_count(image@) == Some(entries.len() as nat),
            forall|k: int|
                0 <= k < i ==> {
                    &&& (#[trigger] entries@[k]).payload() is Some
                    &&& stored_name(image@, k as nat) == Some(entries@[k].name())
                    &&& stored_body(image@, k as nat) == Some(entries@[k].packed().1)
                },
        decreases entries.len() - i,
    {
        let entry = &entries[i];
        proof {
            let kept = packed[i as int];
        }
        let bytes = match entry.resolve() {
            Ok(bytes) => bytes,
            Err(_) => {
                return false;
            },
        };
        let name = match entry_name(&mut archive, i) {
            Ok(name) => name,
            Err(_) => {
                return false;
            },
        };
        if !(name == entry.entry.bundled_path) {
            return false;
        }
        let body = match entry_body(&mut archive, i) {
            Some(body) => body,
            None => {
                return false;
            },
        };
        let same = if names_directory(name.as_str()) {
            assert(body@.len() == 0 ==> body@ =~= Seq::<u8>::empty());
            body.len() == 0
        } else {
            same_bytes(body.as_slice(), bytes)
        };
        if !same {
            return false;
        }
        i += 1;
    }
    proof {
        assert forall|k: int| 0 <= k < packed.len() implies {
            &&& stored_name(image@, k as nat) == Some((#[trigger] packed[k]).0)
            &&& stored_body(image@, k as nat) == Some(packed[k].1)
        } by {
            assert(entries@[k].payload() is Some);
        }
    }
    true
}

/// Packs the entries as [`crate::bundler::bundle`] does, then reads the image
/// back and hands it out only where it keeps every packed entry.
///
/// The image comes exactly when packing succeeds and the image, read back,
/// keeps the packed entries; where it does not, the error is `ReadBack`. Any
/// other error is that of the packing.
pub fn bundle_checked(entries: Vec<SourcedEntry>) -> (r: Result<Vec<u8>, BundleError>)
    ensures
        match r {
            Ok(image) => {
                &&& packs(entries@)
                &&& image@ == image_of(entries@)
                &&& keeps(image@, packed_entries(entries@))
            },
            Err(BundleError::ReadBack) => packs(entries@) && !keeps(image_of(entries@), packed_entries(entries@)),
            Err(e) => !packs(entries@) && is_failure_of(entries@, e),
        },
{
    let image = match pack(&entries) {
        Ok(image) => image,
        Err(e) => {
            return Err(e);
        },
    };
    if gives_back(slice_to_vec(image.as_slice()), &entries) {
        Ok(image)
    } else {
        Err(BundleError::ReadBack)
    }
}

/// An image that keeps the packed entries of a list of descriptors can be
/// unpacked in full, and its plan gives every descriptor back in input order:
/// under its bundled path, as a file with exactly the descriptor's bytes, or,
/// where the path ends in a slash, as a directory and no file.
pub proof fn kept_entries_come_back(image: Seq<u8>, entries: Seq<SourcedEntry>, steps: Seq<Extraction>)
    requires
        all_resolved(entries),
        keeps(image, packed_entries(entries)),
        is_plan_of(image, steps),
    ensures
        readable_up_to(image, entries.len()),
        steps.len() == entries.len(),
        forall|i: int|
            0 <= i < entries.len() ==> {
                &&& (#[trigger] steps[i]).name() == entries[i].name()
                &&& is_directory_name(entries[i].name()) ==> steps[i] is Directory
                &&& !is_directory_name(entries[i].name()) ==> steps[i] is File && steps[i].body()
                    == entries[i].payload()
            },
{
    let packed = packed_entries(entries);
    assert forall|i: nat| i < entries.len() implies #[trigger] entry_readable(image, i) by {
        assert(packed[i as int] == entries[i as int].packed());
    }
    assert forall|i: int| 0 <= i < entries.len() implies {
        &&& (#[trigger] steps[i]).name() == entries[i].name()
        &&& is_directory_name(entries[i].name()) ==> steps[i] is Directory
        &&& !is_directory_name(entries[i].name()) ==> steps[i] is File && steps[i].body() == entries[i].payload()
    } by {
        assert(packed[i] == entries[i].packed());
        assert(extracts(image, i as nat, steps[i]));
    }
}

} // verus!
