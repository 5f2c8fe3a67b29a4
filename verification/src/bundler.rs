//! Packing: an ordered list of sourced entries becomes one archive image.

use vstd::prelude::*;
use vstd::string::StringSliceAdditionalSpecFns;
use vstd::utf8::encode_utf8;
use crate::archive::{ArchiveWriter, Method, WriterCall, MAX_NAME_BYTES, finish_writer, new_writer, sealed_image, start_accepts, start_entry, write_accepts, write_entry, writer_entries, writer_log};
use crate::entry::{BundleError, SourcedEntry};
use crate::unbundler::{is_directory_name, names_directory};

verus! {

/// The archive entries that a list of descriptors becomes, in input order.
pub open spec fn packed_entries(entries: Seq<SourcedEntry>) -> Seq<(Seq<char>, Seq<u8>)> {
    Seq::new(entries.len(), |i: int| entries[i].packed())
}

/// Every descriptor has bytes to store.
pub open spec fn all_resolved(entries: Seq<SourcedEntry>) -> bool {
    forall|i: int| 0 <= i < entries.len() ==> (#[trigger] entries[i]).payload() is Some
}

/// No two descriptors share a name.
pub open spec fn distinct_names(entries: Seq<SourcedEntry>) -> bool {
    forall|i: int, j: int|
        0 <= i < j < entries.len() ==> (#[trigger] entries[i]).name() != (#[trigger] entries[j]).name()
}

/// The name is short enough for the archive format.
pub open spec fn name_fits(name: Seq<char>) -> bool {
    encode_utf8(name).len() <= MAX_NAME_BYTES
}

/// The calls that packing makes on the writer for one entry: a start under
/// its name with the Deflate method and, unless the name marks a directory,
/// one write of its body.
pub open spec fn entry_calls(name: Seq<char>, body: Seq<u8>) -> Seq<WriterCall> {
    if is_directory_name(name) {
        seq![WriterCall::Start(name, Method::Deflated)]
    } else {
        seq![WriterCall::Start(name, Method::Deflated), WriterCall::Write(body)]
    }
}

/// The calls that packing makes on the writer for these entries, in order.
pub open spec fn calls_for(packed: Seq<(Seq<char>, Seq<u8>)>) -> Seq<WriterCall>
    decreases packed.len(),
{
    if packed.len() == 0 {
        Seq::empty()
    } else {
        calls_for(packed.drop_last()) + entry_calls(packed.last().0, packed.last().1)
    }
}

/// A writer with the calls `before` behind it takes one more entry: the name
/// fits, the start succeeds, and then, unless the name marks a directory, the
/// write of the body succeeds.
pub open spec fn entry_accepted(before: Seq<WriterCall>, name: Seq<char>, body: Seq<u8>) -> bool {
    &&& name_fits(name)
    &&& start_accepts(before, name, Method::Deflated)
    &&& is_directory_name(name) || write_accepts(before.push(WriterCall::Start(name, Method::Deflated)), body)
}

/// A new writer takes all these entries, one after the other.
pub open spec fn accepted(packed: Seq<(Seq<char>, Seq<u8>)>) -> bool
    decreases packed.len(),
{
    packed.len() == 0 || (accepted(packed.drop_last()) && entry_accepted(
        calls_for(packed.drop_last()),
        packed.last().0,
        packed.last().1,
    ))
}

/// Packing these descriptors succeeds: each has bytes to store, a new writer
/// takes them all in input order, and it can then be finished.
pub open spec fn packs(entries: Seq<SourcedEntry>) -> bool {
    &&& all_resolved(entries)
    &&& accepted(packed_entries(entries))
    &&& sealed_image(calls_for(packed_entries(entries))) is Some
}

/// The image that packing these descriptors gives: what the writer yields
/// after exactly their entries, in input order.
pub open spec fn image_of(entries: Seq<SourcedEntry>) -> Seq<u8>
    recommends
        packs(entries),
{
    sealed_image(calls_for(packed_entries(entries))).unwrap()
}

/// `e` is the failure of `entry` at a writer with the calls `before` behind
/// it: the failed read of its file; or, where it has bytes to store, the
/// refused start (the name is too long, or the writer says no), or else,
/// unless the name marks a directory, the refused write. The writer's
/// refusals name the entry by its label.
pub open spec fn entry_fails(before: Seq<WriterCall>, entry: SourcedEntry, e: BundleError) -> bool {
    match entry.payload() {
        None => entry.payload_failure(e),
        Some(body) => if !name_fits(entry.name()) || !start_accepts(before, entry.name(), Method::Deflated) {
            e matches BundleError::StartEntry(label) && label@ == entry.entry.label()
        } else {
            &&& !is_directory_name(entry.name())
            &&& !write_accepts(before.push(WriterCall::Start(entry.name(), Method::Deflated)), body)
            &&& e matches BundleError::WriteEntry(label) && label@ == entry.entry.label()
        },
    }
}

/// `e` is the failure of the descriptor at `index`, the ones before it having
/// been packed.
pub open spec fn stops_at(entries: Seq<SourcedEntry>, index: int, e: BundleError) -> bool {
    entry_fails(calls_for(packed_entries(entries.take(index))), entries[index], e)
}

/// `e` is the failure that ends the packing of these descriptors: that of the
/// first descriptor that cannot be packed, or, where all were packed, the
/// writer's failure to finish.
pub open spec fn is_failure_of(entries: Seq<SourcedEntry>, e: BundleError) -> bool {
    match e {
        BundleError::Finish => {
            &&& all_resolved(entries)
            &&& accepted(packed_entries(entries))
            &&& sealed_image(calls_for(packed_entries(entries))) is None
        },
        BundleError::ReadBack => false,
        _ => exists|i: int|
            {
                &&& 0 <= i < entries.len()
                &&& all_resolved(entries.take(i))
                &&& accepted(packed_entries(entries.take(i)))
                &&& #[trigger] stops_at(entries, i, e)
            },
    }
}

/// Entries that a new writer takes are taken up to any point.
proof fn accepted_prefix(packed: Seq<(Seq<char>, Seq<u8>)>, count: int)
    requires
        accepted(packed),
        0 <= count <= packed.len(),
    ensures
        accepted(packed.take(count)),
    decreases packed.len(),
{
    if count == packed.len() {
        assert(packed.take(count) =~= packed);
    } else {
        assert(packed.drop_last().take(count) =~= packed.take(count));
        accepted_prefix(packed.drop_last(), count);
    }
}

/// A descriptor that fails after the ones before it were packed rules success out.
proof fn failure_excludes_success(entries: Seq<SourcedEntry>, index: int, e: BundleError)
    requires
        0 <= index < entries.len(),
        stops_at(entries, index, e),
    ensures
        !packs(entries),
{
    if packs(entries) {
        let packed = packed_entries(entries);
        let upto = packed_entries(entries.take(index + 1));
        assert(entries[index].payload() is Some);
        accepted_prefix(packed, index + 1);
        assert(packed.take(index + 1) =~= upto);
        assert(upto.drop_last() =~= packed_entries(entries.take(index)));
        assert(upto.last() == entries[index].packed());
    }
}

/// Starts one entry in the writer and writes its body; for a name that marks
/// a directory it writes nothing, so that the marker is stored without content.
///
/// It succeeds exactly when the descriptor has bytes to store and the writer
/// takes the entry; the writer then holds one more entry, last: the
/// descriptor's packed form, under a name that no earlier entry has. A name
/// too long for the format is refused here and never handed to the writer. On
/// failure the error is the descriptor's failure at this writer; a descriptor
/// without bytes to store fails before the writer is touched.
fn add_entry(w: &mut ArchiveWriter, entry: &SourcedEntry) -> (r: Result<(), BundleError>)
    ensures
        match r {
            Ok(()) => {
                &&& entry.payload() is Some
                &&& entry_accepted(writer_log(*old(w)), entry.name(), entry.packed().1)
                &&& writer_log(*final(w)) == writer_log(*old(w)) + entry_calls(entry.name(), entry.packed().1)
                &&& writer_entries(*final(w)) == writer_entries(*old(w)).push(entry.packed())
                &&& forall|k: int| 0 <= k < writer_entries(*old(w)).len() ==> (#[trigger] writer_entries(*old(w))[k]).0 != entry.name()
            },
            Err(e) => entry_fails(writer_log(*old(w)), *entry, e),
        },
        entry.payload() is None ==> *final(w) == *old(w),
{
    let bytes = match entry.resolve() {
        Ok(bytes) => bytes,
        Err(e) => {
            return Err(e);
        },
    };
    let name = entry.entry.bundled_path.as_str();
    assert(name.spec_bytes() == encode_utf8(entry.name()));
    if name.as_bytes().len() > MAX_NAME_BYTES {
        return Err(BundleError::StartEntry(entry.entry.label_text()));
    }
    if start_entry(w, name, Method::Deflated).is_err() {
        return Err(BundleError::StartEntry(entry.entry.label_text()));
    }
    let ghost start = WriterCall::Start(entry.name(), Method::Deflated);
    if names_directory(name) {
        assert(writer_log(*old(w)).push(start) =~= writer_log(*old(w)) + entry_calls(entry.name(), entry.packed().1));
        return Ok(());
    }
    if write_entry(w, bytes).is_err() {
        return Err(BundleError::WriteEntry(entry.entry.label_text()));
    }
    proof {
        let started = writer_entries(*old(w)).push((entry.name(), Seq::<u8>::empty()));
        assert(Seq::<u8>::empty() + bytes@ =~= bytes@);
        assert(started.update(started.len() - 1, (entry.name(), bytes@)) =~= writer_entries(*old(w)).push(entry.packed()));
        assert(writer_log(*old(w)).push(start).push(WriterCall::Write(bytes@)) =~= writer_log(*old(w)) + entry_calls(
            entry.name(),
            entry.packed().1,
        ));
    }
    Ok(())
}

/// Packs the entries, in input order, into one archive image.
///
/// The entries are taken strictly in order and the first failure ends the
/// work. Packing succeeds exactly when every descriptor has bytes to store,
/// the writer takes every entry in turn and can be finished; the image is then
/// the writer's for exactly the packed entries, and no two of them share a
/// name. Otherwise the error is that of the first descriptor that could not be
/// packed, or the writer's failure to finish. So a referenced file that could
/// not be read, or a name given twice, is never passed over. A bundled path
/// that ends in a slash is stored as a directory marker, without content.
pub fn bundle(entries: Vec<SourcedEntry>) -> (r: Result<Vec<u8>, BundleError>)
    ensures
        match r {
            Ok(image) => packs(entries@) && image@ == image_of(entries@) && distinct_names(entries@),
            Err(e) => !packs(entries@) && is_failure_of(entries@, e),
        },
        r is Ok <==> packs(entries@),
        !all_resolved(entries@) || !distinct_names(entries@) ==> r is Err,
        entries@.len() == 0 ==> (r is Ok || r == Err::<Vec<u8>, BundleError>(BundleError::Finish)),
{
    pack(&entries)
}

/// Packs the entries of a borrowed list; see [`bundle`].
pub(crate) fn pack(entries: &Vec<SourcedEntry>) -> (r: Result<Vec<u8>, BundleError>)
    ensures
        match r {
            Ok(image) => packs(entries@) && image@ == image_of(entries@) && distinct_names(entries@),
            Err(e) => !packs(entries@) && is_failure_of(entries@, e),
        },
{
    let mut w = new_writer();
    let mut i: usize = 0;
    while i < entries.len()
        invariant
            0 <= i <= entries.len(),
            all_resolved(entries@.take(i as int)),
            distinct_names(entries@.take(i as int)),
            accepted(packed_entries(entries@.take(i as int))),
            writer_entries(w) == packed_entries(entries@.take(i as int)),
            writer_log(w) == calls_for(packed_entries(entries@.take(i as int))),
        decreases entries.len() - i,
    {
        let ghost before = writer_entries(w);
        match add_entry(&mut w, &entries[i]) {
            Ok(()) => {},
            Err(e) => {
                proof {
                    assert(stops_at(entries@, i as int, e));
                    failure_excludes_success(entries@, i as int, e);
                }
                return Err(e);
            },
        }
        proof {
            let head = entries@.take(i as int);
            let next = entries@.take(i + 1);
            assert(next =~= head.push(entries[i as int]));
            assert(packed_entries(next) =~= packed_entries(head).push(entries[i as int].packed()));
            assert(packed_entries(next).drop_last() =~= packed_entries(head));
            assert forall|a: int, b: int| 0 <= a < b < next.len() implies (#[trigger] next[a]).name() != (#[trigger] next[b]).name() by {
                if b < i {
                    assert(head[a].name() != head[b].name());
                } else {
                    assert(before[a].0 == head[a].name());
                }
            }
            assert forall|k: int| 0 <= k < next.len() implies (#[trigger] next[k]).payload() is Some by {
                if k < i {
                    assert(head[k].payload() is Some);
                }
            }
        }
        i += 1;
    }
    assert(entries@.take(i as int) =~= entries@);
    match finish_writer(w) {
        Ok(image) => Ok(image),
        Err(_) => Err(BundleError::Finish),
    }
}

/// A descriptor whose bundled path ends in a slash is packed as a directory
/// marker: its body is empty whatever its payload, and the writer is asked to
/// start the entry and to write nothing.
pub proof fn directory_marker_has_no_content(entry: SourcedEntry)
    requires
        is_directory_name(entry.name()),
    ensures
        entry.packed() == (entry.name(), Seq::<u8>::empty()),
        entry_calls(entry.name(), entry.packed().1) == seq![WriterCall::Start(entry.name(), Method::Deflated)],
{
}

/// Every packed entry of `a` is a packed entry of `b`, where each descriptor
/// of `a` occurs in `b`.
proof fn packed_within(a: Seq<SourcedEntry>, b: Seq<SourcedEntry>)
    requires
        forall|i: int| 0 <= i < a.len() ==> b.contains(#[trigger] a[i]),
    ensures
        forall|x: (Seq<char>, Seq<u8>)| packed_entries(a).contains(x) ==> packed_entries(b).contains(x),
{
    assert forall|x: (Seq<char>, Seq<u8>)| packed_entries(a).contains(x) implies packed_entries(b).contains(x) by {
        let i = choose|i: int| 0 <= i < packed_entries(a).len() && packed_entries(a)[i] == x;
        assert(b.contains(a[i]));
        let j = choose|j: int| 0 <= j < b.len() && b[j] == a[i];
        assert(packed_entries(b)[j] == x);
    }
}

/// The order of the input decides the order of the archive and nothing else:
/// two lists that hold the same descriptors, each as often, pack to the same
/// set of names with their bodies.
pub proof fn packed_set_ignores_order(a: Seq<SourcedEntry>, b: Seq<SourcedEntry>)
    requires
        a.to_multiset() == b.to_multiset(),
    ensures
        packed_entries(a).to_set() == packed_entries(b).to_set(),
{
    a.to_multiset_ensures();
    b.to_multiset_ensures();
    assert forall|i: int| 0 <= i < a.len() implies b.contains(#[trigger] a[i]) by {
        assert(a.contains(a[i]));
        assert(b.to_multiset().count(a[i]) > 0);
    }
    assert forall|i: int| 0 <= i < b.len() implies a.contains(#[trigger] b[i]) by {
        assert(b.contains(b[i]));
        assert(a.to_multiset().count(b[i]) > 0);
    }
    packed_within(a, b);
    packed_within(b, a);
    assert(packed_entries(a).to_set() =~= packed_entries(b).to_set());
}

} // verus!
