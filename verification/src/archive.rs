//! The boundary to the `zip` crate: the archive writer and reader are used
//! through the functions below, whose contracts are believed, not proved.

use vstd::prelude::*;
use vstd::utf8::encode_utf8;

verus! {

/// `std::io::Cursor`, the in-memory reader that an archive is opened over.
#[verifier::external_type_specification]
#[verifier::external_body]
#[verifier::reject_recursive_types(T)]
pub struct ExCursor<T>(std::io::Cursor<T>);

/// A `zip::ZipWriter` that builds its archive in memory. Nothing of its
/// inside is visible to proofs: what it holds goes by [`writer_entries`].
#[verifier::external_body]
pub struct ArchiveWriter {
    inner: zip::ZipWriter<std::io::Cursor<Vec<u8>>>,
}

/// `zip::ZipArchive`, an opened archive, carried as an opaque value.
#[verifier::external_type_specification]
#[verifier::external_body]
#[verifier::reject_recursive_types(R)]
pub struct ExZipArchive<R>(zip::ZipArchive<R>);

/// `zip::result::ZipError`, the failure of a writer or reader call.
#[verifier::external_type_specification]
#[verifier::external_body]
pub struct ExZipError(zip::result::ZipError);

/// `std::io::Error`, the failure of a write.
#[verifier::external_type_specification]
#[verifier::external_body]
pub struct ExIoError(std::io::Error);

/// How the body of an entry is stored in the archive.
#[derive(Debug, Clone, Copy, PartialEq, Eq)]
pub enum Method {
    /// Verbatim.
    Stored,
    /// Compressed with Deflate.
    Deflated,
}

/// One call made on a writer: an entry started under a name and with a
/// method, or bytes written.
pub enum WriterCall {
    Start(Seq<char>, Method),
    Write(Seq<u8>),
}

/// The entries that a writer holds, oldest first: each is the name it was
/// started under and the bytes written to it so far.
pub uninterp spec fn writer_entries(w: ArchiveWriter) -> Seq<(Seq<char>, Seq<u8>)>;

/// The calls made on a writer since it was created, oldest first, whether they
/// succeeded or not. The writer works in memory and is handed every time
/// stamp, so what a call does is decided by the calls before it and its own
/// arguments.
pub uninterp spec fn writer_log(w: ArchiveWriter) -> Seq<WriterCall>;

/// Whether a writer with these calls behind it starts an entry under `name`
/// with this method.
pub uninterp spec fn start_accepts(log: Seq<WriterCall>, name: Seq<char>, method: Method) -> bool;

/// Whether a writer with these calls behind it takes `data` in full.
pub uninterp spec fn write_accepts(log: Seq<WriterCall>, data: Seq<u8>) -> bool;

/// The archive image that a writer with these calls behind it yields when it
/// is finished, or `None` where finishing fails.
pub uninterp spec fn sealed_image(log: Seq<WriterCall>) -> Option<Seq<u8>>;

/// The longest name, in bytes of UTF-8, that the archive format has room for.
pub const MAX_NAME_BYTES: usize = 65535;

/// `zip::ZipWriter::new` over an empty in-memory cursor: the new writer holds
/// no entry and has no call behind it.
#[verifier::external_body]
pub(crate) fn new_writer() -> (w: ArchiveWriter)
    ensures
        writer_entries(w) == Seq::<(Seq<char>, Seq<u8>)>::empty(),
        writer_log(w) == Seq::<WriterCall>::empty(),
{
    ArchiveWriter { inner: zip::ZipWriter::new(std::io::Cursor::new(Vec::new())) }
}

/// `zip::ZipWriter::start_file` with the given method, the time stamp of the
/// format's epoch, and default options otherwise. The call needs a name whose
/// length fits the format's 16-bit field: on a longer one the writer panics.
/// Whether it succeeds is decided by the calls before it, the name and the
/// method. On success the writer holds one more entry, last, under `name` and
/// still empty, and `name` was the name of no earlier entry: the writer
/// refuses a name twice. Nothing is claimed of the entries after a failure.
#[verifier::external_body]
pub(crate) fn start_entry(w: &mut ArchiveWriter, name: &str, method: Method) -> (r: Result<(), zip::result::ZipError>)
    requires
        encode_utf8(name@).len() <= MAX_NAME_BYTES,
    ensures
        writer_log(*final(w)) == writer_log(*old(w)).push(WriterCall::Start(name@, method)),
        r is Ok <==> start_accepts(writer_log(*old(w)), name@, method),
        r is Ok ==> writer_entries(*final(w)) == writer_entries(*old(w)).push((name@, Seq::<u8>::empty())),
        r is Ok ==> forall|k: int| 0 <= k < writer_entries(*old(w)).len() ==> (#[trigger] writer_entries(*old(w))[k]).0 != name@,
{
    let method = match method {
        Method::Stored => zip::CompressionMethod::Stored,
        Method::Deflated => zip::CompressionMethod::Deflated,
    };
    let options = zip::write::SimpleFileOptions::default()
        .compression_method(method)
        .last_modified_time(zip::DateTime::default());
    w.inner.start_file(name, options)
}

/// `std::io::Write::write_all` on a `zip::ZipWriter`. Whether it succeeds is
/// decided by the calls before it and the bytes. Bytes are taken only while an
/// entry is open, and are appended to the body of the last entry; writing no
/// bytes succeeds and changes no entry. Nothing is claimed of the entries
/// after a failure.
#[verifier::external_body]
pub(crate) fn write_entry(w: &mut ArchiveWriter, data: &[u8]) -> (r: Result<(), std::io::Error>)
    ensures
        writer_log(*final(w)) == writer_log(*old(w)).push(WriterCall::Write(data@)),
        r is Ok <==> write_accepts(writer_log(*old(w)), data@),
        r is Ok && data@.len() > 0 ==> writer_entries(*old(w)).len() > 0,
        r is Ok && writer_entries(*old(w)).len() > 0 ==> writer_entries(*final(w)) == writer_entries(*old(w)).update(
            writer_entries(*old(w)).len() - 1,
            (writer_entries(*old(w)).last().0, writer_entries(*old(w)).last().1 + data@),
        ),
        r is Ok && writer_entries(*old(w)).len() == 0 ==> writer_entries(*final(w)) == writer_entries(*old(w)),
{
    std::io::Write::write_all(&mut w.inner, data)
}

/// `zip::ZipWriter::finish`, then the bytes of the cursor it gives back: the
/// image, which is decided by the calls made on the writer.
#[verifier::external_body]
pub(crate) fn finish_writer(w: ArchiveWriter) -> (r: Result<Vec<u8>, zip::result::ZipError>)
    ensures
        match r {
            Ok(bytes) => sealed_image(writer_log(w)) == Some(bytes@),
            Err(_) => sealed_image(writer_log(w)) is None,
        },
{
    match w.inner.finish() {
        Ok(cursor) => Ok(cursor.into_inner()),
        Err(e) => Err(e),
    }
}

/// The bytes that an opened archive reads from.
pub uninterp spec fn archive_image(a: zip::ZipArchive<std::io::Cursor<Vec<u8>>>) -> Seq<u8>;

/// How many entries an archive opened from an image reports, or `None` where
/// the image is no readable archive.
pub uninterp spec fn stored_count(image: Seq<u8>) -> Option<nat>;

/// The stored name of the entry at an index of an image, or `None` where that
/// entry cannot be opened.
pub uninterp spec fn stored_name(image: Seq<u8>, index: nat) -> Option<Seq<char>>;

/// The decompressed body of the entry at an index of an image, or `None` where
/// that entry cannot be opened or read to its end.
pub uninterp spec fn stored_body(image: Seq<u8>, index: nat) -> Option<Seq<u8>>;

/// `zip::ZipArchive::new` over an in-memory cursor. It succeeds exactly on the
/// images that have an entry count, and the archive reads from those bytes.
#[verifier::external_body]
pub(crate) fn open_archive(image: Vec<u8>) -> (r: Result<zip::ZipArchive<std::io::Cursor<Vec<u8>>>, zip::result::ZipError>)
    ensures
        match r {
            Ok(a) => archive_image(a) == image@ && stored_count(image@) is Some,
            Err(_) => stored_count(image@) is None,
        },
{
    zip::ZipArchive::new(std::io::Cursor::new(image))
}

/// `zip::ZipArchive::len`: the entry count of the image that was opened.
#[verifier::external_body]
pub(crate) fn entry_count(a: &zip::ZipArchive<std::io::Cursor<Vec<u8>>>) -> (n: usize)
    ensures
        stored_count(archive_image(*a)) == Some(n as nat),
{
    a.len()
}

/// `zip::ZipArchive::by_index`, then `zip::read::ZipFile::name`: the stored
/// name of the entry, a function of the image and the index. The archive
/// still reads from the same bytes.
#[verifier::external_body]
pub(crate) fn entry_name(a: &mut zip::ZipArchive<std::io::Cursor<Vec<u8>>>, index: usize) -> (r: Result<String, zip::result::ZipError>)
    ensures
        archive_image(*final(a)) == archive_image(*old(a)),
        match r {
            Ok(name) => stored_name(archive_image(*old(a)), index as nat) == Some(name@),
            Err(_) => stored_name(archive_image(*old(a)), index as nat) is None,
        },
{
    match a.by_index(index) {
        Ok(file) => Ok(file.name().to_string()),
        Err(e) => Err(e),
    }
}

/// `zip::ZipArchive::by_index`, then `std::io::Read::read_to_end` on the
/// entry: its decompressed body, a function of the image and the index. The
/// archive still reads from the same bytes.
#[verifier::external_body]
pub(crate) fn entry_body(a: &mut zip::ZipArchive<std::io::Cursor<Vec<u8>>>, index: usize) -> (r: Option<Vec<u8>>)
    ensures
        archive_image(*final(a)) == archive_image(*old(a)),
        match r {
            Some(body) => stored_body(archive_image(*old(a)), index as nat) == Some(body@),
            None => stored_body(archive_image(*old(a)), index as nat) is None,
        },
{
    let mut body = Vec::new();
    match a.by_index(index) {
        Ok(mut file) => match std::io::Read::read_to_end(&mut file, &mut body) {
            Ok(_) => Some(body),
            Err(_) => None,
        },
        Err(_) => None,
    }
}

/// The `Display` text of a `zip::result::ZipError`, for messages. Nothing is
/// claimed of the text.
#[verifier::external_body]
pub(crate) fn describe(e: &zip::result::ZipError) -> (text: String) {
    format!("{}", e)
}

} // verus!
