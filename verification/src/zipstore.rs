//! Trusted boundary around the `zip` crate: an in-memory zip writer and
//! reader. Verus refuses the direct declaration of `zip::ZipWriter<W>` and
//! `zip::ZipArchive<R>` (their `Write + Seek` bounds are unknown to it), so
//! each is held in a private field of an opaque struct. The specification
//! names the sequence of entries a writer has taken or a reader holds: the
//! stored entry name and the uncompressed contents, in order. A stored name
//! ending in `/` marks a directory entry.

use vstd::prelude::*;

verus! {

#[verifier::external_type_specification]
#[verifier::external_body]
pub struct ExZipError(zip::result::ZipError);

/// An in-memory zip archive under construction.
#[verifier::external_body]
pub struct ArchiveWriter {
    inner: zip::ZipWriter<std::io::Cursor<Vec<u8>>>,
}

/// An in-memory zip archive opened for reading.
#[verifier::external_body]
pub struct ArchiveReader {
    inner: zip::ZipArchive<std::io::Cursor<Vec<u8>>>,
}

/// The completed entries a writer has taken so far, in order.
pub uninterp spec fn zip_written(w: ArchiveWriter) -> Seq<(Seq<char>, Seq<u8>)>;

/// The name of an entry that has been started and not yet written.
pub uninterp spec fn zip_pending(w: ArchiveWriter) -> Option<Seq<char>>;

/// The entries of a finished zip byte stream, in order.
pub uninterp spec fn zip_payload(bytes: Seq<u8>) -> Seq<(Seq<char>, Seq<u8>)>;

/// Whether a byte stream opens as a zip archive.
pub uninterp spec fn wellformed_zip(bytes: Seq<u8>) -> bool;

/// Whether every entry of a zip byte stream reads back without error.
/// Holds of everything this writer produces.
pub uninterp spec fn readable_zip(bytes: Seq<u8>) -> bool;

/// The entries an opened reader holds, in order.
pub uninterp spec fn zip_contents(r: ArchiveReader) -> Seq<(Seq<char>, Seq<u8>)>;

/// Whether every entry of an opened reader reads back without error.
pub uninterp spec fn reader_readable(r: ArchiveReader) -> bool;

/// Ceiling on an entry name, in characters: the format stores the name's
/// byte length in 16 bits, and a character takes at most four UTF-8 bytes.
pub const MAX_NAME_CHARS: usize = 16383;

/// Ceiling on one entry's contents, in bytes. The format's plain size
/// fields are 32-bit, and the writer holds an entry to them twice: the
/// uncompressed count while the bytes are written, the compressed count
/// when the entry is finalized. Deflate can expand incompressible input by
/// a small fraction, so the ceiling sits over four mebibytes below the
/// 32-bit limit — far more headroom than that expansion ever needs — and
/// keeps both counts within their fields.
pub const MAX_ENTRY_BYTES: u64 = 0xFFBF_0000;

/// Whether every completed entry's contents are within the size ceiling,
/// so that no deferred size check can fail.
pub open spec fn written_sizes_ok(entries: Seq<(Seq<char>, Seq<u8>)>) -> bool {
    forall|i: int| 0 <= i < entries.len() ==> (#[trigger] entries[i]).1.len() <= MAX_ENTRY_BYTES
}

/// The name under which `zip::ZipWriter::add_directory` stores a directory:
/// a trailing separator is appended unless one is already there.
pub open spec fn dir_entry_name(name: Seq<char>) -> Seq<char> {
    if name.len() > 0 && (name.last() == '/' || name.last() == '\\') {
        name
    } else {
        name.push('/')
    }
}

/// Relies on zip::ZipWriter::new: a fresh writer holds no entries.
#[verifier::external_body]
pub fn zw_new() -> (w: ArchiveWriter)
    ensures
        zip_written(w) == Seq::<(Seq<char>, Seq<u8>)>::empty(),
        zip_pending(w) is None,
{
    ArchiveWriter { inner: zip::ZipWriter::new(std::io::Cursor::new(Vec::new())) }
}

/// Relies on zip::ZipWriter::start_file: on success a new entry is started
/// under the given name and the earlier entries stay. The default options
/// compress with deflate (the default backend is compiled in); the
/// permission bits are set on the entry. On an in-memory cursor the call
/// fails only for a name whose byte length overflows the format's 16-bit
/// field, for a name already taken, or when finalizing the previous entry
/// trips the deferred compressed-size check; so it succeeds when the name
/// is short enough and fresh and every completed entry is within the size
/// ceiling.
#[verifier::external_body]
pub fn zw_start_file(w: &mut ArchiveWriter, name: &str, perm: u32) -> (r: Result<
    (),
    zip::result::ZipError,
>)
    requires
        zip_pending(*old(w)) is None,
    ensures
        r is Ok ==> zip_pending(*final(w)) == Some(name@) && zip_written(*final(w)) == zip_written(
            *old(w),
        ),
        name@.len() <= MAX_NAME_CHARS && (forall|k: int|
            0 <= k < zip_written(*old(w)).len() ==> zip_written(*old(w))[k].0 != name@)
            && written_sizes_ok(zip_written(*old(w))) ==> r is Ok,
{
    w.inner.start_file(name, zip::write::SimpleFileOptions::default().unix_permissions(perm))
}

/// Relies on the std::io::Write impl of zip::ZipWriter: on success the given
/// bytes become the contents of the started entry, which is complete. On an
/// in-memory cursor a write fails only when the entry outgrows the format's
/// plain 32-bit size field, so it succeeds on anything smaller.
#[verifier::external_body]
pub fn zw_write_all(w: &mut ArchiveWriter, data: &[u8]) -> (r: Result<(), zip::result::ZipError>)
    requires
        zip_pending(*old(w)) is Some,
    ensures
        r is Ok ==> zip_pending(*final(w)) is None && zip_written(*final(w)) == zip_written(
            *old(w),
        ).push((zip_pending(*old(w))->0, data@)),
        data@.len() <= MAX_ENTRY_BYTES ==> r is Ok,
{
    match std::io::Write::write_all(&mut w.inner, data) {
        Ok(()) => Ok(()),
        Err(e) => Err(zip::result::ZipError::Io(e)),
    }
}

/// Relies on zip::ZipWriter::add_directory: on success an empty directory
/// entry is appended, stored under the name with a trailing separator. The
/// same failure paths as for a started file apply, so the call succeeds
/// when the stored name is short enough and fresh and every completed
/// entry is within the size ceiling.
#[verifier::external_body]
pub fn zw_add_directory(w: &mut ArchiveWriter, name: &str, perm: u32) -> (r: Result<
    (),
    zip::result::ZipError,
>)
    requires
        zip_pending(*old(w)) is None,
    ensures
        r is Ok ==> zip_pending(*final(w)) is None && zip_written(*final(w)) == zip_written(
            *old(w),
        ).push((dir_entry_name(name@), Seq::<u8>::empty())),
        dir_entry_name(name@).len() <= MAX_NAME_CHARS && (forall|k: int|
            0 <= k < zip_written(*old(w)).len() ==> zip_written(*old(w))[k].0 != dir_entry_name(
                name@,
            )) && written_sizes_ok(zip_written(*old(w))) ==> r is Ok,
{
    w.inner.add_directory(name, zip::write::SimpleFileOptions::default().unix_permissions(perm))
}

/// Relies on zip::ZipWriter::finish: the returned bytes are a zip archive
/// holding exactly the written entries, readable back in order. On an
/// in-memory cursor the only failing path left at this point is the
/// deferred compressed-size check of the last entry (names were checked
/// when each entry was started), so the call succeeds when every
/// completed entry is within the size ceiling.
#[verifier::external_body]
pub fn zw_finish(w: ArchiveWriter) -> (r: Result<Vec<u8>, zip::result::ZipError>)
    requires
        zip_pending(w) is None,
    ensures
        written_sizes_ok(zip_written(w)) ==> r is Ok,
        r is Ok ==> zip_payload(r->Ok_0@) == zip_written(w) && wellformed_zip(r->Ok_0@)
            && readable_zip(r->Ok_0@),
{
    match w.inner.finish() {
        Ok(cursor) => Ok(cursor.into_inner()),
        Err(e) => Err(e),
    }
}

/// Relies on zip::ZipArchive::new: opening succeeds on exactly the
/// well-formed zip byte streams, and the reader then holds their entries;
/// a readable byte stream opens into a reader whose entries all read back.
#[verifier::external_body]
pub fn zr_open(bytes: Vec<u8>) -> (r: Result<ArchiveReader, zip::result::ZipError>)
    ensures
        (r is Ok) == wellformed_zip(bytes@),
        r is Ok ==> zip_contents(r->Ok_0) == zip_payload(bytes@),
        r is Ok && readable_zip(bytes@) ==> reader_readable(r->Ok_0),
{
    match zip::ZipArchive::new(std::io::Cursor::new(bytes)) {
        Ok(inner) => Ok(ArchiveReader { inner }),
        Err(e) => Err(e),
    }
}

/// Relies on zip::ZipArchive::len: the number of entries.
#[verifier::external_body]
pub fn zr_len(r: &ArchiveReader) -> (n: usize)
    ensures
        n == zip_contents(*r).len(),
{
    r.inner.len()
}

/// Relies on zip::ZipArchive::by_index and the std::io::Read impl of the
/// entry it returns: the stored name and the uncompressed contents of the
/// entry at the index. Reading moves the reader's cursor, not its entries,
/// and on a reader all of whose entries read back it does not fail.
#[verifier::external_body]
pub fn zr_entry(r: &mut ArchiveReader, i: usize) -> (e: Result<
    (String, Vec<u8>),
    zip::result::ZipError,
>)
    requires
        i < zip_contents(*old(r)).len(),
    ensures
        zip_contents(*final(r)) == zip_contents(*old(r)),
        reader_readable(*final(r)) == reader_readable(*old(r)),
        e is Ok ==> (e->Ok_0.0@, e->Ok_0.1@) == zip_contents(*old(r))[i as int],
        reader_readable(*old(r)) ==> e is Ok,
{
    let mut file = r.inner.by_index(i)?;
    let name = file.name().to_string();
    let mut data = Vec::new();
    match std::io::Read::read_to_end(&mut file, &mut data) {
        Ok(_) => Ok((name, data)),
        Err(e) => Err(zip::result::ZipError::Io(e)),
    }
}

/// Relies on the Display impl of zip::result::ZipError, for error reports.
#[verifier::external_body]
pub fn zip_error_text(e: &zip::result::ZipError) -> (s: String) {
    format!("{}", e)
}

} // verus!
