//! Archive construction: build an in-memory zip from a list of entries,
//! skipping the ones struck by the exclude patterns, and read one back.

use crate::pattern::{is_excluded, path_excluded, pattern_srcs};
use crate::zipstore::{
    dir_entry_name, readable_zip, reader_readable, wellformed_zip, written_sizes_ok,
    zip_error_text, zip_payload, zip_pending, zip_written, zr_entry, zr_len, zr_open,
    zw_add_directory, zw_finish, zw_new, zw_start_file, zw_write_all, MAX_ENTRY_BYTES,
    MAX_NAME_CHARS,
};
use vstd::prelude::*;

verus! {

/// Unix permission bits given to stored entries.
pub const ENTRY_PERM: u32 = 0o644;

#[derive(Debug)]
pub enum ArchiveError {
    /// The source directory does not exist or is not a directory.
    DirNotFound(String),
    /// The current working directory could not be determined.
    NoCwd,
    /// Reading a source file or writing the archive failed.
    IoError(String),
    /// The archive itself could not be built or read.
    ZipError(String),
}

/// One entry to store: a relative path, whether it is a directory, and the
/// file contents (empty for a directory).
pub struct ArchiveEntry {
    pub path: String,
    pub is_dir: bool,
    pub data: Vec<u8>,
}

impl View for ArchiveEntry {
    type V = (Seq<char>, bool, Seq<u8>);

    open spec fn view(&self) -> (Seq<char>, bool, Seq<u8>) {
        (self.path@, self.is_dir, self.data@)
    }
}

/// The views of a vector of entries.
pub open spec fn entry_views(v: Seq<ArchiveEntry>) -> Seq<(Seq<char>, bool, Seq<u8>)> {
    v.map(|i: int, e: ArchiveEntry| e@)
}

/// The entries that survive the exclude patterns, in order.
pub open spec fn kept_entries(
    entries: Seq<(Seq<char>, bool, Seq<u8>)>,
    pats: Seq<Seq<char>>,
) -> Seq<(Seq<char>, bool, Seq<u8>)> {
    entries.filter(|e: (Seq<char>, bool, Seq<u8>)| !path_excluded(e.0, pats))
}

/// How one entry is stored in the zip: a directory becomes an empty entry
/// named with a trailing separator, a file keeps its path and contents.
pub open spec fn stored_entry(e: (Seq<char>, bool, Seq<u8>)) -> (Seq<char>, Seq<u8>) {
    if e.1 {
        (dir_entry_name(e.0), Seq::<u8>::empty())
    } else {
        (e.0, e.2)
    }
}

/// The zip-level entries of an archive built from these entries.
pub open spec fn stored_entries(
    entries: Seq<(Seq<char>, bool, Seq<u8>)>,
    pats: Seq<Seq<char>>,
) -> Seq<(Seq<char>, Seq<u8>)> {
    kept_entries(entries, pats).map(|i: int, e: (Seq<char>, bool, Seq<u8>)| stored_entry(e))
}

/// How one zip-level entry reads back: a stored name with a trailing
/// separator is a directory and loses that separator.
pub open spec fn restored_entry(p: (Seq<char>, Seq<u8>)) -> (Seq<char>, bool, Seq<u8>) {
    if p.0.len() > 0 && (p.0.last() == '/' || p.0.last() == '\\') {
        (p.0.drop_last(), true, p.1)
    } else {
        (p.0, false, p.1)
    }
}

/// The entries read back from a zip payload.
pub open spec fn restored_entries(s: Seq<(Seq<char>, Seq<u8>)>) -> Seq<(Seq<char>, bool, Seq<u8>)> {
    s.map(|i: int, p: (Seq<char>, Seq<u8>)| restored_entry(p))
}

/// Whether zip-level entries fit the archive format: the stored names are
/// pairwise distinct and within the name-length ceiling, and each entry's
/// contents within the format's plain size field.
pub open spec fn storable(stored: Seq<(Seq<char>, Seq<u8>)>) -> bool {
    &&& forall|i: int|
        0 <= i < stored.len() ==> (#[trigger] stored[i]).0.len() <= MAX_NAME_CHARS
            && stored[i].1.len() <= MAX_ENTRY_BYTES
    &&& forall|i: int, j: int|
        0 <= i < j < stored.len() ==> (#[trigger] stored[i]).0 != (#[trigger] stored[j]).0
}

/// The entries stored for a prefix of the input are a prefix of the
/// entries stored for the whole input.
proof fn lemma_stored_prefix(
    entries: Seq<(Seq<char>, bool, Seq<u8>)>,
    pats: Seq<Seq<char>>,
    i: int,
)
    requires
        0 <= i <= entries.len(),
    ensures
        stored_entries(entries.take(i), pats).is_prefix_of(stored_entries(entries, pats)),
    decreases entries.len() - i,
{
    reveal(Seq::filter);
    if i == entries.len() {
        assert(entries.take(i) =~= entries);
        let s = stored_entries(entries, pats);
        assert(s =~= s.subrange(0, s.len() as int));
    } else {
        lemma_stored_prefix(entries, pats, i + 1);
        assert(entries.take(i + 1).drop_last() =~= entries.take(i));
        let e = entries[i];
        assert(entries.take(i + 1).last() == e);
        let si = stored_entries(entries.take(i), pats);
        let si1 = stored_entries(entries.take(i + 1), pats);
        let full = stored_entries(entries, pats);
        if !path_excluded(e.0, pats) {
            assert(kept_entries(entries.take(i + 1), pats) == kept_entries(
                entries.take(i),
                pats,
            ).push(e));
            assert(si1 =~= si.push(stored_entry(e)));
        } else {
            assert(kept_entries(entries.take(i + 1), pats) == kept_entries(entries.take(i), pats));
            assert(si1 =~= si);
        }
        assert(si =~= full.subrange(0, si.len() as int));
    }
}

/// Build an in-memory zip archive from the entries, skipping each one whose
/// relative path is struck by an exclude pattern. On success the archive
/// holds exactly the surviving entries, in order, and is a well-formed,
/// fully readable zip stream; the build succeeds whenever the stored
/// entries fit the format, and any failure is a `ZipError`.
pub fn build_archive(entries: &Vec<ArchiveEntry>, patterns: &Vec<glob::Pattern>) -> (r: Result<
    Vec<u8>,
    ArchiveError,
>)
    ensures
        r is Ok ==> zip_payload(r->Ok_0@) == stored_entries(
            entry_views(entries@),
            pattern_srcs(patterns@),
        ) && wellformed_zip(r->Ok_0@) && readable_zip(r->Ok_0@),
        storable(stored_entries(entry_views(entries@), pattern_srcs(patterns@))) ==> r is Ok,
        r is Err ==> r->Err_0 is ZipError,
{
    let ghost pats = pattern_srcs(patterns@);
    let ghost evs = entry_views(entries@);
    let mut w = zw_new();
    let mut i: usize = 0;
    proof {
        assert(evs.take(0) =~= Seq::<(Seq<char>, bool, Seq<u8>)>::empty());
        reveal(Seq::filter);
        assert(zip_written(w) =~= stored_entries(evs.take(0), pats));
    }
    while i < entries.len()
        invariant
            evs == entry_views(entries@),
            pats == pattern_srcs(patterns@),
            i <= entries@.len(),
            zip_pending(w) is None,
            zip_written(w) == stored_entries(evs.take(i as int), pats),
        decreases entries@.len() - i,
    {
        let ghost pre_written = zip_written(w);
        let ghost e = evs[i as int];
        proof {
            assert(evs.take(i + 1 as int).drop_last() =~= evs.take(i as int));
            assert(evs.take(i + 1 as int).last() == e);
            reveal(Seq::filter);
        }
        let entry = &entries[i];
        if !is_excluded(entry.path.as_str(), patterns) {
            let ghost full = stored_entries(evs, pats);
            let ghost st1 = stored_entries(evs.take(i + 1 as int), pats);
            let ghost pre_len = pre_written.len() as int;
            proof {
                assert(kept_entries(evs.take(i + 1 as int), pats) =~= kept_entries(
                    evs.take(i as int),
                    pats,
                ).push(e));
                assert(st1 =~= pre_written.push(stored_entry(e)));
                lemma_stored_prefix(evs, pats, i + 1 as int);
                assert(st1.len() == pre_len + 1);
                assert(st1 =~= full.subrange(0, st1.len() as int));
                assert(st1[pre_len] == pre_written.push(stored_entry(e))[pre_len]);
                assert(full.subrange(0, pre_len + 1)[pre_len] == full[pre_len]);
                assert(full[pre_len] == stored_entry(e));
                assert forall|k: int| 0 <= k < pre_len implies full[k] == pre_written[k] by {
                    assert(st1[k] == pre_written.push(stored_entry(e))[k]);
                    assert(full.subrange(0, pre_len + 1)[k] == full[k]);
                }
            }
            if entry.is_dir {
                match zw_add_directory(&mut w, entry.path.as_str(), ENTRY_PERM) {
                    Ok(()) => {},
                    Err(z) => {
                        proof {
                            if dir_entry_name(e.0).len() > MAX_NAME_CHARS {
                                if storable(full) {
                                    assert(full[pre_len].0.len() <= MAX_NAME_CHARS);
                                    assert(false);
                                }
                            } else if !written_sizes_ok(pre_written) {
                                let k = choose|k: int|
                                    0 <= k < pre_written.len() && pre_written[k].1.len()
                                        > MAX_ENTRY_BYTES;
                                if storable(full) {
                                    assert(full[k].1.len() <= MAX_ENTRY_BYTES);
                                    assert(false);
                                }
                            } else {
                                let k = choose|k: int|
                                    0 <= k < pre_written.len() && pre_written[k].0
                                        == dir_entry_name(e.0);
                                if storable(full) {
                                    assert(full[k].0 != full[pre_len].0);
                                    assert(false);
                                }
                            }
                        }
                        return Err(ArchiveError::ZipError(zip_error_text(&z)));
                    },
                }
            } else {
                match zw_start_file(&mut w, entry.path.as_str(), ENTRY_PERM) {
                    Ok(()) => {},
                    Err(z) => {
                        proof {
                            if e.0.len() > MAX_NAME_CHARS {
                                if storable(full) {
                                    assert(full[pre_len].0.len() <= MAX_NAME_CHARS);
                                    assert(false);
                                }
                            } else if !written_sizes_ok(pre_written) {
                                let k = choose|k: int|
                                    0 <= k < pre_written.len() && pre_written[k].1.len()
                                        > MAX_ENTRY_BYTES;
                                if storable(full) {
                                    assert(full[k].1.len() <= MAX_ENTRY_BYTES);
                                    assert(false);
                                }
                            } else {
                                let k = choose|k: int|
                                    0 <= k < pre_written.len() && pre_written[k].0 == e.0;
                                if storable(full) {
                                    assert(full[k].0 != full[pre_len].0);
                                    assert(false);
                                }
                            }
                        }
                        return Err(ArchiveError::ZipError(zip_error_text(&z)));
                    },
                }
                match zw_write_all(&mut w, entry.data.as_slice()) {
                    Ok(()) => {},
                    Err(z) => {
                        proof {
                            assert(e.2.len() > MAX_ENTRY_BYTES);
                            if storable(full) {
                                assert(full[pre_len].1.len() <= MAX_ENTRY_BYTES);
                                assert(false);
                            }
                        }
                        return Err(ArchiveError::ZipError(zip_error_text(&z)));
                    },
                }
            }
            proof {
                assert(kept_entries(evs.take(i + 1 as int), pats) =~= kept_entries(
                    evs.take(i as int),
                    pats,
                ).push(e));
                assert(zip_written(w) =~= pre_written.push(stored_entry(e)));
                assert(zip_written(w) =~= stored_entries(evs.take(i + 1 as int), pats));
            }
        } else {
            proof {
                assert(kept_entries(evs.take(i + 1 as int), pats) =~= kept_entries(
                    evs.take(i as int),
                    pats,
                ));
                assert(zip_written(w) =~= stored_entries(evs.take(i + 1 as int), pats));
            }
        }
        i = i + 1;
    }
    proof {
        assert(evs.take(entries@.len() as int) =~= evs);
    }
    match zw_finish(w) {
        Ok(bytes) => Ok(bytes),
        Err(z) => {
            proof {
                let full = stored_entries(evs, pats);
                let k = choose|k: int|
                    0 <= k < full.len() && full[k].1.len() > MAX_ENTRY_BYTES;
                if storable(full) {
                    assert(full[k].1.len() <= MAX_ENTRY_BYTES);
                    assert(false);
                }
            }
            Err(ArchiveError::ZipError(zip_error_text(&z)))
        },
    }
}

/// Read every entry of an in-memory zip archive back. Opening fails on a
/// byte stream that is not a zip archive, reading succeeds on any archive
/// whose entries all read back — everything the builder produces — and
/// any failure is a `ZipError`. On success the result lists the archive's
/// entries in order.
pub fn read_archive(bytes: Vec<u8>) -> (r: Result<Vec<ArchiveEntry>, ArchiveError>)
    ensures
        !wellformed_zip(bytes@) ==> r is Err,
        wellformed_zip(bytes@) && readable_zip(bytes@) ==> r is Ok,
        r is Err ==> r->Err_0 is ZipError,
        r is Ok ==> entry_views(r->Ok_0@) == restored_entries(zip_payload(bytes@)),
{
    let ghost payload = zip_payload(bytes@);
    let ghost readable = readable_zip(bytes@);
    let mut reader = match zr_open(bytes) {
        Ok(rd) => rd,
        Err(z) => {
            return Err(ArchiveError::ZipError(zip_error_text(&z)));
        },
    };
    let n = zr_len(&reader);
    let mut out: Vec<ArchiveEntry> = Vec::new();
    let mut i: usize = 0;
    proof {
        assert(entry_views(out@) =~= restored_entries(payload.take(0)));
    }
    while i < n
        invariant
            payload == zip_payload(bytes@),
            readable == readable_zip(bytes@),
            wellformed_zip(bytes@),
            n == zip_contents_len(reader),
            crate::zipstore::zip_contents(reader) == payload,
            readable ==> reader_readable(reader),
            i <= n,
            entry_views(out@) == restored_entries(payload.take(i as int)),
        decreases n - i,
    {
        let ghost pre_views = entry_views(out@);
        let (name, data) = match zr_entry(&mut reader, i) {
            Ok(p) => p,
            Err(z) => {
                proof {
                    assert(!readable);
                }
                return Err(ArchiveError::ZipError(zip_error_text(&z)));
            },
        };
        let len = name.as_str().unicode_len();
        let entry = if len > 0 && {
            let last = name.as_str().get_char(len - 1);
            last == '/' || last == '\\'
        } {
            let path = String::from_str(name.as_str().substring_char(0, len - 1));
            proof {
                assert(path@ =~= name@.drop_last());
            }
            ArchiveEntry { path, is_dir: true, data }
        } else {
            ArchiveEntry { path: name, is_dir: false, data }
        };
        out.push(entry);
        proof {
            assert(payload.take(i + 1 as int).drop_last() =~= payload.take(i as int));
            assert(entry_views(out@) =~= pre_views.push(restored_entry(payload[i as int])));
            assert(restored_entries(payload.take(i + 1 as int)) =~= restored_entries(
                payload.take(i as int),
            ).push(restored_entry(payload[i as int])));
        }
        i = i + 1;
    }
    proof {
        assert(payload.take(n as int) =~= payload);
    }
    Ok(out)
}

/// The length of a reader's contents, as a spec shorthand.
pub open spec fn zip_contents_len(r: crate::zipstore::ArchiveReader) -> int {
    crate::zipstore::zip_contents(r).len() as int
}

/// The archive's file name: a custom name verbatim, else the source
/// directory's name and the timestamp, with the `.zip` extension.
pub fn archive_file_name(dir_name: &str, ts: &str, custom: Option<&String>) -> (r: String)
    ensures
        match custom {
            Some(n) => r@ == n@,
            None => r@ == dir_name@ + "-"@ + ts@ + ".zip"@,
        },
{
    match custom {
        Some(n) => n.clone(),
        None => {
            proof {
                reveal_strlit("-");
                reveal_strlit(".zip");
            }
            let mut r = String::from_str(dir_name);
            r.append("-");
            r.append(ts);
            r.append(".zip");
            r
        },
    }
}

/// An entry a caller may hand to the archive builder: its path does not end
/// in a separator, and a directory carries no contents.
pub open spec fn wf_entry(e: (Seq<char>, bool, Seq<u8>)) -> bool {
    &&& e.0.len() > 0 ==> e.0.last() != '/' && e.0.last() != '\\'
    &&& e.1 ==> e.2.len() == 0
}

/// Storing one well-formed entry and reading it back reproduces it.
pub proof fn lemma_entry_round_trip(e: (Seq<char>, bool, Seq<u8>))
    requires
        wf_entry(e),
    ensures
        restored_entry(stored_entry(e)) == e,
{
    if e.1 {
        assert(dir_entry_name(e.0) == e.0.push('/'));
        assert(dir_entry_name(e.0).drop_last() =~= e.0);
        assert(e.2 =~= Seq::<u8>::empty());
    }
}

/// Round trip: the entries read back from an archive built from a list of
/// well-formed entries are exactly the entries that survived the exclude
/// patterns, with identical relative paths and contents, in order.
pub proof fn lemma_archive_round_trip(
    entries: Seq<(Seq<char>, bool, Seq<u8>)>,
    pats: Seq<Seq<char>>,
)
    requires
        forall|i: int| 0 <= i < entries.len() ==> wf_entry(#[trigger] entries[i]),
    ensures
        restored_entries(stored_entries(entries, pats)) == kept_entries(entries, pats),
    decreases entries.len(),
{
    reveal(Seq::filter);
    if entries.len() == 0 {
        assert(kept_entries(entries, pats) =~= Seq::<(Seq<char>, bool, Seq<u8>)>::empty());
        assert(restored_entries(stored_entries(entries, pats)) =~= Seq::<
            (Seq<char>, bool, Seq<u8>),
        >::empty());
    } else {
        let pre = entries.drop_last();
        let last = entries.last();
        lemma_archive_round_trip(pre, pats);
        if !path_excluded(last.0, pats) {
            assert(kept_entries(entries, pats) == kept_entries(pre, pats).push(last));
            lemma_entry_round_trip(last);
            assert(restored_entries(stored_entries(entries, pats)) =~= restored_entries(
                stored_entries(pre, pats),
            ).push(restored_entry(stored_entry(last))));
            assert(restored_entries(stored_entries(entries, pats)) =~= kept_entries(
                entries,
                pats,
            ));
        } else {
            assert(kept_entries(entries, pats) == kept_entries(pre, pats));
            assert(stored_entries(entries, pats) =~= stored_entries(pre, pats));
        }
    }
}

} // verus!
