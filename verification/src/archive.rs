//! The tree archiver. It takes the enumerated entries of a source tree and
//! writes them, in order, into an in-memory deflate-compressed zip archive:
//! files as compressed entries, directories as directory entries, so that
//! even an empty directory survives packaging.

use vstd::prelude::*;
use vstd::utf8::encode_utf8;
use crate::errors::BuildError;
use crate::paths::{portable_of, portable_path};

verus! {

/// One entry of the source tree, as the caller enumerated it: a path
/// relative to the base directory (host separator convention), whether it is
/// a directory, and the file's bytes (empty for a directory).
pub struct TreeEntry {
    /// Path relative to the base directory.
    pub path: Vec<char>,
    /// Whether the entry is a directory.
    pub is_dir: bool,
    /// The file's bytes; a directory carries none.
    pub data: Vec<u8>,
}

/// What an entry contributes to the archive: the portable form of its name,
/// its directory flag, and its bytes. A directory contributes no bytes,
/// whatever the caller left in its `data` field.
pub open spec fn entry_model(e: TreeEntry) -> (Seq<char>, bool, Seq<u8>) {
    (
        portable_of(e.path@),
        e.is_dir,
        if e.is_dir {
            Seq::<u8>::empty()
        } else {
            e.data@
        },
    )
}

/// The models of a whole entry sequence, in order.
pub open spec fn entry_models(s: Seq<TreeEntry>) -> Seq<(Seq<char>, bool, Seq<u8>)> {
    s.map_values(|e: TreeEntry| entry_model(e))
}

/// The name a directory claims in the archive's name table: the writer
/// appends a trailing slash when the name does not already end in a slash
/// or a backslash.
pub open spec fn dir_stored_name(name: Seq<char>) -> Seq<char> {
    if name.len() > 0 && (name.last() == '/' || name.last() == '\\') {
        name
    } else {
        name.push('/')
    }
}

/// The name an entry claims in the archive's name table.
pub open spec fn stored_name(m: (Seq<char>, bool, Seq<u8>)) -> Seq<char> {
    if m.1 {
        dir_stored_name(m.0)
    } else {
        m.0
    }
}

/// Whether a name is claimed by none of the entries.
pub open spec fn name_free(entries: Seq<(Seq<char>, bool, Seq<u8>)>, name: Seq<char>) -> bool {
    forall|i: int| 0 <= i < entries.len() ==> stored_name(#[trigger] entries[i]) != name
}

/// The longest stored name the archive format takes: its name-length field
/// is sixteen bits wide.
pub const MAX_NAME_BYTES: usize = 0xFFFF;

/// The most bytes a single file entry takes without the large-file option:
/// far enough below the format's four-byte size fields that the entry still
/// fits after compression, even when compressing expands it.
pub const MAX_FILE_BYTES: usize = 0xFF00_0000;

/// An entry the archive accepts: its stored name fits the name-length
/// field, and a file's bytes stay within the size bound.
pub open spec fn entry_fits(m: (Seq<char>, bool, Seq<u8>)) -> bool {
    &&& encode_utf8(stored_name(m)).len() <= MAX_NAME_BYTES
    &&& m.2.len() <= MAX_FILE_BYTES
}

/// Entries that an archive accepts as a whole: each fits, and no two claim
/// the same stored name.
pub open spec fn archivable(s: Seq<(Seq<char>, bool, Seq<u8>)>) -> bool {
    &&& (forall|i: int| 0 <= i < s.len() ==> entry_fits(#[trigger] s[i]))
    &&& (forall|i: int, j: int|
        0 <= i < j < s.len() ==> stored_name(#[trigger] s[i]) != stored_name(#[trigger] s[j]))
}

/// An in-memory archive being written. The writer type's own trait bounds
/// keep it from being declared to the verifier directly, so it sits opaque
/// behind this struct and is spoken of only through `archive_entries` and
/// `archive_intact`.
#[verifier::external_body]
pub struct ArchiveBuf {
    inner: zip::write::ZipWriter<std::io::Cursor<Vec<u8>>>,
}

/// The entries an archive buffer holds, in the order they were added: name,
/// directory flag, and file bytes.
pub uninterp spec fn archive_entries(z: ArchiveBuf) -> Seq<(Seq<char>, bool, Seq<u8>)>;

/// Whether the buffer is still on its guaranteed path: every write left to
/// finish its pending records stays within the format's size fields, so
/// only the in-memory buffer — which cannot refuse a write — is touched.
/// Adding an entry that fits keeps it; after a refused or oversized add
/// nothing more is claimed.
pub uninterp spec fn archive_intact(z: ArchiveBuf) -> bool;

/// The bytes that finishing an archive with exactly these entries produces.
/// The writer is used with fixed options and a fixed timestamp, so they are
/// a function of the entries alone.
pub uninterp spec fn zip_bytes_of(entries: Seq<(Seq<char>, bool, Seq<u8>)>) -> Seq<u8>;

/// Relies on `zip::write::ZipWriter::new`: a freshly created archive buffer
/// holds no entries and nothing pending.
#[verifier::external_body]
fn archive_new() -> (z: ArchiveBuf)
    ensures
        archive_entries(z) == Seq::<(Seq<char>, bool, Seq<u8>)>::empty(),
        archive_intact(z),
{
    ArchiveBuf { inner: zip::write::ZipWriter::new(std::io::Cursor::new(Vec::new())) }
}

/// Relies on `zip::write::ZipWriter::start_file` and `io::Write::write_all`:
/// on success the archive gains exactly one deflate-compressed file entry
/// under the given name, holding exactly the given bytes. The writer's
/// source shows the only refusals on an intact in-memory buffer: a name
/// already claimed, a name over the name-length field, or bytes past the
/// four-byte size fields; within those bounds the call succeeds and the
/// buffer stays intact.
#[verifier::external_body]
fn archive_add_file(
    z: &mut ArchiveBuf,
    name: &Vec<char>,
    data: &Vec<u8>,
) -> (r: Result<(), BuildError>)
    ensures
        match r {
            Ok(()) => archive_entries(*final(z)) == archive_entries(*old(z)).push(
                (name@, false, data@),
            ),
            Err(e) => e == BuildError::IoError,
        },
        (archive_intact(*old(z)) && encode_utf8(name@).len() <= MAX_NAME_BYTES && data@.len()
            <= MAX_FILE_BYTES && name_free(archive_entries(*old(z)), name@)) ==> r is Ok
            && archive_intact(*final(z)),
{
    let n: String = name.iter().collect();
    let opts = zip::write::SimpleFileOptions::default().compression_method(
        zip::CompressionMethod::Deflated,
    );
    if z.inner.start_file(n, opts).is_err() {
        return Err(BuildError::IoError);
    }
    if std::io::Write::write_all(&mut z.inner, data.as_slice()).is_err() {
        return Err(BuildError::IoError);
    }
    Ok(())
}

/// Relies on `zip::write::ZipWriter::add_directory`: on success the archive
/// gains exactly one directory entry under the given name; the writer
/// appends a trailing slash when the name lacks one, and the slashed name
/// is what the entry claims. Refusals on an intact buffer are as for a
/// file: a claimed or over-long stored name.
#[verifier::external_body]
fn archive_add_dir(
    z: &mut ArchiveBuf,
    name: &Vec<char>,
) -> (r: Result<(), BuildError>)
    ensures
        match r {
            Ok(()) => archive_entries(*final(z)) == archive_entries(*old(z)).push(
                (name@, true, Seq::<u8>::empty()),
            ),
            Err(e) => e == BuildError::IoError,
        },
        (archive_intact(*old(z)) && encode_utf8(dir_stored_name(name@)).len() <= MAX_NAME_BYTES
            && name_free(archive_entries(*old(z)), dir_stored_name(name@))) ==> r is Ok
            && archive_intact(*final(z)),
{
    let n: String = name.iter().collect();
    match z.inner.add_directory(n, zip::write::SimpleFileOptions::default()) {
        Ok(()) => Ok(()),
        Err(_) => Err(BuildError::IoError),
    }
}

/// Relies on `zip::write::ZipWriter::finish`: the bytes of the finished
/// archive depend on its entries alone, and on an intact buffer finishing
/// cannot fail — the remaining records go to the in-memory buffer, and the
/// writer switches to its large-count and large-offset forms by itself
/// where the plain fields would not do.
#[verifier::external_body]
fn archive_finish(z: ArchiveBuf) -> (r: Result<
    Vec<u8>,
    BuildError,
>)
    ensures
        match r {
            Ok(bytes) => bytes@ == zip_bytes_of(archive_entries(z)),
            Err(e) => e == BuildError::IoError,
        },
        archive_intact(z) ==> r is Ok,
{
    match z.inner.finish() {
        Ok(cursor) => Ok(cursor.into_inner()),
        Err(_) => Err(BuildError::IoError),
    }
}

/// Writes every entry into a fresh archive, in the order given and under
/// its portable name, and returns the finished archive's bytes. The first
/// write that the archive buffer refuses aborts the whole archive with
/// `IoError`: a partial archive is never returned. On entries the archive
/// accepts as a whole — distinct stored names within the format's bounds —
/// success is owed.
pub fn archive_tree(entries: &Vec<TreeEntry>) -> (r: Result<Vec<u8>, BuildError>)
    ensures
        match r {
            Ok(bytes) => bytes@ == zip_bytes_of(entry_models(entries@)),
            Err(e) => e == BuildError::IoError,
        },
        archivable(entry_models(entries@)) ==> r is Ok,
{
    let ghost models = entry_models(entries@);
    let mut z = archive_new();
    let mut i: usize = 0;
    proof {
        assert(archive_entries(z) =~= models.take(0));
    }
    while i < entries.len()
        invariant
            i <= entries@.len(),
            models == entry_models(entries@),
            archive_entries(z) == models.take(i as int),
            archivable(models) ==> archive_intact(z),
        decreases entries@.len() - i,
    {
        let e = &entries[i];
        let name = portable_path(&e.path);
        proof {
            assert(models[i as int] == entry_model(entries@[i as int]));
            if archivable(models) {
                assert(entry_fits(models[i as int]));
                assert forall|k: int| 0 <= k < i implies stored_name(
                    #[trigger] models.take(i as int)[k],
                ) != stored_name(models[i as int]) by {
                    assert(models.take(i as int)[k] == models[k]);
                }
            }
        }
        let res = if e.is_dir {
            archive_add_dir(&mut z, &name)
        } else {
            archive_add_file(&mut z, &name, &e.data)
        };
        match res {
            Ok(()) => {},
            Err(err) => {
                return Err(err);
            },
        }
        i = i + 1;
        proof {
            assert(models.take(i as int) =~= models.take(i - 1).push(
                entry_model(entries@[i - 1]),
            ));
        }
    }
    proof {
        assert(models.take(i as int) =~= models);
    }
    archive_finish(z)
}

} // verus!
