//! The package builder. It runs the stages in order — read the metadata,
//! normalize the header bitmap, archive the tree, append the trailer — and
//! the first stage that fails aborts the build with its own error. The
//! result is the finished package file as bytes; the caller writes them to a
//! temporary path and renames on success, so no partial package ever stands
//! at the output path.

use vstd::prelude::*;
use vstd::utf8::encode_utf8;
use crate::archive::{archivable, archive_tree, dir_stored_name, entry_model, entry_models,
    stored_name, zip_bytes_of, TreeEntry, MAX_FILE_BYTES, MAX_NAME_BYTES};
use crate::errors::BuildError;
use crate::footer::{append_footer, lemma_le_bytes_len, rmskin_bytes};
use crate::header::{clone_bytes, decoded_dims, normalize_header, normalized_image,
    CANVAS_HEIGHT, CANVAS_WIDTH};
use crate::metadata::{metadata_wf, parse_metadata, resolved_name, resolved_version,
    PackageMetadata};
use crate::paths::{lemma_portable_paths, portable_of};

verus! {

/// The name the header bitmap carries inside the source tree: `RMSKIN.bmp`.
pub open spec fn header_file_name() -> Seq<char> {
    seq!['R', 'M', 'S', 'K', 'I', 'N', '.', 'b', 'm', 'p']
}

/// A finished package: the bytes of the whole file, how many of them are
/// the archive, the metadata the build resolved, and the normalized header
/// bitmap for the caller to write back into the source tree.
#[derive(Debug)]
pub struct RmskinPackage {
    /// The whole package file: archive bytes, then the sixteen-byte trailer.
    pub bytes: Vec<u8>,
    /// How many of `bytes` are the archive.
    pub archive_len: usize,
    /// The name and version the metadata resolved to.
    pub metadata: PackageMetadata,
    /// The normalized header bitmap.
    pub header_image: Vec<u8>,
}

/// What one source entry becomes in the finished package's archive: its
/// name turns portable, and the file that carries the header bitmap's name
/// carries the normalized bitmap instead of its old bytes.
pub open spec fn package_entry(e: TreeEntry, header: Seq<u8>) -> (Seq<char>, bool, Seq<u8>) {
    let p = portable_of(e.path@);
    if !e.is_dir && e.path@ == header_file_name() {
        (p, false, header)
    } else {
        (
            p,
            e.is_dir,
            if e.is_dir {
                Seq::<u8>::empty()
            } else {
                e.data@
            },
        )
    }
}

/// What a whole source tree becomes in the archive, in order.
pub open spec fn package_entries(s: Seq<TreeEntry>, header: Seq<u8>) -> Seq<
    (Seq<char>, bool, Seq<u8>),
> {
    s.map_values(|e: TreeEntry| package_entry(e, header))
}

/// The name a source entry will claim in the archive: its portable path,
/// with the trailing slash a directory gains.
pub open spec fn entry_stored_name(e: TreeEntry) -> Seq<char> {
    if e.is_dir {
        dir_stored_name(portable_of(e.path@))
    } else {
        portable_of(e.path@)
    }
}

/// A source tree the archive is owed to accept: every stored name fits the
/// name-length bound, no two entries claim the same stored name, and every
/// file's bytes fit the size bound — except the header bitmap's, whose
/// bytes are replaced by the normalized bitmap, which always fits.
pub open spec fn tree_archivable(s: Seq<TreeEntry>) -> bool {
    &&& (forall|i: int|
        0 <= i < s.len() ==> encode_utf8(entry_stored_name(#[trigger] s[i])).len()
            <= MAX_NAME_BYTES)
    &&& (forall|i: int, j: int|
        0 <= i < j < s.len() ==> entry_stored_name(#[trigger] s[i]) != entry_stored_name(
            #[trigger] s[j],
        ))
    &&& (forall|i: int|
        0 <= i < s.len() ==> ((!(#[trigger] s[i]).is_dir && s[i].path@ != header_file_name())
            ==> s[i].data@.len() <= MAX_FILE_BYTES))
}

/// A tree the archive is owed to accept stays acceptable after the header
/// bitmap's bytes are substituted, as long as the substitute fits too.
proof fn lemma_tree_archivable(tree: Seq<TreeEntry>, header: Seq<u8>)
    requires
        tree_archivable(tree),
        header.len() <= MAX_FILE_BYTES,
    ensures
        archivable(package_entries(tree, header)),
{
    let s = package_entries(tree, header);
    assert forall|i: int| 0 <= i < s.len() implies crate::archive::entry_fits(
        #[trigger] s[i],
    ) by {
        assert(s[i] == package_entry(tree[i], header));
        assert(stored_name(s[i]) == entry_stored_name(tree[i]));
    }
    assert forall|i: int, j: int| 0 <= i < j < s.len() implies stored_name(#[trigger] s[i])
        != stored_name(#[trigger] s[j]) by {
        assert(s[i] == package_entry(tree[i], header));
        assert(s[j] == package_entry(tree[j], header));
        assert(stored_name(s[i]) == entry_stored_name(tree[i]));
        assert(stored_name(s[j]) == entry_stored_name(tree[j]));
    }
}

/// Whether two character sequences held in exec vectors are equal.
fn chars_eq(a: &Vec<char>, b: &Vec<char>) -> (r: bool)
    ensures
        r == (a@ == b@),
{
    if a.len() != b.len() {
        return false;
    }
    let mut i: usize = 0;
    while i < a.len()
        invariant
            a@.len() == b@.len(),
            i <= a@.len(),
            forall|k: int| 0 <= k < i ==> a@[k] == b@[k],
        decreases a@.len() - i,
    {
        if a[i] != b[i] {
            return false;
        }
        i = i + 1;
    }
    proof {
        assert(a@ =~= b@);
    }
    true
}

/// A character-for-character copy.
fn clone_chars(c: &Vec<char>) -> (r: Vec<char>)
    ensures
        r@ == c@,
{
    let mut out: Vec<char> = Vec::new();
    let mut i: usize = 0;
    while i < c.len()
        invariant
            i <= c@.len(),
            out@ =~= c@.take(i as int),
        decreases c@.len() - i,
    {
        out.push(c[i]);
        i = i + 1;
    }
    proof {
        assert(out@ =~= c@);
    }
    out
}

/// The characters of `RMSKIN.bmp`.
fn header_name_vec() -> (r: Vec<char>)
    ensures
        r@ == header_file_name(),
{
    let mut v: Vec<char> = Vec::new();
    v.push('R');
    v.push('M');
    v.push('S');
    v.push('K');
    v.push('I');
    v.push('N');
    v.push('.');
    v.push('b');
    v.push('m');
    v.push('p');
    proof {
        assert(v@ =~= header_file_name());
    }
    v
}

/// Rebuilds the source entries for archiving: the entry that carries the
/// header bitmap's name takes the normalized bitmap in place of its old
/// bytes; every other entry is copied as it stands.
fn prepare_entries(tree: &Vec<TreeEntry>, header: &Vec<u8>) -> (r: Vec<TreeEntry>)
    ensures
        entry_models(r@) == package_entries(tree@, header@),
{
    let hname = header_name_vec();
    let mut out: Vec<TreeEntry> = Vec::new();
    let mut i: usize = 0;
    proof {
        assert(entry_models(out@) =~= package_entries(tree@, header@).take(0));
    }
    while i < tree.len()
        invariant
            i <= tree@.len(),
            hname@ == header_file_name(),
            entry_models(out@) == package_entries(tree@, header@).take(i as int),
        decreases tree@.len() - i,
    {
        let e = &tree[i];
        let entry = if !e.is_dir && chars_eq(&e.path, &hname) {
            TreeEntry { path: clone_chars(&e.path), is_dir: false, data: clone_bytes(header) }
        } else {
            TreeEntry { path: clone_chars(&e.path), is_dir: e.is_dir, data: clone_bytes(&e.data) }
        };
        proof {
            assert(entry_model(entry) == package_entry(tree@[i as int], header@));
            assert(package_entries(tree@, header@)[i as int] == package_entry(
                tree@[i as int],
                header@,
            ));
        }
        out.push(entry);
        i = i + 1;
        proof {
            assert(package_entries(tree@, header@).take(i as int) =~= package_entries(
                tree@,
                header@,
            ).take(i - 1).push(package_entries(tree@, header@)[i - 1]));
            assert(entry_models(out@) =~= package_entries(tree@, header@).take(i as int));
        }
    }
    proof {
        assert(package_entries(tree@, header@).take(i as int) =~= package_entries(
            tree@,
            header@,
        ));
    }
    out
}

/// Builds a package from plain values: the metadata text if its file
/// existed, the header bitmap's bytes if its file existed, and the
/// enumerated source tree if walking it succeeded. The stages run in order
/// and the first failure is the build's error; on success the result holds
/// the exact bytes of the package file.
pub fn build_package(
    metadata_text: Option<&Vec<u8>>,
    header_image: Option<&Vec<u8>>,
    tree: Option<&Vec<TreeEntry>>,
) -> (r: Result<RmskinPackage, BuildError>)
    ensures
        match metadata_text {
            None => r == Err::<RmskinPackage, BuildError>(BuildError::MetadataNotFound),
            Some(m) => {
                if !metadata_wf(m@) {
                    r == Err::<RmskinPackage, BuildError>(BuildError::MetadataParseError)
                } else {
                    match header_image {
                        None => r == Err::<RmskinPackage, BuildError>(
                            BuildError::HeaderImageMissing,
                        ),
                        Some(img) => match decoded_dims(img@) {
                            None => r == Err::<RmskinPackage, BuildError>(
                                BuildError::HeaderImageInvalid,
                            ),
                            Some(dims) => {
                                &&& (match r {
                                    Ok(pkg) => tree matches Some(tv) && {
                                        &&& pkg.metadata.name@ == resolved_name(m@)
                                        &&& pkg.metadata.version@ == resolved_version(m@)
                                        &&& pkg.header_image@ == normalized_image(img@)
                                        &&& decoded_dims(pkg.header_image@) == Some(
                                            (CANVAS_WIDTH, CANVAS_HEIGHT),
                                        )
                                        &&& (dims == (CANVAS_WIDTH, CANVAS_HEIGHT)
                                            ==> pkg.header_image@ == img@)
                                        &&& pkg.archive_len == zip_bytes_of(
                                            package_entries(tv@, pkg.header_image@),
                                        ).len()
                                        &&& pkg.bytes@ == rmskin_bytes(
                                            zip_bytes_of(package_entries(tv@, pkg.header_image@)),
                                        )
                                        &&& pkg.bytes@.len() == pkg.archive_len as int + 16
                                    },
                                    Err(e) => {
                                        ||| (tree is None && e == BuildError::ArchiveWalkError)
                                        ||| (tree is Some && e == BuildError::IoError)
                                    },
                                })
                                &&& (tree is None ==> r == Err::<RmskinPackage, BuildError>(
                                    BuildError::ArchiveWalkError,
                                ))
                                &&& (tree matches Some(tv) && tree_archivable(tv@)
                                    && img@.len() <= MAX_FILE_BYTES ==> r is Ok)
                            },
                        },
                    }
                }
            },
        },
{
    let meta = match metadata_text {
        None => {
            return Err(BuildError::MetadataNotFound);
        },
        Some(m) => match parse_metadata(m) {
            Ok(pm) => pm,
            Err(e) => {
                return Err(e);
            },
        },
    };
    let header = match normalize_header(header_image) {
        Ok(h) => h,
        Err(e) => {
            return Err(e);
        },
    };
    let t = match tree {
        None => {
            return Err(BuildError::ArchiveWalkError);
        },
        Some(t) => t,
    };
    let entries = prepare_entries(t, &header);
    let archive = match archive_tree(&entries) {
        Ok(a) => a,
        Err(e) => {
            proof {
                if let Some(img) = header_image {
                    if tree_archivable(t@) && img@.len() <= MAX_FILE_BYTES {
                        assert(header@.len() <= MAX_FILE_BYTES);
                        lemma_tree_archivable(t@, header@);
                    }
                }
            }
            return Err(e);
        },
    };
    let archive_len = archive.len();
    proof {
        lemma_le_bytes_len(archive@.len() as int, 8);
    }
    let bytes = append_footer(archive);
    Ok(RmskinPackage { bytes, archive_len, metadata: meta, header_image: header })
}

/// Path portability of a whole package: every entry of a source tree is
/// archived under the portable form of its source path, and no archived
/// name holds a backslash.
pub proof fn lemma_package_paths_portable(tree: Seq<TreeEntry>, header: Seq<u8>)
    ensures
        package_entries(tree, header).len() == tree.len(),
        forall|i: int|
            0 <= i < tree.len() ==> #[trigger] package_entries(tree, header)[i].0 == portable_of(
                tree[i].path@,
            ),
        forall|i: int, j: int|
            0 <= i < tree.len() && 0 <= j < tree[i].path@.len()
                ==> #[trigger] package_entries(tree, header)[i].0[j] != '\\',
{
    assert forall|i: int, j: int|
        0 <= i < tree.len() && 0 <= j < tree[i].path@.len() implies #[trigger] package_entries(
        tree,
        header,
    )[i].0[j] != '\\' by {
        lemma_portable_paths(tree[i].path@);
    }
}

} // verus!
