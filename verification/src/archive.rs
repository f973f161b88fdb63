//! The backup/restore archive pipeline: creating a deflate archive from a
//! directory tree with exclusion rules, planning an extraction whose
//! exclusions only protect files that already exist, and the standard backup
//! exclusion list. The zip container format itself is the zip crate's work,
//! behind trusted wrappers; every decision around it is verified.

use vstd::prelude::*;

use crate::errors::OpError;
use crate::strutil::{ends_with_spec, starts_with_spec, str_ends_with, str_eq, str_starts_with};

verus! {

/// One node of a directory tree handed to archiving: its path relative to
/// the tree root (without a trailing separator of either kind), whether it
/// is a directory, and its bytes (empty for a directory).
pub struct FsEntry {
    pub path: String,
    pub is_dir: bool,
    pub data: Vec<u8>,
}

/// The names of a string list, as mathematical values.
pub open spec fn names_view(s: Seq<String>) -> Seq<Seq<char>> {
    s.map_values(|x: String| x@)
}

/// Whether `path` matches the exclusion `pat`: exactly, or as something
/// beneath an excluded directory.
pub open spec fn excluded_by_spec(path: Seq<char>, pat: Seq<char>) -> bool {
    path == pat || starts_with_spec(path, pat + seq!['/'])
}

/// Whether any exclusion matches `path`.
pub open spec fn excluded_spec(path: Seq<char>, excl: Seq<Seq<char>>) -> bool {
    exists|k: int| 0 <= k < excl.len() && excluded_by_spec(path, #[trigger] excl[k])
}

/// Whether any exclusion equals `path` exactly (the extraction side's
/// check).
pub open spec fn excluded_exact_spec(path: Seq<char>, excl: Seq<Seq<char>>) -> bool {
    exists|k: int| 0 <= k < excl.len() && path == #[trigger] excl[k]
}

/// Whether any exclusion matches `path`, exactly or as a directory prefix.
pub fn is_excluded(path: &str, excl: &Vec<String>) -> (r: bool)
    ensures
        r == excluded_spec(path@, names_view(excl@)),
{
    let mut k: usize = 0;
    while k < excl.len()
        invariant
            0 <= k <= excl@.len(),
            forall|j: int|
                0 <= j < k ==> !excluded_by_spec(path@, #[trigger] names_view(excl@)[j]),
        decreases excl@.len() - k,
    {
        let pat = &excl[k];
        if str_eq(path, pat.as_str()) {
            assert(names_view(excl@)[k as int] == excl@[k as int]@);
            return true;
        }
        let mut dir_pat = pat.clone();
        dir_pat.push('/');
        assert(dir_pat@ =~= excl@[k as int]@ + seq!['/']);
        if str_starts_with(path, dir_pat.as_str()) {
            assert(names_view(excl@)[k as int] == excl@[k as int]@);
            return true;
        }
        assert(!excluded_by_spec(path@, names_view(excl@)[k as int]));
        k += 1;
    }
    false
}

/// Whether any exclusion equals `path` exactly.
pub fn is_excluded_exact(path: &str, excl: &Vec<String>) -> (r: bool)
    ensures
        r == excluded_exact_spec(path@, names_view(excl@)),
{
    let mut k: usize = 0;
    while k < excl.len()
        invariant
            0 <= k <= excl@.len(),
            forall|j: int| 0 <= j < k ==> path@ != #[trigger] names_view(excl@)[j],
        decreases excl@.len() - k,
    {
        if str_eq(path, excl[k].as_str()) {
            assert(names_view(excl@)[k as int] == excl@[k as int]@);
            return true;
        }
        assert(names_view(excl@)[k as int] == excl@[k as int]@);
        k += 1;
    }
    false
}

/// What parsing an archive's bytes yields: each entry's stored name and
/// decompressed contents in stored order, directory entries named with a
/// trailing separator and empty contents; nothing when the bytes do not
/// decode. A function of the bytes alone.
pub uninterp spec fn zip_entries_of(bytes: Seq<u8>) -> Option<Seq<(Seq<char>, Seq<u8>)>>;

/// An archive writer over an in-memory buffer; the zip crate's `ZipWriter`,
/// opaque to verification, whose contents the wrappers below track.
#[verifier::external_body]
pub struct ZipBuilder {
    inner: zip::ZipWriter<std::io::Cursor<Vec<u8>>>,
}

/// What an archive writer still holds: the entries started so far, in
/// order, each with the data written for it.
pub uninterp spec fn zip_pending(w: ZipBuilder) -> Seq<(Seq<char>, Seq<u8>)>;

/// Whether the writer has a file entry open for data: true from a
/// successful file start until a directory entry follows.
pub uninterp spec fn zip_open_file(w: ZipBuilder) -> bool;

/// The most data one archive entry may carry with success still owed: far
/// enough under the format's four-gigabyte size field that even worst-case
/// deflate expansion of incompressible data (stored blocks of 64 KiB, five
/// bytes of header each) keeps the compressed form inside it.
pub const ZIP_ENTRY_DATA_MAX: u64 = 0xFFBF0000;

/// Every entry the writer holds stays within the per-entry data bound, so
/// no compressed form can outgrow the format's size field.
pub open spec fn pending_within_limits(p: Seq<(Seq<char>, Seq<u8>)>) -> bool {
    forall|k: int| 0 <= k < p.len() ==> (#[trigger] p[k]).1.len() <= ZIP_ENTRY_DATA_MAX
}

/// Relies on `zip::ZipWriter::new`: a writer over an empty in-memory buffer
/// holds no entries.
#[verifier::external_body]
fn zip_writer_new() -> (w: ZipBuilder)
    ensures
        zip_pending(w) == Seq::<(Seq<char>, Seq<u8>)>::empty(),
        !zip_open_file(w),
{
    ZipBuilder { inner: zip::ZipWriter::new(std::io::Cursor::new(Vec::new())) }
}

/// Relies on `zip::ZipWriter::start_file`: on success the archive gains one
/// deflate-compressed file entry of this name, stored raw and empty until
/// written. The call fails on a duplicate stored name, a name past the
/// format's 64 KiB name field, or when closing the previous entry finds its
/// compressed form past the format's size field; so it succeeds whenever the
/// name is fresh and short enough that its UTF-8 form must fit (at most
/// 16000 characters) and every entry so far is within the per-entry data
/// bound. A trailing separator is excluded so that a file entry is never
/// mistaken for a directory entry on the way back.
#[verifier::external_body]
fn zip_start_file(w: &mut ZipBuilder, name: &str) -> (r: Result<(), OpError>)
    requires
        name@.len() == 0 || name@[name@.len() - 1] != '/',
    ensures
        r is Ok ==> zip_pending(*final(w)) == zip_pending(*old(w)).push(
            (name@, Seq::<u8>::empty()),
        ) && zip_open_file(*final(w)),
        r is Err ==> r.unwrap_err() == OpError::ArchiveCreateFailed,
        (name@.len() <= 16000 && pending_within_limits(zip_pending(*old(w))) && (forall|k: int|
            0 <= k < zip_pending(*old(w)).len() ==> (#[trigger] zip_pending(*old(w))[k]).0
                != name@)) ==> r is Ok,
{
    let opts = zip::write::SimpleFileOptions::default().compression_method(
        zip::CompressionMethod::Deflated,
    );
    w.inner.start_file(name, opts).map_err(|_| OpError::ArchiveCreateFailed)
}

/// Relies on the `std::io::Write` impl of `zip::ZipWriter` (`write_all`): on
/// success the bytes extend the entry started last. The call fails when no
/// file entry is open or when the entry's data passes the format's
/// four-gigabyte threshold without the large-file option, and on the
/// in-memory buffer those are its only failures; success is owed within the
/// tighter per-entry bound, under which even the worst-case compressed form
/// still fits the format's size field when the entry is closed.
#[verifier::external_body]
fn zip_write_data(w: &mut ZipBuilder, data: &[u8]) -> (r: Result<(), OpError>)
    requires
        zip_pending(*old(w)).len() > 0,
    ensures
        r is Ok ==> zip_pending(*final(w)) == zip_pending(*old(w)).update(
            zip_pending(*old(w)).len() - 1,
            (
                zip_pending(*old(w)).last().0,
                zip_pending(*old(w)).last().1 + data@,
            ),
        ) && zip_open_file(*final(w)) == zip_open_file(*old(w)),
        r is Err ==> r.unwrap_err() == OpError::ArchiveCreateFailed,
        (zip_open_file(*old(w)) && zip_pending(*old(w)).last().1.len() + data@.len()
            <= ZIP_ENTRY_DATA_MAX) ==> r is Ok,
{
    std::io::Write::write_all(&mut w.inner, data).map_err(|_| OpError::ArchiveCreateFailed)
}

/// Relies on `zip::ZipWriter::add_directory`: on success the archive gains
/// one directory entry, stored with a trailing separator and no contents.
/// The crate appends that separator only when the given name ends in neither
/// kind of separator, so both are excluded here. The call fails on a
/// duplicate stored name, a name past the format's 64 KiB name field, or
/// when closing the previous entry finds its compressed form past the
/// format's size field; so it succeeds whenever the stored name is fresh,
/// the name short enough that its UTF-8 form must fit (at most 16000
/// characters), and every entry so far is within the per-entry data bound.
#[verifier::external_body]
fn zip_add_directory(w: &mut ZipBuilder, name: &str) -> (r: Result<(), OpError>)
    requires
        name@.len() == 0 || (name@[name@.len() - 1] != '/' && name@[name@.len() - 1] != '\\'),
    ensures
        r is Ok ==> zip_pending(*final(w)) == zip_pending(*old(w)).push(
            (name@.push('/'), Seq::<u8>::empty()),
        ) && !zip_open_file(*final(w)),
        r is Err ==> r.unwrap_err() == OpError::ArchiveCreateFailed,
        (name@.len() <= 16000 && pending_within_limits(zip_pending(*old(w))) && (forall|k: int|
            0 <= k < zip_pending(*old(w)).len() ==> (#[trigger] zip_pending(*old(w))[k]).0
                != name@.push('/'))) ==> r is Ok,
{
    let opts = zip::write::SimpleFileOptions::default();
    w.inner.add_directory(name, opts).map_err(|_| OpError::ArchiveCreateFailed)
}

/// Relies on `zip::ZipWriter::finish`: on success the returned bytes are an
/// archive that reads back as exactly the entries written, in order, names
/// and contents preserved. Closing the last entry fails when its compressed
/// form passed the format's size field; on the in-memory buffer that is the
/// only failure, so finishing succeeds while every entry is within the
/// per-entry data bound.
#[verifier::external_body]
fn zip_finish(w: ZipBuilder) -> (r: Result<Vec<u8>, OpError>)
    ensures
        pending_within_limits(zip_pending(w)) ==> r is Ok,
        r is Ok ==> zip_entries_of(r.unwrap()@) == Some(zip_pending(w)),
        r is Err ==> r.unwrap_err() == OpError::ArchiveCreateFailed,
{
    match w.inner.finish() {
        Ok(cur) => Ok(cur.into_inner()),
        Err(_) => Err(OpError::ArchiveCreateFailed),
    }
}

/// The entries a decoded archive holds, as mathematical values.
pub open spec fn decoded_view(s: Seq<(String, Vec<u8>)>) -> Seq<(Seq<char>, Seq<u8>)> {
    s.map_values(|e: (String, Vec<u8>)| (e.0@, e.1@))
}

/// Relies on `zip::ZipArchive` (`new`, `len`, `by_index`) and
/// `std::io::Read::read_to_end`: parses the bytes and yields every entry's
/// stored name and decompressed contents in stored order; it fails exactly
/// when the bytes do not decode as an archive.
#[verifier::external_body]
fn zip_decode(bytes: &Vec<u8>) -> (r: Result<Vec<(String, Vec<u8>)>, OpError>)
    ensures
        r is Ok <==> zip_entries_of(bytes@) is Some,
        r is Ok ==> decoded_view(r.unwrap()@) == zip_entries_of(bytes@).unwrap(),
        r is Err ==> r->Err_0 == OpError::ArchiveExtractFailed,
{
    let cur = std::io::Cursor::new(bytes.clone());
    let mut za = zip::ZipArchive::new(cur).map_err(|_| OpError::ArchiveExtractFailed)?;
    let mut out: Vec<(String, Vec<u8>)> = Vec::new();
    for i in 0..za.len() {
        let mut f = za.by_index(i).map_err(|_| OpError::ArchiveExtractFailed)?;
        let name = f.name().to_string();
        let mut data = Vec::new();
        std::io::Read::read_to_end(&mut f, &mut data).map_err(|_| OpError::ArchiveExtractFailed)?;
        out.push((name, data));
    }
    Ok(out)
}

/// What one tree node stores as an archive entry: a directory gains the
/// trailing separator and has no contents.
pub open spec fn entry_stored(e: FsEntry) -> (Seq<char>, Seq<u8>) {
    if e.is_dir {
        (e.path@.push('/'), Seq::empty())
    } else {
        (e.path@, e.data@)
    }
}

/// The entries an archive of the tree holds: every node whose relative path
/// no exclusion matches, in walk order.
pub open spec fn archive_plan(entries: Seq<FsEntry>, excl: Seq<Seq<char>>) -> Seq<
    (Seq<char>, Seq<u8>),
>
    decreases entries.len(),
{
    if entries.len() == 0 {
        Seq::empty()
    } else {
        archive_plan(entries.drop_last(), excl) + (if excluded_spec(
            entries.last().path@,
            excl,
        ) {
            Seq::empty()
        } else {
            seq![entry_stored(entries.last())]
        })
    }
}

/// Every node's relative path is free of a trailing separator of either
/// kind, as a tree walk yields them.
pub open spec fn paths_separator_free(entries: Seq<FsEntry>) -> bool {
    forall|k: int|
        0 <= k < entries.len() ==> ((#[trigger] entries[k]).path@.len() == 0 || (
        entries[k].path@[entries[k].path@.len() - 1] != '/'
            && entries[k].path@[entries[k].path@.len() - 1] != '\\'))
}

/// When archiving a tree must succeed: the stored names of its non-excluded
/// nodes are pairwise distinct, every path is short enough that its encoded
/// name must fit the format's name field, and every file stays within the
/// per-entry data bound, under which even worst-case deflate expansion fits
/// the format's size field.
pub open spec fn archive_within_limits(entries: Seq<FsEntry>, excl: Seq<Seq<char>>) -> bool {
    let plan = archive_plan(entries, excl);
    &&& forall|p: int, q: int|
        0 <= p < q < plan.len() ==> (#[trigger] plan[p]).0 != (#[trigger] plan[q]).0
    &&& forall|k: int|
        0 <= k < entries.len() ==> (#[trigger] entries[k]).path@.len() <= 16000
            && entries[k].data@.len() <= ZIP_ENTRY_DATA_MAX
}

/// Each walked prefix contributes a prefix of the whole plan.
proof fn lemma_plan_prefix(entries: Seq<FsEntry>, excl: Seq<Seq<char>>, i: int)
    requires
        0 <= i <= entries.len(),
    ensures
        archive_plan(entries.subrange(0, i), excl).len() <= archive_plan(entries, excl).len(),
        forall|k: int|
            0 <= k < archive_plan(entries.subrange(0, i), excl).len() ==> #[trigger] archive_plan(
                entries.subrange(0, i),
                excl,
            )[k] == archive_plan(entries, excl)[k],
    decreases entries.len() - i,
{
    if i == entries.len() {
        assert(entries.subrange(0, i) =~= entries);
    } else {
        lemma_plan_prefix(entries, excl, i + 1);
        let pre = entries.subrange(0, i);
        let cur = entries.subrange(0, i + 1);
        assert(cur.drop_last() =~= pre);
        assert(cur.last() == entries[i]);
        let ppre = archive_plan(pre, excl);
        let pcur = archive_plan(cur, excl);
        assert forall|k: int| 0 <= k < ppre.len() implies #[trigger] ppre[k] == archive_plan(
            entries,
            excl,
        )[k] by {
            assert(pcur[k] == ppre[k]);
        }
    }
}

/// A non-excluded node's stored form stands in the plan right after its
/// prefix's entries.
proof fn lemma_plan_next(entries: Seq<FsEntry>, excl: Seq<Seq<char>>, i: int)
    requires
        0 <= i < entries.len(),
        !excluded_spec(entries[i].path@, excl),
    ensures
        ({
            let p = archive_plan(entries.subrange(0, i), excl).len();
            &&& p < archive_plan(entries, excl).len()
            &&& archive_plan(entries, excl)[p as int] == entry_stored(entries[i])
        }),
{
    let pre = entries.subrange(0, i);
    let cur = entries.subrange(0, i + 1);
    assert(cur.drop_last() =~= pre);
    assert(cur.last() == entries[i]);
    let p = archive_plan(pre, excl).len();
    assert(archive_plan(cur, excl)[p as int] == entry_stored(entries[i]));
    lemma_plan_prefix(entries, excl, i + 1);
}

/// Under the limits, a non-excluded node's stored name is fresh: it differs
/// from every name the walked prefix stored.
proof fn lemma_stored_name_fresh(entries: Seq<FsEntry>, excl: Seq<Seq<char>>, i: int)
    requires
        0 <= i < entries.len(),
        !excluded_spec(entries[i].path@, excl),
        archive_within_limits(entries, excl),
    ensures
        forall|k: int|
            0 <= k < archive_plan(entries.subrange(0, i), excl).len() ==> (
            #[trigger] archive_plan(entries.subrange(0, i), excl)[k]).0 != entry_stored(
                entries[i],
            ).0,
{
    lemma_plan_prefix(entries, excl, i);
    lemma_plan_next(entries, excl, i);
    let plan = archive_plan(entries, excl);
    let pre = archive_plan(entries.subrange(0, i), excl);
    let p = pre.len() as int;
    assert forall|k: int| 0 <= k < pre.len() implies (#[trigger] pre[k]).0 != entry_stored(
        entries[i],
    ).0 by {
        assert(pre[k] == plan[k]);
        assert(plan[k].0 != plan[p].0);
    }
}

/// Every archive entry carries either a node's data or nothing, so a tree
/// within the per-entry bound plans only entries within it.
proof fn lemma_plan_data_bounded(entries: Seq<FsEntry>, excl: Seq<Seq<char>>)
    requires
        forall|k: int|
            0 <= k < entries.len() ==> (#[trigger] entries[k]).data@.len() <= ZIP_ENTRY_DATA_MAX,
    ensures
        pending_within_limits(archive_plan(entries, excl)),
    decreases entries.len(),
{
    if entries.len() > 0 {
        let t = entries.drop_last();
        assert(forall|k: int| 0 <= k < t.len() ==> #[trigger] t[k] == entries[k]);
        lemma_plan_data_bounded(t, excl);
        let plan = archive_plan(entries, excl);
        let pre = archive_plan(t, excl);
        assert forall|k: int| 0 <= k < plan.len() implies (#[trigger] plan[k]).1.len()
            <= ZIP_ENTRY_DATA_MAX by {
            if k < pre.len() {
                assert(plan[k] == pre[k]);
            } else {
                assert(plan[k] == entry_stored(entries.last()));
            }
        }
    }
}

/// Creates a deflate archive of the tree, skipping every node whose path an
/// exclusion matches exactly or as a directory prefix: on success the bytes
/// read back as exactly the non-excluded nodes, paths and contents
/// preserved in walk order. Success is owed whenever the non-excluded
/// stored names are pairwise distinct and every node fits the format's name
/// and size limits.
pub fn create_archive(entries: &Vec<FsEntry>, exclusions: &Vec<String>) -> (r: Result<
    Vec<u8>,
    OpError,
>)
    requires
        paths_separator_free(entries@),
    ensures
        r is Ok ==> zip_entries_of(r.unwrap()@) == Some(
            archive_plan(entries@, names_view(exclusions@)),
        ),
        r is Err ==> r.unwrap_err() == OpError::ArchiveCreateFailed,
        archive_within_limits(entries@, names_view(exclusions@)) ==> r is Ok,
{
    let ghost excl = names_view(exclusions@);
    let mut w = zip_writer_new();
    let mut i: usize = 0;
    let n = entries.len();
    proof {
        assert(entries@.subrange(0, 0) =~= Seq::<FsEntry>::empty());
    }
    while i < n
        invariant
            0 <= i <= n,
            n == entries@.len(),
            excl == names_view(exclusions@),
            paths_separator_free(entries@),
            zip_pending(w) == archive_plan(entries@.subrange(0, i as int), excl),
        decreases n - i,
    {
        let e = &entries[i];
        let ghost pre = entries@.subrange(0, i as int);
        let ghost cur = entries@.subrange(0, i + 1);
        proof {
            assert(cur.drop_last() =~= pre);
            assert(cur.last() == entries@[i as int]);
        }
        if is_excluded(e.path.as_str(), exclusions) {
            proof {
                assert(archive_plan(cur, excl) =~= archive_plan(pre, excl));
            }
        } else if e.is_dir {
            match zip_add_directory(&mut w, e.path.as_str()) {
                Ok(_) => {},
                Err(err) => {
                    proof {
                        if archive_within_limits(entries@, excl) {
                            lemma_stored_name_fresh(entries@, excl, i as int);
                            lemma_plan_data_bounded(pre, excl);
                            assert(false);
                        }
                    }
                    return Err(err);
                },
            }
            proof {
                assert(archive_plan(cur, excl) =~= archive_plan(pre, excl).push(
                    entry_stored(entries@[i as int]),
                ));
            }
        } else {
            match zip_start_file(&mut w, e.path.as_str()) {
                Ok(_) => {},
                Err(err) => {
                    proof {
                        if archive_within_limits(entries@, excl) {
                            lemma_stored_name_fresh(entries@, excl, i as int);
                            lemma_plan_data_bounded(pre, excl);
                            assert(false);
                        }
                    }
                    return Err(err);
                },
            }
            match zip_write_data(&mut w, e.data.as_slice()) {
                Ok(_) => {},
                Err(err) => {
                    proof {
                        if archive_within_limits(entries@, excl) {
                            assert(zip_pending(w).last() == (e.path@, Seq::<u8>::empty()));
                            assert(Seq::<u8>::empty().len() + e.data@.len()
                                <= ZIP_ENTRY_DATA_MAX);
                            assert(false);
                        }
                    }
                    return Err(err);
                },
            }
            proof {
                let plan_pre = archive_plan(pre, excl);
                assert(zip_pending(w) =~= plan_pre.push((e.path@, Seq::<u8>::empty() + e.data@)));
                assert(Seq::<u8>::empty() + e.data@ =~= e.data@);
                assert(zip_pending(w) =~= plan_pre.push(entry_stored(entries@[i as int])));
                assert(archive_plan(cur, excl) =~= plan_pre.push(
                    entry_stored(entries@[i as int]),
                ));
            }
        }
        i += 1;
    }
    proof {
        assert(entries@.subrange(0, n as int) =~= entries@);
        if archive_within_limits(entries@, excl) {
            lemma_plan_data_bounded(entries@, excl);
        }
    }
    zip_finish(w)
}

/// The standard backup exclusions, as mathematical values: the ciphertext
/// container directory, the safe-memory file, the keystone file and the
/// sealed-key file.
pub open spec fn standard_exclusions() -> Seq<Seq<char>> {
    seq!["sce_pfs"@, "sce_sys/safemem.dat"@, "sce_sys/keystone"@, "sce_sys/sealedkey"@]
}

/// The standard backup exclusion list.
pub fn backup_black_list() -> (r: Vec<String>)
    ensures
        names_view(r@) =~= standard_exclusions(),
{
    let mut v: Vec<String> = Vec::new();
    v.push("sce_pfs".to_owned());
    v.push("sce_sys/safemem.dat".to_owned());
    v.push("sce_sys/keystone".to_owned());
    v.push("sce_sys/sealedkey".to_owned());
    v
}

/// Creates a backup archive of a save tree: an archive with the standard
/// exclusion list applied. Success is owed under the same limits as any
/// archive.
pub fn backup_game_save(entries: &Vec<FsEntry>) -> (r: Result<Vec<u8>, OpError>)
    requires
        paths_separator_free(entries@),
    ensures
        r is Ok ==> zip_entries_of(r.unwrap()@) == Some(
            archive_plan(entries@, standard_exclusions()),
        ),
        r is Err ==> r.unwrap_err() == OpError::ArchiveCreateFailed,
        archive_within_limits(entries@, standard_exclusions()) ==> r is Ok,
{
    let excl = backup_black_list();
    create_archive(entries, &excl)
}

/// Whether `sub` occurs anywhere inside `s`.
pub open spec fn has_sub(s: Seq<char>, sub: Seq<char>) -> bool {
    exists|i: int| 0 <= i && i + sub.len() <= s.len() && #[trigger] s.subrange(i, i + sub.len())
        == sub
}

/// Whether `sub` occurs in `s` at position `i`.
fn match_at(s: &str, sub: &str, i: usize) -> (r: bool)
    requires
        i + sub@.len() <= s@.len(),
        s@.len() <= usize::MAX,
    ensures
        r == (s@.subrange(i as int, i + sub@.len()) == sub@),
{
    let m = sub.unicode_len();
    let mut k: usize = 0;
    while k < m
        invariant
            0 <= k <= m,
            m == sub@.len(),
            i + m <= s@.len(),
            s@.len() <= usize::MAX,
            forall|l: int| 0 <= l < k ==> s@[i + l] == sub@[l],
        decreases m - k,
    {
        if s.get_char(i + k) != sub.get_char(k) {
            assert(s@.subrange(i as int, i + sub@.len())[k as int] != sub@[k as int]);
            return false;
        }
        k += 1;
    }
    assert(s@.subrange(i as int, i + sub@.len()) =~= sub@);
    true
}

/// Whether `sub` occurs anywhere inside `s`.
pub fn str_contains(s: &str, sub: &str) -> (r: bool)
    ensures
        r == has_sub(s@, sub@),
{
    let n = s.unicode_len();
    let m = sub.unicode_len();
    if m > n {
        return false;
    }
    if m == 0 {
        assert(has_sub(s@, sub@)) by {
            assert(s@.subrange(0, 0 + sub@.len() as int) =~= sub@);
        }
        return true;
    }
    let mut i: usize = 0;
    while i <= n - m
        invariant
            0 <= i <= n - m + 1,
            1 <= m <= n,
            n == s@.len(),
            m == sub@.len(),
            forall|j: int| 0 <= j < i ==> #[trigger] s@.subrange(j, j + sub@.len()) != sub@,
        decreases n - m - i + 1,
    {
        if match_at(s, sub, i) {
            return true;
        }
        i += 1;
    }
    false
}

/// A stored name the extraction refuses to write under the destination: an
/// absolute one, or one with a whole parent component — alone, leading,
/// trailing, or between separators. A component that merely contains dots,
/// such as `a..`, is a plain name and passes.
pub open spec fn unsafe_entry_name(n: Seq<char>) -> bool {
    ||| n.len() > 0 && n[0] == '/'
    ||| n == seq!['.', '.']
    ||| starts_with_spec(n, seq!['.', '.', '/'])
    ||| ends_with_spec(n, seq!['/', '.', '.'])
    ||| has_sub(n, seq!['/', '.', '.', '/'])
}

/// Whether the extraction refuses this stored name.
pub fn is_unsafe_name(n: &str) -> (r: bool)
    ensures
        r == unsafe_entry_name(n@),
{
    proof {
        reveal_strlit("../");
        reveal_strlit("/..");
        reveal_strlit("..");
        reveal_strlit("/../");
        assert("../"@ =~= seq!['.', '.', '/']);
        assert("/.."@ =~= seq!['/', '.', '.']);
        assert(".."@ =~= seq!['.', '.']);
        assert("/../"@ =~= seq!['/', '.', '.', '/']);
    }
    (n.unicode_len() > 0 && n.get_char(0) == '/') || str_eq(n, "..") || str_starts_with(
        n,
        "../",
    ) || str_ends_with(n, "/..") || str_contains(n, "/../")
}

/// Whether an archive entry is a directory entry: its stored name carries a
/// trailing separator.
pub open spec fn is_dir_entry(e: (Seq<char>, Seq<u8>)) -> bool {
    e.0.len() > 0 && e.0[e.0.len() - 1] == '/'
}

/// Whether `existing` holds the name `n`.
pub open spec fn contains_name(existing: Seq<Seq<char>>, n: Seq<char>) -> bool {
    exists|k: int| 0 <= k < existing.len() && #[trigger] existing[k] == n
}

/// Whether the destination already holds the name `n`.
pub fn name_exists(existing: &Vec<String>, n: &str) -> (r: bool)
    ensures
        r == contains_name(names_view(existing@), n@),
{
    let mut k: usize = 0;
    while k < existing.len()
        invariant
            0 <= k <= existing@.len(),
            forall|j: int| 0 <= j < k ==> #[trigger] names_view(existing@)[j] != n@,
        decreases existing@.len() - k,
    {
        if str_eq(existing[k].as_str(), n) {
            assert(names_view(existing@)[k as int] == existing@[k as int]@);
            return true;
        }
        assert(names_view(existing@)[k as int] == existing@[k as int]@);
        k += 1;
    }
    false
}

/// The directories an extraction creates: every safe directory entry, in
/// stored order.
pub open spec fn extract_dirs_spec(entries: Seq<(Seq<char>, Seq<u8>)>) -> Seq<Seq<char>>
    decreases entries.len(),
{
    if entries.len() == 0 {
        Seq::empty()
    } else {
        extract_dirs_spec(entries.drop_last()) + (if !unsafe_entry_name(entries.last().0)
            && is_dir_entry(entries.last()) {
            seq![entries.last().0]
        } else {
            Seq::empty()
        })
    }
}

/// Whether an extraction writes this file entry: it is a safe file entry,
/// and it is not an excluded name that the destination already holds.
pub open spec fn write_kept(
    e: (Seq<char>, Seq<u8>),
    excl: Seq<Seq<char>>,
    existing: Seq<Seq<char>>,
) -> bool {
    &&& !unsafe_entry_name(e.0)
    &&& !is_dir_entry(e)
    &&& !(excluded_exact_spec(e.0, excl) && contains_name(existing, e.0))
}

/// The files an extraction writes, in stored order: every safe file entry
/// except an excluded name the destination already holds.
pub open spec fn extract_writes_spec(
    entries: Seq<(Seq<char>, Seq<u8>)>,
    excl: Seq<Seq<char>>,
    existing: Seq<Seq<char>>,
) -> Seq<(Seq<char>, Seq<u8>)>
    decreases entries.len(),
{
    if entries.len() == 0 {
        Seq::empty()
    } else {
        extract_writes_spec(entries.drop_last(), excl, existing) + (if write_kept(
            entries.last(),
            excl,
            existing,
        ) {
            seq![entries.last()]
        } else {
            Seq::empty()
        })
    }
}

/// The files an extraction leaves untouched: every safe file entry whose
/// name an exclusion matches exactly and the destination already holds.
pub open spec fn extract_skips_spec(
    entries: Seq<(Seq<char>, Seq<u8>)>,
    excl: Seq<Seq<char>>,
    existing: Seq<Seq<char>>,
) -> Seq<Seq<char>>
    decreases entries.len(),
{
    if entries.len() == 0 {
        Seq::empty()
    } else {
        extract_skips_spec(entries.drop_last(), excl, existing) + (if !unsafe_entry_name(
            entries.last().0,
        ) && !is_dir_entry(entries.last()) && excluded_exact_spec(entries.last().0, excl)
            && contains_name(existing, entries.last().0) {
            seq![entries.last().0]
        } else {
            Seq::empty()
        })
    }
}

/// What an extraction will do, in stored order: the directories to create,
/// the files to write (parents created as needed), and the files left
/// untouched because an exclusion matched and they already exist.
pub struct ExtractPlan {
    pub dirs: Vec<String>,
    pub writes: Vec<(String, Vec<u8>)>,
    pub skipped: Vec<String>,
}

/// Plans the extraction of an archive into a destination that already holds
/// the names in `existing`: every safe directory entry is created, every
/// safe file entry is written except an exclusion-matched name that already
/// exists, which is left untouched; unsafe stored names are dropped whole.
/// Fails exactly when the bytes do not decode as an archive.
pub fn extract_archive(archive: &Vec<u8>, exclusions: &Vec<String>, existing: &Vec<String>) -> (r:
    Result<ExtractPlan, OpError>)
    ensures
        r is Ok <==> zip_entries_of(archive@) is Some,
        r is Err ==> r->Err_0 == OpError::ArchiveExtractFailed,
        r is Ok ==> ({
            let entries = zip_entries_of(archive@).unwrap();
            &&& names_view(r.unwrap().dirs@) == extract_dirs_spec(entries)
            &&& decoded_view(r.unwrap().writes@) == extract_writes_spec(
                entries,
                names_view(exclusions@),
                names_view(existing@),
            )
            &&& names_view(r.unwrap().skipped@) == extract_skips_spec(
                entries,
                names_view(exclusions@),
                names_view(existing@),
            )
        }),
{
    let decoded = match zip_decode(archive) {
        Ok(d) => d,
        Err(e) => {
            return Err(e);
        },
    };
    let ghost entries = zip_entries_of(archive@).unwrap();
    let mut dirs: Vec<String> = Vec::new();
    let mut writes: Vec<(String, Vec<u8>)> = Vec::new();
    let mut skipped: Vec<String> = Vec::new();
    let mut src = decoded;
    let ghost src0 = src@;
    let total = src.len();
    let mut i: usize = 0;
    proof {
        assert(decoded_view(src0).subrange(0, 0) =~= Seq::<(Seq<char>, Seq<u8>)>::empty());
    }
    while src.len() > 0
        invariant
            0 <= i <= src0.len(),
            total == src0.len(),
            i + src@.len() == src0.len(),
            src@ =~= src0.subrange(i as int, src0.len() as int),
            entries == decoded_view(src0),
            names_view(dirs@) =~= extract_dirs_spec(decoded_view(src0).subrange(0, i as int)),
            decoded_view(writes@) =~= extract_writes_spec(
                decoded_view(src0).subrange(0, i as int),
                names_view(exclusions@),
                names_view(existing@),
            ),
            names_view(skipped@) =~= extract_skips_spec(
                decoded_view(src0).subrange(0, i as int),
                names_view(exclusions@),
                names_view(existing@),
            ),
        decreases src@.len(),
    {
        let e = src.remove(0);
        let ghost ev = (e.0@, e.1@);
        proof {
            assert(src@ =~= src0.subrange(i + 1, src0.len() as int));
            assert(ev == decoded_view(src0)[i as int]);
            let pre = decoded_view(src0).subrange(0, i as int);
            let cur = decoded_view(src0).subrange(0, i + 1);
            assert(cur.drop_last() =~= pre);
            assert(cur.last() == ev);
        }
        let n = e.0.as_str().unicode_len();
        let is_dir = n > 0 && e.0.as_str().get_char(n - 1) == '/';
        if is_unsafe_name(e.0.as_str()) {
            proof {
                lemma_step_unchanged(
                    decoded_view(src0),
                    i as int,
                    names_view(exclusions@),
                    names_view(existing@),
                );
            }
        } else if is_dir {
            let ghost d0 = dirs@;
            dirs.push(e.0);
            proof {
                assert(names_view(dirs@) =~= names_view(d0).push(ev.0));
            }
        } else if is_excluded_exact(e.0.as_str(), exclusions) && name_exists(
            existing,
            e.0.as_str(),
        ) {
            let ghost s0 = skipped@;
            skipped.push(e.0);
            proof {
                assert(names_view(skipped@) =~= names_view(s0).push(ev.0));
            }
        } else {
            let ghost w0 = writes@;
            writes.push(e);
            proof {
                assert(decoded_view(writes@) =~= decoded_view(w0).push(ev));
            }
        }
        i += 1;
    }
    proof {
        assert(decoded_view(src0).subrange(0, src0.len() as int) =~= decoded_view(src0));
    }
    Ok(ExtractPlan { dirs, writes, skipped })
}

/// An unsafe stored name changes none of the three projections.
proof fn lemma_step_unchanged(
    entries: Seq<(Seq<char>, Seq<u8>)>,
    i: int,
    excl: Seq<Seq<char>>,
    existing: Seq<Seq<char>>,
)
    requires
        0 <= i < entries.len(),
        unsafe_entry_name(entries[i].0),
    ensures
        extract_dirs_spec(entries.subrange(0, i + 1)) == extract_dirs_spec(
            entries.subrange(0, i),
        ),
        extract_writes_spec(entries.subrange(0, i + 1), excl, existing) == extract_writes_spec(
            entries.subrange(0, i),
            excl,
            existing,
        ),
        extract_skips_spec(entries.subrange(0, i + 1), excl, existing) == extract_skips_spec(
            entries.subrange(0, i),
            excl,
            existing,
        ),
{
    let pre = entries.subrange(0, i);
    let cur = entries.subrange(0, i + 1);
    assert(cur.drop_last() =~= pre);
    assert(cur.last() == entries[i]);
    assert(extract_dirs_spec(cur) =~= extract_dirs_spec(pre));
    assert(extract_writes_spec(cur, excl, existing) =~= extract_writes_spec(pre, excl, existing));
    assert(extract_skips_spec(cur, excl, existing) =~= extract_skips_spec(pre, excl, existing));
}


/// A file entry an extraction keeps is among its writes.
pub proof fn lemma_writes_contains_entry(
    entries: Seq<(Seq<char>, Seq<u8>)>,
    excl: Seq<Seq<char>>,
    existing: Seq<Seq<char>>,
    j: int,
)
    requires
        0 <= j < entries.len(),
        !is_dir_entry(entries[j]),
        !unsafe_entry_name(entries[j].0),
        !(excluded_exact_spec(entries[j].0, excl) && contains_name(existing, entries[j].0)),
    ensures
        extract_writes_spec(entries, excl, existing).contains(entries[j]),
    decreases entries.len(),
{
    let w = extract_writes_spec(entries, excl, existing);
    let wp = extract_writes_spec(entries.drop_last(), excl, existing);
    if j == entries.len() - 1 {
        assert(w[wp.len() as int] == entries[j]);
    } else {
        let t = entries.drop_last();
        assert(forall|k: int| 0 <= k < t.len() ==> #[trigger] t[k] == entries[k]);
        lemma_writes_contains_entry(t, excl, existing, j);
        let idx = choose|i: int| 0 <= i < wp.len() && wp[i] == entries[j];
        assert(w[idx] == entries[j]);
    }
}

/// No write carries a name that an exclusion matches exactly and the
/// destination already holds: that file stays untouched.
pub proof fn lemma_writes_name_absent(
    entries: Seq<(Seq<char>, Seq<u8>)>,
    excl: Seq<Seq<char>>,
    existing: Seq<Seq<char>>,
    n: Seq<char>,
)
    requires
        excluded_exact_spec(n, excl),
        contains_name(existing, n),
    ensures
        forall|idx: int|
            0 <= idx < extract_writes_spec(entries, excl, existing).len()
                ==> (#[trigger] extract_writes_spec(entries, excl, existing)[idx]).0 != n,
    decreases entries.len(),
{
    if entries.len() > 0 {
        lemma_writes_name_absent(entries.drop_last(), excl, existing, n);
        let w = extract_writes_spec(entries, excl, existing);
        let wp = extract_writes_spec(entries.drop_last(), excl, existing);
        assert forall|idx: int| 0 <= idx < w.len() implies (#[trigger] w[idx]).0 != n by {
            if idx < wp.len() {
                assert(w[idx] == wp[idx]);
            } else {
                assert(w[idx] == entries.last());
                assert(write_kept(entries.last(), excl, existing));
            }
        }
    }
}

/// A safe file entry whose name an exclusion matches exactly and the
/// destination already holds is recorded as skipped.
pub proof fn lemma_skip_recorded(
    entries: Seq<(Seq<char>, Seq<u8>)>,
    excl: Seq<Seq<char>>,
    existing: Seq<Seq<char>>,
    j: int,
)
    requires
        0 <= j < entries.len(),
        !is_dir_entry(entries[j]),
        !unsafe_entry_name(entries[j].0),
        excluded_exact_spec(entries[j].0, excl),
        contains_name(existing, entries[j].0),
    ensures
        extract_skips_spec(entries, excl, existing).contains(entries[j].0),
    decreases entries.len(),
{
    let s = extract_skips_spec(entries, excl, existing);
    let sp = extract_skips_spec(entries.drop_last(), excl, existing);
    if j == entries.len() - 1 {
        assert(s[sp.len() as int] == entries[j].0);
    } else {
        let t = entries.drop_last();
        assert(forall|k: int| 0 <= k < t.len() ==> #[trigger] t[k] == entries[k]);
        lemma_skip_recorded(t, excl, existing, j);
        let idx = choose|i: int| 0 <= i < sp.len() && sp[i] == entries[j].0;
        assert(s[idx] == entries[j].0);
    }
}

/// A tree node no exclusion matches appears in the archive as stored.
pub proof fn lemma_plan_contains_entry(entries: Seq<FsEntry>, excl: Seq<Seq<char>>, j: int)
    requires
        0 <= j < entries.len(),
        !excluded_spec(entries[j].path@, excl),
    ensures
        archive_plan(entries, excl).contains(entry_stored(entries[j])),
    decreases entries.len(),
{
    let p = archive_plan(entries, excl);
    let pp = archive_plan(entries.drop_last(), excl);
    if j == entries.len() - 1 {
        assert(p[pp.len() as int] == entry_stored(entries[j]));
    } else {
        let t = entries.drop_last();
        assert(forall|k: int| 0 <= k < t.len() ==> #[trigger] t[k] == entries[k]);
        lemma_plan_contains_entry(t, excl, j);
        let idx = choose|i: int| 0 <= i < pp.len() && pp[i] == entry_stored(entries[j]);
        assert(p[idx] == entry_stored(entries[j]));
    }
}

/// No archive entry carries an excluded file name: what the exclusions
/// match never reaches the archive.
pub proof fn lemma_plan_name_absent(entries: Seq<FsEntry>, excl: Seq<Seq<char>>, n: Seq<char>)
    requires
        excluded_spec(n, excl),
        n.len() == 0 || n[n.len() - 1] != '/',
    ensures
        forall|idx: int|
            0 <= idx < archive_plan(entries, excl).len() ==> (#[trigger] archive_plan(
                entries,
                excl,
            )[idx]).0 != n,
    decreases entries.len(),
{
    if entries.len() > 0 {
        lemma_plan_name_absent(entries.drop_last(), excl, n);
        let p = archive_plan(entries, excl);
        let pp = archive_plan(entries.drop_last(), excl);
        assert forall|idx: int| 0 <= idx < p.len() implies (#[trigger] p[idx]).0 != n by {
            if idx < pp.len() {
                assert(p[idx] == pp[idx]);
            } else {
                let e = entries.last();
                assert(p[idx] == entry_stored(e));
                assert(!excluded_spec(e.path@, excl));
                if e.is_dir {
                    assert(entry_stored(e).0 == e.path@.push('/'));
                    assert(entry_stored(e).0[entry_stored(e).0.len() - 1] == '/');
                } else {
                    assert(entry_stored(e).0 == e.path@);
                }
            }
        }
    }
}

/// Writes only re-use the archive's names: a name absent from the archive is
/// absent from the writes.
pub proof fn lemma_writes_names_from_entries(
    entries: Seq<(Seq<char>, Seq<u8>)>,
    excl: Seq<Seq<char>>,
    existing: Seq<Seq<char>>,
    n: Seq<char>,
)
    requires
        forall|i: int| 0 <= i < entries.len() ==> (#[trigger] entries[i]).0 != n,
    ensures
        forall|idx: int|
            0 <= idx < extract_writes_spec(entries, excl, existing).len()
                ==> (#[trigger] extract_writes_spec(entries, excl, existing)[idx]).0 != n,
    decreases entries.len(),
{
    if entries.len() > 0 {
        let t = entries.drop_last();
        assert(forall|k: int| 0 <= k < t.len() ==> #[trigger] t[k] == entries[k]);
        lemma_writes_names_from_entries(t, excl, existing, n);
        let w = extract_writes_spec(entries, excl, existing);
        let wp = extract_writes_spec(t, excl, existing);
        assert forall|idx: int| 0 <= idx < w.len() implies (#[trigger] w[idx]).0 != n by {
            if idx < wp.len() {
                assert(w[idx] == wp[idx]);
            } else {
                assert(w[idx] == entries.last());
                assert(entries.last() == entries[entries.len() - 1]);
            }
        }
    }
}

/// Creating an archive of a tree and extracting it with the same exclusion
/// list into an empty directory writes every non-excluded file back
/// byte-for-byte.
pub proof fn lemma_round_trip_reproduces_files(entries: Seq<FsEntry>, excl: Seq<Seq<char>>, j: int)
    requires
        0 <= j < entries.len(),
        !entries[j].is_dir,
        entries[j].path@.len() == 0 || entries[j].path@[entries[j].path@.len() - 1] != '/',
        !unsafe_entry_name(entries[j].path@),
        !excluded_spec(entries[j].path@, excl),
    ensures
        extract_writes_spec(archive_plan(entries, excl), excl, Seq::empty()).contains(
            (entries[j].path@, entries[j].data@),
        ),
{
    lemma_plan_contains_entry(entries, excl, j);
    let plan = archive_plan(entries, excl);
    let stored = entry_stored(entries[j]);
    assert(stored == (entries[j].path@, entries[j].data@));
    let idx = choose|i: int| 0 <= i < plan.len() && plan[i] == stored;
    assert(!contains_name(Seq::<Seq<char>>::empty(), stored.0));
    lemma_writes_contains_entry(plan, excl, Seq::empty(), idx);
}

/// Creating an archive of a tree and extracting it with the same exclusion
/// list into an empty directory writes no excluded file: what the exclusions
/// match is absent from a first restore.
pub proof fn lemma_round_trip_excluded_absent(entries: Seq<FsEntry>, excl: Seq<Seq<char>>, n: Seq<
    char,
>)
    requires
        excluded_spec(n, excl),
        n.len() == 0 || n[n.len() - 1] != '/',
    ensures
        forall|idx: int|
            0 <= idx < extract_writes_spec(archive_plan(entries, excl), excl, Seq::empty()).len()
                ==> (#[trigger] extract_writes_spec(
                archive_plan(entries, excl),
                excl,
                Seq::empty(),
            )[idx]).0 != n,
{
    lemma_plan_name_absent(entries, excl, n);
    lemma_writes_names_from_entries(archive_plan(entries, excl), excl, Seq::empty(), n);
}

/// Every write of an extraction is kept by the overwrite policy: a safe
/// file entry whose name is not both excluded and already present.
proof fn lemma_writes_all_kept(
    entries: Seq<(Seq<char>, Seq<u8>)>,
    excl: Seq<Seq<char>>,
    existing: Seq<Seq<char>>,
)
    ensures
        forall|idx: int|
            0 <= idx < extract_writes_spec(entries, excl, existing).len() ==> write_kept(
                #[trigger] extract_writes_spec(entries, excl, existing)[idx],
                excl,
                existing,
            ),
    decreases entries.len(),
{
    if entries.len() > 0 {
        let t = entries.drop_last();
        lemma_writes_all_kept(t, excl, existing);
        let w = extract_writes_spec(entries, excl, existing);
        let wp = extract_writes_spec(t, excl, existing);
        assert forall|idx: int| 0 <= idx < w.len() implies write_kept(
            #[trigger] w[idx],
            excl,
            existing,
        ) by {
            if idx < wp.len() {
                assert(w[idx] == wp[idx]);
            } else {
                assert(w[idx] == entries.last());
            }
        }
    }
}

/// The archive round trip over a whole tree: creating an archive with an
/// exclusion list and extracting it with the same list into an empty
/// directory reproduces every non-excluded file byte-for-byte, and no write
/// carries a name the exclusions match — what was excluded is absent from a
/// first restore. The tree's paths carry no trailing separator and no
/// absolute or parent-escaping name, as a directory walk yields them.
pub proof fn lemma_create_extract_round_trip_tree(entries: Seq<FsEntry>, excl: Seq<Seq<char>>)
    requires
        paths_separator_free(entries),
        forall|k: int|
            0 <= k < entries.len() ==> !unsafe_entry_name((#[trigger] entries[k]).path@),
    ensures
        forall|j: int|
            0 <= j < entries.len() && !(#[trigger] entries[j]).is_dir && !excluded_spec(
                entries[j].path@,
                excl,
            ) ==> extract_writes_spec(archive_plan(entries, excl), excl, Seq::empty()).contains(
                (entries[j].path@, entries[j].data@),
            ),
        forall|idx: int|
            0 <= idx < extract_writes_spec(archive_plan(entries, excl), excl, Seq::empty()).len()
                ==> !excluded_spec(
                (#[trigger] extract_writes_spec(
                    archive_plan(entries, excl),
                    excl,
                    Seq::empty(),
                )[idx]).0,
                excl,
            ),
{
    let plan = archive_plan(entries, excl);
    let w = extract_writes_spec(plan, excl, Seq::empty());
    assert forall|j: int|
        0 <= j < entries.len() && !(#[trigger] entries[j]).is_dir && !excluded_spec(
            entries[j].path@,
            excl,
        ) implies w.contains((entries[j].path@, entries[j].data@)) by {
        lemma_round_trip_reproduces_files(entries, excl, j);
    }
    lemma_writes_all_kept(plan, excl, Seq::empty());
    assert forall|idx: int| 0 <= idx < w.len() implies !excluded_spec(
        (#[trigger] w[idx]).0,
        excl,
    ) by {
        let n = w[idx].0;
        assert(!is_dir_entry(w[idx]));
        if excluded_spec(n, excl) {
            lemma_plan_name_absent(entries, excl, n);
            lemma_writes_names_from_entries(plan, excl, Seq::empty(), n);
            assert(w[idx].0 != n);
        }
    }
}

/// The overwrite policy over a whole archive: every safe file entry is
/// written with its archived bytes — created where missing, overwritten
/// where present — except one whose name an exclusion matches exactly and
/// the destination already holds, which is recorded skipped and appears in
/// no write: that file stays untouched.
pub proof fn lemma_extract_overwrite_policy_tree(
    entries: Seq<(Seq<char>, Seq<u8>)>,
    excl: Seq<Seq<char>>,
    existing: Seq<Seq<char>>,
)
    ensures
        forall|j: int|
            0 <= j < entries.len() && !is_dir_entry(#[trigger] entries[j]) && !unsafe_entry_name(
                entries[j].0,
            ) && !(excluded_exact_spec(entries[j].0, excl) && contains_name(existing, entries[j].0))
                ==> extract_writes_spec(entries, excl, existing).contains(entries[j]),
        forall|j: int|
            0 <= j < entries.len() && !is_dir_entry(#[trigger] entries[j]) && !unsafe_entry_name(
                entries[j].0,
            ) && excluded_exact_spec(entries[j].0, excl) && contains_name(existing, entries[j].0)
                ==> extract_skips_spec(entries, excl, existing).contains(entries[j].0),
        forall|idx: int|
            0 <= idx < extract_writes_spec(entries, excl, existing).len() ==> !(
            excluded_exact_spec(
                (#[trigger] extract_writes_spec(entries, excl, existing)[idx]).0,
                excl,
            ) && contains_name(existing, extract_writes_spec(entries, excl, existing)[idx].0)),
{
    let w = extract_writes_spec(entries, excl, existing);
    assert forall|j: int|
        0 <= j < entries.len() && !is_dir_entry(#[trigger] entries[j]) && !unsafe_entry_name(
            entries[j].0,
        ) && !(excluded_exact_spec(entries[j].0, excl) && contains_name(
            existing,
            entries[j].0,
        )) implies w.contains(entries[j]) by {
        lemma_writes_contains_entry(entries, excl, existing, j);
    }
    assert forall|j: int|
        0 <= j < entries.len() && !is_dir_entry(#[trigger] entries[j]) && !unsafe_entry_name(
            entries[j].0,
        ) && excluded_exact_spec(entries[j].0, excl) && contains_name(
            existing,
            entries[j].0,
        ) implies extract_skips_spec(entries, excl, existing).contains(entries[j].0) by {
        lemma_skip_recorded(entries, excl, existing, j);
    }
    lemma_writes_all_kept(entries, excl, existing);
    assert forall|idx: int| 0 <= idx < w.len() implies !(excluded_exact_spec(
        (#[trigger] w[idx]).0,
        excl,
    ) && contains_name(existing, w[idx].0)) by {
        assert(write_kept(w[idx], excl, existing));
    }
}

/// What a restore will do: the best-effort safety backup of the target (when
/// it could be taken), the extraction plan, and that the restored save
/// descriptor is to be patched to the active account.
pub struct RestorePlan {
    pub auto_backup: Option<Vec<u8>>,
    pub dirs: Vec<String>,
    pub writes: Vec<(String, Vec<u8>)>,
    pub skipped: Vec<String>,
    pub patch_sfo: bool,
}

/// Plans a restore of an archive over the target tree: first a best-effort
/// safety backup of the target with the standard exclusions (its failure
/// does not abort the restore, and it cannot fail while the target is within
/// the archive limits), then the extraction with the standard exclusions
/// against what the target already holds; extraction failure is fatal. A
/// successful plan always asks for the identity patch.
pub fn restore_game_save(archive: &Vec<u8>, target: &Vec<FsEntry>, existing: &Vec<String>) -> (r:
    Result<RestorePlan, OpError>)
    requires
        paths_separator_free(target@),
    ensures
        r is Ok <==> zip_entries_of(archive@) is Some,
        r is Err ==> r->Err_0 == OpError::ArchiveExtractFailed,
        r is Ok ==> ({
            let plan = r.unwrap();
            let entries = zip_entries_of(archive@).unwrap();
            &&& plan.patch_sfo
            &&& names_view(plan.dirs@) == extract_dirs_spec(entries)
            &&& decoded_view(plan.writes@) == extract_writes_spec(
                entries,
                standard_exclusions(),
                names_view(existing@),
            )
            &&& names_view(plan.skipped@) == extract_skips_spec(
                entries,
                standard_exclusions(),
                names_view(existing@),
            )
            &&& (plan.auto_backup matches Some(bytes) ==> zip_entries_of(bytes@) == Some(
                archive_plan(target@, standard_exclusions()),
            ))
            &&& archive_within_limits(target@, standard_exclusions()) ==> plan.auto_backup is Some
        }),
{
    let excl = backup_black_list();
    let auto_backup = match create_archive(target, &excl) {
        Ok(bytes) => Some(bytes),
        Err(_) => None,
    };
    let plan = match extract_archive(archive, &excl, existing) {
        Ok(p) => p,
        Err(e) => {
            return Err(e);
        },
    };
    Ok(
        RestorePlan {
            auto_backup,
            dirs: plan.dirs,
            writes: plan.writes,
            skipped: plan.skipped,
            patch_sfo: true,
        },
    )
}

/// What the identity patch is to do next, decided from the world alone.
pub enum SfoPatchStep {
    NothingToDo,
    Patch(u64),
}

/// Decides the ownership patch of a save descriptor: a missing descriptor
/// needs nothing; with a descriptor present, an unavailable account (zero)
/// fails, and otherwise the descriptor is to be patched to the account.
pub fn update_sfo_file_with_current_account_id(sfo_exists: bool, account_id: u64) -> (r: Result<
    SfoPatchStep,
    OpError,
>)
    ensures
        !sfo_exists ==> r == Ok::<SfoPatchStep, OpError>(SfoPatchStep::NothingToDo),
        sfo_exists && account_id == 0 ==> r == Err::<SfoPatchStep, OpError>(
            OpError::IdentityPatchFailed,
        ),
        sfo_exists && account_id > 0 ==> r == Ok::<SfoPatchStep, OpError>(
            SfoPatchStep::Patch(account_id),
        ),
{
    if !sfo_exists {
        Ok(SfoPatchStep::NothingToDo)
    } else if account_id == 0 {
        Err(OpError::IdentityPatchFailed)
    } else {
        Ok(SfoPatchStep::Patch(account_id))
    }
}

/// Judges the platform's answer to the ownership patch: a negative status is
/// the patch failure, anything else is success.
pub fn sfo_patch_result(status: i8) -> (r: Result<(), OpError>)
    ensures
        status < 0 ==> r == Err::<(), OpError>(OpError::IdentityPatchFailed),
        status >= 0 ==> r == Ok::<(), OpError>(()),
{
    if status < 0 {
        Err(OpError::IdentityPatchFailed)
    } else {
        Ok(())
    }
}

} // verus!


