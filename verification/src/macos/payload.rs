//! The payload of a package: the files of the source folder, and the
//! scripts, as CPIO archives.

use vstd::prelude::*;
use vstd::string::StringExecFns;
use vstd::utf8::encode_utf8;

use crate::bytes::copy_bytes;
use crate::macos::bom::{BomEntry, BomEntryView};
use crate::macos::cpio::{
    create_payload_at, entry_views, is_payload_result, unix_time_now, CpioEntry,
};
use crate::models::error::PackageError;
use crate::models::macos::{PackagePayload, PayloadFile};
use crate::paths::PathFacts;

verus! {

/// File-type bits of a directory.
pub const S_IFDIR: u32 = 0o040000;

/// Mode of every script: executable.
pub const SCRIPT_MODE: u32 = 0o755;

/// What was found at a path under the source folder: a regular file with its
/// content, or a directory.
pub struct SourceEntry {
    /// Path relative to the source folder.
    pub relative_path: String,
    /// Unix mode.
    pub mode: u32,
    /// User id of the owner.
    pub uid: u32,
    /// Group id of the owner.
    pub gid: u32,
    /// Size in bytes.
    pub size: u64,
    /// Whether this is a directory.
    pub is_dir: bool,
    /// Content of a file (empty for a directory, and for an entry that is
    /// only listed).
    pub data: Vec<u8>,
}

/// The record of an entry in the payload's list of files: a file with its
/// size; a directory with size 0 and the directory bit in its mode.
pub open spec fn payload_file(entry: SourceEntry) -> PayloadFile {
    if entry.is_dir {
        PayloadFile { relative_path: entry.relative_path, size: 0, mode: entry.mode | S_IFDIR }
    } else {
        PayloadFile { relative_path: entry.relative_path, size: entry.size, mode: entry.mode }
    }
}

/// The records of the entries.
pub open spec fn payload_files(entries: Seq<SourceEntry>) -> Seq<PayloadFile> {
    Seq::new(entries.len(), |i: int| payload_file(entries[i]))
}

/// The sizes of the files among the first `k` entries, added up.
pub open spec fn files_size(entries: Seq<SourceEntry>, k: int) -> int
    decreases k,
{
    if k <= 0 {
        0
    } else {
        files_size(entries, k - 1) + payload_file(entries[k - 1]).size
    }
}

proof fn lemma_files_size_grows(entries: Seq<SourceEntry>, j: int, k: int)
    requires
        0 <= j <= k,
    ensures
        files_size(entries, j) <= files_size(entries, k),
    decreases k - j,
{
    if j < k {
        lemma_files_size_grows(entries, j, k - 1);
    }
}

/// Collect the files of a source folder into the list of the payload.
///
/// Fails only where the sizes do not add up in 64 bits.
pub fn collect_files(entries: &[SourceEntry]) -> (result: Result<PackagePayload, PackageError>)
    ensures
        files_size(entries@, entries@.len() as int) <= u64::MAX ==> (result matches Ok(payload)
            && payload.files@ == payload_files(entries@) && payload.total_size == files_size(
            entries@,
            entries@.len() as int,
        )),
        files_size(entries@, entries@.len() as int) > u64::MAX ==> (result matches Err(
            PackageError::SourceReadError { path, reason },
        ) && reason@ == "Total size does not fit 64 bits"@),
{
    let mut payload = PackagePayload::new();
    let ghost wanted = payload_files(entries@);
    let mut i: usize = 0;
    assert(payload.files@ =~= wanted.subrange(0, 0));
    while i < entries.len()
        invariant
            i <= entries.len(),
            wanted == payload_files(entries@),
            payload.files@ == wanted.subrange(0, i as int),
            payload.total_size == files_size(entries@, i as int),
        decreases entries.len() - i,
    {
        let entry = &entries[i];
        let size: u64 = if entry.is_dir {
            0
        } else {
            entry.size
        };
        let mode: u32 = if entry.is_dir {
            entry.mode | S_IFDIR
        } else {
            entry.mode
        };
        if size > u64::MAX - payload.total_size {
            proof {
                lemma_files_size_grows(entries@, i + 1, entries@.len() as int);
            }
            return Err(
                PackageError::SourceReadError {
                    path: entry.relative_path.clone(),
                    reason: String::from_str("Total size does not fit 64 bits"),
                },
            );
        }
        payload.add_file(entry.relative_path.clone(), size, mode);
        assert(payload.files@ =~= wanted.subrange(0, i + 1)) by {
            assert(wanted.subrange(0, i + 1) =~= wanted.subrange(0, i as int).push(
                wanted[i as int],
            ));
        }
        i += 1;
    }
    assert(wanted.subrange(0, entries@.len() as int) =~= wanted);
    Ok(payload)
}

/// The files among the first `k` entries as entries of a CPIO archive: path,
/// content, and the permission bits of the mode. Directories are left out.
pub open spec fn cpio_entries(entries: Seq<SourceEntry>, k: int) -> Seq<(Seq<u8>, Seq<u8>, u32)>
    decreases k,
{
    if k <= 0 {
        Seq::empty()
    } else if entries[k - 1].is_dir {
        cpio_entries(entries, k - 1)
    } else {
        cpio_entries(entries, k - 1).push(
            (
                encode_utf8(entries[k - 1].relative_path@),
                entries[k - 1].data@,
                entries[k - 1].mode & 0o7777,
            ),
        )
    }
}

/// The files of a source folder as entries of a CPIO archive.
pub fn payload_entries(entries: &[SourceEntry]) -> (files: Vec<CpioEntry>)
    ensures
        entry_views(files@) == cpio_entries(entries@, entries@.len() as int),
{
    let mut files: Vec<CpioEntry> = Vec::new();
    let mut i: usize = 0;
    assert(entry_views(files@) =~= cpio_entries(entries@, 0));
    while i < entries.len()
        invariant
            i <= entries.len(),
            entry_views(files@) == cpio_entries(entries@, i as int),
        decreases entries.len() - i,
    {
        let entry = &entries[i];
        if !entry.is_dir {
            let ghost before = entry_views(files@);
            let file: CpioEntry = (
                entry.relative_path.clone(),
                copy_bytes(entry.data.as_slice()),
                entry.mode & 0o7777,
            );
            files.push(file);
            assert(entry_views(files@) =~= before.push(
                (encode_utf8(entry.relative_path@), entry.data@, entry.mode & 0o7777),
            ));
        }
        i += 1;
    }
    files
}

/// Create the gzip-compressed CPIO payload of a source folder, whose files
/// carry `mtime` as their time of modification.
pub fn create_payload_stamped(entries: &[SourceEntry], mtime: u64) -> (result: Result<
    Vec<u8>,
    PackageError,
>)
    ensures
        is_payload_result(result, cpio_entries(entries@, entries@.len() as int), mtime),
{
    let files = payload_entries(entries);
    create_payload_at(files.as_slice(), mtime)
}

/// Create the gzip-compressed CPIO payload of a source folder, stamped with
/// the current time.
pub fn create_payload(entries: &[SourceEntry]) -> (result: Result<Vec<u8>, PackageError>)
    ensures
        exists|mtime: u64|
            is_payload_result(result, cpio_entries(entries@, entries@.len() as int), mtime),
{
    let mtime: u64 = unix_time_now();
    create_payload_stamped(entries, mtime)
}

/// The entries of a source folder as entries of a BOM.
pub open spec fn bom_entry_views(entries: Seq<SourceEntry>) -> Seq<BomEntryView> {
    Seq::new(
        entries.len(),
        |i: int|
            BomEntryView {
                path: encode_utf8(entries[i].relative_path@),
                mode: entries[i].mode,
                uid: entries[i].uid,
                gid: entries[i].gid,
                size: entries[i].size,
            },
    )
}

/// The entries of a source folder as entries of a BOM.
pub fn bom_entries(entries: &[SourceEntry]) -> (records: Vec<BomEntry>)
    ensures
        crate::macos::bom::views(records@) == bom_entry_views(entries@),
{
    let mut records: Vec<BomEntry> = Vec::new();
    let mut i: usize = 0;
    while i < entries.len()
        invariant
            i <= entries.len(),
            records@.len() == i,
            forall|j: int| 0 <= j < i ==> (#[trigger] records@[j])@ == bom_entry_views(entries@)[j],
        decreases entries.len() - i,
    {
        let entry = &entries[i];
        records.push(
            BomEntry {
                path: entry.relative_path.clone(),
                mode: entry.mode,
                uid: entry.uid,
                gid: entry.gid,
                size: entry.size,
            },
        );
        i += 1;
    }
    assert(crate::macos::bom::views(records@) =~= bom_entry_views(entries@));
    records
}

/// Scripts found in a scripts folder.
#[derive(Debug, Clone)]
pub struct ScriptsInfo {
    /// Whether a preinstall script exists.
    pub has_preinstall: bool,
    /// Whether a postinstall script exists.
    pub has_postinstall: bool,
}

/// Collect the scripts of a scripts folder: which of `preinstall` and
/// `postinstall` exist as regular files, given what was found on disk at the
/// folder and at the two names inside it.
///
/// Fails where the folder does not exist.
pub fn collect_scripts(
    scripts_folder: &str,
    folder: PathFacts,
    preinstall: PathFacts,
    postinstall: PathFacts,
) -> (result: Result<ScriptsInfo, PackageError>)
    ensures
        !folder.exists ==> (result matches Err(PackageError::ScriptsFolderNotFound { path })
            && path@ == scripts_folder@),
        folder.exists ==> (result matches Ok(info) && info.has_preinstall == (preinstall.exists
            && preinstall.is_file) && info.has_postinstall == (postinstall.exists
            && postinstall.is_file)),
{
    if !folder.exists {
        return Err(PackageError::ScriptsFolderNotFound { path: String::from_str(scripts_folder) });
    }
    let has_preinstall = preinstall.exists && preinstall.is_file;
    let has_postinstall = postinstall.exists && postinstall.is_file;
    Ok(ScriptsInfo { has_preinstall, has_postinstall })
}

/// The scripts as entries of a CPIO archive: `preinstall`, then
/// `postinstall`, each executable.
pub open spec fn script_entries(preinstall: Option<Vec<u8>>, postinstall: Option<Vec<u8>>) -> Seq<
    (Seq<u8>, Seq<u8>, u32),
> {
    (match preinstall {
        Some(content) => seq![(encode_utf8("preinstall"@), content@, SCRIPT_MODE)],
        None => Seq::empty(),
    }) + (match postinstall {
        Some(content) => seq![(encode_utf8("postinstall"@), content@, SCRIPT_MODE)],
        None => Seq::empty(),
    })
}

/// Create the gzip-compressed CPIO archive of the scripts, whose files carry
/// `mtime` as their time of modification. `preinstall` and `postinstall` are
/// the contents of the scripts that exist.
///
/// Fails where there is no script at all.
pub fn create_scripts_archive_stamped(
    scripts_folder: &str,
    preinstall: &Option<Vec<u8>>,
    postinstall: &Option<Vec<u8>>,
    mtime: u64,
) -> (result: Result<Vec<u8>, PackageError>)
    ensures
        preinstall is None && postinstall is None ==> (result matches Err(
            PackageError::NoScriptsFound { path },
        ) && path@ == scripts_folder@),
        preinstall is Some || postinstall is Some ==> is_payload_result(
            result,
            script_entries(*preinstall, *postinstall),
            mtime,
        ),
{
    let mut entries: Vec<CpioEntry> = Vec::new();
    match preinstall {
        Some(content) => {
            entries.push((String::from_str("preinstall"), copy_bytes(content.as_slice()), SCRIPT_MODE));
        },
        None => {},
    }
    match postinstall {
        Some(content) => {
            entries.push(
                (String::from_str("postinstall"), copy_bytes(content.as_slice()), SCRIPT_MODE),
            );
        },
        None => {},
    }
    if entries.len() == 0 {
        return Err(PackageError::NoScriptsFound { path: String::from_str(scripts_folder) });
    }
    assert(entry_views(entries@) =~= script_entries(*preinstall, *postinstall));
    create_payload_at(entries.as_slice(), mtime)
}

/// Create the gzip-compressed CPIO archive of the scripts, stamped with the
/// current time. Scripts always get mode 0755.
pub fn create_scripts_archive(
    scripts_folder: &str,
    preinstall: &Option<Vec<u8>>,
    postinstall: &Option<Vec<u8>>,
) -> (result: Result<Vec<u8>, PackageError>)
    ensures
        preinstall is None && postinstall is None ==> (result matches Err(
            PackageError::NoScriptsFound { path },
        ) && path@ == scripts_folder@),
        preinstall is Some || postinstall is Some ==> exists|mtime: u64|
            is_payload_result(result, script_entries(*preinstall, *postinstall), mtime),
{
    let mtime: u64 = unix_time_now();
    create_scripts_archive_stamped(scripts_folder, preinstall, postinstall, mtime)
}

} // verus!
