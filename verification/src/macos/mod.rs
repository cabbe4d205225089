//! The macOS flat package (`.pkg`) and its parts.

pub mod bom;
pub mod bom_laws;
pub mod cpio;
pub mod payload;
pub mod pkg_laws;
pub mod xar;
pub mod xar_laws;
pub mod xml;

use vstd::prelude::*;
use vstd::string::StringExecFns;
use vstd::utf8::encode_utf8;

use crate::bytes::copy_bytes;
use crate::macos::bom::{bom_bytes, bom_failure, bom_fits, create_bom_from_directory};
use crate::macos::cpio::{cpio_archive, gzip_of, gzip_outcome, unix_time_now};
use crate::macos::payload::{
    bom_entry_views, collect_files, cpio_entries, create_payload_stamped,
    create_scripts_archive_stamped, files_size, script_entries, SourceEntry,
};
use crate::macos::xar::{
    heap_end, is_heap_too_large, new_entry, toc_xml, xar_archive, zlib_of, zlib_outcome, XarBuilder,
    XarEntryView,
};
use crate::macos::xml::{distribution_xml, generate_distribution, generate_packageinfo, packageinfo_xml};
use crate::models::error::PackageError;
use crate::models::macos::MacosPkgRequest;

verus! {

/// What was found at the scripts folder of a request.
pub struct ScriptsSource {
    /// Whether the folder exists.
    pub exists: bool,
    /// Content of `preinstall`, where it is a regular file.
    pub preinstall: Option<Vec<u8>>,
    /// Content of `postinstall`, where it is a regular file.
    pub postinstall: Option<Vec<u8>>,
}

/// A package that was built: its bytes, and the number of entries of its
/// payload.
pub struct BuiltPkg {
    /// The bytes of the `.pkg` file.
    pub data: Vec<u8>,
    /// Number of files and directories in the payload.
    pub file_count: usize,
}

/// The entries of an archive after one more entry under `path`, which gets
/// the next id.
pub open spec fn with_entry(
    entries: Seq<XarEntryView>,
    path: Seq<char>,
    is_file: bool,
    data: Seq<u8>,
) -> Seq<XarEntryView> {
    entries.push(new_entry(entries, path, is_file, data, (entries.len() + 1) as u64))
}

/// The entries of the archive of a package: the `Distribution` document, and
/// the directory `base.pkg` with the BOM, the payload, the `PackageInfo`
/// document and, where there are scripts, their archive.
pub open spec fn pkg_entries(
    distribution: Seq<u8>,
    bom: Seq<u8>,
    payload: Seq<u8>,
    package_info: Seq<u8>,
    scripts: Option<Seq<u8>>,
) -> Seq<XarEntryView> {
    let base = with_entry(
        with_entry(
            with_entry(
                with_entry(
                    with_entry(Seq::empty(), "Distribution"@, true, distribution),
                    "base.pkg"@,
                    false,
                    Seq::empty(),
                ),
                "base.pkg/Bom"@,
                true,
                bom,
            ),
            "base.pkg/Payload"@,
            true,
            payload,
        ),
        "base.pkg/PackageInfo"@,
        true,
        package_info,
    );
    match scripts {
        Some(archive) => with_entry(base, "base.pkg/Scripts"@, true, archive),
        None => base,
    }
}

/// The scripts that go into a package: those found, where the request names
/// a scripts folder.
pub open spec fn scripts_of(request: MacosPkgRequest, scripts: Option<ScriptsSource>) -> (
    Option<Vec<u8>>,
    Option<Vec<u8>>,
) {
    match (request.scripts_folder, scripts) {
        (Some(_), Some(source)) => (source.preinstall, source.postinstall),
        _ => (None, None),
    }
}

/// The entries of the archive of the package for a request, where the files
/// of the payload and of the scripts carry `mtime`. The payload holds the
/// files of `entries`, and the BOM lists `listing`.
pub open spec fn pkg_entries_for(
    request: MacosPkgRequest,
    entries: Seq<SourceEntry>,
    listing: Seq<SourceEntry>,
    scripts: Option<ScriptsSource>,
    mtime: u64,
) -> Seq<XarEntryView> {
    let kbytes = (files_size(entries, entries.len() as int) / 1024) as u64;
    let found = scripts_of(request, scripts);
    pkg_entries(
        encode_utf8(distribution_xml(request.identifier@, request.identifier@, request.version@, kbytes)),
        bom_bytes(bom_entry_views(listing)),
        gzip_of(cpio_archive(cpio_entries(entries, entries.len() as int), mtime)),
        encode_utf8(
            packageinfo_xml(
                request.identifier@,
                request.version@,
                request.install_location@,
                kbytes,
                entries.len() as usize,
                found.0 is Some,
                found.1 is Some,
            ),
        ),
        if found.0 is Some || found.1 is Some {
            Some(gzip_of(cpio_archive(script_entries(found.0, found.1), mtime)))
        } else {
            None
        },
    )
}

/// The archive of the package for a request.
pub open spec fn pkg_archive(
    request: MacosPkgRequest,
    entries: Seq<SourceEntry>,
    listing: Seq<SourceEntry>,
    scripts: Option<ScriptsSource>,
    mtime: u64,
) -> Seq<u8> {
    let contents = pkg_entries_for(request, entries, listing, scripts, mtime);
    let toc = encode_utf8(toc_xml(contents));
    xar_archive(contents, toc.len() as u64, zlib_of(toc))
}

/// Whether the scripts folder that a request names is missing.
pub open spec fn scripts_folder_missing(request: MacosPkgRequest, scripts: Option<ScriptsSource>) -> bool {
    request.scripts_folder is Some && match scripts {
        Some(source) => !source.exists,
        None => true,
    }
}

/// Whether the source of a package is in order: the folder holds something,
/// the sizes add up in 64 bits, and the scripts folder, where the request
/// names one, was found.
pub open spec fn is_ready(
    request: MacosPkgRequest,
    entries: Seq<SourceEntry>,
    scripts: Option<ScriptsSource>,
) -> bool {
    &&& entries.len() > 0
    &&& files_size(entries, entries.len() as int) <= u64::MAX
    &&& !scripts_folder_missing(request, scripts)
}

/// Whether `result` is the failure of the gzip encoder on an archive, as a
/// CPIO error.
pub open spec fn is_gzip_failure(
    result: Result<BuiltPkg, PackageError>,
    outcome: Result<Seq<u8>, Seq<char>>,
) -> bool {
    outcome matches Err(why) && (result matches Err(PackageError::CpioError { reason }) && reason@
        == why)
}

/// Whether `result` is what building the package gives for a source that is
/// in order. The first of these that applies decides: the gzip encoder fails
/// on the archive of the scripts, or on that of the payload; the listing
/// is empty, or no BOM can be made of it; the heap of the archive does not fit 64-bit
/// offsets; the zlib encoder fails on the table of contents. Where none
/// applies, the package comes back: the archive of the request, with the
/// number of entries of the source.
pub open spec fn is_build_result(
    result: Result<BuiltPkg, PackageError>,
    request: MacosPkgRequest,
    entries: Seq<SourceEntry>,
    listing: Seq<SourceEntry>,
    scripts: Option<ScriptsSource>,
    mtime: u64,
) -> bool {
    let found = scripts_of(request, scripts);
    let scripts_stream = gzip_outcome(cpio_archive(script_entries(found.0, found.1), mtime));
    let payload_stream = gzip_outcome(
        cpio_archive(cpio_entries(entries, entries.len() as int), mtime),
    );
    let contents = pkg_entries_for(request, entries, listing, scripts, mtime);
    if (found.0 is Some || found.1 is Some) && scripts_stream is Err {
        is_gzip_failure(result, scripts_stream)
    } else if payload_stream is Err {
        is_gzip_failure(result, payload_stream)
    } else if listing.len() == 0 {
        result matches Err(PackageError::BomError { reason }) && reason@
            == "Cannot create BOM with no entries"@
    } else if !bom_fits(bom_entry_views(listing)) {
        result matches Err(PackageError::BomError { reason }) && reason@ == bom_failure(
            bom_entry_views(listing),
        )
    } else if heap_end(contents) > u64::MAX {
        result matches Err(e) && is_heap_too_large(e)
    } else {
        match zlib_outcome(encode_utf8(toc_xml(contents))) {
            Ok(_) => result matches Ok(built) && built.data@ == pkg_archive(
                request,
                entries,
                listing,
                scripts,
                mtime,
            ) && built.file_count == entries.len(),
            Err(why) => result matches Err(PackageError::XarError { reason }) && reason@ == why,
        }
    }
}

/// Create a macOS flat package (`.pkg`) from a request, from what was found
/// under its source folder and at its scripts folder, with `mtime` as the
/// time of modification of the archived files. `entries` is what was found
/// under the source folder with links followed, for the payload; `listing`
/// is what was found there with links left as they are, for the BOM.
///
/// The call fails where the source folder holds nothing, where the sizes do
/// not add up in 64 bits, and where the scripts folder that the request
/// names is missing. A source folder that holds nothing is refused before
/// anything else. For a source that is in order the package is built, and
/// the call fails only where the BOM or the heap does not fit, or an encoder
/// fails.
pub fn package_stamped(
    request: &MacosPkgRequest,
    entries: &[SourceEntry],
    listing: &[SourceEntry],
    scripts: &Option<ScriptsSource>,
    mtime: u64,
) -> (result: Result<BuiltPkg, PackageError>)
    ensures
        is_ready(*request, entries@, *scripts) ==> is_build_result(
            result,
            *request,
            entries@,
            listing@,
            *scripts,
            mtime,
        ),
        entries@.len() == 0 ==> (result matches Err(PackageError::SourceFolderEmpty { path })
            && path@ == request.source_folder@),
        entries@.len() > 0 && files_size(entries@, entries@.len() as int) > u64::MAX
            ==> result matches Err(PackageError::SourceReadError { .. }),
        entries@.len() > 0 && files_size(entries@, entries@.len() as int) <= u64::MAX
            && scripts_folder_missing(*request, *scripts) ==> (result matches Err(
            PackageError::ScriptsFolderNotFound { path },
        ) && path@ == request.scripts_folder->0@),
{
    if entries.len() == 0 {
        return Err(PackageError::SourceFolderEmpty { path: request.source_folder.clone() });
    }
    let payload_data = match collect_files(entries) {
        Ok(payload) => payload,
        Err(e) => {
            return Err(e);
        },
    };
    let file_count: usize = payload_data.files.len();
    let kbytes: u64 = payload_data.total_size / 1024;

    // The scripts, where the request names a folder for them.
    let mut has_preinstall = false;
    let mut has_postinstall = false;
    let mut scripts_archive: Option<Vec<u8>> = None;
    match &request.scripts_folder {
        Some(scripts_folder) => {
            match scripts {
                Some(source) => {
                    if !source.exists {
                        return Err(
                            PackageError::ScriptsFolderNotFound { path: scripts_folder.clone() },
                        );
                    }
                    has_preinstall = source.preinstall.is_some();
                    has_postinstall = source.postinstall.is_some();
                    if has_preinstall || has_postinstall {
                        match create_scripts_archive_stamped(
                            scripts_folder.as_str(),
                            &source.preinstall,
                            &source.postinstall,
                            mtime,
                        ) {
                            Ok(archive) => {
                                scripts_archive = Some(archive);
                            },
                            Err(e) => {
                                return Err(e);
                            },
                        }
                    }
                },
                None => {
                    return Err(PackageError::ScriptsFolderNotFound { path: scripts_folder.clone() });
                },
            }
        },
        None => {},
    }

    let packageinfo_xml = match generate_packageinfo(
        request.identifier.as_str(),
        request.version.as_str(),
        request.install_location.as_str(),
        kbytes,
        file_count,
        has_preinstall,
        has_postinstall,
    ) {
        Ok(xml) => xml,
        Err(e) => {
            return Err(e);
        },
    };
    let distribution_xml = match generate_distribution(
        request.identifier.as_str(),
        request.identifier.as_str(),
        request.version.as_str(),
        kbytes,
    ) {
        Ok(xml) => xml,
        Err(e) => {
            return Err(e);
        },
    };
    let payload_bytes = match create_payload_stamped(entries, mtime) {
        Ok(payload) => payload,
        Err(e) => {
            return Err(e);
        },
    };
    let bom_bytes = match create_bom_from_directory(listing) {
        Ok(bom) => bom,
        Err(e) => {
            return Err(e);
        },
    };

    // The outer archive: the flat package.
    let mut outer_xar = XarBuilder::new();
    let distribution_bytes = copy_bytes(distribution_xml.as_str().as_bytes());
    let packageinfo_bytes = copy_bytes(packageinfo_xml.as_str().as_bytes());
    let _ = outer_xar.add_file("Distribution", distribution_bytes);
    let _ = outer_xar.add_directory("base.pkg");
    let _ = outer_xar.add_file("base.pkg/Bom", bom_bytes);
    let _ = outer_xar.add_file("base.pkg/Payload", payload_bytes);
    let _ = outer_xar.add_file("base.pkg/PackageInfo", packageinfo_bytes);
    match scripts_archive {
        Some(scripts_bytes) => {
            let _ = outer_xar.add_file("base.pkg/Scripts", scripts_bytes);
        },
        None => {},
    }
    assert(outer_xar@ == pkg_entries_for(*request, entries@, listing@, *scripts, mtime));
    match outer_xar.finish() {
        Ok(data) => Ok(BuiltPkg { data, file_count }),
        Err(e) => Err(e),
    }
}

/// Create a macOS flat package (`.pkg`) from a request and from what was
/// found under its source folder and at its scripts folder, stamped with the
/// current time.
pub fn package(
    request: &MacosPkgRequest,
    entries: &[SourceEntry],
    listing: &[SourceEntry],
    scripts: &Option<ScriptsSource>,
) -> (result: Result<BuiltPkg, PackageError>)
    ensures
        is_ready(*request, entries@, *scripts) ==> exists|mtime: u64|
            is_build_result(result, *request, entries@, listing@, *scripts, mtime),
        entries@.len() == 0 ==> (result matches Err(PackageError::SourceFolderEmpty { path })
            && path@ == request.source_folder@),
        entries@.len() > 0 && files_size(entries@, entries@.len() as int) > u64::MAX
            ==> result matches Err(PackageError::SourceReadError { .. }),
        entries@.len() > 0 && files_size(entries@, entries@.len() as int) <= u64::MAX
            && scripts_folder_missing(*request, *scripts) ==> (result matches Err(
            PackageError::ScriptsFolderNotFound { path },
        ) && path@ == request.scripts_folder->0@),
{
    let mtime: u64 = unix_time_now();
    package_stamped(request, entries, listing, scripts, mtime)
}

} // verus!
