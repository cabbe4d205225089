//! The Intune package (`.intunewin`): building it, and taking it apart.
//!
//! A package is a ZIP archive with two stored entries: the encrypted
//! content, which is itself a ZIP archive of the source files, and
//! `Detection.xml` with the secrets.

pub mod archive;
pub mod encrypt;
pub mod metadata;
pub mod metadata_laws;
pub mod zip_io;

use vstd::prelude::*;
use vstd::string::{StrSliceExecFns, StringExecFns};
use vstd::utf8::encode_utf8;

use crate::bytes::copy_bytes;
use crate::models::detection::{
    package_file_name, DetectionMetadata, DetectionView, EncryptionInfoView,
};
use crate::models::error::{PackageError, PackageResult};
use crate::models::package::{output_path_of, PackageRequest, SourceFile, UnpackRequest, Verbosity};
use crate::paths::PathFacts;
use crate::text::{chars_of, replaced};

use self::archive::{
    as_source_files, collect_source_files, is_sorted, normalize_path, setup_found, sizes_sum,
    FoundFile,
};
use self::encrypt::{
    decrypt_content, decrypt_outcome, encrypt_content, is_draw_failure, is_too_long, reports,
    sealed, sha256_of,
};
use self::metadata::{
    detection_xml, generate_detection_xml, metadata_of, parse_detection_xml, reads_as, xml_tokens,
};
use self::zip_io::{
    archive_source, archived, entry_refusal, lemma_refusal_stays, zip_entry, zip_entry_at,
    zip_entry_named, zip_finish, zip_len, zip_listing, zip_named, zip_new, zip_of, zip_open,
    zip_outcome, zip_refusal, zip_start_deflated, zip_start_stored, zip_text, zip_text_named,
    zip_write, zip_written, MemoryZipArchive, ZipEntry, ZipReadFailure,
};

verus! {

/// A file of the source folder with its content.
pub struct SourceContent {
    /// Path relative to the source folder.
    pub relative_path: String,
    /// Content of the file.
    pub data: Vec<u8>,
}

/// A package that was built: its bytes and its metadata.
pub struct BuiltIntune {
    /// The bytes of the `.intunewin` file.
    pub data: Vec<u8>,
    /// The metadata that the package carries.
    pub metadata: DetectionMetadata,
}

/// What was taken out of a package.
pub struct Extracted {
    /// The files, each with its name in the archive and its content.
    pub files: Vec<(String, Vec<u8>)>,
    /// The sizes of the files, added up.
    pub total_size: u64,
    /// The name of the setup file.
    pub setup_file: String,
}

/// Name of the encrypted content inside a package.
pub open spec fn content_entry_name() -> Seq<char> {
    "IntuneWinPackage/Contents/IntunePackage.intunewin"@
}

/// Name of the metadata document inside a package.
pub open spec fn metadata_entry_name() -> Seq<char> {
    "IntuneWinPackage/Metadata/Detection.xml"@
}

/// The entries of the inner archive: every file under its path with forward
/// slashes, deflated, in the order given.
pub open spec fn inner_entries(files: Seq<(String, Vec<u8>)>) -> Seq<ZipEntry> {
    Seq::new(files.len(), |i: int| (replaced(files[i].0@, '\\', "/"@), files[i].1@, true))
}

/// The two entries of a package, stored as they are: the encrypted content,
/// then the metadata document.
pub open spec fn outer_entries(detection_xml: Seq<char>, encrypted: Seq<u8>) -> Seq<ZipEntry> {
    seq![
        (content_entry_name(), encrypted, false),
        (metadata_entry_name(), encode_utf8(detection_xml), false),
    ]
}

/// A failure to write a ZIP archive.
fn zip_error(why: String) -> (e: PackageError)
    ensures
        e == (PackageError::ZipError { reason: why }),
{
    PackageError::ZipError { reason: why }
}

/// Whether `result` is what writing the entries to an archive gives: the
/// bytes of the archive, or the writer's first failure as a ZIP error.
pub open spec fn is_zip_result(result: PackageResult<Vec<u8>>, entries: Seq<ZipEntry>) -> bool {
    match zip_outcome(entries) {
        Ok(bytes) => result matches Ok(data) && data@ == bytes,
        Err(why) => result matches Err(PackageError::ZipError { reason }) && reason@ == why,
    }
}

/// Create the inner archive: the content that gets encrypted.
///
/// Fails only where the writer does, with its failure as a ZIP error.
pub fn create_inner_zip(files: &[(String, Vec<u8>)]) -> (result: PackageResult<Vec<u8>>)
    ensures
        is_zip_result(result, inner_entries(files@)),
{
    let mut zip = zip_new();
    let ghost wanted = inner_entries(files@);
    let mut i: usize = 0;
    assert(zip_written(zip) =~= wanted.subrange(0, 0));
    while i < files.len()
        invariant
            i <= files.len(),
            wanted == inner_entries(files@),
            zip_written(zip) == wanted.subrange(0, i as int),
            zip_refusal(wanted, i as int) is None,
        decreases files.len() - i,
    {
        let file = &files[i];
        let zip_path = normalize_path(file.0.as_str());
        let ghost before = zip_written(zip);
        match zip_start_deflated(&mut zip, zip_path.as_str()) {
            Ok(()) => {},
            Err(why) => {
                proof {
                    assert(entry_refusal(wanted, i as int) == Some(why@));
                    lemma_refusal_stays(wanted, i + 1, wanted.len() as int);
                }
                return Err(zip_error(why));
            },
        }
        match zip_write(&mut zip, file.1.as_slice()) {
            Ok(()) => {},
            Err(why) => {
                proof {
                    assert(entry_refusal(wanted, i as int) == Some(why@));
                    lemma_refusal_stays(wanted, i + 1, wanted.len() as int);
                }
                return Err(zip_error(why));
            },
        }
        proof {
            assert(Seq::<u8>::empty() + file.1@ =~= file.1@);
            assert(zip_written(zip) =~= before.push(wanted[i as int]));
            assert(wanted.subrange(0, i + 1) =~= wanted.subrange(0, i as int).push(
                wanted[i as int],
            ));
            assert(entry_refusal(wanted, i as int) is None);
        }
        i += 1;
    }
    assert(wanted.subrange(0, files@.len() as int) =~= wanted);
    match zip_finish(zip) {
        Ok(bytes) => Ok(bytes),
        Err(why) => Err(zip_error(why)),
    }
}

/// Create the outer archive: the final `.intunewin` file. The encrypted
/// content comes first, the metadata document second.
///
/// Fails only where the writer does, with its failure as a ZIP error.
pub fn create_outer_zip(detection_xml: &str, encrypted_content: &[u8]) -> (result: PackageResult<
    Vec<u8>,
>)
    ensures
        is_zip_result(result, outer_entries(detection_xml@, encrypted_content@)),
{
    reveal_with_fuel(zip_refusal, 3);
    let ghost wanted = outer_entries(detection_xml@, encrypted_content@);
    let mut zip = zip_new();
    assert(zip_written(zip) =~= wanted.subrange(0, 0));
    match zip_start_stored(&mut zip, "IntuneWinPackage/Contents/IntunePackage.intunewin") {
        Ok(()) => {},
        Err(why) => {
            proof {
                assert(entry_refusal(wanted, 0) == Some(why@));
                lemma_refusal_stays(wanted, 1, 2);
            }
            return Err(zip_error(why));
        },
    }
    match zip_write(&mut zip, encrypted_content) {
        Ok(()) => {},
        Err(why) => {
            proof {
                assert(entry_refusal(wanted, 0) == Some(why@));
                lemma_refusal_stays(wanted, 1, 2);
            }
            return Err(zip_error(why));
        },
    }
    proof {
        assert(Seq::<u8>::empty() + encrypted_content@ =~= encrypted_content@);
        assert(zip_written(zip) =~= wanted.subrange(0, 1));
        assert(entry_refusal(wanted, 0) is None);
        assert(zip_refusal(wanted, 1) is None);
    }
    match zip_start_stored(&mut zip, "IntuneWinPackage/Metadata/Detection.xml") {
        Ok(()) => {},
        Err(why) => {
            proof {
                assert(entry_refusal(wanted, 1) == Some(why@));
            }
            return Err(zip_error(why));
        },
    }
    match zip_write(&mut zip, detection_xml.as_bytes()) {
        Ok(()) => {},
        Err(why) => {
            proof {
                assert(entry_refusal(wanted, 1) == Some(why@));
            }
            return Err(zip_error(why));
        },
    }
    proof {
        assert(Seq::<u8>::empty() + encode_utf8(detection_xml@) =~= encode_utf8(detection_xml@));
        assert(zip_written(zip) =~= wanted);
        assert(entry_refusal(wanted, 1) is None);
    }
    match zip_finish(zip) {
        Ok(bytes) => Ok(bytes),
        Err(why) => Err(zip_error(why)),
    }
}

/// Whether `data` and `metadata` are a package of the files for a setup
/// file: the writer makes an inner archive of the files; the metadata names
/// the setup file and the encrypted file, and gives the size of the inner
/// archive; the content is that archive, sealed under the secrets of the
/// metadata; and `data` is the archive that the writer makes of the sealed
/// content and the metadata document.
pub open spec fn is_package_of(
    data: Seq<u8>,
    metadata: DetectionView,
    setup_file: Seq<char>,
    files: Seq<(String, Vec<u8>)>,
) -> bool {
    let inner = zip_of(inner_entries(files));
    &&& zip_outcome(inner_entries(files)) is Ok
    &&& metadata.name == setup_file
    &&& metadata.setup_file == setup_file
    &&& metadata.file_name == package_file_name()
    &&& metadata.unencrypted_content_size == inner.len()
    &&& exists|framed: Seq<u8>| #[trigger]
        sealed(inner, framed, metadata.encryption_info) && zip_outcome(
            outer_entries(detection_xml(metadata), framed),
        ) == archived(data)
}

/// The metadata of a package with the inner archive `inner`, for a setup
/// file and with the encryption info given.
pub open spec fn metadata_for(
    setup_file: Seq<char>,
    inner: Seq<u8>,
    info: EncryptionInfoView,
) -> DetectionView {
    DetectionView {
        name: setup_file,
        unencrypted_content_size: inner.len() as u64,
        file_name: package_file_name(),
        setup_file,
        encryption_info: info,
    }
}

/// Whether `result` is what putting the sealed content `framed` and the
/// metadata document into the outer archive gives: the package with its
/// metadata, or the writer's failure as a ZIP error.
pub open spec fn is_sealed_result(
    result: PackageResult<BuiltIntune>,
    metadata: DetectionView,
    framed: Seq<u8>,
) -> bool {
    match zip_outcome(outer_entries(detection_xml(metadata), framed)) {
        Ok(data) => result matches Ok(built) && built.data@ == data && built.metadata@ == metadata,
        Err(why) => result matches Err(PackageError::ZipError { reason }) && reason@ == why,
    }
}

/// Whether `result` is what building a package of the files for a setup file
/// gives. Where the writer fails on the inner archive, its failure as a ZIP
/// error; where the random source of the system fails, the failure to draw
/// secrets; where the inner archive is too long to be padded, an encryption
/// error; else, for the inner archive sealed under some secrets, what
/// putting the sealed content and the metadata into the outer archive
/// gives.
pub open spec fn is_content_result(
    result: PackageResult<BuiltIntune>,
    setup_file: Seq<char>,
    files: Seq<(String, Vec<u8>)>,
) -> bool {
    match zip_outcome(inner_entries(files)) {
        Err(why) => result matches Err(PackageError::ZipError { reason }) && reason@ == why,
        Ok(inner) => (result matches Err(e) && is_draw_failure(e)) || if inner.len() + 16
            > usize::MAX {
            result matches Err(e) && is_too_long(e)
        } else {
            exists|framed: Seq<u8>, info: EncryptionInfoView|
                sealed(inner, framed, info) && #[trigger] is_sealed_result(
                    result,
                    metadata_for(setup_file, inner, info),
                    framed,
                )
        },
    }
}

/// Build a package of the files for a setup file: the inner archive,
/// encrypted under fresh secrets, next to the metadata document.
///
/// The call fails only where the writer of an archive fails, where the
/// random source of the system fails, and on an inner archive too long to
/// be padded. A package that comes back is a package of
/// the files.
pub fn package_content(setup_file: &str, files: &[(String, Vec<u8>)]) -> (result: PackageResult<
    BuiltIntune,
>)
    ensures
        is_content_result(result, setup_file@, files@),
        result matches Ok(built) ==> is_package_of(
            built.data@,
            built.metadata@,
            setup_file@,
            files@,
        ),
{
    let inner_zip = match create_inner_zip(files) {
        Ok(bytes) => bytes,
        Err(e) => {
            return Err(e);
        },
    };
    let unencrypted_size: u64 = inner_zip.len() as u64;
    let (encrypted_content, encryption_info) = match encrypt_content(inner_zip.as_slice()) {
        Ok(pair) => pair,
        Err(e) => {
            return Err(e);
        },
    };
    let mut metadata = DetectionMetadata::new(String::from_str(setup_file), unencrypted_size);
    metadata.encryption_info = encryption_info;
    let detection_xml = match generate_detection_xml(&metadata) {
        Ok(xml) => xml,
        Err(e) => {
            return Err(e);
        },
    };
    proof {
        assert(sealed(inner_zip@, encrypted_content@, metadata@.encryption_info));
        assert(metadata@ == metadata_for(setup_file@, inner_zip@, metadata@.encryption_info));
    }
    let result = match create_outer_zip(detection_xml.as_str(), encrypted_content.as_slice()) {
        Ok(data) => Ok(BuiltIntune { data, metadata }),
        Err(e) => Err(e),
    };
    assert(is_sealed_result(
        result,
        metadata_for(setup_file@, inner_zip@, metadata@.encryption_info),
        encrypted_content@,
    ));
    result
}

/// The content of the first of the files at or after `from` under `path`;
/// empty where there is none.
pub open spec fn content_of(files: Seq<SourceContent>, path: Seq<char>, from: int) -> Seq<u8>
    decreases files.len() - from,
{
    if from < 0 || from >= files.len() {
        Seq::empty()
    } else if files[from].relative_path@ == path {
        files[from].data@
    } else {
        content_of(files, path, from + 1)
    }
}

/// The content of the file under `path`.
fn find_content(files: &[SourceContent], path: &String) -> (content: Vec<u8>)
    ensures
        content@ == content_of(files@, path@, 0),
{
    let mut i: usize = 0;
    while i < files.len()
        invariant
            i <= files.len(),
            content_of(files@, path@, 0) == content_of(files@, path@, i as int),
        decreases files.len() - i,
    {
        if files[i].relative_path == *path {
            return copy_bytes(files[i].data.as_slice());
        }
        i += 1;
    }
    Vec::new()
}

/// The files as they were found: path and size.
pub open spec fn found_files(files: Seq<SourceContent>) -> Seq<FoundFile> {
    Seq::new(
        files.len(),
        |i: int|
            FoundFile { relative_path: files[i].relative_path, size: files[i].data@.len() as u64 },
    )
}

/// Whether `arranged` are the files of `order`, each with its content.
pub open spec fn is_arranged(
    arranged: Seq<(String, Vec<u8>)>,
    order: Seq<SourceFile>,
    files: Seq<SourceContent>,
) -> bool {
    &&& arranged.len() == order.len()
    &&& forall|i: int|
        0 <= i < arranged.len() ==> (#[trigger] arranged[i]).0@ == order[i].relative_path@
            && arranged[i].1@ == content_of(files, order[i].relative_path@, 0)
}

/// Whether `data` and `metadata` are a package for the request: a package of
/// the files, in the order of their paths.
pub open spec fn is_package_for(
    data: Seq<u8>,
    metadata: DetectionView,
    request: PackageRequest,
    files: Seq<SourceContent>,
) -> bool {
    exists|order: Seq<SourceFile>, arranged: Seq<(String, Vec<u8>)>|
        {
            &&& is_sorted(order)
            &&& order.to_multiset() == as_source_files(
                found_files(files),
                request.setup_file@,
            ).to_multiset()
            &&& #[trigger] is_arranged(arranged, order, files)
            &&& is_package_of(data, metadata, request.setup_file@, arranged)
        }
}

/// Whether `result` is what building the package for the request gives: what
/// building a package of the files gives, in the order of their paths.
pub open spec fn is_result_for(
    result: PackageResult<BuiltIntune>,
    request: PackageRequest,
    files: Seq<SourceContent>,
) -> bool {
    exists|order: Seq<SourceFile>, arranged: Seq<(String, Vec<u8>)>|
        {
            &&& is_sorted(order)
            &&& order.to_multiset() == as_source_files(
                found_files(files),
                request.setup_file@,
            ).to_multiset()
            &&& #[trigger] is_arranged(arranged, order, files)
            &&& is_content_result(result, request.setup_file@, arranged)
        }
}

/// Whether the source folder and the setup file of a request were found.
pub open spec fn is_valid_source(source_folder: PathFacts, setup_path: PathFacts) -> bool {
    source_folder.exists && source_folder.is_dir && setup_path.exists
}

/// Whether the sizes of the files add up in 64 bits.
pub open spec fn sizes_fit(files: Seq<SourceContent>) -> bool {
    sizes_sum(found_files(files), files.len() as int) <= u64::MAX
}

/// Whether the setup file of a request is among the files, at the root.
pub open spec fn has_setup_file(request: PackageRequest, files: Seq<SourceContent>) -> bool {
    setup_found(found_files(files), request.setup_file@, files.len() as int)
}

/// Whether an output file is in the way: it exists, and the request gives no
/// leave to overwrite it, as quiet and silent mode do.
pub open spec fn output_in_the_way(request: PackageRequest, output_exists: bool) -> bool {
    output_exists && request.verbosity == Verbosity::Normal
}

/// The digest that the metadata of a package carries, and that its document
/// gives as `FileDigest`, is the SHA-256 of the inner archive before
/// encryption.
pub proof fn lemma_package_carries_digest(
    data: Seq<u8>,
    metadata: DetectionView,
    setup_file: Seq<char>,
    files: Seq<(String, Vec<u8>)>,
)
    requires
        is_package_of(data, metadata, setup_file, files),
    ensures
        metadata.encryption_info.file_digest == sha256_of(zip_of(inner_entries(files))),
{
}

/// Create an IntuneWin package for a request, from the files found under its
/// source folder, and from what was found on disk at the source folder, at
/// the setup file and at the output path.
///
/// The request is validated first, and a folder without files is refused;
/// then the files are put in the order of their paths; an output file that
/// exists is overwritten only in quiet or silent mode; then the package is
/// built, and the call fails only where building it does.
pub fn package(
    request: &PackageRequest,
    source_folder: PathFacts,
    setup_path: PathFacts,
    output_exists: bool,
    files: &[SourceContent],
) -> (result: PackageResult<BuiltIntune>)
    ensures
        !source_folder.exists || !source_folder.is_dir ==> (result matches Err(
            PackageError::SourceFolderNotFound { path },
        ) && path@ == request.source_folder@),
        source_folder.exists && source_folder.is_dir && !setup_path.exists ==> (result matches Err(
            PackageError::SetupFileNotFound { file, folder },
        ) && file@ == request.setup_file@ && folder@ == request.source_folder@),
        is_valid_source(source_folder, setup_path) && files@.len() == 0 ==> (result matches Err(
            PackageError::SourceFolderEmpty { path },
        ) && path@ == request.source_folder@),
        is_valid_source(source_folder, setup_path) && files@.len() > 0 && !sizes_fit(files@)
            ==> result matches Err(PackageError::SourceReadError { .. }),
        is_valid_source(source_folder, setup_path) && sizes_fit(files@) && !has_setup_file(
            *request,
            files@,
        ) && files@.len() > 0 ==> (result matches Err(
            PackageError::SetupFileNotFound { file, folder },
        ) && file@ == request.setup_file@ && folder@ == request.source_folder@),
        is_valid_source(source_folder, setup_path) && sizes_fit(files@) && has_setup_file(
            *request,
            files@,
        ) && output_in_the_way(*request, output_exists) ==> (result matches Err(
            PackageError::OutputFileExists { path },
        ) && path@ == output_path_of(*request)),
        is_valid_source(source_folder, setup_path) && sizes_fit(files@) && has_setup_file(
            *request,
            files@,
        ) && !output_in_the_way(*request, output_exists) ==> is_result_for(result, *request, files@),
        result matches Ok(built) ==> is_package_for(built.data@, built.metadata@, *request, files@),
{
    match request.validate(source_folder, setup_path) {
        Ok(()) => {},
        Err(e) => {
            return Err(e);
        },
    }
    if files.len() == 0 {
        return Err(PackageError::SourceFolderEmpty { path: request.source_folder.clone() });
    }
    let mut found: Vec<FoundFile> = Vec::new();
    let mut i: usize = 0;
    while i < files.len()
        invariant
            i <= files.len(),
            found@.len() == i,
            forall|j: int| 0 <= j < i ==> #[trigger] found@[j] == found_files(files@)[j],
        decreases files.len() - i,
    {
        found.push(
            FoundFile {
                relative_path: files[i].relative_path.clone(),
                size: files[i].data.len() as u64,
            },
        );
        i += 1;
    }
    assert(found@ =~= found_files(files@));
    let source_package = match collect_source_files(
        request.source_folder.as_str(),
        source_folder.exists,
        request.setup_file.as_str(),
        found.as_slice(),
    ) {
        Ok(package) => package,
        Err(e) => {
            return Err(e);
        },
    };
    if output_exists && !request.verbosity.suppress_prompts() {
        return Err(PackageError::OutputFileExists { path: request.output_path() });
    }
    let mut arranged: Vec<(String, Vec<u8>)> = Vec::new();
    let mut k: usize = 0;
    while k < source_package.files.len()
        invariant
            k <= source_package.files.len(),
            arranged@.len() == k,
            forall|j: int|
                0 <= j < k ==> (#[trigger] arranged@[j]).0@ == source_package.files@[j].relative_path@
                    && arranged@[j].1@ == content_of(
                    files@,
                    source_package.files@[j].relative_path@,
                    0,
                ),
        decreases source_package.files.len() - k,
    {
        let path = source_package.files[k].relative_path.clone();
        let content = find_content(files, &path);
        arranged.push((path, content));
        k += 1;
    }
    let result = package_content(request.setup_file.as_str(), arranged.as_slice());
    assert(is_arranged(arranged@, source_package.files@, files@));
    result
}

// ---------------------------------------------------------------------------
// Taking a package apart
// ---------------------------------------------------------------------------

/// Whether `e` is the failure of the input at `input_path`, which is no
/// valid package for the reason given.
pub open spec fn is_invalid_package(e: PackageError, input_path: Seq<char>, why: Seq<char>) -> bool {
    e matches PackageError::InvalidIntunewinFile { path, reason } && path@ == input_path && reason@
        == why
}

/// What is wrong with a package whose entry could not be had: `missing` or
/// `unreadable`, followed by the reason of the failure.
pub open spec fn entry_failure(
    missing: Seq<char>,
    unreadable: Seq<char>,
    failure: zip_io::ZipReadFailureView,
) -> Seq<char> {
    match failure {
        zip_io::ZipReadFailureView::Missing(why) => missing + why,
        zip_io::ZipReadFailureView::Unreadable(why) => unreadable + why,
    }
}

/// The failure of an input that is no valid package.
fn invalid_package(input_path: &str, what: &str, why: &str) -> (e: PackageError)
    ensures
        e matches PackageError::InvalidIntunewinFile { path, reason } && path@ == input_path@
            && reason@ == what@ + why@,
{
    let mut reason = String::from_str(what);
    reason.append(why);
    PackageError::InvalidIntunewinFile { path: String::from_str(input_path), reason }
}

/// The metadata for what was read of the metadata entry of a package: the
/// parsed document; or, for an entry that is missing or unreadable, the
/// failure of an invalid package.
pub fn metadata_from_entry(input_path: &str, entry: Result<String, ZipReadFailure>) -> (result:
    PackageResult<DetectionMetadata>)
    ensures
        match entry {
            Ok(xml) => reads_as(result, metadata_of(xml_tokens(xml@))),
            Err(ZipReadFailure::Missing(why)) => result matches Err(
                PackageError::InvalidIntunewinFile { path, reason },
            ) && path@ == input_path@ && reason@ == "Missing Detection.xml: "@ + why@,
            Err(ZipReadFailure::Unreadable(why)) => result matches Err(
                PackageError::InvalidIntunewinFile { path, reason },
            ) && path@ == input_path@ && reason@ == "Failed to read Detection.xml: "@ + why@,
        },
{
    match entry {
        Ok(xml) => parse_detection_xml(xml.as_str()),
        Err(ZipReadFailure::Missing(why)) => Err(
            invalid_package(input_path, "Missing Detection.xml: ", why.as_str()),
        ),
        Err(ZipReadFailure::Unreadable(why)) => Err(
            invalid_package(input_path, "Failed to read Detection.xml: ", why.as_str()),
        ),
    }
}

/// The encrypted content for what was read of the content entry of a
/// package: the content; or, for an entry that is missing or unreadable, the
/// failure of an invalid package.
pub fn content_from_entry(input_path: &str, entry: Result<Vec<u8>, ZipReadFailure>) -> (result:
    PackageResult<Vec<u8>>)
    ensures
        match entry {
            Ok(content) => result == Ok::<Vec<u8>, PackageError>(content),
            Err(ZipReadFailure::Missing(why)) => result matches Err(
                PackageError::InvalidIntunewinFile { path, reason },
            ) && path@ == input_path@ && reason@ == "Missing encrypted content: "@ + why@,
            Err(ZipReadFailure::Unreadable(why)) => result matches Err(
                PackageError::InvalidIntunewinFile { path, reason },
            ) && path@ == input_path@ && reason@ == "Failed to read encrypted content: "@ + why@,
        },
{
    match entry {
        Ok(content) => Ok(content),
        Err(ZipReadFailure::Missing(why)) => Err(
            invalid_package(input_path, "Missing encrypted content: ", why.as_str()),
        ),
        Err(ZipReadFailure::Unreadable(why)) => Err(
            invalid_package(input_path, "Failed to read encrypted content: ", why.as_str()),
        ),
    }
}

/// Read and parse the metadata document of a package.
fn extract_detection_metadata(archive: &mut MemoryZipArchive, input_path: &str) -> (result:
    PackageResult<DetectionMetadata>)
    ensures
        archive_source(*final(archive)) == archive_source(*old(archive)),
        match zip_text(archive_source(*old(archive)), metadata_entry_name()) {
            Ok(xml) => reads_as(result, metadata_of(xml_tokens(xml))),
            Err(failure) => result matches Err(e) && is_invalid_package(
                e,
                input_path@,
                entry_failure("Missing Detection.xml: "@, "Failed to read Detection.xml: "@, failure),
            ),
        },
{
    let entry = zip_text_named(archive, "IntuneWinPackage/Metadata/Detection.xml");
    metadata_from_entry(input_path, entry)
}

/// Read the encrypted content of a package.
fn extract_encrypted_content(archive: &mut MemoryZipArchive, input_path: &str) -> (result:
    PackageResult<Vec<u8>>)
    ensures
        archive_source(*final(archive)) == archive_source(*old(archive)),
        match zip_named(archive_source(*old(archive)), content_entry_name()) {
            Ok(content) => result matches Ok(bytes) && bytes@ == content,
            Err(failure) => result matches Err(e) && is_invalid_package(
                e,
                input_path@,
                entry_failure(
                    "Missing encrypted content: "@,
                    "Failed to read encrypted content: "@,
                    failure,
                ),
            ),
        },
{
    let entry = zip_entry_named(archive, "IntuneWinPackage/Contents/IntunePackage.intunewin");
    content_from_entry(input_path, entry)
}

/// Whether an entry of the inner archive stands for a directory: its name
/// ends with `/`.
pub open spec fn names_directory(name: Seq<char>) -> bool {
    name.len() > 0 && name.last() == '/'
}

/// Whether an entry of the inner archive stands for a directory.
pub fn is_directory_name(name: &str) -> (directory: bool)
    ensures
        directory == names_directory(name@),
{
    let chars = chars_of(name);
    chars.len() > 0 && chars[chars.len() - 1] == '/'
}

/// The sizes of the first `k` files, added up.
pub open spec fn extracted_size(files: Seq<(String, Vec<u8>)>, k: int) -> int
    decreases k,
{
    if k <= 0 {
        0
    } else {
        extracted_size(files, k - 1) + files[k - 1].1@.len()
    }
}

/// A file as what it holds: its name and its content.
pub open spec fn file_view(file: (String, Vec<u8>)) -> (Seq<char>, Seq<u8>) {
    (file.0@, file.1@)
}

/// The files as what they hold.
pub open spec fn file_views(files: Seq<(String, Vec<u8>)>) -> Seq<(Seq<char>, Seq<u8>)> {
    Seq::new(files.len(), |i: int| file_view(files[i]))
}

/// The files among the first `k` entries of an archive: the entries in
/// order, those that stand for directories left out.
pub open spec fn kept_files(entries: Seq<(Seq<char>, Seq<u8>)>, k: int) -> Seq<
    (Seq<char>, Seq<u8>),
>
    decreases k,
{
    if k <= 0 {
        Seq::empty()
    } else if names_directory(entries[k - 1].0) {
        kept_files(entries, k - 1)
    } else {
        kept_files(entries, k - 1).push(entries[k - 1])
    }
}

/// The sizes of the files among the first `k` entries, added up.
pub open spec fn kept_size(entries: Seq<(Seq<char>, Seq<u8>)>, k: int) -> int
    decreases k,
{
    if k <= 0 {
        0
    } else if names_directory(entries[k - 1].0) {
        kept_size(entries, k - 1)
    } else {
        kept_size(entries, k - 1) + entries[k - 1].1.len()
    }
}

/// The files of an archive, where their sizes add up in 64 bits.
pub open spec fn files_kept(entries: Seq<(Seq<char>, Seq<u8>)>) -> Option<
    Seq<(Seq<char>, Seq<u8>)>,
> {
    if kept_size(entries, entries.len() as int) <= u64::MAX {
        Some(kept_files(entries, entries.len() as int))
    } else {
        None
    }
}

proof fn lemma_kept_size_grows(entries: Seq<(Seq<char>, Seq<u8>)>, j: int, k: int)
    requires
        0 <= j <= k,
    ensures
        kept_size(entries, j) <= kept_size(entries, k),
    decreases k - j,
{
    if j < k {
        lemma_kept_size_grows(entries, j, k - 1);
    }
}

/// The sum of the first sizes depends on the first files only.
proof fn lemma_extracted_size_same(a: Seq<(String, Vec<u8>)>, b: Seq<(String, Vec<u8>)>, k: int)
    requires
        0 <= k <= a.len(),
        k <= b.len(),
        forall|i: int| 0 <= i < k ==> a[i] == b[i],
    ensures
        extracted_size(a, k) == extracted_size(b, k),
    decreases k,
{
    if k > 0 {
        lemma_extracted_size_same(a, b, k - 1);
    }
}

/// The files of the entries of an archive: the entries that stand for
/// directories are passed over, and the sizes of the others are added up.
///
/// Fails only where the sizes do not add up in 64 bits.
pub fn files_of_entries(entries: &[(String, Vec<u8>)]) -> (result: PackageResult<
    (Vec<(String, Vec<u8>)>, u64),
>)
    ensures
        match files_kept(file_views(entries@)) {
            Some(kept) => result matches Ok((files, total_size)) && {
                &&& file_views(files@) == kept
                &&& total_size == kept_size(file_views(entries@), entries@.len() as int)
                &&& total_size == extracted_size(files@, files@.len() as int)
            },
            None => result matches Err(PackageError::ZipError { reason }) && reason@
                == "Total size does not fit 64 bits"@,
        },
{
    let ghost views = file_views(entries@);
    let mut files: Vec<(String, Vec<u8>)> = Vec::new();
    let mut total_size: u64 = 0;
    let mut i: usize = 0;
    assert(file_views(files@) =~= kept_files(views, 0));
    while i < entries.len()
        invariant
            i <= entries.len(),
            views == file_views(entries@),
            file_views(files@) == kept_files(views, i as int),
            total_size == kept_size(views, i as int),
            total_size == extracted_size(files@, files@.len() as int),
        decreases entries.len() - i,
    {
        let entry = &entries[i];
        assert(views[i as int] == file_view(entries@[i as int]));
        if !is_directory_name(entry.0.as_str()) {
            if entry.1.len() as u64 > u64::MAX - total_size {
                proof {
                    lemma_kept_size_grows(views, i + 1, views.len() as int);
                }
                return Err(
                    PackageError::ZipError {
                        reason: String::from_str("Total size does not fit 64 bits"),
                    },
                );
            }
            total_size = total_size + entry.1.len() as u64;
            let ghost before = files@;
            let ghost kept = file_views(files@);
            files.push((entry.0.clone(), copy_bytes(entry.1.as_slice())));
            proof {
                lemma_extracted_size_same(before, files@, before.len() as int);
                assert(file_views(files@) =~= kept.push(views[i as int]));
            }
        }
        i += 1;
    }
    Ok((files, total_size))
}

/// Why the files of an archive cannot be had.
pub enum ExtractFailure {
    /// The bytes are no archive, for the reason given.
    NotAnArchive(Seq<char>),
    /// An entry is missing or cannot be opened, for the reason given.
    EntryMissing(Seq<char>),
    /// The content of an entry cannot be read, for the reason given.
    EntryUnreadable(Seq<char>),
    /// The sizes of the files do not add up in 64 bits.
    TooLarge,
}

/// Why the first of the entries from `from` up to `count` that cannot be
/// read cannot be read; `None` where all of them can.
pub open spec fn first_failure(bytes: Seq<u8>, from: nat, count: nat) -> Option<
    zip_io::ZipReadFailureView,
>
    decreases count - from,
{
    if from >= count {
        None
    } else {
        match zip_entry(bytes, from) {
            Err(failure) => Some(failure),
            Ok(_) => first_failure(bytes, from + 1, count),
        }
    }
}

/// The first `count` entries of an archive with their names and contents.
pub open spec fn listed_entries(bytes: Seq<u8>, count: nat) -> Seq<(Seq<char>, Seq<u8>)> {
    Seq::new(count, |i: int| zip_entry(bytes, i as nat)->Ok_0)
}

/// What taking the files out of an archive gives: its entries in order,
/// without those that stand for directories. The first of these that
/// applies makes it fail: the bytes are no archive; an entry cannot be read
/// (the first such entry decides); the sizes do not add up in 64 bits.
pub open spec fn extraction(bytes: Seq<u8>) -> Result<Seq<(Seq<char>, Seq<u8>)>, ExtractFailure> {
    match zip_listing(bytes) {
        Err(why) => Err(ExtractFailure::NotAnArchive(why)),
        Ok(count) => match first_failure(bytes, 0, count) {
            Some(zip_io::ZipReadFailureView::Missing(why)) => Err(ExtractFailure::EntryMissing(why)),
            Some(zip_io::ZipReadFailureView::Unreadable(why)) => Err(
                ExtractFailure::EntryUnreadable(why),
            ),
            None => match files_kept(listed_entries(bytes, count)) {
                Some(kept) => Ok(kept),
                None => Err(ExtractFailure::TooLarge),
            },
        },
    }
}

/// The error that reports why the files of an archive cannot be had.
pub open spec fn reports_extraction(e: PackageError, failure: ExtractFailure) -> bool {
    match failure {
        ExtractFailure::NotAnArchive(why) => e matches PackageError::DecryptionError { reason }
            && reason@ == "Decrypted content is not a valid ZIP: "@ + why,
        ExtractFailure::EntryMissing(why) => e matches PackageError::ZipError { reason } && reason@
            == "Failed to read file from archive: "@ + why,
        ExtractFailure::EntryUnreadable(why) => e matches PackageError::OutputWriteError {
            path,
            reason,
        } && path@ == Seq::<char>::empty() && reason@ == why,
        ExtractFailure::TooLarge => e matches PackageError::ZipError { reason } && reason@
            == "Total size does not fit 64 bits"@,
    }
}

/// Take the files out of the decrypted content, which is a ZIP archive.
/// Entries that stand for directories are passed over.
///
/// The call fails where the content is no archive, with a decryption error;
/// where an entry is missing, with a ZIP error; where the content of an
/// entry cannot be read, with an output error; and where the sizes do not
/// add up in 64 bits, with a ZIP error.
pub fn extract_inner_zip(decrypted_content: Vec<u8>) -> (result: PackageResult<
    (Vec<(String, Vec<u8>)>, u64),
>)
    ensures
        match extraction(decrypted_content@) {
            Ok(kept) => result matches Ok((files, total_size)) && file_views(files@) == kept
                && total_size == extracted_size(files@, files@.len() as int),
            Err(failure) => result matches Err(e) && reports_extraction(e, failure),
        },
{
    let ghost source = decrypted_content@;
    let mut archive = match zip_open(decrypted_content) {
        Ok(archive) => archive,
        Err(why) => {
            let mut reason = String::from_str("Decrypted content is not a valid ZIP: ");
            reason.append(why.as_str());
            return Err(PackageError::DecryptionError { reason });
        },
    };
    let count: usize = zip_len(&archive);
    let mut entries: Vec<(String, Vec<u8>)> = Vec::new();
    let mut i: usize = 0;
    while i < count
        invariant
            i <= count,
            source == decrypted_content@,
            archive_source(archive) == source,
            zip_listing(source) == Ok::<nat, Seq<char>>(count as nat),
            entries@.len() == i,
            first_failure(source, 0, count as nat) == first_failure(source, i as nat, count as nat),
            forall|j: nat|
                j < i ==> (#[trigger] zip_entry(source, j)) == Ok::<
                    (Seq<char>, Seq<u8>),
                    zip_io::ZipReadFailureView,
                >(file_view(entries@[j as int])),
        decreases count - i,
    {
        match zip_entry_at(&mut archive, i) {
            Ok(entry) => {
                entries.push(entry);
            },
            Err(ZipReadFailure::Missing(why)) => {
                let mut reason = String::from_str("Failed to read file from archive: ");
                reason.append(why.as_str());
                return Err(PackageError::ZipError { reason });
            },
            Err(ZipReadFailure::Unreadable(why)) => {
                return Err(PackageError::OutputWriteError { path: String::new(), reason: why });
            },
        }
        i += 1;
    }
    assert(file_views(entries@) =~= listed_entries(source, count as nat));
    files_of_entries(entries.as_slice())
}

/// Whether `result` is what taking apart the package `bytes`, found at
/// `input_path`, gives. The first of these that applies makes it fail, the
/// first three as an invalid package: the bytes are no archive; the metadata
/// document is missing or cannot be read; the document does not read as
/// metadata (an XML error); the encrypted content is missing or cannot be
/// read; the content does not decrypt under the secrets of the metadata;
/// the files of the decrypted content cannot be had. Else the files come
/// back, with the name of the setup file and their sizes added up.
pub open spec fn is_unpacking_of(
    result: PackageResult<Extracted>,
    input_path: Seq<char>,
    bytes: Seq<u8>,
) -> bool {
    match zip_listing(bytes) {
        Err(why) => result matches Err(e) && is_invalid_package(
            e,
            input_path,
            "Invalid ZIP archive: "@ + why,
        ),
        Ok(_) => match zip_text(bytes, metadata_entry_name()) {
            Err(failure) => result matches Err(e) && is_invalid_package(
                e,
                input_path,
                entry_failure("Missing Detection.xml: "@, "Failed to read Detection.xml: "@, failure),
            ),
            Ok(xml) => match metadata_of(xml_tokens(xml)) {
                Err(message) => result matches Err(PackageError::XmlError { reason }) && reason@
                    == message,
                Ok(metadata) => match zip_named(bytes, content_entry_name()) {
                    Err(failure) => result matches Err(e) && is_invalid_package(
                        e,
                        input_path,
                        entry_failure(
                            "Missing encrypted content: "@,
                            "Failed to read encrypted content: "@,
                            failure,
                        ),
                    ),
                    Ok(content) => match decrypt_outcome(content, metadata.encryption_info) {
                        Err(failure) => result matches Err(e) && reports(e, failure),
                        Ok(plaintext) => match extraction(plaintext) {
                            Err(failure) => result matches Err(e) && reports_extraction(e, failure),
                            Ok(files) => result matches Ok(extracted) && {
                                &&& file_views(extracted.files@) == files
                                &&& extracted.setup_file@ == metadata.setup_file
                                &&& extracted.total_size == extracted_size(
                                    extracted.files@,
                                    extracted.files@.len() as int,
                                )
                            },
                        },
                    },
                },
            },
        },
    }
}

/// Unpack an IntuneWin package: validate the request against what was found
/// on disk at the input file, read the metadata and the encrypted content
/// out of the archive, decrypt the content, and take the files out of it.
pub fn unpack(request: &UnpackRequest, input_file: PathFacts, archive: Vec<u8>) -> (result:
    PackageResult<Extracted>)
    ensures
        !input_file.exists ==> (result matches Err(e) && is_invalid_package(
            e,
            request.input_file@,
            "File does not exist"@,
        )),
        input_file.exists && !input_file.is_file ==> (result matches Err(e) && is_invalid_package(
            e,
            request.input_file@,
            "Path is not a file"@,
        )),
        input_file.exists && input_file.is_file ==> is_unpacking_of(
            result,
            request.input_file@,
            archive@,
        ),
{
    match request.validate(input_file) {
        Ok(()) => {},
        Err(e) => {
            return Err(e);
        },
    }
    let mut outer = match zip_open(archive) {
        Ok(outer) => outer,
        Err(why) => {
            return Err(
                invalid_package(request.input_file.as_str(), "Invalid ZIP archive: ", why.as_str()),
            );
        },
    };
    let metadata = match extract_detection_metadata(&mut outer, request.input_file.as_str()) {
        Ok(metadata) => metadata,
        Err(e) => {
            return Err(e);
        },
    };
    let encrypted_content = match extract_encrypted_content(
        &mut outer,
        request.input_file.as_str(),
    ) {
        Ok(content) => content,
        Err(e) => {
            return Err(e);
        },
    };
    let decrypted_content = match decrypt_content(
        encrypted_content.as_slice(),
        &metadata.encryption_info,
    ) {
        Ok(content) => content,
        Err(e) => {
            return Err(e);
        },
    };
    match extract_inner_zip(decrypted_content) {
        Ok((files, total_size)) => Ok(
            Extracted { files, total_size, setup_file: metadata.setup_file },
        ),
        Err(e) => Err(e),
    }
}

} // verus!
