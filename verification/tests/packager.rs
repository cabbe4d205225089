use std::io::{Cursor, Read};

use iamawrapper::macos::payload::SourceEntry;
use iamawrapper::macos::xar::XarBuilder;
use iamawrapper::macos::{package_stamped, ScriptsSource};
use iamawrapper::models::macos::MacosPkgRequest;
use iamawrapper::models::package::{PackageRequest, UnpackRequest, Verbosity};
use iamawrapper::packager::archive::{
    collect_source_files, comes_first, is_setup_file, key_of, normalize_path, sort_files,
    FoundFile,
};
use iamawrapper::packager::encrypt::decrypt_content;
use iamawrapper::packager::metadata::parse_detection_xml;
use iamawrapper::packager::{
    content_from_entry, create_inner_zip, create_outer_zip, extract_inner_zip, is_directory_name,
    metadata_from_entry, package, package_content, unpack, SourceContent,
};
use iamawrapper::packager::zip_io::ZipReadFailure;
use iamawrapper::paths::PathFacts;
use iamawrapper::models::package::SourceFile;
use iamawrapper::PackageError;

fn directory() -> PathFacts {
    PathFacts { exists: true, is_dir: true, is_file: false }
}

fn file() -> PathFacts {
    PathFacts { exists: true, is_dir: false, is_file: true }
}

fn nothing() -> PathFacts {
    PathFacts { exists: false, is_dir: false, is_file: false }
}

fn found(paths: &[(&str, u64)]) -> Vec<FoundFile> {
    paths
        .iter()
        .map(|(path, size)| FoundFile { relative_path: path.to_string(), size: *size })
        .collect()
}

#[test]
fn test_collect_source_files_basic() {
    let files = found(&[("setup.exe", 13), ("data.dll", 11)]);
    let package = collect_source_files("/source", true, "setup.exe", &files).unwrap();

    assert_eq!(package.file_count(), 2);
    assert!(package.files.iter().any(|f| f.is_setup_file));
    assert_eq!(package.total_size, 24);
    assert_eq!(package.root, "/source");
    assert_eq!(package.setup_file, "setup.exe");
    // In the order of the paths.
    assert_eq!(package.files[0].relative_path, "data.dll");
    assert!(!package.files[0].is_setup_file);
    assert_eq!(package.files[1].relative_path, "setup.exe");
    assert_eq!(package.files[1].size, 13);
}

#[test]
fn test_collect_source_files_with_subdirectory() {
    let files = found(&[("setup.exe", 0), ("data/config.xml", 0)]);
    let package = collect_source_files("/source", true, "setup.exe", &files).unwrap();
    assert_eq!(package.file_count(), 2);
}

#[test]
fn test_collect_source_files_hidden_files() {
    let files = found(&[("setup.exe", 0), (".hidden", 0)]);
    let package = collect_source_files("/source", true, "setup.exe", &files).unwrap();

    // Should include hidden file
    assert_eq!(package.file_count(), 2);
    assert!(package.files.iter().any(|f| f.relative_path.contains(".hidden")));
}

#[test]
fn test_collect_source_files_missing_setup() {
    let files = found(&[("other.exe", 0), ("sub/setup.exe", 0)]);
    let result = collect_source_files("/source", true, "setup.exe", &files);

    assert!(matches!(result, Err(PackageError::SetupFileNotFound { .. })));
}

#[test]
fn collect_source_files_failures() {
    let files = found(&[("setup.exe", 1)]);
    match collect_source_files("/source", false, "setup.exe", &files) {
        Err(PackageError::SourceFolderNotFound { path }) => assert_eq!(path, "/source"),
        _ => panic!("a missing folder is refused"),
    }
    let huge = found(&[("setup.exe", u64::MAX), ("a", 1)]);
    assert!(matches!(
        collect_source_files("/source", true, "setup.exe", &huge),
        Err(PackageError::SourceReadError { .. })
    ));
    assert!(matches!(
        collect_source_files("/source", true, "setup.exe", &[]),
        Err(PackageError::SetupFileNotFound { .. })
    ));
}

#[test]
fn files_are_sorted_by_their_paths_component_by_component() {
    let names = [
        "b", "a/b", "a-b/c", "a", "B", "", "ab", "a/a", "é", "a\u{0}", "a.txt", "a/b.txt", "a/b/c",
        "a/b-c", "a!/x", "z/y/x",
    ];
    let files: Vec<SourceFile> = names
        .iter()
        .enumerate()
        .map(|(i, name)| SourceFile {
            relative_path: name.to_string(),
            size: i as u64,
            is_setup_file: false,
        })
        .collect();
    let sorted: Vec<String> = sort_files(&files).into_iter().map(|f| f.relative_path).collect();
    let mut expected: Vec<String> = names.iter().map(|name| name.to_string()).collect();
    expected.sort_by_key(|name| std::path::PathBuf::from(name.as_str()));
    assert_eq!(sorted, expected);
    assert_eq!(sorted[0], "");
    let at = |name: &str| sorted.iter().position(|path| path == name).unwrap();
    assert!(at("a/b.txt") < at("a.txt"));
    assert!(at("a/b") < at("a-b/c"));
    assert_eq!(key_of("a/-.b"), vec![b'a', 0, b'-' + 1, b'.' + 1, b'b']);
    assert!(comes_first(b"a-b/c", b"a/b"));
    assert!(!comes_first(b"a/b", b"a-b/c"));
    assert!(comes_first(b"a", b"a"));
    assert!(comes_first(b"", b"a"));
    assert!(!comes_first(b"ab", b"a"));
}

#[test]
fn test_normalize_path() {
    assert_eq!(normalize_path("foo/bar"), "foo/bar");
    assert_eq!(normalize_path("foo\\bar"), "foo/bar");
    assert_eq!(normalize_path("foo\\bar\\baz"), "foo/bar/baz");
}

#[test]
fn test_is_setup_file() {
    assert!(is_setup_file("setup.exe", "setup.exe"));
    assert!(!is_setup_file("other.exe", "setup.exe"));
    assert!(!is_setup_file("subdir/setup.exe", "setup.exe"));
    assert!(!is_setup_file("subdir/setup.exe", "subdir/setup.exe"));
    assert!(!is_setup_file("Setup.exe", "setup.exe"));
    assert!(!is_setup_file("", ""));
}

fn unzip(bytes: &[u8]) -> Vec<(String, Vec<u8>, zip::CompressionMethod)> {
    let mut archive = zip::ZipArchive::new(Cursor::new(bytes.to_vec())).unwrap();
    let mut entries = Vec::new();
    for i in 0..archive.len() {
        let mut file = archive.by_index(i).unwrap();
        let mut content = Vec::new();
        file.read_to_end(&mut content).unwrap();
        entries.push((file.name().to_string(), content, file.compression()));
    }
    entries
}

#[test]
fn inner_zip_holds_the_files_deflated() {
    let files = vec![
        ("setup.exe".to_string(), b"hello".to_vec()),
        ("data\\config.xml".to_string(), vec![b'x'; 1000]),
    ];
    let bytes = create_inner_zip(&files).unwrap();
    let entries = unzip(&bytes);
    assert_eq!(entries.len(), 2);
    assert_eq!(entries[0].0, "setup.exe");
    assert_eq!(entries[0].1, b"hello");
    assert_eq!(entries[0].2, zip::CompressionMethod::Deflated);
    assert_eq!(entries[1].0, "data/config.xml");
    assert_eq!(entries[1].1, vec![b'x'; 1000]);
    assert!(bytes.len() < 500);
    assert_eq!(unzip(&create_inner_zip(&[]).unwrap()).len(), 0);
}

#[test]
fn outer_zip_holds_content_and_metadata_stored() {
    let bytes = create_outer_zip("<xml/>", b"encrypted").unwrap();
    let entries = unzip(&bytes);
    assert_eq!(entries.len(), 2);
    assert_eq!(entries[0].0, "IntuneWinPackage/Contents/IntunePackage.intunewin");
    assert_eq!(entries[0].1, b"encrypted");
    assert_eq!(entries[0].2, zip::CompressionMethod::Stored);
    assert_eq!(entries[1].0, "IntuneWinPackage/Metadata/Detection.xml");
    assert_eq!(entries[1].1, b"<xml/>");
    assert_eq!(entries[1].2, zip::CompressionMethod::Stored);
}

fn request() -> PackageRequest {
    PackageRequest::new("/source".to_string(), "setup.exe".to_string(), "/out".to_string())
}

fn sources(files: &[(&str, &[u8])]) -> Vec<SourceContent> {
    files
        .iter()
        .map(|(path, data)| SourceContent { relative_path: path.to_string(), data: data.to_vec() })
        .collect()
}

// A folder with `setup.exe` is packaged, and the package is taken apart
// again: out comes the one file with its content.
#[test]
fn intune_round_trip() {
    let files = sources(&[("setup.exe", b"hello")]);
    let built = package(&request(), directory(), file(), false, &files).unwrap();
    assert_eq!(built.metadata.name, "setup.exe");
    assert_eq!(built.metadata.setup_file, "setup.exe");
    assert_eq!(built.metadata.file_name, "IntunePackage.intunewin");

    let unpack_request = UnpackRequest::new("/out/setup.intunewin".to_string(), "/x".to_string());
    let extracted = unpack(&unpack_request, file(), built.data.clone()).unwrap();
    assert_eq!(extracted.files, vec![("setup.exe".to_string(), b"hello".to_vec())]);
    assert_eq!(extracted.total_size, 5);
    assert_eq!(extracted.setup_file, "setup.exe");
}

#[test]
fn package_layout() {
    let files = sources(&[("z.dll", b"zzz"), ("setup.exe", b"hello"), ("a/b.txt", b"")]);
    let built = package(&request(), directory(), file(), false, &files).unwrap();
    let outer = unzip(&built.data);
    assert_eq!(outer.len(), 2);
    assert_eq!(outer[0].0, "IntuneWinPackage/Contents/IntunePackage.intunewin");
    assert_eq!(outer[1].0, "IntuneWinPackage/Metadata/Detection.xml");

    // The metadata document is the one of the metadata, and it carries the
    // digest of the content before encryption.
    let xml = String::from_utf8(outer[1].1.clone()).unwrap();
    let parsed = parse_detection_xml(&xml).unwrap();
    assert_eq!(parsed.encryption_info.mac, built.metadata.encryption_info.mac);
    assert_eq!(parsed.encryption_info.file_digest, built.metadata.encryption_info.file_digest);

    let inner = decrypt_content(&outer[0].1, &parsed.encryption_info).unwrap();
    assert_eq!(parsed.unencrypted_content_size, inner.len() as u64);
    assert_eq!(
        parsed.encryption_info.file_digest,
        iamawrapper::packager::encrypt::compute_sha256(&inner)
    );
    let entries = unzip(&inner);
    let names: Vec<&str> = entries.iter().map(|e| e.0.as_str()).collect();
    assert_eq!(names, vec!["a/b.txt", "setup.exe", "z.dll"]);
    assert_eq!(entries[1].1, b"hello");
    assert_eq!(entries[2].1, b"zzz");
}

// The framed content of a package with its first byte flipped does not
// decrypt: the HMAC is found wrong.
#[test]
fn tampered_package_content_is_refused() {
    let files = sources(&[("setup.exe", b"hello")]);
    let built = package(&request(), directory(), file(), false, &files).unwrap();
    let outer = unzip(&built.data);
    let mut framed = outer[0].1.clone();
    framed[0] ^= 0xff;
    assert!(matches!(
        decrypt_content(&framed, &built.metadata.encryption_info),
        Err(PackageError::HmacVerificationFailed)
    ));
    let rebuilt = create_outer_zip(&String::from_utf8(outer[1].1.clone()).unwrap(), &framed).unwrap();
    let unpack_request = UnpackRequest::new("/in".to_string(), "/x".to_string());
    assert!(matches!(
        unpack(&unpack_request, file(), rebuilt),
        Err(PackageError::HmacVerificationFailed)
    ));
}

#[test]
fn package_refuses_what_cannot_be_packaged() {
    let files = sources(&[("setup.exe", b"hello")]);
    assert!(matches!(
        package(&request(), nothing(), file(), false, &files),
        Err(PackageError::SourceFolderNotFound { .. })
    ));
    assert!(matches!(
        package(&request(), file(), file(), false, &files),
        Err(PackageError::SourceFolderNotFound { .. })
    ));
    assert!(matches!(
        package(&request(), directory(), nothing(), false, &files),
        Err(PackageError::SetupFileNotFound { .. })
    ));
    match package(&request(), directory(), file(), false, &[]) {
        Err(PackageError::SourceFolderEmpty { path }) => assert_eq!(path, "/source"),
        _ => panic!("a folder without files is refused"),
    }
    // The setup file exists on disk but is not among the files.
    assert!(matches!(
        package(&request(), directory(), file(), false, &sources(&[("other", b"x")])),
        Err(PackageError::SetupFileNotFound { .. })
    ));
    // An output file that exists is overwritten in quiet mode only.
    match package(&request(), directory(), file(), true, &files) {
        Err(PackageError::OutputFileExists { path }) => assert_eq!(path, "/out/setup.intunewin"),
        _ => panic!("an existing output file is refused"),
    }
    let quiet = request().with_verbosity(Verbosity::Quiet);
    assert!(package(&quiet, directory(), file(), true, &files).is_ok());
}

#[test]
fn package_content_keeps_the_order_given() {
    let files =
        vec![("b".to_string(), b"2".to_vec()), ("a".to_string(), b"1".to_vec())];
    let built = package_content("b", &files).unwrap();
    let outer = unzip(&built.data);
    let inner = decrypt_content(&outer[0].1, &built.metadata.encryption_info).unwrap();
    let names: Vec<String> = unzip(&inner).into_iter().map(|e| e.0).collect();
    assert_eq!(names, vec!["b", "a"]);
    assert_eq!(built.metadata.unencrypted_content_size, inner.len() as u64);
}

#[test]
fn unpack_refuses_what_is_no_package() {
    let unpack_request = UnpackRequest::new("/in.intunewin".to_string(), "/x".to_string());
    match unpack(&unpack_request, nothing(), Vec::new()) {
        Err(PackageError::InvalidIntunewinFile { reason, .. }) => {
            assert_eq!(reason, "File does not exist")
        }
        _ => panic!("a missing file is refused"),
    }
    match unpack(&unpack_request, directory(), Vec::new()) {
        Err(PackageError::InvalidIntunewinFile { reason, .. }) => {
            assert_eq!(reason, "Path is not a file")
        }
        _ => panic!("a directory is refused"),
    }
    match unpack(&unpack_request, file(), b"no archive".to_vec()) {
        Err(PackageError::InvalidIntunewinFile { path, reason }) => {
            assert_eq!(path, "/in.intunewin");
            assert!(reason.starts_with("Invalid ZIP archive: "));
        }
        _ => panic!("what is no archive is refused"),
    }
    // An archive without the two entries.
    let empty = create_inner_zip(&[]).unwrap();
    match unpack(&unpack_request, file(), empty) {
        Err(PackageError::InvalidIntunewinFile { reason, .. }) => {
            assert!(reason.starts_with("Missing Detection.xml: "))
        }
        _ => panic!("an archive without metadata is refused"),
    }
}

#[test]
fn entries_of_a_package_as_they_were_read() {
    match metadata_from_entry("/in", Err(ZipReadFailure::Missing("gone".to_string()))) {
        Err(PackageError::InvalidIntunewinFile { path, reason }) => {
            assert_eq!(path, "/in");
            assert_eq!(reason, "Missing Detection.xml: gone");
        }
        _ => panic!("expected an invalid package"),
    }
    match metadata_from_entry("/in", Err(ZipReadFailure::Unreadable("bad".to_string()))) {
        Err(PackageError::InvalidIntunewinFile { reason, .. }) => {
            assert_eq!(reason, "Failed to read Detection.xml: bad")
        }
        _ => panic!("expected an invalid package"),
    }
    assert!(matches!(
        metadata_from_entry("/in", Ok("<a/>".to_string())),
        Err(PackageError::XmlError { .. })
    ));
    assert_eq!(content_from_entry("/in", Ok(vec![1, 2])).unwrap(), vec![1, 2]);
    match content_from_entry("/in", Err(ZipReadFailure::Missing("gone".to_string()))) {
        Err(PackageError::InvalidIntunewinFile { reason, .. }) => {
            assert_eq!(reason, "Missing encrypted content: gone")
        }
        _ => panic!("expected an invalid package"),
    }
    match content_from_entry("/in", Err(ZipReadFailure::Unreadable("bad".to_string()))) {
        Err(PackageError::InvalidIntunewinFile { reason, .. }) => {
            assert_eq!(reason, "Failed to read encrypted content: bad")
        }
        _ => panic!("expected an invalid package"),
    }
}

#[test]
fn inner_zip_is_taken_apart_without_its_directories() {
    let mut writer = zip::ZipWriter::new(Cursor::new(Vec::new()));
    let options = zip::write::FileOptions::default();
    writer.add_directory("dir/", options).unwrap();
    writer.start_file("dir/a.txt", options).unwrap();
    std::io::Write::write_all(&mut writer, b"abc").unwrap();
    writer.start_file("b.txt", options).unwrap();
    std::io::Write::write_all(&mut writer, b"de").unwrap();
    let bytes = writer.finish().unwrap().into_inner();

    let (files, total_size) = extract_inner_zip(bytes).unwrap();
    assert_eq!(
        files,
        vec![("dir/a.txt".to_string(), b"abc".to_vec()), ("b.txt".to_string(), b"de".to_vec())]
    );
    assert_eq!(total_size, 5);
    assert!(is_directory_name("dir/"));
    assert!(!is_directory_name("dir"));
    assert!(!is_directory_name(""));
    match extract_inner_zip(b"garbage".to_vec()) {
        Err(PackageError::DecryptionError { reason }) => {
            assert!(reason.starts_with("Decrypted content is not a valid ZIP: "))
        }
        _ => panic!("what is no archive is refused"),
    }
}

fn toc_of(pkg: &[u8]) -> String {
    let compressed_len = u64::from_be_bytes(pkg[8..16].try_into().unwrap()) as usize;
    let mut decoder = flate2::read::ZlibDecoder::new(&pkg[28..28 + compressed_len]);
    let mut toc = String::new();
    decoder.read_to_string(&mut toc).unwrap();
    toc
}

fn heap_of(pkg: &[u8]) -> &[u8] {
    let compressed_len = u64::from_be_bytes(pkg[8..16].try_into().unwrap()) as usize;
    &pkg[28 + compressed_len..]
}

fn one_file() -> Vec<SourceEntry> {
    vec![SourceEntry {
        relative_path: "a.txt".to_string(),
        mode: 0o100644,
        uid: 501,
        gid: 20,
        size: 2048,
        is_dir: false,
        data: vec![b'a'; 2048],
    }]
}

fn pkg_request() -> MacosPkgRequest {
    MacosPkgRequest::new(
        "/source".to_string(),
        "com.test.app".to_string(),
        "1.0.0".to_string(),
        "/out".to_string(),
    )
}

// A folder with one file makes a package with the distribution, the BOM, the
// payload and the package info, and without scripts.
#[test]
fn pkg_shape() {
    let built = package_stamped(&pkg_request(), &one_file(), &one_file(), &None, 0).unwrap();
    assert_eq!(built.file_count, 1);
    assert_eq!(&built.data[0..4], b"xar!");
    let toc = toc_of(&built.data);
    for name in ["Distribution", "base.pkg", "Bom", "Payload", "PackageInfo"] {
        assert!(toc.contains(&format!("<name>{}</name>", name)), "{} is missing", name);
    }
    assert!(!toc.contains("<name>Scripts</name>"));

    // The same package as its parts, put together by hand.
    let distribution =
        iamawrapper::macos::xml::generate_distribution("com.test.app", "com.test.app", "1.0.0", 2)
            .unwrap();
    let package_info = iamawrapper::macos::xml::generate_packageinfo(
        "com.test.app",
        "1.0.0",
        "/",
        2,
        1,
        false,
        false,
    )
    .unwrap();
    let bom = iamawrapper::macos::bom::create_bom_from_directory(&one_file()).unwrap();
    let payload = iamawrapper::macos::payload::create_payload_stamped(&one_file(), 0).unwrap();
    let mut builder = XarBuilder::new();
    builder.add_file("Distribution", distribution.into_bytes()).unwrap();
    builder.add_directory("base.pkg").unwrap();
    builder.add_file("base.pkg/Bom", bom.clone()).unwrap();
    builder.add_file("base.pkg/Payload", payload.clone()).unwrap();
    builder.add_file("base.pkg/PackageInfo", package_info.clone().into_bytes()).unwrap();
    assert_eq!(built.data, builder.finish().unwrap());

    let heap = heap_of(&built.data);
    assert!(heap.ends_with(package_info.as_bytes()));
    assert!(toc.contains(&format!("<size>{}</size>", bom.len())));
    assert!(toc.contains(&format!("<size>{}</size>", payload.len())));
}

// With a scripts folder that holds `preinstall`, the package has a scripts
// archive, and its package info names the script.
#[test]
fn pkg_scripts_opt_in() {
    let request = pkg_request().with_scripts_folder("/scripts".to_string());
    let scripts =
        Some(ScriptsSource { exists: true, preinstall: Some(b"#!/bin/sh\n".to_vec()), postinstall: None });
    let built = package_stamped(&request, &one_file(), &one_file(), &scripts, 0).unwrap();
    let toc = toc_of(&built.data);
    assert!(toc.contains("<name>Scripts</name>"));
    let heap = String::from_utf8_lossy(heap_of(&built.data)).to_string();
    assert!(heap.contains("<scripts>\n    <preinstall file=\"./preinstall\"/>\n  </scripts>"));
    assert!(!heap.contains("<postinstall"));

    // Scripts that were found count only where the request names a folder.
    let ignored = package_stamped(&pkg_request(), &one_file(), &one_file(), &scripts, 0).unwrap();
    assert!(!toc_of(&ignored.data).contains("<name>Scripts</name>"));
    // A folder without scripts adds nothing.
    let none = Some(ScriptsSource { exists: true, preinstall: None, postinstall: None });
    let plain = package_stamped(&request, &one_file(), &one_file(), &none, 0).unwrap();
    assert_eq!(plain.data, ignored.data);
}

#[test]
fn pkg_refuses_what_cannot_be_packaged() {
    let request = pkg_request().with_scripts_folder("/scripts".to_string());
    let missing = Some(ScriptsSource { exists: false, preinstall: None, postinstall: None });
    match package_stamped(&request, &one_file(), &one_file(), &missing, 0) {
        Err(PackageError::ScriptsFolderNotFound { path }) => assert_eq!(path, "/scripts"),
        _ => panic!("a missing scripts folder is refused"),
    }
    assert!(matches!(
        package_stamped(&request, &one_file(), &one_file(), &None, 0),
        Err(PackageError::ScriptsFolderNotFound { .. })
    ));
    match package_stamped(&pkg_request(), &[], &[], &None, 0) {
        Err(PackageError::SourceFolderEmpty { path }) => assert_eq!(path, "/source"),
        _ => panic!("a folder that holds nothing is refused"),
    }
    assert!(iamawrapper::macos::package(&pkg_request(), &one_file(), &one_file(), &None).is_ok());
}

fn app_file(path: &str, data: &[u8]) -> SourceEntry {
    SourceEntry {
        relative_path: path.to_string(),
        mode: 0o100644,
        uid: 0,
        gid: 80,
        size: data.len() as u64,
        is_dir: false,
        data: data.to_vec(),
    }
}

fn app_dir(path: &str) -> SourceEntry {
    SourceEntry {
        relative_path: path.to_string(),
        mode: 0o040755,
        uid: 0,
        gid: 80,
        size: 0,
        is_dir: true,
        data: Vec::new(),
    }
}

fn scripts(preinstall: Option<&[u8]>, postinstall: Option<&[u8]>) -> Option<ScriptsSource> {
    Some(ScriptsSource {
        exists: true,
        preinstall: preinstall.map(|s| s.to_vec()),
        postinstall: postinstall.map(|s| s.to_vec()),
    })
}

// Basic package creation
#[test]
fn test_macos_pkg_basic_creation() {
    let entries = vec![app_file("test.txt", b"Hello, World!")];
    let request = pkg_request().with_output_name("test".to_string());
    let built = iamawrapper::macos::package(&request, &entries, &entries, &None).unwrap();

    // Verify it starts with XAR magic
    assert_eq!(&built.data[0..4], b"xar!", "Package should be XAR format");
    assert_eq!(request.output_path(), "/out/test.pkg");
}

#[test]
fn test_macos_pkg_missing_source_folder() {
    let result = iamawrapper::cli::check_source_folder("/nonexistent/path", nothing(), true);
    match result {
        Err(error) => {
            assert!(matches!(error, PackageError::SourceFolderNotFound { .. }));
            assert_ne!(error.exit_code(), 0);
        }
        Ok(()) => panic!("a missing source folder is refused"),
    }
}

#[test]
fn test_macos_pkg_empty_source_folder() {
    // Empty directory - no files
    let refused = iamawrapper::cli::check_source_folder("/source", directory(), true);
    assert!(matches!(refused, Err(PackageError::SourceFolderEmpty { .. })));
    assert!(iamawrapper::macos::package(&pkg_request(), &[], &[], &None).is_err());
}

#[test]
fn test_macos_pkg_with_install_location() {
    let entries = vec![app_file("test.txt", b"content")];
    let request = pkg_request().with_install_location("/Applications".to_string());
    let built = package_stamped(&request, &entries, &entries, &None, 0).unwrap();
    let heap = String::from_utf8_lossy(heap_of(&built.data)).to_string();
    assert!(heap.contains("install-location=\"/Applications\""));
}

#[test]
fn test_macos_pkg_with_subdirectories() {
    // Nested structure
    let entries = vec![
        app_dir("MyApp.app"),
        app_dir("MyApp.app/Contents"),
        app_dir("MyApp.app/Contents/MacOS"),
        app_file("MyApp.app/Contents/MacOS/myapp", b"binary content"),
    ];
    let built = package_stamped(&pkg_request(), &entries, &entries, &None, 0).unwrap();
    assert_eq!(built.file_count, 4);
    assert_eq!(&built.data[0..4], b"xar!");
    let heap = String::from_utf8_lossy(heap_of(&built.data)).to_string();
    assert!(heap.contains("numberOfFiles=\"4\""));
    assert!(heap.contains("installKBytes=\"0\""));
}

// Package with scripts
#[test]
fn test_macos_pkg_with_scripts() {
    let entries = vec![app_file("app.txt", b"application content")];
    let request = pkg_request().with_scripts_folder("/scripts".to_string());
    let found = scripts(
        Some(b"#!/bin/bash\necho 'preinstall running'"),
        Some(b"#!/bin/bash\necho 'postinstall running'"),
    );
    let built = package_stamped(&request, &entries, &entries, &found, 0).unwrap();

    // Verify package is valid XAR
    assert_eq!(&built.data[0..4], b"xar!", "Package should be XAR format");
    assert!(toc_of(&built.data).contains("<name>Scripts</name>"));
    let heap = String::from_utf8_lossy(heap_of(&built.data)).to_string();
    assert!(heap.contains("<preinstall file=\"./preinstall\"/>"));
    assert!(heap.contains("<postinstall file=\"./postinstall\"/>"));
}

#[test]
fn test_macos_pkg_with_preinstall_only() {
    let entries = vec![app_file("app.txt", b"content")];
    let request = pkg_request().with_scripts_folder("/scripts".to_string());
    let found = scripts(Some(b"#!/bin/bash\necho 'pre'"), None);
    let built = package_stamped(&request, &entries, &entries, &found, 0).unwrap();
    let heap = String::from_utf8_lossy(heap_of(&built.data)).to_string();
    assert!(heap.contains("<preinstall file=\"./preinstall\"/>"));
    assert!(!heap.contains("<postinstall"));
}

#[test]
fn test_macos_pkg_with_postinstall_only() {
    let entries = vec![app_file("app.txt", b"content")];
    let request = pkg_request().with_scripts_folder("/scripts".to_string());
    let found = scripts(None, Some(b"#!/bin/bash\necho 'post'"));
    let built = package_stamped(&request, &entries, &entries, &found, 0).unwrap();
    let heap = String::from_utf8_lossy(heap_of(&built.data)).to_string();
    assert!(!heap.contains("<preinstall"));
    assert!(heap.contains("<postinstall file=\"./postinstall\"/>"));
}

#[test]
fn test_macos_pkg_scripts_folder_not_found() {
    let entries = vec![app_file("app.txt", b"content")];
    let request = pkg_request().with_scripts_folder("/nonexistent/scripts".to_string());
    let missing = Some(ScriptsSource { exists: false, preinstall: None, postinstall: None });
    let result = package_stamped(&request, &entries, &entries, &missing, 0);
    match result {
        Err(error) => {
            assert!(matches!(error, PackageError::ScriptsFolderNotFound { .. }));
            assert_eq!(error.exit_code(), 6);
        }
        Ok(_) => panic!("a missing scripts folder is refused"),
    }
}

/// A ZIP archive with one empty stored entry, whose record in the central
/// directory carries the flags and the extra field given.
fn archive_of_one_entry(name: &str, flags: u16, extra: &[u8]) -> Vec<u8> {
    let mut bytes = Vec::new();
    bytes.extend_from_slice(&[0x50, 0x4b, 0x03, 0x04]);
    bytes.extend_from_slice(&20u16.to_le_bytes());
    bytes.extend_from_slice(&flags.to_le_bytes());
    bytes.extend_from_slice(&[0u8; 2]);
    bytes.extend_from_slice(&[0, 0, 0x21, 0]);
    bytes.extend_from_slice(&[0u8; 12]);
    bytes.extend_from_slice(&u16::try_from(name.len()).unwrap().to_le_bytes());
    bytes.extend_from_slice(&[0u8; 2]);
    bytes.extend_from_slice(name.as_bytes());
    let directory_at = u32::try_from(bytes.len()).unwrap();
    bytes.extend_from_slice(&[0x50, 0x4b, 0x01, 0x02]);
    bytes.extend_from_slice(&20u16.to_le_bytes());
    bytes.extend_from_slice(&20u16.to_le_bytes());
    bytes.extend_from_slice(&flags.to_le_bytes());
    bytes.extend_from_slice(&[0u8; 2]);
    bytes.extend_from_slice(&[0, 0, 0x21, 0]);
    bytes.extend_from_slice(&[0u8; 12]);
    bytes.extend_from_slice(&u16::try_from(name.len()).unwrap().to_le_bytes());
    bytes.extend_from_slice(&u16::try_from(extra.len()).unwrap().to_le_bytes());
    bytes.extend_from_slice(&[0u8; 10]);
    bytes.extend_from_slice(&[0u8; 4]);
    bytes.extend_from_slice(name.as_bytes());
    bytes.extend_from_slice(extra);
    let directory_size = u32::try_from(bytes.len()).unwrap() - directory_at;
    bytes.extend_from_slice(&[0x50, 0x4b, 0x05, 0x06, 0, 0, 0, 0, 1, 0, 1, 0]);
    bytes.extend_from_slice(&directory_size.to_le_bytes());
    bytes.extend_from_slice(&directory_at.to_le_bytes());
    bytes.extend_from_slice(&[0u8; 2]);
    bytes
}

/// The extra field that marks an entry as encrypted with AES-256.
const AES_FIELD: [u8; 11] = [0x01, 0x99, 7, 0, 2, 0, b'A', b'E', 3, 0, 0];

#[test]
fn an_entry_that_asks_for_a_password_is_missing() {
    let (files, total_size) = extract_inner_zip(archive_of_one_entry("a", 0, &[])).unwrap();
    assert_eq!(files, vec![("a".to_string(), Vec::new())]);
    assert_eq!(total_size, 0);
    match extract_inner_zip(archive_of_one_entry("a", 0, &AES_FIELD)) {
        Err(PackageError::ZipError { reason }) => assert_eq!(
            reason,
            "Failed to read file from archive: invalid password for file in archive"
        ),
        _ => panic!("an entry marked for AES is missing"),
    }
    assert!(matches!(
        extract_inner_zip(archive_of_one_entry("a", 1, &[])),
        Err(PackageError::ZipError { .. })
    ));
    let unpack_request = UnpackRequest::new("/in.intunewin".to_string(), "/x".to_string());
    let marked = archive_of_one_entry("IntuneWinPackage/Metadata/Detection.xml", 0, &AES_FIELD);
    match unpack(&unpack_request, file(), marked) {
        Err(PackageError::InvalidIntunewinFile { path, reason }) => {
            assert_eq!(path, "/in.intunewin");
            assert_eq!(reason, "Missing Detection.xml: invalid password for file in archive");
        }
        _ => panic!("a package whose metadata is marked for AES is refused"),
    }
}

#[test]
fn what_is_no_archive_is_no_decrypted_content() {
    match extract_inner_zip(b"no archive".to_vec()) {
        Err(PackageError::DecryptionError { reason }) => {
            assert!(reason.starts_with("Decrypted content is not a valid ZIP: "))
        }
        _ => panic!("what is no archive is refused"),
    }
}
