use iamawrapper::models::detection::{DetectionMetadata, EncryptionInfo};
use iamawrapper::models::error::exit_codes;
use iamawrapper::models::macos::{MacosPkgRequest, PackagePayload};
use iamawrapper::models::package::{PackageRequest, SourcePackage, UnpackRequest, Verbosity};
use iamawrapper::paths::{file_stem, join_path, parent_path, PathFacts};
use iamawrapper::PackageError;

fn directory() -> PathFacts {
    PathFacts { exists: true, is_dir: true, is_file: false }
}

fn file() -> PathFacts {
    PathFacts { exists: true, is_dir: false, is_file: true }
}

fn nothing() -> PathFacts {
    PathFacts { exists: false, is_dir: false, is_file: false }
}

#[test]
fn test_encryption_info_default() {
    let info = EncryptionInfo::default();
    assert_eq!(info.profile_identifier, "ProfileVersion1");
    assert_eq!(info.file_digest_algorithm, "SHA256");
    assert_eq!(info.encryption_key.len(), 32);
    assert_eq!(info.mac_key.len(), 32);
    assert_eq!(info.iv.len(), 16);
    assert_eq!(info.encryption_key, [0u8; 32]);
    assert_eq!(info.mac, [0u8; 32]);
    assert_eq!(info.file_digest, [0u8; 32]);
}

#[test]
fn test_base64_encoding() {
    let mut info = EncryptionInfo::new();
    info.encryption_key = [0u8; 32];
    info.iv = [0u8; 16];

    // 32 zero bytes = 44 chars Base64 (with padding)
    assert_eq!(info.encryption_key_base64().len(), 44);
    // 16 zero bytes = 24 chars Base64 (with padding)
    assert_eq!(info.iv_base64().len(), 24);
}

#[test]
fn base64_of_known_secrets() {
    let mut info = EncryptionInfo::new();
    assert_eq!(info.encryption_key_base64(), "AAAAAAAAAAAAAAAAAAAAAAAAAAAAAAAAAAAAAAAAAAA=");
    assert_eq!(info.iv_base64(), "AAAAAAAAAAAAAAAAAAAAAA==");
    info.mac_key = [0xff; 32];
    assert_eq!(info.mac_key_base64(), "//////////////////////////////////////////8=");
    for i in 0..16 {
        info.iv[i] = i as u8;
    }
    assert_eq!(info.iv_base64(), "AAECAwQFBgcICQoLDA0ODw==");
    info.mac = [1; 32];
    assert_eq!(info.mac_base64(), "AQEBAQEBAQEBAQEBAQEBAQEBAQEBAQEBAQEBAQEBAQE=");
    info.file_digest = [2; 32];
    assert_eq!(info.file_digest_base64(), "AgICAgICAgICAgICAgICAgICAgICAgICAgICAgICAgI=");
}

#[test]
fn secrets_from_base64() {
    let mut info = EncryptionInfo::new();
    assert_eq!(info.set_iv_from_base64("AAECAwQFBgcICQoLDA0ODw=="), Ok(()));
    assert_eq!(info.iv, [0, 1, 2, 3, 4, 5, 6, 7, 8, 9, 10, 11, 12, 13, 14, 15]);
    assert_eq!(
        info.set_encryption_key_from_base64("AQEBAQEBAQEBAQEBAQEBAQEBAQEBAQEBAQEBAQEBAQE="),
        Ok(())
    );
    assert_eq!(info.encryption_key, [1; 32]);
    assert_eq!(
        info.set_mac_key_from_base64("AgICAgICAgICAgICAgICAgICAgICAgICAgICAgICAgI="),
        Ok(())
    );
    assert_eq!(info.mac_key, [2; 32]);
    assert_eq!(info.set_mac_from_base64("//////////////////////////////////////////8="), Ok(()));
    assert_eq!(info.mac, [0xff; 32]);
    assert_eq!(
        info.set_file_digest_from_base64("AQEBAQEBAQEBAQEBAQEBAQEBAQEBAQEBAQEBAQEBAQE="),
        Ok(())
    );
    assert_eq!(info.file_digest, [1; 32]);
}

#[test]
fn secrets_of_the_wrong_size_are_refused() {
    let mut info = EncryptionInfo::new();
    info.encryption_key = [9; 32];
    // Sixteen bytes where thirty-two are asked for.
    assert_eq!(
        info.set_encryption_key_from_base64("AAECAwQFBgcICQoLDA0ODw=="),
        Err("Encryption key must be 32 bytes, got 16".to_string())
    );
    assert_eq!(info.encryption_key, [9; 32]);
    assert_eq!(
        info.set_mac_key_from_base64("AAECAwQFBgcICQoLDA0ODw=="),
        Err("MAC key must be 32 bytes, got 16".to_string())
    );
    assert_eq!(
        info.set_iv_from_base64("AQEBAQEBAQEBAQEBAQEBAQEBAQEBAQEBAQEBAQEBAQE="),
        Err("IV must be 16 bytes, got 32".to_string())
    );
    assert_eq!(info.set_mac_from_base64(""), Err("MAC must be 32 bytes, got 0".to_string()));
    assert_eq!(
        info.set_file_digest_from_base64("AAA="),
        Err("File digest must be 32 bytes, got 2".to_string())
    );
}

#[test]
fn text_that_is_no_base64_is_refused() {
    let mut info = EncryptionInfo::new();
    let result = info.set_encryption_key_from_base64("not-valid-base64!!!");
    assert!(result.unwrap_err().starts_with("Invalid Base64 for encryption key: "));
    assert!(info
        .set_mac_key_from_base64("@@@@")
        .unwrap_err()
        .starts_with("Invalid Base64 for MAC key: "));
    assert!(info.set_iv_from_base64("A").unwrap_err().starts_with("Invalid Base64 for IV: "));
    assert!(info.set_mac_from_base64("AA").unwrap_err().starts_with("Invalid Base64 for MAC: "));
    assert!(info
        .set_file_digest_from_base64("A A=")
        .unwrap_err()
        .starts_with("Invalid Base64 for file digest: "));
    assert_eq!(info.iv, [0u8; 16]);
}

#[test]
fn test_detection_metadata_new() {
    let meta = DetectionMetadata::new("setup.exe".to_string(), 1024);
    assert_eq!(meta.name, "setup.exe");
    assert_eq!(meta.setup_file, "setup.exe");
    assert_eq!(meta.file_name, "IntunePackage.intunewin");
    assert_eq!(meta.unencrypted_content_size, 1024);
}

#[test]
fn test_exit_codes_mapping() {
    let err = PackageError::SourceFolderEmpty { path: "/tmp".to_string() };
    assert_eq!(err.exit_code(), exit_codes::EMPTY_SOURCE);

    let err =
        PackageError::SetupFileNotFound { file: "setup.exe".to_string(), folder: "/tmp".to_string() };
    assert_eq!(err.exit_code(), exit_codes::SETUP_NOT_FOUND);

    let err = PackageError::InvalidArgument { reason: "test".to_string() };
    assert_eq!(err.exit_code(), exit_codes::INVALID_ARGS);

    let err =
        PackageError::OutputWriteError { path: "/tmp/out".to_string(), reason: "test".to_string() };
    assert_eq!(err.exit_code(), exit_codes::OUTPUT_ERROR);
}

#[test]
fn every_error_has_its_exit_code() {
    let p = || "/p".to_string();
    let r = || "why".to_string();
    let cases: Vec<(PackageError, i32)> = vec![
        (PackageError::SourceFolderNotFound { path: p() }, 1),
        (PackageError::SourceFolderEmpty { path: p() }, 3),
        (PackageError::SetupFileNotFound { file: p(), folder: p() }, 4),
        (PackageError::OutputFolderCreationFailed { path: p(), reason: r() }, 5),
        (PackageError::OutputFileExists { path: p() }, 1),
        (PackageError::SourceReadError { path: p(), reason: r() }, 1),
        (PackageError::EncryptionError { reason: r() }, 1),
        (PackageError::OutputWriteError { path: p(), reason: r() }, 5),
        (PackageError::ZipError { reason: r() }, 1),
        (PackageError::XmlError { reason: r() }, 1),
        (PackageError::InvalidArgument { reason: r() }, 2),
        (PackageError::Cancelled, 7),
        (PackageError::InvalidIntunewinFile { path: p(), reason: r() }, 1),
        (PackageError::DecryptionError { reason: r() }, 1),
        (PackageError::HmacVerificationFailed, 1),
        (PackageError::InvalidPadding, 1),
        (PackageError::ScriptsFolderNotFound { path: p() }, 6),
        (PackageError::NoScriptsFound { path: p() }, 1),
        (PackageError::XarError { reason: r() }, 1),
        (PackageError::CpioError { reason: r() }, 1),
        (PackageError::BomError { reason: r() }, 1),
        (PackageError::Io(r()), 1),
    ];
    for (error, code) in cases {
        assert_eq!(error.exit_code(), code, "{:?}", error);
    }
    assert_eq!(exit_codes::SUCCESS, 0);
    assert_eq!(exit_codes::ERROR, 1);
    assert_eq!(exit_codes::OUTPUT_ERROR, 5);
    assert_eq!(exit_codes::SCRIPTS_NOT_FOUND, 6);
    assert_eq!(exit_codes::CANCELLED, 7);
}

#[test]
fn every_error_has_its_message() {
    let p = || "/p".to_string();
    let r = || "why".to_string();
    let cases: Vec<(PackageError, &str)> = vec![
        (PackageError::SourceFolderNotFound { path: p() }, "Source folder not found: /p"),
        (PackageError::SourceFolderEmpty { path: p() }, "Source folder is empty: /p"),
        (
            PackageError::SetupFileNotFound { file: "s.exe".to_string(), folder: p() },
            "Setup file 's.exe' not found in /p",
        ),
        (
            PackageError::OutputFolderCreationFailed { path: p(), reason: r() },
            "Failed to create output folder '/p': why",
        ),
        (PackageError::OutputFileExists { path: p() }, "Output file already exists: /p"),
        (
            PackageError::SourceReadError { path: p(), reason: r() },
            "Failed to read source file '/p': why",
        ),
        (PackageError::EncryptionError { reason: r() }, "Encryption error: why"),
        (
            PackageError::OutputWriteError { path: p(), reason: r() },
            "Failed to write output to '/p': why",
        ),
        (PackageError::ZipError { reason: r() }, "ZIP creation error: why"),
        (PackageError::XmlError { reason: r() }, "XML generation error: why"),
        (PackageError::InvalidArgument { reason: r() }, "Invalid argument: why"),
        (PackageError::Cancelled, "Operation cancelled by user"),
        (
            PackageError::InvalidIntunewinFile { path: p(), reason: r() },
            "Invalid .intunewin file '/p': why",
        ),
        (PackageError::DecryptionError { reason: r() }, "Decryption error: why"),
        (
            PackageError::HmacVerificationFailed,
            "HMAC verification failed - file may be corrupted or tampered",
        ),
        (PackageError::InvalidPadding, "Invalid padding in decrypted data"),
        (PackageError::ScriptsFolderNotFound { path: p() }, "Scripts folder not found: /p"),
        (
            PackageError::NoScriptsFound { path: p() },
            "No preinstall or postinstall scripts found in: /p",
        ),
        (PackageError::XarError { reason: r() }, "XAR archive error: why"),
        (PackageError::CpioError { reason: r() }, "CPIO archive error: why"),
        (PackageError::BomError { reason: r() }, "BOM file error: why"),
        (PackageError::Io(r()), "I/O error: why"),
    ];
    for (error, message) in cases {
        assert_eq!(error.message(), message);
    }
}

#[test]
fn test_macos_pkg_request_new() {
    let req = MacosPkgRequest::new(
        "/source".to_string(),
        "com.test.app".to_string(),
        "1.0.0".to_string(),
        "/output".to_string(),
    );

    assert_eq!(req.source_folder, "/source");
    assert_eq!(req.identifier, "com.test.app");
    assert_eq!(req.version, "1.0.0");
    assert_eq!(req.install_location, "/");
    assert_eq!(req.output_folder, "/output");
    assert!(req.output_name.is_none());
    assert!(req.scripts_folder.is_none());
}

#[test]
fn macos_test_output_path_default() {
    let req = MacosPkgRequest::new(
        "/source".to_string(),
        "com.test.app".to_string(),
        "1.0.0".to_string(),
        "/output".to_string(),
    );

    assert_eq!(req.output_path(), "/output/com.test.app-1.0.0.pkg");
}

#[test]
fn macos_test_output_path_custom_name() {
    let req = MacosPkgRequest::new(
        "/source".to_string(),
        "com.test.app".to_string(),
        "1.0.0".to_string(),
        "/output".to_string(),
    )
    .with_output_name("MyApp".to_string());

    assert_eq!(req.output_path(), "/output/MyApp.pkg");
}

#[test]
fn macos_request_builders() {
    let req = MacosPkgRequest::new(
        "/source".to_string(),
        "com.test.app".to_string(),
        "1.0.0".to_string(),
        "/output/".to_string(),
    )
    .with_install_location("/Applications".to_string())
    .with_scripts_folder("/scripts".to_string())
    .with_verbosity(Verbosity::Silent)
    .with_output_name("MyApp.pkg.pkg".to_string());
    assert_eq!(req.install_location, "/Applications");
    assert_eq!(req.scripts_folder, Some("/scripts".to_string()));
    assert_eq!(req.verbosity, Verbosity::Silent);
    // Every extension at the end of the name goes, and the folder's own
    // slash is kept as the separator.
    assert_eq!(req.output_path(), "/output/MyApp.pkg");
    assert_eq!(req.source_folder, "/source");
}

#[test]
fn test_is_valid_identifier() {
    let req = MacosPkgRequest::new(
        "/source".to_string(),
        "com.test.app".to_string(),
        "1.0.0".to_string(),
        "/output".to_string(),
    );
    assert!(req.is_valid_identifier());

    let req_invalid = MacosPkgRequest::new(
        "/source".to_string(),
        "myapp".to_string(),
        "1.0.0".to_string(),
        "/output".to_string(),
    );
    assert!(!req_invalid.is_valid_identifier());
}

#[test]
fn identifiers_with_empty_segments_are_invalid() {
    let with = |identifier: &str| {
        MacosPkgRequest::new(
            "/s".to_string(),
            identifier.to_string(),
            "1".to_string(),
            "/o".to_string(),
        )
        .is_valid_identifier()
    };
    assert!(with("a.b"));
    assert!(with("1.2"));
    assert!(!with(""));
    assert!(!with("."));
    assert!(!with("a."));
    assert!(!with(".a"));
    assert!(!with("a..b"));
}

#[test]
fn test_payload_add_file() {
    let mut payload = PackagePayload::new();
    payload.add_file("file1.txt".to_string(), 1024, 0o644);
    payload.add_file("file2.txt".to_string(), 2048, 0o755);

    assert_eq!(payload.file_count(), 2);
    assert_eq!(payload.total_size, 3072);
    assert_eq!(payload.files[1].relative_path, "file2.txt");
    assert_eq!(payload.files[1].mode, 0o755);
    assert_eq!(PackagePayload::default().file_count(), 0);
}

#[test]
fn test_verbosity_suppress_prompts() {
    assert!(!Verbosity::Normal.suppress_prompts());
    assert!(Verbosity::Quiet.suppress_prompts());
    assert!(Verbosity::Silent.suppress_prompts());
}

#[test]
fn test_verbosity_suppress_output() {
    assert!(!Verbosity::Normal.suppress_output());
    assert!(!Verbosity::Quiet.suppress_output());
    assert!(Verbosity::Silent.suppress_output());
}

#[test]
fn test_verbosity_show_progress() {
    assert!(Verbosity::Normal.show_progress());
    assert!(Verbosity::Quiet.show_progress());
    assert!(!Verbosity::Silent.show_progress());
    assert_eq!(Verbosity::default(), Verbosity::Normal);
}

#[test]
fn package_test_output_path_default() {
    let req =
        PackageRequest::new("/source".to_string(), "setup.exe".to_string(), "/output".to_string());
    assert_eq!(req.output_path(), "/output/setup.intunewin");
}

#[test]
fn package_test_output_path_custom_name() {
    let req =
        PackageRequest::new("/source".to_string(), "setup.exe".to_string(), "/output".to_string())
            .with_output_name("MyApp-v2.0".to_string());
    assert_eq!(req.output_path(), "/output/MyApp-v2.0.intunewin");
}

#[test]
fn test_output_path_custom_name_with_extension() {
    let req =
        PackageRequest::new("/source".to_string(), "setup.exe".to_string(), "/output".to_string())
            .with_output_name("MyApp.intunewin".to_string());
    assert_eq!(req.output_path(), "/output/MyApp.intunewin");
}

#[test]
fn output_path_of_unusual_setup_files() {
    let path = |setup: &str| {
        PackageRequest::new("/s".to_string(), setup.to_string(), "/o".to_string()).output_path()
    };
    assert_eq!(path("setup"), "/o/setup.intunewin");
    assert_eq!(path("setup.tar.gz"), "/o/setup.tar.intunewin");
    assert_eq!(path(".hidden"), "/o/.hidden.intunewin");
    assert_eq!(path("sub/app.msi"), "/o/app.intunewin");
    assert_eq!(path(""), "/o/package.intunewin");
    assert_eq!(path(".."), "/o/package.intunewin");
    let req = PackageRequest::new("/s".to_string(), "a.exe".to_string(), "/o".to_string());
    assert_eq!(req.setup_path(), "/s/a.exe");
}

#[test]
fn test_source_package_add_file() {
    let mut pkg = SourcePackage::new("/source".to_string(), "setup.exe".to_string());
    pkg.add_file("setup.exe".to_string(), 1024, true);
    pkg.add_file("data.dll".to_string(), 2048, false);

    assert_eq!(pkg.file_count(), 2);
    assert_eq!(pkg.total_size, 3072);
    assert!(pkg.files[0].is_setup_file);
    assert_eq!(pkg.files[1].relative_path, "data.dll");
}

#[test]
fn package_request_validation() {
    let req = PackageRequest::new("/s".to_string(), "a.exe".to_string(), "/o".to_string());
    assert!(req.validate(directory(), file()).is_ok());
    match req.validate(nothing(), file()) {
        Err(PackageError::SourceFolderNotFound { path }) => assert_eq!(path, "/s"),
        _ => panic!("a missing folder is refused"),
    }
    assert!(matches!(
        req.validate(file(), file()),
        Err(PackageError::SourceFolderNotFound { .. })
    ));
    match req.validate(directory(), nothing()) {
        Err(PackageError::SetupFileNotFound { file, folder }) => {
            assert_eq!(file, "a.exe");
            assert_eq!(folder, "/s");
        }
        _ => panic!("a missing setup file is refused"),
    }
}

#[test]
fn unpack_request_validation() {
    let req = UnpackRequest::new("/in.intunewin".to_string(), "/out".to_string())
        .with_verbosity(Verbosity::Quiet);
    assert_eq!(req.verbosity, Verbosity::Quiet);
    assert!(req.validate(file()).is_ok());
    match req.validate(nothing()) {
        Err(PackageError::InvalidIntunewinFile { path, reason }) => {
            assert_eq!(path, "/in.intunewin");
            assert_eq!(reason, "File does not exist");
        }
        _ => panic!("a missing file is refused"),
    }
    match req.validate(directory()) {
        Err(PackageError::InvalidIntunewinFile { reason, .. }) => {
            assert_eq!(reason, "Path is not a file")
        }
        _ => panic!("a directory is refused"),
    }
}

#[test]
fn paths_as_text() {
    assert_eq!(join_path("/a", "b"), "/a/b");
    assert_eq!(join_path("/a/", "b"), "/a/b");
    assert_eq!(join_path("", "b"), "b");
    assert_eq!(join_path("/a", "/b"), "/b");
    assert_eq!(join_path("/a", ""), "/a/");
    assert_eq!(file_stem("/x/y.tar.gz"), Some("y.tar".to_string()));
    assert_eq!(file_stem("y"), Some("y".to_string()));
    assert_eq!(file_stem(".y"), Some(".y".to_string()));
    assert_eq!(file_stem("/x/"), Some("x".to_string()));
    assert_eq!(file_stem("/x/."), Some("x".to_string()));
    assert_eq!(file_stem("/x/.."), None);
    assert_eq!(file_stem("/"), None);
    assert_eq!(file_stem("."), None);
    assert_eq!(parent_path("/x/y"), Some("/x".to_string()));
    assert_eq!(parent_path("/x"), Some("/".to_string()));
    assert_eq!(parent_path("x"), Some("".to_string()));
    assert_eq!(parent_path("/"), None);
    assert_eq!(parent_path(""), None);
    assert_eq!(parent_path("/x/y/"), Some("/x".to_string()));
    assert_eq!(parent_path("x//y"), Some("x".to_string()));
}

#[test]
fn stems_and_parents_are_those_of_the_standard_library() {
    let paths = [
        "", "/", "//", ".", "..", "./", "/.", "a", "a/", "a//", "a/.", "a/./", "a/..", "a/b",
        "a/b/", "a//b", "a/./b", "/a", "/a/", "//a", "/a/b.c", "a.b.c", ".a", "a.", "..a", "...",
        "./a", ".//a", "/./a", "dir/", "dir/.", "x/dir/setup.exe", "x/.hidden", "a/b/./.",
        "a/../b", "../a", "a/.b/", "a/b./", "/.a/.", ".a/",
    ];
    for path in paths {
        let stem = std::path::Path::new(path).file_stem().map(|s| s.to_str().unwrap().to_string());
        assert_eq!(file_stem(path), stem, "stem of {path:?}");
        let parent = std::path::Path::new(path).parent().map(|p| p.to_str().unwrap().to_string());
        assert_eq!(parent_path(path), parent, "parent of {path:?}");
    }
}

#[test]
fn joined_paths_are_those_of_the_standard_library() {
    let parts = ["", "/", "a", "a/", "/a", "a/b", "/a/b/", ".", "b.c"];
    for folder in parts {
        for name in parts {
            let joined = std::path::Path::new(folder).join(name).to_str().unwrap().to_string();
            assert_eq!(join_path(folder, name), joined, "{folder:?} with {name:?}");
        }
    }
}

#[test]
fn output_path_of_a_setup_file_that_ends_in_a_slash() {
    let path = |setup: &str| {
        PackageRequest::new("/s".to_string(), setup.to_string(), "/out".to_string()).output_path()
    };
    assert_eq!(path("dir/"), "/out/dir.intunewin");
    assert_eq!(path("dir/."), "/out/dir.intunewin");
    assert_eq!(path("x/dir.d/"), "/out/dir.intunewin");
    assert_eq!(path("/"), "/out/package.intunewin");
}
