use std::io::Read;

use flate2::read::GzDecoder;
use iamawrapper::macos::cpio::{
    create_cpio_archive, create_cpio_archive_at, create_cpio_archive_with_dirs, create_payload,
    create_payload_at, payload_from_gzip, CpioEntry, CpioHeader,
};
use iamawrapper::macos::payload::{
    collect_files, collect_scripts, create_payload_stamped, create_scripts_archive,
    payload_entries, SourceEntry,
};
use iamawrapper::numerals::push_octal;
use iamawrapper::paths::PathFacts;
use iamawrapper::PackageError;

fn gunzip(data: &[u8]) -> Vec<u8> {
    let mut decoder = GzDecoder::new(data);
    let mut decompressed = Vec::new();
    decoder.read_to_end(&mut decompressed).unwrap();
    decompressed
}

fn one(path: &str, data: &[u8], mode: u32) -> Vec<CpioEntry> {
    vec![(path.to_string(), data.to_vec(), mode)]
}

// CPIO odc format tests
#[test]
fn test_cpio_odc_magic() {
    let cpio_data = create_cpio_archive(&one("test.txt", b"hello", 0o644)).unwrap();
    let header = std::str::from_utf8(&cpio_data[0..6]).unwrap();
    assert_eq!(header, "070707", "CPIO odc magic must be '070707'");
}

#[test]
fn test_cpio_odc_header_size() {
    let cpio_data = create_cpio_archive(&one("test.txt", b"hello", 0o644)).unwrap();
    assert!(cpio_data.len() >= 76, "CPIO archive must have at least 76 bytes for header");
}

#[test]
fn test_cpio_odc_uid_gid() {
    let cpio_data = create_cpio_archive(&one("test.txt", b"hello", 0o644)).unwrap();
    // uid is at offset 24-30 (6 octal digits)
    let uid_str = std::str::from_utf8(&cpio_data[24..30]).unwrap();
    let uid = u32::from_str_radix(uid_str, 8).unwrap();
    assert_eq!(uid, 0, "UID must be 0 (root)");
    // gid is at offset 30-36 (6 octal digits)
    let gid_str = std::str::from_utf8(&cpio_data[30..36]).unwrap();
    let gid = u32::from_str_radix(gid_str, 8).unwrap();
    assert_eq!(gid, 80, "GID must be 80 (wheel)");
}

#[test]
fn test_cpio_odc_file_mode() {
    let cpio_data = create_cpio_archive(&one("test.txt", b"hello", 0o755)).unwrap();
    // mode is at offset 18-24 (6 octal digits)
    let mode_str = std::str::from_utf8(&cpio_data[18..24]).unwrap();
    let mode = u32::from_str_radix(mode_str, 8).unwrap();
    let permissions = mode & 0o777;
    assert_eq!(permissions, 0o755, "File permissions must be preserved");
}

#[test]
fn test_cpio_odc_filename() {
    let cpio_data = create_cpio_archive(&one("myfile.txt", b"content", 0o644)).unwrap();
    // namesize is at offset 59-65 (6 octal digits)
    let namesize_str = std::str::from_utf8(&cpio_data[59..65]).unwrap();
    let namesize = usize::from_str_radix(namesize_str, 8).unwrap();
    let filename = std::str::from_utf8(&cpio_data[76..76 + namesize - 1]).unwrap();
    assert_eq!(filename, "myfile.txt", "Filename must be present after header");
}

#[test]
fn test_cpio_odc_trailer() {
    let cpio_data = create_cpio_archive(&one("test.txt", b"hello", 0o644)).unwrap();
    let data_str = String::from_utf8_lossy(&cpio_data);
    assert!(data_str.contains("TRAILER!!!"), "Archive must end with TRAILER!!!");
    assert!(cpio_data.ends_with(b"TRAILER!!!\0"));
}

#[test]
fn test_cpio_odc_multiple_files() {
    let cpio_data = create_cpio_archive(&[
        ("file1.txt".to_string(), b"content1".to_vec(), 0o644),
        ("file2.txt".to_string(), b"content2".to_vec(), 0o755),
    ])
    .unwrap();
    let data_str = String::from_utf8_lossy(&cpio_data);
    assert!(data_str.contains("file1.txt"), "First file must be present");
    assert!(data_str.contains("file2.txt"), "Second file must be present");
}

// Gzip-compressed payload tests
#[test]
fn test_payload_gzip_magic() {
    let payload = create_payload(&one("test.txt", b"hello", 0o644)).unwrap();
    assert_eq!(payload[0], 0x1f, "Gzip magic byte 1 must be 0x1f");
    assert_eq!(payload[1], 0x8b, "Gzip magic byte 2 must be 0x8b");
}

#[test]
fn test_payload_compression() {
    let large_content = "A".repeat(10000);
    let payload = create_payload(&one("test.txt", large_content.as_bytes(), 0o644)).unwrap();
    assert!(payload.len() < 5000, "Payload should be compressed");
}

#[test]
fn test_payload_decompression() {
    let payload = create_payload(&one("test.txt", b"hello world", 0o644)).unwrap();
    let decompressed = gunzip(&payload);
    let magic = std::str::from_utf8(&decompressed[0..6]).unwrap();
    assert_eq!(magic, "070707", "Decompressed payload must be valid CPIO");
}

#[test]
fn test_payload_with_subdirectory() {
    let payload =
        create_payload(&one("Applications/MyApp.app/Contents/Info.plist", b"<plist/>", 0o644))
            .unwrap();
    let decompressed = gunzip(&payload);
    let data_str = String::from_utf8_lossy(&decompressed);
    assert!(
        data_str.contains("Applications/MyApp.app/Contents/Info.plist"),
        "Subdirectory path must be preserved"
    );
}

#[test]
fn cpio_archive_byte_for_byte() {
    // 2001-09-09T01:46:40Z is 1000000000 seconds, 07346545000 in octal.
    let archive = create_cpio_archive_at(
        &[
            ("a.txt".to_string(), b"hello".to_vec(), 0o644),
            ("bin/run".to_string(), Vec::new(), 0o104755),
        ],
        1_000_000_000,
    )
    .unwrap();
    let expected = [
        "070707", "000000", "000001", "100644", "000000", "000120", "000001", "000000",
        "07346545000", "000006", "00000000005", "a.txt\0hello",
        "070707", "000000", "000002", "104755", "000000", "000120", "000001", "000000",
        "07346545000", "000010", "00000000000", "bin/run\0",
        "070707", "000000", "000000", "000000", "000000", "000000", "000001", "000000",
        "00000000000", "000013", "00000000000", "TRAILER!!!\0",
    ]
    .concat();
    assert_eq!(String::from_utf8(archive).unwrap(), expected);
}

#[test]
fn cpio_archive_without_files_is_the_trailer() {
    let archive = create_cpio_archive_at(&[], 5).unwrap();
    assert_eq!(archive.len(), 76 + 11);
    assert!(archive.starts_with(b"070707"));
    assert!(archive.ends_with(b"TRAILER!!!\0"));
    assert_eq!(archive, create_cpio_archive(&[]).unwrap());
}

#[test]
fn cpio_header_fields() {
    let header = CpioHeader::for_file(0o777_777, 9, 4, 3, 8);
    assert_eq!(header.mode, 0o107777);
    assert_eq!(header.namesize, 5);
    assert_eq!(header.filesize, 9);
    assert_eq!(header.ino, 3);
    assert_eq!(header.mtime, 8);
    assert_eq!(header.uid, 0);
    assert_eq!(header.gid, 80);
    assert_eq!(header.nlink, 1);
    assert_eq!(header.to_bytes().len(), 76);
    let trailer = CpioHeader::trailer();
    assert_eq!(trailer.namesize, 11);
    assert_eq!(trailer.nlink, 1);
    assert_eq!(
        String::from_utf8(trailer.to_bytes()).unwrap(),
        [
            "070707", "000000", "000000", "000000", "000000", "000000", "000001", "000000",
            "00000000000", "000013", "00000000000",
        ]
        .concat()
    );
}

#[test]
fn octal_fields_keep_every_digit() {
    let mut out = b"x".to_vec();
    push_octal(&mut out, 0, 6);
    push_octal(&mut out, 0o7, 1);
    push_octal(&mut out, 0o1234567, 6);
    push_octal(&mut out, 8, 0);
    push_octal(&mut out, u64::MAX as u128, 11);
    assert_eq!(
        String::from_utf8(out).unwrap(),
        "x0000007123456710".to_string() + "1777777777777777777777"
    );
}

#[test]
fn directories_are_not_supported() {
    match create_cpio_archive_with_dirs(&[("dir".to_string(), 0o755, true)]) {
        Err(PackageError::CpioError { reason }) => {
            assert_eq!(reason, "Directory support not yet implemented")
        }
        _ => panic!("expected a CPIO error"),
    }
}

#[test]
fn payload_is_the_gzip_of_the_archive() {
    let entries = one("test.txt", b"hello world", 0o644);
    let payload = create_payload_at(&entries, 77).unwrap();
    assert_eq!(&payload[0..2], &[0x1f, 0x8b]);
    assert_eq!(gunzip(&payload), create_cpio_archive_at(&entries, 77).unwrap());
}

#[test]
fn payload_for_what_the_encoder_returned() {
    assert_eq!(payload_from_gzip(Ok(vec![1, 2, 3])).unwrap(), vec![1, 2, 3]);
    match payload_from_gzip(Err("disk full".to_string())) {
        Err(PackageError::CpioError { reason }) => assert_eq!(reason, "disk full"),
        _ => panic!("expected a CPIO error"),
    }
}

fn source_entries() -> Vec<SourceEntry> {
    vec![
        SourceEntry {
            relative_path: "subdir".to_string(),
            mode: 0o755,
            uid: 0,
            gid: 80,
            size: 4096,
            is_dir: true,
            data: Vec::new(),
        },
        SourceEntry {
            relative_path: "subdir/file.txt".to_string(),
            mode: 0o100644,
            uid: 0,
            gid: 80,
            size: 7,
            is_dir: false,
            data: b"content".to_vec(),
        },
        SourceEntry {
            relative_path: "test.txt".to_string(),
            mode: 0o100755,
            uid: 0,
            gid: 80,
            size: 11,
            is_dir: false,
            data: b"hello world".to_vec(),
        },
    ]
}

#[test]
fn test_collect_files_basic() {
    let entries = vec![SourceEntry {
        relative_path: "test.txt".to_string(),
        mode: 0o644,
        uid: 0,
        gid: 80,
        size: 11,
        is_dir: false,
        data: b"hello world".to_vec(),
    }];
    let payload = collect_files(&entries).unwrap();

    assert_eq!(payload.file_count(), 1);
    assert_eq!(payload.total_size, 11); // "hello world" = 11 bytes
}

#[test]
fn test_collect_files_with_subdirectory() {
    let payload = collect_files(&source_entries()).unwrap();

    // Should include directory and file
    assert!(payload.file_count() >= 1);
    assert_eq!(payload.file_count(), 3);
    // A directory counts with size 0 and carries the directory bit.
    assert_eq!(payload.total_size, 18);
    assert_eq!(payload.files[0].size, 0);
    assert_eq!(payload.files[0].mode, 0o040755);
    assert_eq!(payload.files[1].mode, 0o100644);
}

#[test]
fn collect_files_refuses_sizes_beyond_64_bits() {
    let mut entries = source_entries();
    entries[1].size = u64::MAX;
    assert!(matches!(collect_files(&entries), Err(PackageError::SourceReadError { .. })));
}

#[test]
fn test_create_payload_basic() {
    let payload = iamawrapper::macos::payload::create_payload(&source_entries()).unwrap();

    // Should be gzip compressed (starts with gzip magic)
    assert_eq!(payload[0], 0x1f);
    assert_eq!(payload[1], 0x8b);
}

#[test]
fn test_create_payload_multiple_files() {
    let payload = create_payload_stamped(&source_entries(), 0).unwrap();
    let decompressed = gunzip(&payload);
    let files = payload_entries(&source_entries());
    // Directories get no record, and the mode keeps its permission bits.
    assert_eq!(files.len(), 2);
    assert_eq!(files[0], ("subdir/file.txt".to_string(), b"content".to_vec(), 0o644));
    assert_eq!(files[1].2, 0o755);
    assert_eq!(decompressed, create_cpio_archive_at(&files, 0).unwrap());
    let content = String::from_utf8_lossy(&decompressed);
    assert!(content.contains("subdir/file.txt"));
    assert!(content.contains("test.txt"));
}

fn found(exists: bool, is_file: bool) -> PathFacts {
    PathFacts { exists, is_dir: exists && !is_file, is_file }
}

// Unit tests for collect_scripts
#[test]
fn test_collect_scripts_both() {
    let info = collect_scripts("/scripts", found(true, false), found(true, true), found(true, true))
        .unwrap();
    assert!(info.has_preinstall, "Should detect preinstall");
    assert!(info.has_postinstall, "Should detect postinstall");
}

#[test]
fn test_collect_scripts_preinstall_only() {
    let info =
        collect_scripts("/scripts", found(true, false), found(true, true), found(false, false))
            .unwrap();
    assert!(info.has_preinstall, "Should detect preinstall");
    assert!(!info.has_postinstall, "Should not detect postinstall");
}

#[test]
fn test_collect_scripts_postinstall_only() {
    let info =
        collect_scripts("/scripts", found(true, false), found(false, false), found(true, true))
            .unwrap();
    assert!(!info.has_preinstall, "Should not detect preinstall");
    assert!(info.has_postinstall, "Should detect postinstall");
}

#[test]
fn test_collect_scripts_folder_not_found() {
    let result = collect_scripts(
        "/nonexistent/path",
        found(false, false),
        found(false, false),
        found(false, false),
    );
    assert!(matches!(result, Err(PackageError::ScriptsFolderNotFound { .. })));
}

#[test]
fn test_collect_scripts_empty_folder() {
    let info =
        collect_scripts("/scripts", found(true, false), found(false, false), found(false, false))
            .unwrap();
    assert!(!info.has_preinstall, "Should not detect preinstall in empty folder");
    assert!(!info.has_postinstall, "Should not detect postinstall in empty folder");
}

#[test]
fn a_directory_named_like_a_script_is_no_script() {
    let info =
        collect_scripts("/scripts", found(true, false), found(true, false), found(true, true))
            .unwrap();
    assert!(!info.has_preinstall);
    assert!(info.has_postinstall);
}

// Unit tests for auto-set execute permission
#[test]
fn test_create_scripts_archive_executable_mode() {
    let archive =
        create_scripts_archive("/scripts", &Some(b"#!/bin/bash\necho test".to_vec()), &None)
            .unwrap();
    let decompressed = gunzip(&archive);

    // CPIO odc format: mode is at offset 18-24 (6 octal digits)
    let mode_str = std::str::from_utf8(&decompressed[18..24]).unwrap();
    let mode = u32::from_str_radix(mode_str, 8).unwrap();
    let permissions = mode & 0o777;

    assert_eq!(permissions, 0o755, "Scripts should have execute permission (0755)");
}

#[test]
fn test_create_scripts_archive_no_scripts() {
    let result = create_scripts_archive("/scripts", &None, &None);
    match result {
        Err(PackageError::NoScriptsFound { path }) => assert_eq!(path, "/scripts"),
        _ => panic!("expected that no scripts were found"),
    }
}

#[test]
fn test_create_scripts_archive_contains_scripts() {
    let archive = create_scripts_archive(
        "/scripts",
        &Some(b"#!/bin/bash\necho pre".to_vec()),
        &Some(b"#!/bin/bash\necho post".to_vec()),
    )
    .unwrap();

    // Verify it's gzip
    assert_eq!(archive[0], 0x1f);
    assert_eq!(archive[1], 0x8b);

    let decompressed = gunzip(&archive);
    let content = String::from_utf8_lossy(&decompressed);
    assert!(content.contains("preinstall"), "Should contain preinstall");
    assert!(content.contains("postinstall"), "Should contain postinstall");
    assert!(content.find("preinstall").unwrap() < content.find("postinstall").unwrap());
}
