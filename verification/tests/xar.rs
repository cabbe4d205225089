use std::io::Read;

use flate2::read::ZlibDecoder;
use iamawrapper::macos::xar::{EntryType, XarBuilder, XarEntry, XarHeader};
use iamawrapper::PackageError;
use quick_xml::events::{BytesDecl, BytesEnd, BytesStart, BytesText, Event};
use quick_xml::Writer;
use sha1::{Digest, Sha1};

// XAR header serialization tests
#[test]
fn test_xar_header_magic() {
    let header = XarHeader::new(100, 200);
    let bytes = header.to_bytes();
    assert_eq!(&bytes[0..4], b"xar!", "XAR magic must be 'xar!'");
}

#[test]
fn test_xar_header_size() {
    let header = XarHeader::new(100, 200);
    let bytes = header.to_bytes();
    assert_eq!(bytes.len(), 28, "XAR header must be 28 bytes");
    assert_eq!(u16::from_be_bytes([bytes[4], bytes[5]]), 28);
}

#[test]
fn test_xar_header_version() {
    let header = XarHeader::new(100, 200);
    let bytes = header.to_bytes();
    let version = u16::from_be_bytes([bytes[6], bytes[7]]);
    assert_eq!(version, 1, "XAR version must be 1");
}

#[test]
fn test_xar_header_toc_lengths() {
    let header = XarHeader::new(1234, 5678);
    let bytes = header.to_bytes();
    let toc_compressed = u64::from_be_bytes(bytes[8..16].try_into().unwrap());
    assert_eq!(toc_compressed, 1234);
    let toc_uncompressed = u64::from_be_bytes(bytes[16..24].try_into().unwrap());
    assert_eq!(toc_uncompressed, 5678);
}

#[test]
fn test_xar_header_checksum_algorithm() {
    let header = XarHeader::new(100, 200);
    let bytes = header.to_bytes();
    let cksum_algo = u32::from_be_bytes(bytes[24..28].try_into().unwrap());
    assert_eq!(cksum_algo, 1, "Checksum algorithm should be SHA1 (1)");
}

#[test]
fn xar_header_of_large_lengths() {
    let bytes = XarHeader::new(0x0102_0304_0506_0708, u64::MAX).to_bytes();
    assert_eq!(
        bytes,
        [
            b'x', b'a', b'r', b'!', 0, 28, 0, 1, 1, 2, 3, 4, 5, 6, 7, 8, 0xff, 0xff, 0xff, 0xff,
            0xff, 0xff, 0xff, 0xff, 0, 0, 0, 1
        ]
    );
}

// XAR TOC XML generation tests
#[test]
fn test_xar_toc_xml_structure() {
    let mut builder = XarBuilder::new();
    builder.add_file("test.txt", b"hello".to_vec()).unwrap();
    let toc_xml = builder.generate_toc_xml().unwrap();
    assert!(toc_xml.contains("<?xml"), "TOC must have XML declaration");
    assert!(toc_xml.contains("<xar>"), "TOC must have <xar> root");
    assert!(toc_xml.contains("<toc>"), "TOC must have <toc> element");
}

#[test]
fn test_xar_toc_file_entry() {
    let mut builder = XarBuilder::new();
    builder.add_file("myfile.txt", b"content".to_vec()).unwrap();
    let toc_xml = builder.generate_toc_xml().unwrap();
    assert!(toc_xml.contains("<file"), "TOC must have <file> element");
    assert!(toc_xml.contains("<name>myfile.txt</name>"), "File name must be present");
}

#[test]
fn test_xar_toc_directory_entry() {
    let mut builder = XarBuilder::new();
    builder.add_directory("base.pkg").unwrap();
    let toc_xml = builder.generate_toc_xml().unwrap();
    assert!(toc_xml.contains("<name>base.pkg</name>"), "Directory name must be present");
    assert!(toc_xml.contains("<type>directory</type>"), "Type must be 'directory'");
}

#[test]
fn test_xar_toc_data_section() {
    let mut builder = XarBuilder::new();
    builder.add_file("test.txt", b"hello world".to_vec()).unwrap();
    let toc_xml = builder.generate_toc_xml().unwrap();
    assert!(toc_xml.contains("<data>"), "Must have <data> section");
    assert!(toc_xml.contains("<offset>"), "Data must have offset");
}

// XAR archive assembly tests
#[test]
fn test_xar_archive_assembly() {
    let mut builder = XarBuilder::new();
    builder.add_file("Distribution", b"<?xml version=\"1.0\"?>".to_vec()).unwrap();
    let data = builder.finish().unwrap();
    assert_eq!(&data[0..4], b"xar!", "Archive must start with 'xar!'");
    assert!(data.len() > 28, "Archive must have content beyond header");
}

#[test]
fn test_xar_archive_multiple_files() {
    let mut builder = XarBuilder::new();
    builder.add_directory("base.pkg").unwrap();
    builder.add_file("base.pkg/Bom", b"BOMStore data".to_vec()).unwrap();
    builder.add_file("base.pkg/Payload", b"CPIO payload".to_vec()).unwrap();
    builder.add_file("Distribution", b"<installer-script/>".to_vec()).unwrap();
    let data = builder.finish().unwrap();
    assert!(data.len() > 100, "Multi-file archive should have substantial size");
}

fn sha1_hex(data: &[u8]) -> String {
    hex::encode(Sha1::digest(data))
}

#[test]
fn sha1_of_known_data() {
    assert_eq!(XarBuilder::compute_sha1(b""), "da39a3ee5e6b4b0d3255bfef95601890afd80709");
    assert_eq!(XarBuilder::compute_sha1(b"abc"), "a9993e364706816aba3e25717850c26c9cd0d89d");
}

#[test]
fn toc_of_one_file_text_for_text() {
    let mut builder = XarBuilder::new();
    builder.add_file("a<b", b"hello".to_vec()).unwrap();
    let toc = builder.generate_toc_xml().unwrap();
    let digest = "aaf4c61ddcc5e8a2dabede0f3b482cd9aea9434d";
    let expected = [
        "<?xml version=\"1.0\" encoding=\"UTF-8\"?>",
        "<xar>",
        "  <toc>",
        "    <checksum style=\"sha1\">",
        "      <offset>0</offset>",
        "      <size>20</size>",
        "    </checksum>",
        "    <file id=\"1\">",
        "      <name>a&lt;b</name>",
        "      <type>file</type>",
        "      <data>",
        "        <offset>20</offset>",
        "        <size>5</size>",
        "        <length>5</length>",
        &format!("        <extracted-checksum style=\"sha1\">{}</extracted-checksum>", digest),
        &format!("        <archived-checksum style=\"sha1\">{}</archived-checksum>", digest),
        "        <encoding style=\"application/octet-stream\"/>",
        "      </data>",
        "    </file>",
        "  </toc>",
        "</xar>",
    ]
    .join("\n");
    assert_eq!(toc, expected);
}

// The table of contents as an events-based XML writer with two spaces of
// indentation lays it out.
fn reference_toc(entries: &[XarEntry]) -> String {
    let mut writer = Writer::new_with_indent(Vec::new(), b' ', 2);
    writer.write_event(Event::Decl(BytesDecl::new("1.0", Some("UTF-8"), None))).unwrap();
    writer.write_event(Event::Start(BytesStart::new("xar"))).unwrap();
    writer.write_event(Event::Start(BytesStart::new("toc"))).unwrap();
    let mut checksum_start = BytesStart::new("checksum");
    checksum_start.push_attribute(("style", "sha1"));
    writer.write_event(Event::Start(checksum_start)).unwrap();
    reference_element(&mut writer, "offset", "0");
    reference_element(&mut writer, "size", "20");
    writer.write_event(Event::End(BytesEnd::new("checksum"))).unwrap();
    reference_entries(&mut writer, entries, None, 20);
    writer.write_event(Event::End(BytesEnd::new("toc"))).unwrap();
    writer.write_event(Event::End(BytesEnd::new("xar"))).unwrap();
    String::from_utf8(writer.into_inner()).unwrap()
}

fn reference_element(writer: &mut Writer<Vec<u8>>, tag: &str, content: &str) {
    writer.write_event(Event::Start(BytesStart::new(tag))).unwrap();
    writer.write_event(Event::Text(BytesText::new(content))).unwrap();
    writer.write_event(Event::End(BytesEnd::new(tag))).unwrap();
}

fn reference_checksum(writer: &mut Writer<Vec<u8>>, tag: &str, checksum: &str) {
    let mut start = BytesStart::new(tag);
    start.push_attribute(("style", "sha1"));
    writer.write_event(Event::Start(start)).unwrap();
    writer.write_event(Event::Text(BytesText::new(checksum))).unwrap();
    writer.write_event(Event::End(BytesEnd::new(tag))).unwrap();
}

fn reference_entries(
    writer: &mut Writer<Vec<u8>>,
    entries: &[XarEntry],
    parent_id: Option<u64>,
    heap_offset: u64,
) -> u64 {
    let mut current_offset = heap_offset;
    for entry in entries {
        if entry.parent_id != parent_id {
            continue;
        }
        let mut file_start = BytesStart::new("file");
        file_start.push_attribute(("id", entry.id.to_string().as_str()));
        writer.write_event(Event::Start(file_start)).unwrap();
        reference_element(writer, "name", &entry.name);
        let is_file = entry.entry_type == EntryType::File;
        reference_element(writer, "type", if is_file { "file" } else { "directory" });
        if is_file {
            writer.write_event(Event::Start(BytesStart::new("data"))).unwrap();
            reference_element(writer, "offset", &current_offset.to_string());
            reference_element(writer, "size", &entry.data.len().to_string());
            reference_element(writer, "length", &entry.data.len().to_string());
            let checksum = sha1_hex(&entry.data);
            reference_checksum(writer, "extracted-checksum", &checksum);
            reference_checksum(writer, "archived-checksum", &checksum);
            let mut encoding = BytesStart::new("encoding");
            encoding.push_attribute(("style", "application/octet-stream"));
            writer.write_event(Event::Empty(encoding)).unwrap();
            writer.write_event(Event::End(BytesEnd::new("data"))).unwrap();
            current_offset += entry.data.len() as u64;
        } else {
            current_offset = reference_entries(writer, entries, Some(entry.id), current_offset);
        }
        writer.write_event(Event::End(BytesEnd::new("file"))).unwrap();
    }
    current_offset
}

fn entry(name: &str, path: &str, data: &[u8], id: u64, parent_id: Option<u64>) -> XarEntry {
    XarEntry {
        name: name.to_string(),
        path: path.to_string(),
        entry_type: if data.is_empty() { EntryType::Directory } else { EntryType::File },
        data: data.to_vec(),
        offset: 0,
        checksum: String::new(),
        id,
        parent_id,
    }
}

#[test]
fn toc_of_a_package_agrees_with_an_events_writer() {
    let mut builder = XarBuilder::new();
    builder.add_file("Distribution", b"<installer-script/>".to_vec()).unwrap();
    builder.add_directory("base.pkg").unwrap();
    builder.add_file("base.pkg/Bom", b"BOMStore data".to_vec()).unwrap();
    builder.add_file("base.pkg/Payload", b"CPIO payload".to_vec()).unwrap();
    builder.add_directory("base.pkg/Resources").unwrap();
    builder.add_file("base.pkg/Resources/a&b \"c\".txt", b"x".to_vec()).unwrap();
    builder.add_file("base.pkg/PackageInfo", b"<pkg-info/>".to_vec()).unwrap();
    builder.add_file("orphan/file", b"yz".to_vec()).unwrap();
    builder.add_directory("empty").unwrap();

    let entries = vec![
        entry("Distribution", "Distribution", b"<installer-script/>", 1, None),
        entry("base.pkg", "base.pkg", b"", 2, None),
        entry("Bom", "base.pkg/Bom", b"BOMStore data", 3, Some(2)),
        entry("Payload", "base.pkg/Payload", b"CPIO payload", 4, Some(2)),
        entry("Resources", "base.pkg/Resources", b"", 5, Some(2)),
        entry("a&b \"c\".txt", "base.pkg/Resources/a&b \"c\".txt", b"x", 6, Some(5)),
        entry("PackageInfo", "base.pkg/PackageInfo", b"<pkg-info/>", 7, Some(2)),
        entry("file", "orphan/file", b"yz", 8, None),
        entry("empty", "empty", b"", 9, None),
    ];
    assert_eq!(builder.generate_toc_xml().unwrap(), reference_toc(&entries));
}

#[test]
fn parents_are_directories_that_were_added_before() {
    let mut builder = XarBuilder::new();
    builder.add_file("dir", b"a file, no directory".to_vec()).unwrap();
    assert_eq!(builder.find_parent_id("dir/x"), None);
    builder.add_directory("dir").unwrap();
    builder.add_directory("dir").unwrap();
    // The first directory under the path is the parent.
    assert_eq!(builder.find_parent_id("dir/x"), Some(2));
    assert_eq!(builder.find_parent_id("dir/x/y"), None);
    assert_eq!(builder.find_parent_id("x"), None);
    assert_eq!(builder.find_parent_id("/x"), None);
    assert_eq!(XarBuilder::default().find_parent_id("dir/x"), None);
}

#[test]
fn archive_layout() {
    let mut builder = XarBuilder::new();
    builder.add_directory("base.pkg").unwrap();
    builder.add_file("Distribution", b"first".to_vec()).unwrap();
    builder.add_file("base.pkg/Bom", b"second".to_vec()).unwrap();
    let toc = builder.generate_toc_xml().unwrap();
    let data = builder.finish().unwrap();

    assert_eq!(&data[0..4], b"xar!");
    assert_eq!(u16::from_be_bytes([data[4], data[5]]), 28);
    assert_eq!(u16::from_be_bytes([data[6], data[7]]), 1);
    let compressed_len = u64::from_be_bytes(data[8..16].try_into().unwrap()) as usize;
    let toc_len = u64::from_be_bytes(data[16..24].try_into().unwrap()) as usize;
    assert_eq!(u32::from_be_bytes(data[24..28].try_into().unwrap()), 1);
    assert_eq!(toc_len, toc.len());

    // The table of contents, compressed with zlib.
    let compressed = &data[28..28 + compressed_len];
    let mut decoder = ZlibDecoder::new(compressed);
    let mut decompressed = String::new();
    decoder.read_to_string(&mut decompressed).unwrap();
    assert_eq!(decompressed, toc);

    // The heap: the SHA-1 of the compressed table, then the files in the
    // order of the table, each at the offset that the table gives.
    let heap = &data[28 + compressed_len..];
    assert_eq!(&heap[0..20], Sha1::digest(compressed).as_slice());
    assert_eq!(&heap[20..], b"secondfirst");
    assert_eq!(data.len(), 28 + compressed_len + 20 + "second".len() + "first".len());
    assert!(toc.contains("<name>Bom</name>"));
    let bom_at = toc.find("<name>Bom</name>").unwrap();
    let distribution_at = toc.find("<name>Distribution</name>").unwrap();
    assert!(bom_at < distribution_at);
    assert!(toc[bom_at..distribution_at].contains("<offset>20</offset>"));
    assert!(toc[distribution_at..].contains("<offset>26</offset>"));
}

#[test]
fn archive_for_what_the_encoder_returned() {
    let mut builder = XarBuilder::new();
    builder.add_file("a", b"data".to_vec()).unwrap();
    match builder.archive_from_toc(10, Err("no memory".to_string())) {
        Err(PackageError::XarError { reason }) => assert_eq!(reason, "no memory"),
        _ => panic!("expected a XAR error"),
    }
    let archive = builder.archive_from_toc(10, Ok(vec![9, 9, 9])).unwrap();
    assert_eq!(&archive[0..28], &XarHeader::new(3, 10).to_bytes());
    assert_eq!(&archive[28..31], &[9, 9, 9]);
    assert_eq!(&archive[31..51], Sha1::digest([9u8, 9, 9]).as_slice());
    assert_eq!(&archive[51..], b"data");
}
