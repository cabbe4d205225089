//! XAR archive writer.
//!
//! A XAR archive is a 28-byte header, a zlib-compressed table of contents in
//! XML, and a heap: the SHA-1 of the compressed table, then the data of the
//! files in the order of the table.

use std::io::Write;

use flate2::write::ZlibEncoder;
use flate2::Compression;
use sha1::{Digest, Sha1};
use vstd::prelude::*;
use vstd::string::StringExecFns;
use vstd::utf8::encode_utf8;

use crate::bytes::{be16, be32, be64, push_be16, push_be32, push_be64, push_bytes};
use crate::macos::cpio::{encoded, not_encoded};
use crate::macos::xar_laws::{files_length, is_numbered, lemma_heap_holds_every_file};
use crate::models::error::PackageError;
use crate::numerals::{decimal_string, decimal_text};
use crate::text::{chars_of, find_last, last_index_of, lemma_last_index_of, slice_text};
use crate::xml_text::{
    deeper, indent, markup_line, push_markup_line, push_text_element, text_element, xml_escape,
    xml_escaped,
};

verus! {

/// Size of the header in bytes.
pub const XAR_HEADER_SIZE: u16 = 28;

/// Version of the format.
pub const XAR_VERSION: u16 = 1;

/// Checksum algorithm: SHA-1.
pub const CKSUM_SHA1: u32 = 1;

/// Size of a SHA-1 digest, which is the heap offset of the first file.
pub const SHA1_SIZE: u64 = 20;

/// The magic `xar!`.
pub open spec fn xar_magic() -> Seq<u8> {
    seq![0x78u8, 0x61u8, 0x72u8, 0x21u8]
}

/// The header for a table of contents of the given lengths.
pub open spec fn xar_header_bytes(toc_compressed_length: u64, toc_uncompressed_length: u64) -> Seq<
    u8,
> {
    xar_magic() + be16(XAR_HEADER_SIZE) + be16(XAR_VERSION) + be64(toc_compressed_length) + be64(
        toc_uncompressed_length,
    ) + be32(CKSUM_SHA1)
}

/// XAR archive header (28 bytes, big-endian).
#[derive(Debug, Clone)]
pub struct XarHeader {
    /// Length of the compressed table of contents.
    pub toc_compressed_length: u64,
    /// Length of the table of contents before compression.
    pub toc_uncompressed_length: u64,
}

impl XarHeader {
    /// A header for a table of contents of the given lengths.
    pub fn new(toc_compressed_length: u64, toc_uncompressed_length: u64) -> (header: Self)
        ensures
            header.toc_compressed_length == toc_compressed_length,
            header.toc_uncompressed_length == toc_uncompressed_length,
    {
        Self { toc_compressed_length, toc_uncompressed_length }
    }

    /// The header as 28 bytes.
    pub fn to_bytes(&self) -> (bytes: [u8; 28])
        ensures
            bytes@ == xar_header_bytes(self.toc_compressed_length, self.toc_uncompressed_length),
    {
        let mut text: Vec<u8> = Vec::new();
        text.push(0x78u8);
        text.push(0x61u8);
        text.push(0x72u8);
        text.push(0x21u8);
        push_be16(&mut text, XAR_HEADER_SIZE);
        push_be16(&mut text, XAR_VERSION);
        push_be64(&mut text, self.toc_compressed_length);
        push_be64(&mut text, self.toc_uncompressed_length);
        push_be32(&mut text, CKSUM_SHA1);
        assert(text@ =~= xar_header_bytes(
            self.toc_compressed_length,
            self.toc_uncompressed_length,
        ));
        let mut buf = [0u8;28];
        let mut i: usize = 0;
        while i < 28
            invariant
                i <= 28,
                text@.len() == 28,
                forall|j: int| 0 <= j < i ==> buf@[j] == text@[j],
            decreases 28 - i,
        {
            buf[i] = text[i];
            i += 1;
        }
        assert(buf@ =~= text@);
        buf
    }
}

/// Entry type in a XAR archive.
#[derive(Debug, Clone, Copy, PartialEq, Eq, Structural)]
pub enum EntryType {
    File,
    Directory,
}

/// An entry (file or directory) in a XAR archive.
#[derive(Debug, Clone)]
pub struct XarEntry {
    /// Entry name: the last component of the path.
    pub name: String,
    /// Full path.
    pub path: String,
    /// Entry type.
    pub entry_type: EntryType,
    /// File data (empty for directories).
    pub data: Vec<u8>,
    /// Heap offset. The table of contents computes the offsets anew and does
    /// not read this field.
    pub offset: u64,
    /// SHA-1 checksum in hexadecimal. The table of contents computes the
    /// checksums anew and does not read this field.
    pub checksum: String,
    /// Entry id, given when the entry is added.
    pub id: u64,
    /// Id of the parent directory (`None` for top-level entries).
    pub parent_id: Option<u64>,
}

/// What the archive reads of an entry.
pub struct XarEntryView {
    pub name: Seq<char>,
    pub path: Seq<char>,
    pub is_file: bool,
    pub data: Seq<u8>,
    pub id: u64,
    pub parent_id: Option<u64>,
}

impl View for XarEntry {
    type V = XarEntryView;

    open spec fn view(&self) -> XarEntryView {
        XarEntryView {
            name: self.name@,
            path: self.path@,
            is_file: self.entry_type == EntryType::File,
            data: self.data@,
            id: self.id,
            parent_id: self.parent_id,
        }
    }
}

/// The views of a sequence of entries.
pub open spec fn views_of(entries: Seq<XarEntry>) -> Seq<XarEntryView> {
    Seq::new(entries.len(), |i: int| entries[i]@)
}

// ---------------------------------------------------------------------------
// Names and parents
// ---------------------------------------------------------------------------

/// The last component of a path: what follows its last `/`.
pub open spec fn base_name(path: Seq<char>) -> Seq<char> {
    path.subrange(last_index_of(path, '/') + 1, path.len() as int)
}

/// Id of the first directory at or after `from` whose path is `path`.
pub open spec fn find_directory(entries: Seq<XarEntryView>, path: Seq<char>, from: int) -> Option<
    u64,
>
    decreases entries.len() - from,
{
    if from < 0 || from >= entries.len() {
        None
    } else if entries[from].path == path && !entries[from].is_file {
        Some(entries[from].id)
    } else {
        find_directory(entries, path, from + 1)
    }
}

/// Id of the directory that holds `path`: the first directory whose path is
/// what stands before the last `/` of `path`. `None` for a path without `/`
/// and for one whose directory was not added.
pub open spec fn parent_id_of(entries: Seq<XarEntryView>, path: Seq<char>) -> Option<u64> {
    let slash = last_index_of(path, '/');
    if slash >= 0 {
        find_directory(entries, path.subrange(0, slash), 0)
    } else {
        None
    }
}

/// The entry that a call to add `path` appends.
pub open spec fn new_entry(
    entries: Seq<XarEntryView>,
    path: Seq<char>,
    is_file: bool,
    data: Seq<u8>,
    id: u64,
) -> XarEntryView {
    XarEntryView {
        name: base_name(path),
        path,
        is_file,
        data,
        id,
        parent_id: parent_id_of(entries, path),
    }
}

// ---------------------------------------------------------------------------
// Digests, from outside
// ---------------------------------------------------------------------------

/// The SHA-1 digest of `data`, as the `sha1` crate computes it.
pub uninterp spec fn sha1_of(data: Seq<u8>) -> Seq<u8>;

/// What `flate2`'s zlib encoder, at its default level, gives for `data`: the
/// stream, or why it failed.
pub uninterp spec fn zlib_outcome(data: Seq<u8>) -> Result<Seq<u8>, Seq<char>>;

/// The zlib stream of `data`; empty where the encoder fails.
pub open spec fn zlib_of(data: Seq<u8>) -> Seq<u8> {
    match zlib_outcome(data) {
        Ok(stream) => stream,
        Err(_) => Seq::empty(),
    }
}

/// The hexadecimal digit for `n`, which is below sixteen, in lower case.
pub open spec fn hex_digit(n: nat) -> char {
    if n == 0 {
        '0'
    } else if n == 1 {
        '1'
    } else if n == 2 {
        '2'
    } else if n == 3 {
        '3'
    } else if n == 4 {
        '4'
    } else if n == 5 {
        '5'
    } else if n == 6 {
        '6'
    } else if n == 7 {
        '7'
    } else if n == 8 {
        '8'
    } else if n == 9 {
        '9'
    } else if n == 10 {
        'a'
    } else if n == 11 {
        'b'
    } else if n == 12 {
        'c'
    } else if n == 13 {
        'd'
    } else if n == 14 {
        'e'
    } else {
        'f'
    }
}

/// `bytes` in hexadecimal: two lower-case digits per byte.
pub open spec fn hex_text(bytes: Seq<u8>) -> Seq<char>
    decreases bytes.len(),
{
    if bytes.len() == 0 {
        Seq::empty()
    } else {
        hex_text(bytes.drop_last()).push(hex_digit((bytes.last() / 16) as nat)).push(
            hex_digit((bytes.last() % 16) as nat),
        )
    }
}

/// The SHA-1 digest of `data`, computed by `sha1::Sha1`. A digest has 20
/// bytes.
#[verifier::external_body]
pub(crate) fn sha1_digest(data: &[u8]) -> (digest: Vec<u8>)
    ensures
        digest@ == sha1_of(data@),
        digest@.len() == 20,
{
    Sha1::digest(data).to_vec()
}

/// `bytes` in hexadecimal, by `hex::encode`: two lower-case digits per byte,
/// the high half first.
#[verifier::external_body]
pub(crate) fn hex_encode(bytes: &[u8]) -> (text: String)
    ensures
        text@ == hex_text(bytes@),
{
    hex::encode(bytes)
}

/// Compresses `data` with `flate2`'s `ZlibEncoder` at the default level. What
/// comes back is the encoder's outcome for `data`.
#[verifier::external_body]
pub(crate) fn zlib_compress(data: &[u8]) -> (result: Result<Vec<u8>, String>)
    ensures
        match result {
            Ok(out) => zlib_outcome(data@) == encoded(out@),
            Err(why) => zlib_outcome(data@) == not_encoded(why@),
        },
{
    let mut encoder = ZlibEncoder::new(Vec::new(), Compression::default());
    match encoder.write_all(data) {
        Ok(()) => encoder.finish().map_err(|e| e.to_string()),
        Err(e) => Err(e.to_string()),
    }
}

// ---------------------------------------------------------------------------
// The table of contents
// ---------------------------------------------------------------------------

/// The first line of the table of contents.
pub open spec fn toc_declaration() -> Seq<char> {
    "<?xml version=\"1.0\" encoding=\"UTF-8\"?>"@
}

/// The element that says where the checksum of the table of contents stands:
/// in the first 20 bytes of the heap.
pub open spec fn toc_checksum() -> Seq<char> {
    markup_line(indent(2), "<checksum style=\"sha1\">"@) + text_element(
        indent(3),
        "offset"@,
        "0"@,
    ) + text_element(indent(3), "size"@, "20"@) + markup_line(indent(2), "</checksum>"@)
}

/// The `<data>` element of a file whose data stands at heap offset `offset`.
/// Files are stored as they are, so the archived length is the size, and the
/// two checksums are the same.
#[verifier::opaque]
pub open spec fn data_section(depth: nat, offset: int, data: Seq<u8>) -> Seq<char> {
    let digest = xml_escaped(hex_text(sha1_of(data)));
    markup_line(indent(depth), "<data>"@) + text_element(
        indent(depth + 1),
        "offset"@,
        decimal_text(offset as nat),
    ) + text_element(indent(depth + 1), "size"@, decimal_text(data.len())) + text_element(
        indent(depth + 1),
        "length"@,
        decimal_text(data.len()),
    ) + markup_line(indent(depth + 1), "<extracted-checksum style=\"sha1\">"@) + digest
        + "</extracted-checksum>"@ + markup_line(
        indent(depth + 1),
        "<archived-checksum style=\"sha1\">"@,
    ) + digest + "</archived-checksum>"@ + markup_line(
        indent(depth + 1),
        "<encoding style=\"application/octet-stream\"/>"@,
    ) + markup_line(indent(depth), "</data>"@)
}

/// The text `file` or `directory`.
pub open spec fn type_text(is_file: bool) -> Seq<char> {
    if is_file {
        "file"@
    } else {
        "directory"@
    }
}

/// The opening of a `<file>` element, with its name and type.
#[verifier::opaque]
pub open spec fn file_opening(depth: nat, e: XarEntryView) -> Seq<char> {
    markup_line(indent(depth), "<file id=\""@ + decimal_text(e.id as nat) + "\">"@) + text_element(
        indent(depth + 1),
        "name"@,
        e.name,
    ) + text_element(indent(depth + 1), "type"@, type_text(e.is_file))
}

/// The `<file>` elements of the entries at or after `from` whose parent is
/// `parent`, each with the elements of its children inside, and the heap
/// offset after their files, where the first file stands at `offset`.
///
/// The children of an entry are looked for after it: an entry's parent is an
/// entry that was there when it was added.
pub open spec fn toc_entries(
    entries: Seq<XarEntryView>,
    parent: Option<u64>,
    from: int,
    offset: int,
    depth: nat,
) -> (Seq<char>, int)
    decreases entries.len() - from,
{
    if from < 0 || from >= entries.len() {
        (Seq::empty(), offset)
    } else {
        let e = entries[from];
        if e.parent_id != parent {
            toc_entries(entries, parent, from + 1, offset, depth)
        } else {
            let inner = if e.is_file {
                (data_section(depth + 1, offset, e.data), offset + e.data.len())
            } else {
                toc_entries(entries, Some(e.id), from + 1, offset, depth + 1)
            };
            let rest = toc_entries(entries, parent, from + 1, inner.1, depth);
            (
                file_opening(depth, e) + inner.0 + markup_line(indent(depth), "</file>"@) + rest.0,
                rest.1,
            )
        }
    }
}

/// The heap offset after the last file.
pub open spec fn heap_end(entries: Seq<XarEntryView>) -> int {
    toc_entries(entries, None, 0, SHA1_SIZE as int, 2).1
}

/// The table of contents.
pub open spec fn toc_xml(entries: Seq<XarEntryView>) -> Seq<char> {
    toc_declaration() + markup_line(indent(0), "<xar>"@) + markup_line(indent(1), "<toc>"@)
        + toc_checksum() + toc_entries(entries, None, 0, SHA1_SIZE as int, 2).0 + markup_line(
        indent(1),
        "</toc>"@,
    ) + markup_line(indent(0), "</xar>"@)
}

/// The data of the files at or after `from` under `parent`, in the order of
/// the table of contents.
pub open spec fn heap_files(entries: Seq<XarEntryView>, parent: Option<u64>, from: int) -> Seq<u8>
    decreases entries.len() - from,
{
    if from < 0 || from >= entries.len() {
        Seq::empty()
    } else {
        let e = entries[from];
        if e.parent_id != parent {
            heap_files(entries, parent, from + 1)
        } else {
            (if e.is_file {
                e.data
            } else {
                heap_files(entries, Some(e.id), from + 1)
            }) + heap_files(entries, parent, from + 1)
        }
    }
}

/// The archive, given its compressed table of contents: header, compressed
/// table, the SHA-1 of the compressed table, and the files.
pub open spec fn xar_archive(
    entries: Seq<XarEntryView>,
    toc_length: u64,
    compressed: Seq<u8>,
) -> Seq<u8> {
    xar_header_bytes(compressed.len() as u64, toc_length) + compressed + sha1_of(compressed)
        + heap_files(entries, None, 0)
}

/// The offsets of the table of contents are those of the heap: the offset
/// after the files of a run of entries is the offset of its first file plus
/// the length of their data.
pub proof fn lemma_offsets_follow_heap(
    entries: Seq<XarEntryView>,
    parent: Option<u64>,
    from: int,
    offset: int,
    depth: nat,
)
    requires
        0 <= from,
    ensures
        toc_entries(entries, parent, from, offset, depth).1 == offset + heap_files(
            entries,
            parent,
            from,
        ).len(),
    decreases entries.len() - from,
{
    if from < entries.len() {
        let e = entries[from];
        if e.parent_id != parent {
            lemma_offsets_follow_heap(entries, parent, from + 1, offset, depth);
        } else {
            if !e.is_file {
                lemma_offsets_follow_heap(entries, Some(e.id), from + 1, offset, depth + 1);
            }
            let inner = if e.is_file {
                (data_section(depth + 1, offset, e.data), offset + e.data.len())
            } else {
                toc_entries(entries, Some(e.id), from + 1, offset, depth + 1)
            };
            lemma_offsets_follow_heap(entries, parent, from + 1, inner.1, depth);
        }
    }
}

// ---------------------------------------------------------------------------
// The builder
// ---------------------------------------------------------------------------

/// Builder for XAR archives.
#[derive(Debug)]
pub struct XarBuilder {
    entries: Vec<XarEntry>,
    next_id: u64,
}

impl View for XarBuilder {
    type V = Seq<XarEntryView>;

    closed spec fn view(&self) -> Seq<XarEntryView> {
        views_of(self.entries@)
    }
}

/// What adding an entry under `path` does to a builder: the entry is
/// appended under the next id, which goes up by one; where the ids are used
/// up, the call fails and the builder stays as it is.
pub open spec fn entry_added(
    before: XarBuilder,
    after: XarBuilder,
    result: Result<(), PackageError>,
    path: Seq<char>,
    is_file: bool,
    data: Seq<u8>,
) -> bool {
    if before.next_id() < u64::MAX {
        &&& result is Ok
        &&& after@ == before@.push(new_entry(before@, path, is_file, data, before.next_id()))
        &&& after.next_id() == before.next_id() + 1
    } else {
        &&& result matches Err(PackageError::XarError { reason }) && reason@ == "Too many entries"@
        &&& after@ == before@
        &&& after.next_id() == before.next_id()
    }
}

/// Whether two optional ids are the same.
fn same_id(a: Option<u64>, b: Option<u64>) -> (same: bool)
    ensures
        same == (a == b),
{
    match a {
        Some(x) => match b {
            Some(y) => x == y,
            None => false,
        },
        None => match b {
            Some(_) => false,
            None => true,
        },
    }
}

impl XarBuilder {
    /// The id that the next entry gets.
    pub closed spec fn next_id(&self) -> u64 {
        self.next_id
    }

    /// A builder without entries. Ids start at 1.
    pub fn new() -> (builder: Self)
        ensures
            builder@ == Seq::<XarEntryView>::empty(),
            builder.next_id() == 1,
    {
        let builder = Self { entries: Vec::new(), next_id: 1 };
        assert(builder@ =~= Seq::<XarEntryView>::empty());
        builder
    }

    /// Adds an entry under the id `self.next_id`.
    fn add_entry(&mut self, path: &str, entry_type: EntryType, data: Vec<u8>) -> (result: Result<
        (),
        PackageError,
    >)
        ensures
            entry_added(*old(self), *final(self), result, path@, entry_type == EntryType::File, data@),
    {
        if self.next_id == u64::MAX {
            return Err(PackageError::XarError { reason: String::from_str("Too many entries") });
        }
        let chars = chars_of(path);
        let name = match find_last(&chars, '/') {
            Some(slash) => slice_text(path, slash + 1, chars.len()),
            None => String::from_str(path),
        };
        proof {
            lemma_last_index_of(path@, '/');
            assert(name@ =~= base_name(path@));
        }
        let parent_id = self.find_parent_id(path);
        let entry = XarEntry {
            name,
            path: String::from_str(path),
            entry_type,
            data,
            offset: 0,
            checksum: String::new(),
            id: self.next_id,
            parent_id,
        };
        self.entries.push(entry);
        self.next_id += 1;
        assert(self@ =~= old(self)@.push(entry@));
        Ok(())
    }

    /// Add a file to the archive. Its parent is the directory that was added
    /// under the path before the last `/`, if there is one.
    ///
    /// Fails only where the ids are used up.
    pub fn add_file(&mut self, path: &str, data: Vec<u8>) -> (result: Result<(), PackageError>)
        ensures
            entry_added(*old(self), *final(self), result, path@, true, data@),
    {
        self.add_entry(path, EntryType::File, data)
    }

    /// Add a directory to the archive.
    ///
    /// Fails only where the ids are used up.
    pub fn add_directory(&mut self, path: &str) -> (result: Result<(), PackageError>)
        ensures
            entry_added(*old(self), *final(self), result, path@, false, Seq::<u8>::empty()),
    {
        self.add_entry(path, EntryType::Directory, Vec::new())
    }

    /// Find the id of the parent directory of a path.
    pub fn find_parent_id(&self, path: &str) -> (id: Option<u64>)
        ensures
            id == parent_id_of(self@, path@),
    {
        let chars = chars_of(path);
        match find_last(&chars, '/') {
            None => None,
            Some(slash) => {
                let parent_path = slice_text(path, 0, slash);
                let mut i: usize = 0;
                while i < self.entries.len()
                    invariant
                        i <= self.entries.len(),
                        last_index_of(path@, '/') == slash,
                        parent_path@ == path@.subrange(0, slash as int),
                        find_directory(self@, parent_path@, 0) == find_directory(
                            self@,
                            parent_path@,
                            i as int,
                        ),
                    decreases self.entries.len() - i,
                {
                    let entry = &self.entries[i];
                    assert(self@[i as int] == entry@);
                    let is_directory: bool = match entry.entry_type {
                        EntryType::Directory => true,
                        EntryType::File => false,
                    };
                    if entry.path == parent_path && is_directory {
                        return Some(entry.id);
                    }
                    i += 1;
                }
                None
            },
        }
    }

    /// Compute the SHA-1 of `data`, in hexadecimal.
    pub fn compute_sha1(data: &[u8]) -> (text: String)
        ensures
            text@ == hex_text(sha1_of(data@)),
    {
        let digest = sha1_digest(data);
        hex_encode(digest.as_slice())
    }

    /// Appends the element that says where the checksum of the table stands.
    fn write_toc_checksum(out: &mut String)
        ensures
            final(out)@ == old(out)@ + toc_checksum(),
    {
        reveal_with_fuel(indent, 4);
        let ghost start = out@;
        push_markup_line(out, "    ", "<checksum style=\"sha1\">");
        push_text_element(out, "      ", "offset", "0");
        push_text_element(out, "      ", "size", "20");
        push_markup_line(out, "    ", "</checksum>");
        assert("    "@ =~= indent(2) && "      "@ =~= indent(3)) by {
            reveal_strlit("    ");
            reveal_strlit("      ");
            reveal_strlit("  ");
        }
        assert(out@ =~= start + toc_checksum());
    }

    /// Appends the `<data>` element of a file.
    fn write_data_section(out: &mut String, pad: &str, Ghost(depth): Ghost<nat>, offset: u64, data: &[u8])
        requires
            pad@ == indent(depth),
        ensures
            final(out)@ == old(out)@ + data_section(depth, offset as int, data@),
    {
        let ghost start = out@;
        let inner = deeper(pad, Ghost(depth));
        let checksum = xml_escape(Self::compute_sha1(data).as_str());
        let size = decimal_string(data.len() as u64);
        push_markup_line(out, pad, "<data>");
        push_text_element(out, inner.as_str(), "offset", decimal_string(offset).as_str());
        push_text_element(out, inner.as_str(), "size", size.as_str());
        push_text_element(out, inner.as_str(), "length", size.as_str());
        push_markup_line(out, inner.as_str(), "<extracted-checksum style=\"sha1\">");
        out.append(checksum.as_str());
        out.append("</extracted-checksum>");
        push_markup_line(out, inner.as_str(), "<archived-checksum style=\"sha1\">");
        out.append(checksum.as_str());
        out.append("</archived-checksum>");
        push_markup_line(out, inner.as_str(), "<encoding style=\"application/octet-stream\"/>");
        push_markup_line(out, pad, "</data>");
        reveal(data_section);
        assert(out@ =~= start + data_section(depth, offset as int, data@));
    }

    /// Appends the opening of a `<file>` element, with its name and type.
    fn write_file_opening(out: &mut String, pad: &str, Ghost(depth): Ghost<nat>, entry: &XarEntry)
        requires
            pad@ == indent(depth),
        ensures
            final(out)@ == old(out)@ + file_opening(depth, entry@),
    {
        let ghost start = out@;
        let inner = deeper(pad, Ghost(depth));
        let mut tag = String::from_str("<file id=\"");
        tag.append(decimal_string(entry.id).as_str());
        tag.append("\">");
        push_markup_line(out, pad, tag.as_str());
        push_text_element(out, inner.as_str(), "name", entry.name.as_str());
        let type_str = match entry.entry_type {
            EntryType::File => "file",
            EntryType::Directory => "directory",
        };
        push_text_element(out, inner.as_str(), "type", type_str);
        reveal(file_opening);
        assert(tag@ =~= "<file id=\""@ + decimal_text(entry.id as nat) + "\">"@);
        assert(out@ =~= start + file_opening(depth, entry@));
    }

    /// Appends the `<file>` elements of the entries at or after `from` under
    /// `parent_id`, and returns the heap offset after their files. Fails
    /// where that offset does not fit 64 bits.
    fn write_toc_entries(
        &self,
        out: &mut String,
        parent_id: Option<u64>,
        from: usize,
        heap_offset: u64,
        pad: &str,
        Ghost(depth): Ghost<nat>,
    ) -> (result: Result<u64, PackageError>)
        requires
            pad@ == indent(depth),
        ensures
            match result {
                Ok(end) => {
                    let toc = toc_entries(self@, parent_id, from as int, heap_offset as int, depth);
                    final(out)@ == old(out)@ + toc.0 && end == toc.1
                },
                Err(e) => toc_entries(self@, parent_id, from as int, heap_offset as int, depth).1
                    > u64::MAX && is_heap_too_large(e),
            },
        decreases self.entries.len() - from,
    {
        let ghost whole = toc_entries(self@, parent_id, from as int, heap_offset as int, depth);
        let ghost start = out@;
        let mut current_offset: u64 = heap_offset;
        let mut i: usize = from;
        while i < self.entries.len()
            invariant
                from <= i,
                pad@ == indent(depth),
                whole == toc_entries(self@, parent_id, from as int, heap_offset as int, depth),
                out@ + toc_entries(self@, parent_id, i as int, current_offset as int, depth).0
                    == start + whole.0,
                toc_entries(self@, parent_id, i as int, current_offset as int, depth).1
                    == whole.1,
            decreases self.entries.len() - i,
        {
            let entry = &self.entries[i];
            assert(self@[i as int] == entry@);
            let ghost before = out@;
            let ghost remaining = toc_entries(
                self@,
                parent_id,
                i as int,
                current_offset as int,
                depth,
            );
            if same_id(entry.parent_id, parent_id) {
                let ghost e = self@[i as int];
                let ghost inner = if e.is_file {
                    (
                        data_section(depth + 1, current_offset as int, e.data),
                        current_offset + e.data.len(),
                    )
                } else {
                    toc_entries(self@, Some(e.id), i + 1, current_offset as int, depth + 1)
                };
                proof {
                    lemma_offsets_grow(self@, parent_id, i + 1, inner.1, depth);
                }
                Self::write_file_opening(out, pad, Ghost(depth), entry);
                let inner_pad = deeper(pad, Ghost(depth));
                let after: u64 = match entry.entry_type {
                    EntryType::File => {
                        Self::write_data_section(
                            out,
                            inner_pad.as_str(),
                            Ghost(depth + 1),
                            current_offset,
                            entry.data.as_slice(),
                        );
                        if entry.data.len() as u64 > u64::MAX - current_offset {
                            return Err(make_heap_too_large());
                        }
                        current_offset + entry.data.len() as u64
                    },
                    EntryType::Directory => {
                        match self.write_toc_entries(
                            out,
                            Some(entry.id),
                            i + 1,
                            current_offset,
                            inner_pad.as_str(),
                            Ghost(depth + 1),
                        ) {
                            Ok(end) => end,
                            Err(e) => {
                                return Err(e);
                            },
                        }
                    },
                };
                push_markup_line(out, pad, "</file>");
                current_offset = after;
                assert(out@ + toc_entries(
                    self@,
                    parent_id,
                    i + 1,
                    current_offset as int,
                    depth,
                ).0 =~= before + remaining.0);
            }
            i += 1;
        }
        assert(out@ =~= start + whole.0);
        Ok(current_offset)
    }

    /// Generate the table of contents of the archive.
    ///
    /// Fails only where the heap offsets do not fit 64 bits.
    pub fn generate_toc_xml(&self) -> (result: Result<String, PackageError>)
        ensures
            heap_end(self@) <= u64::MAX ==> (result matches Ok(xml) && xml@ == toc_xml(self@)),
            heap_end(self@) > u64::MAX ==> (result matches Err(e) && is_heap_too_large(e)),
    {
        reveal_with_fuel(indent, 4);
        let mut out = String::from_str("<?xml version=\"1.0\" encoding=\"UTF-8\"?>");
        push_markup_line(&mut out, "", "<xar>");
        push_markup_line(&mut out, "  ", "<toc>");
        Self::write_toc_checksum(&mut out);
        assert(""@ =~= indent(0) && "  "@ =~= indent(1) && "    "@ =~= indent(2)) by {
            reveal_strlit("");
            reveal_strlit("  ");
            reveal_strlit("    ");
        }
        match self.write_toc_entries(&mut out, None, 0, SHA1_SIZE, "    ", Ghost(2)) {
            Ok(_) => {
                push_markup_line(&mut out, "  ", "</toc>");
                push_markup_line(&mut out, "", "</xar>");
                assert(out@ =~= toc_xml(self@));
                Ok(out)
            },
            Err(e) => Err(e),
        }
    }

    /// Appends the data of the files at or after `from` under `parent_id`,
    /// in the order of the table of contents.
    fn write_heap_files(&self, out: &mut Vec<u8>, parent_id: Option<u64>, from: usize)
        ensures
            final(out)@ == old(out)@ + heap_files(self@, parent_id, from as int),
        decreases self.entries.len() - from,
    {
        let ghost whole = heap_files(self@, parent_id, from as int);
        let ghost start = out@;
        let mut i: usize = from;
        while i < self.entries.len()
            invariant
                from <= i,
                out@ + heap_files(self@, parent_id, i as int) == start + whole,
            decreases self.entries.len() - i,
        {
            let entry = &self.entries[i];
            assert(self@[i as int] == entry@);
            let ghost before = out@;
            let ghost remaining = heap_files(self@, parent_id, i as int);
            if same_id(entry.parent_id, parent_id) {
                match entry.entry_type {
                    EntryType::File => {
                        push_bytes(out, entry.data.as_slice());
                    },
                    EntryType::Directory => {
                        self.write_heap_files(out, Some(entry.id), i + 1);
                    },
                }
                assert(out@ + heap_files(self@, parent_id, i + 1) =~= before + remaining);
            }
            i += 1;
        }
        assert(out@ =~= start + whole);
    }

    /// The archive for what the zlib encoder made of the table of contents,
    /// whose length before compression is `toc_length`: the encoder's failure
    /// as a XAR error, else the whole archive. An archive starts with the
    /// magic `xar!`, gives 28 as the header size, 1 as the version and 1
    /// (SHA-1) as the checksum algorithm, and holds the SHA-1 of the
    /// compressed table in the first 20 bytes of its heap. Its length is that
    /// of the header, the compressed table, the checksum and the heap, which
    /// holds every file once where the entries are numbered as a builder
    /// numbers them.
    pub fn archive_from_toc(&self, toc_length: u64, compressed: Result<Vec<u8>, String>) -> (result:
        Result<Vec<u8>, PackageError>)
        ensures
            match compressed {
                Ok(toc) => result matches Ok(archive) && {
                    &&& archive@ == xar_archive(self@, toc_length, toc@)
                    &&& archive@.subrange(0, 4) == xar_magic()
                    &&& archive@.subrange(4, 6) == be16(28)
                    &&& archive@.subrange(6, 8) == be16(1)
                    &&& archive@.subrange(8, 16) == be64(toc@.len() as u64)
                    &&& archive@.subrange(16, 24) == be64(toc_length)
                    &&& archive@.subrange(24, 28) == be32(1)
                    &&& archive@.subrange(28, 28 + toc@.len() as int) == toc@
                    &&& archive@.subrange(28 + toc@.len() as int, 48 + toc@.len() as int) == sha1_of(toc@)
                    &&& archive@.len() == 48 + toc@.len() + heap_files(self@, None, 0).len()
                    &&& is_numbered(self@) ==> archive@.len() == 48 + toc@.len() + files_length(
                        self@,
                        0,
                    )
                },
                Err(why) => result == Err::<Vec<u8>, PackageError>(
                    PackageError::XarError { reason: why },
                ),
            },
    {
        match compressed {
            Err(why) => Err(PackageError::XarError { reason: why }),
            Ok(toc) => {
                let header = XarHeader::new(toc.len() as u64, toc_length);
                let header_bytes = header.to_bytes();
                let mut archive: Vec<u8> = Vec::new();
                push_bytes(&mut archive, header_bytes.as_slice());
                push_bytes(&mut archive, toc.as_slice());
                let toc_checksum = sha1_digest(toc.as_slice());
                push_bytes(&mut archive, toc_checksum.as_slice());
                let ghost head = archive@;
                self.write_heap_files(&mut archive, None, 0);
                proof {
                    let h = xar_header_bytes(toc@.len() as u64, toc_length);
                    assert(h.len() == 28);
                    assert(head =~= h + toc@ + sha1_of(toc@));
                    assert(archive@ =~= xar_archive(self@, toc_length, toc@));
                    assert(archive@.subrange(0, 4) =~= xar_magic());
                    assert(archive@.subrange(4, 6) =~= be16(28));
                    assert(archive@.subrange(6, 8) =~= be16(1));
                    assert(archive@.subrange(8, 16) =~= be64(toc@.len() as u64));
                    assert(archive@.subrange(16, 24) =~= be64(toc_length));
                    assert(archive@.subrange(24, 28) =~= be32(1));
                    assert(archive@.subrange(28, 28 + toc@.len() as int) =~= toc@);
                    assert(archive@.subrange(28 + toc@.len() as int, 48 + toc@.len() as int) =~= sha1_of(toc@));
                    if is_numbered(self@) {
                        lemma_heap_holds_every_file(self@);
                    }
                }
                Ok(archive)
            },
        }
    }

    /// Finish building and return the bytes of the archive.
    ///
    /// Fails where the heap offsets do not fit 64 bits, and where the zlib
    /// encoder fails on the table of contents, with the encoder's failure as
    /// a XAR error. Else the archive comes back, laid out around what the
    /// encoder made of the table.
    pub fn finish(&self) -> (result: Result<Vec<u8>, PackageError>)
        ensures
            heap_end(self@) > u64::MAX ==> (result matches Err(e) && is_heap_too_large(e)),
            heap_end(self@) <= u64::MAX ==> match zlib_outcome(encode_utf8(toc_xml(self@))) {
                Ok(compressed) => result matches Ok(archive) && {
                    &&& archive@ == xar_archive(
                        self@,
                        encode_utf8(toc_xml(self@)).len() as u64,
                        compressed,
                    )
                    &&& archive@.subrange(0, 4) == xar_magic()
                    &&& archive@.subrange(4, 6) == be16(28)
                    &&& archive@.subrange(6, 8) == be16(1)
                    &&& archive@.subrange(8, 16) == be64(compressed.len() as u64)
                    &&& archive@.subrange(16, 24) == be64(encode_utf8(toc_xml(self@)).len() as u64)
                    &&& archive@.subrange(24, 28) == be32(1)
                    &&& archive@.subrange(28, 28 + compressed.len() as int) == compressed
                    &&& archive@.subrange(28 + compressed.len() as int, 48 + compressed.len() as int)
                        == sha1_of(compressed)
                    &&& archive@.len() == 48 + compressed.len() + heap_files(self@, None, 0).len()
                    &&& is_numbered(self@) ==> archive@.len() == 48 + compressed.len()
                        + files_length(self@, 0)
                },
                Err(why) => result matches Err(PackageError::XarError { reason }) && reason@ == why,
            },
    {
        match self.generate_toc_xml() {
            Err(e) => Err(e),
            Ok(toc_xml) => {
                let toc_uncompressed = toc_xml.as_str().as_bytes();
                let compressed = zlib_compress(toc_uncompressed);
                self.archive_from_toc(toc_uncompressed.len() as u64, compressed)
            },
        }
    }
}

/// Whether `e` is the failure of a heap that 64-bit offsets cannot address.
pub open spec fn is_heap_too_large(e: PackageError) -> bool {
    e matches PackageError::XarError { reason } && reason@ == "Heap does not fit 64-bit offsets"@
}

fn make_heap_too_large() -> (e: PackageError)
    ensures
        is_heap_too_large(e),
{
    PackageError::XarError { reason: String::from_str("Heap does not fit 64-bit offsets") }
}

/// The offset after a run of entries is no smaller than the offset before.
proof fn lemma_offsets_grow(
    entries: Seq<XarEntryView>,
    parent: Option<u64>,
    from: int,
    offset: int,
    depth: nat,
)
    requires
        0 <= from,
    ensures
        toc_entries(entries, parent, from, offset, depth).1 >= offset,
{
    lemma_offsets_follow_heap(entries, parent, from, offset, depth);
}

impl Default for XarBuilder {
    fn default() -> (builder: Self)
        ensures
            builder@ == Seq::<XarEntryView>::empty(),
            builder.next_id() == 1,
    {
        Self::new()
    }
}

} // verus!
