//! ZIP archives in memory, through the `zip` crate.

use std::io::{Read, Write};

use vstd::prelude::*;

verus! {

#[verifier::external_type_specification]
#[verifier::external_body]
#[verifier::reject_recursive_types(T)]
pub struct ExCursor<T>(std::io::Cursor<T>);

#[verifier::external_type_specification]
#[verifier::external_body]
#[verifier::reject_recursive_types(R)]
pub struct ExZipArchive<R>(zip::ZipArchive<R>);

/// A ZIP writer of the `zip` crate that collects its archive in memory.
#[verifier::external_body]
pub struct MemoryZipWriter {
    writer: zip::ZipWriter<std::io::Cursor<Vec<u8>>>,
}

/// A ZIP archive that is read from memory.
pub type MemoryZipArchive = zip::ZipArchive<std::io::Cursor<Vec<u8>>>;

/// An entry of an archive: name, content, and whether it is deflated (else
/// it is stored as it is).
pub type ZipEntry = (Seq<char>, Seq<u8>, bool);

/// The entries that were written to a writer, in order. Content that is
/// written goes to the last entry.
pub uninterp spec fn zip_written(writer: MemoryZipWriter) -> Seq<ZipEntry>;

/// Why the `zip` crate's writer, after `written`, refuses to start an entry
/// under `name`, deflated or stored; `None` where it starts the entry.
pub uninterp spec fn zip_start_refusal(
    written: Seq<ZipEntry>,
    name: Seq<char>,
    deflated: bool,
) -> Option<Seq<char>>;

/// Why the `zip` crate's writer, after `written`, refuses `data` as content
/// of the last entry; `None` where it takes the content.
pub uninterp spec fn zip_write_refusal(written: Seq<ZipEntry>, data: Seq<u8>) -> Option<Seq<char>>;

/// What the `zip` crate's writer gives when it ends the archive after
/// `written`: the bytes of the archive, or why it could not end it. Files
/// carry no time of their own: the crate is built without its `time`
/// feature.
pub uninterp spec fn zip_finish_outcome(written: Seq<ZipEntry>) -> Result<Seq<u8>, Seq<char>>;

/// An archive that was ended.
pub open spec fn archived(bytes: Seq<u8>) -> Result<Seq<u8>, Seq<char>> {
    Ok(bytes)
}

/// An archive that could not be ended, with `why` as the reason.
pub open spec fn not_archived(why: Seq<char>) -> Result<Seq<u8>, Seq<char>> {
    Err(why)
}

/// The entries of a writer after content was written to its last entry.
pub open spec fn with_content(entries: Seq<ZipEntry>, data: Seq<u8>) -> Seq<ZipEntry> {
    entries.update(
        entries.len() - 1,
        (entries.last().0, entries.last().1 + data, entries.last().2),
    )
}

/// Why the writer refuses the entry at `index` when the entries before it
/// were written: the refusal to start it, else the refusal of its content,
/// which is written to it in one piece.
pub open spec fn entry_refusal(entries: Seq<ZipEntry>, index: int) -> Option<Seq<char>> {
    let before = entries.subrange(0, index);
    let entry = entries[index];
    match zip_start_refusal(before, entry.0, entry.2) {
        Some(why) => Some(why),
        None => zip_write_refusal(before.push((entry.0, Seq::empty(), entry.2)), entry.1),
    }
}

/// The first refusal of the writer while the first `count` of the entries
/// are written in order; `None` where it takes them all.
pub open spec fn zip_refusal(entries: Seq<ZipEntry>, count: int) -> Option<Seq<char>>
    decreases count,
{
    if count <= 0 || count > entries.len() {
        None
    } else {
        match zip_refusal(entries, count - 1) {
            Some(why) => Some(why),
            None => entry_refusal(entries, count - 1),
        }
    }
}

/// What writing the entries to a new writer, in order, and ending the
/// archive gives: the bytes of the archive, or the first failure.
pub open spec fn zip_outcome(entries: Seq<ZipEntry>) -> Result<Seq<u8>, Seq<char>> {
    match zip_refusal(entries, entries.len() as int) {
        Some(why) => Err(why),
        None => zip_finish_outcome(entries),
    }
}

/// The archive of the entries; empty where the writer fails.
pub open spec fn zip_of(entries: Seq<ZipEntry>) -> Seq<u8> {
    match zip_outcome(entries) {
        Ok(bytes) => bytes,
        Err(_) => Seq::empty(),
    }
}

/// A refusal stays: once the writer has refused an entry, the first refusal
/// is the same however many entries follow.
pub proof fn lemma_refusal_stays(entries: Seq<ZipEntry>, count: int, more: int)
    requires
        0 <= count <= more <= entries.len(),
        zip_refusal(entries, count) is Some,
    ensures
        zip_refusal(entries, more) == zip_refusal(entries, count),
    decreases more - count,
{
    if count < more {
        lemma_refusal_stays(entries, count, more - 1);
    }
}

/// A new writer, by `zip::ZipWriter::new` over an empty buffer. Nothing is
/// written to it yet.
#[verifier::external_body]
pub(crate) fn zip_new() -> (writer: MemoryZipWriter)
    ensures
        zip_written(writer) == Seq::<ZipEntry>::empty(),
{
    MemoryZipWriter { writer: zip::ZipWriter::new(std::io::Cursor::new(Vec::new())) }
}

/// Starts a deflated entry, by `zip::ZipWriter::start_file`. The writer
/// starts it or refuses it, as it does for what was written before and for
/// the name.
#[verifier::external_body]
pub(crate) fn zip_start_deflated(writer: &mut MemoryZipWriter, name: &str) -> (result: Result<
    (),
    String,
>)
    ensures
        match result {
            Ok(()) => zip_start_refusal(zip_written(*old(writer)), name@, true) is None
                && zip_written(*final(writer)) == zip_written(*old(writer)).push(
                (name@, Seq::<u8>::empty(), true),
            ),
            Err(why) => zip_start_refusal(zip_written(*old(writer)), name@, true) == Some(why@),
        },
{
    let options = zip::write::FileOptions::default().compression_method(
        zip::CompressionMethod::Deflated,
    );
    writer.writer.start_file(name, options).map_err(|e| e.to_string())
}

/// Starts a stored entry, by `zip::ZipWriter::start_file`. The writer starts
/// it or refuses it, as it does for what was written before and for the
/// name.
#[verifier::external_body]
pub(crate) fn zip_start_stored(writer: &mut MemoryZipWriter, name: &str) -> (result: Result<
    (),
    String,
>)
    ensures
        match result {
            Ok(()) => zip_start_refusal(zip_written(*old(writer)), name@, false) is None
                && zip_written(*final(writer)) == zip_written(*old(writer)).push(
                (name@, Seq::<u8>::empty(), false),
            ),
            Err(why) => zip_start_refusal(zip_written(*old(writer)), name@, false) == Some(why@),
        },
{
    let options = zip::write::FileOptions::default().compression_method(
        zip::CompressionMethod::Stored,
    );
    writer.writer.start_file(name, options).map_err(|e| e.to_string())
}

/// Writes content to the entry that was started last, by `write_all`. An
/// entry has to be there: the writer takes content for none.
#[verifier::external_body]
pub(crate) fn zip_write(writer: &mut MemoryZipWriter, data: &[u8]) -> (result: Result<(), String>)
    requires
        zip_written(*old(writer)).len() > 0,
    ensures
        match result {
            Ok(()) => zip_write_refusal(zip_written(*old(writer)), data@) is None && zip_written(
                *final(writer),
            ) == with_content(zip_written(*old(writer)), data@),
            Err(why) => zip_write_refusal(zip_written(*old(writer)), data@) == Some(why@),
        },
{
    writer.writer.write_all(data).map_err(|e| e.to_string())
}

/// Ends the archive, by `zip::ZipWriter::finish`, and hands its bytes out.
#[verifier::external_body]
pub(crate) fn zip_finish(writer: MemoryZipWriter) -> (result: Result<Vec<u8>, String>)
    ensures
        match result {
            Ok(bytes) => zip_finish_outcome(zip_written(writer)) == archived(bytes@),
            Err(why) => zip_finish_outcome(zip_written(writer)) == not_archived(why@),
        },
{
    let mut writer = writer;
    writer.writer.finish().map(|cursor| cursor.into_inner()).map_err(|e| e.to_string())
}

/// Why an entry could not be had from an archive.
pub enum ZipReadFailure {
    /// There is no such entry, or it cannot be opened, or it asks for a
    /// password.
    Missing(String),
    /// The content of the entry cannot be read.
    Unreadable(String),
}

/// A failure as a value of the specification.
pub enum ZipReadFailureView {
    Missing(Seq<char>),
    Unreadable(Seq<char>),
}

impl View for ZipReadFailure {
    type V = ZipReadFailureView;

    open spec fn view(&self) -> ZipReadFailureView {
        match self {
            ZipReadFailure::Missing(why) => ZipReadFailureView::Missing(why@),
            ZipReadFailure::Unreadable(why) => ZipReadFailureView::Unreadable(why@),
        }
    }
}

/// The bytes that an archive reads from.
pub uninterp spec fn archive_source(archive: MemoryZipArchive) -> Seq<u8>;

/// What opening `bytes` as an archive gives, by `zip::ZipArchive::new`: the
/// number of its entries, or what is wrong with it.
pub uninterp spec fn zip_listing(bytes: Seq<u8>) -> Result<nat, Seq<char>>;

/// What reading the entry at `index` of the archive `bytes` gives, by
/// `zip::ZipArchive::by_index_decrypt` with an empty password and
/// `read_to_end`: its name and its content, or why it cannot be had.
pub uninterp spec fn zip_entry(bytes: Seq<u8>, index: nat) -> Result<
    (Seq<char>, Seq<u8>),
    ZipReadFailureView,
>;

/// What reading the entry under `name` of the archive `bytes` gives, by
/// `zip::ZipArchive::by_name_decrypt` with an empty password and
/// `read_to_end`.
pub uninterp spec fn zip_named(bytes: Seq<u8>, name: Seq<char>) -> Result<
    Seq<u8>,
    ZipReadFailureView,
>;

/// What reading the entry under `name` of the archive `bytes` as text
/// gives, by `zip::ZipArchive::by_name_decrypt` with an empty password and
/// `read_to_string`.
pub uninterp spec fn zip_text(bytes: Seq<u8>, name: Seq<char>) -> Result<
    Seq<char>,
    ZipReadFailureView,
>;

/// What came of reading an entry with its name.
pub open spec fn entry_outcome(result: Result<(String, Vec<u8>), ZipReadFailure>) -> Result<
    (Seq<char>, Seq<u8>),
    ZipReadFailureView,
> {
    match result {
        Ok(entry) => Ok((entry.0@, entry.1@)),
        Err(failure) => Err(failure@),
    }
}

/// What came of reading the content of an entry.
pub open spec fn content_outcome(result: Result<Vec<u8>, ZipReadFailure>) -> Result<
    Seq<u8>,
    ZipReadFailureView,
> {
    match result {
        Ok(content) => Ok(content@),
        Err(failure) => Err(failure@),
    }
}

/// What came of reading the text of an entry.
pub open spec fn text_outcome(result: Result<String, ZipReadFailure>) -> Result<
    Seq<char>,
    ZipReadFailureView,
> {
    match result {
        Ok(text) => Ok(text@),
        Err(failure) => Err(failure@),
    }
}

/// An archive with `count` entries.
pub open spec fn listed(count: nat) -> Result<nat, Seq<char>> {
    Ok(count)
}

/// What is no archive, with `why` as what is wrong with it.
pub open spec fn unlisted(why: Seq<char>) -> Result<nat, Seq<char>> {
    Err(why)
}

/// Opens an archive, by `zip::ZipArchive::new`. An archive that opens reads
/// from the bytes given.
#[verifier::external_body]
pub(crate) fn zip_open(bytes: Vec<u8>) -> (result: Result<MemoryZipArchive, String>)
    ensures
        match result {
            Ok(archive) => archive_source(archive) == bytes@ && zip_listing(bytes@) is Ok,
            Err(why) => zip_listing(bytes@) == unlisted(why@),
        },
{
    zip::ZipArchive::new(std::io::Cursor::new(bytes)).map_err(|e| e.to_string())
}

/// The number of entries of an archive, by `zip::ZipArchive::len`.
#[verifier::external_body]
pub(crate) fn zip_len(archive: &MemoryZipArchive) -> (count: usize)
    ensures
        zip_listing(archive_source(*archive)) == listed(count as nat),
{
    archive.len()
}

/// The name and the content of the entry at a position, by
/// `zip::ZipArchive::by_index_decrypt` and `read_to_end`. The password
/// given is empty, and an entry that it does not open counts as missing. The
/// archive goes on reading from the same bytes.
#[verifier::external_body]
pub(crate) fn zip_entry_at(archive: &mut MemoryZipArchive, index: usize) -> (result: Result<
    (String, Vec<u8>),
    ZipReadFailure,
>)
    ensures
        entry_outcome(result) == zip_entry(archive_source(*old(archive)), index as nat),
        archive_source(*final(archive)) == archive_source(*old(archive)),
{
    match archive.by_index_decrypt(index, &[]) {
        Ok(Ok(mut file)) => {
            let mut content = Vec::new();
            match file.read_to_end(&mut content) {
                Ok(_) => Ok((file.name().to_string(), content)),
                Err(e) => Err(ZipReadFailure::Unreadable(e.to_string())),
            }
        },
        Ok(Err(e)) => Err(ZipReadFailure::Missing(e.to_string())),
        Err(e) => Err(ZipReadFailure::Missing(e.to_string())),
    }
}

/// The content of the entry under a name, by
/// `zip::ZipArchive::by_name_decrypt` and `read_to_end`. The password
/// given is empty, and an entry that it does not open counts as missing. The
/// archive goes on reading from the same bytes.
#[verifier::external_body]
pub(crate) fn zip_entry_named(archive: &mut MemoryZipArchive, name: &str) -> (result: Result<
    Vec<u8>,
    ZipReadFailure,
>)
    ensures
        content_outcome(result) == zip_named(archive_source(*old(archive)), name@),
        archive_source(*final(archive)) == archive_source(*old(archive)),
{
    match archive.by_name_decrypt(name, &[]) {
        Ok(Ok(mut file)) => {
            let mut content = Vec::new();
            match file.read_to_end(&mut content) {
                Ok(_) => Ok(content),
                Err(e) => Err(ZipReadFailure::Unreadable(e.to_string())),
            }
        },
        Ok(Err(e)) => Err(ZipReadFailure::Missing(e.to_string())),
        Err(e) => Err(ZipReadFailure::Missing(e.to_string())),
    }
}

/// The text of the entry under a name, by
/// `zip::ZipArchive::by_name_decrypt` and `read_to_string`. The password
/// given is empty, and an entry that it does not open counts as missing. The
/// archive goes on reading from the same bytes.
#[verifier::external_body]
pub(crate) fn zip_text_named(archive: &mut MemoryZipArchive, name: &str) -> (result: Result<
    String,
    ZipReadFailure,
>)
    ensures
        text_outcome(result) == zip_text(archive_source(*old(archive)), name@),
        archive_source(*final(archive)) == archive_source(*old(archive)),
{
    match archive.by_name_decrypt(name, &[]) {
        Ok(Ok(mut file)) => {
            let mut text = String::new();
            match file.read_to_string(&mut text) {
                Ok(_) => Ok(text),
                Err(e) => Err(ZipReadFailure::Unreadable(e.to_string())),
            }
        },
        Ok(Err(e)) => Err(ZipReadFailure::Missing(e.to_string())),
        Err(e) => Err(ZipReadFailure::Missing(e.to_string())),
    }
}

} // verus!
