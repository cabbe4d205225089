//! CPIO archives in the portable ASCII (odc) format, and their gzip framing.
//!
//! A record is a 76-byte header of octal fields, the path with a zero byte,
//! and the file's bytes. Directories get no record of their own.

use std::io::Write;
use std::time::{SystemTime, UNIX_EPOCH};

use flate2::write::GzEncoder;
use flate2::Compression;
use vstd::prelude::*;
use vstd::string::StringExecFns;
use vstd::utf8::encode_utf8;

use crate::bytes::push_bytes;
use crate::models::error::PackageError;
use crate::numerals::{octal_field, push_octal};

verus! {

/// File entry of a CPIO archive: path, data, and permission bits.
pub type CpioEntry = (String, Vec<u8>, u32);

/// What the writer reads of an entry: path bytes, data, and mode.
pub open spec fn entry_view(e: CpioEntry) -> (Seq<u8>, Seq<u8>, u32) {
    (encode_utf8(e.0@), e.1@, e.2)
}

/// The views of a sequence of entries.
pub open spec fn entry_views(entries: Seq<CpioEntry>) -> Seq<(Seq<u8>, Seq<u8>, u32)> {
    Seq::new(entries.len(), |i: int| entry_view(entries[i]))
}

/// User id of every file: root.
pub const ROOT_UID: u32 = 0;

/// Group id of every file: the admin group.
pub const WHEEL_GID: u32 = 80;

/// File-type bits of a regular file.
pub const S_IFREG: u32 = 0o100000;

/// The fields of a header.
pub struct CpioHeader {
    pub dev: u32,
    pub ino: u64,
    pub mode: u32,
    pub uid: u32,
    pub gid: u32,
    pub nlink: u32,
    pub rdev: u32,
    pub mtime: u64,
    pub namesize: u32,
    pub filesize: u64,
}

/// The magic `070707`.
pub open spec fn cpio_magic() -> Seq<u8> {
    seq![0x30u8, 0x37u8, 0x30u8, 0x37u8, 0x30u8, 0x37u8]
}

/// The name of the record that ends an archive, `TRAILER!!!`, with its zero
/// byte.
pub open spec fn trailer_name() -> Seq<u8> {
    seq![0x54u8, 0x52u8, 0x41u8, 0x49u8, 0x4cu8, 0x45u8, 0x52u8, 0x21u8, 0x21u8, 0x21u8, 0u8]
}

/// The header of the file with number `ino`.
pub open spec fn file_header(mode: u32, size: u64, name_len: nat, ino: u64, mtime: u64) -> CpioHeader {
    CpioHeader {
        dev: 0,
        ino,
        mode: S_IFREG | (mode & 0o7777),
        uid: ROOT_UID,
        gid: WHEEL_GID,
        nlink: 1,
        rdev: 0,
        mtime,
        namesize: ((name_len + 1) % 0x1_0000_0000) as u32,
        filesize: size,
    }
}

/// The header of the record that ends an archive.
pub open spec fn trailer_header() -> CpioHeader {
    CpioHeader {
        dev: 0,
        ino: 0,
        mode: 0,
        uid: 0,
        gid: 0,
        nlink: 1,
        rdev: 0,
        mtime: 0,
        namesize: 11,
        filesize: 0,
    }
}

/// The fields of a header as text: each in octal, zero-padded to six digits,
/// and to eleven for the time and the file size.
pub open spec fn header_fields(h: CpioHeader) -> Seq<u8> {
    octal_field(h.dev as nat, 6) + octal_field(h.ino as nat, 6) + octal_field(h.mode as nat, 6)
        + octal_field(h.uid as nat, 6) + octal_field(h.gid as nat, 6) + octal_field(
        h.nlink as nat,
        6,
    ) + octal_field(h.rdev as nat, 6) + octal_field(h.mtime as nat, 11) + octal_field(
        h.namesize as nat,
        6,
    ) + octal_field(h.filesize as nat, 11)
}

/// A header as text: the magic, then the fields.
pub open spec fn header_bytes(h: CpioHeader) -> Seq<u8> {
    cpio_magic() + header_fields(h)
}

/// What follows the header in the record of a file: path, zero byte, data.
pub open spec fn record_body(e: (Seq<u8>, Seq<u8>, u32)) -> Seq<u8> {
    e.0 + seq![0u8] + e.1
}

/// The record of one file: header, path, zero byte, data.
pub open spec fn file_record(e: (Seq<u8>, Seq<u8>, u32), ino: u64, mtime: u64) -> Seq<u8> {
    header_bytes(file_header(e.2, e.1.len() as u64, e.0.len(), ino, mtime)) + record_body(e)
}

/// The records of the first `k` entries, numbered from 1.
pub open spec fn file_records(entries: Seq<(Seq<u8>, Seq<u8>, u32)>, k: int, mtime: u64) -> Seq<u8>
    decreases k,
{
    if k <= 0 {
        Seq::empty()
    } else {
        file_records(entries, k - 1, mtime) + file_record(entries[k - 1], k as u64, mtime)
    }
}

/// The record that ends an archive.
pub open spec fn trailer_record() -> Seq<u8> {
    header_bytes(trailer_header()) + trailer_name()
}

/// The archive of the entries: one record each, in order, then the trailer.
pub open spec fn cpio_archive(entries: Seq<(Seq<u8>, Seq<u8>, u32)>, mtime: u64) -> Seq<u8> {
    file_records(entries, entries.len() as int, mtime) + trailer_record()
}

impl CpioHeader {
    /// The header of a file, with `mtime` as its time of modification.
    pub fn for_file(mode: u32, size: u64, name_len: usize, ino: u64, mtime: u64) -> (header: Self)
        ensures
            header == file_header(mode, size, name_len as nat, ino, mtime),
    {
        CpioHeader {
            dev: 0,
            ino,
            mode: S_IFREG | (mode & 0o7777),
            uid: ROOT_UID,
            gid: WHEEL_GID,
            nlink: 1,
            rdev: 0,
            mtime,
            namesize: ((name_len as u128 + 1) % 0x1_0000_0000) as u32,
            filesize: size,
        }
    }

    /// The header of the record that ends an archive.
    pub fn trailer() -> (header: Self)
        ensures
            header == trailer_header(),
    {
        CpioHeader {
            dev: 0,
            ino: 0,
            mode: 0,
            uid: 0,
            gid: 0,
            nlink: 1,
            rdev: 0,
            mtime: 0,
            namesize: 11,
            filesize: 0,
        }
    }

    /// The header as ASCII text.
    pub fn to_bytes(&self) -> (bytes: Vec<u8>)
        ensures
            bytes@ == header_bytes(*self),
    {
        let mut fields: Vec<u8> = Vec::new();
        push_octal(&mut fields, self.dev as u128, 6);
        push_octal(&mut fields, self.ino as u128, 6);
        push_octal(&mut fields, self.mode as u128, 6);
        push_octal(&mut fields, self.uid as u128, 6);
        push_octal(&mut fields, self.gid as u128, 6);
        push_octal(&mut fields, self.nlink as u128, 6);
        push_octal(&mut fields, self.rdev as u128, 6);
        push_octal(&mut fields, self.mtime as u128, 11);
        push_octal(&mut fields, self.namesize as u128, 6);
        push_octal(&mut fields, self.filesize as u128, 11);
        assert(fields@ =~= header_fields(*self));
        let mut bytes: Vec<u8> = Vec::new();
        bytes.push(0x30u8);
        bytes.push(0x37u8);
        bytes.push(0x30u8);
        bytes.push(0x37u8);
        bytes.push(0x30u8);
        bytes.push(0x37u8);
        assert(bytes@ =~= cpio_magic());
        push_bytes(&mut bytes, fields.as_slice());
        bytes
    }
}

/// Seconds since the Unix epoch by the system clock, `SystemTime::now`; 0
/// where the clock stands before the epoch. Nothing is claimed of the value.
#[verifier::external_body]
pub(crate) fn unix_time_now() -> (seconds: u64) {
    match SystemTime::now().duration_since(UNIX_EPOCH) {
        Ok(elapsed) => elapsed.as_secs(),
        Err(_) => 0,
    }
}

/// Create a CPIO archive whose files carry `mtime` as their time of
/// modification.
pub fn create_cpio_archive_at(entries: &[CpioEntry], mtime: u64) -> (result: Result<
    Vec<u8>,
    PackageError,
>)
    ensures
        result matches Ok(output) && output@ == cpio_archive(entry_views(entries@), mtime),
{
    let ghost ev = entry_views(entries@);
    let mut output: Vec<u8> = Vec::new();
    let mut i: usize = 0;
    while i < entries.len()
        invariant
            i <= entries.len(),
            ev == entry_views(entries@),
            output@ == file_records(ev, i as int, mtime),
        decreases entries.len() - i,
    {
        let entry = &entries[i];
        let path = entry.0.as_str().as_bytes();
        let header = CpioHeader::for_file(
            entry.2,
            entry.1.len() as u64,
            path.len(),
            i as u64 + 1,
            mtime,
        );
        let mut record = header.to_bytes();
        let mut body: Vec<u8> = Vec::new();
        push_bytes(&mut body, path);
        body.push(0u8);
        push_bytes(&mut body, entry.1.as_slice());
        assert(body@ =~= record_body(ev[i as int]));
        push_bytes(&mut record, body.as_slice());
        assert(record@ == file_record(ev[i as int], (i + 1) as u64, mtime));
        push_bytes(&mut output, record.as_slice());
        i += 1;
    }
    let trailer = CpioHeader::trailer();
    let trailer_text = trailer.to_bytes();
    push_bytes(&mut output, trailer_text.as_slice());
    push_trailer_name(&mut output);
    Ok(output)
}

/// Appends `TRAILER!!!` and its zero byte.
fn push_trailer_name(output: &mut Vec<u8>)
    ensures
        final(output)@ == old(output)@ + trailer_name(),
{
    output.push(0x54u8);
    output.push(0x52u8);
    output.push(0x41u8);
    output.push(0x49u8);
    output.push(0x4cu8);
    output.push(0x45u8);
    output.push(0x52u8);
    output.push(0x21u8);
    output.push(0x21u8);
    output.push(0x21u8);
    output.push(0u8);
    assert(output@ =~= old(output)@ + trailer_name());
}

/// Create a CPIO archive in odc format, stamped with the current time.
///
/// Each entry is (path, data, mode). Files get uid 0 and gid 80.
pub fn create_cpio_archive(entries: &[CpioEntry]) -> (result: Result<Vec<u8>, PackageError>)
    ensures
        result matches Ok(output) && exists|mtime: u64|
            output@ == cpio_archive(entry_views(entries@), mtime),
{
    let mtime: u64 = unix_time_now();
    create_cpio_archive_at(entries, mtime)
}

/// Create a CPIO archive with records for directories. Not supported: every
/// call fails.
pub fn create_cpio_archive_with_dirs(_entries: &[(String, u32, bool)]) -> (result: Result<
    Vec<u8>,
    PackageError,
>)
    ensures
        result matches Err(PackageError::CpioError { reason }) && reason@
            == "Directory support not yet implemented"@,
{
    Err(PackageError::CpioError { reason: String::from_str("Directory support not yet implemented") })
}

/// What `flate2`'s gzip encoder, at its default level, gives for `data`: the
/// stream, or why it failed.
pub uninterp spec fn gzip_outcome(data: Seq<u8>) -> Result<Seq<u8>, Seq<char>>;

/// A stream that an encoder made.
pub open spec fn encoded(stream: Seq<u8>) -> Result<Seq<u8>, Seq<char>> {
    Ok(stream)
}

/// The failure of an encoder, with `why` as its reason.
pub open spec fn not_encoded(why: Seq<char>) -> Result<Seq<u8>, Seq<char>> {
    Err(why)
}

/// The gzip stream of `data`; empty where the encoder fails.
pub open spec fn gzip_of(data: Seq<u8>) -> Seq<u8> {
    match gzip_outcome(data) {
        Ok(stream) => stream,
        Err(_) => Seq::empty(),
    }
}

/// Compresses `data` into a single gzip member with `flate2`'s `GzEncoder` at
/// the default level. What comes back is the encoder's outcome for `data`. A
/// stream starts with the gzip magic `1f 8b`, as the encoder's header has it.
#[verifier::external_body]
fn gzip_compress(data: &[u8]) -> (result: Result<Vec<u8>, String>)
    ensures
        match result {
            Ok(out) => gzip_outcome(data@) == encoded(out@) && out@.len() >= 2 && out@[0] == 0x1f
                && out@[1] == 0x8b,
            Err(why) => gzip_outcome(data@) == not_encoded(why@),
        },
{
    let mut encoder = GzEncoder::new(Vec::new(), Compression::default());
    match encoder.write_all(data) {
        Ok(()) => encoder.finish().map_err(|e| e.to_string()),
        Err(e) => Err(e.to_string()),
    }
}

/// The payload for what the gzip encoder returned: its stream, or its failure
/// as a CPIO error.
pub fn payload_from_gzip(compressed: Result<Vec<u8>, String>) -> (result: Result<
    Vec<u8>,
    PackageError,
>)
    ensures
        match compressed {
            Ok(stream) => result == Ok::<Vec<u8>, PackageError>(stream),
            Err(why) => result == Err::<Vec<u8>, PackageError>(
                PackageError::CpioError { reason: why },
            ),
        },
{
    match compressed {
        Ok(stream) => Ok(stream),
        Err(why) => Err(PackageError::CpioError { reason: why }),
    }
}

/// Whether `payload` is the gzip stream of the archive of `entries` stamped
/// with `mtime`.
pub open spec fn is_payload_of(
    payload: Seq<u8>,
    entries: Seq<(Seq<u8>, Seq<u8>, u32)>,
    mtime: u64,
) -> bool {
    &&& gzip_outcome(cpio_archive(entries, mtime)) == encoded(payload)
    &&& payload.len() >= 2
    &&& payload[0] == 0x1f
    &&& payload[1] == 0x8b
}

/// Whether `result` is what building the payload of `entries` stamped with
/// `mtime` gives: the payload where the gzip encoder succeeds on the
/// archive, else the encoder's failure as a CPIO error.
pub open spec fn is_payload_result(
    result: Result<Vec<u8>, PackageError>,
    entries: Seq<(Seq<u8>, Seq<u8>, u32)>,
    mtime: u64,
) -> bool {
    match gzip_outcome(cpio_archive(entries, mtime)) {
        Ok(_) => result matches Ok(payload) && is_payload_of(payload@, entries, mtime),
        Err(why) => result matches Err(PackageError::CpioError { reason }) && reason@ == why,
    }
}

/// Create a gzip-compressed CPIO payload whose files carry `mtime`.
///
/// The payload is the gzip stream of the archive. The call fails only
/// where the encoder does, with its failure as a CPIO error.
pub fn create_payload_at(entries: &[CpioEntry], mtime: u64) -> (result: Result<
    Vec<u8>,
    PackageError,
>)
    ensures
        is_payload_result(result, entry_views(entries@), mtime),
{
    match create_cpio_archive_at(entries, mtime) {
        Ok(cpio_data) => payload_from_gzip(gzip_compress(cpio_data.as_slice())),
        Err(e) => Err(e),
    }
}

/// Create a gzip-compressed CPIO payload, stamped with the current time.
pub fn create_payload(entries: &[CpioEntry]) -> (result: Result<Vec<u8>, PackageError>)
    ensures
        exists|mtime: u64| is_payload_result(result, entry_views(entries@), mtime),
{
    let mtime: u64 = unix_time_now();
    create_payload_at(entries, mtime)
}

/// What starts with the magic still starts with it when more follows.
proof fn lemma_starts_with_magic(rest: Seq<u8>, more: Seq<u8>)
    ensures
        (cpio_magic() + rest + more).len() >= 6,
        (cpio_magic() + rest + more).subrange(0, 6) == cpio_magic(),
        (cpio_magic() + rest).subrange(0, 6) == cpio_magic(),
{
    assert((cpio_magic() + rest + more).subrange(0, 6) =~= cpio_magic());
    assert((cpio_magic() + rest).subrange(0, 6) =~= cpio_magic());
}

/// What starts with six bytes still starts with them when more follows.
proof fn lemma_start_stays(start: Seq<u8>, more: Seq<u8>)
    requires
        start.len() >= 6,
    ensures
        (start + more).subrange(0, 6) == start.subrange(0, 6),
{
    assert((start + more).subrange(0, 6) =~= start.subrange(0, 6));
}

/// What ends with the trailer's name.
proof fn lemma_ends_with_name(start: Seq<u8>, name: Seq<u8>)
    ensures
        (start + name).subrange((start + name).len() - name.len(), (start + name).len() as int)
            == name,
{
    let whole = start + name;
    assert(whole.subrange(whole.len() - name.len(), whole.len() as int) =~= name);
}

proof fn lemma_records_start(entries: Seq<(Seq<u8>, Seq<u8>, u32)>, k: int, mtime: u64)
    requires
        0 <= k,
    ensures
        k == 0 ==> file_records(entries, k, mtime).len() == 0,
        k > 0 ==> file_records(entries, k, mtime).len() >= 6 && file_records(
            entries,
            k,
            mtime,
        ).subrange(0, 6) == cpio_magic(),
    decreases k,
{
    if k > 0 {
        lemma_records_start(entries, k - 1, mtime);
        let before = file_records(entries, k - 1, mtime);
        let e = entries[k - 1];
        let fields = header_fields(file_header(e.2, e.1.len() as u64, e.0.len(), k as u64, mtime));
        let record = cpio_magic() + fields + record_body(e);
        assert(file_record(e, k as u64, mtime) == record);
        lemma_starts_with_magic(fields, record_body(e));
        if k == 1 {
            assert(before + record =~= record);
        } else {
            lemma_start_stays(before, record);
        }
    }
}

/// Every archive starts with the magic `070707` and ends with the name
/// `TRAILER!!!` and its zero byte.
pub proof fn lemma_cpio_shape(entries: Seq<(Seq<u8>, Seq<u8>, u32)>, mtime: u64)
    ensures
        ({
            let archive = cpio_archive(entries, mtime);
            &&& archive.len() >= 17
            &&& archive.subrange(0, 6) == cpio_magic()
            &&& archive.subrange(archive.len() - 11, archive.len() as int) == trailer_name()
        }),
{
    let records = file_records(entries, entries.len() as int, mtime);
    let trailer = cpio_magic() + header_fields(trailer_header());
    lemma_records_start(entries, entries.len() as int, mtime);
    assert(trailer_name().len() == 11);
    assert(cpio_archive(entries, mtime) =~= (records + trailer) + trailer_name());
    lemma_ends_with_name(records + trailer, trailer_name());
    lemma_starts_with_magic(header_fields(trailer_header()), trailer_name());
    if entries.len() == 0 {
        assert(records + trailer =~= trailer);
    } else {
        lemma_start_stays(records, trailer);
        lemma_start_stays(records + trailer, trailer_name());
    }
}

} // verus!
