//! `Detection.xml`: the metadata document of an `.intunewin` package.
//!
//! The document has no XML declaration, two spaces of indentation per level
//! and CRLF line ends. Reading it back goes through the events of
//! `quick_xml`'s reader.

use vstd::prelude::*;
use vstd::string::{StrSliceExecFns, StringExecFns};

use crate::models::detection::{
    base64_of, blank_info, secret_of, DetectionMetadata, DetectionView,
    EncryptionInfo, EncryptionInfoView,
};
use crate::models::error::{PackageError, PackageResult};
use crate::numerals::{
    decimal_string, decimal_text, failure_message, failure_text, number_of, parse_number,
};
use crate::text::{replace_char, replaced};
use crate::xml_text::{indent, xml_escape, xml_escaped};

verus! {

// ---------------------------------------------------------------------------
// Writing
// ---------------------------------------------------------------------------

/// The opening tag of the root element, with the version of the tool that
/// the document says it comes from.
pub open spec fn root_opening() -> Seq<char> {
    "<ApplicationInfo xmlns:xsd=\"http://www.w3.org/2001/XMLSchema\" xmlns:xsi=\"http://www.w3.org/2001/XMLSchema-instance\" ToolVersion=\"1.8.6.0\">"@
}

/// `text` with every line feed replaced by a carriage return and a line feed.
pub open spec fn with_crlf(text: Seq<char>) -> Seq<char> {
    replaced(text, '\n', "\r\n"@)
}

/// An element with text on a line of its own, after a CRLF and the
/// indentation `pad`. The text is escaped, and its own line feeds become
/// CRLF like every other.
#[verifier::opaque]
pub open spec fn element_line(pad: Seq<char>, name: Seq<char>, text: Seq<char>) -> Seq<char> {
    "\r\n"@ + pad + "<"@ + name + ">"@ + with_crlf(xml_escaped(text)) + "</"@ + name + ">"@
}

/// A tag on a line of its own, after a CRLF and the indentation `pad`.
#[verifier::opaque]
pub open spec fn tag_line(pad: Seq<char>, tag: Seq<char>) -> Seq<char> {
    "\r\n"@ + pad + tag
}

/// The `<EncryptionInfo>` element: the secrets in Base64 and the two fixed
/// names, in their fixed order.
pub open spec fn encryption_element(info: EncryptionInfoView) -> Seq<char> {
    tag_line(indent(1), "<EncryptionInfo>"@) + element_line(
        indent(2),
        "EncryptionKey"@,
        base64_of(info.encryption_key),
    ) + element_line(indent(2), "MacKey"@, base64_of(info.mac_key)) + element_line(
        indent(2),
        "InitializationVector"@,
        base64_of(info.iv),
    ) + element_line(indent(2), "Mac"@, base64_of(info.mac)) + element_line(
        indent(2),
        "ProfileIdentifier"@,
        info.profile_identifier,
    ) + element_line(indent(2), "FileDigest"@, base64_of(info.file_digest)) + element_line(
        indent(2),
        "FileDigestAlgorithm"@,
        info.file_digest_algorithm,
    ) + tag_line(indent(1), "</EncryptionInfo>"@)
}

/// The document: the root element, without a declaration before it, with its
/// children `Name`, `UnencryptedContentSize`, `FileName`, `SetupFile` and
/// `EncryptionInfo`, in this order, one to a line, and CRLF between the
/// lines.
pub open spec fn detection_xml(metadata: DetectionView) -> Seq<char> {
    root_opening() + element_line(indent(1), "Name"@, metadata.name) + element_line(
        indent(1),
        "UnencryptedContentSize"@,
        decimal_text(metadata.unencrypted_content_size as nat),
    ) + element_line(indent(1), "FileName"@, metadata.file_name) + element_line(
        indent(1),
        "SetupFile"@,
        metadata.setup_file,
    ) + encryption_element(metadata.encryption_info) + tag_line(indent(0), "</ApplicationInfo>"@)
}

/// Appends an element with text on a line of its own.
fn push_element_line(out: &mut String, pad: &str, name: &str, text: &str)
    ensures
        final(out)@ == old(out)@ + element_line(pad@, name@, text@),
{
    out.append("\r\n");
    out.append(pad);
    out.append("<");
    out.append(name);
    out.append(">");
    let escaped = xml_escape(text);
    out.append(replace_char(escaped.as_str(), '\n', "\r\n").as_str());
    out.append("</");
    out.append(name);
    out.append(">");
    reveal(element_line);
    assert(out@ =~= old(out)@ + element_line(pad@, name@, text@));
}

/// Appends a tag on a line of its own.
fn push_tag_line(out: &mut String, pad: &str, tag: &str)
    ensures
        final(out)@ == old(out)@ + tag_line(pad@, tag@),
{
    out.append("\r\n");
    out.append(pad);
    out.append(tag);
    reveal(tag_line);
    assert(out@ =~= old(out)@ + tag_line(pad@, tag@));
}

/// Appends the `<EncryptionInfo>` element.
fn push_encryption_element(out: &mut String, info: &EncryptionInfo)
    ensures
        final(out)@ == old(out)@ + encryption_element(info@),
{
    reveal_with_fuel(indent, 3);
    assert("  "@ =~= indent(1) && "    "@ =~= indent(2)) by {
        reveal_strlit("  ");
        reveal_strlit("    ");
    }
    let ghost start = out@;
    push_tag_line(out, "  ", "<EncryptionInfo>");
    push_element_line(out, "    ", "EncryptionKey", info.encryption_key_base64().as_str());
    push_element_line(out, "    ", "MacKey", info.mac_key_base64().as_str());
    push_element_line(out, "    ", "InitializationVector", info.iv_base64().as_str());
    push_element_line(out, "    ", "Mac", info.mac_base64().as_str());
    push_element_line(out, "    ", "ProfileIdentifier", info.profile_identifier.as_str());
    push_element_line(out, "    ", "FileDigest", info.file_digest_base64().as_str());
    push_element_line(out, "    ", "FileDigestAlgorithm", info.file_digest_algorithm.as_str());
    push_tag_line(out, "  ", "</EncryptionInfo>");
    assert(out@ =~= start + encryption_element(info@));
}

/// Generate the content of `Detection.xml`.
///
/// The format is that of the Microsoft Win32 Content Prep Tool: no XML
/// declaration, the tool version on the root element, two spaces of
/// indentation, CRLF line ends.
pub fn generate_detection_xml(metadata: &DetectionMetadata) -> (result: PackageResult<String>)
    ensures
        result matches Ok(xml) && xml@ == detection_xml(metadata@),
{
    reveal_with_fuel(indent, 2);
    assert(""@ =~= indent(0) && "  "@ =~= indent(1)) by {
        reveal_strlit("");
        reveal_strlit("  ");
    }
    let mut out = String::from_str(
        "<ApplicationInfo xmlns:xsd=\"http://www.w3.org/2001/XMLSchema\" xmlns:xsi=\"http://www.w3.org/2001/XMLSchema-instance\" ToolVersion=\"1.8.6.0\">",
    );
    push_element_line(&mut out, "  ", "Name", metadata.name.as_str());
    push_element_line(
        &mut out,
        "  ",
        "UnencryptedContentSize",
        decimal_string(metadata.unencrypted_content_size).as_str(),
    );
    push_element_line(&mut out, "  ", "FileName", metadata.file_name.as_str());
    push_element_line(&mut out, "  ", "SetupFile", metadata.setup_file.as_str());
    push_encryption_element(&mut out, &metadata.encryption_info);
    push_tag_line(&mut out, "", "</ApplicationInfo>");
    assert(out@ =~= detection_xml(metadata@));
    Ok(out)
}

/// The document starts with the opening tag of its root element,
/// `<ApplicationInfo`, so there is no declaration before it; and the tag
/// gives `1.8.6.0` as the version of the tool.
pub proof fn lemma_detection_xml_starts_with_root(metadata: DetectionView)
    ensures
        detection_xml(metadata).len() >= root_opening().len(),
        detection_xml(metadata).subrange(0, root_opening().len() as int) == root_opening(),
        root_opening().len() == 138,
        root_opening().subrange(0, 16) == "<ApplicationInfo"@,
        root_opening().subrange(116, 138) == "ToolVersion=\"1.8.6.0\">"@,
{
    let document = detection_xml(metadata);
    assert(document.subrange(0, root_opening().len() as int) =~= root_opening());
    reveal_strlit(
        "<ApplicationInfo xmlns:xsd=\"http://www.w3.org/2001/XMLSchema\" xmlns:xsi=\"http://www.w3.org/2001/XMLSchema-instance\" ToolVersion=\"1.8.6.0\">",
    );
    reveal_strlit("<ApplicationInfo");
    reveal_strlit("ToolVersion=\"1.8.6.0\">");
    assert(root_opening().subrange(0, 16) =~= "<ApplicationInfo"@);
    assert(root_opening().subrange(116, 138) =~= "ToolVersion=\"1.8.6.0\">"@);
}

// ---------------------------------------------------------------------------
// The events of the reader
// ---------------------------------------------------------------------------

/// An event of the XML reader, as far as the document is concerned.
#[derive(Debug, Clone)]
pub enum XmlToken {
    /// An opening tag, with its name.
    Start(String),
    /// Text, trimmed and with its entities resolved.
    Text(String),
    /// Text whose entities do not resolve, with what is wrong.
    BadText(String),
    /// A closing tag.
    End,
    /// Anything else: a declaration, an empty element, a comment.
    Other,
    /// Malformed input, with what is wrong. Nothing is read after it.
    Broken(String),
    /// The end of the input.
    Eof,
}

/// An event as a value of the specification.
pub enum XmlTokenView {
    Start(Seq<char>),
    Text(Seq<char>),
    BadText(Seq<char>),
    End,
    Other,
    Broken(Seq<char>),
    Eof,
}

impl View for XmlToken {
    type V = XmlTokenView;

    open spec fn view(&self) -> XmlTokenView {
        match self {
            XmlToken::Start(name) => XmlTokenView::Start(name@),
            XmlToken::Text(text) => XmlTokenView::Text(text@),
            XmlToken::BadText(why) => XmlTokenView::BadText(why@),
            XmlToken::End => XmlTokenView::End,
            XmlToken::Other => XmlTokenView::Other,
            XmlToken::Broken(why) => XmlTokenView::Broken(why@),
            XmlToken::Eof => XmlTokenView::Eof,
        }
    }
}

/// The views of a sequence of events.
pub open spec fn token_views(tokens: Seq<XmlToken>) -> Seq<XmlTokenView> {
    Seq::new(tokens.len(), |i: int| tokens[i]@)
}

#[verifier::external_type_specification]
#[verifier::external_body]
#[verifier::reject_recursive_types(R)]
pub struct ExReader<R>(quick_xml::Reader<R>);

/// The events that `quick_xml`'s reader, set to trim text, yields for a
/// document, up to the end of the input or to the first malformed piece.
pub uninterp spec fn xml_tokens(text: Seq<char>) -> Seq<XmlTokenView>;

/// The events that a reader has yet to yield, up to the end of its input or
/// to the first malformed piece.
pub uninterp spec fn pending_tokens(reader: quick_xml::Reader<&[u8]>) -> Seq<XmlTokenView>;

/// A reader over `xml`, by `quick_xml::Reader::from_str`, set to trim the
/// white space around text.
#[verifier::external_body]
fn open_reader<'a>(xml: &'a str) -> (reader: quick_xml::Reader<&'a [u8]>)
    ensures
        pending_tokens(reader) == xml_tokens(xml@),
{
    let mut reader = quick_xml::Reader::from_str(xml);
    reader.trim_text(true);
    reader
}

/// The next event of the reader, by `quick_xml::Reader::read_event`: the
/// first of those it has yet to yield, and the end of the input once there
/// is none. The name of an opening tag and the text come as strings.
#[verifier::external_body]
fn next_token(reader: &mut quick_xml::Reader<&[u8]>) -> (token: XmlToken)
    ensures
        pending_tokens(*old(reader)).len() == 0 ==> token is Eof && pending_tokens(
            *final(reader),
        ).len() == 0,
        pending_tokens(*old(reader)).len() > 0 ==> !(token is Eof) && token@ == pending_tokens(
            *old(reader),
        )[0],
        pending_tokens(*old(reader)).len() > 0 && token is Broken ==> pending_tokens(
            *old(reader),
        ).len() == 1,
        pending_tokens(*old(reader)).len() > 0 && !(token is Broken) ==> pending_tokens(
            *final(reader),
        ) == pending_tokens(*old(reader)).drop_first(),
{
    match reader.read_event() {
        Ok(quick_xml::events::Event::Start(e)) => XmlToken::Start(
            String::from_utf8_lossy(e.name().as_ref()).to_string(),
        ),
        Ok(quick_xml::events::Event::Text(e)) => match e.unescape() {
            Ok(text) => XmlToken::Text(text.to_string()),
            Err(why) => XmlToken::BadText(why.to_string()),
        },
        Ok(quick_xml::events::Event::End(_)) => XmlToken::End,
        Ok(quick_xml::events::Event::Eof) => XmlToken::Eof,
        Ok(_) => XmlToken::Other,
        Err(why) => XmlToken::Broken(why.to_string()),
    }
}

/// The events of a document, up to the end of the input or to the first
/// malformed piece.
pub fn read_tokens(xml: &str) -> (tokens: Vec<XmlToken>)
    ensures
        token_views(tokens@) == xml_tokens(xml@),
{
    let mut reader = open_reader(xml);
    let mut tokens: Vec<XmlToken> = Vec::new();
    assert(token_views(tokens@) + pending_tokens(reader) =~= xml_tokens(xml@));
    loop
        invariant_except_break
            token_views(tokens@) + pending_tokens(reader) == xml_tokens(xml@),
        ensures
            token_views(tokens@) == xml_tokens(xml@),
        decreases pending_tokens(reader).len(),
    {
        let ghost before = token_views(tokens@);
        let ghost pending = pending_tokens(reader);
        let token = next_token(&mut reader);
        match token {
            XmlToken::Eof => {
                assert(before + pending =~= before);
                break ;
            },
            XmlToken::Broken(_) => {
                tokens.push(token);
                assert(token_views(tokens@) =~= before + pending);
                break ;
            },
            _ => {
                tokens.push(token);
                assert(token_views(tokens@) + pending_tokens(reader) =~= before + pending);
            },
        }
    }
    tokens
}

// ---------------------------------------------------------------------------
// From events to metadata
// ---------------------------------------------------------------------------

/// What has been read of a document so far.
pub struct Reading {
    pub name: String,
    pub unencrypted_content_size: u64,
    pub file_name: String,
    pub setup_file: String,
    pub encryption_info: EncryptionInfo,
    /// The name of the element that the reader is in; empty after a closing
    /// tag.
    pub current_element: String,
}

/// A `Reading` as a value of the specification.
pub struct ReadingView {
    pub name: Seq<char>,
    pub unencrypted_content_size: u64,
    pub file_name: Seq<char>,
    pub setup_file: Seq<char>,
    pub encryption_info: EncryptionInfoView,
    pub current_element: Seq<char>,
}

impl View for Reading {
    type V = ReadingView;

    open spec fn view(&self) -> ReadingView {
        ReadingView {
            name: self.name@,
            unencrypted_content_size: self.unencrypted_content_size,
            file_name: self.file_name@,
            setup_file: self.setup_file@,
            encryption_info: self.encryption_info@,
            current_element: self.current_element@,
        }
    }
}

/// Nothing read yet: empty names, size 0, blank encryption info.
pub open spec fn blank_reading() -> ReadingView {
    ReadingView {
        name: Seq::empty(),
        unencrypted_content_size: 0,
        file_name: Seq::empty(),
        setup_file: Seq::empty(),
        encryption_info: blank_info(),
        current_element: Seq::empty(),
    }
}

/// The reading after a text inside the current element: the text is taken
/// for the field that the element names, and is ignored inside any other
/// element. A size that is no number and a secret that does not decode to
/// its size end the reading with a message.
pub open spec fn after_text(reading: ReadingView, text: Seq<char>) -> Result<ReadingView, Seq<char>> {
    let element = reading.current_element;
    let info = reading.encryption_info;
    if element == "Name"@ {
        Ok(ReadingView { name: text, ..reading })
    } else if element == "UnencryptedContentSize"@ {
        match number_of(text, u64::MAX as nat) {
            Ok(value) => Ok(ReadingView { unencrypted_content_size: value as u64, ..reading }),
            Err(failure) => Err("Invalid UnencryptedContentSize: "@ + failure_text(failure)),
        }
    } else if element == "FileName"@ {
        Ok(ReadingView { file_name: text, ..reading })
    } else if element == "SetupFile"@ {
        Ok(ReadingView { setup_file: text, ..reading })
    } else if element == "EncryptionKey"@ {
        match secret_of(text, "encryption key"@, "Encryption key"@, 32) {
            Ok(secret) => Ok(
                ReadingView {
                    encryption_info: EncryptionInfoView { encryption_key: secret, ..info },
                    ..reading
                },
            ),
            Err(message) => Err(message),
        }
    } else if element == "MacKey"@ {
        match secret_of(text, "MAC key"@, "MAC key"@, 32) {
            Ok(secret) => Ok(
                ReadingView {
                    encryption_info: EncryptionInfoView { mac_key: secret, ..info },
                    ..reading
                },
            ),
            Err(message) => Err(message),
        }
    } else if element == "InitializationVector"@ {
        match secret_of(text, "IV"@, "IV"@, 16) {
            Ok(secret) => Ok(
                ReadingView { encryption_info: EncryptionInfoView { iv: secret, ..info }, ..reading },
            ),
            Err(message) => Err(message),
        }
    } else if element == "Mac"@ {
        match secret_of(text, "MAC"@, "MAC"@, 32) {
            Ok(secret) => Ok(
                ReadingView { encryption_info: EncryptionInfoView { mac: secret, ..info }, ..reading },
            ),
            Err(message) => Err(message),
        }
    } else if element == "ProfileIdentifier"@ {
        Ok(
            ReadingView {
                encryption_info: EncryptionInfoView { profile_identifier: text, ..info },
                ..reading
            },
        )
    } else if element == "FileDigest"@ {
        match secret_of(text, "file digest"@, "File digest"@, 32) {
            Ok(secret) => Ok(
                ReadingView {
                    encryption_info: EncryptionInfoView { file_digest: secret, ..info },
                    ..reading
                },
            ),
            Err(message) => Err(message),
        }
    } else if element == "FileDigestAlgorithm"@ {
        Ok(
            ReadingView {
                encryption_info: EncryptionInfoView { file_digest_algorithm: text, ..info },
                ..reading
            },
        )
    } else {
        Ok(reading)
    }
}

/// The reading after one more event.
pub open spec fn after_token(reading: ReadingView, token: XmlTokenView) -> Result<
    ReadingView,
    Seq<char>,
> {
    match token {
        XmlTokenView::Start(name) => Ok(ReadingView { current_element: name, ..reading }),
        XmlTokenView::Text(text) => after_text(reading, text),
        XmlTokenView::BadText(why) => Err("Failed to unescape text: "@ + why),
        XmlTokenView::End => Ok(ReadingView { current_element: Seq::empty(), ..reading }),
        XmlTokenView::Other => Ok(reading),
        XmlTokenView::Broken(why) => Err("XML parse error: "@ + why),
        XmlTokenView::Eof => Ok(reading),
    }
}

/// The reading after the first `k` events, or the message of the first event
/// that ends it.
pub open spec fn after_tokens(tokens: Seq<XmlTokenView>, k: int) -> Result<ReadingView, Seq<char>>
    decreases k,
{
    if k <= 0 {
        Ok(blank_reading())
    } else {
        match after_tokens(tokens, k - 1) {
            Ok(reading) => after_token(reading, tokens[k - 1]),
            Err(message) => Err(message),
        }
    }
}

/// The metadata that a sequence of events stands for, or the message on what
/// is wrong: that of the first event that ends the reading, else that a name
/// or a setup file is missing.
pub open spec fn metadata_of(tokens: Seq<XmlTokenView>) -> Result<DetectionView, Seq<char>> {
    match after_tokens(tokens, tokens.len() as int) {
        Err(message) => Err(message),
        Ok(reading) => if reading.name.len() == 0 {
            Err("Missing Name element"@)
        } else if reading.setup_file.len() == 0 {
            Err("Missing SetupFile element"@)
        } else {
            Ok(
                DetectionView {
                    name: reading.name,
                    unencrypted_content_size: reading.unencrypted_content_size,
                    file_name: reading.file_name,
                    setup_file: reading.setup_file,
                    encryption_info: reading.encryption_info,
                },
            )
        },
    }
}

/// Whether `result` is what `outcome` asks for: the metadata, or an XML error
/// with the message.
pub open spec fn reads_as(
    result: PackageResult<DetectionMetadata>,
    outcome: Result<DetectionView, Seq<char>>,
) -> bool {
    match outcome {
        Ok(view) => result matches Ok(metadata) && metadata@ == view,
        Err(message) => result matches Err(PackageError::XmlError { reason }) && reason@ == message,
    }
}

/// Whether `text` is the word `word`.
fn is_word(text: &String, word: &str) -> (same: bool)
    ensures
        same == (text@ == word@),
{
    *text == String::from_str(word)
}

/// `prefix` followed by `rest`.
fn prefixed(prefix: &str, rest: &str) -> (text: String)
    ensures
        text@ == prefix@ + rest@,
{
    let mut text = String::from_str(prefix);
    text.append(rest);
    text
}

/// Takes a text inside the current element into the reading.
fn apply_text(reading: &mut Reading, text: &String) -> (result: Result<(), String>)
    ensures
        match after_text(old(reading)@, text@) {
            Ok(next) => result is Ok && final(reading)@ == next,
            Err(message) => result matches Err(reason) && reason@ == message,
        },
{
    if is_word(&reading.current_element, "Name") {
        reading.name = text.clone();
        Ok(())
    } else if is_word(&reading.current_element, "UnencryptedContentSize") {
        match parse_number(text.as_str(), u64::MAX) {
            Ok(value) => {
                reading.unencrypted_content_size = value;
                Ok(())
            },
            Err(failure) => Err(
                prefixed("Invalid UnencryptedContentSize: ", failure_message(&failure)),
            ),
        }
    } else if is_word(&reading.current_element, "FileName") {
        reading.file_name = text.clone();
        Ok(())
    } else if is_word(&reading.current_element, "SetupFile") {
        reading.setup_file = text.clone();
        Ok(())
    } else if is_word(&reading.current_element, "EncryptionKey") {
        reading.encryption_info.set_encryption_key_from_base64(text.as_str())
    } else if is_word(&reading.current_element, "MacKey") {
        reading.encryption_info.set_mac_key_from_base64(text.as_str())
    } else if is_word(&reading.current_element, "InitializationVector") {
        reading.encryption_info.set_iv_from_base64(text.as_str())
    } else if is_word(&reading.current_element, "Mac") {
        reading.encryption_info.set_mac_from_base64(text.as_str())
    } else if is_word(&reading.current_element, "ProfileIdentifier") {
        reading.encryption_info.profile_identifier = text.clone();
        Ok(())
    } else if is_word(&reading.current_element, "FileDigest") {
        reading.encryption_info.set_file_digest_from_base64(text.as_str())
    } else if is_word(&reading.current_element, "FileDigestAlgorithm") {
        reading.encryption_info.file_digest_algorithm = text.clone();
        Ok(())
    } else {
        Ok(())
    }
}

/// Takes one event into the reading.
pub fn apply_token(reading: &mut Reading, token: &XmlToken) -> (result: Result<(), String>)
    ensures
        match after_token(old(reading)@, token@) {
            Ok(next) => result is Ok && final(reading)@ == next,
            Err(message) => result matches Err(reason) && reason@ == message,
        },
{
    match token {
        XmlToken::Start(name) => {
            reading.current_element = name.clone();
            Ok(())
        },
        XmlToken::Text(text) => apply_text(reading, text),
        XmlToken::BadText(why) => Err(prefixed("Failed to unescape text: ", why.as_str())),
        XmlToken::End => {
            reading.current_element = String::new();
            Ok(())
        },
        XmlToken::Other => Ok(()),
        XmlToken::Broken(why) => Err(prefixed("XML parse error: ", why.as_str())),
        XmlToken::Eof => Ok(()),
    }
}

/// The metadata that a sequence of events stands for.
pub fn metadata_from_tokens(tokens: &[XmlToken]) -> (result: PackageResult<DetectionMetadata>)
    ensures
        reads_as(result, metadata_of(token_views(tokens@))),
{
    let ghost views = token_views(tokens@);
    let mut reading = Reading {
        name: String::new(),
        unencrypted_content_size: 0,
        file_name: String::new(),
        setup_file: String::new(),
        encryption_info: EncryptionInfo::new(),
        current_element: String::new(),
    };
    let mut i: usize = 0;
    while i < tokens.len()
        invariant
            i <= tokens.len(),
            views == token_views(tokens@),
            after_tokens(views, i as int) == Ok::<ReadingView, Seq<char>>(reading@),
        decreases tokens.len() - i,
    {
        assert(views[i as int] == tokens[i as int]@);
        match apply_token(&mut reading, &tokens[i]) {
            Ok(()) => {},
            Err(reason) => {
                proof {
                    lemma_failure_stays(views, i + 1, views.len() as int);
                }
                return Err(PackageError::XmlError { reason });
            },
        }
        i += 1;
    }
    if reading.name.as_str().unicode_len() == 0 {
        return Err(PackageError::XmlError { reason: String::from_str("Missing Name element") });
    }
    if reading.setup_file.as_str().unicode_len() == 0 {
        return Err(
            PackageError::XmlError { reason: String::from_str("Missing SetupFile element") },
        );
    }
    Ok(
        DetectionMetadata {
            name: reading.name,
            unencrypted_content_size: reading.unencrypted_content_size,
            file_name: reading.file_name,
            setup_file: reading.setup_file,
            encryption_info: reading.encryption_info,
        },
    )
}

/// Once an event has ended the reading, later events change nothing.
proof fn lemma_failure_stays(tokens: Seq<XmlTokenView>, j: int, k: int)
    requires
        0 <= j <= k,
        after_tokens(tokens, j) is Err,
    ensures
        after_tokens(tokens, k) == after_tokens(tokens, j),
    decreases k - j,
{
    if j < k {
        lemma_failure_stays(tokens, j, k - 1);
    }
}

/// Parse the content of `Detection.xml` into `DetectionMetadata`.
///
/// The elements may come in any order, and a declaration is passed over. A
/// document is refused where it is malformed, where the size is no number,
/// where a secret does not decode to its size, and where the name or the
/// setup file is missing.
pub fn parse_detection_xml(xml: &str) -> (result: PackageResult<DetectionMetadata>)
    ensures
        reads_as(result, metadata_of(xml_tokens(xml@))),
{
    let tokens = read_tokens(xml);
    metadata_from_tokens(tokens.as_slice())
}

} // verus!
