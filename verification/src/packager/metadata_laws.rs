//! Reading a `Detection.xml` back gives the metadata that it was written
//! from, as far as the events of the document go; and the document ends its
//! lines with CRLF.

use vstd::prelude::*;

use crate::models::detection::{
    base64_decoded, base64_of, decoded, DetectionView, EncryptionInfoView,
};
use crate::numerals::{decimal_text, lemma_number_of_decimal};
use crate::packager::encrypt::{sealed, sha256_of};
use crate::packager::metadata::{
    after_text, after_token, after_tokens, blank_reading, detection_xml, element_line,
    encryption_element, metadata_of, root_opening, tag_line, with_crlf, ReadingView, XmlTokenView,
};
use crate::xml_text::{indent, xml_escaped};

verus! {

/// The events of an element with text: its opening tag, its text, its
/// closing tag.
pub open spec fn element_tokens(name: Seq<char>, text: Seq<char>) -> Seq<XmlTokenView> {
    seq![XmlTokenView::Start(name), XmlTokenView::Text(text), XmlTokenView::End]
}

/// The events of the `<EncryptionInfo>` element of a document.
pub open spec fn encryption_tokens(info: EncryptionInfoView) -> Seq<XmlTokenView> {
    seq![XmlTokenView::Start("EncryptionInfo"@)] + element_tokens(
        "EncryptionKey"@,
        base64_of(info.encryption_key),
    ) + element_tokens("MacKey"@, base64_of(info.mac_key)) + element_tokens(
        "InitializationVector"@,
        base64_of(info.iv),
    ) + element_tokens("Mac"@, base64_of(info.mac)) + element_tokens(
        "ProfileIdentifier"@,
        info.profile_identifier,
    ) + element_tokens("FileDigest"@, base64_of(info.file_digest)) + element_tokens(
        "FileDigestAlgorithm"@,
        info.file_digest_algorithm,
    ) + seq![XmlTokenView::End]
}

/// The events that stand for the document of a metadata: for the root and
/// for `EncryptionInfo` the opening and the closing tag, and for every other
/// element its opening tag, its text and its closing tag, in the order of
/// the document.
pub open spec fn detection_tokens(metadata: DetectionView) -> Seq<XmlTokenView> {
    seq![XmlTokenView::Start("ApplicationInfo"@)] + element_tokens("Name"@, metadata.name)
        + element_tokens(
        "UnencryptedContentSize"@,
        decimal_text(metadata.unencrypted_content_size as nat),
    ) + element_tokens("FileName"@, metadata.file_name) + element_tokens(
        "SetupFile"@,
        metadata.setup_file,
    ) + encryption_tokens(metadata.encryption_info) + seq![XmlTokenView::End]
}

/// Whether Base64 decoding undoes the encoding of `bytes`, as the encoder
/// promises of every text that it returns.
pub open spec fn decodes_back(bytes: Seq<u8>) -> bool {
    base64_decoded(base64_of(bytes)) == decoded(bytes)
}

/// Whether the secrets have their sizes and decode back from their Base64
/// texts.
pub open spec fn secrets_read_back(info: EncryptionInfoView) -> bool {
    &&& info.encryption_key.len() == 32 && decodes_back(info.encryption_key)
    &&& info.mac_key.len() == 32 && decodes_back(info.mac_key)
    &&& info.iv.len() == 16 && decodes_back(info.iv)
    &&& info.mac.len() == 32 && decodes_back(info.mac)
    &&& info.file_digest.len() == 32 && decodes_back(info.file_digest)
}

/// The reading after the events `tokens`, starting from `reading`.
pub open spec fn read_from(reading: ReadingView, tokens: Seq<XmlTokenView>) -> Result<
    ReadingView,
    Seq<char>,
>
    decreases tokens.len(),
{
    if tokens.len() == 0 {
        Ok(reading)
    } else {
        match after_token(reading, tokens[0]) {
            Ok(next) => read_from(next, tokens.drop_first()),
            Err(message) => Err(message),
        }
    }
}

proof fn lemma_read_from_push(reading: ReadingView, tokens: Seq<XmlTokenView>, last: XmlTokenView)
    ensures
        read_from(reading, tokens.push(last)) == match read_from(reading, tokens) {
            Ok(next) => after_token(next, last),
            Err(message) => Err(message),
        },
    decreases tokens.len(),
{
    let all = tokens.push(last);
    if tokens.len() == 0 {
        assert(all.drop_first() =~= Seq::<XmlTokenView>::empty());
        match after_token(reading, last) {
            Ok(next) => {
                assert(read_from(next, all.drop_first()) == Ok::<ReadingView, Seq<char>>(next));
            },
            Err(_) => {},
        }
    } else {
        assert(all[0] == tokens[0]);
        assert(all.drop_first() =~= tokens.drop_first().push(last));
        match after_token(reading, tokens[0]) {
            Ok(next) => {
                lemma_read_from_push(next, tokens.drop_first(), last);
            },
            Err(_) => {},
        }
    }
}

proof fn lemma_after_tokens_is_read_from(tokens: Seq<XmlTokenView>, k: int)
    requires
        0 <= k <= tokens.len(),
    ensures
        after_tokens(tokens, k) == read_from(blank_reading(), tokens.subrange(0, k)),
    decreases k,
{
    if k > 0 {
        lemma_after_tokens_is_read_from(tokens, k - 1);
        lemma_read_from_push(blank_reading(), tokens.subrange(0, k - 1), tokens[k - 1]);
        assert(tokens.subrange(0, k) =~= tokens.subrange(0, k - 1).push(tokens[k - 1]));
    }
}

proof fn lemma_read_from_concat(
    reading: ReadingView,
    first: Seq<XmlTokenView>,
    second: Seq<XmlTokenView>,
)
    ensures
        read_from(reading, first + second) == match read_from(reading, first) {
            Ok(next) => read_from(next, second),
            Err(message) => Err(message),
        },
    decreases first.len(),
{
    if first.len() == 0 {
        assert(first + second =~= second);
    } else {
        assert((first + second)[0] == first[0]);
        assert((first + second).drop_first() =~= first.drop_first() + second);
        match after_token(reading, first[0]) {
            Ok(next) => {
                lemma_read_from_concat(next, first.drop_first(), second);
            },
            Err(_) => {},
        }
    }
}

/// The reading after an element with text: the text is taken inside the
/// element, and the reader is in no element afterwards.
proof fn lemma_read_element(reading: ReadingView, name: Seq<char>, text: Seq<char>)
    ensures
        read_from(reading, element_tokens(name, text)) == match after_text(
            ReadingView { current_element: name, ..reading },
            text,
        ) {
            Ok(next) => Ok(ReadingView { current_element: Seq::empty(), ..next }),
            Err(message) => Err(message),
        },
{
    let tokens = element_tokens(name, text);
    let inside = ReadingView { current_element: name, ..reading };
    assert(tokens.drop_first() =~= seq![XmlTokenView::Text(text), XmlTokenView::End]);
    assert(tokens.drop_first().drop_first() =~= seq![XmlTokenView::End]);
    assert(tokens.drop_first().drop_first().drop_first() =~= Seq::<XmlTokenView>::empty());
    assert(after_token(reading, tokens[0]) == Ok::<ReadingView, Seq<char>>(inside));
    reveal_with_fuel(read_from, 4);
}

/// The names of the elements differ from one another.
proof fn lemma_names_differ()
    ensures
        "Name"@.len() == 4,
        "UnencryptedContentSize"@.len() == 22,
        "FileName"@.len() == 8,
        "SetupFile"@.len() == 9,
        "EncryptionKey"@.len() == 13,
        "MacKey"@.len() == 6,
        "InitializationVector"@.len() == 20,
        "Mac"@.len() == 3,
        "ProfileIdentifier"@.len() == 17,
        "FileDigest"@.len() == 10,
        "FileDigestAlgorithm"@.len() == 19,
{
    reveal_strlit("Name");
    reveal_strlit("UnencryptedContentSize");
    reveal_strlit("FileName");
    reveal_strlit("SetupFile");
    reveal_strlit("EncryptionKey");
    reveal_strlit("MacKey");
    reveal_strlit("InitializationVector");
    reveal_strlit("Mac");
    reveal_strlit("ProfileIdentifier");
    reveal_strlit("FileDigest");
    reveal_strlit("FileDigestAlgorithm");
}

/// The reading after the events of the `<EncryptionInfo>` element: the
/// encryption info is the one of the element.
proof fn lemma_read_encryption(reading: ReadingView, info: EncryptionInfoView)
    requires
        secrets_read_back(info),
    ensures
        read_from(reading, encryption_tokens(info)) == Ok::<ReadingView, Seq<char>>(
            ReadingView { encryption_info: info, current_element: Seq::empty(), ..reading },
        ),
{
    lemma_names_differ();
    let old_info = reading.encryption_info;
    let open = seq![XmlTokenView::Start("EncryptionInfo"@)];
    let t1 = element_tokens("EncryptionKey"@, base64_of(info.encryption_key));
    let t2 = element_tokens("MacKey"@, base64_of(info.mac_key));
    let t3 = element_tokens("InitializationVector"@, base64_of(info.iv));
    let t4 = element_tokens("Mac"@, base64_of(info.mac));
    let t5 = element_tokens("ProfileIdentifier"@, info.profile_identifier);
    let t6 = element_tokens("FileDigest"@, base64_of(info.file_digest));
    let t7 = element_tokens("FileDigestAlgorithm"@, info.file_digest_algorithm);
    let close = seq![XmlTokenView::End];

    let r0 = ReadingView { current_element: "EncryptionInfo"@, ..reading };
    let i1 = EncryptionInfoView { encryption_key: info.encryption_key, ..old_info };
    let i2 = EncryptionInfoView { mac_key: info.mac_key, ..i1 };
    let i3 = EncryptionInfoView { iv: info.iv, ..i2 };
    let i4 = EncryptionInfoView { mac: info.mac, ..i3 };
    let i5 = EncryptionInfoView { profile_identifier: info.profile_identifier, ..i4 };
    let i6 = EncryptionInfoView { file_digest: info.file_digest, ..i5 };
    let i7 = EncryptionInfoView { file_digest_algorithm: info.file_digest_algorithm, ..i6 };
    let clear = ReadingView { current_element: Seq::empty(), ..reading };
    let r1 = ReadingView { encryption_info: i1, ..clear };
    let r2 = ReadingView { encryption_info: i2, ..clear };
    let r3 = ReadingView { encryption_info: i3, ..clear };
    let r4 = ReadingView { encryption_info: i4, ..clear };
    let r5 = ReadingView { encryption_info: i5, ..clear };
    let r6 = ReadingView { encryption_info: i6, ..clear };
    let r7 = ReadingView { encryption_info: i7, ..clear };
    assert(i7 == info);

    assert(read_from(reading, open) == Ok::<ReadingView, Seq<char>>(r0)) by {
        assert(open.drop_first() =~= Seq::<XmlTokenView>::empty());
        reveal_with_fuel(read_from, 2);
    }
    assert(read_from(r0, t1) == Ok::<ReadingView, Seq<char>>(r1)) by {
        lemma_read_element(r0, "EncryptionKey"@, base64_of(info.encryption_key));
    }
    assert(read_from(r1, t2) == Ok::<ReadingView, Seq<char>>(r2)) by {
        lemma_read_element(r1, "MacKey"@, base64_of(info.mac_key));
    }
    assert(read_from(r2, t3) == Ok::<ReadingView, Seq<char>>(r3)) by {
        lemma_read_element(r2, "InitializationVector"@, base64_of(info.iv));
    }
    assert(read_from(r3, t4) == Ok::<ReadingView, Seq<char>>(r4)) by {
        lemma_read_element(r3, "Mac"@, base64_of(info.mac));
    }
    assert(read_from(r4, t5) == Ok::<ReadingView, Seq<char>>(r5)) by {
        lemma_read_element(r4, "ProfileIdentifier"@, info.profile_identifier);
    }
    assert(read_from(r5, t6) == Ok::<ReadingView, Seq<char>>(r6)) by {
        lemma_read_element(r5, "FileDigest"@, base64_of(info.file_digest));
    }
    assert(read_from(r6, t7) == Ok::<ReadingView, Seq<char>>(r7)) by {
        lemma_read_element(r6, "FileDigestAlgorithm"@, info.file_digest_algorithm);
    }
    assert(read_from(r7, close) == Ok::<ReadingView, Seq<char>>(r7)) by {
        assert(close.drop_first() =~= Seq::<XmlTokenView>::empty());
        reveal_with_fuel(read_from, 2);
    }
    lemma_read_from_concat(reading, open, t1);
    lemma_read_from_concat(reading, open + t1, t2);
    lemma_read_from_concat(reading, open + t1 + t2, t3);
    lemma_read_from_concat(reading, open + t1 + t2 + t3, t4);
    lemma_read_from_concat(reading, open + t1 + t2 + t3 + t4, t5);
    lemma_read_from_concat(reading, open + t1 + t2 + t3 + t4 + t5, t6);
    lemma_read_from_concat(reading, open + t1 + t2 + t3 + t4 + t5 + t6, t7);
    lemma_read_from_concat(reading, open + t1 + t2 + t3 + t4 + t5 + t6 + t7, close);
}

/// The events of a document read back as the metadata of the document,
/// where the metadata names the application and the setup file, and its
/// secrets have their sizes and decode back from their Base64 texts.
pub proof fn lemma_metadata_reads_back(metadata: DetectionView)
    requires
        metadata.name.len() > 0,
        metadata.setup_file.len() > 0,
        secrets_read_back(metadata.encryption_info),
    ensures
        metadata_of(detection_tokens(metadata)) == Ok::<DetectionView, Seq<char>>(metadata),
{
    lemma_names_differ();
    let size = metadata.unencrypted_content_size;
    lemma_number_of_decimal(size as nat, u64::MAX as nat);
    let open = seq![XmlTokenView::Start("ApplicationInfo"@)];
    let t1 = element_tokens("Name"@, metadata.name);
    let t2 = element_tokens("UnencryptedContentSize"@, decimal_text(size as nat));
    let t3 = element_tokens("FileName"@, metadata.file_name);
    let t4 = element_tokens("SetupFile"@, metadata.setup_file);
    let t5 = encryption_tokens(metadata.encryption_info);
    let close = seq![XmlTokenView::End];
    let tokens = detection_tokens(metadata);

    let blank = blank_reading();
    let r0 = ReadingView { current_element: "ApplicationInfo"@, ..blank };
    let r1 = ReadingView { name: metadata.name, ..blank };
    let r2 = ReadingView { unencrypted_content_size: size, ..r1 };
    let r3 = ReadingView { file_name: metadata.file_name, ..r2 };
    let r4 = ReadingView { setup_file: metadata.setup_file, ..r3 };
    let r5 = ReadingView { encryption_info: metadata.encryption_info, ..r4 };

    assert(read_from(blank, open) == Ok::<ReadingView, Seq<char>>(r0)) by {
        assert(open.drop_first() =~= Seq::<XmlTokenView>::empty());
        reveal_with_fuel(read_from, 2);
    }
    assert(read_from(r0, t1) == Ok::<ReadingView, Seq<char>>(r1)) by {
        lemma_read_element(r0, "Name"@, metadata.name);
    }
    assert(read_from(r1, t2) == Ok::<ReadingView, Seq<char>>(r2)) by {
        lemma_read_element(r1, "UnencryptedContentSize"@, decimal_text(size as nat));
    }
    assert(read_from(r2, t3) == Ok::<ReadingView, Seq<char>>(r3)) by {
        lemma_read_element(r2, "FileName"@, metadata.file_name);
    }
    assert(read_from(r3, t4) == Ok::<ReadingView, Seq<char>>(r4)) by {
        lemma_read_element(r3, "SetupFile"@, metadata.setup_file);
    }
    assert(read_from(r4, t5) == Ok::<ReadingView, Seq<char>>(r5)) by {
        lemma_read_encryption(r4, metadata.encryption_info);
    }
    assert(read_from(r5, close) == Ok::<ReadingView, Seq<char>>(r5)) by {
        assert(close.drop_first() =~= Seq::<XmlTokenView>::empty());
        reveal_with_fuel(read_from, 2);
    }
    lemma_read_from_concat(blank, open, t1);
    lemma_read_from_concat(blank, open + t1, t2);
    lemma_read_from_concat(blank, open + t1 + t2, t3);
    lemma_read_from_concat(blank, open + t1 + t2 + t3, t4);
    lemma_read_from_concat(blank, open + t1 + t2 + t3 + t4, t5);
    lemma_read_from_concat(blank, open + t1 + t2 + t3 + t4 + t5, close);
    assert(read_from(blank, tokens) == Ok::<ReadingView, Seq<char>>(r5));
    lemma_after_tokens_is_read_from(tokens, tokens.len() as int);
    assert(tokens.subrange(0, tokens.len() as int) =~= tokens);
}

// ---------------------------------------------------------------------------
// Line ends
// ---------------------------------------------------------------------------

/// Whether the text holds no line feed.
pub open spec fn has_no_line_feed(text: Seq<char>) -> bool {
    forall|i: int| 0 <= i < text.len() ==> text[i] != '\n'
}

/// Whether every line feed of the text follows a carriage return.
pub open spec fn ends_lines_with_crlf(text: Seq<char>) -> bool {
    forall|i: int| 0 <= i < text.len() && #[trigger] text[i] == '\n' ==> i > 0 && text[i - 1] == '\r'
}

/// Two texts that end their lines with CRLF still do so when joined.
proof fn lemma_joined_lines(a: Seq<char>, b: Seq<char>)
    requires
        ends_lines_with_crlf(a),
        ends_lines_with_crlf(b),
    ensures
        ends_lines_with_crlf(a + b),
{
    let whole = a + b;
    assert forall|i: int| 0 <= i < whole.len() && #[trigger] whole[i] == '\n' implies i > 0
        && whole[i - 1] == '\r' by {
        if i < a.len() {
            assert(whole[i] == a[i]);
            assert(whole[i - 1] == a[i - 1]);
        } else {
            let j = i - a.len();
            assert(whole[i] == b[j]);
            assert(j > 0 && b[j - 1] == '\r');
            assert(whole[i - 1] == b[j - 1]);
        }
    }
}

/// A text in which every line feed was replaced by CRLF ends its lines with
/// CRLF.
proof fn lemma_with_crlf(text: Seq<char>)
    ensures
        ends_lines_with_crlf(with_crlf(text)),
    decreases text.len(),
{
    reveal_strlit("\r\n");
    if text.len() > 0 {
        lemma_with_crlf(text.drop_last());
        let head = with_crlf(text.drop_last());
        if text.last() == '\n' {
            lemma_joined_lines(head, "\r\n"@);
        } else {
            lemma_joined_lines(head, seq![text.last()]);
            assert(head.push(text.last()) =~= head + seq![text.last()]);
        }
    }
}

/// An element on a line of its own ends its lines with CRLF, where neither
/// the indentation nor the name holds a line feed.
proof fn lemma_element_line_ends(pad: Seq<char>, name: Seq<char>, text: Seq<char>)
    requires
        has_no_line_feed(pad),
        has_no_line_feed(name),
    ensures
        ends_lines_with_crlf(element_line(pad, name, text)),
{
    reveal(element_line);
    reveal_strlit("\r\n");
    reveal_strlit("<");
    reveal_strlit(">");
    reveal_strlit("</");
    lemma_with_crlf(xml_escaped(text));
    let a = "\r\n"@ + pad;
    lemma_joined_lines("\r\n"@, pad);
    lemma_joined_lines(a, "<"@);
    lemma_joined_lines(a + "<"@, name);
    lemma_joined_lines(a + "<"@ + name, ">"@);
    lemma_joined_lines(a + "<"@ + name + ">"@, with_crlf(xml_escaped(text)));
    let b = a + "<"@ + name + ">"@ + with_crlf(xml_escaped(text));
    lemma_joined_lines(b, "</"@);
    lemma_joined_lines(b + "</"@, name);
    lemma_joined_lines(b + "</"@ + name, ">"@);
}

/// A tag on a line of its own ends its lines with CRLF, where neither the
/// indentation nor the tag holds a line feed.
proof fn lemma_tag_line_ends(pad: Seq<char>, tag: Seq<char>)
    requires
        has_no_line_feed(pad),
        has_no_line_feed(tag),
    ensures
        ends_lines_with_crlf(tag_line(pad, tag)),
{
    reveal(tag_line);
    reveal_strlit("\r\n");
    lemma_joined_lines("\r\n"@, pad);
    lemma_joined_lines("\r\n"@ + pad, tag);
}

/// The indentation holds no line feed.
proof fn lemma_indent_has_no_line_feed(depth: nat)
    ensures
        has_no_line_feed(indent(depth)),
    decreases depth,
{
    reveal_strlit("  ");
    if depth > 0 {
        lemma_indent_has_no_line_feed((depth - 1) as nat);
    }
}

/// The names of the elements hold no line feed.
proof fn lemma_names_have_no_line_feed()
    ensures
        has_no_line_feed("Name"@),
        has_no_line_feed("UnencryptedContentSize"@),
        has_no_line_feed("FileName"@),
        has_no_line_feed("SetupFile"@),
        has_no_line_feed("EncryptionKey"@),
        has_no_line_feed("MacKey"@),
        has_no_line_feed("InitializationVector"@),
        has_no_line_feed("Mac"@),
        has_no_line_feed("ProfileIdentifier"@),
        has_no_line_feed("FileDigest"@),
        has_no_line_feed("FileDigestAlgorithm"@),
        has_no_line_feed("<EncryptionInfo>"@),
        has_no_line_feed("</EncryptionInfo>"@),
        has_no_line_feed("</ApplicationInfo>"@),
{
    reveal_strlit("Name");
    reveal_strlit("UnencryptedContentSize");
    reveal_strlit("FileName");
    reveal_strlit("SetupFile");
    reveal_strlit("EncryptionKey");
    reveal_strlit("MacKey");
    reveal_strlit("InitializationVector");
    reveal_strlit("Mac");
    reveal_strlit("ProfileIdentifier");
    reveal_strlit("FileDigest");
    reveal_strlit("FileDigestAlgorithm");
    reveal_strlit("<EncryptionInfo>");
    reveal_strlit("</EncryptionInfo>");
    reveal_strlit("</ApplicationInfo>");
}

/// The opening tag of the root element holds no line feed.
proof fn lemma_root_opening_has_no_line_feed()
    ensures
        has_no_line_feed(root_opening()),
{
    reveal_strlit(
        "<ApplicationInfo xmlns:xsd=\"http://www.w3.org/2001/XMLSchema\" xmlns:xsi=\"http://www.w3.org/2001/XMLSchema-instance\" ToolVersion=\"1.8.6.0\">",
    );
}

/// The `<EncryptionInfo>` element ends its lines with CRLF.
proof fn lemma_encryption_element_ends(info: EncryptionInfoView)
    ensures
        ends_lines_with_crlf(encryption_element(info)),
{
    lemma_names_have_no_line_feed();
    lemma_indent_has_no_line_feed(1);
    lemma_indent_has_no_line_feed(2);
    let l0 = tag_line(indent(1), "<EncryptionInfo>"@);
    let l1 = element_line(indent(2), "EncryptionKey"@, base64_of(info.encryption_key));
    let l2 = element_line(indent(2), "MacKey"@, base64_of(info.mac_key));
    let l3 = element_line(indent(2), "InitializationVector"@, base64_of(info.iv));
    let l4 = element_line(indent(2), "Mac"@, base64_of(info.mac));
    let l5 = element_line(indent(2), "ProfileIdentifier"@, info.profile_identifier);
    let l6 = element_line(indent(2), "FileDigest"@, base64_of(info.file_digest));
    let l7 = element_line(indent(2), "FileDigestAlgorithm"@, info.file_digest_algorithm);
    let l8 = tag_line(indent(1), "</EncryptionInfo>"@);
    lemma_tag_line_ends(indent(1), "<EncryptionInfo>"@);
    lemma_element_line_ends(indent(2), "EncryptionKey"@, base64_of(info.encryption_key));
    lemma_element_line_ends(indent(2), "MacKey"@, base64_of(info.mac_key));
    lemma_element_line_ends(indent(2), "InitializationVector"@, base64_of(info.iv));
    lemma_element_line_ends(indent(2), "Mac"@, base64_of(info.mac));
    lemma_element_line_ends(indent(2), "ProfileIdentifier"@, info.profile_identifier);
    lemma_element_line_ends(indent(2), "FileDigest"@, base64_of(info.file_digest));
    lemma_element_line_ends(indent(2), "FileDigestAlgorithm"@, info.file_digest_algorithm);
    lemma_tag_line_ends(indent(1), "</EncryptionInfo>"@);
    lemma_joined_lines(l0, l1);
    lemma_joined_lines(l0 + l1, l2);
    lemma_joined_lines(l0 + l1 + l2, l3);
    lemma_joined_lines(l0 + l1 + l2 + l3, l4);
    lemma_joined_lines(l0 + l1 + l2 + l3 + l4, l5);
    lemma_joined_lines(l0 + l1 + l2 + l3 + l4 + l5, l6);
    lemma_joined_lines(l0 + l1 + l2 + l3 + l4 + l5 + l6, l7);
    lemma_joined_lines(l0 + l1 + l2 + l3 + l4 + l5 + l6 + l7, l8);
}

/// Every line break of the document is CRLF: no line feed stands without a
/// carriage return before it, the line feeds of the texts included.
pub proof fn lemma_detection_xml_ends_lines_with_crlf(metadata: DetectionView)
    ensures
        ends_lines_with_crlf(detection_xml(metadata)),
{
    lemma_names_have_no_line_feed();
    lemma_root_opening_has_no_line_feed();
    lemma_indent_has_no_line_feed(0);
    lemma_indent_has_no_line_feed(1);
    let l0 = root_opening();
    let l1 = element_line(indent(1), "Name"@, metadata.name);
    let l2 = element_line(
        indent(1),
        "UnencryptedContentSize"@,
        decimal_text(metadata.unencrypted_content_size as nat),
    );
    let l3 = element_line(indent(1), "FileName"@, metadata.file_name);
    let l4 = element_line(indent(1), "SetupFile"@, metadata.setup_file);
    let l5 = encryption_element(metadata.encryption_info);
    let l6 = tag_line(indent(0), "</ApplicationInfo>"@);
    lemma_element_line_ends(indent(1), "Name"@, metadata.name);
    lemma_element_line_ends(
        indent(1),
        "UnencryptedContentSize"@,
        decimal_text(metadata.unencrypted_content_size as nat),
    );
    lemma_element_line_ends(indent(1), "FileName"@, metadata.file_name);
    lemma_element_line_ends(indent(1), "SetupFile"@, metadata.setup_file);
    lemma_encryption_element_ends(metadata.encryption_info);
    lemma_tag_line_ends(indent(0), "</ApplicationInfo>"@);
    lemma_joined_lines(l0, l1);
    lemma_joined_lines(l0 + l1, l2);
    lemma_joined_lines(l0 + l1 + l2, l3);
    lemma_joined_lines(l0 + l1 + l2 + l3, l4);
    lemma_joined_lines(l0 + l1 + l2 + l3 + l4, l5);
    lemma_joined_lines(l0 + l1 + l2 + l3 + l4 + l5, l6);
}

// ---------------------------------------------------------------------------
// The lines of the document
// ---------------------------------------------------------------------------

/// A line that holds an element with text, after the indentation `pad`.
pub open spec fn element_text(pad: Seq<char>, name: Seq<char>, text: Seq<char>) -> Seq<char> {
    pad + "<"@ + name + ">"@ + with_crlf(xml_escaped(text)) + "</"@ + name + ">"@
}

/// The lines of the document, in order: the opening tag of the root; its
/// children `Name`, `UnencryptedContentSize`, `FileName` and `SetupFile`;
/// the element `EncryptionInfo` with its children `EncryptionKey`, `MacKey`,
/// `InitializationVector`, `Mac`, `ProfileIdentifier`, `FileDigest` and
/// `FileDigestAlgorithm`; and the closing tag of the root. Each element
/// stands on one line, once.
pub open spec fn detection_lines(metadata: DetectionView) -> Seq<Seq<char>> {
    let info = metadata.encryption_info;
    seq![
        root_opening(),
        element_text(indent(1), "Name"@, metadata.name),
        element_text(
            indent(1),
            "UnencryptedContentSize"@,
            decimal_text(metadata.unencrypted_content_size as nat),
        ),
        element_text(indent(1), "FileName"@, metadata.file_name),
        element_text(indent(1), "SetupFile"@, metadata.setup_file),
        indent(1) + "<EncryptionInfo>"@,
        element_text(indent(2), "EncryptionKey"@, base64_of(info.encryption_key)),
        element_text(indent(2), "MacKey"@, base64_of(info.mac_key)),
        element_text(indent(2), "InitializationVector"@, base64_of(info.iv)),
        element_text(indent(2), "Mac"@, base64_of(info.mac)),
        element_text(indent(2), "ProfileIdentifier"@, info.profile_identifier),
        element_text(indent(2), "FileDigest"@, base64_of(info.file_digest)),
        element_text(indent(2), "FileDigestAlgorithm"@, info.file_digest_algorithm),
        indent(1) + "</EncryptionInfo>"@,
        indent(0) + "</ApplicationInfo>"@,
    ]
}

/// The first `count` of the lines, with CRLF between them.
pub open spec fn joined_lines(lines: Seq<Seq<char>>, count: int) -> Seq<char>
    decreases count,
{
    if count <= 0 {
        Seq::empty()
    } else if count == 1 {
        lines[0]
    } else {
        joined_lines(lines, count - 1) + "\r\n"@ + lines[count - 1]
    }
}

/// Joining may start anywhere: `a + (b + c)` is `a + b + c`.
proof fn lemma_join_regroups(a: Seq<char>, b: Seq<char>, c: Seq<char>)
    ensures
        a + (b + c) == a + b + c,
{
    assert(a + (b + c) =~= a + b + c);
}

/// A line that holds an element follows the lines before it as the element
/// on a line of its own.
proof fn lemma_element_follows(
    lines: Seq<Seq<char>>,
    at: int,
    pad: Seq<char>,
    name: Seq<char>,
    text: Seq<char>,
)
    requires
        1 <= at < lines.len(),
        lines[at] == element_text(pad, name, text),
    ensures
        joined_lines(lines, at + 1) == joined_lines(lines, at) + element_line(pad, name, text),
{
    reveal(element_line);
    assert(joined_lines(lines, at) + "\r\n"@ + lines[at] =~= joined_lines(lines, at)
        + element_line(pad, name, text));
}

/// A line that holds a tag follows the lines before it as the tag on a line
/// of its own.
proof fn lemma_tag_follows(lines: Seq<Seq<char>>, at: int, pad: Seq<char>, tag: Seq<char>)
    requires
        1 <= at < lines.len(),
        lines[at] == pad + tag,
    ensures
        joined_lines(lines, at + 1) == joined_lines(lines, at) + tag_line(pad, tag),
{
    reveal(tag_line);
    assert(joined_lines(lines, at) + "\r\n"@ + lines[at] =~= joined_lines(lines, at) + tag_line(
        pad,
        tag,
    ));
}

/// The document is its fifteen lines with CRLF between them: the children
/// of the root and those of `EncryptionInfo` stand in their fixed order,
/// each once.
pub proof fn lemma_detection_xml_lines(metadata: DetectionView)
    ensures
        detection_lines(metadata).len() == 15,
        detection_xml(metadata) == joined_lines(detection_lines(metadata), 15),
{
    let lines = detection_lines(metadata);
    let info = metadata.encryption_info;
    let size = decimal_text(metadata.unencrypted_content_size as nat);
    assert(joined_lines(lines, 1) == root_opening());
    lemma_element_follows(lines, 1, indent(1), "Name"@, metadata.name);
    lemma_element_follows(lines, 2, indent(1), "UnencryptedContentSize"@, size);
    lemma_element_follows(lines, 3, indent(1), "FileName"@, metadata.file_name);
    lemma_element_follows(lines, 4, indent(1), "SetupFile"@, metadata.setup_file);
    let upper = joined_lines(lines, 5);
    let p0 = tag_line(indent(1), "<EncryptionInfo>"@);
    let p1 = element_line(indent(2), "EncryptionKey"@, base64_of(info.encryption_key));
    let p2 = element_line(indent(2), "MacKey"@, base64_of(info.mac_key));
    let p3 = element_line(indent(2), "InitializationVector"@, base64_of(info.iv));
    let p4 = element_line(indent(2), "Mac"@, base64_of(info.mac));
    let p5 = element_line(indent(2), "ProfileIdentifier"@, info.profile_identifier);
    let p6 = element_line(indent(2), "FileDigest"@, base64_of(info.file_digest));
    let p7 = element_line(indent(2), "FileDigestAlgorithm"@, info.file_digest_algorithm);
    let p8 = tag_line(indent(1), "</EncryptionInfo>"@);
    lemma_tag_follows(lines, 5, indent(1), "<EncryptionInfo>"@);
    lemma_element_follows(lines, 6, indent(2), "EncryptionKey"@, base64_of(info.encryption_key));
    lemma_element_follows(lines, 7, indent(2), "MacKey"@, base64_of(info.mac_key));
    lemma_element_follows(lines, 8, indent(2), "InitializationVector"@, base64_of(info.iv));
    lemma_element_follows(lines, 9, indent(2), "Mac"@, base64_of(info.mac));
    lemma_element_follows(lines, 10, indent(2), "ProfileIdentifier"@, info.profile_identifier);
    lemma_element_follows(lines, 11, indent(2), "FileDigest"@, base64_of(info.file_digest));
    lemma_element_follows(
        lines,
        12,
        indent(2),
        "FileDigestAlgorithm"@,
        info.file_digest_algorithm,
    );
    lemma_tag_follows(lines, 13, indent(1), "</EncryptionInfo>"@);
    lemma_tag_follows(lines, 14, indent(0), "</ApplicationInfo>"@);
    lemma_join_regroups(upper, p0 + p1 + p2 + p3 + p4 + p5 + p6 + p7, p8);
    lemma_join_regroups(upper, p0 + p1 + p2 + p3 + p4 + p5 + p6, p7);
    lemma_join_regroups(upper, p0 + p1 + p2 + p3 + p4 + p5, p6);
    lemma_join_regroups(upper, p0 + p1 + p2 + p3 + p4, p5);
    lemma_join_regroups(upper, p0 + p1 + p2 + p3, p4);
    lemma_join_regroups(upper, p0 + p1 + p2, p3);
    lemma_join_regroups(upper, p0 + p1, p2);
    lemma_join_regroups(upper, p0, p1);
    assert(upper + encryption_element(info) == joined_lines(lines, 14));
}

/// The document of a package gives the digest of the content before
/// encryption: where `info` seals `plaintext`, the line of `FileDigest`
/// holds the Base64 text of the SHA-256 of `plaintext`.
pub proof fn lemma_document_gives_digest(
    metadata: DetectionView,
    plaintext: Seq<u8>,
    framed: Seq<u8>,
)
    requires
        sealed(plaintext, framed, metadata.encryption_info),
    ensures
        detection_lines(metadata)[11] == element_text(
            indent(2),
            "FileDigest"@,
            base64_of(sha256_of(plaintext)),
        ),
{
}

} // verus!
