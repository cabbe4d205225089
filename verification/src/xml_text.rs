//! Pieces of XML text: escaping, indentation, and simple elements.
//!
//! Documents are laid out with one element per line and two spaces of
//! indentation per level; an element with text holds it on its own line.

use vstd::prelude::*;
use vstd::string::StringExecFns;

verus! {

/// What stands for a character in XML text and attribute values: the five
/// special characters become entities, every other character is kept.
pub open spec fn escaped_char(c: char) -> Seq<char> {
    if c == '<' {
        "&lt;"@
    } else if c == '>' {
        "&gt;"@
    } else if c == '&' {
        "&amp;"@
    } else if c == '\'' {
        "&apos;"@
    } else if c == '"' {
        "&quot;"@
    } else {
        seq![c]
    }
}

/// `raw` with every special character replaced by its entity.
pub open spec fn xml_escaped(raw: Seq<char>) -> Seq<char>
    decreases raw.len(),
{
    if raw.len() == 0 {
        Seq::empty()
    } else {
        xml_escaped(raw.drop_last()) + escaped_char(raw.last())
    }
}

/// Escapes text with `quick_xml::escape::escape`, which replaces each of
/// `<`, `>`, `&`, `'` and `"` by its entity and keeps everything else.
#[verifier::external_body]
pub(crate) fn xml_escape(raw: &str) -> (escaped: String)
    ensures
        escaped@ == xml_escaped(raw@),
{
    quick_xml::escape::escape(raw).into_owned()
}

/// The indentation of nesting level `depth`: two spaces per level.
pub open spec fn indent(depth: nat) -> Seq<char>
    decreases depth,
{
    if depth == 0 {
        Seq::empty()
    } else {
        indent((depth - 1) as nat) + "  "@
    }
}

/// An element with text on a line of its own, after the indentation `pad`:
/// `<name>text</name>`, with the text escaped.
#[verifier::opaque]
pub open spec fn text_element(pad: Seq<char>, name: Seq<char>, text: Seq<char>) -> Seq<char> {
    "\n"@ + pad + "<"@ + name + ">"@ + xml_escaped(text) + "</"@ + name + ">"@
}

/// A tag, or any other markup, on a line of its own after the indentation
/// `pad`.
#[verifier::opaque]
pub open spec fn markup_line(pad: Seq<char>, markup: Seq<char>) -> Seq<char> {
    "\n"@ + pad + markup
}

/// Appends an element with text on a line of its own.
pub fn push_text_element(out: &mut String, pad: &str, name: &str, text: &str)
    ensures
        final(out)@ == old(out)@ + text_element(pad@, name@, text@),
{
    out.append("\n");
    out.append(pad);
    out.append("<");
    out.append(name);
    out.append(">");
    let escaped = xml_escape(text);
    out.append(escaped.as_str());
    out.append("</");
    out.append(name);
    out.append(">");
    reveal(text_element);
    assert(out@ =~= old(out)@ + text_element(pad@, name@, text@));
}

/// Appends markup on a line of its own.
pub fn push_markup_line(out: &mut String, pad: &str, markup: &str)
    ensures
        final(out)@ == old(out)@ + markup_line(pad@, markup@),
{
    out.append("\n");
    out.append(pad);
    out.append(markup);
    reveal(markup_line);
    assert(out@ =~= old(out)@ + markup_line(pad@, markup@));
}

/// The indentation one level deeper than `pad`.
pub(crate) fn deeper(pad: &str, Ghost(depth): Ghost<nat>) -> (more: String)
    requires
        pad@ == indent(depth),
    ensures
        more@ == indent(depth + 1),
{
    let mut more = String::from_str(pad);
    more.append("  ");
    more
}

} // verus!
