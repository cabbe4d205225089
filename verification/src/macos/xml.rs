//! The two installer documents of a package: `PackageInfo` and
//! `Distribution`.

use vstd::prelude::*;
use vstd::string::StringExecFns;

use crate::models::error::PackageError;
use crate::numerals::{decimal_text, push_decimal};
use crate::xml_text::{xml_escape, xml_escaped};

verus! {

/// The `<scripts>` element of a `PackageInfo`: absent without scripts, else
/// one line per script.
pub open spec fn scripts_element(has_preinstall: bool, has_postinstall: bool) -> Seq<char> {
    if has_preinstall || has_postinstall {
        "\n  <scripts>"@ + (if has_preinstall {
            "\n    <preinstall file=\"./preinstall\"/>"@
        } else {
            Seq::empty()
        }) + (if has_postinstall {
            "\n    <postinstall file=\"./postinstall\"/>"@
        } else {
            Seq::empty()
        }) + "\n  </scripts>"@
    } else {
        Seq::empty()
    }
}

/// The `PackageInfo` document.
pub open spec fn packageinfo_xml(
    identifier: Seq<char>,
    version: Seq<char>,
    install_location: Seq<char>,
    install_kbytes: u64,
    num_files: usize,
    has_preinstall: bool,
    has_postinstall: bool,
) -> Seq<char> {
    "<?xml version=\"1.0\" encoding=\"utf-8\"?>\n<pkg-info format-version=\"2\" identifier=\""@
        + xml_escaped(identifier) + "\" version=\""@ + xml_escaped(version)
        + "\" install-location=\""@ + xml_escaped(install_location)
        + "\" auth=\"root\">\n  <payload installKBytes=\""@ + decimal_text(install_kbytes as nat)
        + "\" numberOfFiles=\""@ + decimal_text(num_files as nat) + "\"/>"@ + scripts_element(
        has_preinstall,
        has_postinstall,
    ) + "\n</pkg-info>"@
}

/// Generate the `PackageInfo` document.
///
/// * `identifier` - package identifier, such as `com.company.app`
/// * `version` - package version, such as `1.0.0`
/// * `install_location` - installation target path
/// * `install_kbytes` - total size in KiB
/// * `num_files` - number of files
/// * `has_preinstall`, `has_postinstall` - which scripts exist
pub fn generate_packageinfo(
    identifier: &str,
    version: &str,
    install_location: &str,
    install_kbytes: u64,
    num_files: usize,
    has_preinstall: bool,
    has_postinstall: bool,
) -> (result: Result<String, PackageError>)
    ensures
        result matches Ok(xml) && xml@ == packageinfo_xml(
            identifier@,
            version@,
            install_location@,
            install_kbytes,
            num_files,
            has_preinstall,
            has_postinstall,
        ),
{
    let mut out = String::from_str(
        "<?xml version=\"1.0\" encoding=\"utf-8\"?>\n<pkg-info format-version=\"2\" identifier=\"",
    );
    out.append(xml_escape(identifier).as_str());
    out.append("\" version=\"");
    out.append(xml_escape(version).as_str());
    out.append("\" install-location=\"");
    out.append(xml_escape(install_location).as_str());
    out.append("\" auth=\"root\">\n  <payload installKBytes=\"");
    push_decimal(&mut out, install_kbytes);
    out.append("\" numberOfFiles=\"");
    push_decimal(&mut out, num_files as u64);
    out.append("\"/>");
    let ghost before_scripts = out@;
    if has_preinstall || has_postinstall {
        out.append("\n  <scripts>");
        if has_preinstall {
            out.append("\n    <preinstall file=\"./preinstall\"/>");
        }
        if has_postinstall {
            out.append("\n    <postinstall file=\"./postinstall\"/>");
        }
        out.append("\n  </scripts>");
    }
    assert(out@ =~= before_scripts + scripts_element(has_preinstall, has_postinstall));
    out.append("\n</pkg-info>");
    assert(out@ =~= packageinfo_xml(
        identifier@,
        version@,
        install_location@,
        install_kbytes,
        num_files,
        has_preinstall,
        has_postinstall,
    ));
    Ok(out)
}

/// The `Distribution` document.
pub open spec fn distribution_xml(
    identifier: Seq<char>,
    title: Seq<char>,
    version: Seq<char>,
    install_kbytes: u64,
) -> Seq<char> {
    "<?xml version=\"1.0\" encoding=\"utf-8\"?>\n<installer-gui-script minSpecVersion=\"1\">\n  <title>"@
        + xml_escaped(title)
        + "</title>\n  <options customize=\"never\" require-scripts=\"false\" hostArchitectures=\"x86_64,arm64\"/>\n  <domains enable_anywhere=\"false\" enable_currentUserHome=\"false\" enable_localSystem=\"true\"/>\n  <choices-outline>\n    <line choice=\"default\"/>\n  </choices-outline>\n  <choice id=\"default\" visible=\"false\" title=\""@
        + xml_escaped(title) + "\">\n    <pkg-ref id=\""@ + xml_escaped(identifier)
        + "\"/>\n  </choice>\n  <pkg-ref id=\""@ + xml_escaped(identifier) + "\" version=\""@
        + xml_escaped(version) + "\" installKBytes=\""@ + decimal_text(install_kbytes as nat)
        + "\">#base.pkg</pkg-ref>\n</installer-gui-script>"@
}

/// Generate the `Distribution` document.
///
/// * `identifier` - package identifier
/// * `title` - package title for the installer
/// * `version` - package version
/// * `install_kbytes` - total size in KiB
pub fn generate_distribution(
    identifier: &str,
    title: &str,
    version: &str,
    install_kbytes: u64,
) -> (result: Result<String, PackageError>)
    ensures
        result matches Ok(xml) && xml@ == distribution_xml(
            identifier@,
            title@,
            version@,
            install_kbytes,
        ),
{
    let escaped_title = xml_escape(title);
    let escaped_identifier = xml_escape(identifier);
    let mut out = String::from_str(
        "<?xml version=\"1.0\" encoding=\"utf-8\"?>\n<installer-gui-script minSpecVersion=\"1\">\n  <title>",
    );
    out.append(escaped_title.as_str());
    out.append(
        "</title>\n  <options customize=\"never\" require-scripts=\"false\" hostArchitectures=\"x86_64,arm64\"/>\n  <domains enable_anywhere=\"false\" enable_currentUserHome=\"false\" enable_localSystem=\"true\"/>\n  <choices-outline>\n    <line choice=\"default\"/>\n  </choices-outline>\n  <choice id=\"default\" visible=\"false\" title=\"",
    );
    out.append(escaped_title.as_str());
    out.append("\">\n    <pkg-ref id=\"");
    out.append(escaped_identifier.as_str());
    out.append("\"/>\n  </choice>\n  <pkg-ref id=\"");
    out.append(escaped_identifier.as_str());
    out.append("\" version=\"");
    out.append(xml_escape(version).as_str());
    out.append("\" installKBytes=\"");
    push_decimal(&mut out, install_kbytes);
    out.append("\">#base.pkg</pkg-ref>\n</installer-gui-script>");
    assert(out@ =~= distribution_xml(identifier@, title@, version@, install_kbytes));
    Ok(out)
}

} // verus!
