//! What the interactive mode decides: the platforms on offer, and whether
//! what the operator typed is acceptable.

use vstd::prelude::*;
use vstd::string::{StrSliceExecFns, StringExecFns};

use crate::models::error::{PackageError, PackageResult};
use crate::models::macos::MacosPkgRequest;
use crate::models::package::{PackageRequest, Verbosity};
use crate::numerals::{number_of, parse_number};
use crate::packager::archive::{names_sorted, sort_names};
use crate::paths::PathFacts;
use crate::text::{split_on, split_text, texts_of};

verus! {

/// Target platform for package creation.
#[derive(Debug, Clone, Copy, PartialEq, Eq, Structural)]
pub enum Platform {
    /// Microsoft Intune (`.intunewin`).
    Intune,
    /// macOS flat package (`.pkg`).
    MacOS,
}

/// Result of the interactive prompts: a request for one of the platforms.
pub enum InteractiveResult {
    /// Intune package request.
    Intune(PackageRequest),
    /// macOS package request.
    MacOS(MacosPkgRequest),
}

/// The platform options for display, in the order of the platforms.
pub fn platform_options() -> (options: Vec<&'static str>)
    ensures
        options@.len() == 2,
        options@[0]@ == "Microsoft Intune (.intunewin)"@,
        options@[1]@ == "macOS Flat Package (.pkg)"@,
{
    let mut options: Vec<&'static str> = Vec::new();
    options.push("Microsoft Intune (.intunewin)");
    options.push("macOS Flat Package (.pkg)");
    options
}

/// The platform at a position of `platform_options`.
pub fn platform_at(selection: usize) -> (platform: Option<Platform>)
    ensures
        platform == (if selection == 0 {
            Some(Platform::Intune)
        } else if selection == 1 {
            Some(Platform::MacOS)
        } else {
            None
        }),
{
    if selection == 0 {
        Some(Platform::Intune)
    } else if selection == 1 {
        Some(Platform::MacOS)
    } else {
        None
    }
}

/// Whether `c` is an ASCII letter.
pub open spec fn is_letter(c: char) -> bool {
    ('a' <= c && c <= 'z') || ('A' <= c && c <= 'Z')
}

/// What is wrong with the first of the segments from `from` on that is wrong:
/// a segment must not be empty, and must start with a letter.
pub open spec fn segment_problem(parts: Seq<Seq<char>>, from: int) -> Option<Seq<char>>
    decreases parts.len() - from,
{
    if from < 0 || from >= parts.len() {
        None
    } else if parts[from].len() == 0 {
        Some("Identifier segments cannot be empty"@)
    } else if !is_letter(parts[from][0]) {
        Some("Each identifier segment must start with a letter"@)
    } else {
        segment_problem(parts, from + 1)
    }
}

/// What is wrong with a package identifier, if anything: it must not be
/// empty, must have at least two segments between dots, and each segment
/// must be non-empty and start with a letter.
pub open spec fn identifier_problem(identifier: Seq<char>) -> Option<Seq<char>> {
    if identifier.len() == 0 {
        Some("Identifier cannot be empty"@)
    } else if split_on(identifier, '.').len() < 2 {
        Some("Identifier must be in reverse-DNS format (e.g., com.example.app)"@)
    } else {
        segment_problem(split_on(identifier, '.'), 0)
    }
}

/// Whether `result` is the verdict that goes with `problem`.
pub open spec fn is_verdict(result: Result<(), String>, problem: Option<Seq<char>>) -> bool {
    match problem {
        Some(message) => result matches Err(reason) && reason@ == message,
        None => result is Ok,
    }
}

/// Validate a macOS package identifier (reverse-DNS format).
pub fn validate_identifier(identifier: &str) -> (result: Result<(), String>)
    ensures
        is_verdict(result, identifier_problem(identifier@)),
{
    if identifier.unicode_len() == 0 {
        return Err(String::from_str("Identifier cannot be empty"));
    }
    let parts = split_text(identifier, '.');
    if parts.len() < 2 {
        return Err(
            String::from_str("Identifier must be in reverse-DNS format (e.g., com.example.app)"),
        );
    }
    let ghost pieces = texts_of(parts@);
    let mut i: usize = 0;
    while i < parts.len()
        invariant
            i <= parts.len(),
            pieces == texts_of(parts@),
            pieces == split_on(identifier@, '.'),
            pieces.len() >= 2,
            identifier@.len() > 0,
            segment_problem(pieces, 0) == segment_problem(pieces, i as int),
        decreases parts.len() - i,
    {
        let part = parts[i].as_str();
        assert(pieces[i as int] == part@);
        if part.unicode_len() == 0 {
            return Err(String::from_str("Identifier segments cannot be empty"));
        }
        let first_char: char = part.get_char(0);
        let letter: bool = (first_char >= 'a' && first_char <= 'z') || (first_char >= 'A'
            && first_char <= 'Z');
        if !letter {
            return Err(String::from_str("Each identifier segment must start with a letter"));
        }
        i += 1;
    }
    Ok(())
}

/// What is wrong with the first of the segments from `from` on that is wrong:
/// a segment must not be empty, and must be a number of at most 32 bits.
pub open spec fn version_segment_problem(parts: Seq<Seq<char>>, from: int) -> Option<Seq<char>>
    decreases parts.len() - from,
{
    if from < 0 || from >= parts.len() {
        None
    } else if parts[from].len() == 0 {
        Some("Version segments cannot be empty"@)
    } else if number_of(parts[from], u32::MAX as nat) is Err {
        Some("Version must contain only numbers and dots (e.g., 1.0.0)"@)
    } else {
        version_segment_problem(parts, from + 1)
    }
}

/// What is wrong with a version, if anything: it must not be empty, and
/// each of its segments between dots must be a number.
pub open spec fn version_problem(version: Seq<char>) -> Option<Seq<char>> {
    if version.len() == 0 {
        Some("Version cannot be empty"@)
    } else {
        version_segment_problem(split_on(version, '.'), 0)
    }
}

/// Validate a version string (numbers with dots between them).
pub fn validate_version(version: &str) -> (result: Result<(), String>)
    ensures
        is_verdict(result, version_problem(version@)),
{
    if version.unicode_len() == 0 {
        return Err(String::from_str("Version cannot be empty"));
    }
    let parts = split_text(version, '.');
    let ghost pieces = texts_of(parts@);
    let mut i: usize = 0;
    while i < parts.len()
        invariant
            i <= parts.len(),
            pieces == texts_of(parts@),
            pieces == split_on(version@, '.'),
            version@.len() > 0,
            version_segment_problem(pieces, 0) == version_segment_problem(pieces, i as int),
        decreases parts.len() - i,
    {
        let part = parts[i].as_str();
        assert(pieces[i as int] == part@);
        if part.unicode_len() == 0 {
            return Err(String::from_str("Version segments cannot be empty"));
        }
        match parse_number(part, 0xFFFF_FFFF) {
            Ok(_) => {},
            Err(_) => {
                return Err(
                    String::from_str("Version must contain only numbers and dots (e.g., 1.0.0)"),
                );
            },
        }
        i += 1;
    }
    Ok(())
}

/// What is said of a folder that cannot be taken as a source or scripts
/// folder, if anything: it must exist and be a directory.
pub open spec fn folder_problem(path: Seq<char>, facts: PathFacts) -> Option<Seq<char>> {
    if !facts.exists {
        Some("Folder does not exist: "@ + path)
    } else if !facts.is_dir {
        Some("Path is not a directory: "@ + path)
    } else {
        None
    }
}

/// Whether a folder that the operator typed can be taken as a source or
/// scripts folder.
pub fn check_folder(path: &str, facts: PathFacts) -> (result: Result<(), String>)
    ensures
        is_verdict(result, folder_problem(path@, facts)),
{
    if !facts.exists {
        let mut message = String::from_str("Folder does not exist: ");
        message.append(path);
        return Err(message);
    }
    if !facts.is_dir {
        let mut message = String::from_str("Path is not a directory: ");
        message.append(path);
        return Err(message);
    }
    Ok(())
}

/// Whether a folder that the operator typed can be taken as the output
/// folder: it may be missing, but where it exists it must be a directory.
pub fn check_output_folder(path: &str, facts: PathFacts) -> (result: Result<(), String>)
    ensures
        is_verdict(
            result,
            if facts.exists && !facts.is_dir {
                Some("Path exists but is not a directory: "@ + path@)
            } else {
                None
            },
        ),
{
    if facts.exists && !facts.is_dir {
        let mut message = String::from_str("Path exists but is not a directory: ");
        message.append(path);
        return Err(message);
    }
    Ok(())
}

/// The files that the operator can choose the setup file from: the files at
/// the root of the source folder, in the order of the dictionary.
///
/// Fails where the folder holds no file.
pub fn setup_choices(source_folder: &str, files: &Vec<String>) -> (result: PackageResult<
    Vec<String>,
>)
    ensures
        files@.len() == 0 ==> (result matches Err(PackageError::SourceFolderEmpty { path })
            && path@ == source_folder@),
        files@.len() > 0 ==> (result matches Ok(choices) && names_sorted(choices@)
            && choices@.to_multiset() == files@.to_multiset()),
{
    if files.len() == 0 {
        return Err(PackageError::SourceFolderEmpty { path: String::from_str(source_folder) });
    }
    Ok(sort_names(files))
}

/// Whether the operator is to be asked for leave to go on with a scripts
/// folder: it holds neither `preinstall` nor `postinstall`.
pub fn scripts_missing(has_preinstall: bool, has_postinstall: bool) -> (missing: bool)
    ensures
        missing == (!has_preinstall && !has_postinstall),
{
    !has_preinstall && !has_postinstall
}

/// The request that the interactive mode ends with for an Intune package,
/// with normal verbosity.
pub fn intune_request(source_folder: String, setup_file: String, output_folder: String) -> (request:
    PackageRequest)
    ensures
        request.source_folder == source_folder,
        request.setup_file == setup_file,
        request.output_folder == output_folder,
        request.output_name is None,
        request.verbosity == Verbosity::Normal,
{
    PackageRequest::new(source_folder, setup_file, output_folder).with_verbosity(Verbosity::Normal)
}

/// The request that the interactive mode ends with for a macOS package,
/// with normal verbosity.
pub fn macos_request(
    source_folder: String,
    identifier: String,
    version: String,
    output_folder: String,
    install_location: String,
    scripts_folder: Option<String>,
) -> (request: MacosPkgRequest)
    ensures
        request.source_folder == source_folder,
        request.identifier == identifier,
        request.version == version,
        request.output_folder == output_folder,
        request.install_location == install_location,
        request.scripts_folder == scripts_folder,
        request.output_name is None,
        request.verbosity == Verbosity::Normal,
{
    let request = MacosPkgRequest::new(
        source_folder,
        identifier,
        version,
        output_folder,
    ).with_install_location(install_location).with_verbosity(Verbosity::Normal);
    match scripts_folder {
        Some(scripts) => request.with_scripts_folder(scripts),
        None => request,
    }
}

/// What follows from the operator's answer to a question that asks for
/// leave to go on: to go on, or the end of the operation as cancelled.
pub fn confirmed(answer: bool) -> (result: PackageResult<()>)
    ensures
        answer ==> result is Ok,
        !answer ==> result matches Err(PackageError::Cancelled),
{
    if answer {
        Ok(())
    } else {
        Err(PackageError::Cancelled)
    }
}

} // verus!
