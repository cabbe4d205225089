//! Requests and results of the macOS package operations.

use std::time::Duration;

use vstd::prelude::*;
use vstd::string::StringExecFns;

use crate::models::package::{output_base, Verbosity};
use crate::paths::{join_path, joined};
use crate::text::{split_on, split_text, texts_of, trim_suffix};

verus! {

/// Request to create a macOS flat package (`.pkg`).
#[derive(Debug, Clone)]
pub struct MacosPkgRequest {
    /// Path to the source folder containing the files to package.
    pub source_folder: String,
    /// Package identifier (such as `com.company.app`).
    pub identifier: String,
    /// Package version (such as `1.0.0`).
    pub version: String,
    /// Installation target path on macOS.
    pub install_location: String,
    /// Path to the folder where the `.pkg` file is created.
    pub output_folder: String,
    /// Optional custom output filename (without extension).
    pub output_name: Option<String>,
    /// Optional folder containing preinstall and postinstall scripts.
    pub scripts_folder: Option<String>,
    /// Verbosity level for output.
    pub verbosity: Verbosity,
}

/// Whether every one of the first `k` pieces is non-empty.
pub open spec fn all_non_empty(parts: Seq<Seq<char>>, k: int) -> bool {
    forall|i: int| 0 <= i < k ==> (#[trigger] parts[i]).len() > 0
}

/// Whether an identifier follows the reverse-DNS convention: at least two
/// segments between dots, none of them empty.
pub open spec fn is_reverse_dns(identifier: Seq<char>) -> bool {
    let parts = split_on(identifier, '.');
    parts.len() >= 2 && all_non_empty(parts, parts.len() as int)
}

impl MacosPkgRequest {
    /// A request with the required fields: it installs to `/`, with normal
    /// verbosity, no custom output name and no scripts.
    pub fn new(
        source_folder: String,
        identifier: String,
        version: String,
        output_folder: String,
    ) -> (request: Self)
        ensures
            request.source_folder == source_folder,
            request.identifier == identifier,
            request.version == version,
            request.install_location@ == "/"@,
            request.output_folder == output_folder,
            request.output_name is None,
            request.scripts_folder is None,
            request.verbosity == Verbosity::Normal,
    {
        Self {
            source_folder,
            identifier,
            version,
            install_location: String::from_str("/"),
            output_folder,
            output_name: None,
            scripts_folder: None,
            verbosity: Verbosity::default(),
        }
    }

    /// Set a custom installation location.
    pub fn with_install_location(self, path: String) -> (request: Self)
        ensures
            request == (Self { install_location: path, ..self }),
    {
        let mut request = self;
        request.install_location = path;
        request
    }

    /// Set a custom output filename.
    pub fn with_output_name(self, name: String) -> (request: Self)
        ensures
            request == (Self { output_name: Some(name), ..self }),
    {
        let mut request = self;
        request.output_name = Some(name);
        request
    }

    /// Set the scripts folder.
    pub fn with_scripts_folder(self, path: String) -> (request: Self)
        ensures
            request == (Self { scripts_folder: Some(path), ..self }),
    {
        let mut request = self;
        request.scripts_folder = Some(path);
        request
    }

    /// Set the verbosity level.
    pub fn with_verbosity(self, verbosity: Verbosity) -> (request: Self)
        ensures
            request == (Self { verbosity, ..self }),
    {
        let mut request = self;
        request.verbosity = verbosity;
        request
    }

    /// The path of the output file: in the output folder, named after the
    /// custom name or else after identifier and version, with the extension
    /// `.pkg`.
    pub fn output_path(&self) -> (path: String)
        ensures
            path@ == joined(
                self.output_folder@,
                output_base(
                    self.output_name,
                    ".pkg"@,
                    self.identifier@ + "-"@ + self.version@,
                ) + ".pkg"@,
            ),
    {
        let mut file_name = match &self.output_name {
            Some(name) => trim_suffix(name.as_str(), ".pkg"),
            None => {
                let mut name = self.identifier.clone();
                name.append("-");
                name.append(self.version.as_str());
                name
            },
        };
        file_name.append(".pkg");
        join_path(self.output_folder.as_str(), file_name.as_str())
    }

    /// Whether the identifier follows the reverse-DNS convention.
    pub fn is_valid_identifier(&self) -> (valid: bool)
        ensures
            valid == is_reverse_dns(self.identifier@),
    {
        let parts = split_text(self.identifier.as_str(), '.');
        if parts.len() < 2 {
            return false;
        }
        let ghost pieces = texts_of(parts@);
        let mut i: usize = 0;
        while i < parts.len()
            invariant
                i <= parts.len(),
                pieces == texts_of(parts@),
                pieces == split_on(self.identifier@, '.'),
                parts.len() >= 2,
                all_non_empty(pieces, i as int),
            decreases parts.len() - i,
        {
            assert(pieces[i as int] == parts[i as int]@);
            if parts[i].as_str().unicode_len() == 0 {
                return false;
            }
            i += 1;
        }
        true
    }
}

/// Result of successful macOS package creation.
#[derive(Debug, Clone)]
pub struct MacosPkgResult {
    /// Full path of the created `.pkg` file.
    pub output_path: String,
    /// Size of the final `.pkg` in bytes.
    pub package_size: u64,
    /// Number of files in the payload.
    pub file_count: usize,
    /// Time to create the package.
    pub creation_time: Duration,
}

/// A file to include in the package payload.
#[derive(Debug, Clone)]
pub struct PayloadFile {
    /// Path relative to the install location.
    pub relative_path: String,
    /// File size in bytes.
    pub size: u64,
    /// Unix permissions.
    pub mode: u32,
}

/// The package payload (files to install).
#[derive(Debug, Clone)]
pub struct PackagePayload {
    /// Files included in the payload.
    pub files: Vec<PayloadFile>,
    /// Total size before compression.
    pub total_size: u64,
}

impl PackagePayload {
    /// An empty payload.
    pub fn new() -> (payload: Self)
        ensures
            payload.files@.len() == 0,
            payload.total_size == 0,
    {
        Self { files: Vec::new(), total_size: 0 }
    }

    /// Add a file to the payload: it comes last, and its size is added to
    /// the total.
    pub fn add_file(&mut self, relative_path: String, size: u64, mode: u32)
        requires
            old(self).total_size + size <= u64::MAX,
        ensures
            final(self).files@ == old(self).files@.push(PayloadFile { relative_path, size, mode }),
            final(self).total_size == old(self).total_size + size,
    {
        self.files.push(PayloadFile { relative_path, size, mode });
        self.total_size += size;
    }

    /// The number of files.
    pub fn file_count(&self) -> (count: usize)
        ensures
            count == self.files@.len(),
    {
        self.files.len()
    }
}

impl Default for PackagePayload {
    fn default() -> (payload: Self)
        ensures
            payload.files@.len() == 0,
            payload.total_size == 0,
    {
        Self::new()
    }
}

} // verus!
