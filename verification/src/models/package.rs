//! Requests and results of the Intune package operations.

use std::time::Duration;

use vstd::prelude::*;
use vstd::string::StringExecFns;

use crate::models::detection::DetectionMetadata;
use crate::models::error::{PackageError, PackageResult};
use crate::paths::{file_stem, join_path, joined, stem_of, PathFacts};
use crate::text::{trim_suffix, without_suffix};

verus! {

/// `Duration` is a plain value, and its clone is the same duration.
pub assume_specification[ <Duration as Clone>::clone ](duration: &Duration) -> (copy: Duration)
    ensures
        copy == *duration,
;

/// Verbosity level for output.
#[derive(Debug, Clone, Copy, PartialEq, Eq, Structural)]
pub enum Verbosity {
    /// Normal mode - show progress and messages.
    Normal,
    /// Quiet mode - no prompts, overwrite existing files.
    Quiet,
    /// Silent mode - no console output at all.
    Silent,
}

impl Default for Verbosity {
    fn default() -> (verbosity: Self)
        ensures
            verbosity == Verbosity::Normal,
    {
        Verbosity::Normal
    }
}

impl Verbosity {
    /// Whether prompts are suppressed.
    pub fn suppress_prompts(&self) -> (suppress: bool)
        ensures
            suppress == (*self == Verbosity::Quiet || *self == Verbosity::Silent),
    {
        match self {
            Verbosity::Quiet => true,
            Verbosity::Silent => true,
            Verbosity::Normal => false,
        }
    }

    /// Whether all output is suppressed.
    pub fn suppress_output(&self) -> (suppress: bool)
        ensures
            suppress == (*self == Verbosity::Silent),
    {
        match self {
            Verbosity::Silent => true,
            _ => false,
        }
    }

    /// Whether progress is shown.
    pub fn show_progress(&self) -> (show: bool)
        ensures
            show == (*self == Verbosity::Normal || *self == Verbosity::Quiet),
    {
        match self {
            Verbosity::Normal => true,
            Verbosity::Quiet => true,
            Verbosity::Silent => false,
        }
    }
}

/// A file within the source package.
#[derive(Debug, Clone)]
pub struct SourceFile {
    /// Path relative to the source root.
    pub relative_path: String,
    /// File size in bytes.
    pub size: u64,
    /// Whether this is the setup file.
    pub is_setup_file: bool,
}

/// The collection of files to be packaged.
#[derive(Debug, Clone)]
pub struct SourcePackage {
    /// Root folder path.
    pub root: String,
    /// Setup file path relative to the root.
    pub setup_file: String,
    /// All files to include (relative paths).
    pub files: Vec<SourceFile>,
    /// Total size in bytes before compression.
    pub total_size: u64,
}

impl SourcePackage {
    /// A source package without files.
    pub fn new(root: String, setup_file: String) -> (package: Self)
        ensures
            package.root == root,
            package.setup_file == setup_file,
            package.files@.len() == 0,
            package.total_size == 0,
    {
        Self { root, setup_file, files: Vec::new(), total_size: 0 }
    }

    /// Add a file to the package: it comes last, and its size is added to
    /// the total.
    pub fn add_file(&mut self, relative_path: String, size: u64, is_setup_file: bool)
        requires
            old(self).total_size + size <= u64::MAX,
        ensures
            final(self).files@ == old(self).files@.push(
                SourceFile { relative_path, size, is_setup_file },
            ),
            final(self).total_size == old(self).total_size + size,
            final(self).root == old(self).root,
            final(self).setup_file == old(self).setup_file,
    {
        self.files.push(SourceFile { relative_path, size, is_setup_file });
        self.total_size += size;
    }

    /// The number of files in the package.
    pub fn file_count(&self) -> (count: usize)
        ensures
            count == self.files@.len(),
    {
        self.files.len()
    }
}

/// Request to create an IntuneWin package.
#[derive(Debug, Clone)]
pub struct PackageRequest {
    /// Path to the source folder containing the files to package.
    pub source_folder: String,
    /// Name of the setup file within the source folder.
    pub setup_file: String,
    /// Path to the folder where the `.intunewin` file is created.
    pub output_folder: String,
    /// Optional custom output filename (without extension).
    pub output_name: Option<String>,
    /// Verbosity level for output.
    pub verbosity: Verbosity,
}

/// The name of an output file without its extension: the custom name without
/// the extension at its end, if one was given, else the fallback.
pub open spec fn output_base(
    custom: Option<String>,
    extension: Seq<char>,
    fallback: Seq<char>,
) -> Seq<char> {
    match custom {
        Some(name) => without_suffix(name@, extension),
        None => fallback,
    }
}

/// The stem of the setup file, or `package` where it has none.
pub open spec fn setup_stem(setup_file: Seq<char>) -> Seq<char> {
    match stem_of(setup_file) {
        Some(stem) => stem,
        None => "package"@,
    }
}

/// The path of the output file of a request: in the output folder, named
/// after the custom name or else after the stem of the setup file, with the
/// extension `.intunewin`.
pub open spec fn output_path_of(request: PackageRequest) -> Seq<char> {
    joined(
        request.output_folder@,
        output_base(request.output_name, ".intunewin"@, setup_stem(request.setup_file@))
            + ".intunewin"@,
    )
}

impl PackageRequest {
    /// A request with normal verbosity and no custom output name.
    pub fn new(source_folder: String, setup_file: String, output_folder: String) -> (request: Self)
        ensures
            request.source_folder == source_folder,
            request.setup_file == setup_file,
            request.output_folder == output_folder,
            request.output_name is None,
            request.verbosity == Verbosity::Normal,
    {
        Self {
            source_folder,
            setup_file,
            output_folder,
            output_name: None,
            verbosity: Verbosity::default(),
        }
    }

    /// Set a custom output filename.
    pub fn with_output_name(self, name: String) -> (request: Self)
        ensures
            request == (Self { output_name: Some(name), ..self }),
    {
        let mut request = self;
        request.output_name = Some(name);
        request
    }

    /// Set the verbosity level.
    pub fn with_verbosity(self, verbosity: Verbosity) -> (request: Self)
        ensures
            request == (Self { verbosity, ..self }),
    {
        let mut request = self;
        request.verbosity = verbosity;
        request
    }

    /// Validate the request against what was found on disk at the source
    /// folder and at the setup file inside it.
    ///
    /// The source folder must exist and be a directory, and the setup file
    /// must exist.
    pub fn validate(&self, source_folder: PathFacts, setup_path: PathFacts) -> (result:
        PackageResult<()>)
        ensures
            !source_folder.exists || !source_folder.is_dir ==> (result matches Err(
                PackageError::SourceFolderNotFound { path },
            ) && path@ == self.source_folder@),
            source_folder.exists && source_folder.is_dir && !setup_path.exists ==> (result matches Err(
                PackageError::SetupFileNotFound { file, folder },
            ) && file@ == self.setup_file@ && folder@ == self.source_folder@),
            source_folder.exists && source_folder.is_dir && setup_path.exists ==> result is Ok,
    {
        if !source_folder.exists {
            return Err(PackageError::SourceFolderNotFound { path: self.source_folder.clone() });
        }
        if !source_folder.is_dir {
            return Err(PackageError::SourceFolderNotFound { path: self.source_folder.clone() });
        }
        if !setup_path.exists {
            return Err(
                PackageError::SetupFileNotFound {
                    file: self.setup_file.clone(),
                    folder: self.source_folder.clone(),
                },
            );
        }
        Ok(())
    }

    /// The path of the setup file inside the source folder.
    pub fn setup_path(&self) -> (path: String)
        ensures
            path@ == joined(self.source_folder@, self.setup_file@),
    {
        join_path(self.source_folder.as_str(), self.setup_file.as_str())
    }

    /// The path of the output file: in the output folder, named after the
    /// custom name or else after the stem of the setup file, with the
    /// extension `.intunewin`.
    pub fn output_path(&self) -> (path: String)
        ensures
            path@ == output_path_of(*self),
    {
        let mut file_name = match &self.output_name {
            Some(name) => trim_suffix(name.as_str(), ".intunewin"),
            None => match file_stem(self.setup_file.as_str()) {
                Some(stem) => stem,
                None => String::from_str("package"),
            },
        };
        file_name.append(".intunewin");
        join_path(self.output_folder.as_str(), file_name.as_str())
    }
}

/// The final output package.
#[derive(Debug, Clone)]
pub struct IntuneWinPackage {
    /// Output file path.
    pub output_path: String,
    /// Detection metadata.
    pub metadata: DetectionMetadata,
    /// Size of the final `.intunewin` file.
    pub package_size: u64,
    /// Time taken to create the package.
    pub creation_time: Duration,
}

/// Request to unpack an IntuneWin package.
#[derive(Debug, Clone)]
pub struct UnpackRequest {
    /// Path to the `.intunewin` file to unpack.
    pub input_file: String,
    /// Path to the folder where the files are extracted.
    pub output_folder: String,
    /// Verbosity level for output.
    pub verbosity: Verbosity,
}

impl UnpackRequest {
    /// A request with normal verbosity.
    pub fn new(input_file: String, output_folder: String) -> (request: Self)
        ensures
            request.input_file == input_file,
            request.output_folder == output_folder,
            request.verbosity == Verbosity::Normal,
    {
        Self { input_file, output_folder, verbosity: Verbosity::default() }
    }

    /// Set the verbosity level.
    pub fn with_verbosity(self, verbosity: Verbosity) -> (request: Self)
        ensures
            request == (Self { verbosity, ..self }),
    {
        let mut request = self;
        request.verbosity = verbosity;
        request
    }

    /// Validate the request against what was found on disk at the input
    /// file: it must exist and be a regular file.
    pub fn validate(&self, input_file: PathFacts) -> (result: PackageResult<()>)
        ensures
            !input_file.exists ==> (result matches Err(
                PackageError::InvalidIntunewinFile { path, reason },
            ) && path@ == self.input_file@ && reason@ == "File does not exist"@),
            input_file.exists && !input_file.is_file ==> (result matches Err(
                PackageError::InvalidIntunewinFile { path, reason },
            ) && path@ == self.input_file@ && reason@ == "Path is not a file"@),
            input_file.exists && input_file.is_file ==> result is Ok,
    {
        if !input_file.exists {
            return Err(
                PackageError::InvalidIntunewinFile {
                    path: self.input_file.clone(),
                    reason: String::from_str("File does not exist"),
                },
            );
        }
        if !input_file.is_file {
            return Err(
                PackageError::InvalidIntunewinFile {
                    path: self.input_file.clone(),
                    reason: String::from_str("Path is not a file"),
                },
            );
        }
        Ok(())
    }
}

/// Result of unpacking an IntuneWin package.
#[derive(Debug, Clone)]
pub struct UnpackResult {
    /// Path to the folder that holds the extracted files.
    pub output_folder: String,
    /// Number of files extracted.
    pub file_count: usize,
    /// Total size of the extracted files in bytes.
    pub total_size: u64,
    /// Time taken to unpack.
    pub unpack_time: Duration,
    /// Original setup file name.
    pub setup_file: String,
}

} // verus!
