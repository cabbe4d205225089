//! Command-line arguments, after parsing, and the requests they stand for.

use vstd::prelude::*;
use vstd::string::StringExecFns;

use crate::models::error::{PackageError, PackageResult};
use crate::models::package::{PackageRequest, UnpackRequest, Verbosity};

verus! {

/// The verbosity that the two flags ask for: silent wins over quiet.
pub open spec fn verbosity_of(quiet: bool, silent: bool) -> Verbosity {
    if silent {
        Verbosity::Silent
    } else if quiet {
        Verbosity::Quiet
    } else {
        Verbosity::Normal
    }
}

/// The arguments of the program.
#[derive(Debug, Default)]
pub struct CliArgs {
    /// The command, if one was given.
    pub command: Option<Commands>,
    /// Quiet mode - no prompts, overwrite existing files.
    pub quiet: bool,
    /// Silent mode - no console output at all.
    pub silent: bool,
}

/// Top-level commands.
#[derive(Debug, Clone)]
pub enum Commands {
    /// Create or extract Microsoft Intune packages (`.intunewin`).
    Intune(IntuneCommand),
    /// Create macOS packages (`.pkg`).
    Macos(MacosCommand),
}

/// The `intune` command.
#[derive(Debug, Clone)]
pub struct IntuneCommand {
    pub action: IntuneAction,
}

/// Intune actions.
#[derive(Debug, Clone)]
pub enum IntuneAction {
    /// Create a new `.intunewin` package.
    Create(IntuneCreateArgs),
    /// Extract an existing `.intunewin` package.
    Extract(IntuneExtractArgs),
}

/// Arguments for creating Intune packages.
#[derive(Debug, Clone)]
pub struct IntuneCreateArgs {
    /// Source folder containing the files to package.
    pub content_folder: String,
    /// Setup file name within the source folder.
    pub setup_file: String,
    /// Output folder for the `.intunewin` file.
    pub output_folder: String,
    /// Custom output filename (optional, without extension).
    pub output_name: Option<String>,
}

/// Arguments for extracting Intune packages.
#[derive(Debug, Clone)]
pub struct IntuneExtractArgs {
    /// Input `.intunewin` file to extract.
    pub input_file: String,
    /// Output folder for the extracted files.
    pub output_folder: String,
}

/// The `macos` command.
#[derive(Debug, Clone)]
pub struct MacosCommand {
    pub action: MacosAction,
}

/// macOS actions.
#[derive(Debug, Clone)]
pub enum MacosAction {
    /// Create a macOS flat package (`.pkg`).
    Pkg(MacosPkgArgs),
}

/// Arguments for creating macOS packages.
#[derive(Debug, Clone)]
pub struct MacosPkgArgs {
    /// Source folder containing the files to package.
    pub content_folder: String,
    /// Output path of the `.pkg` file.
    pub output: String,
    /// Package identifier (reverse-DNS format, such as `com.company.app`).
    pub identifier: String,
    /// Package version (such as `1.0.0`).
    pub version: String,
    /// Installation location (`/` unless given).
    pub install_location: String,
    /// Scripts folder containing preinstall and postinstall scripts.
    pub scripts_folder: Option<String>,
}

/// The flat arguments of earlier versions, kept for compatibility.
#[derive(Debug, Clone, Default)]
pub struct LegacyCliArgs {
    /// Source folder containing the files to package.
    pub content_folder: Option<String>,
    /// Setup file name within the source folder.
    pub setup_file: Option<String>,
    /// Output folder for the `.intunewin` file, or for the extracted files.
    pub output_folder: Option<String>,
    /// Custom output filename (optional, without extension).
    pub output_name: Option<String>,
    /// An existing `.intunewin` file to unpack instead of creating one.
    pub unpack_file: Option<String>,
    /// Quiet mode - no prompts, overwrite existing files.
    pub quiet: bool,
    /// Silent mode - no console output at all.
    pub silent: bool,
}

impl CliArgs {
    /// The verbosity level.
    pub fn verbosity(&self) -> (verbosity: Verbosity)
        ensures
            verbosity == verbosity_of(self.quiet, self.silent),
    {
        if self.silent {
            Verbosity::Silent
        } else if self.quiet {
            Verbosity::Quiet
        } else {
            Verbosity::Normal
        }
    }
}

/// An argument that is required and missing.
fn missing(what: &str) -> (e: PackageError)
    ensures
        e matches PackageError::InvalidArgument { reason } && reason@ == what@,
{
    PackageError::InvalidArgument { reason: String::from_str(what) }
}

impl LegacyCliArgs {
    /// Whether an existing package is to be unpacked.
    pub fn is_unpack_mode(&self) -> (unpack: bool)
        ensures
            unpack == self.unpack_file is Some,
    {
        self.unpack_file.is_some()
    }

    /// Whether the operator has to be asked: a required argument is missing,
    /// nothing is to be unpacked, and neither quiet nor silent mode is on.
    pub fn needs_interactive(&self) -> (needed: bool)
        ensures
            needed == (self.unpack_file is None && (self.content_folder is None
                || self.setup_file is None || self.output_folder is None) && !self.quiet
                && !self.silent),
    {
        if self.is_unpack_mode() {
            return false;
        }
        let missing_required = self.content_folder.is_none() || self.setup_file.is_none()
            || self.output_folder.is_none();
        missing_required && !self.quiet && !self.silent
    }

    /// The verbosity level.
    pub fn verbosity(&self) -> (verbosity: Verbosity)
        ensures
            verbosity == verbosity_of(self.quiet, self.silent),
    {
        if self.silent {
            Verbosity::Silent
        } else if self.quiet {
            Verbosity::Quiet
        } else {
            Verbosity::Normal
        }
    }

    /// The package request that the arguments stand for. The source folder,
    /// the setup file and the output folder are required; the first that is
    /// missing is reported.
    pub fn to_package_request(&self) -> (result: PackageResult<PackageRequest>)
        ensures
            self.content_folder is None ==> (result matches Err(
                PackageError::InvalidArgument { reason },
            ) && reason@ == "Source folder (-c) is required"@),
            self.content_folder is Some && self.setup_file is None ==> (result matches Err(
                PackageError::InvalidArgument { reason },
            ) && reason@ == "Setup file (-s) is required"@),
            self.content_folder is Some && self.setup_file is Some && self.output_folder is None
                ==> (result matches Err(PackageError::InvalidArgument { reason }) && reason@
                == "Output folder (-o) is required"@),
            self.content_folder is Some && self.setup_file is Some && self.output_folder is Some
                ==> (result matches Ok(request) && {
                &&& request.source_folder@ == self.content_folder->0@
                &&& request.setup_file@ == self.setup_file->0@
                &&& request.output_folder@ == self.output_folder->0@
                &&& request.output_name is Some == self.output_name is Some
                &&& self.output_name is Some ==> request.output_name->0@ == self.output_name->0@
                &&& request.verbosity == verbosity_of(self.quiet, self.silent)
            }),
    {
        let content_folder = match &self.content_folder {
            Some(folder) => folder.clone(),
            None => {
                return Err(missing("Source folder (-c) is required"));
            },
        };
        let setup_file = match &self.setup_file {
            Some(file) => file.clone(),
            None => {
                return Err(missing("Setup file (-s) is required"));
            },
        };
        let output_folder = match &self.output_folder {
            Some(folder) => folder.clone(),
            None => {
                return Err(missing("Output folder (-o) is required"));
            },
        };
        let request = PackageRequest::new(content_folder, setup_file, output_folder).with_verbosity(
            self.verbosity(),
        );
        match &self.output_name {
            Some(name) => Ok(request.with_output_name(name.clone())),
            None => Ok(request),
        }
    }

    /// The unpack request that the arguments stand for. The input file and
    /// the output folder are required; the first that is missing is
    /// reported.
    pub fn to_unpack_request(&self) -> (result: PackageResult<UnpackRequest>)
        ensures
            self.unpack_file is None ==> (result matches Err(
                PackageError::InvalidArgument { reason },
            ) && reason@ == "Input file (-u/--unpack) is required"@),
            self.unpack_file is Some && self.output_folder is None ==> (result matches Err(
                PackageError::InvalidArgument { reason },
            ) && reason@ == "Output folder (-o) is required for unpacking"@),
            self.unpack_file is Some && self.output_folder is Some ==> (result matches Ok(request)
                && {
                &&& request.input_file@ == self.unpack_file->0@
                &&& request.output_folder@ == self.output_folder->0@
                &&& request.verbosity == verbosity_of(self.quiet, self.silent)
            }),
    {
        let input_file = match &self.unpack_file {
            Some(file) => file.clone(),
            None => {
                return Err(missing("Input file (-u/--unpack) is required"));
            },
        };
        let output_folder = match &self.output_folder {
            Some(folder) => folder.clone(),
            None => {
                return Err(missing("Output folder (-o) is required for unpacking"));
            },
        };
        Ok(UnpackRequest::new(input_file, output_folder).with_verbosity(self.verbosity()))
    }
}

impl IntuneCreateArgs {
    /// The package request that the arguments stand for.
    pub fn to_package_request(&self, verbosity: Verbosity) -> (request: PackageRequest)
        ensures
            request.source_folder@ == self.content_folder@,
            request.setup_file@ == self.setup_file@,
            request.output_folder@ == self.output_folder@,
            request.output_name is Some == self.output_name is Some,
            self.output_name is Some ==> request.output_name->0@ == self.output_name->0@,
            request.verbosity == verbosity,
    {
        let request = PackageRequest::new(
            self.content_folder.clone(),
            self.setup_file.clone(),
            self.output_folder.clone(),
        ).with_verbosity(verbosity);
        match &self.output_name {
            Some(name) => request.with_output_name(name.clone()),
            None => request,
        }
    }
}

impl IntuneExtractArgs {
    /// The unpack request that the arguments stand for.
    pub fn to_unpack_request(&self, verbosity: Verbosity) -> (request: UnpackRequest)
        ensures
            request.input_file@ == self.input_file@,
            request.output_folder@ == self.output_folder@,
            request.verbosity == verbosity,
    {
        UnpackRequest::new(self.input_file.clone(), self.output_folder.clone()).with_verbosity(
            verbosity,
        )
    }
}

} // verus!
