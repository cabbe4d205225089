//! The command line: arguments, the requests they stand for, and exit codes.

pub mod args;
pub mod interactive;

use vstd::prelude::*;
use vstd::string::StringExecFns;

use crate::models::error::{exit_code_of, exit_codes, PackageError, PackageResult};
use crate::models::macos::MacosPkgRequest;
use crate::models::package::{PackageRequest, UnpackRequest, Verbosity};
use crate::paths::{file_stem, parent_of, parent_path, stem_of, PathFacts};

use self::args::{verbosity_of, CliArgs, Commands, IntuneAction, MacosAction, MacosPkgArgs};

verus! {

/// The failure of a call without a command in quiet or silent mode, where
/// the operator cannot be asked.
pub fn no_command() -> (e: PackageError)
    ensures
        e matches PackageError::InvalidArgument { reason } && reason@
            == "No command specified. Use 'intune' or 'macos' subcommand."@,
{
    PackageError::InvalidArgument {
        reason: String::from_str("No command specified. Use 'intune' or 'macos' subcommand."),
    }
}

/// The exit code of the program for the outcome of its command: 0 on
/// success, else the code of the error.
pub fn exit_code_for(outcome: &PackageResult<()>) -> (code: i32)
    ensures
        match *outcome {
            Ok(_) => code == exit_codes::SUCCESS,
            Err(e) => code == exit_code_of(e),
        },
{
    match outcome {
        Ok(_) => exit_codes::SUCCESS,
        Err(e) => e.exit_code(),
    }
}

/// Whether the source folder of a macOS package can be used: it must exist,
/// and hold something.
pub fn check_source_folder(content_folder: &str, folder: PathFacts, is_empty: bool) -> (result:
    PackageResult<()>)
    ensures
        !folder.exists ==> (result matches Err(PackageError::SourceFolderNotFound { path })
            && path@ == content_folder@),
        folder.exists && is_empty ==> (result matches Err(
            PackageError::SourceFolderEmpty { path },
        ) && path@ == content_folder@),
        folder.exists && !is_empty ==> result is Ok,
{
    if !folder.exists {
        return Err(PackageError::SourceFolderNotFound { path: String::from_str(content_folder) });
    }
    if is_empty {
        return Err(PackageError::SourceFolderEmpty { path: String::from_str(content_folder) });
    }
    Ok(())
}

/// The folder that the output path of a macOS package lies in: its parent,
/// or `.` where it has none.
pub open spec fn output_folder_of(output: Seq<char>) -> Seq<char> {
    match parent_of(output) {
        Some(folder) => folder,
        None => "."@,
    }
}

/// The request that the arguments of `macos pkg` stand for: the package is
/// written into the folder of the output path, under the stem of its name.
pub fn macos_pkg_request(args: &MacosPkgArgs, verbosity: Verbosity) -> (request: MacosPkgRequest)
    ensures
        request.source_folder@ == args.content_folder@,
        request.identifier@ == args.identifier@,
        request.version@ == args.version@,
        request.install_location@ == args.install_location@,
        request.output_folder@ == output_folder_of(args.output@),
        match stem_of(args.output@) {
            Some(stem) => request.output_name matches Some(name) && name@ == stem,
            None => request.output_name is None,
        },
        match args.scripts_folder {
            Some(folder) => request.scripts_folder matches Some(scripts) && scripts@ == folder@,
            None => request.scripts_folder is None,
        },
        request.verbosity == verbosity,
{
    let output_folder = match parent_path(args.output.as_str()) {
        Some(folder) => folder,
        None => String::from_str("."),
    };
    let request = MacosPkgRequest::new(
        args.content_folder.clone(),
        args.identifier.clone(),
        args.version.clone(),
        output_folder,
    ).with_install_location(args.install_location.clone()).with_verbosity(verbosity);
    let request = match file_stem(args.output.as_str()) {
        Some(name) => request.with_output_name(name),
        None => request,
    };
    match &args.scripts_folder {
        Some(scripts) => request.with_scripts_folder(scripts.clone()),
        None => request,
    }
}

/// What the program is to do for its arguments.
pub enum Plan {
    /// Create an IntuneWin package.
    CreateIntune(PackageRequest),
    /// Extract an IntuneWin package.
    ExtractIntune(UnpackRequest),
    /// Create a macOS package from the source folder named, which is to be
    /// looked at first.
    CreatePkg { content_folder: String, request: MacosPkgRequest },
    /// Ask the operator what to do.
    Interactive,
    /// Nothing: the arguments name no command, and the operator cannot be
    /// asked.
    Refuse(PackageError),
}

/// What the program is to do for its arguments: the command that they name,
/// with the verbosity that they ask for; without a command, to ask the
/// operator, unless quiet or silent mode forbids it.
pub fn plan(args: &CliArgs) -> (plan: Plan)
    ensures
        match args.command {
            Some(Commands::Intune(command)) => match command.action {
                IntuneAction::Create(create) => plan matches Plan::CreateIntune(request) && {
                    &&& request.source_folder@ == create.content_folder@
                    &&& request.setup_file@ == create.setup_file@
                    &&& request.output_folder@ == create.output_folder@
                    &&& request.output_name is Some == create.output_name is Some
                    &&& create.output_name is Some ==> request.output_name->0@
                        == create.output_name->0@
                    &&& request.verbosity == verbosity_of(args.quiet, args.silent)
                },
                IntuneAction::Extract(extract) => plan matches Plan::ExtractIntune(request) && {
                    &&& request.input_file@ == extract.input_file@
                    &&& request.output_folder@ == extract.output_folder@
                    &&& request.verbosity == verbosity_of(args.quiet, args.silent)
                },
            },
            Some(Commands::Macos(command)) => match command.action {
                MacosAction::Pkg(pkg) => plan matches Plan::CreatePkg { content_folder, request }
                    && {
                    &&& content_folder@ == pkg.content_folder@
                    &&& request.source_folder@ == pkg.content_folder@
                    &&& request.identifier@ == pkg.identifier@
                    &&& request.version@ == pkg.version@
                    &&& request.install_location@ == pkg.install_location@
                    &&& request.output_folder@ == output_folder_of(pkg.output@)
                    &&& request.verbosity == verbosity_of(args.quiet, args.silent)
                },
            },
            None => if args.quiet || args.silent {
                plan matches Plan::Refuse(PackageError::InvalidArgument { reason }) && reason@
                    == "No command specified. Use 'intune' or 'macos' subcommand."@
            } else {
                plan is Interactive
            },
        },
{
    let verbosity = args.verbosity();
    match &args.command {
        Some(Commands::Intune(command)) => match &command.action {
            IntuneAction::Create(create) => Plan::CreateIntune(create.to_package_request(verbosity)),
            IntuneAction::Extract(extract) => Plan::ExtractIntune(
                extract.to_unpack_request(verbosity),
            ),
        },
        Some(Commands::Macos(command)) => match &command.action {
            MacosAction::Pkg(pkg) => Plan::CreatePkg {
                content_folder: pkg.content_folder.clone(),
                request: macos_pkg_request(pkg, verbosity),
            },
        },
        None => {
            if args.quiet || args.silent {
                Plan::Refuse(no_command())
            } else {
                Plan::Interactive
            }
        },
    }
}

} // verus!
