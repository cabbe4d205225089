//! The error type shared by every component, with its exit-code mapping.

use vstd::prelude::*;
use vstd::string::StringExecFns;

pub mod exit_codes;

verus! {

/// Errors that can occur while building or reading a package.
///
/// Paths are carried as text, so that messages can name them.
#[derive(Debug, Clone)]
pub enum PackageError {
    /// Source folder not found or not a directory.
    SourceFolderNotFound { path: String },
    /// Source folder holds no file.
    SourceFolderEmpty { path: String },
    /// Setup file not found in the source folder.
    SetupFileNotFound { file: String, folder: String },
    /// Output folder could not be created.
    OutputFolderCreationFailed { path: String, reason: String },
    /// Output file already exists and overwriting was not allowed.
    OutputFileExists { path: String },
    /// A source file could not be read.
    SourceReadError { path: String, reason: String },
    /// Encryption failed.
    EncryptionError { reason: String },
    /// The output could not be written.
    OutputWriteError { path: String, reason: String },
    /// A ZIP archive could not be written or read.
    ZipError { reason: String },
    /// An XML document could not be written or read.
    XmlError { reason: String },
    /// An argument is invalid or missing.
    InvalidArgument { reason: String },
    /// The operator cancelled the operation.
    Cancelled,
    /// The input is no valid `.intunewin` file.
    InvalidIntunewinFile { path: String, reason: String },
    /// The encrypted content is malformed.
    DecryptionError { reason: String },
    /// The message authentication code does not match the content.
    HmacVerificationFailed,
    /// The decrypted data ends in invalid padding.
    InvalidPadding,
    /// Scripts folder not found.
    ScriptsFolderNotFound { path: String },
    /// Scripts folder holds neither `preinstall` nor `postinstall`.
    NoScriptsFound { path: String },
    /// The XAR archive could not be assembled.
    XarError { reason: String },
    /// The CPIO archive could not be assembled.
    CpioError { reason: String },
    /// The bill of materials could not be assembled.
    BomError { reason: String },
    /// An input or output operation failed.
    Io(String),
}

/// Result type of the package operations.
pub type PackageResult<T> = Result<T, PackageError>;

/// The exit code that stands for an error.
pub open spec fn exit_code_of(e: PackageError) -> i32 {
    match e {
        PackageError::SourceFolderEmpty { .. } => exit_codes::EMPTY_SOURCE,
        PackageError::SetupFileNotFound { .. } => exit_codes::SETUP_NOT_FOUND,
        PackageError::OutputFolderCreationFailed { .. } => exit_codes::OUTPUT_ERROR,
        PackageError::OutputWriteError { .. } => exit_codes::OUTPUT_ERROR,
        PackageError::InvalidArgument { .. } => exit_codes::INVALID_ARGS,
        PackageError::Cancelled => exit_codes::CANCELLED,
        PackageError::ScriptsFolderNotFound { .. } => exit_codes::SCRIPTS_NOT_FOUND,
        _ => exit_codes::ERROR,
    }
}

/// The text that describes an error to the operator.
pub open spec fn message_of(e: PackageError) -> Seq<char> {
    match e {
        PackageError::SourceFolderNotFound { path } => "Source folder not found: "@ + path@,
        PackageError::SourceFolderEmpty { path } => "Source folder is empty: "@ + path@,
        PackageError::SetupFileNotFound { file, folder } => "Setup file '"@ + file@
            + "' not found in "@ + folder@,
        PackageError::OutputFolderCreationFailed { path, reason } =>
            "Failed to create output folder '"@ + path@ + "': "@ + reason@,
        PackageError::OutputFileExists { path } => "Output file already exists: "@ + path@,
        PackageError::SourceReadError { path, reason } => "Failed to read source file '"@ + path@
            + "': "@ + reason@,
        PackageError::EncryptionError { reason } => "Encryption error: "@ + reason@,
        PackageError::OutputWriteError { path, reason } => "Failed to write output to '"@ + path@
            + "': "@ + reason@,
        PackageError::ZipError { reason } => "ZIP creation error: "@ + reason@,
        PackageError::XmlError { reason } => "XML generation error: "@ + reason@,
        PackageError::InvalidArgument { reason } => "Invalid argument: "@ + reason@,
        PackageError::Cancelled => "Operation cancelled by user"@,
        PackageError::InvalidIntunewinFile { path, reason } => "Invalid .intunewin file '"@
            + path@ + "': "@ + reason@,
        PackageError::DecryptionError { reason } => "Decryption error: "@ + reason@,
        PackageError::HmacVerificationFailed =>
            "HMAC verification failed - file may be corrupted or tampered"@,
        PackageError::InvalidPadding => "Invalid padding in decrypted data"@,
        PackageError::ScriptsFolderNotFound { path } => "Scripts folder not found: "@ + path@,
        PackageError::NoScriptsFound { path } =>
            "No preinstall or postinstall scripts found in: "@ + path@,
        PackageError::XarError { reason } => "XAR archive error: "@ + reason@,
        PackageError::CpioError { reason } => "CPIO archive error: "@ + reason@,
        PackageError::BomError { reason } => "BOM file error: "@ + reason@,
        PackageError::Io(reason) => "I/O error: "@ + reason@,
    }
}

/// `prefix` followed by `rest`.
fn join2(prefix: &str, rest: &str) -> (s: String)
    ensures
        s@ == prefix@ + rest@,
{
    let mut s = String::from_str(prefix);
    s.append(rest);
    s
}

/// `a`, `b`, `c` and `d` one after another.
fn join4(a: &str, b: &str, c: &str, d: &str) -> (s: String)
    ensures
        s@ == a@ + b@ + c@ + d@,
{
    let mut s = String::from_str(a);
    s.append(b);
    s.append(c);
    s.append(d);
    s
}

impl PackageError {
    /// The exit code for this error.
    pub fn exit_code(&self) -> (code: i32)
        ensures
            code == exit_code_of(*self),
    {
        match self {
            PackageError::SourceFolderNotFound { .. } => exit_codes::ERROR,
            PackageError::SourceFolderEmpty { .. } => exit_codes::EMPTY_SOURCE,
            PackageError::SetupFileNotFound { .. } => exit_codes::SETUP_NOT_FOUND,
            PackageError::OutputFolderCreationFailed { .. } => exit_codes::OUTPUT_ERROR,
            PackageError::OutputFileExists { .. } => exit_codes::ERROR,
            PackageError::SourceReadError { .. } => exit_codes::ERROR,
            PackageError::EncryptionError { .. } => exit_codes::ERROR,
            PackageError::OutputWriteError { .. } => exit_codes::OUTPUT_ERROR,
            PackageError::ZipError { .. } => exit_codes::ERROR,
            PackageError::XmlError { .. } => exit_codes::ERROR,
            PackageError::InvalidArgument { .. } => exit_codes::INVALID_ARGS,
            PackageError::Cancelled => exit_codes::CANCELLED,
            PackageError::InvalidIntunewinFile { .. } => exit_codes::ERROR,
            PackageError::DecryptionError { .. } => exit_codes::ERROR,
            PackageError::HmacVerificationFailed => exit_codes::ERROR,
            PackageError::InvalidPadding => exit_codes::ERROR,
            PackageError::ScriptsFolderNotFound { .. } => exit_codes::SCRIPTS_NOT_FOUND,
            PackageError::NoScriptsFound { .. } => exit_codes::ERROR,
            PackageError::XarError { .. } => exit_codes::ERROR,
            PackageError::CpioError { .. } => exit_codes::ERROR,
            PackageError::BomError { .. } => exit_codes::ERROR,
            PackageError::Io(_) => exit_codes::ERROR,
        }
    }

    /// The text that describes this error to the operator.
    pub fn message(&self) -> (text: String)
        ensures
            text@ == message_of(*self),
    {
        match self {
            PackageError::SourceFolderNotFound { path } => join2(
                "Source folder not found: ",
                path.as_str(),
            ),
            PackageError::SourceFolderEmpty { path } => join2(
                "Source folder is empty: ",
                path.as_str(),
            ),
            PackageError::SetupFileNotFound { file, folder } => join4(
                "Setup file '",
                file.as_str(),
                "' not found in ",
                folder.as_str(),
            ),
            PackageError::OutputFolderCreationFailed { path, reason } => join4(
                "Failed to create output folder '",
                path.as_str(),
                "': ",
                reason.as_str(),
            ),
            PackageError::OutputFileExists { path } => join2(
                "Output file already exists: ",
                path.as_str(),
            ),
            PackageError::SourceReadError { path, reason } => join4(
                "Failed to read source file '",
                path.as_str(),
                "': ",
                reason.as_str(),
            ),
            PackageError::EncryptionError { reason } => join2(
                "Encryption error: ",
                reason.as_str(),
            ),
            PackageError::OutputWriteError { path, reason } => join4(
                "Failed to write output to '",
                path.as_str(),
                "': ",
                reason.as_str(),
            ),
            PackageError::ZipError { reason } => join2("ZIP creation error: ", reason.as_str()),
            PackageError::XmlError { reason } => join2("XML generation error: ", reason.as_str()),
            PackageError::InvalidArgument { reason } => join2(
                "Invalid argument: ",
                reason.as_str(),
            ),
            PackageError::Cancelled => String::from_str("Operation cancelled by user"),
            PackageError::InvalidIntunewinFile { path, reason } => join4(
                "Invalid .intunewin file '",
                path.as_str(),
                "': ",
                reason.as_str(),
            ),
            PackageError::DecryptionError { reason } => join2(
                "Decryption error: ",
                reason.as_str(),
            ),
            PackageError::HmacVerificationFailed => String::from_str(
                "HMAC verification failed - file may be corrupted or tampered",
            ),
            PackageError::InvalidPadding => String::from_str("Invalid padding in decrypted data"),
            PackageError::ScriptsFolderNotFound { path } => join2(
                "Scripts folder not found: ",
                path.as_str(),
            ),
            PackageError::NoScriptsFound { path } => join2(
                "No preinstall or postinstall scripts found in: ",
                path.as_str(),
            ),
            PackageError::XarError { reason } => join2("XAR archive error: ", reason.as_str()),
            PackageError::CpioError { reason } => join2("CPIO archive error: ", reason.as_str()),
            PackageError::BomError { reason } => join2("BOM file error: ", reason.as_str()),
            PackageError::Io(reason) => join2("I/O error: ", reason.as_str()),
        }
    }
}

} // verus!
