//! Builders for two application-deployment containers: the Microsoft Intune
//! `.intunewin` archive and the macOS flat installer package (`.pkg`).
//!
//! Every byte layout is stated as a specification function over sequences of
//! bytes or characters, and each builder is proved to produce exactly that
//! layout. File access, prompts and argument parsing are left to the caller:
//! the builders take what was read and return what is to be written.

pub mod bytes;
pub mod cli;
pub mod macos;
pub mod models;
pub mod numerals;
pub mod packager;
pub mod paths;
pub mod text;
pub mod xml_text;

pub use models::error::{PackageError, PackageResult};
pub use models::macos::{MacosPkgRequest, MacosPkgResult};
pub use models::package::{IntuneWinPackage, PackageRequest, SourcePackage, Verbosity};
pub use packager::package;
