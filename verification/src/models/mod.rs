//! Data models shared by the builders.

pub mod detection;
pub mod error;
pub mod macos;
pub mod package;

pub use detection::{DetectionMetadata, EncryptionInfo};
pub use error::{PackageError, PackageResult};
pub use macos::{MacosPkgRequest, MacosPkgResult, PackagePayload, PayloadFile};
pub use package::{IntuneWinPackage, PackageRequest, SourceFile, SourcePackage, Verbosity};
