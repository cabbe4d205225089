//! Process exit codes, one per kind of outcome.

use vstd::prelude::*;

verus! {

/// Success.
pub const SUCCESS: i32 = 0;

/// General error (I/O, permissions, malformed input files).
pub const ERROR: i32 = 1;

/// Invalid or missing required arguments.
pub const INVALID_ARGS: i32 = 2;

/// The source folder is empty.
pub const EMPTY_SOURCE: i32 = 3;

/// The setup file was not found in the source folder.
pub const SETUP_NOT_FOUND: i32 = 4;

/// The output could not be written.
pub const OUTPUT_ERROR: i32 = 5;

/// The scripts folder was not found.
pub const SCRIPTS_NOT_FOUND: i32 = 6;

/// The operator cancelled the operation.
pub const CANCELLED: i32 = 7;

} // verus!
