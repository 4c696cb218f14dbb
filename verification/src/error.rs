//! The ways resolution and lookup can fail.

use vstd::prelude::*;

verus! {

/// Why a configuration could not be built, or a value not be handed out.
#[derive(Debug, PartialEq, Eq)]
pub enum CfgError {
    /// A drop-in directory exists but its contents could not be listed.
    DropinDirUnreadable { path: String },
    /// A configuration file is malformed, or its format is not known.
    Parse { path: String, message: String },
    /// The value under the key cannot be read as the type asked for.
    TypeMismatch { key: String, message: String },
    /// No layer defines the key.
    KeyNotFound { key: String },
}

} // verus!
