//! The error taxonomy of the plugin manager.
//!
//! Every failure of a load, unload, staging or reload step is reported as
//! one of these variants; all are recoverable and are returned to the
//! administrative caller rather than aborting the process.

use vstd::prelude::*;

verus! {

/// An error produced by a plugin-manager operation.
#[derive(Clone, Copy, Debug, PartialEq, Eq, Structural)]
pub enum PluginError {
    /// The module file could not be opened or mapped.
    OpenFailed,
    /// The module does not export the well-known entry point.
    SymbolMissing,
    /// The requested group name is absent from the module's descriptor slice.
    GroupNotFound,
    /// A group with this name is already present in the registry.
    AlreadyLoaded,
    /// No group with this name is present in the registry.
    NotLoaded,
    /// Copying the canonical module file to its staged path failed.
    CopyFailed,
    /// Deleting the staged copy after a successful load failed.
    CleanupFailed,
    /// The external build step of a reload reported failure.
    BuildFailed,
}

} // verus!
