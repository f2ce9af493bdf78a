//! Names for the completion providers the surrounding editor supplies.
//!
//! The interpreter never produces suggestions for argument slots itself: it
//! only decides *which* provider should run and where its replacements land
//! in the line. Each provider is therefore identified by name; the
//! surrounding editor maps the name to the function that actually scans
//! files, buffers, themes and so on.

use vstd::prelude::*;

verus! {

/// Identity of an argument completion provider.
#[derive(Clone, Copy, Debug, PartialEq, Eq, Structural)]
pub enum CompleterKind {
    /// No completion for this slot.
    NoCompletion,
    /// Paths on disk.
    Filename,
    /// Directories on disk.
    Directory,
    /// Open buffers.
    Buffer,
    /// Installed themes.
    Theme,
    /// Configuration option keys.
    Setting,
    /// Registers.
    Register,
    /// Language identifiers.
    Language,
    /// Workspace commands advertised by a language server.
    LspWorkspaceCommand,
}

} // verus!
