//! The commands the tool understands, as plain data.
//!
//! The surrounding layer parses the command line into these values and
//! displays the results; the library only ever sees the parsed command.

use vstd::prelude::*;

verus! {

/// A parsed invocation: one command.
pub struct Cli {
    pub command: Command,
}

/// The top-level commands.
pub enum Command {
    /// Initialize a repository here.
    Init,
    /// A module operation.
    Module { module_command: ModuleCommand },
    /// A version operation, on the named module or on the selected one.
    Version { name: Option<Vec<u8>>, version_command: VersionCommand },
    /// Show the repository's modules and versions.
    Show,
    /// Generate shell completions.
    Completions,
}

/// The module operations.
pub enum ModuleCommand {
    /// Create a module over a directory.
    Add { name: Vec<u8>, path: Option<Vec<u8>> },
    /// Remove a module and its versions' stored objects.
    Remove { name: Vec<u8> },
    /// Select a module.
    Select { name: Vec<u8> },
    /// Deselect the current module.
    Deselect,
    /// List modules.
    List,
    /// Show the current module.
    Current,
}

/// The version operations.
pub enum VersionCommand {
    /// Create a version.
    Add { name: Vec<u8> },
    /// Remove a version and its stored object.
    Remove { name: Vec<u8> },
    /// Check a version out.
    Select { name: Vec<u8> },
    /// Deselect the current version.
    Deselect,
    /// List versions.
    List,
    /// Show the current version.
    Current,
    /// Report what changed since the last save.
    Status,
    /// Save the current version's working tree.
    Save,
    /// Restore the current version's last saved tree.
    Load,
}

/// A named line of history, kept for the surrounding layer's bookkeeping.
pub struct Branch {
    pub name: Vec<u8>,
}

} // verus!
