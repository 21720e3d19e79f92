//! A local, single-user version-tracking library.
//!
//! Directories are grouped into named modules; each module holds named
//! versions, and every version's working tree can be snapshotted into a
//! compressed, content-addressed object and restored later.  The heart of
//! the crate is the snapshot engine: a canonical, order-stable serialization
//! of a directory tree, a lossless text encoding with a proven decode/encode
//! round trip, a compressed object format, a deterministic storage-key
//! derivation, and a structural diff between two snapshots.
//!
//! The library itself performs no I/O.  Directory walks, file reads and
//! writes, and configuration persistence live in the surrounding layer,
//! which hands trees, stored bytes and configuration records in as values.

pub mod b64;
pub mod bytes;
pub mod cli;
pub mod codec;
pub mod commands;
pub mod config;
pub mod diff;
pub mod entry;
pub mod errors;
pub mod flate;
pub mod handlers;
pub mod locator;
pub mod meta;
pub mod module;
pub mod repository;
pub mod tree;
pub mod version;

pub use cli::Branch;
pub use cli::Cli;
pub use cli::Command;
pub use cli::ModuleCommand;
pub use cli::VersionCommand;
pub use commands::VersionsCli;
pub use commands::VersionsCliCommand;
pub use commands::commands;
pub use config::LocalConfig;
pub use config::ModulesConfig;
pub use entry::StreamEntriesSet;
pub use entry::StreamEntry;
pub use entry::StreamEntryType;
pub use errors::VersionsError;
pub use locator::get_file_name;
pub use locator::get_version_object_file_path;
pub use meta::ModulePtr;
pub use meta::RepositoryPtr;
pub use module::Module;
pub use repository::Repository;
pub use version::Version;
