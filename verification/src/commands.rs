//! The error taxonomies of the subcommands. The subcommands themselves
//! orchestrate processes and file I/O around the library and live with the
//! binary; their failures are these.

use crate::archive::ArchiveError;
use crate::remote::TransferError;
use crate::resolve::ResolveError;
use vstd::prelude::*;

verus! {

/// Failures of the zip-and-copy-directory operation.
pub enum DirError {
    ArchiveError(ArchiveError),
    ResolveError(ResolveError),
    TransferError(TransferError),
}

/// Failures of the dump-to-share operation.
pub enum DumpError {
    /// The path to dump does not exist.
    NotFound(String),
    ArchiveError(ArchiveError),
    ResolveError(ResolveError),
    TransferError(TransferError),
}

/// Failures of the single-file copy.
pub enum FileError {
    /// The local file does not exist.
    NotFound(String),
    /// The local path is a directory, not a file.
    IsDirectory(String),
    ResolveError(ResolveError),
    TransferError(TransferError),
    /// The remote file is already there and overwriting was not asked.
    RemoteExists(String),
}

/// Failures of the pull operation.
pub enum PullError {
    ResolveError(ResolveError),
    TransferError(TransferError),
    /// The downloaded archive could not be extracted.
    ExtractError(String),
    /// The current working directory could not be determined.
    NoCwd,
}

} // verus!
