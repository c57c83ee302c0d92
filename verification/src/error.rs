//! The closed set of failure kinds an installation run can end with, and the
//! distinct process exit code assigned to each for scriptability.

use vstd::prelude::*;

verus! {

/// Every way an installation run can fail, one tag per step that can go wrong.
#[derive(Clone, Copy, Debug, PartialEq, Eq, Structural)]
pub enum InstallError {
    /// The URL has no extractable final segment to name the install after.
    NameExtraction,
    /// The archive could not be fetched from the source URL.
    Download,
    /// The archive file is missing, unreadable, or not a valid zip container.
    ArchiveOpen,
    /// An archive entry's stored path would land outside the target directory.
    UnsafePath,
    /// A directory could not be created while materializing entries.
    DirectoryCreate,
    /// A destination file could not be created.
    FileCreate,
    /// An entry's bytes could not be copied out.
    Copy,
    /// The archive could not be deleted after a successful extraction.
    ArchiveDelete,
    /// The provenance marker could not be written.
    MetadataWrite,
    /// The session-multiplexer tool is not available on this machine.
    ToolMissing,
    /// Neither launch-script candidate exists in the target directory.
    LaunchScriptMissing,
}

/// The exit code assigned to each failure kind; `0` is reserved for success.
pub open spec fn spec_exit_code(e: InstallError) -> int {
    match e {
        InstallError::NameExtraction => 10,
        InstallError::Download => 11,
        InstallError::ArchiveOpen => 12,
        InstallError::UnsafePath => 13,
        InstallError::DirectoryCreate => 14,
        InstallError::FileCreate => 15,
        InstallError::Copy => 16,
        InstallError::ArchiveDelete => 17,
        InstallError::MetadataWrite => 18,
        InstallError::ToolMissing => 19,
        InstallError::LaunchScriptMissing => 20,
    }
}

impl InstallError {
    /// The process exit code for this failure kind, never the success code `0`.
    pub fn exit_code(&self) -> (c: i32)
        ensures
            c == spec_exit_code(*self),
            c != 0,
    {
        match self {
            InstallError::NameExtraction => 10,
            InstallError::Download => 11,
            InstallError::ArchiveOpen => 12,
            InstallError::UnsafePath => 13,
            InstallError::DirectoryCreate => 14,
            InstallError::FileCreate => 15,
            InstallError::Copy => 16,
            InstallError::ArchiveDelete => 17,
            InstallError::MetadataWrite => 18,
            InstallError::ToolMissing => 19,
            InstallError::LaunchScriptMissing => 20,
        }
    }
}

/// Exit codes are distinct: no two failure kinds map to the same code, so a
/// caller can recover the kind from the code alone.
pub proof fn lemma_exit_codes_distinct(a: InstallError, b: InstallError)
    requires
        a != b,
    ensures
        spec_exit_code(a) != spec_exit_code(b),
{
}

} // verus!
