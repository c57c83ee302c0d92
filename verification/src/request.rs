//! The immutable description of one installation run.

use vstd::prelude::*;

verus! {

/// Everything one installation run depends on: the source URL, the force and
/// keep flags, and an optional explicit output directory. Immutable once
/// constructed; it fully determines the run.
pub struct InstallRequest {
    /// The URL the archive is fetched from, as given (still percent-encoded).
    pub source_url: Vec<u8>,
    /// Fetch the archive even when a file of its name already exists.
    pub force_redownload: bool,
    /// Extract even when the target directory already exists.
    pub force_reinstall: bool,
    /// Do not delete the archive file after a successful extraction.
    pub keep_archive: bool,
    /// Write the fixed license-acceptance marker into the target directory.
    pub accept_license: bool,
    /// Hand the installed directory to the server launcher at the end.
    pub start_after_install: bool,
    /// When present, names the target directory instead of the URL-derived name.
    pub output_directory_override: Option<Vec<u8>>,
}

} // verus!
