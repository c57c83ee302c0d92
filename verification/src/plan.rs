//! The idempotent installation state machine: which of the run's steps
//! (download, extract, archive cleanup, license, metadata, launch) execute,
//! decided from the request's flags and what already exists on disk.

use vstd::prelude::*;
use crate::request::InstallRequest;

verus! {

/// What the orchestrator observes on disk before deciding its steps.
pub struct DiskState {
    /// A file of the archive's name already exists.
    pub archive_exists: bool,
    /// The target directory already exists.
    pub target_exists: bool,
    /// The metadata marker inside the target directory already exists.
    pub metadata_exists: bool,
}

/// The steps one run will perform, in this order: download, extract, delete
/// the archive, write the license marker, write the metadata marker, launch.
#[derive(PartialEq, Eq, Structural)]
pub struct InstallPlan {
    /// Fetch the archive from the source URL.
    pub download: bool,
    /// Extract the archive into the target directory.
    pub extract: bool,
    /// Delete the archive file after a successful extraction.
    pub delete_archive: bool,
    /// Replace the license marker with the fixed acceptance content.
    pub write_license: bool,
    /// Write the metadata marker; never performed over an existing one.
    pub write_metadata: bool,
    /// Hand the target directory to the server launcher.
    pub launch: bool,
}

/// The plan a request and a disk state decide: each step is gated by an
/// existence check combined with its force flag; the archive is deleted only
/// when an extraction ran and keeping it was not asked for; metadata is
/// written exactly when the marker is absent, independently of the gates.
pub open spec fn spec_install_plan(req: InstallRequest, d: DiskState) -> InstallPlan {
    InstallPlan {
        download: !(d.archive_exists && !req.force_redownload),
        extract: !(d.target_exists && !req.force_reinstall),
        delete_archive: !(d.target_exists && !req.force_reinstall) && !req.keep_archive,
        write_license: req.accept_license,
        write_metadata: !d.metadata_exists,
        launch: req.start_after_install,
    }
}

/// Decide the run's steps. Pure: the caller observes the disk and performs
/// the chosen steps in order, stopping at the first failure.
pub fn plan_install(req: &InstallRequest, d: &DiskState) -> (p: InstallPlan)
    ensures
        p == spec_install_plan(*req, *d),
{
    let extract = !(d.target_exists && !req.force_reinstall);
    InstallPlan {
        download: !(d.archive_exists && !req.force_redownload),
        extract,
        delete_archive: extract && !req.keep_archive,
        write_license: req.accept_license,
        write_metadata: !d.metadata_exists,
        launch: req.start_after_install,
    }
}

/// The disk state after a run whose performed steps all succeeded: a
/// download leaves the archive present unless the run then deleted it, an
/// extraction leaves the target directory present, and the metadata marker
/// exists afterwards whether this run wrote it or an earlier one did.
pub open spec fn spec_disk_after(p: InstallPlan, d: DiskState) -> DiskState {
    DiskState {
        archive_exists: (d.archive_exists || p.download) && !p.delete_archive,
        target_exists: d.target_exists || p.extract,
        metadata_exists: true,
    }
}

/// Idempotence: after one successful run without force flags, a second run
/// with the same request downloads nothing, extracts nothing, and leaves the
/// modelled disk state exactly as the first run left it. This needs the
/// archive still to be present after the first run — kept explicitly, or
/// because no extraction ran; a run that deleted its archive makes the next
/// run fetch it again.
pub proof fn lemma_idempotent_rerun(req: InstallRequest, d0: DiskState)
    requires
        !req.force_redownload,
        !req.force_reinstall,
        req.keep_archive || d0.target_exists,
    ensures
        ({
            let d1 = spec_disk_after(spec_install_plan(req, d0), d0);
            let p2 = spec_install_plan(req, d1);
            &&& !p2.download
            &&& !p2.extract
            &&& spec_disk_after(p2, d1) == d1
        }),
{
}

/// The force flags are independent: forcing a redownload while the target
/// directory exists re-fetches the archive but still skips the extraction.
pub proof fn lemma_force_flags_independent(req: InstallRequest, d: DiskState)
    requires
        req.force_redownload,
        !req.force_reinstall,
        d.target_exists,
    ensures
        spec_install_plan(req, d).download,
        !spec_install_plan(req, d).extract,
{
}

/// The disk state after a sequence of successful runs, applied in order.
pub open spec fn spec_run_seq(reqs: Seq<InstallRequest>, d: DiskState) -> DiskState
    decreases reqs.len(),
{
    if reqs.len() == 0 {
        d
    } else {
        spec_run_seq(reqs.skip(1), spec_disk_after(spec_install_plan(reqs[0], d), d))
    }
}

/// How many of a sequence of successful runs write the metadata marker.
pub open spec fn spec_metadata_writes(reqs: Seq<InstallRequest>, d: DiskState) -> nat
    decreases reqs.len(),
{
    if reqs.len() == 0 {
        0
    } else {
        (if spec_install_plan(reqs[0], d).write_metadata {
            1nat
        } else {
            0nat
        }) + spec_metadata_writes(reqs.skip(1), spec_disk_after(spec_install_plan(reqs[0], d), d))
    }
}

/// The metadata marker is written exactly once per target directory: across
/// any sequence of successful runs — whatever their force flags — starting
/// without the marker, exactly one run writes it, and none does when it was
/// already there.
pub proof fn lemma_metadata_written_once(reqs: Seq<InstallRequest>, d: DiskState)
    ensures
        spec_metadata_writes(reqs, d) == if d.metadata_exists || reqs.len() == 0 {
            0nat
        } else {
            1nat
        },
    decreases reqs.len(),
{
    if reqs.len() > 0 {
        lemma_metadata_written_once(
            reqs.skip(1),
            spec_disk_after(spec_install_plan(reqs[0], d), d),
        );
    }
}

} // verus!
