use mcmpi::error::InstallError;
use mcmpi::plan::plan_install;
use mcmpi::plan::DiskState;
use mcmpi::request::InstallRequest;

fn request() -> InstallRequest {
    InstallRequest {
        source_url: b"https://example.com/pack.zip".to_vec(),
        force_redownload: false,
        force_reinstall: false,
        keep_archive: false,
        accept_license: false,
        start_after_install: false,
        output_directory_override: None,
    }
}

/// The disk state a successful run leaves behind, mirroring the library's
/// model of one run.
fn disk_after(req: &InstallRequest, d: &DiskState) -> DiskState {
    let p = plan_install(req, d);
    DiskState {
        archive_exists: (d.archive_exists || p.download) && !p.delete_archive,
        target_exists: d.target_exists || p.extract,
        metadata_exists: true,
    }
}

#[test]
fn first_run_on_empty_disk_does_everything() {
    let req = request();
    let d = DiskState { archive_exists: false, target_exists: false, metadata_exists: false };
    let p = plan_install(&req, &d);
    assert!(p.download);
    assert!(p.extract);
    assert!(p.delete_archive);
    assert!(!p.write_license);
    assert!(p.write_metadata);
    assert!(!p.launch);
}

#[test]
fn second_run_with_kept_archive_skips_download_and_extract() {
    let mut req = request();
    req.keep_archive = true;
    let d0 = DiskState { archive_exists: false, target_exists: false, metadata_exists: false };
    let d1 = disk_after(&req, &d0);
    let p2 = plan_install(&req, &d1);
    assert!(!p2.download);
    assert!(!p2.extract);
    let d2 = disk_after(&req, &d1);
    assert_eq!(d1.archive_exists, d2.archive_exists);
    assert_eq!(d1.target_exists, d2.target_exists);
    assert_eq!(d1.metadata_exists, d2.metadata_exists);
}

#[test]
fn force_redownload_alone_does_not_reextract() {
    let mut req = request();
    req.force_redownload = true;
    let d = DiskState { archive_exists: true, target_exists: true, metadata_exists: true };
    let p = plan_install(&req, &d);
    assert!(p.download);
    assert!(!p.extract);
    assert!(!p.delete_archive);
}

#[test]
fn metadata_written_once_across_forced_runs() {
    let mut req = request();
    req.force_redownload = true;
    req.force_reinstall = true;
    let mut d = DiskState { archive_exists: false, target_exists: false, metadata_exists: false };
    let mut writes: u32 = 0;
    for _ in 0..5 {
        let p = plan_install(&req, &d);
        if p.write_metadata {
            writes += 1;
        }
        d = disk_after(&req, &d);
    }
    assert_eq!(writes, 1);
}

#[test]
fn existing_target_skips_extraction_but_not_metadata() {
    let req = request();
    let d = DiskState { archive_exists: true, target_exists: true, metadata_exists: false };
    let p = plan_install(&req, &d);
    assert!(!p.download);
    assert!(!p.extract);
    assert!(!p.delete_archive);
    assert!(p.write_metadata);
}

#[test]
fn license_and_launch_follow_their_flags_alone() {
    let mut req = request();
    req.accept_license = true;
    req.start_after_install = true;
    let d = DiskState { archive_exists: true, target_exists: true, metadata_exists: true };
    let p = plan_install(&req, &d);
    assert!(p.write_license);
    assert!(p.launch);
    assert!(!p.write_metadata);
}

#[test]
fn exit_codes_are_distinct_and_nonzero() {
    let kinds = [
        InstallError::NameExtraction,
        InstallError::Download,
        InstallError::ArchiveOpen,
        InstallError::UnsafePath,
        InstallError::DirectoryCreate,
        InstallError::FileCreate,
        InstallError::Copy,
        InstallError::ArchiveDelete,
        InstallError::MetadataWrite,
        InstallError::ToolMissing,
        InstallError::LaunchScriptMissing,
    ];
    let codes: Vec<i32> = kinds.iter().map(|k| k.exit_code()).collect();
    for (i, a) in codes.iter().enumerate() {
        assert_ne!(*a, 0);
        for b in codes.iter().skip(i + 1) {
            assert_ne!(*a, *b);
        }
    }
}
