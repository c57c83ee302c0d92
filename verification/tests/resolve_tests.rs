use mcmpi::error::InstallError;
use mcmpi::request::InstallRequest;
use mcmpi::resolve::decode_url;
use mcmpi::resolve::extract_filename;
use mcmpi::resolve::resolve;

fn bytes(s: &str) -> Vec<u8> {
    s.as_bytes().to_vec()
}

fn request(url: &str, override_dir: Option<&str>) -> InstallRequest {
    InstallRequest {
        source_url: bytes(url),
        force_redownload: false,
        force_reinstall: false,
        keep_archive: false,
        accept_license: false,
        start_after_install: false,
        output_directory_override: override_dir.map(bytes),
    }
}

#[test]
fn decode_handles_space_escape() {
    assert_eq!(decode_url(&bytes("Pack%20Name.zip")), bytes("Pack Name.zip"));
}

#[test]
fn decode_matches_literal_form() {
    let encoded = decode_url(&bytes("Pack%20Name.zip"));
    let literal = decode_url(&bytes("Pack Name.zip"));
    assert_eq!(encoded, literal);
}

#[test]
fn decode_handles_every_escape_in_the_subset() {
    assert_eq!(
        decode_url(&bytes("a%20b%29c%28d%21e%23f%24g")),
        bytes("a b)c(d!e#f$g")
    );
}

#[test]
fn decode_leaves_other_escapes_untouched() {
    assert_eq!(decode_url(&bytes("a%25b%2Fc")), bytes("a%25b%2Fc"));
    assert_eq!(decode_url(&bytes("a%2")), bytes("a%2"));
    assert_eq!(decode_url(&bytes("%")), bytes("%"));
}

#[test]
fn decode_of_empty_is_empty() {
    assert_eq!(decode_url(&bytes("")), bytes(""));
}

#[test]
fn filename_is_last_segment_without_extension() {
    assert_eq!(
        extract_filename(&bytes("https://example.com/pack.zip")),
        Some(bytes("pack"))
    );
    assert_eq!(extract_filename(&bytes("plain")), Some(bytes("plain")));
    assert_eq!(
        extract_filename(&bytes("a/b/c.tar.gz")),
        Some(bytes("c.tar"))
    );
}

#[test]
fn filename_missing_when_no_final_segment() {
    assert_eq!(extract_filename(&bytes("https://example.com/")), None);
    assert_eq!(extract_filename(&bytes("")), None);
    assert_eq!(extract_filename(&bytes("dir/.zip")), None);
}

#[test]
fn resolve_decodes_url_and_appends_zip_suffix() {
    let req = request("https://example.com/ModPack%20Alpha.zip", None);
    let paths = resolve(&req).unwrap();
    assert_eq!(paths.target_directory_name, bytes("ModPack Alpha"));
    assert_eq!(paths.archive_file_name, bytes("ModPack Alpha.zip"));
}

#[test]
fn resolve_prefers_the_override() {
    let req = request("https://example.com/pack.zip", Some("elsewhere"));
    let paths = resolve(&req).unwrap();
    assert_eq!(paths.target_directory_name, bytes("elsewhere"));
    assert_eq!(paths.archive_file_name, bytes("elsewhere.zip"));
}

#[test]
fn resolve_rejects_url_without_final_segment() {
    let req = request("https://example.com/", None);
    assert!(matches!(resolve(&req), Err(InstallError::NameExtraction)));
}

#[test]
fn resolve_rejects_empty_override() {
    let req = request("https://example.com/pack.zip", Some(""));
    assert!(matches!(resolve(&req), Err(InstallError::NameExtraction)));
}
