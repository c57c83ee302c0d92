use mcmpi::metadata::license_content;
use mcmpi::metadata::license_path;
use mcmpi::metadata::metadata_content;
use mcmpi::metadata::metadata_content_now;
use mcmpi::metadata::metadata_path;

fn bytes(s: &str) -> Vec<u8> {
    s.as_bytes().to_vec()
}

#[test]
fn marker_paths_sit_inside_the_target() {
    assert_eq!(metadata_path(&bytes("ModPack Alpha")), bytes("ModPack Alpha/.mcmpi"));
    assert_eq!(license_path(&bytes("ModPack Alpha")), bytes("ModPack Alpha/eula.txt"));
}

#[test]
fn license_content_is_the_fixed_acceptance_line() {
    assert_eq!(license_content(), bytes("eula=true"));
}

#[test]
fn metadata_content_has_the_three_labelled_lines() {
    let content = metadata_content(
        &bytes("ModPack Alpha.zip"),
        &bytes("https://example.com/ModPack Alpha.zip"),
        &bytes("Thu, 01 Jan 1970 00:00:00 +0000"),
    );
    let text = String::from_utf8(content).unwrap();
    assert_eq!(
        text,
        "Name: ModPack Alpha.zip\nDownload: https://example.com/ModPack Alpha.zip\nDate: Thu, 01 Jan 1970 00:00:00 +0000"
    );
    assert_eq!(text.lines().count(), 3);
}

#[test]
fn stamped_content_carries_name_url_and_a_date() {
    let content = metadata_content_now(&bytes("pack.zip"), &bytes("https://example.com/pack.zip"));
    let text = String::from_utf8(content).unwrap();
    let mut lines = text.lines();
    assert_eq!(lines.next(), Some("Name: pack.zip"));
    assert_eq!(lines.next(), Some("Download: https://example.com/pack.zip"));
    let date = lines.next().unwrap();
    assert!(date.starts_with("Date: "));
    assert!(date.len() > "Date: ".len());
    assert_eq!(lines.next(), None);
}
