use cargo_bitbake::license::{evidence_line, matched_file};
use cargo_bitbake::license;

#[test]
fn closed_license_yields_empty_evidence() {
    assert_eq!(license::file("/definitely/not/there", "sub", "CLOSED", true), "");
    assert_eq!(license::file(".", "", "CLOSED", false), "");
}

#[test]
fn missing_candidates_yield_placeholder() {
    assert_eq!(
        license::file("/definitely/not/there", "sub", "MIT", true),
        "file://MIT;md5=generateme \\\n"
    );
}

#[test]
fn existing_file_is_hashed() {
    let line = license::file("/etc", "", "hosts", true);
    assert!(line.starts_with("file://hosts;md5="), "{}", line);
    assert!(line.ends_with(" \\\n"), "{}", line);
    let sum = &line["file://hosts;md5=".len()..line.len() - " \\\n".len()];
    assert_eq!(sum.len(), 32, "{}", sum);
    assert!(sum.chars().all(|c| c.is_ascii_hexdigit() && !c.is_ascii_uppercase()));
    assert_ne!(sum, "generateme");
}

#[test]
fn existing_file_respects_relative_dir() {
    let line = license::file("/etc", "member", "hosts", true);
    assert!(line.starts_with("file://member/hosts;md5="), "{}", line);
}

#[test]
fn multi_component_never_matches_bare_license() {
    assert_eq!(matched_file("MIT", false, false, false, true), None);
    assert_eq!(
        matched_file("MIT", true, false, false, true),
        Some("LICENSE".to_string())
    );
}

#[test]
fn match_order_is_verbatim_then_prefixed_then_bare() {
    assert_eq!(matched_file("MIT", false, true, true, true), Some("MIT".to_string()));
    assert_eq!(
        matched_file("MIT", false, false, true, true),
        Some("LICENSE-MIT".to_string())
    );
    assert_eq!(matched_file("MIT", true, false, false, false), None);
}

#[test]
fn evidence_line_shapes() {
    assert_eq!(
        evidence_line("sub", "MIT", Some("00112233445566778899aabbccddeeff")),
        "file://sub/MIT;md5=00112233445566778899aabbccddeeff \\\n"
    );
    assert_eq!(evidence_line("", "MIT", None), "file://MIT;md5=generateme \\\n");
}
