use cargo_bitbake::classify::ClassifiedSources;
use cargo_bitbake::git::ProjectRepo;
use cargo_bitbake::recipe::{
    assemble, bb_path, display_license, homepage_of, inc_path, license_of, summary_of,
    version_pin, LicenseSource, ManifestInfo, RecipeError,
};

#[test]
fn summary_prefers_description() {
    let (s, warned) = summary_of(Some("  a tool\nfor recipes  "), "pkg");
    assert_eq!(s, "a tool \\\nfor recipes");
    assert!(!warned);
}

#[test]
fn summary_falls_back_to_name() {
    let (s, warned) = summary_of(None, "pkg");
    assert_eq!(s, "pkg");
    assert!(warned);
}

#[test]
fn homepage_prefers_homepage() {
    let (h, warned) = homepage_of(Some(" https://example.com "), Some("ignored")).unwrap();
    assert_eq!(h, "https://example.com");
    assert!(!warned);
}

#[test]
fn homepage_falls_back_to_repository() {
    let (h, warned) = homepage_of(None, Some(" https://example.com/repo ")).unwrap();
    assert_eq!(h, "https://example.com/repo");
    assert!(warned);
}

#[test]
fn homepage_missing_is_fatal() {
    let e = homepage_of(None, None).unwrap_err();
    assert!(matches!(e, RecipeError::MissingHomepage));
    assert_eq!(e.message(), "No package.repository set in your Cargo.toml");
}

#[test]
fn license_fallback_chain() {
    let (l, src) = license_of(Some("MIT"), Some("COPYING"));
    assert_eq!(l, "MIT");
    assert_eq!(src, LicenseSource::Declared);
    let (l, src) = license_of(None, Some("COPYING"));
    assert_eq!(l, "COPYING");
    assert_eq!(src, LicenseSource::FromFile);
    let (l, src) = license_of(None, None);
    assert_eq!(l, "CLOSED");
    assert_eq!(src, LicenseSource::Fallback);
}

#[test]
fn license_display_joins_components() {
    assert_eq!(display_license("MIT/Apache-2.0"), "MIT | Apache-2.0");
    assert_eq!(display_license(" MIT / Apache-2.0 "), "MIT | Apache-2.0");
    assert_eq!(display_license("MIT"), "MIT");
}

#[test]
fn version_pin_takes_ten_characters() {
    let pin = version_pin(false, "abcdef123456", false);
    assert_eq!(pin, "PV:append = \".AUTOINC+abcdef1234\"");
}

#[test]
fn version_pin_legacy_key() {
    let pin = version_pin(false, "abcdef123456", true);
    assert_eq!(pin, "PV_append = \".AUTOINC+abcdef1234\"");
}

#[test]
fn version_pin_empty_for_tags() {
    assert_eq!(version_pin(true, "abcdef123456", false), "");
}

#[test]
fn version_pin_empty_for_short_revisions() {
    assert_eq!(version_pin(false, "abcdef1234", false), "");
}

#[test]
fn artifact_names() {
    assert_eq!(inc_path("foo", "1.2.3"), "foo_1.2.3.inc");
    assert_eq!(bb_path("foo", "1.2.3"), "foo_1.2.3.bb");
}

#[test]
fn assemble_full_run() {
    let manifest = ManifestInfo {
        name: "foo".to_string(),
        version: "1.2.3".to_string(),
        description: Some("does things\nwell".to_string()),
        homepage: None,
        repository: Some("https://example.com/foo".to_string()),
        license: None,
        license_file: None,
    };
    let sources = ClassifiedSources {
        src_uris: vec!["    archive://pkgindex/dep/1.0.0 \\\n".to_string()],
        src_uri_extras: vec!["SRCREV_FORMAT .= \"_x\"".to_string(), "SRCREV_x = \"v1\"".to_string()],
    };
    let repo = ProjectRepo {
        uri: "git://example.com/foo;protocol=https;nobranch=1".to_string(),
        branch: "main".to_string(),
        rev: "abcdef123456".to_string(),
        tag: false,
    };
    let f = assemble(&manifest, &sources, &repo, "/nonexistent", "", false).unwrap();
    assert_eq!(f.summary, "does things \\\nwell");
    assert!(!f.warn_no_description);
    assert_eq!(f.homepage, "https://example.com/foo");
    assert!(f.warn_homepage_from_repository);
    assert!(f.warn_no_license);
    assert!(f.warn_no_license_file);
    assert_eq!(f.license, "CLOSED");
    assert_eq!(f.lic_files, "    ");
    assert_eq!(f.src_uris, "    archive://pkgindex/dep/1.0.0 \\\n");
    assert_eq!(f.src_uri_extras, "SRCREV_FORMAT .= \"_x\"\nSRCREV_x = \"v1\"");
    assert_eq!(f.inc_path, "foo_1.2.3.inc");
    assert_eq!(f.bb_path, "foo_1.2.3.bb");
    assert_eq!(f.git_srcpv, "PV:append = \".AUTOINC+abcdef1234\"");
}

#[test]
fn assemble_without_location_is_fatal() {
    let manifest = ManifestInfo {
        name: "foo".to_string(),
        version: "1.2.3".to_string(),
        description: None,
        homepage: None,
        repository: None,
        license: Some("MIT".to_string()),
        license_file: None,
    };
    let sources = ClassifiedSources { src_uris: vec![], src_uri_extras: vec![] };
    let repo = ProjectRepo::default();
    let e = assemble(&manifest, &sources, &repo, ".", "", false).unwrap_err();
    assert!(matches!(e, RecipeError::MissingHomepage));
}

#[test]
fn display_license_of_empty_expression() {
    assert_eq!(display_license(""), "");
}

#[test]
fn summary_of_description_with_trailing_break() {
    let (s, _) = summary_of(Some("one\ntwo\n"), "pkg");
    assert_eq!(s, "one \\\ntwo");
}
