use cargo_bitbake::classify::{
    classify, ClassifyError, GitReference, OriginDescriptor, ResolvedPackage,
};

fn registry(name: &str, version: &str, index: &str) -> ResolvedPackage {
    ResolvedPackage {
        name: name.to_string(),
        version: version.to_string(),
        origin: OriginDescriptor::RegistryIndexed { index: index.to_string() },
        precise_revision: None,
    }
}

fn vc(name: &str, url: &str, reference: GitReference, precise: Option<&str>) -> ResolvedPackage {
    ResolvedPackage {
        name: name.to_string(),
        version: "1.0.0".to_string(),
        origin: OriginDescriptor::VersionControl {
            remote_url: url.to_string(),
            reference,
        },
        precise_revision: precise.map(|s| s.to_string()),
    }
}

#[test]
fn registry_line_for_indexed_package() {
    let packages = vec![registry("foo", "1.2.3", "pkgindex")];
    let r = classify(&packages, "root", false).unwrap();
    assert_eq!(r.src_uris, vec!["    archive://pkgindex/foo/1.2.3 \\\n".to_string()]);
    assert!(r.src_uri_extras.is_empty());
}

#[test]
fn master_branch_pins_autorev() {
    let packages = vec![vc(
        "bar",
        "https://example.com/bar.git",
        GitReference::Branch("master".to_string()),
        None,
    )];
    let r = classify(&packages, "root", false).unwrap();
    assert_eq!(
        r.src_uri_extras,
        vec![
            "SRCREV_FORMAT .= \"_bar\"".to_string(),
            "SRCREV_bar = \"${AUTOREV}\"".to_string(),
            "EXTRA_OECARGO_PATHS += \"${WORKDIR}/bar\"".to_string(),
        ]
    );
    assert_eq!(
        r.src_uris,
        vec![
            "    git://example.com/bar.git;protocol=https;nobranch=1;name=bar;destsuffix=bar \\\n"
                .to_string()
        ]
    );
}

#[test]
fn named_branch_pins_branch_name() {
    let packages = vec![vc(
        "bar",
        "https://example.com/bar.git",
        GitReference::Branch("devel".to_string()),
        None,
    )];
    let r = classify(&packages, "root", false).unwrap();
    assert!(r.src_uri_extras.contains(&"SRCREV_bar = \"devel\"".to_string()));
}

#[test]
fn default_branch_pins_autorev() {
    let packages = vec![vc(
        "baz",
        "https://example.com/baz.git",
        GitReference::DefaultBranch,
        None,
    )];
    let r = classify(&packages, "root", false).unwrap();
    assert!(r.src_uri_extras.contains(&"SRCREV_baz = \"${AUTOREV}\"".to_string()));
}

#[test]
fn tag_reference_pins_tag_name() {
    let packages = vec![vc(
        "qux",
        "https://example.com/qux.git",
        GitReference::Tag("v1.0.0".to_string()),
        None,
    )];
    let r = classify(&packages, "root", false).unwrap();
    assert!(r.src_uri_extras.contains(&"SRCREV_qux = \"v1.0.0\"".to_string()));
}

#[test]
fn full_rev_is_kept() {
    let full = "0123456789abcdef0123456789abcdef01234567";
    let packages = vec![vc(
        "dep",
        "https://example.com/dep.git",
        GitReference::Rev(full.to_string()),
        None,
    )];
    let r = classify(&packages, "root", false).unwrap();
    assert!(r.src_uri_extras.contains(&format!("SRCREV_dep = \"{}\"", full)));
}

#[test]
fn short_rev_without_precise_is_refused() {
    let packages = vec![vc(
        "dep",
        "https://example.com/dep.git",
        GitReference::Rev("abc123".to_string()),
        None,
    )];
    let e = classify(&packages, "root", false).unwrap_err();
    let ClassifyError::AbbreviatedRevision { package } = e.clone();
    assert_eq!(package, "dep");
    assert_eq!(e.message(), "cannot find rev in correct format!");
}

#[test]
fn short_rev_with_precise_falls_back() {
    let full = "fedcba9876543210fedcba9876543210fedcba98";
    let packages = vec![vc(
        "dep",
        "https://example.com/dep.git",
        GitReference::Rev("abc123".to_string()),
        Some(full),
    )];
    let r = classify(&packages, "root", false).unwrap();
    assert!(r.src_uri_extras.contains(&format!("SRCREV_dep = \"{}\"", full)));
}

#[test]
fn reproducible_mode_prefers_precise() {
    let full = "1111111111222222222233333333334444444444";
    let packages = vec![vc(
        "dep",
        "https://example.com/dep.git",
        GitReference::Branch("devel".to_string()),
        Some(full),
    )];
    let r = classify(&packages, "root", true).unwrap();
    assert!(r.src_uri_extras.contains(&format!("SRCREV_dep = \"{}\"", full)));
    let relaxed = classify(&packages, "root", false).unwrap();
    assert!(relaxed.src_uri_extras.contains(&"SRCREV_dep = \"devel\"".to_string()));
}

#[test]
fn uris_sorted_root_and_paths_skipped() {
    let packages = vec![
        registry("zeta", "2.0.0", "pkgindex"),
        ResolvedPackage {
            name: "me".to_string(),
            version: "0.1.0".to_string(),
            origin: OriginDescriptor::LocalPath,
            precise_revision: None,
        },
        registry("me", "0.1.0", "pkgindex"),
        registry("alpha", "1.0.0", "pkgindex"),
        ResolvedPackage {
            name: "sibling".to_string(),
            version: "0.2.0".to_string(),
            origin: OriginDescriptor::LocalPath,
            precise_revision: None,
        },
        ResolvedPackage {
            name: "web".to_string(),
            version: "3.0.0".to_string(),
            origin: OriginDescriptor::OtherUrl {
                raw_url: "https://example.com/web.tar.gz".to_string(),
            },
            precise_revision: None,
        },
    ];
    let r = classify(&packages, "me", false).unwrap();
    assert_eq!(
        r.src_uris,
        vec![
            "    archive://pkgindex/alpha/1.0.0 \\\n".to_string(),
            "    archive://pkgindex/zeta/2.0.0 \\\n".to_string(),
            "    https://example.com/web.tar.gz \\\n".to_string(),
        ]
    );
    for line in &r.src_uris {
        assert!(!line.contains("/me/"));
    }
    let mut sorted = r.src_uris.clone();
    sorted.sort();
    assert_eq!(sorted, r.src_uris);
}

#[test]
fn duplicate_entries_are_kept_and_sorted() {
    let packages = vec![
        registry("dup", "1.0.0", "pkgindex"),
        registry("aaa", "1.0.0", "pkgindex"),
        registry("dup", "1.0.0", "pkgindex"),
    ];
    let r = classify(&packages, "root", false).unwrap();
    assert_eq!(
        r.src_uris,
        vec![
            "    archive://pkgindex/aaa/1.0.0 \\\n".to_string(),
            "    archive://pkgindex/dup/1.0.0 \\\n".to_string(),
            "    archive://pkgindex/dup/1.0.0 \\\n".to_string(),
        ]
    );
}

#[test]
fn empty_set_yields_nothing() {
    let r = classify(&vec![], "root", true).unwrap();
    assert!(r.src_uris.is_empty());
    assert!(r.src_uri_extras.is_empty());
}
