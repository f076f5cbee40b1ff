use cargo_bitbake::git::{git_to_yocto_git_url, compose_repo_info, GitPrefix, ProbeError, ProjectRepo};

#[test]
fn remote_http() {
    let repo = "http://github.com/rust-lang/cargo.git";
    let url = git_to_yocto_git_url(repo, Some("cargo"), GitPrefix::Git);
    assert_eq!(
        url,
        "git://github.com/rust-lang/cargo.git;protocol=http;nobranch=1;name=cargo;destsuffix=cargo"
    );
}

#[test]
fn remote_https() {
    let repo = "https://github.com/rust-lang/cargo.git";
    let url = git_to_yocto_git_url(repo, Some("cargo"), GitPrefix::Git);
    assert_eq!(
        url,
        "git://github.com/rust-lang/cargo.git;protocol=https;nobranch=1;name=cargo;destsuffix=cargo"
    );
}

#[test]
fn remote_ssh() {
    let repo = "git@github.com:rust-lang/cargo.git";
    let url = git_to_yocto_git_url(repo, Some("cargo"), GitPrefix::Git);
    assert_eq!(
        url,
        "git://git@github.com/rust-lang/cargo.git;protocol=ssh;nobranch=1;name=cargo;destsuffix=cargo"
    );
}

#[test]
fn remote_http_nosuffix() {
    let repo = "http://github.com/rust-lang/cargo.git";
    let url = git_to_yocto_git_url(repo, None, GitPrefix::Git);
    assert_eq!(
        url,
        "git://github.com/rust-lang/cargo.git;protocol=http;nobranch=1"
    );
}

#[test]
fn remote_https_nosuffix() {
    let repo = "https://github.com/rust-lang/cargo.git";
    let url = git_to_yocto_git_url(repo, None, GitPrefix::Git);
    assert_eq!(
        url,
        "git://github.com/rust-lang/cargo.git;protocol=https;nobranch=1"
    );
}

#[test]
fn remote_ssh_nosuffix() {
    let repo = "git@github.com:rust-lang/cargo.git";
    let url = git_to_yocto_git_url(repo, None, GitPrefix::Git);
    assert_eq!(
        url,
        "git://git@github.com/rust-lang/cargo.git;protocol=ssh;nobranch=1"
    );
}

#[test]
fn cargo_http() {
    let repo = "http://github.com/rust-lang/cargo.git";
    let url = git_to_yocto_git_url(repo, Some("cargo"), GitPrefix::Git);
    assert_eq!(
        url,
        "git://github.com/rust-lang/cargo.git;protocol=http;nobranch=1;name=cargo;destsuffix=cargo"
    );
}

#[test]
fn cargo_https() {
    let repo = "https://github.com/rust-lang/cargo.git";
    let url = git_to_yocto_git_url(repo, Some("cargo"), GitPrefix::Git);
    assert_eq!(
        url,
        "git://github.com/rust-lang/cargo.git;protocol=https;nobranch=1;name=cargo;destsuffix=cargo"
    );
}

#[test]
fn cargo_ssh() {
    let repo = "ssh://git@github.com/rust-lang/cargo.git";
    let url = git_to_yocto_git_url(repo, Some("cargo"), GitPrefix::Git);
    assert_eq!(
        url,
        "git://git@github.com/rust-lang/cargo.git;protocol=ssh;nobranch=1;name=cargo;destsuffix=cargo"
    );
}

#[test]
fn remote_ssh_with_submodules() {
    let repo = "git@github.com:rust-lang/cargo.git";
    let url = git_to_yocto_git_url(repo, Some("cargo"), GitPrefix::GitSubmodule);
    assert_eq!(
        url,
        "gitsm://git@github.com/rust-lang/cargo.git;protocol=ssh;nobranch=1;name=cargo;destsuffix=cargo"
    );
}

#[test]
fn translate_example_with_name() {
    let url = git_to_yocto_git_url("https://example.com/r.git", Some("pkg"), GitPrefix::Git);
    assert_eq!(
        url,
        "git://example.com/r.git;protocol=https;nobranch=1;name=pkg;destsuffix=pkg"
    );
}

#[test]
fn translate_example_without_name() {
    let url = git_to_yocto_git_url("https://example.com/r.git", None, GitPrefix::Git);
    assert_eq!(url, "git://example.com/r.git;protocol=https;nobranch=1");
}

#[test]
fn submodule_prefix_matches_plain() {
    let plain = git_to_yocto_git_url("https://example.com/r.git", Some("r"), GitPrefix::Git);
    let sub = git_to_yocto_git_url("https://example.com/r.git", Some("r"), GitPrefix::GitSubmodule);
    assert!(plain.starts_with("git"));
    assert!(sub.starts_with("gitsm"));
    assert_eq!(sub, format!("gitsm{}", &plain[3..]));
}

#[test]
fn single_protocol_marker() {
    let urls = [
        git_to_yocto_git_url("https://example.com/r.git", Some("pkg"), GitPrefix::Git),
        git_to_yocto_git_url("git@github.com:rust-lang/cargo.git", None, GitPrefix::Git),
        git_to_yocto_git_url("ssh://git@example.com/x.git", Some("x"), GitPrefix::GitSubmodule),
    ];
    for u in urls.iter() {
        assert_eq!(u.matches(";protocol=").count(), 1, "{}", u);
    }
    let passthrough = git_to_yocto_git_url("file:///tmp/x", None, GitPrefix::Git);
    assert_eq!(passthrough.matches(";protocol=").count(), 0);
}

#[test]
fn unknown_scheme_passes_through() {
    let url = git_to_yocto_git_url("file:///tmp/x", Some("x"), GitPrefix::Git);
    assert_eq!(url, "file:///tmp/x;nobranch=1;name=x;destsuffix=x");
}

#[test]
fn prefix_default_and_text() {
    assert_eq!(GitPrefix::default(), GitPrefix::Git);
    assert_eq!(GitPrefix::Git.as_str(), "git");
    assert_eq!(GitPrefix::GitSubmodule.as_str(), "gitsm");
}

#[test]
fn compose_repo_default_branch_omitted() {
    let info = compose_repo_info(
        "https://example.com/r.git",
        0,
        "master",
        "0123456789abcdef0123456789abcdef01234567",
        false,
    );
    assert_eq!(info.uri, "git://example.com/r.git;protocol=https;nobranch=1");
    assert_eq!(info.branch, "master");
    assert_eq!(info.rev, "0123456789abcdef0123456789abcdef01234567");
    assert!(!info.tag);
}

#[test]
fn compose_repo_named_branch_kept() {
    let info = compose_repo_info("https://example.com/r.git", 0, "devel", "abc", true);
    assert_eq!(
        info.uri,
        "git://example.com/r.git;protocol=https;nobranch=1;branch=devel"
    );
    assert!(info.tag);
}

#[test]
fn compose_repo_submodules_prefix() {
    let info = compose_repo_info("https://example.com/r.git", 2, "HEAD", "abc", false);
    assert_eq!(info.uri, "gitsm://example.com/r.git;protocol=https;nobranch=1");
}

#[test]
fn project_repo_default_is_empty() {
    let d = ProjectRepo::default();
    assert_eq!(d.uri, "");
    assert_eq!(d.branch, "");
    assert_eq!(d.rev, "");
    assert!(!d.tag);
}

#[test]
fn probe_error_messages() {
    assert_eq!(
        ProbeError::NoRepository.message(),
        "Unable to determine git repo for this project"
    );
    assert_eq!(
        ProbeError::NoOriginRemote.message(),
        "Unable to find remote 'origin' for this project"
    );
    assert_eq!(ProbeError::NoRemoteUrl.message(), "No URL for remote 'origin'");
}

#[test]
fn short_remote_with_extra_at_signs() {
    let url = git_to_yocto_git_url("a@b@host:path", None, GitPrefix::Git);
    assert_eq!(url, "git://a@b@host/path;protocol=ssh;nobranch=1");
}

#[test]
fn url_without_colon_passes_through() {
    let url = git_to_yocto_git_url("plain-text", None, GitPrefix::Git);
    assert_eq!(url, "plain-text;nobranch=1");
}

#[test]
fn scheme_before_at_sign_is_not_short_syntax() {
    let url = git_to_yocto_git_url("https://user@example.com:8443/r.git", None, GitPrefix::Git);
    assert_eq!(url, "git://user@example.com:8443/r.git;protocol=https;nobranch=1");
}
