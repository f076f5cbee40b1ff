//! Assembly of the recipe's derived fields: summary, homepage, displayed
//! license, license-evidence block, version-pin directive and artifact
//! names.
//!
//! Missing manifest fields fall back along a fixed chain — description to
//! package name, homepage to repository, license to license-file to the
//! `CLOSED` sentinel — each step surfaced as a warning flag; only a package
//! with no location reference at all is rejected.

use vstd::prelude::*;

use crate::classify::ClassifiedSources;
use crate::git::ProjectRepo;
use crate::license::{
    checksum_view, checksum_wellformed, closed_license, evidence_line_of, fallback_line_of, file,
    matched_candidate,
};
use crate::strutil::{
    join_strings, join_with, replace_newlines, replace_nl, split_on, split_str, trim_str,
    trimmed, views_of,
};

verus! {

/// A fatal assembly failure.
#[derive(Clone, Debug)]
pub enum RecipeError {
    /// Neither a homepage nor a repository is declared: the recipe would
    /// carry no location reference at all.
    MissingHomepage,
}

impl RecipeError {
    /// Human-readable rendering of the error.
    pub fn message(&self) -> (r: String)
        ensures
            r@ == "No package.repository set in your Cargo.toml"@,
    {
        match self {
            RecipeError::MissingHomepage => String::from_str(
                "No package.repository set in your Cargo.toml",
            ),
        }
    }
}

/// Where the displayed license expression came from.
#[derive(Copy, Clone, Debug, Eq, PartialEq, Structural)]
pub enum LicenseSource {
    /// The manifest's license field.
    Declared,
    /// The manifest's license-file field, used because no license was
    /// declared.
    FromFile,
    /// Neither field is present: the `CLOSED` sentinel is assumed.
    Fallback,
}

/// The recipe summary: the trimmed description with line breaks turned
/// into continuations, or the package name when no description is set.
/// The flag reports that the fallback was taken.
pub fn summary_of(description: Option<&str>, name: &str) -> (r: (String, bool))
    ensures
        description is Some ==> r.0@ == replace_nl(trimmed(description.unwrap()@)) && r.1
            == false,
        description is None ==> r.0@ == name@ && r.1 == true,
{
    match description {
        Some(d) => {
            let t = trim_str(d);
            (replace_newlines(t.as_str()), false)
        },
        None => (String::from_str(name), true),
    }
}

/// The recipe homepage: the trimmed homepage field, else the trimmed
/// repository field with a warning, else a fatal error.
pub fn homepage_of(homepage: Option<&str>, repository: Option<&str>) -> (r: Result<
    (String, bool),
    RecipeError,
>)
    ensures
        homepage is Some ==> r is Ok && r->Ok_0.0@ == trimmed(homepage.unwrap()@) && r->Ok_0.1
            == false,
        homepage is None && repository is Some ==> r is Ok && r->Ok_0.0@ == trimmed(
            repository.unwrap()@,
        ) && r->Ok_0.1 == true,
        homepage is None && repository is None ==> r is Err && r->Err_0 is MissingHomepage,
{
    match homepage {
        Some(h) => Ok((trim_str(h), false)),
        None => match repository {
            Some(rp) => Ok((trim_str(rp), true)),
            None => Err(RecipeError::MissingHomepage),
        },
    }
}

/// The license expression to work from: the declared license, else the
/// license-file name, else the `CLOSED` sentinel.
pub fn license_of(license: Option<&str>, license_file: Option<&str>) -> (r: (String,
    LicenseSource))
    ensures
        license is Some ==> r.0@ == license.unwrap()@ && r.1 == LicenseSource::Declared,
        license is None && license_file is Some ==> r.0@ == license_file.unwrap()@ && r.1
            == LicenseSource::FromFile,
        license is None && license_file is None ==> r.0@ == closed_license() && r.1
            == LicenseSource::Fallback,
{
    match license {
        Some(l) => (String::from_str(l), LicenseSource::Declared),
        None => match license_file {
            Some(f) => (String::from_str(f), LicenseSource::FromFile),
            None => (String::from_str("CLOSED"), LicenseSource::Fallback),
        },
    }
}

/// The displayed form of a license expression: its `/`-separated
/// components, each trimmed, joined with ` | `.
pub open spec fn display_license_of(license: Seq<char>) -> Seq<char> {
    join_with(split_on(license, '/').map_values(|c: Seq<char>| trimmed(c)), " | "@)
}

/// Renders a license expression for display.
pub fn display_license(license: &str) -> (r: String)
    ensures
        r@ == display_license_of(license@),
{
    let parts = split_str(license, '/');
    let mut cleaned: Vec<String> = Vec::new();
    let mut i: usize = 0;
    while i < parts.len()
        invariant
            i <= parts@.len(),
            cleaned@.len() == i,
            forall|j: int| 0 <= j < i ==> #[trigger] cleaned@[j]@ == trimmed(parts@[j]@),
        decreases parts@.len() - i,
    {
        cleaned.push(trim_str(parts[i].as_str()));
        i = i + 1;
    }
    proof {
        assert(views_of(cleaned@) =~= views_of(parts@).map_values(|c: Seq<char>| trimmed(c)));
    }
    join_strings(&cleaned, " | ")
}

/// The version-pin directive: empty when the head commit is a recognised
/// tag or the revision is no longer than ten characters, else an append
/// of the revision's first ten characters to the package version, under
/// the current or the legacy override key.
pub open spec fn version_pin_of(is_tag: bool, rev: Seq<char>, legacy_overrides: bool) -> Seq<
    char,
> {
    if !is_tag && rev.len() > 10 {
        (if legacy_overrides {
            "PV_append"@
        } else {
            "PV:append"@
        }) + " = \".AUTOINC+"@ + rev.take(10) + "\""@
    } else {
        Seq::empty()
    }
}

/// Emits the version-pin directive for the probed head revision.
pub fn version_pin(is_tag: bool, rev: &str, legacy_overrides: bool) -> (r: String)
    ensures
        r@ == version_pin_of(is_tag, rev@, legacy_overrides),
        is_tag ==> r@ == Seq::<char>::empty(),
{
    let n = rev.unicode_len();
    if !is_tag && n > 10 {
        let mut r = if legacy_overrides {
            String::from_str("PV_append")
        } else {
            String::from_str("PV:append")
        };
        r.append(" = \".AUTOINC+");
        r.append(rev.substring_char(0, 10));
        r.append("\"");
        proof {
            assert(rev@.subrange(0, 10) =~= rev@.take(10));
        }
        r
    } else {
        String::new()
    }
}

/// The include-file artifact name `<name>_<version>.inc`.
pub open spec fn inc_path_of(name: Seq<char>, version: Seq<char>) -> Seq<char> {
    name + "_"@ + version + ".inc"@
}

/// The recipe artifact name `<name>_<version>.bb`.
pub open spec fn bb_path_of(name: Seq<char>, version: Seq<char>) -> Seq<char> {
    name + "_"@ + version + ".bb"@
}

/// Builds the include-file artifact name.
pub fn inc_path(name: &str, version: &str) -> (r: String)
    ensures
        r@ == inc_path_of(name@, version@),
{
    let mut r = String::from_str(name);
    r.append("_");
    r.append(version);
    r.append(".inc");
    r
}

/// Builds the recipe artifact name.
pub fn bb_path(name: &str, version: &str) -> (r: String)
    ensures
        r@ == bb_path_of(name@, version@),
{
    let mut r = String::from_str(name);
    r.append("_");
    r.append(version);
    r.append(".bb");
    r
}

/// What one line of the evidence block may hold for a component: nothing
/// but the indent for the `CLOSED` sentinel, else an indented evidence
/// line for some matched candidate and read outcome, or the indented
/// fallback line.
pub open spec fn evidence_entry_ok(
    line: Seq<char>,
    component: Seq<char>,
    rel_dir: Seq<char>,
    single: bool,
) -> bool {
    if component == closed_license() {
        line == "    "@
    } else {
        (exists|verbatim: bool, prefixed: bool, bare: bool, content: Option<Seq<u8>>|
            {
                let m = #[trigger] matched_candidate(component, single, verbatim, prefixed, bare);
                let sum = #[trigger] checksum_view(content);
                m is Some && checksum_wellformed(sum) && line == "    "@ + evidence_line_of(
                    rel_dir,
                    m.unwrap(),
                    sum,
                )
            }) || line == "    "@ + fallback_line_of(component)
    }
}

/// Resolves license evidence for every `/`-separated component of the
/// expression: one indented line per component, the bare `LICENSE` file
/// admitted only when the expression has a single component.
pub fn license_evidence_lines(crate_root: &str, rel_dir: &str, license: &str) -> (r: Vec<String>)
    ensures
        r@.len() == split_on(license@, '/').len(),
        forall|i: int|
            0 <= i < r@.len() ==> evidence_entry_ok(
                #[trigger] r@[i]@,
                split_on(license@, '/')[i],
                rel_dir@,
                split_on(license@, '/').len() == 1,
            ),
{
    let components = split_str(license, '/');
    let single = components.len() == 1;
    let mut out: Vec<String> = Vec::new();
    let mut i: usize = 0;
    while i < components.len()
        invariant
            i <= components@.len(),
            out@.len() == i,
            views_of(components@) == split_on(license@, '/'),
            single == (components@.len() == 1),
            forall|j: int|
                0 <= j < i ==> evidence_entry_ok(
                    #[trigger] out@[j]@,
                    components@[j]@,
                    rel_dir@,
                    single,
                ),
        decreases components@.len() - i,
    {
        let body = file(crate_root, rel_dir, components[i].as_str(), single);
        let mut l = String::from_str("    ");
        l.append(body.as_str());
        proof {
            let comp = components@[i as int]@;
            if comp == closed_license() {
                assert(l@ =~= "    "@);
            } else {
                let (verbatim, prefixed, bare, content): (bool, bool, bool, Option<Seq<u8>>) =
                    choose|verbatim: bool, prefixed: bool, bare: bool, content: Option<Seq<u8>>|
                    {
                        let m = #[trigger] matched_candidate(comp, single, verbatim, prefixed, bare);
                        let sum = #[trigger] checksum_view(content);
                        checksum_wellformed(sum) && (if m is Some {
                            body@ == evidence_line_of(rel_dir@, m.unwrap(), sum)
                        } else {
                            body@ == fallback_line_of(comp)
                        })
                    };
                let m = matched_candidate(comp, single, verbatim, prefixed, bare);
                let sum = checksum_view(content);
                if m is Some {
                    assert(checksum_wellformed(sum) && l@ == "    "@ + evidence_line_of(
                        rel_dir@,
                        m.unwrap(),
                        sum,
                    ));
                } else {
                    assert(l@ == "    "@ + fallback_line_of(comp));
                }
            }
            assert(evidence_entry_ok(l@, comp, rel_dir@, single));
        }
        out.push(l);
        i = i + 1;
    }
    out
}

/// Manifest fields of the package a recipe is generated for.
#[derive(Clone, Debug)]
pub struct ManifestInfo {
    pub name: String,
    pub version: String,
    pub description: Option<String>,
    pub homepage: Option<String>,
    pub repository: Option<String>,
    pub license: Option<String>,
    pub license_file: Option<String>,
}

/// Every derived field of the two recipe artifacts, ready for template
/// substitution, with the warnings the derivation raised.
#[derive(Debug)]
pub struct RecipeFields {
    pub summary: String,
    pub homepage: String,
    pub license: String,
    pub lic_files: String,
    pub src_uris: String,
    pub src_uri_extras: String,
    pub inc_path: String,
    pub bb_path: String,
    pub git_srcpv: String,
    pub warn_no_description: bool,
    pub warn_homepage_from_repository: bool,
    pub warn_no_license: bool,
    pub warn_no_license_file: bool,
}

/// View of an optional owned string.
pub open spec fn opt_string_view(s: Option<String>) -> Option<Seq<char>> {
    match s {
        Some(v) => Some(v@),
        None => None,
    }
}

/// Assembles every derived recipe field from the manifest, the classified
/// sources, the probed upstream repository and the run flags.
///
/// Fails exactly when the manifest declares neither homepage nor
/// repository. On success each field carries the value its derivation
/// rule states, and the evidence block holds one line per license
/// component.
pub fn assemble(
    manifest: &ManifestInfo,
    sources: &ClassifiedSources,
    repo: &ProjectRepo,
    crate_root: &str,
    rel_dir: &str,
    legacy_overrides: bool,
) -> (r: Result<RecipeFields, RecipeError>)
    ensures
        r is Err <==> manifest.homepage is None && manifest.repository is None,
        r is Err ==> r->Err_0 is MissingHomepage,
        r is Ok ==> ({
            let f = r->Ok_0;
            let lic = if manifest.license is Some {
                manifest.license.unwrap()@
            } else if manifest.license_file is Some {
                manifest.license_file.unwrap()@
            } else {
                closed_license()
            };
            &&& (manifest.description is Some ==> f.summary@ == replace_nl(
                trimmed(manifest.description.unwrap()@),
            ) && !f.warn_no_description)
            &&& (manifest.description is None ==> f.summary@ == manifest.name@
                && f.warn_no_description)
            &&& (manifest.homepage is Some ==> f.homepage@ == trimmed(manifest.homepage.unwrap()@)
                && !f.warn_homepage_from_repository)
            &&& (manifest.homepage is None ==> f.homepage@ == trimmed(
                manifest.repository.unwrap()@,
            ) && f.warn_homepage_from_repository)
            &&& f.warn_no_license == (manifest.license is None)
            &&& f.warn_no_license_file == (manifest.license is None && manifest.license_file
                is None)
            &&& f.license@ == display_license_of(lic)
            &&& (exists|lines: Seq<Seq<char>>|
                {
                    &&& lines.len() == split_on(lic, '/').len()
                    &&& (forall|i: int|
                        0 <= i < lines.len() ==> evidence_entry_ok(
                            #[trigger] lines[i],
                            split_on(lic, '/')[i],
                            rel_dir@,
                            split_on(lic, '/').len() == 1,
                        ))
                    &&& f.lic_files@ == #[trigger] join_with(lines, Seq::<char>::empty())
                })
            &&& f.src_uris@ == join_with(views_of(sources.src_uris@), Seq::<char>::empty())
            &&& f.src_uri_extras@ == join_with(views_of(sources.src_uri_extras@), "\n"@)
            &&& f.inc_path@ == inc_path_of(manifest.name@, manifest.version@)
            &&& f.bb_path@ == bb_path_of(manifest.name@, manifest.version@)
            &&& f.git_srcpv@ == version_pin_of(repo.tag, repo.rev@, legacy_overrides)
        }),
{
    let (summary, warn_no_description) = summary_of(
        match &manifest.description {
            Some(d) => Some(d.as_str()),
            None => None,
        },
        manifest.name.as_str(),
    );
    let (homepage, warn_homepage_from_repository) = match homepage_of(
        match &manifest.homepage {
            Some(h) => Some(h.as_str()),
            None => None,
        },
        match &manifest.repository {
            Some(rp) => Some(rp.as_str()),
            None => None,
        },
    ) {
        Ok(h) => h,
        Err(e) => {
            return Err(e);
        },
    };
    let (license_expr, license_source) = license_of(
        match &manifest.license {
            Some(l) => Some(l.as_str()),
            None => None,
        },
        match &manifest.license_file {
            Some(f) => Some(f.as_str()),
            None => None,
        },
    );
    let warn_no_license = !matches!(license_source, LicenseSource::Declared);
    let warn_no_license_file = matches!(license_source, LicenseSource::Fallback);
    let evidence = license_evidence_lines(crate_root, rel_dir, license_expr.as_str());
    let lic_files = join_strings(&evidence, "");
    proof {
        assert(views_of(evidence@).len() == split_on(license_expr@, '/').len());
        assert(forall|i: int|
            0 <= i < views_of(evidence@).len() ==> evidence_entry_ok(
                #[trigger] views_of(evidence@)[i],
                split_on(license_expr@, '/')[i],
                rel_dir@,
                split_on(license_expr@, '/').len() == 1,
            ));
    }
    let license_display_text = display_license(license_expr.as_str());
    let src_uris = join_strings(&sources.src_uris, "");
    let src_uri_extras = join_strings(&sources.src_uri_extras, "\n");
    proof {
        reveal_strlit("");
        assert(""@ =~= Seq::<char>::empty());
        let lines = views_of(evidence@);
        assert(lic_files@ == join_with(lines, Seq::<char>::empty()));
        assert((forall|i: int|
            0 <= i < lines.len() ==> evidence_entry_ok(
                #[trigger] lines[i],
                split_on(license_expr@, '/')[i],
                rel_dir@,
                split_on(license_expr@, '/').len() == 1,
            )));
        assert(src_uris@ == join_with(views_of(sources.src_uris@), Seq::<char>::empty()));
    }
    let inc = inc_path(manifest.name.as_str(), manifest.version.as_str());
    let bb = bb_path(manifest.name.as_str(), manifest.version.as_str());
    let git_srcpv = version_pin(repo.tag, repo.rev.as_str(), legacy_overrides);
    Ok(
        RecipeFields {
            summary,
            homepage,
            license: license_display_text,
            lic_files,
            src_uris,
            src_uri_extras,
            inc_path: inc,
            bb_path: bb,
            git_srcpv,
            warn_no_description,
            warn_homepage_from_repository,
            warn_no_license,
            warn_no_license_file,
        },
    )
}

} // verus!
