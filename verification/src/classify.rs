//! Classification of a resolved dependency set into fetch-URI lines and
//! auxiliary pinning directives.
//!
//! Every package except the root's own entry contributes according to its
//! origin: registry archives get an `archive://` line, local paths are
//! omitted, version-control checkouts get a translated URL plus revision and
//! search-path directives, and any other URL passes through verbatim. The
//! finished URI list is sorted so output does not depend on resolver order.

use vstd::prelude::*;

use crate::git::{git_to_yocto_git_url, spec_translate, GitPrefix};
use crate::strutil::{sort_strings, sorted_lex, str_eq, views_of};

verus! {

/// Symbolic reference into a version-control repository.
#[derive(Clone, Debug)]
pub enum GitReference {
    /// A tag name.
    Tag(String),
    /// A raw revision string, expected to be a full 40-character commit id.
    Rev(String),
    /// A branch name.
    Branch(String),
    /// Whatever the remote calls its default branch.
    DefaultBranch,
}

/// Mathematical model of a [`GitReference`].
pub enum GitReferenceView {
    Tag(Seq<char>),
    Rev(Seq<char>),
    Branch(Seq<char>),
    DefaultBranch,
}

impl View for GitReference {
    type V = GitReferenceView;

    open spec fn view(&self) -> GitReferenceView {
        match self {
            GitReference::Tag(s) => GitReferenceView::Tag(s@),
            GitReference::Rev(s) => GitReferenceView::Rev(s@),
            GitReference::Branch(s) => GitReferenceView::Branch(s@),
            GitReference::DefaultBranch => GitReferenceView::DefaultBranch,
        }
    }
}

/// Origin of one resolved package.
#[derive(Clone, Debug)]
pub enum OriginDescriptor {
    /// An archive indexed in the package registry named `index`.
    RegistryIndexed { index: String },
    /// A path inside the tree being packaged; never fetched.
    LocalPath,
    /// A version-control checkout of `remote_url` at `reference`.
    VersionControl { remote_url: String, reference: GitReference },
    /// Any other URL, handed to the fetcher verbatim.
    OtherUrl { raw_url: String },
}

/// Mathematical model of an [`OriginDescriptor`].
pub enum OriginDescriptorView {
    RegistryIndexed { index: Seq<char> },
    LocalPath,
    VersionControl { remote_url: Seq<char>, reference: GitReferenceView },
    OtherUrl { raw_url: Seq<char> },
}

impl View for OriginDescriptor {
    type V = OriginDescriptorView;

    open spec fn view(&self) -> OriginDescriptorView {
        match self {
            OriginDescriptor::RegistryIndexed { index } => OriginDescriptorView::RegistryIndexed {
                index: index@,
            },
            OriginDescriptor::LocalPath => OriginDescriptorView::LocalPath,
            OriginDescriptor::VersionControl { remote_url, reference } => OriginDescriptorView::VersionControl {
                remote_url: remote_url@,
                reference: reference@,
            },
            OriginDescriptor::OtherUrl { raw_url } => OriginDescriptorView::OtherUrl {
                raw_url: raw_url@,
            },
        }
    }
}

/// One node of the resolved dependency set.
#[derive(Clone, Debug)]
pub struct ResolvedPackage {
    pub name: String,
    pub version: String,
    pub origin: OriginDescriptor,
    /// Exact commit overriding the symbolic reference, when the resolver
    /// recorded one.
    pub precise_revision: Option<String>,
}

/// Mathematical model of a [`ResolvedPackage`].
pub struct ResolvedPackageView {
    pub name: Seq<char>,
    pub version: Seq<char>,
    pub origin: OriginDescriptorView,
    pub precise_revision: Option<Seq<char>>,
}

impl View for ResolvedPackage {
    type V = ResolvedPackageView;

    open spec fn view(&self) -> ResolvedPackageView {
        ResolvedPackageView {
            name: self.name@,
            version: self.version@,
            origin: self.origin@,
            precise_revision: match &self.precise_revision {
                Some(s) => Some(s@),
                None => None,
            },
        }
    }
}

/// The models of a sequence of resolved packages.
pub open spec fn pkg_views(ps: Seq<ResolvedPackage>) -> Seq<ResolvedPackageView> {
    ps.map_values(|p: ResolvedPackage| p@)
}

/// The marker telling the fetcher to resolve the latest revision itself.
pub open spec fn autorev() -> Seq<char> {
    "${AUTOREV}"@
}

/// The revision pin emitted for a version-control package, or `None` when
/// an abbreviated commit reference has no exact fallback — the one
/// configuration this module refuses.
pub open spec fn rev_pin_of(p: ResolvedPackageView, reproducible: bool) -> Option<Seq<char>> {
    match p.origin {
        OriginDescriptorView::VersionControl { remote_url, reference } => {
            if reproducible && p.precise_revision is Some {
                p.precise_revision
            } else {
                match reference {
                    GitReferenceView::Tag(s) => Some(s),
                    GitReferenceView::Rev(s) => if s.len() == 40 {
                        Some(s)
                    } else {
                        p.precise_revision
                    },
                    GitReferenceView::Branch(s) => if s == "master"@ {
                        Some(autorev())
                    } else {
                        Some(s)
                    },
                    GitReferenceView::DefaultBranch => Some(autorev()),
                }
            }
        },
        _ => None,
    }
}

/// The fetch-URI line one package contributes, if any.
pub open spec fn uri_line_of(p: ResolvedPackageView, root: Seq<char>) -> Option<Seq<char>> {
    if p.name == root {
        None
    } else {
        match p.origin {
            OriginDescriptorView::RegistryIndexed { index } => Some(
                "    archive://"@ + index + "/"@ + p.name + "/"@ + p.version + " \\\n"@,
            ),
            OriginDescriptorView::LocalPath => None,
            OriginDescriptorView::VersionControl { remote_url, reference } => Some(
                "    "@ + spec_translate(remote_url, Some(p.name), GitPrefix::Git) + " \\\n"@,
            ),
            OriginDescriptorView::OtherUrl { raw_url } => Some("    "@ + raw_url + " \\\n"@),
        }
    }
}

/// A package sharing the root package's name never contributes a
/// fetch-URI line: it is the package being built, not a dependency.
pub proof fn lemma_root_never_listed(p: ResolvedPackageView, root: Seq<char>)
    requires
        p.name == root,
    ensures
        uri_line_of(p, root) is None,
{
}

/// The revision-format marker directive for one package.
pub open spec fn srcrev_format_line(name: Seq<char>) -> Seq<char> {
    "SRCREV_FORMAT .= \"_"@ + name + "\""@
}

/// The revision-override directive for one package.
pub open spec fn srcrev_line(name: Seq<char>, rev: Seq<char>) -> Seq<char> {
    "SRCREV_"@ + name + " = \""@ + rev + "\""@
}

/// The extra-search-path directive for one package.
pub open spec fn cargo_path_line(name: Seq<char>) -> Seq<char> {
    "EXTRA_OECARGO_PATHS += \"${WORKDIR}/"@ + name + "\""@
}

/// The auxiliary directives one package contributes.
pub open spec fn extras_of(p: ResolvedPackageView, root: Seq<char>, reproducible: bool) -> Seq<
    Seq<char>,
> {
    if p.name == root {
        Seq::empty()
    } else {
        match p.origin {
            OriginDescriptorView::VersionControl { remote_url, reference } => seq![
                srcrev_format_line(p.name),
                srcrev_line(p.name, rev_pin_of(p, reproducible).unwrap()),
                cargo_path_line(p.name),
            ],
            _ => Seq::empty(),
        }
    }
}

/// Whether a package pins successfully: the root entry and non-checkout
/// origins always do; a version-control origin does exactly when a
/// revision pin exists for it.
pub open spec fn pin_ok(p: ResolvedPackageView, root: Seq<char>, reproducible: bool) -> bool {
    p.name == root || !(p.origin is VersionControl) || rev_pin_of(p, reproducible) is Some
}

/// Whether every package of the set pins successfully.
pub open spec fn all_pins_ok(ps: Seq<ResolvedPackageView>, root: Seq<char>, reproducible: bool) -> bool {
    forall|i: int| 0 <= i < ps.len() ==> #[trigger] pin_ok(ps[i], root, reproducible)
}

/// The fetch-URI lines of the packages from index `from` on, in input order.
pub open spec fn uri_lines_from(
    ps: Seq<ResolvedPackageView>,
    root: Seq<char>,
    from: int,
) -> Seq<Seq<char>>
    decreases ps.len() - from when 0 <= from <= ps.len()
{
    if from >= ps.len() {
        Seq::empty()
    } else {
        let rest = uri_lines_from(ps, root, from + 1);
        match uri_line_of(ps[from], root) {
            Some(l) => seq![l] + rest,
            None => rest,
        }
    }
}

/// The fetch-URI lines of the whole set, in input order.
pub open spec fn spec_uri_lines(ps: Seq<ResolvedPackageView>, root: Seq<char>) -> Seq<Seq<char>> {
    uri_lines_from(ps, root, 0)
}

/// The auxiliary directives of the packages from index `from` on.
pub open spec fn extras_from(
    ps: Seq<ResolvedPackageView>,
    root: Seq<char>,
    reproducible: bool,
    from: int,
) -> Seq<Seq<char>>
    decreases ps.len() - from when 0 <= from <= ps.len()
{
    if from >= ps.len() {
        Seq::empty()
    } else {
        extras_of(ps[from], root, reproducible) + extras_from(ps, root, reproducible, from + 1)
    }
}

/// The auxiliary directives of the whole set, in input order.
pub open spec fn spec_extras(
    ps: Seq<ResolvedPackageView>,
    root: Seq<char>,
    reproducible: bool,
) -> Seq<Seq<char>> {
    extras_from(ps, root, reproducible, 0)
}

/// The classified sources of one packaging run.
#[derive(Debug)]
pub struct ClassifiedSources {
    /// Fetch-URI lines, sorted ascending lexicographically.
    pub src_uris: Vec<String>,
    /// Auxiliary pinning directives, in resolver order.
    pub src_uri_extras: Vec<String>,
}

/// A configuration the classifier must refuse.
#[derive(Clone, Debug)]
pub enum ClassifyError {
    /// A version-control package carries an abbreviated commit reference
    /// and no exact revision to fall back on.
    AbbreviatedRevision { package: String },
}

impl ClassifyError {
    /// Human-readable rendering of the error.
    pub fn message(&self) -> (r: String)
        ensures
            r@ == "cannot find rev in correct format!"@,
    {
        match self {
            ClassifyError::AbbreviatedRevision { package } => String::from_str(
                "cannot find rev in correct format!",
            ),
        }
    }
}

/// The revision pin for one package, mirroring [`rev_pin_of`].
fn rev_pin(p: &ResolvedPackage, reproducible: bool) -> (r: Option<String>)
    ensures
        r is Some ==> rev_pin_of(p@, reproducible) == Some(r.unwrap()@),
        r is None ==> rev_pin_of(p@, reproducible) is None,
{
    match &p.origin {
        OriginDescriptor::VersionControl { remote_url, reference } => {
            if reproducible {
                if let Some(pr) = &p.precise_revision {
                    return Some(pr.clone());
                }
            }
            match reference {
                GitReference::Tag(s) => Some(s.clone()),
                GitReference::Rev(s) => {
                    if s.as_str().unicode_len() == 40 {
                        Some(s.clone())
                    } else {
                        match &p.precise_revision {
                            Some(pr) => Some(pr.clone()),
                            None => None,
                        }
                    }
                },
                GitReference::Branch(s) => {
                    if str_eq(s.as_str(), "master") {
                        Some(String::from_str("${AUTOREV}"))
                    } else {
                        Some(s.clone())
                    }
                },
                GitReference::DefaultBranch => Some(String::from_str("${AUTOREV}")),
            }
        },
        _ => None,
    }
}

/// The fetch-URI line for one package, mirroring [`uri_line_of`].
fn uri_line(p: &ResolvedPackage, root_name: &str) -> (r: Option<String>)
    ensures
        r is Some ==> uri_line_of(p@, root_name@) == Some(r.unwrap()@),
        r is None ==> uri_line_of(p@, root_name@) is None,
{
    if str_eq(p.name.as_str(), root_name) {
        return None;
    }
    match &p.origin {
        OriginDescriptor::RegistryIndexed { index } => {
            let mut l = String::from_str("    archive://");
            l.append(index.as_str());
            l.append("/");
            l.append(p.name.as_str());
            l.append("/");
            l.append(p.version.as_str());
            l.append(" \\\n");
            Some(l)
        },
        OriginDescriptor::LocalPath => None,
        OriginDescriptor::VersionControl { remote_url, reference } => {
            let t = git_to_yocto_git_url(remote_url.as_str(), Some(p.name.as_str()), GitPrefix::Git);
            let mut l = String::from_str("    ");
            l.append(t.as_str());
            l.append(" \\\n");
            Some(l)
        },
        OriginDescriptor::OtherUrl { raw_url } => {
            let mut l = String::from_str("    ");
            l.append(raw_url.as_str());
            l.append(" \\\n");
            Some(l)
        },
    }
}

/// Appends the three auxiliary directives for one version-control package.
fn push_extras(extras: &mut Vec<String>, name: &str, rev: &String)
    ensures
        final(extras)@.len() == old(extras)@.len() + 3,
        views_of(final(extras)@) =~= views_of(old(extras)@) + seq![
            srcrev_format_line(name@),
            srcrev_line(name@, rev@),
            cargo_path_line(name@),
        ],
{
    let mut l = String::from_str("SRCREV_FORMAT .= \"_");
    l.append(name);
    l.append("\"");
    extras.push(l);
    let mut l2 = String::from_str("SRCREV_");
    l2.append(name);
    l2.append(" = \"");
    l2.append(rev.as_str());
    l2.append("\"");
    extras.push(l2);
    let mut l3 = String::from_str("EXTRA_OECARGO_PATHS += \"${WORKDIR}/");
    l3.append(name);
    l3.append("\"");
    extras.push(l3);
    proof {
        assert(views_of(extras@) =~= views_of(old(extras)@) + seq![
            srcrev_format_line(name@),
            srcrev_line(name@, rev@),
            cargo_path_line(name@),
        ]);
    }
}

/// Classifies every package of the resolved set, emitting its fetch-URI
/// line and auxiliary pinning directives.
///
/// On success the URI list is sorted ascending lexicographically, holds
/// exactly the lines the set calls for — in particular none for the root
/// package's own entry — and the directive list is exactly the input-order
/// concatenation of each package's directives. The classifier fails exactly
/// when some package carries an abbreviated commit reference with no exact
/// revision to fall back on.
pub fn classify(packages: &Vec<ResolvedPackage>, root_name: &str, reproducible: bool) -> (r:
    Result<ClassifiedSources, ClassifyError>)
    ensures
        r is Ok <==> all_pins_ok(pkg_views(packages@), root_name@, reproducible),
        r is Ok ==> sorted_lex(views_of(r->Ok_0.src_uris@)),
        r is Ok ==> views_of(r->Ok_0.src_uris@).to_multiset() == spec_uri_lines(
            pkg_views(packages@),
            root_name@,
        ).to_multiset(),
        r is Ok ==> views_of(r->Ok_0.src_uri_extras@) == spec_extras(
            pkg_views(packages@),
            root_name@,
            reproducible,
        ),
        r is Err ==> (r->Err_0 matches ClassifyError::AbbreviatedRevision { package }
            && exists|i: int|
            0 <= i < packages@.len() && !pin_ok(
                #[trigger] pkg_views(packages@)[i],
                root_name@,
                reproducible,
            ) && package@ == pkg_views(packages@)[i].name),
{
    let ghost ps = pkg_views(packages@);
    let ghost root = root_name@;
    let mut uris: Vec<String> = Vec::new();
    let mut extras: Vec<String> = Vec::new();
    let mut idx: usize = 0;
    proof {
        assert(views_of(uris@) + uri_lines_from(ps, root, 0) =~= uri_lines_from(ps, root, 0));
        assert(views_of(extras@) + extras_from(ps, root, reproducible, 0) =~= extras_from(
            ps,
            root,
            reproducible,
            0,
        ));
    }
    while idx < packages.len()
        invariant
            idx <= packages@.len(),
            ps == pkg_views(packages@),
            root == root_name@,
            views_of(uris@) + uri_lines_from(ps, root, idx as int) == spec_uri_lines(ps, root),
            views_of(extras@) + extras_from(ps, root, reproducible, idx as int) == spec_extras(
                ps,
                root,
                reproducible,
            ),
            forall|j: int| 0 <= j < idx ==> #[trigger] pin_ok(ps[j], root, reproducible),
        decreases packages@.len() - idx,
    {
        let p = &packages[idx];
        proof {
            assert(ps[idx as int] == p@);
        }
        let is_vc = match &p.origin {
            OriginDescriptor::VersionControl { .. } => true,
            _ => false,
        };
        if is_vc && !str_eq(p.name.as_str(), root_name) {
            match rev_pin(p, reproducible) {
                Some(rev) => {
                    push_extras(&mut extras, p.name.as_str(), &rev);
                },
                None => {
                    proof {
                        assert(!pin_ok(ps[idx as int], root, reproducible));
                    }
                    return Err(ClassifyError::AbbreviatedRevision { package: p.name.clone() });
                },
            }
        }
        let ghost prev_uris = uris@;
        match uri_line(p, root_name) {
            Some(l) => {
                uris.push(l);
            },
            None => {},
        }
        proof {
            let i = idx as int;
            match uri_line_of(ps[i], root) {
                Some(l) => {
                    assert(views_of(uris@) =~= views_of(prev_uris).push(l));
                    assert(views_of(prev_uris).push(l) + uri_lines_from(ps, root, i + 1)
                        =~= views_of(prev_uris) + (seq![l] + uri_lines_from(ps, root, i + 1)));
                },
                None => {
                    assert(views_of(uris@) =~= views_of(prev_uris));
                },
            }
        }
        idx = idx + 1;
    }
    proof {
        assert(uri_lines_from(ps, root, ps.len() as int) =~= Seq::<Seq<char>>::empty());
        assert(views_of(uris@) + Seq::<Seq<char>>::empty() =~= views_of(uris@));
        assert(views_of(uris@) == spec_uri_lines(ps, root));
        assert(extras_from(ps, root, reproducible, ps.len() as int) =~= Seq::<Seq<char>>::empty());
        assert(views_of(extras@) + Seq::<Seq<char>>::empty() =~= views_of(extras@));
        assert(views_of(extras@) == spec_extras(ps, root, reproducible));
    }
    let sorted_uris = sort_strings(&uris);
    Ok(ClassifiedSources { src_uris: sorted_uris, src_uri_extras: extras })
}

} // verus!
