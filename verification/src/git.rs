//! Translation of version-control remote URLs into the fetcher's dialect.
//!
//! A remote URL is rewritten in three steps: short `user@host:path` remotes
//! become `ssh://` URLs, a recognised scheme is folded into a `git`/`gitsm`
//! prefix with a `;protocol=` marker, and fetcher metadata suffixes are
//! appended.

use vstd::prelude::*;

use crate::strutil::{find_char_from, find_from, lemma_find_from, str_eq};

verus! {

/// Prefix tag selecting whether the fetcher also checks out submodules.
#[derive(Copy, Clone, Debug, Eq, PartialEq, Structural)]
pub enum GitPrefix {
    Git,
    GitSubmodule,
}

impl Default for GitPrefix {
    fn default() -> (r: Self)
        ensures
            r == GitPrefix::Git,
    {
        GitPrefix::Git
    }
}

/// The textual tag contributed by a prefix.
pub open spec fn prefix_tag(p: GitPrefix) -> Seq<char> {
    match p {
        GitPrefix::Git => "git"@,
        GitPrefix::GitSubmodule => "gitsm"@,
    }
}

impl GitPrefix {
    /// The textual tag this prefix contributes to a translated URL.
    pub fn as_str(&self) -> (r: &'static str)
        ensures
            r@ == prefix_tag(*self),
    {
        match *self {
            GitPrefix::Git => "git",
            GitPrefix::GitSubmodule => "gitsm",
        }
    }
}

/// A short `user@host:path` remote: an `@` with a `:` after it, and no
/// scheme — that is, no `:` anywhere before the `@`.
pub open spec fn ssh_style(s: Seq<char>) -> bool {
    match find_from(s, 0, '@') {
        Some(a) => match find_from(s, 0, ':') {
            Some(c) => a < c,
            None => false,
        },
        None => false,
    }
}

/// The `ssh://` form of a short remote: the first `:` — which stands after
/// the host — becomes a `/`, and the scheme is prepended.
pub open spec fn short_remote_rewrite(s: Seq<char>) -> Seq<char>
    recommends
        ssh_style(s),
{
    let c = find_from(s, 0, ':').unwrap();
    "ssh://"@ + s.take(c) + "/"@ + s.skip(c + 1)
}

/// The URL after any short-remote rewrite.
pub open spec fn fixed_url(url: Seq<char>) -> Seq<char> {
    if ssh_style(url) {
        short_remote_rewrite(url)
    } else {
        url
    }
}

/// Folds a recognised scheme into the prefix tag plus a `;protocol=` marker;
/// other schemes, and URLs without a `:`, pass through unchanged.
pub open spec fn scheme_translate(fixed: Seq<char>, p: GitPrefix) -> Seq<char> {
    match find_from(fixed, 0, ':') {
        None => fixed,
        Some(ci) => {
            let proto = fixed.take(ci);
            if proto == "ssh"@ || proto == "http"@ || proto == "https"@ {
                prefix_tag(p) + fixed.skip(ci) + ";protocol="@ + proto
            } else {
                fixed
            }
        },
    }
}

/// View of an optional checkout name.
pub open spec fn opt_str_view(name: Option<&str>) -> Option<Seq<char>> {
    match name {
        Some(n) => Some(n@),
        None => None,
    }
}

/// The complete translation of one remote URL.
pub open spec fn spec_translate(url: Seq<char>, name: Option<Seq<char>>, p: GitPrefix) -> Seq<
    char,
> {
    let fixed = fixed_url(url);
    let tagged = scheme_translate(fixed, p) + ";nobranch=1"@;
    match name {
        None => tagged,
        Some(n) => tagged + ";name="@ + n + ";destsuffix="@ + n,
    }
}

/// Whether the translation folds a recognised scheme into the prefix tag:
/// after any short-remote rewrite, the URL has a `:` and everything before
/// its first `:` is `ssh`, `http` or `https`.
pub open spec fn scheme_recognised(url: Seq<char>) -> bool {
    let fixed = fixed_url(url);
    match find_from(fixed, 0, ':') {
        Some(ci) => {
            let proto = fixed.take(ci);
            proto == "ssh"@ || proto == "http"@ || proto == "https"@
        },
        None => false,
    }
}

/// A short `user@host:path` remote is rewritten to `ssh://` form before
/// scheme translation — its `:` after the host becomes `/` — so its
/// translation always folds the `ssh` scheme: the prefix tag, then `://`,
/// then the remote with that `:` replaced, then the `ssh` protocol marker
/// and the usual suffixes.
pub proof fn lemma_short_remote_rewrite(url: Seq<char>, name: Option<Seq<char>>, p: GitPrefix)
    requires
        ssh_style(url),
    ensures
        ({
            let c = find_from(url, 0, ':').unwrap();
            let base = prefix_tag(p) + "://"@ + url.take(c) + "/"@ + url.skip(c + 1)
                + ";protocol="@ + "ssh"@ + ";nobranch=1"@;
            spec_translate(url, name, p) == (match name {
                None => base,
                Some(n) => base + ";name="@ + n + ";destsuffix="@ + n,
            })
        }),
{
    lemma_find_from(url, 0, ':');
    let c = find_from(url, 0, ':').unwrap();
    let fixed = short_remote_rewrite(url);
    reveal_strlit("ssh://");
    reveal_strlit("ssh");
    reveal_strlit("://");
    reveal_strlit("/");
    assert("ssh://"@.len() == 6);
    assert("/"@.len() == 1);
    assert("://"@.len() == 3);
    assert(fixed.len() == 6 + url.len());
    assert(fixed[3] == ':');
    assert(fixed[0] == 's' && fixed[1] == 's' && fixed[2] == 'h');
    lemma_find_from(fixed, 0, ':');
    match find_from(fixed, 0, ':') {
        Some(ci) => {
            assert(ci <= 3);
            assert(ci == 3);
        },
        None => {
            assert(false);
        },
    }
    assert(fixed.take(3) =~= "ssh"@);
    reveal_strlit("http");
    reveal_strlit("https");
    assert("http"@.len() == 4 && "https"@.len() == 5);
    assert(scheme_translate(fixed, p) == prefix_tag(p) + fixed.skip(3) + ";protocol="@ + "ssh"@);
    assert(fixed.skip(3) =~= "://"@ + url.take(c) + "/"@ + url.skip(c + 1));
    let base = prefix_tag(p) + "://"@ + url.take(c) + "/"@ + url.skip(c + 1) + ";protocol="@
        + "ssh"@ + ";nobranch=1"@;
    assert(scheme_translate(fixed, p) + ";nobranch=1"@ =~= base);
    match name {
        None => {
            assert(spec_translate(url, name, p) =~= base);
        },
        Some(n) => {
            assert(spec_translate(url, name, p) =~= base + ";name="@ + n + ";destsuffix="@ + n);
        },
    }
}

/// Exactly where the translation folds a recognised scheme, the submodule
/// prefix yields `gitsm` in front of what the plain prefix renders after
/// its `git`; everywhere else the two prefixes translate identically.
pub proof fn lemma_submodule_prefix(url: Seq<char>, name: Option<Seq<char>>)
    ensures
        scheme_recognised(url) ==> ({
            let tp = spec_translate(url, name, GitPrefix::Git);
            let ts = spec_translate(url, name, GitPrefix::GitSubmodule);
            tp.take(3) == "git"@ && ts == "gitsm"@ + tp.skip(3)
        }),
        !scheme_recognised(url) ==> spec_translate(url, name, GitPrefix::GitSubmodule)
            == spec_translate(url, name, GitPrefix::Git),
{
    reveal_strlit("git");
    reveal_strlit("gitsm");
    assert("git"@.len() == 3 && "gitsm"@.len() == 5);
    let fixed = fixed_url(url);
    let tp = spec_translate(url, name, GitPrefix::Git);
    let ts = spec_translate(url, name, GitPrefix::GitSubmodule);
    if scheme_recognised(url) {
        let ci = find_from(fixed, 0, ':').unwrap();
        let proto = fixed.take(ci);
        let rest = fixed.skip(ci) + ";protocol="@ + proto;
        let tail = ";nobranch=1"@ + (match name {
            None => Seq::<char>::empty(),
            Some(n) => ";name="@ + n + ";destsuffix="@ + n,
        });
        assert(tp =~= "git"@ + rest + tail);
        assert(ts =~= "gitsm"@ + rest + tail);
        assert(tp.take(3) =~= "git"@);
        assert(ts =~= "gitsm"@ + tp.skip(3));
    } else {
        assert(tp =~= ts);
    }
}

/// The protocol marker the translation inserts for a recognised scheme.
pub open spec fn protocol_marker() -> Seq<char> {
    ";protocol="@
}

/// `pat` occurs in `s` beginning at index `i`.
pub open spec fn occurs_at(s: Seq<char>, pat: Seq<char>, i: int) -> bool {
    0 <= i && i + pat.len() <= s.len() && s.subrange(i, i + pat.len()) == pat
}

/// Character content of the protocol marker.
proof fn lemma_marker_facts()
    ensures
        protocol_marker().len() == 10,
        protocol_marker()[0] == ';',
        protocol_marker()[1] == 'p',
        forall|k: int| 1 <= k < 10 ==> #[trigger] protocol_marker()[k] != ';',
        forall|k: int| 1 <= k < 10 ==> #[trigger] protocol_marker()[k] != 's',
        forall|k: int| 1 <= k < 10 ==> #[trigger] protocol_marker()[k] != 'h',
        forall|k: int| 0 <= k < 10 ==> #[trigger] protocol_marker()[k] != '/',
{
    reveal_strlit(";protocol=");
}

/// A character of `s` under an occurrence equals the marker's character.
proof fn lemma_occ_char(s: Seq<char>, q: int, m: int)
    requires
        occurs_at(s, protocol_marker(), q),
        0 <= m < protocol_marker().len(),
    ensures
        s[q + m] == protocol_marker()[m],
{
    assert(s.subrange(q, q + protocol_marker().len() as int)[m] == protocol_marker()[m]);
}

/// An occurrence that fits inside the left part of a concatenation is an
/// occurrence of the left part; one beginning in the right part is an
/// occurrence of the right part.
proof fn lemma_occ_split(a: Seq<char>, b: Seq<char>, q: int)
    requires
        occurs_at(a + b, protocol_marker(), q),
    ensures
        q + protocol_marker().len() <= a.len() ==> occurs_at(a, protocol_marker(), q),
        q >= a.len() ==> occurs_at(b, protocol_marker(), q - a.len()),
{
    lemma_marker_facts();
    let l = protocol_marker().len() as int;
    if q + l <= a.len() {
        assert((a + b).subrange(q, q + l) =~= a.subrange(q, q + l));
    }
    if q >= a.len() {
        assert((a + b).subrange(q, q + l) =~= b.subrange(q - a.len(), q - a.len() + l));
    }
}

/// A piece that begins with `;`, continues otherwise than the marker, and
/// holds no further `;` contains no occurrence of the marker.
proof fn lemma_semi_lit_no_occ(b: Seq<char>)
    requires
        b.len() >= 2,
        b[0] == ';',
        b[1] != 'p',
        forall|k: int| 1 <= k < b.len() ==> #[trigger] b[k] != ';',
    ensures
        forall|k: int| !occurs_at(b, protocol_marker(), k),
{
    lemma_marker_facts();
    assert forall|k: int| !occurs_at(b, protocol_marker(), k) by {
        if occurs_at(b, protocol_marker(), k) {
            lemma_occ_char(b, k, 0);
            assert(b[k] == ';');
            assert(k == 0);
            lemma_occ_char(b, k, 1);
            assert(b[1] == 'p');
        }
    }
}

/// Appending a piece that begins with `;` and contains no occurrence
/// itself leaves every occurrence inside the left part.
proof fn lemma_occ_stays_left(a: Seq<char>, b: Seq<char>, q: int)
    requires
        occurs_at(a + b, protocol_marker(), q),
        b.len() > 0 ==> b[0] == ';',
        forall|k: int| !occurs_at(b, protocol_marker(), k),
    ensures
        occurs_at(a, protocol_marker(), q),
        q + protocol_marker().len() <= a.len(),
{
    lemma_marker_facts();
    let l = protocol_marker().len() as int;
    lemma_occ_split(a, b, q);
    if q >= a.len() {
        assert(false);
    } else if q + l > a.len() {
        assert(b.len() > 0);
        assert((a + b)[a.len() as int] == b[0]);
        lemma_occ_char(a + b, q, a.len() - q);
        assert(protocol_marker()[a.len() - q] == ';');
        assert(false);
    }
}

/// Appending a recognised protocol name leaves every occurrence inside
/// the left part: the name is shorter than the marker and starts with a
/// character the marker's interior never holds.
proof fn lemma_occ_stays_left_proto(a: Seq<char>, proto: Seq<char>, q: int)
    requires
        occurs_at(a + proto, protocol_marker(), q),
        proto.len() > 0,
        proto.len() < protocol_marker().len(),
        proto[0] == 's' || proto[0] == 'h',
    ensures
        occurs_at(a, protocol_marker(), q),
        q + protocol_marker().len() <= a.len(),
{
    lemma_marker_facts();
    let l = protocol_marker().len() as int;
    lemma_occ_split(a, proto, q);
    if q >= a.len() {
        assert(occurs_at(proto, protocol_marker(), q - a.len()));
        assert(false);
    } else if q + l > a.len() {
        assert((a + proto)[a.len() as int] == proto[0]);
        lemma_occ_char(a + proto, q, a.len() - q);
        assert(false);
    }
}

/// A `;`-led literal followed by marker-free text contains no occurrence.
proof fn lemma_group_no_occ(lit: Seq<char>, n: Seq<char>)
    requires
        lit.len() >= 2,
        lit[0] == ';',
        lit[1] != 'p',
        forall|k: int| 1 <= k < lit.len() ==> #[trigger] lit[k] != ';',
        forall|k: int| !occurs_at(n, protocol_marker(), k),
    ensures
        forall|k: int| !occurs_at(lit + n, protocol_marker(), k),
{
    lemma_marker_facts();
    let l = protocol_marker().len() as int;
    assert forall|k: int| !occurs_at(lit + n, protocol_marker(), k) by {
        if occurs_at(lit + n, protocol_marker(), k) {
            if k >= lit.len() {
                lemma_occ_split(lit, n, k);
                assert(false);
            } else {
                lemma_occ_char(lit + n, k, 0);
                assert((lit + n)[k] == ';');
                assert(lit[k] == ';');
                assert(k == 0);
                lemma_occ_char(lit + n, k, 1);
                assert((lit + n)[1] == lit[1]);
                assert(false);
            }
        }
    }
}

/// Character content of the literal suffix pieces.
proof fn lemma_suffix_lit_facts()
    ensures
        ";nobranch=1"@.len() == 11,
        ";nobranch=1"@[0] == ';',
        ";nobranch=1"@[1] == 'n',
        forall|k: int| 1 <= k < 11 ==> #[trigger] ";nobranch=1"@[k] != ';',
        ";name="@.len() == 6,
        ";name="@[0] == ';',
        ";name="@[1] == 'n',
        forall|k: int| 1 <= k < 6 ==> #[trigger] ";name="@[k] != ';',
        ";destsuffix="@.len() == 12,
        ";destsuffix="@[0] == ';',
        ";destsuffix="@[1] == 'd',
        forall|k: int| 1 <= k < 12 ==> #[trigger] ";destsuffix="@[k] != ';',
{
    reveal_strlit(";nobranch=1");
    reveal_strlit(";name=");
    reveal_strlit(";destsuffix=");
}

/// The rewrite of a short remote introduces no marker occurrence.
proof fn lemma_fixed_no_occ(url: Seq<char>)
    requires
        forall|k: int| !occurs_at(url, protocol_marker(), k),
    ensures
        forall|k: int| !occurs_at(fixed_url(url), protocol_marker(), k),
{
    lemma_marker_facts();
    let l = protocol_marker().len() as int;
    if ssh_style(url) {
        lemma_find_from(url, 0, ':');
        let c = find_from(url, 0, ':').unwrap();
        let u = url.update(c, '/');
        assert forall|k: int| !occurs_at(u, protocol_marker(), k) by {
            if occurs_at(u, protocol_marker(), k) {
                if k <= c < k + l {
                    lemma_occ_char(u, k, c - k);
                    assert(u[c] == '/');
                    assert(false);
                } else {
                    assert(url.subrange(k, k + l) =~= u.subrange(k, k + l));
                    assert(occurs_at(url, protocol_marker(), k));
                    assert(false);
                }
            }
        }
        let fixed = fixed_url(url);
        reveal_strlit("ssh://");
        reveal_strlit("/");
        assert(fixed =~= "ssh://"@ + u);
        assert forall|k: int| !occurs_at(fixed, protocol_marker(), k) by {
            if occurs_at(fixed, protocol_marker(), k) {
                if k >= 6 {
                    lemma_occ_split("ssh://"@, u, k);
                    assert(("ssh://"@ + u).subrange(k, k + l) =~= u.subrange(k - 6, k - 6 + l));
                    assert(occurs_at(u, protocol_marker(), k - 6));
                    assert(false);
                } else {
                    lemma_occ_char(fixed, k, 0);
                    assert(fixed[k] == ';');
                    assert(false);
                }
            }
        }
    }
}

/// The index at which the translation's own protocol marker stands, when
/// a scheme is recognised.
pub open spec fn marker_index(url: Seq<char>, p: GitPrefix) -> int
    recommends
        scheme_recognised(url),
{
    let fixed = fixed_url(url);
    let ci = find_from(fixed, 0, ':').unwrap();
    prefix_tag(p).len() + (fixed.len() - ci)
}

/// Every occurrence of the protocol marker in a translation stands at the
/// translation's own insertion point — so the URL and the checkout name
/// being marker-free, a scheme must have been recognised and exactly one
/// marker can exist.
proof fn lemma_occ_position(url: Seq<char>, name: Option<Seq<char>>, p: GitPrefix, q: int)
    requires
        forall|k: int| !occurs_at(url, protocol_marker(), k),
        name is Some ==> forall|k: int| !occurs_at(name.unwrap(), protocol_marker(), k),
        occurs_at(spec_translate(url, name, p), protocol_marker(), q),
    ensures
        scheme_recognised(url),
        q == marker_index(url, p),
{
    lemma_marker_facts();
    lemma_suffix_lit_facts();
    lemma_fixed_no_occ(url);
    let l = protocol_marker().len() as int;
    let fixed = fixed_url(url);
    let tagged = scheme_translate(fixed, p) + ";nobranch=1"@;
    let out = spec_translate(url, name, p);
    lemma_semi_lit_no_occ(";nobranch=1"@);
    // Reduce an occurrence in the full translation to one in `tagged`.
    match name {
        None => {
            assert(out == tagged);
        },
        Some(n) => {
            let g1 = ";name="@ + n;
            let g2 = ";destsuffix="@ + n;
            assert(out =~= (tagged + g1) + g2);
            lemma_group_no_occ(";name="@, n);
            lemma_group_no_occ(";destsuffix="@, n);
            assert(g2.len() > 0 && g2[0] == ';');
            lemma_occ_stays_left(tagged + g1, g2, q);
            assert(g1.len() > 0 && g1[0] == ';');
            lemma_occ_stays_left(tagged, g1, q);
        },
    }
    assert(occurs_at(tagged, protocol_marker(), q));
    lemma_occ_stays_left(scheme_translate(fixed, p), ";nobranch=1"@, q);
    assert(occurs_at(scheme_translate(fixed, p), protocol_marker(), q));
    // An unrecognised scheme passes `fixed` through, which is marker-free.
    if !scheme_recognised(url) {
        assert(scheme_translate(fixed, p) == fixed);
        assert(occurs_at(fixed, protocol_marker(), q));
        assert(false);
    }
    let ci = find_from(fixed, 0, ':').unwrap();
    let proto = fixed.take(ci);
    let head = prefix_tag(p) + fixed.skip(ci);
    let with_marker = head + protocol_marker();
    assert(scheme_translate(fixed, p) == prefix_tag(p) + fixed.skip(ci) + ";protocol="@ + proto);
    assert(scheme_translate(fixed, p) =~= with_marker + proto);
    lemma_find_from(fixed, 0, ':');
    reveal_strlit("ssh");
    reveal_strlit("http");
    reveal_strlit("https");
    assert(proto.len() >= 3);
    assert(proto[0] == 's' || proto[0] == 'h');
    lemma_occ_stays_left_proto(with_marker, proto, q);
    // The head itself is marker-free: its prefix tag holds no `;` and the
    // rest is a part of `fixed`.
    reveal_strlit("git");
    reveal_strlit("gitsm");
    assert forall|k: int| !occurs_at(head, protocol_marker(), k) by {
        if occurs_at(head, protocol_marker(), k) {
            let pl = prefix_tag(p).len() as int;
            if k < pl {
                lemma_occ_char(head, k, 0);
                assert(head[k] == ';');
                assert(prefix_tag(p)[k] == ';');
                if p == GitPrefix::Git {
                    if k == 0 {
                    } else if k == 1 {
                    } else {
                        assert(k == 2);
                    }
                } else {
                    if k == 0 {
                    } else if k == 1 {
                    } else if k == 2 {
                    } else if k == 3 {
                    } else {
                        assert(k == 4);
                    }
                }
                assert(false);
            } else {
                lemma_occ_split(prefix_tag(p), fixed.skip(ci), k);
                assert(occurs_at(fixed.skip(ci), protocol_marker(), k - pl));
                assert(fixed.skip(ci).subrange(k - pl, k - pl + l) =~= fixed.subrange(
                    ci + k - pl,
                    ci + k - pl + l,
                ));
                assert(occurs_at(fixed, protocol_marker(), ci + k - pl));
                assert(false);
            }
        }
    }
    // In `head + marker` the only occurrence is the inserted one.
    lemma_occ_split(head, protocol_marker(), q);
    if q + l <= head.len() {
        assert(occurs_at(head, protocol_marker(), q));
        assert(false);
    }
    if q < head.len() {
        assert((head + protocol_marker())[head.len() as int] == protocol_marker()[0]);
        lemma_occ_char(with_marker, q, head.len() - q);
        assert(protocol_marker()[head.len() - q] == ';');
        assert(false);
    }
    assert(occurs_at(protocol_marker(), protocol_marker(), q - head.len()));
    assert(q - head.len() + l <= l);
    assert(q == head.len());
    assert(head.len() == prefix_tag(p).len() + (fixed.len() - ci));
}

/// One translation inserts at most one protocol marker: as long as the
/// URL and the checkout name are themselves free of `;protocol=`, the
/// translated URL never holds two occurrences of it.
pub proof fn lemma_single_protocol_marker(
    url: Seq<char>,
    name: Option<Seq<char>>,
    p: GitPrefix,
    i: int,
    j: int,
)
    requires
        forall|k: int| !occurs_at(url, protocol_marker(), k),
        name is Some ==> forall|k: int| !occurs_at(name.unwrap(), protocol_marker(), k),
        occurs_at(spec_translate(url, name, p), protocol_marker(), i),
        occurs_at(spec_translate(url, name, p), protocol_marker(), j),
    ensures
        i == j,
{
    lemma_occ_position(url, name, p, i);
    lemma_occ_position(url, name, p, j);
}

/// Scheme folding step, executable form.
fn scheme_tag(fixed: &str, prefix: GitPrefix) -> (r: String)
    ensures
        r@ == scheme_translate(fixed@, prefix),
{
    let n = fixed.unicode_len();
    match find_char_from(fixed, n, 0, ':') {
        None => String::from_str(fixed),
        Some(ci) => {
            proof {
                lemma_find_from(fixed@, 0, ':');
            }
            let proto = fixed.substring_char(0, ci);
            proof {
                assert(proto@ =~= fixed@.take(ci as int));
            }
            if str_eq(proto, "ssh") || str_eq(proto, "http") || str_eq(proto, "https") {
                let mut r = String::from_str(prefix.as_str());
                r.append(fixed.substring_char(ci, n));
                r.append(";protocol=");
                r.append(proto);
                proof {
                    assert(fixed@.subrange(ci as int, n as int) =~= fixed@.skip(ci as int));
                }
                r
            } else {
                String::from_str(fixed)
            }
        },
    }
}

/// Converts a version-control remote URL to the fetcher's URL dialect.
///
/// Short `user@host:path` remotes are first rewritten to `ssh://` form; a
/// `ssh`, `http` or `https` scheme is folded into the prefix tag with a
/// `;protocol=` marker; `;nobranch=1` is always appended; and a checkout
/// name, when given, is recorded as `;name=` and `;destsuffix=` suffixes.
pub fn git_to_yocto_git_url(url: &str, name: Option<&str>, prefix: GitPrefix) -> (r: String)
    ensures
        r@ == spec_translate(url@, opt_str_view(name), prefix),
{
    let n = url.unicode_len();
    let mut short_colon: Option<usize> = None;
    if let Some(a) = find_char_from(url, n, 0, '@') {
        if let Some(c) = find_char_from(url, n, 0, ':') {
            proof {
                lemma_find_from(url@, 0, ':');
            }
            if a < c {
                short_colon = Some(c);
            }
        }
    }
    let fixed: String = match short_colon {
        Some(c) => {
            let mut f = String::from_str("ssh://");
            f.append(url.substring_char(0, c));
            f.append("/");
            f.append(url.substring_char(c + 1, n));
            proof {
                assert(url@.subrange(0, c as int) =~= url@.take(c as int));
                assert(url@.subrange(c as int + 1, n as int) =~= url@.skip(c as int + 1));
            }
            f
        },
        None => String::from_str(url),
    };
    proof {
        assert(fixed@ == if ssh_style(url@) {
            short_remote_rewrite(url@)
        } else {
            url@
        });
    }
    let mut out = scheme_tag(fixed.as_str(), prefix);
    out.append(";nobranch=1");
    if let Some(nm) = name {
        out.append(";name=");
        out.append(nm);
        out.append(";destsuffix=");
        out.append(nm);
    }
    out
}

#[verifier::external_type_specification]
#[verifier::external_body]
pub struct ExRepository(git2::Repository);

#[verifier::external_type_specification]
#[verifier::external_body]
pub struct ExRemote<'a>(git2::Remote<'a>);

#[verifier::external_type_specification]
#[verifier::external_body]
pub struct ExReference<'a>(git2::Reference<'a>);

/// Relies on git2::Repository::discover: the repository containing `path`,
/// if one exists there or above. The outcome depends on the filesystem, so
/// nothing is promised.
#[verifier::external_body]
fn repo_discover(path: &str) -> Option<git2::Repository> {
    git2::Repository::discover(path).ok()
}

/// Relies on git2::Repository::find_remote: the remote of that name, when
/// the repository has one.
#[verifier::external_body]
fn repo_find_remote<'r>(repo: &'r git2::Repository, name: &str) -> Option<git2::Remote<'r>> {
    repo.find_remote(name).ok()
}

/// Relies on git2::Remote::url: the remote's configured URL, when it is
/// valid text. A remote without a URL yields the empty string rather than
/// a failure: git2 renders the missing URL as empty bytes.
#[verifier::external_body]
fn remote_url<'r>(remote: &git2::Remote<'r>) -> Option<String> {
    remote.url().ok().map(str::to_string)
}

/// Relies on git2::Repository::submodules: how many submodules the
/// repository declares.
#[verifier::external_body]
fn repo_submodule_count(repo: &git2::Repository) -> Option<usize> {
    repo.submodules().ok().map(|s| s.len())
}

/// Relies on git2::Repository::head: the reference the head points at.
#[verifier::external_body]
fn repo_head<'r>(repo: &'r git2::Repository) -> Option<git2::Reference<'r>> {
    repo.head().ok()
}

/// Relies on git2::Reference::shorthand: the human-readable name of the
/// reference.
#[verifier::external_body]
fn reference_shorthand<'r>(head: &git2::Reference<'r>) -> Option<String> {
    head.shorthand().ok().map(str::to_string)
}

/// Relies on git2::Reference::target and the commit id's lowercase-hex
/// rendering: the commit a direct reference points at.
#[verifier::external_body]
fn reference_target_hex<'r>(head: &git2::Reference<'r>) -> Option<String> {
    head.target().map(|oid| oid.to_string())
}

/// Relies on git2::Repository::tag_names: every tag name the repository
/// holds, the ones that are not valid text left out.
#[verifier::external_body]
fn repo_tag_names(repo: &git2::Repository) -> Option<Vec<String>> {
    match repo.tag_names(None) {
        Ok(names) => Some(
            names.iter().filter_map(|t| t.ok().flatten().map(|s| s.to_string())).collect(),
        ),
        Err(_) => None,
    }
}

/// Relies on git2::Repository::revparse_single, git2::Object::peel and the
/// commit id's lowercase-hex rendering: the commit a tag name resolves to,
/// any annotation layer peeled away.
#[verifier::external_body]
fn revparse_tag_commit_hex(repo: &git2::Repository, tag: &str) -> Option<String> {
    let obj = repo.revparse_single(tag).ok()?;
    let commit = obj.peel(git2::ObjectType::Commit).ok()?;
    Some(commit.id().to_string())
}

/// Why the upstream probe gave up. Probing is best-effort: the caller
/// reports the reason and substitutes the default facts.
#[derive(Copy, Clone, Debug, Eq, PartialEq, Structural)]
pub enum ProbeError {
    /// No repository was found at or above the working directory.
    NoRepository,
    /// The repository has no remote named `origin`.
    NoOriginRemote,
    /// The submodule listing could not be read.
    NoSubmoduleInfo,
    /// The `origin` remote has no readable URL.
    NoRemoteUrl,
    /// The head reference could not be read.
    NoHead,
    /// The head is detached and resolves to no branch name.
    DetachedHead,
    /// The head resolves to no commit.
    NoCommit,
}

/// The message reported for each probe failure.
pub open spec fn probe_error_message(e: ProbeError) -> Seq<char> {
    match e {
        ProbeError::NoRepository => "Unable to determine git repo for this project"@,
        ProbeError::NoOriginRemote => "Unable to find remote 'origin' for this project"@,
        ProbeError::NoSubmoduleInfo => "Unable to determine the submodules"@,
        ProbeError::NoRemoteUrl => "No URL for remote 'origin'"@,
        ProbeError::NoHead => "Unable to find HEAD"@,
        ProbeError::DetachedHead => "Unable resolve HEAD to a branch"@,
        ProbeError::NoCommit => "Unable to resolve HEAD to a commit"@,
    }
}

impl ProbeError {
    /// Human-readable rendering of the failure.
    pub fn message(&self) -> (r: String)
        ensures
            r@ == probe_error_message(*self),
    {
        match *self {
            ProbeError::NoRepository => String::from_str(
                "Unable to determine git repo for this project",
            ),
            ProbeError::NoOriginRemote => String::from_str(
                "Unable to find remote 'origin' for this project",
            ),
            ProbeError::NoSubmoduleInfo => String::from_str("Unable to determine the submodules"),
            ProbeError::NoRemoteUrl => String::from_str("No URL for remote 'origin'"),
            ProbeError::NoHead => String::from_str("Unable to find HEAD"),
            ProbeError::DetachedHead => String::from_str("Unable resolve HEAD to a branch"),
            ProbeError::NoCommit => String::from_str("Unable to resolve HEAD to a commit"),
        }
    }
}

/// Facts recovered from the project's own upstream repository: the
/// translated remote URL, the checked-out branch, the head commit and
/// whether that commit is a recognised tag.
#[derive(Debug)]
pub struct ProjectRepo {
    pub uri: String,
    pub branch: String,
    pub rev: String,
    pub tag: bool,
}

/// Mathematical model of a [`ProjectRepo`].
pub struct ProjectRepoView {
    pub uri: Seq<char>,
    pub branch: Seq<char>,
    pub rev: Seq<char>,
    pub tag: bool,
}

impl View for ProjectRepo {
    type V = ProjectRepoView;

    open spec fn view(&self) -> ProjectRepoView {
        ProjectRepoView { uri: self.uri@, branch: self.branch@, rev: self.rev@, tag: self.tag }
    }
}

/// The probed facts composed into repository info: the prefix follows from
/// whether submodules are present, and the branch is recorded in the URL
/// unless it is one of the implicit defaults `master` and `HEAD`.
pub open spec fn spec_compose_repo(
    url: Seq<char>,
    submodule_count: nat,
    branch: Seq<char>,
    rev: Seq<char>,
    is_tag: bool,
) -> ProjectRepoView {
    let prefix = if submodule_count == 0 {
        GitPrefix::Git
    } else {
        GitPrefix::GitSubmodule
    };
    let base = spec_translate(url, None, prefix);
    let uri = if branch == "master"@ || branch == "HEAD"@ {
        base
    } else {
        base + ";branch="@ + branch
    };
    ProjectRepoView { uri, branch, rev, tag: is_tag }
}

/// Composes probed facts into repository info.
pub fn compose_repo_info(
    url: &str,
    submodule_count: usize,
    branch: &str,
    rev: &str,
    is_tag: bool,
) -> (r: ProjectRepo)
    ensures
        r@ == spec_compose_repo(url@, submodule_count as nat, branch@, rev@, is_tag),
{
    let prefix = if submodule_count == 0 {
        GitPrefix::Git
    } else {
        GitPrefix::GitSubmodule
    };
    let base = git_to_yocto_git_url(url, None, prefix);
    let uri = if str_eq(branch, "master") || str_eq(branch, "HEAD") {
        base
    } else {
        let mut u = base;
        u.append(";branch=");
        u.append(branch);
        u
    };
    ProjectRepo {
        uri,
        branch: String::from_str(branch),
        rev: String::from_str(rev),
        tag: is_tag,
    }
}

impl Default for ProjectRepo {
    /// The empty fallback substituted when probing fails.
    fn default() -> (r: Self)
        ensures
            r.uri@ == Seq::<char>::empty(),
            r.branch@ == Seq::<char>::empty(),
            r.rev@ == Seq::<char>::empty(),
            r.tag == false,
    {
        ProjectRepo { uri: String::new(), branch: String::new(), rev: String::new(), tag: false }
    }
}

impl ProjectRepo {
    /// Guesses at the upstream repository this project can be fetched
    /// from, by probing the checkout at or above `cwd`. Each probe step
    /// may fail; the result is then the step's error, and the caller
    /// substitutes the default info. Whatever the probes return, a
    /// successful result is the composition of probed facts that
    /// [`spec_compose_repo`] states.
    pub fn new(cwd: &str) -> (r: Result<ProjectRepo, ProbeError>)
        ensures
            r is Ok ==> exists|
                url: Seq<char>,
                n: nat,
                branch: Seq<char>,
                rev: Seq<char>,
                t: bool,
            | r->Ok_0@ == #[trigger] spec_compose_repo(url, n, branch, rev, t),
    {
        let repo = match repo_discover(cwd) {
            Some(r) => r,
            None => {
                return Err(ProbeError::NoRepository);
            },
        };
        let remote = match repo_find_remote(&repo, "origin") {
            Some(r) => r,
            None => {
                return Err(ProbeError::NoOriginRemote);
            },
        };
        let submodule_count = match repo_submodule_count(&repo) {
            Some(n) => n,
            None => {
                return Err(ProbeError::NoSubmoduleInfo);
            },
        };
        let url = match remote_url(&remote) {
            Some(u) => u,
            None => {
                return Err(ProbeError::NoRemoteUrl);
            },
        };
        let head = match repo_head(&repo) {
            Some(h) => h,
            None => {
                return Err(ProbeError::NoHead);
            },
        };
        let branch = match reference_shorthand(&head) {
            Some(b) => b,
            None => {
                return Err(ProbeError::DetachedHead);
            },
        };
        let rev = match reference_target_hex(&head) {
            Some(x) => x,
            None => {
                return Err(ProbeError::NoCommit);
            },
        };
        let tag = Self::rev_is_tag(&repo, rev.as_str());
        let info = compose_repo_info(
            url.as_str(),
            submodule_count,
            branch.as_str(),
            rev.as_str(),
            tag,
        );
        proof {
            assert(info@ == spec_compose_repo(
                url@,
                submodule_count as nat,
                branch@,
                rev@,
                tag,
            ));
        }
        Ok(info)
    }

    /// Whether any tag of the repository resolves to the given commit.
    /// Absence of tags, and any resolution failure, count as no. The
    /// probes only gather each tag's resolved commit; the decision over
    /// what they returned is [`any_commit_matches`], whose contract fixes
    /// it exactly.
    fn rev_is_tag(repo: &git2::Repository, rev: &str) -> bool {
        let tags = match repo_tag_names(repo) {
            Some(t) => t,
            None => {
                return false;
            },
        };
        let mut commits: Vec<Option<String>> = Vec::new();
        let mut i: usize = 0;
        while i < tags.len()
            decreases tags@.len() - i,
        {
            commits.push(revparse_tag_commit_hex(repo, tags[i].as_str()));
            i = i + 1;
        }
        any_commit_matches(&commits, rev)
    }
}

/// Whether any successfully resolved commit id equals the probed revision.
fn any_commit_matches(commits: &Vec<Option<String>>, rev: &str) -> (r: bool)
    ensures
        r == exists|i: int|
            0 <= i < commits@.len() && #[trigger] commits@[i] is Some
                && commits@[i].unwrap()@ == rev@,
{
    let mut i: usize = 0;
    while i < commits.len()
        invariant
            i <= commits@.len(),
            forall|j: int|
                0 <= j < i ==> (#[trigger] commits@[j] is Some ==> commits@[j].unwrap()@
                    != rev@),
        decreases commits@.len() - i,
    {
        let matched = match &commits[i] {
            Some(c) => str_eq(c.as_str(), rev),
            None => false,
        };
        if matched {
            proof {
                assert(commits@[i as int] is Some && commits@[i as int].unwrap()@ == rev@);
            }
            return true;
        }
        i = i + 1;
    }
    false
}

} // verus!
