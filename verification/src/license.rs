//! Location of on-disk license evidence and its checksum line.
//!
//! For a license-expression component the search tries, in order, the
//! component verbatim as a filename, then `LICENSE-<component>`, then — only
//! for single-component expressions — the bare `LICENSE` file. The first
//! match wins and is rendered as a `file://...;md5=...` evidence line; when
//! nothing matches, or the matched file cannot be read, a placeholder
//! checksum asks a human to fill the evidence in.

use vstd::prelude::*;

use crate::strutil::str_eq;

verus! {

/// The sentinel license expression of a closed-source package.
pub open spec fn closed_license() -> Seq<char> {
    "CLOSED"@
}

/// A relative path as the evidence line displays it: the directory and the
/// file name separated by `/`, or the file name alone under an empty
/// directory.
pub open spec fn path_join(dir: Seq<char>, file: Seq<char>) -> Seq<char> {
    if dir.len() == 0 {
        file
    } else {
        dir + "/"@ + file
    }
}

/// The `LICENSE-<component>` candidate file name.
pub open spec fn prefixed_candidate(license_name: Seq<char>) -> Seq<char> {
    "LICENSE-"@ + license_name
}

/// Which on-disk file the search matches, given which candidates exist.
/// First match wins; the bare `LICENSE` file is only admitted for a
/// single-component license expression.
pub open spec fn matched_candidate(
    license_name: Seq<char>,
    single_license: bool,
    verbatim_exists: bool,
    prefixed_exists: bool,
    bare_exists: bool,
) -> Option<Seq<char>> {
    if verbatim_exists {
        Some(license_name)
    } else if prefixed_exists {
        Some(prefixed_candidate(license_name))
    } else if bare_exists && single_license {
        Some("LICENSE"@)
    } else {
        None
    }
}

/// A multi-component license expression never matches the shared bare
/// `LICENSE` file: each component resolves to a file named after the
/// component itself, or to nothing.
pub proof fn lemma_multi_component_never_bare(
    license_name: Seq<char>,
    verbatim_exists: bool,
    prefixed_exists: bool,
    bare_exists: bool,
)
    ensures
        ({
            let m = matched_candidate(license_name, false, verbatim_exists, prefixed_exists, bare_exists);
            m is Some ==> m == Some(license_name) || m == Some(prefixed_candidate(license_name))
        }),
{
}

/// The evidence line for a matched file: the displayed relative path and
/// either a real checksum or the `generateme` placeholder.
pub open spec fn evidence_line_of(
    rel_dir: Seq<char>,
    file: Seq<char>,
    checksum: Option<Seq<char>>,
) -> Seq<char> {
    "file://"@ + path_join(rel_dir, file) + ";md5="@ + (match checksum {
        Some(c) => c,
        None => "generateme"@,
    }) + " \\\n"@
}

/// The fallback line emitted when no candidate file exists.
pub open spec fn fallback_line_of(license_name: Seq<char>) -> Seq<char> {
    "file://"@ + license_name + ";md5="@ + "generateme"@ + " \\\n"@
}

/// The lowercase hexadecimal md5 digest of a byte sequence.
pub uninterp spec fn md5_hex_of(data: Seq<u8>) -> Seq<char>;

/// A lowercase hexadecimal digit.
pub open spec fn is_lower_hex_digit(c: char) -> bool {
    let u = c as u32;
    (0x30 <= u && u <= 0x39) || (0x61 <= u && u <= 0x66)
}

/// What a recorded checksum may be: absent, or exactly 32 lowercase
/// hexadecimal digits.
pub open spec fn checksum_wellformed(sum: Option<Seq<char>>) -> bool {
    match sum {
        Some(s) => s.len() == 32 && (forall|k: int|
            0 <= k < s.len() ==> is_lower_hex_digit(#[trigger] s[k])),
        None => true,
    }
}

/// The checksum recorded for a read outcome: a digest of the bytes read,
/// or nothing when the file could not be read.
pub open spec fn checksum_view(content: Option<Seq<u8>>) -> Option<Seq<char>> {
    match content {
        Some(bytes) => Some(md5_hex_of(bytes)),
        None => None,
    }
}

/// Relies on std::path::Path::exists: whether `path` names anything on
/// disk. The outcome depends on the filesystem, so nothing is promised.
#[verifier::external_body]
fn path_exists(path: &str) -> bool {
    std::path::Path::new(path).exists()
}

/// Relies on fs_err::read: the file's full contents as bytes, or nothing
/// when the file cannot be opened or read. The outcome depends on the
/// filesystem, so nothing is promised.
#[verifier::external_body]
fn read_file_bytes(path: &str) -> Option<Vec<u8>> {
    fs_err::read(path).ok()
}

/// Relies on md5::compute and the digest's lowercase-hex rendering: two hex
/// digits for each of the 16 digest bytes, a function of the data alone.
#[verifier::external_body]
fn md5_hex(data: &Vec<u8>) -> (r: String)
    ensures
        r@ == md5_hex_of(data@),
        r@.len() == 32,
        forall|k: int| 0 <= k < r@.len() ==> is_lower_hex_digit(#[trigger] r@[k]),
{
    format!("{:x}", md5::compute(data.as_slice()))
}

/// The displayed join of a directory and a file name.
fn join_rel(dir: &str, file: &str) -> (r: String)
    ensures
        r@ == path_join(dir@, file@),
{
    if dir.unicode_len() == 0 {
        String::from_str(file)
    } else {
        let mut r = String::from_str(dir);
        r.append("/");
        r.append(file);
        r
    }
}

/// The file the search settles on, from the component name and which
/// candidates exist on disk.
pub fn matched_file(
    license_name: &str,
    single_license: bool,
    verbatim_exists: bool,
    prefixed_exists: bool,
    bare_exists: bool,
) -> (r: Option<String>)
    ensures
        r is Some ==> matched_candidate(
            license_name@,
            single_license,
            verbatim_exists,
            prefixed_exists,
            bare_exists,
        ) == Some(r.unwrap()@),
        r is None ==> matched_candidate(
            license_name@,
            single_license,
            verbatim_exists,
            prefixed_exists,
            bare_exists,
        ) is None,
{
    if verbatim_exists {
        Some(String::from_str(license_name))
    } else if prefixed_exists {
        let mut n = String::from_str("LICENSE-");
        n.append(license_name);
        Some(n)
    } else if bare_exists && single_license {
        Some(String::from_str("LICENSE"))
    } else {
        None
    }
}

/// The evidence line for a matched file and a checksum outcome.
pub fn evidence_line(rel_dir: &str, file_name: &str, checksum: Option<&str>) -> (r: String)
    ensures
        r@ == evidence_line_of(rel_dir@, file_name@, match checksum {
            Some(c) => Some(c@),
            None => None,
        }),
{
    let mut l = String::from_str("file://");
    let joined = join_rel(rel_dir, file_name);
    l.append(joined.as_str());
    l.append(";md5=");
    match checksum {
        Some(c) => l.append(c),
        None => l.append("generateme"),
    }
    l.append(" \\\n");
    l
}

/// The fallback line naming the unmatched component.
fn fallback_line(license_name: &str) -> (r: String)
    ensures
        r@ == fallback_line_of(license_name@),
{
    let mut l = String::from_str("file://");
    l.append(license_name);
    l.append(";md5=");
    l.append("generateme");
    l.append(" \\\n");
    l
}

/// Locates license evidence for one component of a license expression.
///
/// The sentinel `CLOSED` yields the empty string whatever the filesystem
/// holds. Otherwise the first existing candidate file is rendered as an
/// evidence line whose checksum is the md5 of the bytes read, falling back
/// to the `generateme` placeholder when the file cannot be read; when no
/// candidate exists the fallback line names the component itself.
pub fn file(crate_root: &str, rel_dir: &str, license_name: &str, single_license: bool) -> (r:
    String)
    ensures
        license_name@ == closed_license() ==> r@ == Seq::<char>::empty(),
        license_name@ != closed_license() ==> exists|
            verbatim: bool,
            prefixed: bool,
            bare: bool,
            content: Option<Seq<u8>>,
        |
            {
                let m = #[trigger] matched_candidate(
                    license_name@,
                    single_license,
                    verbatim,
                    prefixed,
                    bare,
                );
                let sum = #[trigger] checksum_view(content);
                checksum_wellformed(sum) && (if m is Some {
                    r@ == evidence_line_of(rel_dir@, m.unwrap(), sum)
                } else {
                    r@ == fallback_line_of(license_name@)
                })
            },
{
    if str_eq(license_name, "CLOSED") {
        return String::new();
    }
    let verbatim_path = join_rel(crate_root, license_name);
    let verbatim = path_exists(verbatim_path.as_str());
    let mut prefixed_name = String::from_str("LICENSE-");
    prefixed_name.append(license_name);
    let prefixed_path = join_rel(crate_root, prefixed_name.as_str());
    let prefixed = path_exists(prefixed_path.as_str());
    let bare_path = join_rel(crate_root, "LICENSE");
    let bare = path_exists(bare_path.as_str());
    match matched_file(license_name, single_license, verbatim, prefixed, bare) {
        Some(f) => {
            let full = join_rel(crate_root, f.as_str());
            let content = read_file_bytes(full.as_str());
            let ghost content_view: Option<Seq<u8>> = match content {
                Some(ref bytes) => Some(bytes@),
                None => None,
            };
            let r = match content {
                Some(bytes) => {
                    let sum = md5_hex(&bytes);
                    evidence_line(rel_dir, f.as_str(), Some(sum.as_str()))
                },
                None => evidence_line(rel_dir, f.as_str(), None),
            };
            proof {
                let m = matched_candidate(license_name@, single_license, verbatim, prefixed, bare);
                assert(checksum_wellformed(checksum_view(content_view)));
                assert(m is Some && r@ == evidence_line_of(
                    rel_dir@,
                    m.unwrap(),
                    checksum_view(content_view),
                ));
            }
            r
        },
        None => {
            let r = fallback_line(license_name);
            proof {
                let m = matched_candidate(license_name@, single_license, verbatim, prefixed, bare);
                let content_view: Option<Seq<u8>> = None;
                assert(m is None && r@ == fallback_line_of(license_name@));
                assert(checksum_view(content_view) is None);
            }
            r
        },
    }
}

} // verus!
