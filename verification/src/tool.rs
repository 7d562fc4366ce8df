//! The pure decisions of the command-line generator: where a schema of a
//! given TDLib version is published, where a fetched schema is saved, and
//! how the manifest of the generated crate is customized.

use vstd::prelude::*;
use crate::text::{chars_eq_str, chars_of, push_replacing, replace_all, replace_char, replace_str};

verus! {

/// The git reference of a TDLib version: a bare version number gets a `v`
/// in front; a tag that starts with `v`, and `master`, stay as they are.
pub open spec fn clean_tag(tag: Seq<char>) -> Seq<char> {
    if (tag.len() > 0 && tag[0] == 'v') || tag == "master"@ {
        tag
    } else {
        seq!['v'] + tag
    }
}

/// Computes the git reference of a TDLib version.
pub fn clean_tag_exec(tag: &str) -> (r: String)
    ensures
        r@ == clean_tag(tag@),
{
    let t = chars_of(tag);
    if (t.len() > 0 && t[0] == 'v') || chars_eq_str(&t, "master") {
        String::from_str(tag)
    } else {
        let mut out = String::from_str("v");
        out.append(tag);
        proof {
            reveal_strlit("v");
        }
        assert(out@ =~= seq!['v'] + tag@);
        out
    }
}

/// Where the schema of git reference `reference` is published.
pub open spec fn scheme_url(reference: Seq<char>) -> Seq<char> {
    "https://raw.githubusercontent.com/tdlib/td/"@ + reference + "/td/generate/scheme/td_api.tl"@
}

fn scheme_url_exec(reference: &str) -> (r: String)
    ensures
        r@ == scheme_url(reference@),
{
    let mut out = String::from_str("https://raw.githubusercontent.com/tdlib/td/");
    out.append(reference);
    out.append("/td/generate/scheme/td_api.tl");
    out
}

/// The addresses to try, in order, for the schema of a TDLib version: that
/// of its cleaned reference, then that of the tag as given.
pub fn tl_urls(tag: &str) -> (r: Vec<String>)
    ensures
        r.len() == 2,
        r@[0]@ == scheme_url(clean_tag(tag@)),
        r@[1]@ == scheme_url(tag@),
{
    let clean = clean_tag_exec(tag);
    let mut r: Vec<String> = Vec::new();
    r.push(scheme_url_exec(clean.as_str()));
    r.push(scheme_url_exec(tag));
    r
}

/// The file a fetched schema is saved to by default: `api_<tag>.tl`, with
/// every `/` of the tag turned into `_`.
pub open spec fn default_output_path(tag: Seq<char>) -> Seq<char> {
    "api_"@ + replace_char(tag, '/', "_"@) + ".tl"@
}

/// Computes the default file of a fetched schema.
pub fn default_output_path_exec(tag: &str) -> (r: String)
    ensures
        r@ == default_output_path(tag@),
{
    let mut out = String::from_str("api_");
    let t = chars_of(tag);
    let underscore = chars_of("_");
    push_replacing(&mut out, &t, '/', &underscore);
    out.append(".tl");
    out
}

/// The manifest line that names the package.
pub open spec fn name_line(name: Seq<char>) -> Seq<char> {
    "name = \""@ + name + "\""@
}

/// The manifest line that sets the version.
pub open spec fn version_line(version: Seq<char>) -> Seq<char> {
    "version = \""@ + version + "\""@
}

/// The manifest of the generated crate: the template with the package name
/// `tdlib-rs` and the version `1.3.0` replaced by those asked for.
pub open spec fn customized_manifest(
    template: Seq<char>,
    pkg_name: Option<Seq<char>>,
    pkg_version: Option<Seq<char>>,
) -> Seq<char> {
    let named = match pkg_name {
        Some(n) => replace_all(template, name_line("tdlib-rs"@), name_line(n)),
        None => template,
    };
    match pkg_version {
        Some(v) => replace_all(named, version_line("1.3.0"@), version_line(v)),
        None => named,
    }
}

/// What the manifest customization does, option by option: with neither
/// option the template is returned unchanged; a package name replaces every
/// `name = "tdlib-rs"` line; and a version replaces every `version = "1.3.0"`
/// line of the text the name option gave, whether or not a name was given.
pub proof fn lemma_customized_manifest_options(
    template: Seq<char>,
    pkg_name: Option<Seq<char>>,
    version: Seq<char>,
)
    ensures
        customized_manifest(template, None, None) == template,
        customized_manifest(template, pkg_name, None) == match pkg_name {
            Some(n) => replace_all(template, name_line("tdlib-rs"@), name_line(n)),
            None => template,
        },
        customized_manifest(template, pkg_name, Some(version)) == replace_all(
            customized_manifest(template, pkg_name, None),
            version_line("1.3.0"@),
            version_line(version),
        ),
{
}

/// Model of an optional text.
pub open spec fn opt_str_view(o: Option<&str>) -> Option<Seq<char>> {
    match o {
        Some(s) => Some(s@),
        None => None,
    }
}

fn line_exec(key: &str, value: &str) -> (r: String)
    ensures
        r@ == key@ + " = \""@ + value@ + "\""@,
{
    let mut out = String::from_str(key);
    out.append(" = \"");
    out.append(value);
    out.append("\"");
    out
}

/// Customizes the manifest template of the generated crate.
pub fn customize_cargo_toml(template: &str, pkg_name: Option<&str>, pkg_version: Option<&str>) -> (r: String)
    ensures
        r@ == customized_manifest(template@, opt_str_view(pkg_name), opt_str_view(pkg_version)),
{
    proof {
        reveal_strlit("name");
        reveal_strlit("version");
        reveal_strlit(" = \"");
        reveal_strlit("\"");
        reveal_strlit("name = \"");
        reveal_strlit("version = \"");
    }
    let named = match pkg_name {
        Some(n) => {
            let old_line = line_exec("name", "tdlib-rs");
            let new_line = line_exec("name", n);
            assert(old_line@ =~= name_line("tdlib-rs"@));
            assert(new_line@ =~= name_line(n@));
            replace_str(template, old_line.as_str(), new_line.as_str())
        },
        None => String::from_str(template),
    };
    match pkg_version {
        Some(v) => {
            let old_line = line_exec("version", "1.3.0");
            let new_line = line_exec("version", v);
            assert(old_line@ =~= version_line("1.3.0"@));
            assert(new_line@ =~= version_line(v@));
            replace_str(named.as_str(), old_line.as_str(), new_line.as_str())
        },
        None => named,
    }
}

/// What to do once the address at position `attempt` of `count` addresses
/// has been tried.
#[derive(Clone, Copy, Debug, PartialEq, Eq, Structural)]
pub enum FetchStep {
    /// The body just read is the schema.
    Keep,
    /// Try the address at this position.
    TryNext(usize),
    /// Every address has been tried: the schema cannot be had.
    GiveUp,
}

/// The next step of a download: a non-empty body is kept; a failed
/// request or an empty body moves on to the next address, until none is
/// left.
pub open spec fn fetch_next(attempt: usize, count: usize, body_len: Option<usize>) -> FetchStep {
    match body_len {
        Some(n) if n > 0 => FetchStep::Keep,
        _ => if attempt + 1 < count {
            FetchStep::TryNext((attempt + 1) as usize)
        } else {
            FetchStep::GiveUp
        },
    }
}

/// Decides the next step of a download, given the length of the body that
/// the address at position `attempt` gave (`None` when the request failed).
pub fn fetch_step(attempt: usize, count: usize, body_len: Option<usize>) -> (r: FetchStep)
    ensures
        r == fetch_next(attempt, count, body_len),
{
    match body_len {
        Some(n) => {
            if n > 0 {
                return FetchStep::Keep;
            }
        },
        None => {},
    }
    if attempt < count && attempt + 1 < count {
        FetchStep::TryNext(attempt + 1)
    } else {
        FetchStep::GiveUp
    }
}

} // verus!
