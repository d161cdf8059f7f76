//! Conversion of local file paths into `file://` URLs for the browser.

use vstd::prelude::*;

use crate::format::opt_text;
use crate::text::{has_prefix, push_text, replace_char, replace_char_seq};

verus! {

/// Resolves a path to its canonical absolute form, without Windows' `\\?\` prefix.
/// Calls `dunce::canonicalize` and renders the result with `to_string_lossy`;
/// `None` where it fails. The result depends on the file system, so nothing is
/// claimed of it.
#[verifier::external_body]
fn canonicalize_path(path: &str) -> (res: Option<String>) {
    dunce::canonicalize(path).ok().map(|p| p.to_string_lossy().into_owned())
}

/// Converts an absolute path into a `file` URL.
/// Calls `url::Url::from_file_path` and serializes the URL; `None` where it refuses
/// the path. The contract claims that a produced URL starts with `file://`, which
/// the crate's source writes first, and holds no `?` and no `\`: the source
/// percent-encodes both in every path segment (`?` is in its path-segment set on
/// every platform, `\` in the set it uses where `\` is not a separator), and a
/// host never holds either. The rest depends on the platform's path syntax.
#[verifier::external_body]
fn file_url_of(path: &str) -> (res: Option<String>)
    ensures
        res matches Some(u) ==> has_prefix(u@, "file://"@) && !u@.contains('?') && !u@.contains('\\'),
{
    url::Url::from_file_path(path).ok().map(|u| u.to_string())
}

/// The URL written when the path cannot be converted by the URL library:
/// `file:///` followed by the path, with every `\` turned into `/`.
pub open spec fn fallback_file_url(canonical: Seq<char>) -> Seq<char> {
    replace_char_seq("file:///"@ + canonical, '\\', '/')
}

/// The URL chosen for a canonical path: the converted URL where there is one,
/// else the fallback.
pub open spec fn chosen_file_url(canonical: Seq<char>, converted: Option<Seq<char>>) -> Seq<char> {
    match converted {
        Some(u) => u,
        None => fallback_file_url(canonical),
    }
}

/// Picks the URL for `canonical` given the URL library's answer `converted`.
pub fn file_url_text(canonical: &str, converted: Option<String>) -> (res: String)
    ensures
        res@ == chosen_file_url(canonical@, opt_text(converted)),
{
    match converted {
        Some(u) => u,
        None => {
            let mut raw = "file:///".to_owned();
            push_text(&mut raw, canonical);
            replace_char(raw.as_str(), '\\', '/')
        },
    }
}

/// The path handed to the URL library: the canonical form where the file
/// system gave one, else the path as given.
pub open spec fn canonical_text(path: Seq<char>, canonicalized: Option<Seq<char>>) -> Seq<char> {
    match canonicalized {
        Some(c) => c,
        None => path,
    }
}

/// Chooses the path to convert, given the file system's canonical form of it.
pub fn canonical_or_path(path: &str, canonicalized: Option<String>) -> (res: String)
    ensures
        res@ == canonical_text(path@, opt_text(canonicalized)),
{
    match canonicalized {
        Some(c) => c,
        None => path.to_owned(),
    }
}

/// The fallback URL starts with `file:///` and holds no backslash.
pub proof fn lemma_fallback_file_url_shape(canonical: Seq<char>)
    ensures
        has_prefix(fallback_file_url(canonical), "file:///"@),
        !fallback_file_url(canonical).contains('\\'),
{
    reveal_strlit("file:///");
    let raw = "file:///"@ + canonical;
    let r = fallback_file_url(canonical);
    assert(r.take(8) =~= "file:///"@);
    if r.contains('\\') {
        let i = choose|i: int| 0 <= i < r.len() && r[i] == '\\';
        assert(r[i] == (if raw[i] == '\\' { '/' } else { raw[i] }));
    }
}

/// Converts a local file path into an absolute `file://` URL for the browser.
/// The path is canonicalized first (kept as given where that fails), then
/// converted by the URL library, falling back to `file:///<path>` with `\`
/// turned into `/`. The canonical form depends on the file system and the URL
/// on the platform; whatever they are, the text converted is the one
/// `canonical_or_path` chooses, the URL is the one `file_url_text` picks for
/// it, and so it starts with `file://` and holds no backslash (and no `?` when
/// the library made it).
pub fn to_file_url(path: &str) -> (res: String)
    ensures
        has_prefix(res@, "file://"@),
        !res@.contains('\\'),
        exists|canonicalized: Option<Seq<char>>, converted: Option<Seq<char>>|
            (converted matches Some(u) ==> has_prefix(u, "file://"@) && !u.contains('?') && !u.contains('\\'))
            && res@ == #[trigger] chosen_file_url(canonical_text(path@, canonicalized), converted),
{
    let canonicalized = canonicalize_path(path);
    let ghost canon = opt_text(canonicalized);
    let canonical = canonical_or_path(path, canonicalized);
    let converted = file_url_of(canonical.as_str());
    let ghost conv = opt_text(converted);
    let res = file_url_text(canonical.as_str(), converted);
    proof {
        lemma_fallback_file_url_shape(canonical@);
        reveal_strlit("file://");
        reveal_strlit("file:///");
        if conv is None {
            assert(res@.take(8) == "file:///"@);
            assert(res@.take(7) =~= "file:///"@.take(7));
            assert("file:///"@.take(7) =~= "file://"@);
        }
        assert(res@ == chosen_file_url(canonical_text(path@, canon), conv));
    }
    res
}

} // verus!
