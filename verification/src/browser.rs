//! Decisions around the headless browser: where Chrome is looked for, how it
//! is started, which page animations are driven, and the script that reads an
//! element's computed style.

use vstd::prelude::*;

use crate::command::texts;
use crate::text::{occurs_in, push_text};

verus! {

/// Operating systems with known Chrome install locations.
#[derive(Debug, Clone, Copy, PartialEq, Eq, Structural)]
pub enum HostOs {
    /// Microsoft Windows.
    Windows,
    /// Apple macOS.
    MacOs,
    /// Linux.
    Linux,
    /// Any other system: no location is known.
    Other,
}

/// The standard Chrome install locations of each system, in search order.
pub open spec fn chrome_candidates_of(os: HostOs) -> Seq<Seq<char>> {
    match os {
        HostOs::Windows => seq![
            "C:\\Program Files\\Google\\Chrome\\Application\\chrome.exe"@,
            "C:\\Program Files (x86)\\Google\\Chrome\\Application\\chrome.exe"@,
            "C:\\Users\\harun\\AppData\\Local\\Google\\Chrome\\Application\\chrome.exe"@,
        ],
        HostOs::MacOs => seq!["/Applications/Google Chrome.app/Contents/MacOS/Google Chrome"@],
        HostOs::Linux => seq!["/usr/bin/google-chrome"@, "/usr/bin/chromium-browser"@, "/usr/bin/chromium"@],
        HostOs::Other => Seq::empty(),
    }
}

/// The standard Chrome install locations of `os`, in the order they are tried.
pub fn default_chrome_candidates(os: HostOs) -> (res: Vec<&'static str>)
    ensures
        res@.map_values(|s: &str| s@) == chrome_candidates_of(os),
{
    let res = match os {
        HostOs::Windows => vec![
            "C:\\Program Files\\Google\\Chrome\\Application\\chrome.exe",
            "C:\\Program Files (x86)\\Google\\Chrome\\Application\\chrome.exe",
            "C:\\Users\\harun\\AppData\\Local\\Google\\Chrome\\Application\\chrome.exe",
        ],
        HostOs::MacOs => vec!["/Applications/Google Chrome.app/Contents/MacOS/Google Chrome"],
        HostOs::Linux => vec!["/usr/bin/google-chrome", "/usr/bin/chromium-browser", "/usr/bin/chromium"],
        HostOs::Other => Vec::new(),
    };
    assert(res@.map_values(|s: &str| s@) =~= chrome_candidates_of(os));
    res
}

/// Candidate `i` is present: it has a flag, and the flag is set.
pub open spec fn flagged(present: Seq<bool>, i: int) -> bool {
    0 <= i < present.len() && present[i]
}

/// The first candidate whose presence flag is set, if any.
pub open spec fn first_present(candidates: Seq<Seq<char>>, present: Seq<bool>) -> Option<Seq<char>> {
    if exists|i: int| 0 <= i < candidates.len() && #[trigger] flagged(present, i) {
        let i = choose|i: int| 0 <= i < candidates.len() && #[trigger] flagged(present, i)
            && forall|j: int| 0 <= j < i ==> !flagged(present, j);
        Some(candidates[i])
    } else {
        None
    }
}

/// The standard Chrome location of `os` that exists: `present[i]` tells
/// whether the `i`-th of `default_chrome_candidates(os)` exists on disk (a
/// missing flag counts as absent). The first existing one is chosen.
pub fn find_default_chrome_path(os: HostOs, present: &Vec<bool>) -> (res: Option<String>)
    ensures
        crate::format::opt_text(res) == first_present(chrome_candidates_of(os), present@),
{
    let candidates = default_chrome_candidates(os);
    let ghost c = chrome_candidates_of(os);
    let mut i: usize = 0;
    while i < candidates.len()
        invariant
            i <= candidates@.len(),
            candidates@.map_values(|s: &str| s@) == c,
            c == chrome_candidates_of(os),
            forall|j: int| 0 <= j < i ==> !flagged(present@, j),
        decreases candidates@.len() - i,
    {
        if i < present.len() && present[i] {
            let found: &str = candidates[i];
            assert(c[i as int] == found@);
            proof {
                assert(0 <= i < c.len() && flagged(present@, i as int)
                    && forall|j: int| 0 <= j < i ==> !flagged(present@, j));
                let k = choose|k: int| 0 <= k < c.len() && #[trigger] flagged(present@, k)
                    && forall|j: int| 0 <= j < k ==> !flagged(present@, j);
                if k < i {
                    assert(!flagged(present@, k));
                } else if k > i {
                    assert(!flagged(present@, i as int));
                }
                assert(k == i);
            }
            let res = found.to_owned();
            assert(res@ == c[i as int]);
            return Some(res);
        }
        i = i + 1;
    }
    None
}

/// Starts the headless browser.
pub struct BrowserLauncher;

/// The switches the browser is started with.
pub open spec fn launch_args_of() -> Seq<Seq<char>> {
    seq![
        "--hide-scrollbars"@,
        "--disable-background-timer-throttling"@,
        "--disable-renderer-backgrounding"@,
        "--force-device-scale-factor=1"@,
    ]
}

/// The executable chosen: the one configured, else the detected standard location.
pub open spec fn chosen_executable(configured: Option<Seq<char>>, os: HostOs, present: Seq<bool>) -> Option<Seq<char>> {
    match configured {
        Some(p) => Some(p),
        None => first_present(chrome_candidates_of(os), present),
    }
}

impl BrowserLauncher {
    /// Command-line switches that keep rendering deterministic: no scrollbars,
    /// no background throttling, device scale factor 1.
    pub fn launch_args() -> (res: Vec<&'static str>)
        ensures
            res@.map_values(|s: &str| s@) == launch_args_of(),
    {
        let res = vec![
            "--hide-scrollbars",
            "--disable-background-timer-throttling",
            "--disable-renderer-backgrounding",
            "--force-device-scale-factor=1",
        ];
        assert(res@.map_values(|s: &str| s@) =~= launch_args_of());
        res
    }

    /// The Chrome executable to start: the configured one where there is one,
    /// else the first standard location of `os` flagged present (see
    /// `find_default_chrome_path`), else none, leaving the choice to the driver.
    pub fn chrome_executable(configured: Option<String>, os: HostOs, present: &Vec<bool>) -> (res: Option<String>)
        ensures
            crate::format::opt_text(res) == chosen_executable(crate::format::opt_text(configured), os, present@),
    {
        match configured {
            Some(p) => Some(p),
            None => find_default_chrome_path(os, present),
        }
    }
}

/// Drives the page's CSS animations through the DevTools `Animation` domain.
pub struct AnimationController;

/// No text occurs twice.
pub open spec fn texts_distinct(s: Seq<Seq<char>>) -> bool {
    forall|i: int, j: int| 0 <= i < s.len() && 0 <= j < s.len() && i != j ==> s[i] != s[j]
}

impl AnimationController {
    /// Records the id of an animation that started, once: the ids stay free of
    /// repeats and hold exactly the earlier ids and the new one.
    pub fn record_started(ids: &mut Vec<String>, id: String)
        requires
            texts_distinct(texts(old(ids)@)),
        ensures
            texts_distinct(texts(final(ids)@)),
            forall|k: Seq<char>| texts(final(ids)@).contains(k) <==> (texts(old(ids)@).contains(k) || k == id@),
    {
        let ghost before = texts(ids@);
        let mut i: usize = 0;
        while i < ids.len()
            invariant
                i <= ids@.len(),
                texts(ids@) == before,
                texts_distinct(before),
                forall|j: int| 0 <= j < i ==> ids@[j]@ != id@,
            decreases ids@.len() - i,
        {
            if crate::text::text_eq(ids[i].as_str(), id.as_str()) {
                assert(before[i as int] == id@);
                return;
            }
            i = i + 1;
        }
        let ghost idv = id@;
        ids.push(id);
        proof {
            assert(texts(ids@) =~= before.push(idv));
            assert forall|k: Seq<char>| texts(ids@).contains(k) <==> (before.contains(k) || k == idv) by {
                if texts(ids@).contains(k) {
                    let j = choose|j: int| 0 <= j < texts(ids@).len() && texts(ids@)[j] == k;
                    if j < before.len() {
                        assert(before[j] == k);
                    }
                }
                if before.contains(k) {
                    let j = choose|j: int| 0 <= j < before.len() && before[j] == k;
                    assert(texts(ids@)[j] == k);
                }
                if k == idv {
                    assert(texts(ids@)[before.len() as int] == k);
                }
            }
        }
    }

    /// Whether a seek has anything to move: only when animations were found.
    pub fn needs_seek(ids: &Vec<String>) -> (res: bool)
        ensures
            res == (ids@.len() > 0),
    {
        ids.len() > 0
    }
}

/// The lower-case hexadecimal digit of `d` (`d < 16`).
pub open spec fn hex_digit(d: u32) -> char {
    if d < 10 {
        ((d + 48) as u32) as char
    } else {
        ((d + 87) as u32) as char
    }
}

/// How `serde_json` writes one character inside a JSON string: `"` and `\`
/// after a backslash; backspace, tab, line feed, form feed and carriage return
/// as `\b \t \n \f \r`; any other character below U+0020 as `\u00XX`; every
/// other character as it is.
pub open spec fn json_escape_char(c: char) -> Seq<char> {
    if c == '"' {
        seq!['\\', '"']
    } else if c == '\\' {
        seq!['\\', '\\']
    } else if c == '\u{8}' {
        seq!['\\', 'b']
    } else if c == '\t' {
        seq!['\\', 't']
    } else if c == '\n' {
        seq!['\\', 'n']
    } else if c == '\u{c}' {
        seq!['\\', 'f']
    } else if c == '\r' {
        seq!['\\', 'r']
    } else if (c as u32) < 0x20 {
        seq!['\\', 'u', '0', '0', hex_digit((c as u32) / 16), hex_digit((c as u32) % 16)]
    } else {
        seq![c]
    }
}

/// The characters of a string escaped one by one for JSON.
pub open spec fn json_escaped(s: Seq<char>) -> Seq<char>
    decreases s.len(),
{
    if s.len() == 0 {
        Seq::empty()
    } else {
        json_escaped(s.drop_last()) + json_escape_char(s.last())
    }
}

/// The JSON text of a string: its escaped characters between double quotes.
pub open spec fn json_string_literal(s: Seq<char>) -> Seq<char> {
    seq!['"'] + json_escaped(s) + seq!['"']
}

/// Quotes `s` as a JSON string literal.
/// Calls `serde_json::to_string` on the text. The contract claims what the
/// crate's serializer writes for a string (`format_escaped_str` with its
/// `ESCAPE` table and `write_char_escape`): an opening `"`, each character
/// escaped by `json_escape_char`, a closing `"`. Serializing a string into
/// memory cannot fail; the empty text stands in should it ever do so.
#[verifier::external_body]
fn json_quote(s: &str) -> (res: String)
    ensures
        res@ == json_string_literal(s@),
{
    serde_json::to_string(s).unwrap_or_default()
}

/// The text of the style-probe script before the selector literal.
pub open spec fn probe_script_head() -> Seq<char> {
    "(() => {\n            const el = document.querySelector("@
}

/// The text of the style-probe script after the selector literal.
pub open spec fn probe_script_tail() -> Seq<char> {
    ");\n            if (!el) return null;\n            const style = window.getComputedStyle(el);\n            const transform = style.transform === 'none' ? 'matrix(1, 0, 0, 1, 0, 0)' : style.transform;\n            const matrix = new DOMMatrixReadOnly(transform);\n            const parsed = parseFloat(style.opacity);\n            const opacity = Number.isNaN(parsed) ? 1.0 : parsed;\n            return {\n                opacity: opacity,\n                m11: matrix.m11,\n                m12: matrix.m12,\n                m21: matrix.m21,\n                m22: matrix.m22,\n                m41: matrix.m41,\n                m42: matrix.m42,\n            };\n        })()"@
}

/// A piece found in `tail` at `at` is found in `pre + tail` too.
proof fn lemma_occurs_after(pre: Seq<char>, tail: Seq<char>, piece: Seq<char>, at: int)
    requires
        0 <= at && at + piece.len() <= tail.len(),
        tail.subrange(at, at + piece.len()) == piece,
    ensures
        occurs_in(pre + tail, piece),
{
    let s = pre + tail;
    let i = pre.len() + at;
    assert(s.subrange(i, i + piece.len()) =~= piece);
}

/// Whatever the selector, the probe script returns each matrix component it
/// reads under the component's own name (`m11` … `m42`, with the
/// translation in `m41` and `m42`) and the element's opacity, parsed from its
/// computed style and kept as it is unless it does not parse.
pub proof fn law_probe_returns_matching_components(selector: Seq<char>)
    ensures
        ({
            let script = probe_script_head() + json_string_literal(selector) + probe_script_tail();
            occurs_in(script, "opacity: opacity"@) &&
            occurs_in(script, "m11: matrix.m11"@) &&
            occurs_in(script, "m12: matrix.m12"@) &&
            occurs_in(script, "m21: matrix.m21"@) &&
            occurs_in(script, "m22: matrix.m22"@) &&
            occurs_in(script, "m41: matrix.m41"@) &&
            occurs_in(script, "m42: matrix.m42"@) &&
            occurs_in(script, "const parsed = parseFloat(style.opacity);"@) &&
            occurs_in(script, "const opacity = Number.isNaN(parsed) ? 1.0 : parsed;"@)
        }),
{
    let pre = probe_script_head() + json_string_literal(selector);
    let tail = probe_script_tail();
    reveal_strlit(");\n            if (!el) return null;\n            const style = window.getComputedStyle(el);\n            const transform = style.transform === 'none' ? 'matrix(1, 0, 0, 1, 0, 0)' : style.transform;\n            const matrix = new DOMMatrixReadOnly(transform);\n            const parsed = parseFloat(style.opacity);\n            const opacity = Number.isNaN(parsed) ? 1.0 : parsed;\n            return {\n                opacity: opacity,\n                m11: matrix.m11,\n                m12: matrix.m12,\n                m21: matrix.m21,\n                m22: matrix.m22,\n                m41: matrix.m41,\n                m42: matrix.m42,\n            };\n        })()");
    reveal_strlit("opacity: opacity");
    assert(tail.subrange(414, 430) =~= "opacity: opacity"@);
    lemma_occurs_after(pre, tail, "opacity: opacity"@, 414);
    reveal_strlit("m11: matrix.m11");
    assert(tail.subrange(448, 463) =~= "m11: matrix.m11"@);
    lemma_occurs_after(pre, tail, "m11: matrix.m11"@, 448);
    reveal_strlit("m12: matrix.m12");
    assert(tail.subrange(481, 496) =~= "m12: matrix.m12"@);
    lemma_occurs_after(pre, tail, "m12: matrix.m12"@, 481);
    reveal_strlit("m21: matrix.m21");
    assert(tail.subrange(514, 529) =~= "m21: matrix.m21"@);
    lemma_occurs_after(pre, tail, "m21: matrix.m21"@, 514);
    reveal_strlit("m22: matrix.m22");
    assert(tail.subrange(547, 562) =~= "m22: matrix.m22"@);
    lemma_occurs_after(pre, tail, "m22: matrix.m22"@, 547);
    reveal_strlit("m41: matrix.m41");
    assert(tail.subrange(580, 595) =~= "m41: matrix.m41"@);
    lemma_occurs_after(pre, tail, "m41: matrix.m41"@, 580);
    reveal_strlit("m42: matrix.m42");
    assert(tail.subrange(613, 628) =~= "m42: matrix.m42"@);
    lemma_occurs_after(pre, tail, "m42: matrix.m42"@, 613);
    reveal_strlit("const parsed = parseFloat(style.opacity);");
    assert(tail.subrange(270, 311) =~= "const parsed = parseFloat(style.opacity);"@);
    lemma_occurs_after(pre, tail, "const parsed = parseFloat(style.opacity);"@, 270);
    reveal_strlit("const opacity = Number.isNaN(parsed) ? 1.0 : parsed;");
    assert(tail.subrange(324, 376) =~= "const opacity = Number.isNaN(parsed) ? 1.0 : parsed;"@);
    lemma_occurs_after(pre, tail, "const opacity = Number.isNaN(parsed) ? 1.0 : parsed;"@, 324);
}

/// The script evaluated in the page to read the computed transform matrix and
/// opacity of the first element matching `selector` (or `null` without one).
/// The selector is embedded as a JSON string literal, so any text is safe.
pub fn style_probe_script(selector: &str) -> (res: String)
    ensures
        res@ == probe_script_head() + json_string_literal(selector@) + probe_script_tail(),
        occurs_in(res@, "opacity: opacity"@),
        occurs_in(res@, "m11: matrix.m11"@),
        occurs_in(res@, "m12: matrix.m12"@),
        occurs_in(res@, "m21: matrix.m21"@),
        occurs_in(res@, "m22: matrix.m22"@),
        occurs_in(res@, "m41: matrix.m41"@),
        occurs_in(res@, "m42: matrix.m42"@),
        occurs_in(res@, "const parsed = parseFloat(style.opacity);"@),
        occurs_in(res@, "const opacity = Number.isNaN(parsed) ? 1.0 : parsed;"@),
{
    let mut out = "(() => {\n            const el = document.querySelector(".to_owned();
    let quoted = json_quote(selector);
    push_text(&mut out, quoted.as_str());
    push_text(&mut out, ");\n            if (!el) return null;\n            const style = window.getComputedStyle(el);\n            const transform = style.transform === 'none' ? 'matrix(1, 0, 0, 1, 0, 0)' : style.transform;\n            const matrix = new DOMMatrixReadOnly(transform);\n            const parsed = parseFloat(style.opacity);\n            const opacity = Number.isNaN(parsed) ? 1.0 : parsed;\n            return {\n                opacity: opacity,\n                m11: matrix.m11,\n                m12: matrix.m12,\n                m21: matrix.m21,\n                m22: matrix.m22,\n                m41: matrix.m41,\n                m42: matrix.m42,\n            };\n        })()");
    proof { law_probe_returns_matching_components(selector@); }
    out
}

} // verus!
