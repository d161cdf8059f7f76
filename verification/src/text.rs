//! Small verified text utilities shared by the rest of the library.

use vstd::prelude::*;
use vstd::string::*;

verus! {

/// Appends one character to a string.
/// Calls `String::push`; the contract claims the string grows by exactly that character.
#[verifier::external_body]
pub(crate) fn push_char(s: &mut String, c: char)
    ensures
        final(s)@ == old(s)@.push(c),
{
    s.push(c);
}

/// ASCII lower-casing of a single character; other characters are kept.
pub open spec fn ascii_lower(c: char) -> char {
    if 'A' <= c && c <= 'Z' {
        ((c as u32) + 32) as char
    } else {
        c
    }
}

/// ASCII lower-casing of a whole text.
pub open spec fn ascii_lower_seq(s: Seq<char>) -> Seq<char> {
    Seq::new(s.len(), |i: int| ascii_lower(s[i]))
}

/// Lower-cases the ASCII letters of `s`, as `str::to_ascii_lowercase` does.
pub fn to_ascii_lowercase(s: &str) -> (res: String)
    ensures
        res@ == ascii_lower_seq(s@),
{
    let n = s.unicode_len();
    let mut out = String::new();
    let mut i: usize = 0;
    while i < n
        invariant
            n == s@.len(),
            i <= n,
            out@ == ascii_lower_seq(s@.take(i as int)),
        decreases n - i,
    {
        let c = s.get_char(i);
        let lc = if 'A' <= c && c <= 'Z' {
            let code: u32 = (c as u32) + 32;
            assert(code <= 0x7f);
            (code as u8) as char
        } else {
            c
        };
        push_char(&mut out, lc);
        i = i + 1;
        assert(ascii_lower_seq(s@.take(i as int)) =~= ascii_lower_seq(s@.take(i - 1)).push(lc));
    }
    assert(s@.take(n as int) =~= s@);
    out
}


/// Whether `prefix` is a prefix of `s`.
pub open spec fn has_prefix(s: Seq<char>, prefix: Seq<char>) -> bool {
    prefix.len() <= s.len() && s.take(prefix.len() as int) == prefix
}

/// Whether `suffix` is a suffix of `s`.
pub open spec fn has_suffix(s: Seq<char>, suffix: Seq<char>) -> bool {
    suffix.len() <= s.len() && s.skip(s.len() - suffix.len()) == suffix
}

/// Whether `piece` occurs in `s` as a contiguous run of characters.
pub open spec fn occurs_in(s: Seq<char>, piece: Seq<char>) -> bool {
    exists|i: int| 0 <= i && i + piece.len() <= s.len() && #[trigger] s.subrange(i, i + piece.len()) == piece
}

/// Whether `piece` occurs in `s` right after a `.`.
pub open spec fn occurs_after_dot(s: Seq<char>, piece: Seq<char>) -> bool {
    exists|i: int| 0 <= i && i + 1 + piece.len() <= s.len() && s[i] == '.'
        && #[trigger] s.subrange(i + 1, i + 1 + piece.len()) == piece
}

/// Index of the last `c` in `s`, or `-1` where there is none.
pub open spec fn last_index_of(s: Seq<char>, c: char) -> int
    decreases s.len(),
{
    if s.len() == 0 {
        -1
    } else if s.last() == c {
        s.len() - 1
    } else {
        last_index_of(s.drop_last(), c)
    }
}

/// The last index of a character lies within the text, or is `-1`.
pub proof fn lemma_last_index_of_bounds(s: Seq<char>, c: char)
    ensures
        -1 <= last_index_of(s, c) < s.len(),
        last_index_of(s, c) >= 0 ==> s[last_index_of(s, c)] == c,
        forall|j: int| last_index_of(s, c) < j < s.len() ==> s[j] != c,
    decreases s.len(),
{
    if s.len() > 0 && s.last() != c {
        lemma_last_index_of_bounds(s.drop_last(), c);
        assert forall|j: int| last_index_of(s, c) < j < s.len() implies s[j] != c by {
            if j < s.len() - 1 {
                assert(s.drop_last()[j] == s[j]);
            }
        }
    }
}

/// A path that `std::path::Path` reads alike on every platform: no `\`, no
/// `:` and no leading `//` (so no Windows prefix), with `/` as the only separator.
pub open spec fn portable_path(p: Seq<char>) -> bool {
    &&& !p.contains('\\')
    &&& !p.contains(':')
    &&& !(p.len() >= 2 && p[0] == '/' && p[1] == '/')
}

/// The file name `Path::file_name` finds in a portable path: the last
/// `/`-separated piece, skipping empty and `.` pieces; none where that piece is
/// `..` or there is no piece.
pub open spec fn file_name_of(p: Seq<char>) -> Option<Seq<char>>
    decreases p.len(),
{
    let i = last_index_of(p, '/');
    let piece = p.skip(i + 1);
    if piece.len() == 0 || piece == seq!['.'] {
        if i < 0 {
            None
        } else {
            proof {
                lemma_last_index_of_bounds(p, '/');
            }
            file_name_of(p.take(i))
        }
    } else if piece == seq!['.', '.'] {
        None
    } else {
        Some(piece)
    }
}

/// A path separator on some platform: `/` everywhere, `\` on Windows.
pub open spec fn is_separator(c: char) -> bool {
    c == '/' || c == '\\'
}

/// Index of the last separator of either kind in `s`, or `-1`.
pub open spec fn last_separator_index(s: Seq<char>) -> int
    decreases s.len(),
{
    if s.len() == 0 {
        -1
    } else if is_separator(s.last()) {
        s.len() - 1
    } else {
        last_separator_index(s.drop_last())
    }
}

/// The last separator index lies within the text, or is `-1`.
pub proof fn lemma_last_separator_index_bounds(s: Seq<char>)
    ensures
        -1 <= last_separator_index(s) < s.len(),
        last_separator_index(s) >= 0 ==> is_separator(s[last_separator_index(s)]),
        forall|j: int| last_separator_index(s) < j < s.len() ==> !is_separator(s[j]),
    decreases s.len(),
{
    if s.len() > 0 && !is_separator(s.last()) {
        lemma_last_separator_index_bounds(s.drop_last());
        assert forall|j: int| last_separator_index(s) < j < s.len() implies !is_separator(s[j]) by {
            if j < s.len() - 1 {
                assert(s.drop_last()[j] == s[j]);
            }
        }
    }
}

/// The text after the last separator of either kind.
pub open spec fn path_tail(p: Seq<char>) -> Seq<char> {
    p.skip(last_separator_index(p) + 1)
}

/// A path whose extension std reads alike on every platform: it does not open
/// with two separators (no Windows UNC or verbatim prefix), and the text after
/// its last separator of either kind holds no `:`, is not `..`, and has a `.`
/// after its first character. Drive letters and `\`-separated directories may
/// precede it.
pub open spec fn plain_named_path(p: Seq<char>) -> bool {
    &&& !(p.len() >= 2 && is_separator(p[0]) && is_separator(p[1]))
    &&& !path_tail(p).contains(':')
    &&& path_tail(p) != seq!['.', '.']
    &&& last_index_of(path_tail(p), '.') > 0
}

/// The extension of a plain-named path: the text after the last `.` of its
/// last piece.
pub open spec fn tail_extension(p: Seq<char>) -> Seq<char> {
    path_tail(p).skip(last_index_of(path_tail(p), '.') + 1)
}

/// The extension `Path::extension` finds in a file name: the text after its
/// last `.`, where that `.` is not the name's first character.
pub open spec fn extension_of_name(n: Seq<char>) -> Option<Seq<char>> {
    let i = last_index_of(n, '.');
    if i <= 0 {
        None
    } else {
        Some(n.skip(i + 1))
    }
}

/// The extension `Path::extension` finds in a portable path.
pub open spec fn extension_of(p: Seq<char>) -> Option<Seq<char>> {
    match file_name_of(p) {
        Some(n) => extension_of_name(n),
        None => None,
    }
}

/// Character-wise equality of two texts.
pub fn text_eq(a: &str, b: &str) -> (res: bool)
    ensures
        res == (a@ == b@),
{
    let n = a.unicode_len();
    let m = b.unicode_len();
    if n != m {
        return false;
    }
    let mut i: usize = 0;
    while i < n
        invariant
            n == a@.len(),
            m == b@.len(),
            n == m,
            i <= n,
            forall|j: int| 0 <= j < i ==> a@[j] == b@[j],
        decreases n - i,
    {
        if a.get_char(i) != b.get_char(i) {
            return false;
        }
        i = i + 1;
    }
    assert(a@ =~= b@);
    true
}

/// Whether `s` ends with `suffix`, as `str::ends_with` with a text pattern.
pub fn ends_with(s: &str, suffix: &str) -> (res: bool)
    ensures
        res == has_suffix(s@, suffix@),
{
    let n = s.unicode_len();
    let m = suffix.unicode_len();
    if m > n {
        return false;
    }
    let off = n - m;
    let mut i: usize = 0;
    while i < m
        invariant
            n == s@.len(),
            m == suffix@.len(),
            off == n - m,
            i <= m,
            forall|j: int| 0 <= j < i ==> s@[off + j] == suffix@[j],
        decreases m - i,
    {
        if s.get_char(off + i) != suffix.get_char(i) {
            assert(s@.skip(off as int)[i as int] != suffix@[i as int]);
            return false;
        }
        i = i + 1;
    }
    assert(s@.skip(off as int) =~= suffix@);
    true
}

/// The decimal digit character of `d` (`0 <= d < 10`).
pub open spec fn digit_char(d: nat) -> char {
    ((d + 48) as u32) as char
}

/// The decimal representation of `n`, without sign or leading zeros.
pub open spec fn decimal(n: nat) -> Seq<char>
    decreases n,
{
    if n < 10 {
        seq![digit_char(n)]
    } else {
        decimal(n / 10).push(digit_char(n % 10))
    }
}

/// Appends the decimal representation of `n` to `out`.
pub fn push_decimal(out: &mut String, n: u64)
    ensures
        final(out)@ == old(out)@ + decimal(n as nat),
    decreases n,
{
    if n >= 10 {
        push_decimal(out, n / 10);
    }
    let d: u64 = n % 10;
    let c: char = ((d as u8) + 48) as char;
    assert(c == digit_char((n % 10) as nat));
    let ghost before = out@;
    push_char(out, c);
    proof {
        if n < 10 {
            assert(out@ =~= old(out)@ + decimal(n as nat));
        } else {
            assert(out@ =~= old(out)@ + decimal(n as nat));
        }
    }
}

/// The decimal representation of `n`, as `n.to_string()` gives it.
pub fn decimal_string(n: u64) -> (res: String)
    ensures
        res@ == decimal(n as nat),
{
    let mut out = String::new();
    push_decimal(&mut out, n);
    assert(out@ =~= decimal(n as nat));
    out
}

/// Appends all of `tail` to `out`.
pub fn push_text(out: &mut String, tail: &str)
    ensures
        final(out)@ == old(out)@ + tail@,
{
    let n = tail.unicode_len();
    let mut i: usize = 0;
    while i < n
        invariant
            n == tail@.len(),
            i <= n,
            out@ == old(out)@ + tail@.take(i as int),
        decreases n - i,
    {
        let c = tail.get_char(i);
        push_char(out, c);
        i = i + 1;
        assert(old(out)@ + tail@.take(i as int) =~= (old(out)@ + tail@.take(i - 1)).push(c));
    }
    assert(tail@.take(n as int) =~= tail@);
}

/// `s` with every `from` character replaced by `to`.
pub open spec fn replace_char_seq(s: Seq<char>, from: char, to: char) -> Seq<char> {
    Seq::new(s.len(), |i: int| if s[i] == from { to } else { s[i] })
}

/// Replaces every occurrence of the character `from` with `to`, as
/// `str::replace` does with single-character patterns.
pub fn replace_char(s: &str, from: char, to: char) -> (res: String)
    ensures
        res@ == replace_char_seq(s@, from, to),
{
    let n = s.unicode_len();
    let mut out = String::new();
    let mut i: usize = 0;
    while i < n
        invariant
            n == s@.len(),
            i <= n,
            out@ == replace_char_seq(s@.take(i as int), from, to),
        decreases n - i,
    {
        let c = s.get_char(i);
        let r = if c == from { to } else { c };
        push_char(&mut out, r);
        i = i + 1;
        assert(replace_char_seq(s@.take(i as int), from, to) =~= replace_char_seq(s@.take(i - 1), from, to).push(r));
    }
    assert(s@.take(n as int) =~= s@);
    out
}

} // verus!
