//! Output video formats and how they are told from an output path.

use vstd::prelude::*;

use crate::error::Error;
use crate::text::{
    ascii_lower, ascii_lower_seq, extension_of, last_index_of, lemma_last_index_of_bounds,
    lemma_last_separator_index_bounds, occurs_after_dot, path_tail, plain_named_path, portable_path,
    tail_extension, text_eq, to_ascii_lowercase,
};

verus! {

/// Video container / codec pair written by the encoder.
#[derive(Debug, Clone, Copy, PartialEq, Eq, Structural)]
pub enum VideoFormat {
    /// H.264 in MP4.
    Mp4,
    /// VP9 with alpha in WebM.
    WebmTransparent,
}

/// The format chosen for an output whose file extension is `ext`
/// (`None`: no extension), or `None` where it cannot be told.
pub open spec fn format_for_extension(ext: Option<Seq<char>>, transparent: bool) -> Option<VideoFormat> {
    match ext {
        Some(e) if ascii_lower_seq(e) == "mp4"@ => Some(VideoFormat::Mp4),
        Some(e) if ascii_lower_seq(e) == "webm"@ => Some(VideoFormat::WebmTransparent),
        _ => if transparent {
            Some(VideoFormat::WebmTransparent)
        } else {
            None
        },
    }
}

/// `res` is what format detection owes for extension `ext`: the chosen format,
/// or an unknown-format error naming `path` where none can be chosen.
pub open spec fn decided_format(ext: Option<Seq<char>>, transparent: bool, path: Seq<char>, res: Result<VideoFormat, Error>) -> bool {
    match res {
        Ok(f) => format_for_extension(ext, transparent) == Some(f),
        Err(e) => format_for_extension(ext, transparent) is None
            && (e matches Error::UnknownOutputFormat(p) && p@ == path),
    }
}

/// The text of an optional string.
pub open spec fn opt_text(o: Option<String>) -> Option<Seq<char>> {
    match o {
        Some(s) => Some(s@),
        None => None,
    }
}

/// The codec arguments handed to FFmpeg for each format.
pub open spec fn ffmpeg_args_of(format: VideoFormat) -> Seq<Seq<char>> {
    match format {
        VideoFormat::Mp4 => seq![
            "-c:v"@, "libx264"@, "-pix_fmt"@, "yuv420p"@, "-movflags"@, "+faststart"@,
        ],
        VideoFormat::WebmTransparent => seq![
            "-c:v"@, "libvpx-vp9"@, "-pix_fmt"@, "yuva420p"@, "-auto-alt-ref"@, "0"@,
        ],
    }
}

/// The extension of a path, as `Path::extension` followed by `OsStr::to_str` gives it.
/// Calls `std::path::Path::extension`. The contract claims what std documents on
/// every platform: an extension is the part of the file name after its last `.`,
/// so it holds no `.` and stands in the path right after a `.` (the file name is
/// a piece of the path). For a portable path (no `\`, no `:`, no leading `//`),
/// which std reads the same way everywhere, it claims the extension itself: the
/// text after the last `.` of the file name, unless that `.` starts the name.
/// For a plain-named path (not opening with two separators, its last piece
/// after any `/` or `\` free of `:`, not `..`, with a `.` after its first
/// character) it claims the text after that piece's last `.`: on Windows the
/// piece is the file name; elsewhere the file name ends with it, and its last
/// `.`, not the name's first character, is the piece's.
/// Which part of other paths is the file name depends on the platform's path
/// syntax, so it is left unsaid.
#[verifier::external_body]
fn path_extension(path: &str) -> (res: Option<String>)
    ensures
        res matches Some(e) ==> !e@.contains('.') && occurs_after_dot(path@, e@),
        portable_path(path@) ==> opt_text(res) == extension_of(path@),
        plain_named_path(path@) ==> opt_text(res) == Some(tail_extension(path@)),
{
    std::path::Path::new(path).extension().and_then(|e| e.to_str()).map(|e| e.to_string())
}

impl VideoFormat {
    /// Chooses the format from an already extracted extension: `mp4` and `webm`
    /// (in any ASCII case) select their format; otherwise the transparent flag
    /// selects WebM, and without it the format is unknown.
    pub fn from_extension(ext: Option<String>, transparent: bool, path: &str) -> (res: Result<VideoFormat, Error>)
        ensures
            decided_format(opt_text(ext), transparent, path@, res),
    {
        match ext {
            Some(e) => {
                let lower = to_ascii_lowercase(e.as_str());
                if text_eq(lower.as_str(), "mp4") {
                    return Ok(VideoFormat::Mp4);
                }
                if text_eq(lower.as_str(), "webm") {
                    return Ok(VideoFormat::WebmTransparent);
                }
            },
            None => {},
        }
        if transparent {
            Ok(VideoFormat::WebmTransparent)
        } else {
            Err(Error::UnknownOutputFormat(path.to_owned()))
        }
    }

    /// Tells the format from the output path's extension and the transparent flag.
    /// The extension comes from `std::path::Path`: some `.`-free piece of the path
    /// that follows a `.`, or none. Whatever it is, the result is the one
    /// `from_extension` gives for it, so a transparent request never fails. For a
    /// portable path it is the text after the last `.` of the last `/`-piece, so
    /// `out/clip.mp4` is MP4 and `out/clip.WebM` is WebM.
    pub fn from_output_path(path: &str, transparent: bool) -> (res: Result<VideoFormat, Error>)
        ensures
            exists|ext: Option<Seq<char>>|
                (ext matches Some(e) ==> !e.contains('.') && occurs_after_dot(path@, e))
                && #[trigger] decided_format(ext, transparent, path@, res),
            transparent ==> res is Ok,
            portable_path(path@) ==> decided_format(extension_of(path@), transparent, path@, res),
            plain_named_path(path@) ==> decided_format(Some(tail_extension(path@)), transparent, path@, res),
            !(path@.len() >= 2 && crate::text::is_separator(path@[0]) && crate::text::is_separator(path@[1]))
                && !path_tail(path@).contains(':') ==> {
                &&& path_tail(path@).len() > 4 && ascii_lower_seq(path_tail(path@).skip(path_tail(path@).len() - 4)) == ".mp4"@
                    ==> res == Ok::<VideoFormat, Error>(VideoFormat::Mp4)
                &&& path_tail(path@).len() > 5 && ascii_lower_seq(path_tail(path@).skip(path_tail(path@).len() - 5)) == ".webm"@
                    ==> res == Ok::<VideoFormat, Error>(VideoFormat::WebmTransparent)
            },
    {
        let ext = path_extension(path);
        let ghost g = opt_text(ext);
        let res = VideoFormat::from_extension(ext, transparent, path);
        assert(g matches Some(e) ==> !e.contains('.') && occurs_after_dot(path@, e));
        proof {
            if !(path@.len() >= 2 && crate::text::is_separator(path@[0]) && crate::text::is_separator(path@[1]))
                && !path_tail(path@).contains(':') {
                law_output_name_decides_format(path@, transparent, res);
            }
        }
        res
    }

    /// Whether the format carries an alpha channel.
    pub fn is_transparent(&self) -> (res: bool)
        ensures
            res == (*self == VideoFormat::WebmTransparent),
    {
        match self {
            VideoFormat::Mp4 => false,
            VideoFormat::WebmTransparent => true,
        }
    }

    /// The codec and pixel-format arguments for FFmpeg.
    pub fn ffmpeg_args(&self) -> (res: Vec<&'static str>)
        ensures
            res@.map_values(|s: &str| s@) == ffmpeg_args_of(*self),
    {
        let res = match self {
            VideoFormat::Mp4 => vec!["-c:v", "libx264", "-pix_fmt", "yuv420p", "-movflags", "+faststart"],
            VideoFormat::WebmTransparent => vec!["-c:v", "libvpx-vp9", "-pix_fmt", "yuva420p", "-auto-alt-ref", "0"],
        };
        assert(res@.map_values(|s: &str| s@) =~= ffmpeg_args_of(*self));
        res
    }
}

/// A file name ending in `.mp4` gives MP4 and one ending in `.webm` gives
/// transparent WebM, in any ASCII case and whatever precedes the name (drive
/// letters, `/` or `\` directories), with or without the transparent flag; the
/// name needs a character before the dot and no `:`, and the path may not open
/// with two separators.
pub proof fn law_output_name_decides_format(path: Seq<char>, transparent: bool, res: Result<VideoFormat, Error>)
    requires
        !(path.len() >= 2 && crate::text::is_separator(path[0]) && crate::text::is_separator(path[1])),
        !path_tail(path).contains(':'),
        plain_named_path(path) ==> decided_format(Some(tail_extension(path)), transparent, path, res),
    ensures
        path_tail(path).len() > 4 && ascii_lower_seq(path_tail(path).skip(path_tail(path).len() - 4)) == ".mp4"@
            ==> res == Ok::<VideoFormat, Error>(VideoFormat::Mp4),
        path_tail(path).len() > 5 && ascii_lower_seq(path_tail(path).skip(path_tail(path).len() - 5)) == ".webm"@
            ==> res == Ok::<VideoFormat, Error>(VideoFormat::WebmTransparent),
{
    reveal_strlit(".mp4");
    reveal_strlit("mp4");
    reveal_strlit(".webm");
    reveal_strlit("webm");
    let t = path_tail(path);
    lemma_last_index_of_bounds(t, '.');
    let n = t.len();
    if n > 4 && ascii_lower_seq(t.skip(n - 4)) == ".mp4"@ {
        let low = ascii_lower_seq(t.skip(n - 4));
        assert forall|j: int| n - 4 <= j < n implies ascii_lower(#[trigger] t[j]) == ".mp4"@[j - (n - 4)] by {
            assert(low[j - (n - 4)] == ascii_lower(t.skip(n - 4)[j - (n - 4)]));
        }
        assert(ascii_lower(t[n - 4]) == ".mp4"@[0]);
        lemma_dot_before_suffix(t, 4);
        assert(t.skip(n - 3) =~= t.skip(n - 4).skip(1));
        assert(ascii_lower_seq(t.skip(n - 3)) =~= ascii_lower_seq(t.skip(n - 4)).skip(1));
        assert(".mp4"@.skip(1) =~= "mp4"@);
        assert(t != seq!['.', '.']);
    }
    if n > 5 && ascii_lower_seq(t.skip(n - 5)) == ".webm"@ {
        let low = ascii_lower_seq(t.skip(n - 5));
        assert forall|j: int| n - 5 <= j < n implies ascii_lower(#[trigger] t[j]) == ".webm"@[j - (n - 5)] by {
            assert(low[j - (n - 5)] == ascii_lower(t.skip(n - 5)[j - (n - 5)]));
        }
        assert(ascii_lower(t[n - 5]) == ".webm"@[0]);
        lemma_dot_before_suffix(t, 5);
        assert(t.skip(n - 4) =~= t.skip(n - 5).skip(1));
        assert(ascii_lower_seq(t.skip(n - 4)) =~= ascii_lower_seq(t.skip(n - 5)).skip(1));
        assert(".webm"@.skip(1) =~= "webm"@);
        assert(t != seq!['.', '.']);
    }
}

/// Where the last `k` characters of `t` lower-case to a `.` followed by
/// letters and digits, that `.` is the last one of `t`.
proof fn lemma_dot_before_suffix(t: Seq<char>, k: int)
    requires
        1 < k < t.len(),
        ascii_lower(t[t.len() - k]) == '.',
        forall|j: int| t.len() - k < j < t.len() ==> ascii_lower(#[trigger] t[j]) != '.',
    ensures
        last_index_of(t, '.') == t.len() - k,
{
    lemma_last_index_of_bounds(t, '.');
    let i = last_index_of(t, '.');
    assert(t[t.len() - k] == '.');
    if i < t.len() - k {
        assert(t[t.len() - k] != '.');
    }
    if i > t.len() - k {
        assert(ascii_lower(t[i]) != '.');
    }
}

} // verus!
