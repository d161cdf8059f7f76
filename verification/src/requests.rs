//! Decisions of the local API server that do not need the network: request
//! defaults, output naming, content types and the choice of preview input.

use vstd::prelude::*;

use crate::error::Error;
use crate::format::{format_for_extension, opt_text, VideoFormat};
use crate::tasks::TaskStatus;
use crate::text::{
    ascii_lower_seq, decimal, ends_with, file_name_of, has_suffix, occurs_in, portable_path, push_decimal, push_text, text_eq,
    to_ascii_lowercase,
};

verus! {

/// Default output width of preview and render requests (px).
pub fn default_width() -> (res: u32)
    ensures
        res == 1920,
{
    1920
}

/// Default output height of preview and render requests (px).
pub fn default_height() -> (res: u32)
    ensures
        res == 1080,
{
    1080
}

/// Default output format of render requests.
pub fn default_format() -> (res: String)
    ensures
        res@ == "mp4"@,
{
    "mp4".to_owned()
}

/// Default frame rate of render requests.
pub fn default_fps() -> (res: u32)
    ensures
        res == 60,
{
    60
}

/// Answer to an accepted render request.
#[derive(Debug)]
pub struct RenderResponse {
    /// Identifier of the created task.
    pub task_id: String,
    /// Status of the task when accepted.
    pub status: TaskStatus,
}

/// Arguments of the local API server.
#[derive(Debug)]
pub struct ServeArgs {
    /// Host address to bind.
    pub host: String,
    /// Port to listen on.
    pub port: u16,
}

impl ServeArgs {
    /// The command line's defaults: `127.0.0.1`, port 3000.
    pub fn with_defaults() -> (res: Self)
        ensures
            res.host@ == "127.0.0.1"@,
            res.port == 3000,
    {
        ServeArgs { host: "127.0.0.1".to_owned(), port: 3000 }
    }
}

/// The `host:port` text the server binds to.
pub fn server_address(host: &str, port: u16) -> (res: String)
    ensures
        res@ == host@ + ":"@ + decimal(port as nat),
{
    let mut out = host.to_owned();
    push_text(&mut out, ":");
    push_decimal(&mut out, port as u64);
    out
}

/// The file extension of a render task's output: `webm` when WebM is asked
/// for (in any ASCII case) or the background is transparent, else `mp4`.
pub open spec fn render_extension(format: Seq<char>, transparent: bool) -> Seq<char> {
    if ascii_lower_seq(format) == "webm"@ || transparent {
        "webm"@
    } else {
        "mp4"@
    }
}

/// Chooses the extension of a render task's output file.
pub fn render_output_extension(format: &str, transparent: bool) -> (res: &'static str)
    ensures
        res@ == render_extension(format@, transparent),
{
    let lower = to_ascii_lowercase(format);
    if text_eq(lower.as_str(), "webm") || transparent {
        "webm"
    } else {
        "mp4"
    }
}

/// The output file name of a render task: `<task id>.<extension>`.
pub fn render_output_file_name(task_id: &str, ext: &str) -> (res: String)
    ensures
        res@ == task_id@ + "."@ + ext@,
{
    let mut out = task_id.to_owned();
    push_text(&mut out, ".");
    push_text(&mut out, ext);
    out
}

/// The media type a downloaded file is served with.
pub open spec fn content_type_of(file_name: Seq<char>) -> Seq<char> {
    if has_suffix(file_name, ".webm"@) {
        "video/webm"@
    } else {
        "video/mp4"@
    }
}

/// Media type of a downloaded video: WebM for `.webm` names, else MP4.
pub fn content_type_for(file_name: &str) -> (res: &'static str)
    ensures
        res@ == content_type_of(file_name@),
{
    if ends_with(file_name, ".webm") {
        "video/webm"
    } else {
        "video/mp4"
    }
}

/// The `Content-Disposition` value offering `file_name` as an attachment.
pub fn attachment_disposition(file_name: &str) -> (res: String)
    ensures
        res@ == "attachment; filename=\""@ + file_name@ + "\""@,
{
    let mut out = "attachment; filename=\"".to_owned();
    push_text(&mut out, file_name);
    push_text(&mut out, "\"");
    out
}

/// The last component of a path, as `Path::file_name` followed by `OsStr::to_str`
/// gives it. Calls `std::path::Path::file_name`. The contract claims that a file
/// name is a non-empty piece of the path (std returns a slice of it), and, for a
/// portable path (no `\`, no `:`, no leading `//`), which piece: std then reads
/// the path the same way on every platform, with `/` as the only separator.
/// Which piece it is in other paths depends on the platform's path syntax (a
/// Windows verbatim path keeps `/` inside a name), so it is left unsaid.
#[verifier::external_body]
fn path_file_name(path: &str) -> (res: Option<String>)
    ensures
        res matches Some(n) ==> n@.len() > 0 && occurs_in(path@, n@),
        portable_path(path@) ==> opt_text(res) == file_name_of(path@),
{
    std::path::Path::new(path).file_name().and_then(|n| n.to_str()).map(|n| n.to_string())
}

/// The name offered for a downloaded file: the given name, or `output.mp4` without one.
pub fn download_name_or_default(file_name: Option<String>) -> (res: String)
    ensures
        res@ == name_or_default(opt_text(file_name)),
{
    match file_name {
        Some(n) => n,
        None => "output.mp4".to_owned(),
    }
}

/// The name offered for the download of `output_path`: its file name, or
/// `output.mp4` where the path has none. For a portable path the file name is
/// its last `/`-separated piece, skipping empty and `.` pieces (none where that
/// piece is `..`); in any path it is a non-empty piece of the path.
pub fn download_file_name(output_path: &str) -> (res: String)
    ensures
        portable_path(output_path@) ==> res@ == name_or_default(file_name_of(output_path@)),
        exists|name: Option<Seq<char>>|
            (name matches Some(n) ==> n.len() > 0 && occurs_in(output_path@, n))
            && res@ == #[trigger] name_or_default(name),
{
    let name = path_file_name(output_path);
    let ghost g = opt_text(name);
    let res = download_name_or_default(name);
    assert(res@ == name_or_default(g));
    assert(g matches Some(n) ==> n.len() > 0 && occurs_in(output_path@, n));
    res
}

/// A file name, or `output.mp4` without one.
pub open spec fn name_or_default(name: Option<Seq<char>>) -> Seq<char> {
    match name {
        Some(n) => n,
        None => "output.mp4"@,
    }
}

/// Where a preview frame is rendered from.
#[derive(Debug)]
pub enum PreviewSource {
    /// Inline HTML, to be written to a temporary file.
    Html(String),
    /// A local HTML file.
    Path(String),
}

/// Chooses the preview input: inline HTML wins over a path; with neither the
/// preview fails with a browser-launch error saying no input was given.
pub fn select_preview_source(input_html: Option<String>, input_path: Option<String>) -> (res: Result<PreviewSource, Error>)
    ensures
        match input_html {
            Some(h) => res matches Ok(PreviewSource::Html(x)) && x@ == h@,
            None => match input_path {
                Some(p) => res matches Ok(PreviewSource::Path(x)) && x@ == p@,
                None => res matches Err(Error::BrowserLaunch(m))
                    && m@ == "入力 HTML またはパスが指定されていません"@,
            },
        },
{
    match (input_html, input_path) {
        (Some(html), _) => Ok(PreviewSource::Html(html)),
        (None, Some(path)) => Ok(PreviewSource::Path(path)),
        (None, None) => Err(Error::BrowserLaunch("入力 HTML またはパスが指定されていません".to_owned())),
    }
}

/// The project file `export-ymmp` writes: the given output, or the input
/// project itself when no output is given.
pub fn ymmp_output_path(output: Option<String>, ymmp: String) -> (res: String)
    ensures
        res@ == (match output {
            Some(o) => o@,
            None => ymmp@,
        }),
{
    match output {
        Some(o) => o,
        None => ymmp,
    }
}

/// The extension the render endpoint picks is read back by the format detector
/// as the format it stands for: a WebM request or a transparent one gives the
/// transparent WebM format, any other the MP4 format, with or without the
/// transparent flag at detection.
pub proof fn law_render_extension_round_trip(format: Seq<char>, transparent: bool, detect_transparent: bool)
    ensures
        format_for_extension(Some(render_extension(format, transparent)), detect_transparent)
            == Some(if ascii_lower_seq(format) == "webm"@ || transparent {
                VideoFormat::WebmTransparent
            } else {
                VideoFormat::Mp4
            }),
{
    reveal_strlit("webm");
    reveal_strlit("mp4");
    assert(ascii_lower_seq("webm"@) =~= "webm"@);
    assert(ascii_lower_seq("mp4"@) =~= "mp4"@);
    assert("mp4"@ != "webm"@) by {
        assert("mp4"@.len() != "webm"@.len());
    }
}

/// A render task's output file is served with the media type of its format:
/// WebM for `.webm` outputs, MP4 for `.mp4` outputs.
pub proof fn law_output_content_type(task_id: Seq<char>, format: Seq<char>, transparent: bool)
    ensures
        content_type_of(task_id + "."@ + render_extension(format, transparent))
            == if render_extension(format, transparent) == "webm"@ { "video/webm"@ } else { "video/mp4"@ },
{
    reveal_strlit("webm");
    reveal_strlit("mp4");
    reveal_strlit(".webm");
    reveal_strlit(".");
    let name = task_id + "."@ + render_extension(format, transparent);
    if render_extension(format, transparent) == "webm"@ {
        assert(name.skip(name.len() - 5) =~= ".webm"@);
    } else {
        assert(render_extension(format, transparent) == "mp4"@);
        if name.len() >= 5 {
            assert(name[name.len() - 1] == '4');
            assert(".webm"@[4] == 'm');
            assert(name.skip(name.len() - 5)[4] == name[name.len() - 1]);
        }
    }
}

} // verus!
