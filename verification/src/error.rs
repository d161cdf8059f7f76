//! The library's error type.

use vstd::prelude::*;

use crate::text::{decimal, push_decimal, push_text};

verus! {

/// Errors of css2mp4. Paths and messages of outside failures are carried as text.
#[derive(Debug)]
pub enum Error {
    /// The input file does not exist.
    InputNotFound(String),
    /// No element matches the CSS selector.
    ElementNotFound(String),
    /// The output format cannot be told from the file extension.
    UnknownOutputFormat(String),
    /// The headless browser could not be started, or no input was given.
    BrowserLaunch(String),
    /// A DevTools protocol call failed.
    Cdp(String),
    /// FFmpeg could not be started.
    FfmpegSpawn(String),
    /// FFmpeg exited with a failure status.
    FfmpegExit { code: Option<i32>, stderr: String },
    /// Any other FFmpeg failure.
    Ffmpeg(String),
    /// A frame could not be written to FFmpeg.
    FrameWrite(String),
    /// JSON (de)serialization failed.
    Json(String),
    /// Any other I/O failure.
    Io(String),
}

/// Decimal text of a signed number, with a leading `-` when negative.
pub open spec fn signed_decimal(n: int) -> Seq<char> {
    if n < 0 {
        "-"@ + decimal((-n) as nat)
    } else {
        decimal(n as nat)
    }
}

/// The `{:?}` text of an optional exit code: `Some(<code>)` or `None`.
pub open spec fn exit_code_text(code: Option<i32>) -> Seq<char> {
    match code {
        Some(c) => "Some("@ + signed_decimal(c as int) + ")"@,
        None => "None"@,
    }
}

/// The message shown for each error.
pub open spec fn error_message(e: Error) -> Seq<char> {
    match e {
        Error::InputNotFound(p) => "入力ファイルが見つかりません: "@ + p@,
        Error::ElementNotFound(s) => "要素が見つかりません: "@ + s@,
        Error::UnknownOutputFormat(p) => "出力形式を拡張子から判別できません: "@ + p@,
        Error::BrowserLaunch(s) => "ヘッドレスChromiumの起動に失敗しました: "@ + s@,
        Error::Cdp(s) => "CDP通信でエラーが発生しました: "@ + s@,
        Error::FfmpegSpawn(s) => "ffmpeg の起動に失敗しました。PATHにffmpegがあるか確認してください: "@ + s@,
        Error::FfmpegExit { code, stderr } => "ffmpeg がエラー終了しました (code="@ + exit_code_text(code) + "):\n"@ + stderr@,
        Error::Ffmpeg(s) => "FFmpegエラー: "@ + s@,
        Error::FrameWrite(s) => "フレームの書き込みに失敗しました: "@ + s@,
        Error::Json(s) => "JSONのシリアライズに失敗しました: "@ + s@,
        Error::Io(s) => "IOエラー: "@ + s@,
    }
}

/// Appends the `{:?}` text of an optional exit code.
pub(crate) fn push_exit_code(out: &mut String, code: Option<i32>)
    ensures
        final(out)@ == old(out)@ + exit_code_text(code),
{
    match code {
        Some(c) => {
            push_text(out, "Some(");
            if c < 0 {
                push_text(out, "-");
                let magnitude: u64 = (0i64 - (c as i64)) as u64;
                push_decimal(out, magnitude);
            } else {
                push_decimal(out, c as u64);
            }
            push_text(out, ")");
            assert(out@ =~= old(out)@ + exit_code_text(code));
        },
        None => {
            push_text(out, "None");
        },
    }
}

/// Appends `head` and `tail` to a fresh string.
fn joined(head: &str, tail: &str) -> (res: String)
    ensures
        res@ == head@ + tail@,
{
    let mut out = head.to_owned();
    push_text(&mut out, tail);
    out
}

impl Error {
    /// The message shown to the user for this error.
    pub fn message(&self) -> (res: String)
        ensures
            res@ == error_message(*self),
    {
        match self {
            Error::InputNotFound(p) => joined("入力ファイルが見つかりません: ", p.as_str()),
            Error::ElementNotFound(s) => joined("要素が見つかりません: ", s.as_str()),
            Error::UnknownOutputFormat(p) => joined("出力形式を拡張子から判別できません: ", p.as_str()),
            Error::BrowserLaunch(s) => joined("ヘッドレスChromiumの起動に失敗しました: ", s.as_str()),
            Error::Cdp(s) => joined("CDP通信でエラーが発生しました: ", s.as_str()),
            Error::FfmpegSpawn(s) => joined("ffmpeg の起動に失敗しました。PATHにffmpegがあるか確認してください: ", s.as_str()),
            Error::FfmpegExit { code, stderr } => {
                let mut out = "ffmpeg がエラー終了しました (code=".to_owned();
                push_exit_code(&mut out, *code);
                push_text(&mut out, "):\n");
                push_text(&mut out, stderr.as_str());
                out
            },
            Error::Ffmpeg(s) => joined("FFmpegエラー: ", s.as_str()),
            Error::FrameWrite(s) => joined("フレームの書き込みに失敗しました: ", s.as_str()),
            Error::Json(s) => joined("JSONのシリアライズに失敗しました: ", s.as_str()),
            Error::Io(s) => joined("IOエラー: ", s.as_str()),
        }
    }
}

} // verus!
