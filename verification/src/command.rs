//! Construction of the FFmpeg command line.

use vstd::prelude::*;

use crate::error::{exit_code_text, push_exit_code, Error};
use crate::format::{ffmpeg_args_of, VideoFormat};
use crate::options::RenderOptions;
use crate::text::{decimal, decimal_string, push_text};

verus! {

/// Builds FFmpeg argument lists.
pub struct FfmpegCommandBuilder;

/// Texts of a list of strings.
pub open spec fn texts(v: Seq<String>) -> Seq<Seq<char>> {
    v.map_values(|s: String| s@)
}

/// The full FFmpeg argument list: PNG frames piped on stdin at `fps`, then the
/// format's codec arguments, then the output path.
pub open spec fn ffmpeg_command_args(fps: u32, format: VideoFormat, output_path: Seq<char>) -> Seq<Seq<char>> {
    seq!["-y"@, "-f"@, "image2pipe"@, "-vcodec"@, "png"@, "-r"@, decimal(fps as nat), "-i"@, "-"@]
        + ffmpeg_args_of(format) + seq![output_path]
}

impl FfmpegCommandBuilder {
    /// The argument list that starts FFmpeg for `opts` and `format`, writing to `output_path`.
    pub fn build_args(opts: &RenderOptions, format: VideoFormat, output_path: &str) -> (res: Vec<String>)
        ensures
            texts(res@) == ffmpeg_command_args(opts.fps, format, output_path@),
            res@.len() == 16,
            texts(res@).subrange(9, 15) == ffmpeg_args_of(format),
            res@[6]@ == decimal(opts.fps as nat),
            res@[15]@ == output_path@,
    {
        let mut args: Vec<String> = Vec::new();
        args.push("-y".to_owned());
        args.push("-f".to_owned());
        args.push("image2pipe".to_owned());
        args.push("-vcodec".to_owned());
        args.push("png".to_owned());
        args.push("-r".to_owned());
        args.push(decimal_string(opts.fps as u64));
        args.push("-i".to_owned());
        args.push("-".to_owned());
        assert(texts(args@) =~= seq!["-y"@, "-f"@, "image2pipe"@, "-vcodec"@, "png"@, "-r"@, decimal(opts.fps as nat), "-i"@, "-"@]);
        let codec = format.ffmpeg_args();
        let ghost head = texts(args@);
        let mut i: usize = 0;
        while i < codec.len()
            invariant
                i <= codec@.len(),
                codec@.map_values(|s: &str| s@) == ffmpeg_args_of(format),
                texts(args@) == head + ffmpeg_args_of(format).take(i as int),
            decreases codec@.len() - i,
        {
            let a: &str = codec[i];
            assert(codec@.map_values(|s: &str| s@)[i as int] == a@);
            let ghost prev = args@;
            let owned = a.to_owned();
            args.push(owned);
            assert(args@ == prev.push(owned));
            assert(texts(args@) =~= texts(prev).push(a@));
            assert(ffmpeg_args_of(format).take(i + 1) =~= ffmpeg_args_of(format).take(i as int).push(a@));
            i = i + 1;
            assert(texts(args@) =~= head + ffmpeg_args_of(format).take(i as int));
        }
        assert(ffmpeg_args_of(format).take(i as int) =~= ffmpeg_args_of(format));
        args.push(output_path.to_owned());
        assert(texts(args@) =~= ffmpeg_command_args(opts.fps, format, output_path@));
        assert(texts(args@).subrange(9, 15) =~= ffmpeg_args_of(format));
        assert(args@[6]@ == texts(args@)[6]);
        assert(args@[15]@ == texts(args@)[15]);
        args
    }
}

/// The codec arguments name the codec of their format: H.264 with the plain
/// 4:2:0 pixel format exactly for MP4, VP9 with the alpha pixel format exactly
/// for transparent WebM.
pub proof fn law_codec_arguments_match_format(format: VideoFormat)
    ensures
        ffmpeg_args_of(format).contains("libx264"@) <==> format == VideoFormat::Mp4,
        ffmpeg_args_of(format).contains("yuv420p"@) <==> format == VideoFormat::Mp4,
        ffmpeg_args_of(format).contains("libvpx-vp9"@) <==> format == VideoFormat::WebmTransparent,
        ffmpeg_args_of(format).contains("yuva420p"@) <==> format == VideoFormat::WebmTransparent,
{
    reveal_strlit("-c:v");
    reveal_strlit("libx264");
    reveal_strlit("-pix_fmt");
    reveal_strlit("yuv420p");
    reveal_strlit("-movflags");
    reveal_strlit("+faststart");
    reveal_strlit("libvpx-vp9");
    reveal_strlit("yuva420p");
    reveal_strlit("-auto-alt-ref");
    reveal_strlit("0");
    let a = ffmpeg_args_of(format);
    match format {
        VideoFormat::Mp4 => {
            assert(a[1] == "libx264"@);
            assert(a[3] == "yuv420p"@);
            assert(!a.contains("libvpx-vp9"@)) by {
                assert("+faststart"@[0] != "libvpx-vp9"@[0]);
                assert("+faststart"@ != "libvpx-vp9"@);
            }
            assert(!a.contains("yuva420p"@)) by {
                assert("-pix_fmt"@[0] != "yuva420p"@[0]);
                assert("-pix_fmt"@ != "yuva420p"@);
            }
        },
        VideoFormat::WebmTransparent => {
            assert(a[1] == "libvpx-vp9"@);
            assert(a[3] == "yuva420p"@);
            assert forall|i: int| 0 <= i < a.len() implies a[i].len() != 7 by {
                assert(a[0].len() == 4 && a[1].len() == 10 && a[2].len() == 8);
                assert(a[3].len() == 8 && a[4].len() == 13 && a[5].len() == 1);
            }
            assert(!a.contains("libx264"@));
            assert(!a.contains("yuv420p"@));
        },
    }
}

/// The command line hands FFmpeg the codec arguments of the requested format,
/// between the piped-input arguments and the output path, and writes to the
/// requested output at the requested frame rate.
pub proof fn law_command_encodes_requested_format(fps: u32, format: VideoFormat, output_path: Seq<char>)
    ensures
        ffmpeg_command_args(fps, format, output_path).len() == 16,
        ffmpeg_command_args(fps, format, output_path).subrange(9, 15) == ffmpeg_args_of(format),
        ffmpeg_command_args(fps, format, output_path)[6] == decimal(fps as nat),
        ffmpeg_command_args(fps, format, output_path)[15] == output_path,
{
    assert(ffmpeg_command_args(fps, format, output_path).subrange(9, 15) =~= ffmpeg_args_of(format));
}

/// The steps of driving FFmpeg that can fail outside FFmpeg itself.
#[derive(Debug, Clone, Copy, PartialEq, Eq, Structural)]
pub enum FfmpegStage {
    /// Starting the process.
    Spawn,
    /// Taking hold of its standard input.
    Stdin,
    /// Writing a frame to it.
    WriteFrame,
    /// Waiting for it to exit.
    Wait,
}

/// The message of a failure at `stage`, given the underlying error's text
/// (unused where the stage has no underlying error).
pub open spec fn stage_failure_text(stage: FfmpegStage, detail: Seq<char>) -> Seq<char> {
    match stage {
        FfmpegStage::Spawn => "FFmpegプロセスの起動に失敗しました: "@ + detail,
        FfmpegStage::Stdin => "FFmpegの標準入力を取得できませんでした"@,
        FfmpegStage::WriteFrame => "フレームデータの書き込みに失敗しました: "@ + detail,
        FfmpegStage::Wait => "FFmpegプロセスの待機に失敗しました: "@ + detail,
    }
}

/// The message of an FFmpeg run that exited with a failure status.
pub open spec fn exit_failure_text(code: Option<i32>, stderr: Seq<char>) -> Seq<char> {
    "FFmpegの実行がエラーで終了しました (code: "@ + exit_code_text(code) + "):\n"@ + stderr
}

/// The error reported when driving FFmpeg fails at `stage`.
pub fn ffmpeg_stage_failure(stage: FfmpegStage, detail: &str) -> (res: Error)
    ensures
        res matches Error::Ffmpeg(m) && m@ == stage_failure_text(stage, detail@),
{
    let mut out = match stage {
        FfmpegStage::Spawn => "FFmpegプロセスの起動に失敗しました: ".to_owned(),
        FfmpegStage::Stdin => "FFmpegの標準入力を取得できませんでした".to_owned(),
        FfmpegStage::WriteFrame => "フレームデータの書き込みに失敗しました: ".to_owned(),
        FfmpegStage::Wait => "FFmpegプロセスの待機に失敗しました: ".to_owned(),
    };
    match stage {
        FfmpegStage::Stdin => {},
        _ => push_text(&mut out, detail),
    }
    Error::Ffmpeg(out)
}

/// The error reported when FFmpeg exits unsuccessfully, with its exit code
/// (`None` when it was stopped by a signal) and what it wrote to stderr.
pub fn ffmpeg_exit_failure(code: Option<i32>, stderr: &str) -> (res: Error)
    ensures
        res matches Error::Ffmpeg(m) && m@ == exit_failure_text(code, stderr@),
{
    let mut out = "FFmpegの実行がエラーで終了しました (code: ".to_owned();
    push_exit_code(&mut out, code);
    push_text(&mut out, "):\n");
    push_text(&mut out, stderr);
    Error::Ffmpeg(out)
}

} // verus!
