use css2mp4_core::command::{
    ffmpeg_exit_failure, ffmpeg_stage_failure, FfmpegCommandBuilder, FfmpegStage,
};
use css2mp4_core::error::Error;
use css2mp4_core::format::VideoFormat;
use css2mp4_core::options::RenderOptions;

#[test]
fn mp4_extension_selects_mp4() {
    assert_eq!(VideoFormat::from_output_path("out/video.mp4", false).unwrap(), VideoFormat::Mp4);
}

#[test]
fn webm_extension_selects_webm_in_any_case() {
    assert_eq!(
        VideoFormat::from_output_path("out/video.WebM", false).unwrap(),
        VideoFormat::WebmTransparent
    );
}

#[test]
fn mp4_extension_wins_over_transparent_flag() {
    assert_eq!(VideoFormat::from_output_path("a.MP4", true).unwrap(), VideoFormat::Mp4);
}

#[test]
fn transparent_flag_selects_webm_for_unknown_extension() {
    assert_eq!(
        VideoFormat::from_output_path("clip.mov", true).unwrap(),
        VideoFormat::WebmTransparent
    );
    assert_eq!(
        VideoFormat::from_output_path("clip", true).unwrap(),
        VideoFormat::WebmTransparent
    );
}

#[test]
fn unknown_extension_without_transparency_is_refused() {
    match VideoFormat::from_output_path("clip.gif", false) {
        Err(Error::UnknownOutputFormat(p)) => assert_eq!(p, "clip.gif"),
        other => panic!("unexpected: {:?}", other),
    }
    match VideoFormat::from_output_path("noext", false) {
        Err(Error::UnknownOutputFormat(p)) => assert_eq!(p, "noext"),
        other => panic!("unexpected: {:?}", other),
    }
}

#[test]
fn from_extension_decides_on_given_extension() {
    assert_eq!(
        VideoFormat::from_extension(Some("mP4".to_string()), false, "x").unwrap(),
        VideoFormat::Mp4
    );
    assert!(VideoFormat::from_extension(None, false, "x").is_err());
    assert_eq!(
        VideoFormat::from_extension(None, true, "x").unwrap(),
        VideoFormat::WebmTransparent
    );
}

#[test]
fn transparency_of_formats() {
    assert!(!VideoFormat::Mp4.is_transparent());
    assert!(VideoFormat::WebmTransparent.is_transparent());
}

#[test]
fn codec_arguments_per_format() {
    assert_eq!(
        VideoFormat::Mp4.ffmpeg_args(),
        vec!["-c:v", "libx264", "-pix_fmt", "yuv420p", "-movflags", "+faststart"]
    );
    assert_eq!(
        VideoFormat::WebmTransparent.ffmpeg_args(),
        vec!["-c:v", "libvpx-vp9", "-pix_fmt", "yuva420p", "-auto-alt-ref", "0"]
    );
}

#[test]
fn full_ffmpeg_command_line() {
    let mut opts = RenderOptions::default();
    opts.fps = 30;
    let args = FfmpegCommandBuilder::build_args(&opts, VideoFormat::WebmTransparent, "out.webm");
    let expected: Vec<String> = [
        "-y", "-f", "image2pipe", "-vcodec", "png", "-r", "30", "-i", "-", "-c:v", "libvpx-vp9",
        "-pix_fmt", "yuva420p", "-auto-alt-ref", "0", "out.webm",
    ]
    .iter()
    .map(|s| s.to_string())
    .collect();
    assert_eq!(args, expected);
}

#[test]
fn render_options_defaults() {
    let opts = RenderOptions::default();
    assert_eq!(opts.fps, 60);
    assert_eq!(opts.width, 1920);
    assert_eq!(opts.height, 1080);
    assert!(!opts.transparent);
    assert_eq!(opts.ffmpeg_path, "ffmpeg");
    assert!(opts.chrome_path.is_none());
    assert_eq!(opts.input, "");
    assert_eq!(opts.output, "");
}

#[test]
fn ffmpeg_exit_failure_message() {
    match ffmpeg_exit_failure(Some(-22), "bad input") {
        Error::Ffmpeg(m) => assert_eq!(m, "FFmpegの実行がエラーで終了しました (code: Some(-22)):\nbad input"),
        other => panic!("unexpected: {:?}", other),
    }
    match ffmpeg_exit_failure(None, "") {
        Error::Ffmpeg(m) => assert_eq!(m, "FFmpegの実行がエラーで終了しました (code: None):\n"),
        other => panic!("unexpected: {:?}", other),
    }
}

#[test]
fn ffmpeg_stage_failure_messages() {
    match ffmpeg_stage_failure(FfmpegStage::Spawn, "not found") {
        Error::Ffmpeg(m) => assert_eq!(m, "FFmpegプロセスの起動に失敗しました: not found"),
        other => panic!("unexpected: {:?}", other),
    }
    match ffmpeg_stage_failure(FfmpegStage::Stdin, "ignored") {
        Error::Ffmpeg(m) => assert_eq!(m, "FFmpegの標準入力を取得できませんでした"),
        other => panic!("unexpected: {:?}", other),
    }
    match ffmpeg_stage_failure(FfmpegStage::WriteFrame, "broken pipe") {
        Error::Ffmpeg(m) => assert_eq!(m, "フレームデータの書き込みに失敗しました: broken pipe"),
        other => panic!("unexpected: {:?}", other),
    }
    match ffmpeg_stage_failure(FfmpegStage::Wait, "x") {
        Error::Ffmpeg(m) => assert_eq!(m, "FFmpegプロセスの待機に失敗しました: x"),
        other => panic!("unexpected: {:?}", other),
    }
}

#[test]
fn validation_requires_existing_input() {
    let mut opts = RenderOptions::default();
    opts.input = "anim.html".to_string();
    assert!(opts.validate(true).is_ok());
    match opts.validate(false) {
        Err(Error::InputNotFound(p)) => assert_eq!(p, "anim.html"),
        other => panic!("unexpected: {:?}", other),
    }
}

#[test]
fn extension_is_read_from_last_piece() {
    assert_eq!(VideoFormat::from_output_path("dir.webm/clip.mp4", false).unwrap(), VideoFormat::Mp4);
    assert_eq!(VideoFormat::from_output_path("a.b/clip.tar.WEBM", false).unwrap(), VideoFormat::WebmTransparent);
    assert!(VideoFormat::from_output_path("dir/.mp4", false).is_err());
    assert!(VideoFormat::from_output_path("clip.mp4/..", false).is_err());
}
