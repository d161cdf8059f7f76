use css2mp4_core::error::Error;
use css2mp4_core::format::VideoFormat;
use css2mp4_core::requests::{
    attachment_disposition, content_type_for, default_format, default_fps, default_height,
    default_width, download_file_name, download_name_or_default, render_output_extension,
    render_output_file_name, select_preview_source, server_address, ymmp_output_path,
    PreviewSource, ServeArgs,
};

#[test]
fn request_defaults() {
    assert_eq!(default_width(), 1920);
    assert_eq!(default_height(), 1080);
    assert_eq!(default_format(), "mp4");
    assert_eq!(default_fps(), 60);
}

#[test]
fn serve_defaults_and_address() {
    let args = ServeArgs::with_defaults();
    assert_eq!(args.host, "127.0.0.1");
    assert_eq!(args.port, 3000);
    assert_eq!(server_address(&args.host, args.port), "127.0.0.1:3000");
    assert_eq!(server_address("0.0.0.0", 8080), "0.0.0.0:8080");
    assert_eq!(server_address("h", 0), "h:0");
}

#[test]
fn render_extension_choice() {
    assert_eq!(render_output_extension("mp4", false), "mp4");
    assert_eq!(render_output_extension("WEBM", false), "webm");
    assert_eq!(render_output_extension("mp4", true), "webm");
    assert_eq!(render_output_extension("gif", false), "mp4");
}

#[test]
fn render_output_name() {
    assert_eq!(render_output_file_name("1234-abcd", "webm"), "1234-abcd.webm");
}

#[test]
fn download_headers() {
    assert_eq!(content_type_for("x.webm"), "video/webm");
    assert_eq!(content_type_for("x.mp4"), "video/mp4");
    assert_eq!(content_type_for("webm"), "video/mp4");
    assert_eq!(attachment_disposition("a.mp4"), "attachment; filename=\"a.mp4\"");
}

#[test]
fn download_names() {
    assert_eq!(download_name_or_default(None), "output.mp4");
    assert_eq!(download_name_or_default(Some("v.webm".to_string())), "v.webm");
    assert_eq!(download_file_name("/tmp/css2mp4_renders/t1.webm"), "t1.webm");
    assert_eq!(download_file_name("/"), "output.mp4");
}

#[test]
fn preview_source_choice() {
    match select_preview_source(Some("<p>".to_string()), Some("a.html".to_string())) {
        Ok(PreviewSource::Html(h)) => assert_eq!(h, "<p>"),
        other => panic!("unexpected: {:?}", other),
    }
    match select_preview_source(None, Some("a.html".to_string())) {
        Ok(PreviewSource::Path(p)) => assert_eq!(p, "a.html"),
        other => panic!("unexpected: {:?}", other),
    }
    match select_preview_source(None, None) {
        Err(Error::BrowserLaunch(m)) => assert_eq!(m, "入力 HTML またはパスが指定されていません"),
        other => panic!("unexpected: {:?}", other),
    }
}

#[test]
fn export_output_defaults_to_input_project() {
    assert_eq!(ymmp_output_path(None, "in.ymmp".to_string()), "in.ymmp");
    assert_eq!(
        ymmp_output_path(Some("out.ymmp".to_string()), "in.ymmp".to_string()),
        "out.ymmp"
    );
}

#[test]
fn render_extension_reads_back_as_its_format() {
    for (fmt, transparent, expected) in [
        ("webm", false, VideoFormat::WebmTransparent),
        ("MP4", true, VideoFormat::WebmTransparent),
        ("mp4", false, VideoFormat::Mp4),
        ("gif", false, VideoFormat::Mp4),
    ] {
        let ext = render_output_extension(fmt, transparent);
        let name = render_output_file_name("task", ext);
        assert_eq!(VideoFormat::from_output_path(&name, false).unwrap(), expected);
        assert_eq!(VideoFormat::from_output_path(&name, true).unwrap(), expected);
        let media = if expected == VideoFormat::Mp4 { "video/mp4" } else { "video/webm" };
        assert_eq!(content_type_for(&name), media);
    }
}

#[test]
fn download_name_of_portable_paths() {
    assert_eq!(download_file_name("out/clip.webm"), "clip.webm");
    assert_eq!(download_file_name("out/clip.webm/."), "clip.webm");
    assert_eq!(download_file_name("out/clip.webm//"), "clip.webm");
    assert_eq!(download_file_name("out/.."), "output.mp4");
    assert_eq!(download_file_name(""), "output.mp4");
    assert_eq!(download_file_name("."), "output.mp4");
}
